//! The delivery of one message to one destination domain, as a state
//! machine.
//!
//! A `Delivery` performs nothing itself.  It names the next thing to do
//! (ask the name service, connect, send, receive) and is told how that
//! went.  The program around it owns the resolver and the connection;
//! every decision is made here.

use vstd::prelude::*;
use crate::dispatch::{admissible, check};
use crate::error::DeliveryError;
use crate::resolver::{MxRecord, MxRecordView, Query, QueryView, Resolver, ResolverView};
use crate::smtp::args::{Domain, DomainView, IpAddress};
use crate::smtp::client::{Client, ClientView, ForeignMessage, ForeignMessageView, State};
use crate::smtp::message::{Message, MessageView};

verus! {

/// The port on which mail is handed over.
pub const SMTP_PORT: u16 = 25;

/// How long a connection may take to be established, in milliseconds.
pub const CONNECT_TIMEOUT_MILLIS: u64 = 2500;

/// What happened to the thing that a delivery asked for.
#[derive(Debug, PartialEq, Eq)]
pub enum Event {
    /// The mail exchanger records that were asked for; none where the
    /// lookup failed.
    Exchangers(Vec<MxRecord>),
    /// The addresses that were asked for; none where the lookup failed.
    Addresses(Vec<IpAddress>),
    /// The connection stands.
    Connected,
    /// The connection was refused or broke while it was set up.
    ConnectFailed,
    /// The connection was not established in time.
    ConnectTimedOut,
    /// What was to be sent has been sent.
    Sent,
    /// The server sent these characters.
    Received(String),
    /// The server closed the connection, or it broke.
    Closed,
}

/// The mathematical value of an `Event`.
pub enum EventView {
    Exchangers(Seq<MxRecordView>),
    Addresses(Seq<IpAddress>),
    Connected,
    ConnectFailed,
    ConnectTimedOut,
    Sent,
    Received(Seq<char>),
    Closed,
}

impl View for Event {
    type V = EventView;

    open spec fn view(&self) -> EventView {
        match self {
            Event::Exchangers(records) => EventView::Exchangers(records.deep_view()),
            Event::Addresses(found) => EventView::Addresses(found@),
            Event::Connected => EventView::Connected,
            Event::ConnectFailed => EventView::ConnectFailed,
            Event::ConnectTimedOut => EventView::ConnectTimedOut,
            Event::Sent => EventView::Sent,
            Event::Received(text) => EventView::Received(text@),
            Event::Closed => EventView::Closed,
        }
    }
}

/// How a delivery ended.
#[derive(Debug, Clone, Copy, PartialEq, Eq, Structural)]
pub enum Status {
    /// The session ran to its end.
    Completed,
    /// The connection was lost while the session was in the given stage.
    Interrupted(State),
    /// The delivery was given up.
    Failed(DeliveryError),
}

/// The result of a delivery.
#[derive(Debug, PartialEq, Eq)]
pub struct Outcome {
    /// How the delivery ended.
    pub status: Status,
    /// The notification about the recipients that the server refused.
    pub bounce: Option<Message>,
}

/// The mathematical value of an `Outcome`.
pub struct OutcomeView {
    pub status: Status,
    pub bounce: Option<MessageView>,
}

impl View for Outcome {
    type V = OutcomeView;

    open spec fn view(&self) -> OutcomeView {
        OutcomeView { status: self.status, bounce: self.bounce.deep_view() }
    }
}

impl DeepView for Outcome {
    type V = OutcomeView;

    open spec fn deep_view(&self) -> OutcomeView {
        self@
    }
}

/// What is to be done next for a delivery.
#[derive(Debug, PartialEq, Eq)]
pub enum Action {
    /// Ask the name service and report `Exchangers` or `Addresses`.
    Ask(Query),
    /// Connect and report `Connected`, `ConnectFailed` or
    /// `ConnectTimedOut`.
    Connect { address: IpAddress, port: u16, timeout_millis: u64 },
    /// Send the text and report `Sent` or `Closed`.
    Send(String),
    /// Read from the connection and report `Received` or `Closed`.
    Receive,
    /// Close the connection, if there is one: the delivery is over.
    Finish(Outcome),
    /// Nothing: the delivery was over before.
    Idle,
}

/// The mathematical value of an `Action`.
pub enum ActionView {
    Ask(QueryView),
    Connect { address: IpAddress, port: u16, timeout_millis: u64 },
    Send(Seq<char>),
    Receive,
    Finish(OutcomeView),
    Idle,
}

impl View for Action {
    type V = ActionView;

    open spec fn view(&self) -> ActionView {
        match self {
            Action::Ask(query) => ActionView::Ask(query@),
            Action::Connect { address, port, timeout_millis } => ActionView::Connect {
                address: *address,
                port: *port,
                timeout_millis: *timeout_millis,
            },
            Action::Send(text) => ActionView::Send(text@),
            Action::Receive => ActionView::Receive,
            Action::Finish(outcome) => ActionView::Finish(outcome@),
            Action::Idle => ActionView::Idle,
        }
    }
}

/// How far a delivery has come.
pub enum Delivery {
    /// The host of the destination is being looked up.
    Resolving { hostname: Domain, resolver: Resolver, message: ForeignMessage },
    /// The connection is being set up.
    Connecting { hostname: Domain, message: ForeignMessage },
    /// The session waits for the server.
    Receiving { client: Client },
    /// The session waits for its output to be sent.
    Sending { client: Client },
    /// The delivery is over.
    Done,
}

/// The mathematical value of a `Delivery`.
pub enum DeliveryView {
    Resolving { hostname: DomainView, resolver: ResolverView, message: ForeignMessageView },
    Connecting { hostname: DomainView, message: ForeignMessageView },
    Receiving { client: ClientView },
    Sending { client: ClientView },
    Done,
}

/// The end of a delivery that was given up before a session began.
pub open spec fn given_up(error: DeliveryError) -> (DeliveryView, ActionView) {
    (
        DeliveryView::Done,
        ActionView::Finish(OutcomeView { status: Status::Failed(error), bounce: None }),
    )
}

/// The end of a delivery whose session has begun.  Whatever the reason,
/// the sender is told about the recipients that were refused until then.
pub open spec fn ended(client: ClientView, status: Status) -> (DeliveryView, ActionView) {
    (
        DeliveryView::Done,
        ActionView::Finish(OutcomeView { status, bounce: client.undeliverable() }),
    )
}

/// How a session stands when its connection is gone.
pub open spec fn standing(client: ClientView) -> Status {
    match client.failure {
        Some(error) => Status::Failed(error),
        None => if client.state == State::ShouldExit {
            Status::Completed
        } else {
            Status::Interrupted(client.state)
        },
    }
}

/// The step to the connection, once the address is known.
pub open spec fn connect(hostname: DomainView, message: ForeignMessageView, address: IpAddress) -> (
    DeliveryView,
    ActionView,
) {
    (
        DeliveryView::Connecting { hostname, message },
        ActionView::Connect {
            address,
            port: SMTP_PORT,
            timeout_millis: CONNECT_TIMEOUT_MILLIS,
        },
    )
}

impl DeliveryView {
    /// The start of a delivery.  A message that cannot be handed to a
    /// session is given up at once.  Otherwise the host of the domain of
    /// the recipients is looked for: a literal address is connected to,
    /// for a name the name service is asked.
    pub open spec fn begin(hostname: DomainView, message: ForeignMessageView) -> (
        DeliveryView,
        ActionView,
    ) {
        match admissible(message) {
            Err(error) => given_up(error),
            Ok(_) => match ResolverView::begin(message.forward_paths[0].domain) {
                (ResolverView::Finished(Some(address)), _) => connect(hostname, message, address),
                (resolver, Some(query)) => (
                    DeliveryView::Resolving { hostname, resolver, message },
                    ActionView::Ask(query),
                ),
                _ => given_up(DeliveryError::ResolutionFailure),
            },
        }
    }

    /// What a delivery does when it is told what happened.
    ///
    /// While the host is looked up, the answers of the name service lead
    /// to the next question or to the connection; with no address, and on
    /// every other event, the delivery is given up for want of a host.
    /// While the connection is set up, its success starts the session; a
    /// timeout and any other event give the delivery up.  In the session,
    /// what the server sends is handed to the client and its answer is
    /// sent; the delivery ends when the client has sent its last command,
    /// when the client gives up, and when the connection is lost.
    pub open spec fn step(self, event: EventView) -> (DeliveryView, ActionView) {
        match self {
            DeliveryView::Resolving { hostname, resolver, message } => match event {
                EventView::Exchangers(records) => match resolver.exchangers(records) {
                    (next, Some(query)) => (
                        DeliveryView::Resolving { hostname, resolver: next, message },
                        ActionView::Ask(query),
                    ),
                    _ => given_up(DeliveryError::ResolutionFailure),
                },
                EventView::Addresses(found) => match resolver.addresses(found) {
                    ResolverView::Finished(Some(address)) => connect(hostname, message, address),
                    _ => given_up(DeliveryError::ResolutionFailure),
                },
                _ => given_up(DeliveryError::ResolutionFailure),
            },
            DeliveryView::Connecting { hostname, message } => match event {
                EventView::Connected => (
                    DeliveryView::Receiving { client: ClientView::initial(hostname, message) },
                    ActionView::Receive,
                ),
                EventView::ConnectTimedOut => given_up(DeliveryError::ConnectionTimeout),
                _ => given_up(DeliveryError::ConnectionError),
            },
            DeliveryView::Receiving { client } => match event {
                EventView::Received(text) => {
                    let (after, output) = client.push(text);
                    if after.failure is Some {
                        ended(after, standing(after))
                    } else {
                        match output {
                            Some(output) => (
                                DeliveryView::Sending { client: after },
                                ActionView::Send(output.text()),
                            ),
                            None => (DeliveryView::Receiving { client: after }, ActionView::Receive),
                        }
                    }
                },
                EventView::Closed => ended(client, standing(client)),
                _ => ended(client, Status::Failed(DeliveryError::ConnectionError)),
            },
            DeliveryView::Sending { client } => match event {
                EventView::Sent => if client.state == State::ShouldExit {
                    ended(client, standing(client))
                } else {
                    (DeliveryView::Receiving { client }, ActionView::Receive)
                },
                EventView::Closed => ended(client, standing(client)),
                _ => ended(client, Status::Failed(DeliveryError::ConnectionError)),
            },
            DeliveryView::Done => (DeliveryView::Done, ActionView::Idle),
        }
    }
}

impl View for Delivery {
    type V = DeliveryView;

    open spec fn view(&self) -> DeliveryView {
        match self {
            Delivery::Resolving { hostname, resolver, message } => DeliveryView::Resolving {
                hostname: hostname@,
                resolver: resolver@,
                message: message@,
            },
            Delivery::Connecting { hostname, message } => DeliveryView::Connecting {
                hostname: hostname@,
                message: message@,
            },
            Delivery::Receiving { client } => DeliveryView::Receiving { client: client@ },
            Delivery::Sending { client } => DeliveryView::Sending { client: client@ },
            Delivery::Done => DeliveryView::Done,
        }
    }
}

impl DeepView for Delivery {
    type V = DeliveryView;

    open spec fn deep_view(&self) -> DeliveryView {
        self@
    }
}

/// Ends a delivery that was given up before a session began.
fn give_up(error: DeliveryError) -> (r: (Delivery, Action))
    ensures
        (r.0@, r.1@) == given_up(error),
{
    (Delivery::Done, Action::Finish(Outcome { status: Status::Failed(error), bounce: None }))
}

/// How a session stands when its connection is gone.
fn status_of(client: &Client) -> (r: Status)
    ensures
        r == standing(client@),
{
    match client.failure() {
        Some(error) => Status::Failed(error),
        None => if client.should_exit() {
            Status::Completed
        } else {
            Status::Interrupted(client.state())
        },
    }
}

/// Ends a delivery whose session has begun.
fn end(client: Client, status: Status) -> (r: (Delivery, Action))
    ensures
        (r.0@, r.1@) == ended(client@, status),
{
    (Delivery::Done, Action::Finish(Outcome { status, bounce: client.undeliverable() }))
}

/// Goes on to the connection.
fn connect_to(hostname: Domain, message: ForeignMessage, address: IpAddress) -> (r: (
    Delivery,
    Action,
))
    ensures
        (r.0@, r.1@) == connect(hostname@, message@, address),
{
    (
        Delivery::Connecting { hostname, message },
        Action::Connect { address, port: SMTP_PORT, timeout_millis: CONNECT_TIMEOUT_MILLIS },
    )
}

impl Delivery {
    /// Starts the delivery of a message.  The client will greet the
    /// server as `hostname`.
    pub fn begin(hostname: Domain, message: ForeignMessage) -> (r: (Delivery, Action))
        ensures
            (r.0@, r.1@) == DeliveryView::begin(hostname@, message@),
    {
        match check(&message) {
            Err(error) => give_up(error),
            Ok(_) => {
                let (resolver, query) = Resolver::begin(&message.forward_paths[0].path().domain);
                match query {
                    Some(query) => (
                        Delivery::Resolving { hostname, resolver, message },
                        Action::Ask(query),
                    ),
                    None => match resolver.result() {
                        Some(Some(address)) => connect_to(hostname, message, address),
                        _ => give_up(DeliveryError::ResolutionFailure),
                    },
                }
            },
        }
    }

    /// Takes what happened and says what to do next.
    pub fn step(self, event: Event) -> (r: (Delivery, Action))
        ensures
            (r.0@, r.1@) == self@.step(event@),
    {
        match self {
            Delivery::Resolving { hostname, resolver, message } => match event {
                Event::Exchangers(records) => {
                    let (next, query) = resolver.exchangers(&records);
                    match query {
                        Some(query) => (
                            Delivery::Resolving { hostname, resolver: next, message },
                            Action::Ask(query),
                        ),
                        None => give_up(DeliveryError::ResolutionFailure),
                    }
                },
                Event::Addresses(found) => {
                    let next = resolver.addresses(&found);
                    match next.result() {
                        Some(Some(address)) => connect_to(hostname, message, address),
                        _ => give_up(DeliveryError::ResolutionFailure),
                    }
                },
                _ => give_up(DeliveryError::ResolutionFailure),
            },
            Delivery::Connecting { hostname, message } => match event {
                Event::Connected => (
                    Delivery::Receiving { client: Client::initiate(message).with_hostname(hostname) },
                    Action::Receive,
                ),
                Event::ConnectTimedOut => give_up(DeliveryError::ConnectionTimeout),
                _ => give_up(DeliveryError::ConnectionError),
            },
            Delivery::Receiving { client } => match event {
                Event::Received(text) => {
                    let mut client = client;
                    let output = client.push(text.as_str());
                    if client.failure().is_some() {
                        let status = status_of(&client);
                        end(client, status)
                    } else {
                        match output {
                            Some(output) => (
                                Delivery::Sending { client },
                                Action::Send(output.to_string()),
                            ),
                            None => (Delivery::Receiving { client }, Action::Receive),
                        }
                    }
                },
                Event::Closed => {
                    let status = status_of(&client);
                    end(client, status)
                },
                _ => end(client, Status::Failed(DeliveryError::ConnectionError)),
            },
            Delivery::Sending { client } => match event {
                Event::Sent => if client.should_exit() {
                    let status = status_of(&client);
                    end(client, status)
                } else {
                    (Delivery::Receiving { client }, Action::Receive)
                },
                Event::Closed => {
                    let status = status_of(&client);
                    end(client, status)
                },
                _ => end(client, Status::Failed(DeliveryError::ConnectionError)),
            },
            Delivery::Done => (Delivery::Done, Action::Idle),
        }
    }

    /// Whether the delivery is over.
    pub fn is_done(&self) -> (r: bool)
        ensures
            r == (self@ is Done),
    {
        match self {
            Delivery::Done => true,
            _ => false,
        }
    }
}

} // verus!
