//! The client side of one mail transaction, as a state machine that is
//! fed the server's replies and answers with what to send next.
//!
//! The machine never touches a transport.  `Client::push` takes whatever
//! bytes arrived, however they were cut, and returns at most one thing to
//! send.  What it does is stated once, over mathematical values, by
//! `ClientView::push`; the executable code is proved to follow it.

use vstd::prelude::*;
use crate::error::DeliveryError;
use crate::smtp::args::{
    Domain, DomainView, ForwardPath, ForwardPathView, Hostname, Path, PathView, ReversePath,
    ReversePathView,
};
use crate::smtp::command::{Command, CommandView};
use crate::smtp::message::{notification, rejection_line, Message, MessageView};
use crate::smtp::response::{classify, ResponseCode};
use crate::text::{crlf, digit_value, ends_with_crlf, has_line_end, is_digit};

verus! {

/// A mailbox on another host.  The only way to come by one is
/// `Config::foreign_path`, which refuses every mailbox whose domain is one
/// of the host's own names: a value of this type is the evidence that the
/// check was made.
#[derive(Debug, PartialEq, Eq)]
pub struct ForeignPath(Path);

impl View for ForeignPath {
    type V = PathView;

    closed spec fn view(&self) -> PathView {
        self.0@
    }
}

impl DeepView for ForeignPath {
    type V = PathView;

    open spec fn deep_view(&self) -> PathView {
        self@
    }
}

impl Clone for ForeignPath {
    fn clone(&self) -> (r: Self)
        ensures
            r@ == self@,
    {
        ForeignPath(self.0.clone())
    }
}

impl ForeignPath {
    /// Wraps a mailbox that was found to be on another host.
    pub(crate) fn new(path: Path) -> (r: ForeignPath)
        ensures
            r@ == path@,
    {
        ForeignPath(path)
    }

    /// The mailbox.
    pub fn path(&self) -> (r: &Path)
        ensures
            r@ == self@,
    {
        &self.0
    }

    /// Gives the mailbox back.
    pub fn into_path(self) -> (r: Path)
        ensures
            r@ == self@,
    {
        self.0
    }
}

impl From<ForeignPath> for ForwardPath {
    fn from(other: ForeignPath) -> (r: ForwardPath)
        ensures
            r@ == ForwardPathView::Regular(other@),
    {
        ForwardPath::Regular(other.0)
    }
}

impl vstd::std_specs::convert::FromSpecImpl<ForeignPath> for ForwardPath {
    open spec fn obeys_from_spec() -> bool {
        true
    }

    closed spec fn from_spec(other: ForeignPath) -> ForwardPath {
        ForwardPath::Regular(other.0)
    }
}

/// A message all of whose recipients are on other hosts.
#[derive(Debug, PartialEq, Eq)]
pub struct ForeignMessage {
    pub reverse_path: ReversePath,
    pub forward_paths: Vec<ForeignPath>,
    pub data: Vec<String>,
}

/// The mathematical value of a `ForeignMessage`.
pub struct ForeignMessageView {
    pub reverse_path: ReversePathView,
    pub forward_paths: Seq<PathView>,
    pub data: Seq<Seq<char>>,
}

impl ForeignMessageView {
    /// The same message with its recipients as ordinary forward paths.
    pub open spec fn as_message(self) -> MessageView {
        MessageView {
            reverse_path: self.reverse_path,
            forward_paths: self.forward_paths.map_values(
                |p: PathView| ForwardPathView::Regular(p),
            ),
            data: self.data,
        }
    }
}

impl View for ForeignMessage {
    type V = ForeignMessageView;

    open spec fn view(&self) -> ForeignMessageView {
        ForeignMessageView {
            reverse_path: self.reverse_path@,
            forward_paths: self.forward_paths.deep_view(),
            data: self.data.deep_view(),
        }
    }
}

impl DeepView for ForeignMessage {
    type V = ForeignMessageView;

    open spec fn deep_view(&self) -> ForeignMessageView {
        self@
    }
}

/// Copies a list of lines.
pub fn clone_lines(lines: &Vec<String>) -> (r: Vec<String>)
    ensures
        r.deep_view() == lines.deep_view(),
{
    let mut copy: Vec<String> = Vec::new();
    let mut i: usize = 0;
    while i < lines.len()
        invariant
            0 <= i <= lines.len(),
            copy.len() == i,
            forall|j: int| 0 <= j < i ==> copy[j]@ == lines[j]@,
        decreases lines.len() - i,
    {
        copy.push(lines[i].clone());
        i += 1;
    }
    assert(copy.deep_view() =~= lines.deep_view());
    copy
}

/// Copies a list of mailboxes.
pub fn clone_paths(paths: &Vec<ForeignPath>) -> (r: Vec<ForeignPath>)
    ensures
        r.deep_view() == paths.deep_view(),
{
    let mut copy: Vec<ForeignPath> = Vec::new();
    let mut i: usize = 0;
    while i < paths.len()
        invariant
            0 <= i <= paths.len(),
            copy.len() == i,
            forall|j: int| 0 <= j < i ==> copy[j]@ == paths[j]@,
        decreases paths.len() - i,
    {
        copy.push(paths[i].clone());
        i += 1;
    }
    assert(copy.deep_view() =~= paths.deep_view());
    copy
}

impl Clone for ForeignMessage {
    fn clone(&self) -> (r: Self)
        ensures
            r@ == self@,
    {
        ForeignMessage {
            reverse_path: self.reverse_path.clone(),
            forward_paths: clone_paths(&self.forward_paths),
            data: clone_lines(&self.data),
        }
    }
}

impl ForeignMessage {
    /// Puts a message together from its three parts.
    pub fn from_parts(
        reverse_path: ReversePath,
        forward_paths: Vec<ForeignPath>,
        data: Vec<String>,
    ) -> (r: ForeignMessage)
        ensures
            r@ == (ForeignMessageView {
                reverse_path: reverse_path@,
                forward_paths: forward_paths.deep_view(),
                data: data.deep_view(),
            }),
    {
        ForeignMessage { reverse_path, forward_paths, data }
    }

    /// The same message with its recipients as ordinary forward paths.
    pub fn into_message(self) -> (r: Message)
        ensures
            r@ == self@.as_message(),
    {
        let ForeignMessage { reverse_path, forward_paths, data } = self;
        let ghost before = forward_paths.deep_view();
        let mut recipients: Vec<ForwardPath> = Vec::new();
        let mut i: usize = 0;
        while i < forward_paths.len()
            invariant
                0 <= i <= forward_paths.len(),
                recipients.len() == i,
                before == forward_paths.deep_view(),
                forall|j: int|
                    0 <= j < i ==> recipients[j]@ == ForwardPathView::Regular(before[j]),
            decreases forward_paths.len() - i,
        {
            recipients.push(ForwardPath::Regular(forward_paths[i].path().clone()));
            i += 1;
        }
        let message = Message { reverse_path, forward_paths: recipients, data };
        assert(message@.forward_paths =~= self@.as_message().forward_paths);
        message
    }
}

impl Default for ForeignMessage {
    fn default() -> (r: ForeignMessage)
        ensures
            r@ == (ForeignMessageView {
                reverse_path: ReversePathView::Null,
                forward_paths: Seq::<PathView>::empty(),
                data: Seq::<Seq<char>>::empty(),
            }),
    {
        let message = ForeignMessage {
            reverse_path: ReversePath::Null,
            forward_paths: Vec::new(),
            data: Vec::new(),
        };
        assert(message@.forward_paths =~= Seq::<PathView>::empty());
        assert(message@.data =~= Seq::<Seq<char>>::empty());
        message
    }
}

impl From<ForeignMessage> for Message {
    fn from(other: ForeignMessage) -> (r: Message)
        ensures
            r@ == other@.as_message(),
    {
        other.into_message()
    }
}

impl vstd::std_specs::convert::FromSpecImpl<ForeignMessage> for Message {
    open spec fn obeys_from_spec() -> bool {
        false
    }

    open spec fn from_spec(other: ForeignMessage) -> Message {
        arbitrary()
    }
}

/// The stages of a session, in the order in which they are passed.
#[derive(Debug, Clone, Copy, PartialEq, Eq, Structural)]
pub enum State {
    /// Connected; the greeting of the server is awaited.
    Initiated,
    /// The client has introduced itself.
    Greeted,
    /// The sender has been named.
    SentReversePath,
    /// A recipient has been named and its reply is awaited.
    SendingForwardPaths,
    /// All recipients have been named and the body has been announced.
    SentForwardPaths,
    /// The body has been sent.
    SentData,
    /// The session is over.
    ShouldExit,
}

impl Default for State {
    fn default() -> (r: State)
        ensures
            r == State::Initiated,
    {
        State::Initiated
    }
}

/// What the client is to send next.
#[derive(Debug, PartialEq, Eq)]
pub enum Output {
    /// One command line.
    Command(Command),
    /// The lines of the message body.
    Data(Vec<String>),
}

/// The mathematical value of an `Output`.
pub enum OutputView {
    Command(CommandView),
    Data(Seq<Seq<char>>),
}

/// The lines of a body as they are transmitted, each followed by the line
/// terminator.  Lines are sent as they are.
pub open spec fn body_text(lines: Seq<Seq<char>>) -> Seq<char>
    decreases lines.len(),
{
    if lines.len() == 0 {
        Seq::<char>::empty()
    } else {
        body_text(lines.drop_last()) + lines.last() + crlf()
    }
}

impl OutputView {
    /// The characters to transmit: the command line, or the body followed
    /// by a line that holds a single dot.
    pub open spec fn text(self) -> Seq<char> {
        match self {
            OutputView::Command(command) => command.text(),
            OutputView::Data(lines) => body_text(lines) + seq!['.'] + crlf(),
        }
    }
}

impl View for Output {
    type V = OutputView;

    open spec fn view(&self) -> OutputView {
        match self {
            Output::Command(command) => OutputView::Command(command@),
            Output::Data(lines) => OutputView::Data(lines.deep_view()),
        }
    }
}

impl DeepView for Output {
    type V = OutputView;

    open spec fn deep_view(&self) -> OutputView {
        self@
    }
}

impl Output {
    /// The characters to transmit.
    pub fn to_string(&self) -> (r: String)
        ensures
            r@ == self@.text(),
    {
        match self {
            Output::Command(command) => command.to_string(),
            Output::Data(lines) => {
                proof {
                    reveal_strlit("\r\n");
                    reveal_strlit(".\r\n");
                }
                let mut out = String::new();
                let mut i: usize = 0;
                while i < lines.len()
                    invariant
                        0 <= i <= lines.len(),
                        out@ == body_text(lines.deep_view().take(i as int)),
                        "\r\n"@ == crlf(),
                    decreases lines.len() - i,
                {
                    proof {
                        let upto = lines.deep_view().take(i + 1);
                        assert(upto.drop_last() =~= lines.deep_view().take(i as int));
                        assert(upto.last() == lines[i as int]@);
                    }
                    out.append(lines[i].as_str());
                    out.append("\r\n");
                    i += 1;
                }
                assert(lines.deep_view().take(i as int) =~= lines.deep_view());
                out.append(".\r\n");
                assert(out@ =~= self@.text());
                out
            },
        }
    }
}

/// The status that a complete reply line carries: the number spelled by
/// its first three characters, classified.  A line with a character
/// outside ASCII, a line that does not begin with three digits and a line
/// whose number the client does not act on carry none.
pub open spec fn reply_code(line: Seq<char>) -> Option<ResponseCode> {
    if line.len() >= 3 && vstd::utf8::is_ascii_chars(line) && is_digit(line[0]) && is_digit(
        line[1],
    ) && is_digit(line[2]) {
        classify(
            (digit_value(line[0]) * 100 + digit_value(line[1]) * 10 + digit_value(line[2])) as u16,
        )
    } else {
        None
    }
}

/// The mathematical value of a `Client`.
pub struct ClientView {
    /// The stage the session is in.
    pub state: State,
    /// Why the session was given up, once it was.
    pub failure: Option<DeliveryError>,
    /// The name under which the client greets the server.
    pub hostname: DomainView,
    /// The characters received since the last complete line.
    pub reply: Seq<char>,
    /// The sender of the message.
    pub reverse_path: ReversePathView,
    /// The recipients that have not been named to the server yet.
    pub pending: Seq<PathView>,
    /// The lines of the message.
    pub data: Seq<Seq<char>>,
    /// The recipient named last, until it is refused.
    pub last_sent_path: Option<PathView>,
    /// The recipients that the server refused, in the order of refusal.
    pub rejected: Seq<PathView>,
}

impl ClientView {
    /// The session at its start.
    pub open spec fn initial(hostname: DomainView, message: ForeignMessageView) -> ClientView {
        ClientView {
            state: State::Initiated,
            failure: None,
            hostname,
            reply: Seq::<char>::empty(),
            reverse_path: message.reverse_path,
            pending: message.forward_paths,
            data: message.data,
            last_sent_path: None,
            rejected: Seq::<PathView>::empty(),
        }
    }

    /// Whether the session takes no more input: it has ended or it has
    /// been given up.
    pub open spec fn closed(self) -> bool {
        self.state == State::ShouldExit || self.failure is Some
    }

    /// Gives the session up.  Nothing is sent.
    pub open spec fn fail(self, error: DeliveryError) -> (ClientView, Option<OutputView>) {
        (ClientView { failure: Some(error), ..self }, None)
    }

    /// Moves the recipient named last, if there still is one, to the
    /// refused ones.
    pub open spec fn reject_last(self) -> ClientView {
        match self.last_sent_path {
            Some(path) => ClientView {
                rejected: self.rejected.push(path),
                last_sent_path: None,
                ..self
            },
            None => self,
        }
    }

    /// Names the next pending recipient, or announces the body once none
    /// is left.
    pub open spec fn next_recipient(self) -> (ClientView, Option<OutputView>) {
        if self.pending.len() > 0 {
            (
                ClientView {
                    state: State::SendingForwardPaths,
                    pending: self.pending.drop_first(),
                    last_sent_path: Some(self.pending[0]),
                    ..self
                },
                Some(
                    OutputView::Command(
                        CommandView::Rcpt(ForwardPathView::Regular(self.pending[0])),
                    ),
                ),
            )
        } else {
            (
                ClientView { state: State::SentForwardPaths, ..self },
                Some(OutputView::Command(CommandView::Data)),
            )
        }
    }

    /// The reaction of an open session to a classified reply.
    ///
    /// Each stage accepts the replies that the protocol allows there and
    /// moves on; while recipients are being named a failure refuses the
    /// recipient named last and the session goes on with the next.  A
    /// failure in answer to the announcement of the body still refuses
    /// the recipient named last, and then, like every other reply that a
    /// stage does not allow, gives the session up.
    pub open spec fn react(self, code: ResponseCode) -> (ClientView, Option<OutputView>) {
        match self.state {
            State::Initiated => match code {
                ResponseCode::ServiceReady => (
                    ClientView { state: State::Greeted, ..self },
                    Some(OutputView::Command(CommandView::Ehlo(self.hostname))),
                ),
                _ => self.fail(DeliveryError::ProtocolViolation),
            },
            State::Greeted => match code {
                ResponseCode::Okay => (
                    ClientView { state: State::SentReversePath, ..self },
                    Some(OutputView::Command(CommandView::Mail(self.reverse_path))),
                ),
                _ => self.fail(DeliveryError::ProtocolViolation),
            },
            State::SentReversePath => match code {
                ResponseCode::Okay => if self.pending.len() > 0 {
                    self.next_recipient()
                } else {
                    self.fail(DeliveryError::NoForwardPaths)
                },
                _ => self.fail(DeliveryError::ProtocolViolation),
            },
            State::SendingForwardPaths => match code {
                ResponseCode::Negative => self.reject_last().next_recipient(),
                ResponseCode::Okay | ResponseCode::UserNotLocalWillForward => self.next_recipient(),
                _ => self.fail(DeliveryError::ProtocolViolation),
            },
            State::SentForwardPaths => match code {
                ResponseCode::StartMailInput => (
                    ClientView { state: State::SentData, ..self },
                    Some(OutputView::Data(self.data)),
                ),
                ResponseCode::Negative => self.reject_last().fail(
                    DeliveryError::ProtocolViolation,
                ),
                _ => self.fail(DeliveryError::ProtocolViolation),
            },
            State::SentData => match code {
                ResponseCode::Okay => (
                    ClientView { state: State::ShouldExit, ..self },
                    Some(OutputView::Command(CommandView::Quit)),
                ),
                _ => self.fail(DeliveryError::ProtocolViolation),
            },
            State::ShouldExit => (self, None),
        }
    }

    /// What the session does with a fragment of the server's output.
    ///
    /// A closed session ignores it.  An open one appends it to what it
    /// holds already; as long as that does not end with the line
    /// terminator nothing else happens.  Once it does, the line is used
    /// up: if it carries a status the session reacts to it, if not the
    /// line is dropped.
    pub open spec fn push(self, fragment: Seq<char>) -> (ClientView, Option<OutputView>) {
        if self.closed() {
            (self, None)
        } else if !ends_with_crlf(self.reply + fragment) {
            (ClientView { reply: self.reply + fragment, ..self }, None)
        } else {
            let fresh = ClientView { reply: Seq::<char>::empty(), ..self };
            match reply_code(self.reply + fragment) {
                Some(code) => fresh.react(code),
                None => (fresh, None),
            }
        }
    }

    /// The notification about the recipients that were refused.
    pub open spec fn undeliverable(self) -> Option<MessageView> {
        notification(self.reverse_path, self.rejected)
    }
}

/// One outbound session.
pub struct Client {
    state: State,
    failure: Option<DeliveryError>,
    hostname: Domain,
    reply: String,
    message: ForeignMessage,
    next_path: usize,
    last_sent_path: Option<ForeignPath>,
    rejected_forward_paths: Vec<ForeignPath>,
}

impl View for Client {
    type V = ClientView;

    closed spec fn view(&self) -> ClientView {
        ClientView {
            state: self.state,
            failure: self.failure,
            hostname: self.hostname@,
            reply: self.reply@,
            reverse_path: self.message.reverse_path@,
            pending: if self.next_path <= self.message.forward_paths.len() {
                self.message.forward_paths.deep_view().skip(self.next_path as int)
            } else {
                Seq::<PathView>::empty()
            },
            data: self.message.data.deep_view(),
            last_sent_path: self.last_sent_path.deep_view(),
            rejected: self.rejected_forward_paths.deep_view(),
        }
    }
}

/// The name under which a client greets the server unless it is given
/// another.
pub open spec fn default_hostname() -> DomainView {
    DomainView::FQDN("Sail"@)
}

/// Reads the status of a complete reply line.
fn read_code(line: &str) -> (r: Option<ResponseCode>)
    ensures
        r == reply_code(line@),
{
    if !line.is_ascii() {
        return None;
    }
    if line.unicode_len() < 3 {
        return None;
    }
    let a: u8 = line.get_ascii(0);
    let b: u8 = line.get_ascii(1);
    let c: u8 = line.get_ascii(2);
    if a < 48 || a > 57 || b < 48 || b > 57 || c < 48 || c > 57 {
        return None;
    }
    let code: u16 = (a - 48) as u16 * 100 + (b - 48) as u16 * 10 + (c - 48) as u16;
    ResponseCode::from_code(code)
}

impl Default for Client {
    fn default() -> (r: Client)
        ensures
            r@ == ClientView::initial(
                default_hostname(),
                ForeignMessageView {
                    reverse_path: ReversePathView::Null,
                    forward_paths: Seq::<PathView>::empty(),
                    data: Seq::<Seq<char>>::empty(),
                },
            ),
    {
        Client::initiate(ForeignMessage::default())
    }
}

impl Clone for Client {
    fn clone(&self) -> (r: Self)
        ensures
            r@ == self@,
    {
        let last_sent_path = match &self.last_sent_path {
            Some(path) => Some(path.clone()),
            None => None,
        };
        Client {
            state: self.state,
            failure: self.failure,
            hostname: self.hostname.clone(),
            reply: self.reply.clone(),
            message: self.message.clone(),
            next_path: self.next_path,
            last_sent_path,
            rejected_forward_paths: clone_paths(&self.rejected_forward_paths),
        }
    }
}

impl Client {
    /// Starts a session for a message.  The client greets under the name
    /// `default_hostname()`.
    pub fn initiate(message: ForeignMessage) -> (r: Client)
        ensures
            r@ == ClientView::initial(default_hostname(), message@),
    {
        proof {
            reveal_strlit("Sail");
        }
        let hostname = match Hostname::parse("Sail") {
            Ok(name) => name,
            Err(_) => unreached(),
        };
        let client = Client {
            state: State::Initiated,
            failure: None,
            hostname: Domain::FQDN(hostname),
            reply: String::new(),
            message,
            next_path: 0,
            last_sent_path: None,
            rejected_forward_paths: Vec::new(),
        };
        assert(client@.pending =~= message@.forward_paths);
        assert(client@.rejected =~= Seq::<PathView>::empty());
        client
    }

    /// The same session, greeting under the given name.
    pub fn with_hostname(self, hostname: Domain) -> (r: Client)
        ensures
            r@ == (ClientView { hostname: hostname@, ..self@ }),
    {
        Client {
            state: self.state,
            failure: self.failure,
            hostname,
            reply: self.reply,
            message: self.message,
            next_path: self.next_path,
            last_sent_path: self.last_sent_path,
            rejected_forward_paths: self.rejected_forward_paths,
        }
    }

    /// Takes a fragment of the server's output and returns what to send
    /// in answer, if anything.
    pub fn push(&mut self, reply: &str) -> (r: Option<Output>)
        ensures
            (final(self)@, r.deep_view()) == old(self)@.push(reply@),
    {
        if self.failure.is_some() || self.should_exit() {
            return None;
        }
        self.reply.append(reply);
        if !has_line_end(self.reply.as_str()) {
            return None;
        }
        self.process_reply()
    }

    /// Builds the notification about the recipients that the server
    /// refused, if there are any and the message has a sender to notify.
    pub fn undeliverable(self) -> (r: Option<Message>)
        ensures
            r.deep_view() == self@.undeliverable(),
            r is Some <==> self@.rejected.len() > 0 && self@.reverse_path is Regular,
    {
        let Client { message, rejected_forward_paths, .. } = self;
        if rejected_forward_paths.len() == 0 {
            return None;
        }
        let ghost sender = message.reverse_path@;
        let ghost rejected = rejected_forward_paths.deep_view();
        match Message::from(message).into_undeliverable() {
            Some(mut notice) => {
                let ghost empty = notice@;
                let mut i: usize = 0;
                while i < rejected_forward_paths.len()
                    invariant
                        0 <= i <= rejected_forward_paths.len(),
                        rejected == rejected_forward_paths.deep_view(),
                        notice@ == (MessageView {
                            data: empty.data + rejected.take(i as int).map_values(
                                |p: PathView| rejection_line(p),
                            ),
                            ..empty
                        }),
                    decreases rejected_forward_paths.len() - i,
                {
                    let mut line = String::from_str("The host rejected ");
                    rejected_forward_paths[i].path().write_to(&mut line);
                    notice.push_line(line);
                    assert(notice@.data =~= empty.data + rejected.take(i + 1).map_values(
                        |p: PathView| rejection_line(p),
                    ));
                    i += 1;
                }
                assert(rejected.take(i as int) =~= rejected);
                Some(notice)
            },
            None => None,
        }
    }

    /// Moves the recipient named last, if there still is one, to the
    /// refused ones.
    fn invalid_forward(&mut self)
        ensures
            final(self)@ == old(self)@.reject_last(),
    {
        match self.last_sent_path.take() {
            Some(path) => {
                self.rejected_forward_paths.push(path);
                assert(self@.rejected =~= old(self)@.rejected.push(path@));
            },
            None => {},
        }
    }

    /// Names the next pending recipient, or announces the body once none
    /// is left.
    fn next_forward(&mut self) -> (r: Output)
        ensures
            (final(self)@, Some(r@)) == old(self)@.next_recipient(),
    {
        if self.next_path < self.message.forward_paths.len() {
            let path = self.message.forward_paths[self.next_path].clone();
            let recipient = ForwardPath::Regular(path.path().clone());
            self.last_sent_path = Some(path);
            self.next_path = self.next_path + 1;
            self.state = State::SendingForwardPaths;
            assert(self@.pending =~= old(self)@.pending.drop_first());
            Output::Command(Command::Rcpt(recipient))
        } else {
            self.state = State::SentForwardPaths;
            Output::Command(Command::Data)
        }
    }

    /// Gives the session up.
    fn abandon(&mut self, error: DeliveryError) -> (r: Option<Output>)
        ensures
            (final(self)@, r.deep_view()) == old(self)@.fail(error),
    {
        self.failure = Some(error);
        None
    }

    /// Uses up the complete line that the session holds.
    fn process_reply(&mut self) -> (r: Option<Output>)
        requires
            !old(self)@.closed(),
        ensures
            (final(self)@, r.deep_view()) == (match reply_code(old(self)@.reply) {
                Some(code) => (ClientView { reply: Seq::<char>::empty(), ..old(self)@ }).react(
                    code,
                ),
                None => (ClientView { reply: Seq::<char>::empty(), ..old(self)@ }, None),
            }),
    {
        let code = read_code(self.reply.as_str());
        self.reply = String::new();
        let code = match code {
            Some(code) => code,
            None => {
                return None;
            },
        };
        match self.state {
            State::Initiated => match code {
                ResponseCode::ServiceReady => {
                    self.state = State::Greeted;
                    Some(Output::Command(Command::Ehlo(self.hostname.clone())))
                },
                _ => self.abandon(DeliveryError::ProtocolViolation),
            },
            State::Greeted => match code {
                ResponseCode::Okay => {
                    self.state = State::SentReversePath;
                    Some(Output::Command(Command::Mail(self.message.reverse_path.clone())))
                },
                _ => self.abandon(DeliveryError::ProtocolViolation),
            },
            State::SentReversePath => match code {
                ResponseCode::Okay => {
                    if self.next_path < self.message.forward_paths.len() {
                        Some(self.next_forward())
                    } else {
                        self.abandon(DeliveryError::NoForwardPaths)
                    }
                },
                _ => self.abandon(DeliveryError::ProtocolViolation),
            },
            State::SendingForwardPaths => {
                if code.is_negative() {
                    self.invalid_forward();
                    Some(self.next_forward())
                } else if code.accepts_recipient() {
                    Some(self.next_forward())
                } else {
                    self.abandon(DeliveryError::ProtocolViolation)
                }
            },
            State::SentForwardPaths => {
                if code.is_negative() {
                    self.invalid_forward();
                }
                match code {
                    ResponseCode::StartMailInput => {
                        self.state = State::SentData;
                        Some(Output::Data(clone_lines(&self.message.data)))
                    },
                    _ => self.abandon(DeliveryError::ProtocolViolation),
                }
            },
            State::SentData => match code {
                ResponseCode::Okay => {
                    self.state = State::ShouldExit;
                    Some(Output::Command(Command::Quit))
                },
                _ => self.abandon(DeliveryError::ProtocolViolation),
            },
            State::ShouldExit => None,
        }
    }

    /// Whether the session is over.
    pub fn should_exit(&self) -> (r: bool)
        ensures
            r == (self@.state == State::ShouldExit),
    {
        match self.state {
            State::ShouldExit => true,
            _ => false,
        }
    }

    /// Why the session was given up, once it was.
    pub fn failure(&self) -> (r: Option<DeliveryError>)
        ensures
            r == self@.failure,
    {
        self.failure
    }

    /// The stage the session is in.
    pub fn state(&self) -> (r: State)
        ensures
            r == self@.state,
    {
        self.state
    }

    /// The recipients that the server refused so far.
    pub fn rejected(&self) -> (r: &Vec<ForeignPath>)
        ensures
            r.deep_view() == self@.rejected,
    {
        &self.rejected_forward_paths
    }
}

} // verus!
