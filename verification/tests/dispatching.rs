use sail::config::Config;
use sail::delivery::{
    Action, Delivery, Event, Outcome, Status, CONNECT_TIMEOUT_MILLIS, SMTP_PORT,
};
use sail::dispatch::{check, destinations_of, members_of, partition};
use sail::dispatcher::Dispatcher;
use sail::error::DeliveryError;
use sail::resolver::{MxRecord, Query};
use sail::smtp::args::{Domain, ForwardPath, Hostname, IpAddress, LocalPart, Path, ReversePath};
use sail::smtp::client::{ForeignMessage, ForeignPath, State};

fn name(text: &str) -> Domain {
    Domain::FQDN(Hostname::parse(text).unwrap())
}

fn mailbox(local: &str, host: &str) -> Path {
    Path { local_part: LocalPart::parse(local).unwrap(), domain: name(host) }
}

fn foreign(local: &str, host: &str) -> ForeignPath {
    let config = Config { hostnames: vec![name("origin.example")], relays: vec![], users: vec![] };
    config.foreign_path(mailbox(local, host)).unwrap()
}

fn literal(local: &str, address: IpAddress) -> ForeignPath {
    let config = Config { hostnames: vec![], relays: vec![], users: vec![] };
    config
        .foreign_path(Path {
            local_part: LocalPart::parse(local).unwrap(),
            domain: Domain::Literal(address),
        })
        .unwrap()
}

fn body() -> Vec<String> {
    vec!["Subject: hello".to_string(), "".to_string(), "Hi.".to_string()]
}

fn message(recipients: Vec<ForeignPath>) -> ForeignMessage {
    ForeignMessage::from_parts(
        ReversePath::Regular(mailbox("alice", "origin.example")),
        recipients,
        body(),
    )
}

fn own() -> Domain {
    name("mx.origin.example")
}

fn connect(a: u8, b: u8, c: u8, d: u8) -> Action {
    Action::Connect { address: IpAddress::V4(a, b, c, d), port: 25, timeout_millis: 2500 }
}

fn received(text: &str) -> Event {
    Event::Received(text.to_string())
}

fn failed(error: DeliveryError) -> Outcome {
    Outcome { status: Status::Failed(error), bounce: None }
}

/// Feeds a dispatcher the events of a session that accepts everything,
/// for a group of `recipients` recipients, from the connection on.
fn run_session(mut dispatcher: Dispatcher, recipients: usize) -> (Dispatcher, Action) {
    let mut action;
    (dispatcher, action) = dispatcher.step(Event::Connected);
    assert_eq!(action, Action::Receive);
    let mut replies = vec!["220 ok\r\n", "250 ok\r\n", "250 ok\r\n"];
    for _ in 0..recipients {
        replies.push("250 ok\r\n");
    }
    replies.push("354 go\r\n");
    for reply in replies {
        (dispatcher, action) = dispatcher.step(received(reply));
        assert!(matches!(action, Action::Send(_)), "{action:?}");
        (dispatcher, action) = dispatcher.step(Event::Sent);
        assert_eq!(action, Action::Receive);
    }
    (dispatcher, action) = dispatcher.step(received("250 ok\r\n"));
    assert_eq!(action, Action::Send("QUIT\r\n".to_string()));
    dispatcher.step(Event::Sent)
}

#[test]
fn the_reference_values_of_the_connection() {
    assert_eq!(SMTP_PORT, 25);
    assert_eq!(CONNECT_TIMEOUT_MILLIS, 2500);
}

#[test]
fn recipients_are_grouped_by_domain_in_order_of_first_occurrence() {
    let whole = message(vec![
        foreign("a", "one.example"),
        foreign("b", "two.example"),
        foreign("c", "ONE.example"),
        literal("d", IpAddress::V4(192, 0, 2, 1)),
        foreign("e", "two.example"),
        foreign("f", "one.EXAMPLE"),
        literal("g", IpAddress::V4(192, 0, 2, 1)),
        literal("h", IpAddress::V4(192, 0, 2, 2)),
    ]);
    let parts = partition(&whole);
    assert_eq!(parts.len(), 4);
    assert_eq!(
        parts[0].forward_paths,
        vec![foreign("a", "one.example"), foreign("c", "ONE.example"), foreign("f", "one.EXAMPLE")]
    );
    assert_eq!(parts[0].forward_paths[1].path().to_string(), "<c@ONE.example>");
    assert_eq!(
        parts[1].forward_paths,
        vec![foreign("b", "two.example"), foreign("e", "two.example")]
    );
    assert_eq!(
        parts[2].forward_paths,
        vec![literal("d", IpAddress::V4(192, 0, 2, 1)), literal("g", IpAddress::V4(192, 0, 2, 1))]
    );
    assert_eq!(parts[3].forward_paths, vec![literal("h", IpAddress::V4(192, 0, 2, 2))]);
    let mut total = 0;
    for part in &parts {
        assert_eq!(part.reverse_path, whole.reverse_path);
        assert_eq!(part.data, whole.data);
        assert_eq!(check(part), Ok(()));
        total += part.forward_paths.len();
    }
    assert_eq!(total, whole.forward_paths.len());
    assert_eq!(
        destinations_of(&whole.forward_paths),
        vec![
            name("one.example"),
            name("two.example"),
            Domain::Literal(IpAddress::V4(192, 0, 2, 1)),
            Domain::Literal(IpAddress::V4(192, 0, 2, 2)),
        ]
    );
    assert_eq!(
        members_of(&whole.forward_paths, &name("TWO.EXAMPLE")),
        vec![foreign("b", "two.example"), foreign("e", "two.example")]
    );
    assert!(members_of(&whole.forward_paths, &name("three.example")).is_empty());
}

#[test]
fn a_message_without_recipients_splits_into_nothing() {
    assert!(partition(&message(vec![])).is_empty());
    assert!(destinations_of(&vec![]).is_empty());
}

#[test]
fn a_message_for_a_session_names_recipients_of_one_domain() {
    assert_eq!(check(&message(vec![])), Err(DeliveryError::NoForwardPaths));
    assert_eq!(check(&message(vec![foreign("a", "one.example")])), Ok(()));
    assert_eq!(
        check(&message(vec![foreign("a", "one.example"), foreign("b", "One.Example")])),
        Ok(())
    );
    assert_eq!(
        check(&message(vec![
            foreign("a", "one.example"),
            foreign("b", "one.example"),
            foreign("c", "two.example")
        ])),
        Err(DeliveryError::MismatchedDomains)
    );
    assert_eq!(
        check(&message(vec![foreign("a", "one.example"), literal("b", IpAddress::V4(1, 2, 3, 4))])),
        Err(DeliveryError::MismatchedDomains)
    );
}

#[test]
fn a_delivery_goes_from_lookup_to_quit() {
    let (delivery, action) = Delivery::begin(own(), message(vec![foreign("bob", "remote.example")]));
    assert_eq!(action, Action::Ask(Query::Exchangers("remote.example".to_string())));
    assert!(!delivery.is_done());
    let (delivery, action) = delivery.step(Event::Exchangers(vec![
        MxRecord { preference: 20, exchange: "b.example".to_string() },
        MxRecord { preference: 10, exchange: "a.example".to_string() },
    ]));
    assert_eq!(action, Action::Ask(Query::Addresses("a.example".to_string())));
    let (delivery, action) =
        delivery.step(Event::Addresses(vec![IpAddress::V4(192, 0, 2, 7), IpAddress::V4(192, 0, 2, 8)]));
    assert_eq!(action, connect(192, 0, 2, 7));
    let (delivery, action) = delivery.step(Event::Connected);
    assert_eq!(action, Action::Receive);
    let (delivery, action) = delivery.step(received("220 mail.remote.example\r"));
    assert_eq!(action, Action::Receive);
    let (delivery, action) = delivery.step(received("\n"));
    assert_eq!(action, Action::Send("EHLO mx.origin.example\r\n".to_string()));
    let (delivery, action) = delivery.step(Event::Sent);
    assert_eq!(action, Action::Receive);
    let (delivery, action) = delivery.step(received("250 ok\r\n"));
    assert_eq!(action, Action::Send("MAIL FROM:<alice@origin.example>\r\n".to_string()));
    let (delivery, _) = delivery.step(Event::Sent);
    let (delivery, action) = delivery.step(received("250 ok\r\n"));
    assert_eq!(action, Action::Send("RCPT TO:<bob@remote.example>\r\n".to_string()));
    let (delivery, _) = delivery.step(Event::Sent);
    let (delivery, action) = delivery.step(received("250 ok\r\n"));
    assert_eq!(action, Action::Send("DATA\r\n".to_string()));
    let (delivery, _) = delivery.step(Event::Sent);
    let (delivery, action) = delivery.step(received("354 go\r\n"));
    assert_eq!(action, Action::Send("Subject: hello\r\n\r\nHi.\r\n.\r\n".to_string()));
    let (delivery, action) = delivery.step(Event::Sent);
    assert_eq!(action, Action::Receive);
    let (delivery, action) = delivery.step(received("250 queued\r\n"));
    assert_eq!(action, Action::Send("QUIT\r\n".to_string()));
    assert!(!delivery.is_done());
    let (delivery, action) = delivery.step(Event::Sent);
    assert_eq!(action, Action::Finish(Outcome { status: Status::Completed, bounce: None }));
    assert!(delivery.is_done());
    let (delivery, action) = delivery.step(received("221 bye\r\n"));
    assert_eq!(action, Action::Idle);
    assert!(delivery.is_done());
}

#[test]
fn a_literal_address_is_connected_to_at_once() {
    let (_, action) =
        Delivery::begin(own(), message(vec![literal("root", IpAddress::V4(192, 0, 2, 1))]));
    assert_eq!(action, connect(192, 0, 2, 1));
}

#[test]
fn a_message_that_cannot_be_handed_to_a_session_is_given_up() {
    let (delivery, action) = Delivery::begin(own(), message(vec![]));
    assert_eq!(action, Action::Finish(failed(DeliveryError::NoForwardPaths)));
    assert!(delivery.is_done());
    let (delivery, action) = Delivery::begin(
        own(),
        message(vec![foreign("a", "one.example"), foreign("b", "two.example")]),
    );
    assert_eq!(action, Action::Finish(failed(DeliveryError::MismatchedDomains)));
    assert!(delivery.is_done());
}

#[test]
fn a_domain_without_an_address_fails_its_group() {
    let (delivery, _) = Delivery::begin(own(), message(vec![foreign("bob", "remote.example")]));
    let (delivery, action) = delivery.step(Event::Exchangers(vec![]));
    assert_eq!(action, Action::Ask(Query::Addresses("remote.example".to_string())));
    let (delivery, action) = delivery.step(Event::Addresses(vec![]));
    assert_eq!(action, Action::Finish(failed(DeliveryError::ResolutionFailure)));
    assert!(delivery.is_done());

    let (delivery, _) = Delivery::begin(own(), message(vec![foreign("bob", "remote.example")]));
    let (_, action) = delivery.step(Event::Closed);
    assert_eq!(action, Action::Finish(failed(DeliveryError::ResolutionFailure)));
}

#[test]
fn a_connection_that_fails_or_takes_too_long_fails_its_group() {
    let start = || Delivery::begin(own(), message(vec![literal("root", IpAddress::V4(192, 0, 2, 1))])).0;
    let (delivery, action) = start().step(Event::ConnectTimedOut);
    assert_eq!(action, Action::Finish(failed(DeliveryError::ConnectionTimeout)));
    assert!(delivery.is_done());
    let (_, action) = start().step(Event::ConnectFailed);
    assert_eq!(action, Action::Finish(failed(DeliveryError::ConnectionError)));
    let (_, action) = start().step(Event::Closed);
    assert_eq!(action, Action::Finish(failed(DeliveryError::ConnectionError)));
}

#[test]
fn a_lost_connection_ends_the_delivery_where_it_stands() {
    let (delivery, _) = Delivery::begin(
        own(),
        message(vec![
            literal("root", IpAddress::V4(192, 0, 2, 1)),
            literal("toor", IpAddress::V4(192, 0, 2, 1)),
        ]),
    );
    let (delivery, _) = delivery.step(Event::Connected);
    let (delivery, _) = delivery.step(received("220 ok\r\n"));
    let (delivery, _) = delivery.step(Event::Sent);
    let (delivery, _) = delivery.step(received("250 ok\r\n"));
    let (delivery, _) = delivery.step(Event::Sent);
    let (delivery, _) = delivery.step(received("250 ok\r\n"));
    let (delivery, _) = delivery.step(Event::Sent);
    let (delivery, action) = delivery.step(received("550 no such user\r\n"));
    assert_eq!(action, Action::Send("RCPT TO:<toor@[192.0.2.1]>\r\n".to_string()));
    let (delivery, _) = delivery.step(Event::Sent);
    let (delivery, action) = delivery.step(Event::Closed);
    assert!(delivery.is_done());
    match action {
        Action::Finish(outcome) => {
            assert_eq!(outcome.status, Status::Interrupted(State::SendingForwardPaths));
            let bounce = outcome.bounce.unwrap();
            assert_eq!(bounce.reverse_path, ReversePath::Null);
            assert_eq!(
                bounce.forward_paths,
                vec![ForwardPath::Regular(mailbox("alice", "origin.example"))]
            );
            assert_eq!(bounce.data.last().unwrap(), "The host rejected <root@[192.0.2.1]>");
        }
        other => panic!("{other:?}"),
    }
}

#[test]
fn a_connection_lost_while_sending_ends_the_delivery() {
    let (delivery, _) =
        Delivery::begin(own(), message(vec![literal("root", IpAddress::V4(192, 0, 2, 1))]));
    let (delivery, _) = delivery.step(Event::Connected);
    let (delivery, _) = delivery.step(received("220 ok\r\n"));
    let (_, action) = delivery.step(Event::Closed);
    assert_eq!(
        action,
        Action::Finish(Outcome { status: Status::Interrupted(State::Greeted), bounce: None })
    );
}

#[test]
fn a_protocol_violation_fails_the_delivery() {
    let (delivery, _) =
        Delivery::begin(own(), message(vec![literal("root", IpAddress::V4(192, 0, 2, 1))]));
    let (delivery, _) = delivery.step(Event::Connected);
    let (delivery, action) = delivery.step(received("554 go away\r\n"));
    assert_eq!(action, Action::Finish(failed(DeliveryError::ProtocolViolation)));
    assert!(delivery.is_done());
}

#[test]
fn an_event_out_of_turn_fails_the_delivery() {
    let (delivery, _) =
        Delivery::begin(own(), message(vec![literal("root", IpAddress::V4(192, 0, 2, 1))]));
    let (delivery, _) = delivery.step(Event::Connected);
    let (_, action) = delivery.step(Event::Sent);
    assert_eq!(action, Action::Finish(failed(DeliveryError::ConnectionError)));
}

#[test]
fn a_failure_in_one_group_leaves_the_next_group_its_turn() {
    let whole = message(vec![
        literal("a", IpAddress::V4(192, 0, 2, 1)),
        literal("b", IpAddress::V4(192, 0, 2, 2)),
        literal("c", IpAddress::V4(192, 0, 2, 2)),
    ]);
    let (dispatcher, action) = Dispatcher::begin(own(), &whole);
    assert_eq!(action, connect(192, 0, 2, 1));
    assert!(!dispatcher.is_done());
    // The first group is refused at the greeting.
    let (dispatcher, action) = dispatcher.step(Event::Connected);
    assert_eq!(action, Action::Receive);
    let (dispatcher, action) = dispatcher.step(received("554 no service\r\n"));
    // The second group is begun all the same, and runs to its end.
    assert_eq!(action, connect(192, 0, 2, 2));
    assert_eq!(dispatcher.outcomes(), &vec![failed(DeliveryError::ProtocolViolation)]);
    let (dispatcher, action) = run_session(dispatcher, 2);
    assert_eq!(action, Action::Idle);
    assert!(dispatcher.is_done());
    assert_eq!(
        dispatcher.into_outcomes(),
        vec![
            failed(DeliveryError::ProtocolViolation),
            Outcome { status: Status::Completed, bounce: None },
        ]
    );
}

#[test]
fn a_timeout_in_one_group_leaves_the_other_groups_unaffected() {
    let whole = message(vec![
        literal("a", IpAddress::V4(192, 0, 2, 1)),
        foreign("b", "two.example"),
        literal("c", IpAddress::V4(192, 0, 2, 3)),
    ]);
    let (dispatcher, action) = Dispatcher::begin(own(), &whole);
    assert_eq!(action, connect(192, 0, 2, 1));
    let (dispatcher, action) = dispatcher.step(Event::ConnectTimedOut);
    assert_eq!(action, Action::Ask(Query::Exchangers("two.example".to_string())));
    assert_eq!(dispatcher.outcomes(), &vec![failed(DeliveryError::ConnectionTimeout)]);
    let (dispatcher, action) = dispatcher.step(Event::Exchangers(vec![]));
    assert_eq!(action, Action::Ask(Query::Addresses("two.example".to_string())));
    let (dispatcher, action) = dispatcher.step(Event::Addresses(vec![]));
    assert_eq!(action, connect(192, 0, 2, 3));
    let (dispatcher, action) = run_session(dispatcher, 1);
    assert_eq!(action, Action::Idle);
    assert!(dispatcher.is_done());
    assert_eq!(
        dispatcher.outcomes(),
        &vec![
            failed(DeliveryError::ConnectionTimeout),
            failed(DeliveryError::ResolutionFailure),
            Outcome { status: Status::Completed, bounce: None },
        ]
    );
    let (dispatcher, action) = dispatcher.step(Event::Closed);
    assert_eq!(action, Action::Idle);
    assert_eq!(dispatcher.outcomes().len(), 3);
}

#[test]
fn a_dispatch_of_nothing_is_done_at_once() {
    let (dispatcher, action) = Dispatcher::begin(own(), &message(vec![]));
    assert_eq!(action, Action::Idle);
    assert!(dispatcher.is_done());
    assert!(dispatcher.outcomes().is_empty());
}
