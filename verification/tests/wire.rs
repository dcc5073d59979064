use sail::smtp::args::{Domain, ForwardPath, Hostname, IpAddress, LocalPart, Path, ReversePath};
use sail::smtp::client::Output;
use sail::smtp::{Command, ResponseCode};

fn mailbox(local: &str, host: &str) -> Path {
    Path {
        local_part: LocalPart::parse(local).unwrap(),
        domain: Domain::FQDN(Hostname::parse(host).unwrap()),
    }
}

#[test]
fn commands_are_spelled_exactly() {
    let ehlo = Command::Ehlo(Domain::FQDN(Hostname::parse("Sail").unwrap()));
    assert_eq!(ehlo.to_string(), "EHLO Sail\r\n");
    let mail = Command::Mail(ReversePath::Regular(mailbox("alice", "origin.example")));
    assert_eq!(mail.to_string(), "MAIL FROM:<alice@origin.example>\r\n");
    assert_eq!(Command::Mail(ReversePath::Null).to_string(), "MAIL FROM:<>\r\n");
    let rcpt = Command::Rcpt(ForwardPath::Regular(mailbox("bob.b", "Remote.Example")));
    assert_eq!(rcpt.to_string(), "RCPT TO:<bob.b@Remote.Example>\r\n");
    assert_eq!(Command::Rcpt(ForwardPath::Postmaster).to_string(), "RCPT TO:<Postmaster>\r\n");
    assert_eq!(Command::Data.to_string(), "DATA\r\n");
    assert_eq!(Command::Quit.to_string(), "QUIT\r\n");
}

#[test]
fn a_command_can_be_copied() {
    let rcpt = Command::Rcpt(ForwardPath::Regular(mailbox("bob", "remote.example")));
    assert_eq!(rcpt.clone(), rcpt);
}

#[test]
fn address_literals_are_spelled_exactly() {
    let v4 = Domain::Literal(IpAddress::V4(192, 0, 2, 1));
    assert_eq!(v4.to_string(), "[192.0.2.1]");
    assert_eq!(Domain::Literal(IpAddress::V4(0, 10, 100, 255)).to_string(), "[0.10.100.255]");
    let v6 = Domain::Literal(IpAddress::V6(0x2001, 0xdb8, 0, 0, 0, 0xff, 0x1234, 1));
    assert_eq!(v6.to_string(), "[IPv6:2001:db8:0:0:0:ff:1234:1]");
    let all = Domain::Literal(IpAddress::V6(0xffff, 0xf, 0x10, 0x100, 0x1000, 0xabcd, 0, 0xa0));
    assert_eq!(all.to_string(), "[IPv6:ffff:f:10:100:1000:abcd:0:a0]");
    let path = Path { local_part: LocalPart::parse("root").unwrap(), domain: v4 };
    assert_eq!(path.to_string(), "<root@[192.0.2.1]>");
    assert_eq!(
        Command::Rcpt(ForwardPath::Regular(path)).to_string(),
        "RCPT TO:<root@[192.0.2.1]>\r\n"
    );
}

#[test]
fn paths_are_spelled_between_angle_brackets() {
    assert_eq!(mailbox("alice", "origin.example").to_string(), "<alice@origin.example>");
    assert_eq!(ReversePath::Null.to_string(), "<>");
    assert_eq!(
        ReversePath::Regular(mailbox("a", "b.example")).to_string(),
        "<a@b.example>"
    );
    assert_eq!(ForwardPath::Postmaster.to_string(), "<Postmaster>");
    assert_eq!(ForwardPath::Regular(mailbox("a", "b.example")).to_string(), "<a@b.example>");
    assert!(ForwardPath::Postmaster.is_postmaster());
    assert!(!ForwardPath::Regular(mailbox("a", "b.example")).is_postmaster());
}

#[test]
fn the_body_ends_with_a_single_dot() {
    let body = Output::Data(vec!["Subject: x".to_string(), "".to_string(), "text".to_string()]);
    assert_eq!(body.to_string(), "Subject: x\r\n\r\ntext\r\n.\r\n");
    assert_eq!(Output::Data(vec![]).to_string(), ".\r\n");
    assert_eq!(Output::Data(vec!["one".to_string()]).to_string(), "one\r\n.\r\n");
    assert_eq!(Output::Data(vec![".hidden".to_string()]).to_string(), ".hidden\r\n.\r\n");
    assert_eq!(Output::Command(Command::Quit).to_string(), "QUIT\r\n");
}

#[test]
fn codes_are_classified() {
    assert_eq!(ResponseCode::from_code(220), Some(ResponseCode::ServiceReady));
    assert_eq!(ResponseCode::from_code(250), Some(ResponseCode::Okay));
    assert_eq!(ResponseCode::from_code(251), Some(ResponseCode::UserNotLocalWillForward));
    assert_eq!(ResponseCode::from_code(354), Some(ResponseCode::StartMailInput));
    for code in [400, 421, 450, 451, 499, 500, 550, 554, 599] {
        assert_eq!(ResponseCode::from_code(code), Some(ResponseCode::Negative));
    }
    for code in [0, 99, 100, 200, 211, 221, 252, 300, 353, 355, 399, 600, 999, 1000, u16::MAX] {
        assert_eq!(ResponseCode::from_code(code), None);
    }
}

#[test]
fn only_failures_are_negative() {
    assert!(ResponseCode::Negative.is_negative());
    assert!(!ResponseCode::ServiceReady.is_negative());
    assert!(!ResponseCode::Okay.is_negative());
    assert!(!ResponseCode::UserNotLocalWillForward.is_negative());
    assert!(!ResponseCode::StartMailInput.is_negative());
    assert!(ResponseCode::Okay.accepts_recipient());
    assert!(ResponseCode::UserNotLocalWillForward.accepts_recipient());
    assert!(!ResponseCode::Negative.accepts_recipient());
    assert!(!ResponseCode::ServiceReady.accepts_recipient());
    assert!(!ResponseCode::StartMailInput.accepts_recipient());
    for code in 0..=u16::MAX {
        let negative = ResponseCode::from_code(code).map_or(false, |c| c.is_negative());
        assert_eq!(negative, (400..=599).contains(&code));
    }
}
