use sail::config::Config;
use sail::smtp::args::{
    check_hostname, check_local_part, Domain, ForwardPath, Hostname, IpAddress, LocalPart,
    ParseError, Path,
};

fn name(text: &str) -> Domain {
    Domain::FQDN(Hostname::parse(text).unwrap())
}

fn mailbox(local: &str, host: &str) -> Path {
    Path { local_part: LocalPart::parse(local).unwrap(), domain: name(host) }
}

#[test]
fn local_parts_are_dot_separated_atoms() {
    for good in ["a", "alice", "alice.b", "a.b.c", "o'neil", "x+tag", "!#$%&'*+-/=?^_`{|}~", "A1"] {
        assert!(check_local_part(good), "{good:?}");
        assert_eq!(LocalPart::parse(good).unwrap().as_str(), good);
    }
    for bad in ["", ".", ".a", "a.", "a..b", "a b", "a@b", "\"a\"", "a,b", "(a)", "a<b", "caf\u{e9}",
        "a\r\n"]
    {
        assert!(!check_local_part(bad), "{bad:?}");
        assert_eq!(LocalPart::parse(bad), Err(ParseError::InvalidLocalPart));
    }
}

#[test]
fn a_local_part_has_at_most_64_characters() {
    let longest = "a".repeat(64);
    assert_eq!(LocalPart::parse(&longest).unwrap().as_str(), longest);
    assert_eq!(LocalPart::parse(&"a".repeat(65)), Err(ParseError::InvalidLocalPart));
}

#[test]
fn host_names_are_dot_separated_labels() {
    for good in ["a", "Sail", "example.com", "mx-1.example.com", "a--b.example", "1.2.3.4", "x.y.z",
        "EXAMPLE.Com", "a1.b2"]
    {
        assert!(check_hostname(good), "{good:?}");
        assert_eq!(Hostname::parse(good).unwrap().as_str(), good);
    }
    for bad in ["", ".", "a.", ".a", "a..b", "-a", "a-", "a.-b", "a-.b", "a_b", "a b", "[1.2.3.4]",
        "a@b", "b\u{fc}cher.example", "a.b\n"]
    {
        assert!(!check_hostname(bad), "{bad:?}");
        assert!(matches!(Hostname::parse(bad), Err(ParseError::InvalidDomain)));
    }
}

#[test]
fn a_host_name_has_at_most_255_characters() {
    let longest = format!("{}.{}", "a".repeat(127), "b".repeat(127));
    assert_eq!(longest.len(), 255);
    assert!(Hostname::parse(&longest).is_ok());
    let longer = format!("{}.{}", "a".repeat(128), "b".repeat(127));
    assert!(Hostname::parse(&longer).is_err());
}

#[test]
fn host_names_are_compared_without_regard_to_case() {
    assert_eq!(name("Example.COM"), name("example.com"));
    assert!(name("Example.COM").same_as(&name("eXAMPLE.com")));
    assert!(Hostname::parse("MX1.a").unwrap().same_as(&Hostname::parse("mx1.A").unwrap()));
    assert_ne!(name("example.com"), name("example.org"));
    assert_ne!(name("example.com"), name("example.co"));
    assert_ne!(name("a-b"), name("a.b"));
    assert_ne!(name("a0"), name("aP"));
}

#[test]
fn address_literals_are_compared_exactly() {
    let a = Domain::Literal(IpAddress::V4(192, 0, 2, 1));
    assert_eq!(a, Domain::Literal(IpAddress::V4(192, 0, 2, 1)));
    assert_ne!(a, Domain::Literal(IpAddress::V4(192, 0, 2, 2)));
    assert_ne!(a, name("192.0.2.1"));
    assert_ne!(name("192.0.2.1"), a);
    let b = Domain::Literal(IpAddress::V6(0, 0, 0, 0, 0, 0, 0, 1));
    assert_eq!(b, b.clone());
    assert_ne!(a, b);
}

#[test]
fn local_parts_keep_their_case() {
    assert_ne!(mailbox("Alice", "example.com"), mailbox("alice", "example.com"));
    assert_eq!(mailbox("alice", "EXAMPLE.com"), mailbox("alice", "example.COM"));
}

#[test]
fn the_postmaster_and_local_mailboxes_are_local() {
    let config = Config {
        hostnames: vec![name("mail.example"), Domain::Literal(IpAddress::V4(192, 0, 2, 1))],
        relays: vec![name("relay.example")],
        users: vec![LocalPart::parse("alice").unwrap()],
    };
    assert!(config.forward_path_is_local(&ForwardPath::Postmaster));
    assert!(config.forward_path_is_local(&ForwardPath::Regular(mailbox("alice", "mail.example"))));
    assert!(config.forward_path_is_local(&ForwardPath::Regular(mailbox("bob", "MAIL.Example"))));
    assert!(!config.forward_path_is_local(&ForwardPath::Regular(mailbox("alice", "relay.example"))));
    assert!(!config.forward_path_is_local(&ForwardPath::Regular(mailbox("alice", "other.example"))));
    assert!(config.path_is_local(&mailbox("x", "mail.example")));
    assert!(!config.path_is_local(&mailbox("x", "xmail.example")));
    assert!(config.is_local(&Domain::Literal(IpAddress::V4(192, 0, 2, 1))));
    assert!(!config.is_local(&Domain::Literal(IpAddress::V4(192, 0, 2, 2))));
    assert!(!config.is_local(&name("192.0.2.1")));
}

#[test]
fn nothing_is_local_to_a_host_without_names() {
    let config = Config { hostnames: vec![], relays: vec![], users: vec![] };
    assert!(!config.path_is_local(&mailbox("alice", "mail.example")));
    assert!(config.forward_path_is_local(&ForwardPath::Postmaster));
    let copy = config.clone();
    assert!(copy.hostnames.is_empty());
}

#[test]
fn a_local_mailbox_never_becomes_a_foreign_path() {
    let config = Config {
        hostnames: vec![name("mail.example"), name("example.net")],
        relays: vec![],
        users: vec![],
    };
    assert!(config.foreign_path(mailbox("alice", "mail.example")).is_none());
    assert!(config.foreign_path(mailbox("alice", "Mail.Example")).is_none());
    assert!(config.foreign_path(mailbox("bob", "EXAMPLE.NET")).is_none());
    assert!(config.foreign_forward_path(ForwardPath::Postmaster).is_none());
    assert!(config
        .foreign_forward_path(ForwardPath::Regular(mailbox("alice", "mail.example")))
        .is_none());

    let foreign = config.foreign_path(mailbox("carol", "remote.example")).unwrap();
    assert_eq!(foreign.path(), &mailbox("carol", "remote.example"));
    assert_eq!(foreign.clone().into_path(), mailbox("carol", "remote.example"));
    let other = config
        .foreign_forward_path(ForwardPath::Regular(mailbox("dave", "remote.example")))
        .unwrap();
    assert_eq!(other.into_path(), mailbox("dave", "remote.example"));
}
