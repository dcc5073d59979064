use sail::smtp::args::{Domain, Hostname, IpAddress, LocalPart, ParseError, Path};

fn name(text: &str) -> Domain {
    Domain::FQDN(Hostname::parse(text).unwrap())
}

#[test]
fn a_domain_is_a_host_name_or_a_literal() {
    assert_eq!(Domain::parse("example.org"), Ok(name("example.org")));
    assert_eq!(Domain::parse("Sail"), Ok(name("Sail")));
    assert_eq!(Domain::parse("[192.0.2.1]"), Ok(Domain::Literal(IpAddress::V4(192, 0, 2, 1))));
    assert_eq!(Domain::parse("[0.0.0.0]"), Ok(Domain::Literal(IpAddress::V4(0, 0, 0, 0))));
    assert_eq!(
        Domain::parse("[255.255.255.255]"),
        Ok(Domain::Literal(IpAddress::V4(255, 255, 255, 255)))
    );
    assert_eq!(
        Domain::parse("[IPv6:2001:db8:0:0:0:ff:1234:1]"),
        Ok(Domain::Literal(IpAddress::V6(0x2001, 0xdb8, 0, 0, 0, 0xff, 0x1234, 1)))
    );
    assert_eq!(
        Domain::parse("[IPv6:2001:0DB8:0000:0:0:00Ff:ABCD:ffff]"),
        Ok(Domain::Literal(IpAddress::V6(0x2001, 0xdb8, 0, 0, 0, 0xff, 0xabcd, 0xffff)))
    );
    // A dotted name without brackets is a host name.
    assert_eq!(Domain::parse("192.0.2.1"), Ok(name("192.0.2.1")));
}

#[test]
fn a_malformed_domain_is_refused() {
    for bad in [
        "",
        "[]",
        "[",
        "]",
        "[1.2.3]",
        "[1.2.3.4.5]",
        "[1.2.3.256]",
        "[1.2.3.1000]",
        "[01.2.3.4]",
        "[1.2.3.04]",
        "[1..3.4]",
        "[.1.2.3]",
        "[1.2.3.]",
        "[1.2.3.4 ]",
        "[1.2.3.a]",
        "[+1.2.3.4]",
        "[example.org]",
        "[IPv6:]",
        "[IPv6:1:2:3:4:5:6:7]",
        "[IPv6:1:2:3:4:5:6:7:8:9]",
        "[IPv6:1:2:3:4:5:6:7:12345]",
        "[IPv6:1:2:3:4:5:6:7:g]",
        "[IPv6:2001:db8::1]",
        "[IPv6::1:2:3:4:5:6:7]",
        "[ipv6:1:2:3:4:5:6:7:8]",
        "[IPv4:1.2.3.4]",
        "[1.2.3.4",
        "1.2.3.4]",
        "a..b",
        "-a.example",
        "exa mple.org",
        "b\u{fc}cher.example",
        "[1.2.3.\u{664}]",
    ] {
        assert_eq!(Domain::parse(bad), Err(ParseError::InvalidDomain), "{bad:?}");
    }
}

#[test]
fn a_written_domain_reads_back_as_itself() {
    for domain in [
        name("example.org"),
        Domain::Literal(IpAddress::V4(0, 9, 10, 99)),
        Domain::Literal(IpAddress::V4(100, 199, 200, 255)),
        Domain::Literal(IpAddress::V6(0, 0xf, 0x10, 0xff, 0x100, 0xfff, 0x1000, 0xffff)),
    ] {
        assert_eq!(Domain::parse(&domain.to_string()), Ok(domain));
    }
}

#[test]
fn a_mailbox_is_a_local_part_and_a_domain() {
    let path = Path::parse("alice.b@Example.org").unwrap();
    assert_eq!(path.local_part, LocalPart::parse("alice.b").unwrap());
    assert_eq!(path.domain, name("example.org"));
    assert_eq!(path.to_string(), "<alice.b@Example.org>");
    let literal = Path::parse("root@[192.0.2.1]").unwrap();
    assert_eq!(literal.domain, Domain::Literal(IpAddress::V4(192, 0, 2, 1)));
    assert_eq!(literal.to_string(), "<root@[192.0.2.1]>");
    assert_eq!(Path::parse("a@b").unwrap(), Path {
        local_part: LocalPart::parse("a").unwrap(),
        domain: name("b"),
    });
}

#[test]
fn a_malformed_mailbox_is_refused_with_its_reason() {
    assert_eq!(Path::parse(""), Err(ParseError::MissingSeparator));
    assert_eq!(Path::parse("alice"), Err(ParseError::MissingSeparator));
    assert_eq!(Path::parse("alice.example.org"), Err(ParseError::MissingSeparator));
    assert_eq!(Path::parse("@example.org"), Err(ParseError::InvalidLocalPart));
    assert_eq!(Path::parse(".alice@example.org"), Err(ParseError::InvalidLocalPart));
    assert_eq!(Path::parse("al ice@example.org"), Err(ParseError::InvalidLocalPart));
    assert_eq!(Path::parse("<alice@example.org>"), Err(ParseError::InvalidLocalPart));
    assert_eq!(Path::parse("alice@"), Err(ParseError::InvalidDomain));
    assert_eq!(Path::parse("alice@@example.org"), Err(ParseError::InvalidDomain));
    assert_eq!(Path::parse("alice@example.org@x"), Err(ParseError::InvalidDomain));
    assert_eq!(Path::parse("alice@[1.2.3]"), Err(ParseError::InvalidDomain));
    assert_eq!(Path::parse("alice@example..org"), Err(ParseError::InvalidDomain));
    assert_eq!(Path::parse("alic\u{e9}@example.org"), Err(ParseError::NotAscii));
    assert_eq!(Path::parse("alice@ex\u{e4}mple.org"), Err(ParseError::NotAscii));
    assert_eq!(Path::parse("\u{e9}"), Err(ParseError::NotAscii));
}
