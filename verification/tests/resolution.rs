use sail::resolver::{select_exchange, MxRecord, Query, Resolver};
use sail::smtp::args::{Domain, Hostname, IpAddress};

fn record(preference: u16, exchange: &str) -> MxRecord {
    MxRecord { preference, exchange: exchange.to_string() }
}

fn name(text: &str) -> Domain {
    Domain::FQDN(Hostname::parse(text).unwrap())
}

#[test]
fn the_lowest_preference_wins() {
    let records = vec![record(20, "b.example"), record(10, "a.example")];
    assert_eq!(select_exchange(&records), Some(1));
    let (resolver, query) = Resolver::begin(&name("example.org"));
    assert_eq!(query, Some(Query::Exchangers("example.org".to_string())));
    assert_eq!(resolver.result(), None);
    let (resolver, query) = resolver.exchangers(&records);
    assert_eq!(query, Some(Query::Addresses("a.example".to_string())));
    assert_eq!(resolver, Resolver::AwaitingAddresses);
    let found = vec![IpAddress::V4(192, 0, 2, 10), IpAddress::V4(192, 0, 2, 11)];
    let resolver = resolver.addresses(&found);
    assert_eq!(resolver.result(), Some(Some(IpAddress::V4(192, 0, 2, 10))));
}

#[test]
fn among_equal_preferences_the_first_wins() {
    let records = vec![
        record(30, "c.example"),
        record(10, "a.example"),
        record(10, "b.example"),
        record(20, "d.example"),
        record(10, "e.example"),
    ];
    assert_eq!(select_exchange(&records), Some(1));
    assert_eq!(select_exchange(&vec![record(0, "x"), record(0, "y")]), Some(0));
    assert_eq!(select_exchange(&vec![record(65535, "only")]), Some(0));
    assert_eq!(select_exchange(&vec![record(3, "a"), record(2, "b"), record(1, "c")]), Some(2));
    assert_eq!(select_exchange(&vec![]), None);
}

#[test]
fn without_exchangers_the_domain_itself_is_looked_up() {
    let (resolver, _) = Resolver::begin(&name("Example.org"));
    let (resolver, query) = resolver.exchangers(&vec![]);
    assert_eq!(query, Some(Query::Addresses("Example.org".to_string())));
    let resolver = resolver.addresses(&vec![IpAddress::V6(0x2001, 0xdb8, 0, 0, 0, 0, 0, 1)]);
    assert_eq!(resolver.result(), Some(Some(IpAddress::V6(0x2001, 0xdb8, 0, 0, 0, 0, 0, 1))));
}

#[test]
fn a_literal_address_needs_no_lookup() {
    let (resolver, query) = Resolver::begin(&Domain::Literal(IpAddress::V4(192, 0, 2, 1)));
    assert_eq!(query, None);
    assert_eq!(resolver.result(), Some(Some(IpAddress::V4(192, 0, 2, 1))));
    // Answers that were not asked for change nothing.
    let (resolver, query) = resolver.exchangers(&vec![record(1, "a.example")]);
    assert_eq!(query, None);
    let resolver = resolver.addresses(&vec![IpAddress::V4(10, 0, 0, 1)]);
    assert_eq!(resolver.result(), Some(Some(IpAddress::V4(192, 0, 2, 1))));
}

#[test]
fn without_an_address_the_search_fails() {
    let (resolver, _) = Resolver::begin(&name("example.org"));
    let (resolver, _) = resolver.exchangers(&vec![record(10, "a.example")]);
    let resolver = resolver.addresses(&vec![]);
    assert_eq!(resolver.result(), Some(None));
}

#[test]
fn an_answer_out_of_turn_fails_the_search() {
    let (resolver, _) = Resolver::begin(&name("example.org"));
    let resolver = resolver.addresses(&vec![IpAddress::V4(192, 0, 2, 1)]);
    assert_eq!(resolver.result(), Some(None));

    let (resolver, _) = Resolver::begin(&name("example.org"));
    let (resolver, _) = resolver.exchangers(&vec![]);
    let (resolver, query) = resolver.exchangers(&vec![]);
    assert_eq!(query, None);
    assert_eq!(resolver.result(), Some(None));
}
