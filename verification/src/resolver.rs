//! Finding the host that takes the mail for a domain.
//!
//! The name service is not called from here.  A `Resolver` says which
//! question to ask next and is told the answer; it decides which mail
//! exchanger to prefer and when to fall back on the domain itself.

use vstd::prelude::*;
use crate::smtp::args::{Domain, DomainView, IpAddress};

verus! {

/// One mail exchanger record of a domain.
#[derive(Debug, PartialEq, Eq)]
pub struct MxRecord {
    /// The preference of the exchanger; lower values are tried first.
    pub preference: u16,
    /// The name of the exchanger.
    pub exchange: String,
}

/// The mathematical value of an `MxRecord`.
pub struct MxRecordView {
    pub preference: u16,
    pub exchange: Seq<char>,
}

impl View for MxRecord {
    type V = MxRecordView;

    open spec fn view(&self) -> MxRecordView {
        MxRecordView { preference: self.preference, exchange: self.exchange@ }
    }
}

impl DeepView for MxRecord {
    type V = MxRecordView;

    open spec fn deep_view(&self) -> MxRecordView {
        self@
    }
}

/// Whether the record at `index` is the one to use: none has a lower
/// preference, and none before it has the same.
pub open spec fn is_preferred(records: Seq<MxRecordView>, index: int) -> bool {
    &&& 0 <= index < records.len()
    &&& forall|j: int|
        0 <= j < records.len() ==> records[index].preference <= (#[trigger] records[j]).preference
    &&& forall|j: int|
        0 <= j < index ==> records[index].preference < (#[trigger] records[j]).preference
}

/// The name whose address is to be looked up for a domain name with the
/// given exchanger records: the preferred exchanger, or the domain name
/// itself where there is no record.
pub open spec fn exchange_for(name: Seq<char>, records: Seq<MxRecordView>) -> Seq<char> {
    if records.len() == 0 {
        name
    } else {
        records[choose|i: int| is_preferred(records, i)].exchange
    }
}

/// At most one record is the preferred one.
pub proof fn lemma_preferred_is_unique(records: Seq<MxRecordView>, i: int, j: int)
    requires
        is_preferred(records, i),
        is_preferred(records, j),
    ensures
        i == j,
{
    if i < j {
        assert(records[j].preference < records[i].preference);
        assert(records[i].preference <= records[j].preference);
    } else if j < i {
        assert(records[i].preference < records[j].preference);
        assert(records[j].preference <= records[i].preference);
    }
}

/// Finds the preferred record of a list, if the list holds any.
pub fn select_exchange(records: &Vec<MxRecord>) -> (r: Option<usize>)
    ensures
        r is None <==> records.len() == 0,
        r matches Some(index) ==> is_preferred(records.deep_view(), index as int),
{
    if records.len() == 0 {
        return None;
    }
    let mut best: usize = 0;
    let mut i: usize = 1;
    while i < records.len()
        invariant
            1 <= i <= records.len(),
            0 <= best < i,
            forall|j: int|
                0 <= j < i ==> records[best as int].preference <= (#[trigger] records[j]).preference,
            forall|j: int|
                0 <= j < best ==> records[best as int].preference < (#[trigger] records[j]).preference,
        decreases records.len() - i,
    {
        if records[i].preference < records[best].preference {
            best = i;
        }
        i += 1;
    }
    assert(is_preferred(records.deep_view(), best as int)) by {
        let views = records.deep_view();
        assert forall|j: int| 0 <= j < views.len() implies views[best as int].preference <= (
        #[trigger] views[j]).preference by {
            assert(views[j] == records[j]@);
        }
        assert forall|j: int| 0 <= j < best implies views[best as int].preference < (
        #[trigger] views[j]).preference by {
            assert(views[j] == records[j]@);
        }
    }
    Some(best)
}

/// A question for the name service.
#[derive(Debug, PartialEq, Eq)]
pub enum Query {
    /// The mail exchanger records of a name.
    Exchangers(String),
    /// The addresses of a name.
    Addresses(String),
}

/// The mathematical value of a `Query`.
pub enum QueryView {
    Exchangers(Seq<char>),
    Addresses(Seq<char>),
}

impl View for Query {
    type V = QueryView;

    open spec fn view(&self) -> QueryView {
        match self {
            Query::Exchangers(name) => QueryView::Exchangers(name@),
            Query::Addresses(name) => QueryView::Addresses(name@),
        }
    }
}

impl DeepView for Query {
    type V = QueryView;

    open spec fn deep_view(&self) -> QueryView {
        self@
    }
}

/// How far the search for a host has come.
#[derive(Debug, PartialEq, Eq)]
pub enum Resolver {
    /// The exchanger records of the name are awaited.
    AwaitingExchangers(String),
    /// The addresses of an exchanger, or of the domain, are awaited.
    AwaitingAddresses,
    /// The search is over, with an address or without one.
    Finished(Option<IpAddress>),
}

/// The mathematical value of a `Resolver`.
pub enum ResolverView {
    AwaitingExchangers(Seq<char>),
    AwaitingAddresses,
    Finished(Option<IpAddress>),
}

impl ResolverView {
    /// The search for the host of a domain, at its start.  A literal
    /// address is its own answer and no question is asked; for a name the
    /// exchanger records are asked for.
    pub open spec fn begin(domain: DomainView) -> (ResolverView, Option<QueryView>) {
        match domain {
            DomainView::Literal(address) => (ResolverView::Finished(Some(address)), None),
            DomainView::FQDN(name) => (
                ResolverView::AwaitingExchangers(name),
                Some(QueryView::Exchangers(name)),
            ),
        }
    }

    /// The search after the exchanger records came in.  A failed lookup
    /// is reported as an empty list.  The address of the preferred
    /// exchanger is asked for, or that of the domain itself where there
    /// is no record.
    pub open spec fn exchangers(self, records: Seq<MxRecordView>) -> (
        ResolverView,
        Option<QueryView>,
    ) {
        match self {
            ResolverView::AwaitingExchangers(name) => (
                ResolverView::AwaitingAddresses,
                Some(QueryView::Addresses(exchange_for(name, records))),
            ),
            ResolverView::AwaitingAddresses => (ResolverView::Finished(None), None),
            ResolverView::Finished(_) => (self, None),
        }
    }

    /// The search after the addresses came in.  A failed lookup is
    /// reported as an empty list.  The first address is the answer; with
    /// none the search has failed.
    pub open spec fn addresses(self, found: Seq<IpAddress>) -> ResolverView {
        match self {
            ResolverView::AwaitingAddresses => ResolverView::Finished(
                if found.len() > 0 {
                    Some(found[0])
                } else {
                    None
                },
            ),
            ResolverView::AwaitingExchangers(_) => ResolverView::Finished(None),
            ResolverView::Finished(_) => self,
        }
    }

    /// The address that the search ends with when the name service
    /// answers as given: `records` to the question for the exchangers of
    /// the domain, `found` to the question for addresses that follows.
    pub open spec fn resolve(
        domain: DomainView,
        records: Seq<MxRecordView>,
        found: Seq<IpAddress>,
    ) -> Option<IpAddress> {
        match domain {
            DomainView::Literal(address) => Some(address),
            DomainView::FQDN(_) => if found.len() > 0 {
                Some(found[0])
            } else {
                None
            },
        }
    }
}

impl View for Resolver {
    type V = ResolverView;

    open spec fn view(&self) -> ResolverView {
        match self {
            Resolver::AwaitingExchangers(name) => ResolverView::AwaitingExchangers(name@),
            Resolver::AwaitingAddresses => ResolverView::AwaitingAddresses,
            Resolver::Finished(address) => ResolverView::Finished(*address),
        }
    }
}

impl DeepView for Resolver {
    type V = ResolverView;

    open spec fn deep_view(&self) -> ResolverView {
        self@
    }
}

impl Resolver {
    /// Starts the search for the host of a domain.
    pub fn begin(domain: &Domain) -> (r: (Resolver, Option<Query>))
        ensures
            (r.0@, r.1.deep_view()) == ResolverView::begin(domain@),
    {
        match domain {
            Domain::Literal(address) => (Resolver::Finished(Some(*address)), None),
            Domain::FQDN(name) => {
                let asked = String::from_str(name.as_str());
                let kept = String::from_str(name.as_str());
                (Resolver::AwaitingExchangers(kept), Some(Query::Exchangers(asked)))
            },
        }
    }

    /// Takes the exchanger records of the domain.
    pub fn exchangers(self, records: &Vec<MxRecord>) -> (r: (Resolver, Option<Query>))
        ensures
            (r.0@, r.1.deep_view()) == self@.exchangers(records.deep_view()),
    {
        match self {
            Resolver::AwaitingExchangers(name) => {
                let target = match select_exchange(records) {
                    Some(index) => {
                        proof {
                            let views = records.deep_view();
                            let chosen = choose|i: int| is_preferred(views, i);
                            lemma_preferred_is_unique(views, index as int, chosen);
                        }
                        records[index].exchange.clone()
                    },
                    None => name,
                };
                (Resolver::AwaitingAddresses, Some(Query::Addresses(target)))
            },
            Resolver::AwaitingAddresses => (Resolver::Finished(None), None),
            Resolver::Finished(address) => (Resolver::Finished(address), None),
        }
    }

    /// Takes the addresses of the name that was asked for.
    pub fn addresses(self, found: &Vec<IpAddress>) -> (r: Resolver)
        ensures
            r@ == self@.addresses(found@),
    {
        match self {
            Resolver::AwaitingAddresses => {
                if found.len() > 0 {
                    Resolver::Finished(Some(found[0]))
                } else {
                    Resolver::Finished(None)
                }
            },
            Resolver::AwaitingExchangers(_) => Resolver::Finished(None),
            Resolver::Finished(address) => Resolver::Finished(address),
        }
    }

    /// The result of the search, once it is over: the address, or nothing
    /// where none was found.
    pub fn result(&self) -> (r: Option<Option<IpAddress>>)
        ensures
            r == (match self@ {
                ResolverView::Finished(address) => Some(address),
                _ => None,
            }),
    {
        match self {
            Resolver::Finished(address) => Some(*address),
            _ => None,
        }
    }
}

/// A search that is asked for no more than it wants ends where
/// `ResolverView::resolve` says: a literal address is the answer at once,
/// and for a name the answer is the first address of the preferred
/// exchanger, or of the name itself where it has no exchanger.
pub proof fn lemma_resolve(domain: DomainView, records: Seq<MxRecordView>, found: Seq<IpAddress>)
    ensures
        ({
            let (start, first) = ResolverView::begin(domain);
            match domain {
                DomainView::Literal(address) => first is None && start == ResolverView::Finished(
                    Some(address),
                ),
                DomainView::FQDN(name) => {
                    let (next, second) = start.exchangers(records);
                    &&& first == Some(QueryView::Exchangers(name))
                    &&& second == Some(QueryView::Addresses(exchange_for(name, records)))
                    &&& next.addresses(found) == ResolverView::Finished(
                        ResolverView::resolve(domain, records, found),
                    )
                },
            }
        }),
{
}

} // verus!
