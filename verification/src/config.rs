//! What the host knows about itself: its own names, the domains it
//! relays for and its users.

use vstd::prelude::*;
use crate::smtp::args::{
    Domain, DomainView, ForwardPath, ForwardPathView, LocalPart, Path, PathView,
};
use crate::smtp::client::ForeignPath;

verus! {

/// The configuration of the host.
pub struct Config {
    pub hostnames: Vec<Domain>,
    pub relays: Vec<Domain>,
    pub users: Vec<LocalPart>,
}

/// The mathematical value of a `Config`.
pub struct ConfigView {
    pub hostnames: Seq<DomainView>,
    pub relays: Seq<DomainView>,
    pub users: Seq<Seq<char>>,
}

impl ConfigView {
    /// Whether the domain is one of the host's own names.
    pub open spec fn is_local(self, domain: DomainView) -> bool {
        exists|i: int| 0 <= i < self.hostnames.len() && (#[trigger] self.hostnames[i]).same_as(domain)
    }

    /// Whether the mailbox is on this host.
    pub open spec fn path_is_local(self, path: PathView) -> bool {
        self.is_local(path.domain)
    }

    /// Whether the recipient is handled by this host: the postmaster
    /// always is, a mailbox when it is on this host.
    pub open spec fn forward_path_is_local(self, forward: ForwardPathView) -> bool {
        match forward {
            ForwardPathView::Postmaster => true,
            ForwardPathView::Regular(path) => self.path_is_local(path),
        }
    }
}

impl View for Config {
    type V = ConfigView;

    open spec fn view(&self) -> ConfigView {
        ConfigView {
            hostnames: self.hostnames.deep_view(),
            relays: self.relays.deep_view(),
            users: self.users.deep_view(),
        }
    }
}

impl DeepView for Config {
    type V = ConfigView;

    open spec fn deep_view(&self) -> ConfigView {
        self@
    }
}

/// Copies a list of domains.
fn clone_domains(domains: &Vec<Domain>) -> (r: Vec<Domain>)
    ensures
        r.deep_view() == domains.deep_view(),
{
    let mut copy: Vec<Domain> = Vec::new();
    let mut i: usize = 0;
    while i < domains.len()
        invariant
            0 <= i <= domains.len(),
            copy.len() == i,
            forall|j: int| 0 <= j < i ==> copy[j]@ == domains[j]@,
        decreases domains.len() - i,
    {
        copy.push(domains[i].clone());
        i += 1;
    }
    assert(copy.deep_view() =~= domains.deep_view());
    copy
}

impl Clone for Config {
    fn clone(&self) -> (r: Self)
        ensures
            r@ == self@,
    {
        let mut users: Vec<LocalPart> = Vec::new();
        let mut i: usize = 0;
        while i < self.users.len()
            invariant
                0 <= i <= self.users.len(),
                users.len() == i,
                forall|j: int| 0 <= j < i ==> users[j]@ == self.users[j]@,
            decreases self.users.len() - i,
        {
            users.push(self.users[i].clone());
            i += 1;
        }
        assert(users.deep_view() =~= self.users.deep_view());
        Config {
            hostnames: clone_domains(&self.hostnames),
            relays: clone_domains(&self.relays),
            users,
        }
    }
}

impl Config {
    /// Whether the domain is one of the host's own names.
    pub fn is_local(&self, domain: &Domain) -> (r: bool)
        ensures
            r == self@.is_local(domain@),
    {
        let mut i: usize = 0;
        while i < self.hostnames.len()
            invariant
                0 <= i <= self.hostnames.len(),
                forall|j: int|
                    0 <= j < i ==> !(#[trigger] self.hostnames.deep_view()[j]).same_as(domain@),
            decreases self.hostnames.len() - i,
        {
            if self.hostnames[i].same_as(domain) {
                assert(self@.hostnames[i as int].same_as(domain@));
                return true;
            }
            i += 1;
        }
        false
    }

    /// Whether the recipient is handled by this host.
    pub fn forward_path_is_local(&self, forward: &ForwardPath) -> (r: bool)
        ensures
            r == self@.forward_path_is_local(forward@),
    {
        match forward {
            ForwardPath::Postmaster => true,
            ForwardPath::Regular(path) => self.path_is_local(path),
        }
    }

    /// Whether the mailbox is on this host.
    pub fn path_is_local(&self, path: &Path) -> (r: bool)
        ensures
            r == self@.path_is_local(path@),
    {
        self.is_local(&path.domain)
    }

    /// Admits a mailbox to relaying.  A mailbox on this host is refused;
    /// any other comes back as a `ForeignPath` that holds it unchanged.
    pub fn foreign_path(&self, path: Path) -> (r: Option<ForeignPath>)
        ensures
            r is Some <==> !self@.path_is_local(path@),
            r matches Some(foreign) ==> foreign@ == path@,
    {
        if self.path_is_local(&path) {
            None
        } else {
            Some(ForeignPath::new(path))
        }
    }

    /// Admits a recipient to relaying: the postmaster and every mailbox on
    /// this host are refused.
    pub fn foreign_forward_path(&self, forward: ForwardPath) -> (r: Option<ForeignPath>)
        ensures
            r is Some <==> !self@.forward_path_is_local(forward@),
            r matches Some(foreign) ==> forward@ == ForwardPathView::Regular(foreign@),
    {
        match forward {
            ForwardPath::Postmaster => None,
            ForwardPath::Regular(path) => self.foreign_path(path),
        }
    }
}

} // verus!
