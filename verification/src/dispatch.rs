//! Splitting a message by destination and keeping the books of the
//! delivery attempts.
//!
//! Each destination domain gets a message of its own, an independent
//! copy that shares nothing with the others.

use vstd::prelude::*;
use crate::error::DeliveryError;
use crate::smtp::args::{Domain, DomainView, PathView};
use crate::smtp::client::{
    clone_lines, ForeignMessage, ForeignMessageView, ForeignPath,
};
use crate::text::{lower, same_ignoring_case};

verus! {

/// Equality of domains holds of every domain and itself.
pub proof fn lemma_same_as_reflexive(a: DomainView)
    ensures
        a.same_as(a),
{
}

/// Equality of domains does not depend on the side.
pub proof fn lemma_same_as_symmetric(a: DomainView, b: DomainView)
    ensures
        a.same_as(b) == b.same_as(a),
{
    match (a, b) {
        (DomainView::FQDN(x), DomainView::FQDN(y)) => {
            if same_ignoring_case(x, y) {
                assert(same_ignoring_case(y, x));
            }
            if same_ignoring_case(y, x) {
                assert(same_ignoring_case(x, y));
            }
        },
        _ => {},
    }
}

/// Two domains that equal a third equal each other.
pub proof fn lemma_same_as_transitive(a: DomainView, b: DomainView, c: DomainView)
    requires
        a.same_as(b),
        b.same_as(c),
    ensures
        a.same_as(c),
{
    match (a, b, c) {
        (DomainView::FQDN(x), DomainView::FQDN(y), DomainView::FQDN(z)) => {
            assert forall|i: int| 0 <= i < x.len() implies lower(#[trigger] x[i])
                == lower(z[i]) by {
                assert(lower(x[i]) == lower(y[i]));
                assert(lower(y[i]) == lower(z[i]));
            }
        },
        _ => {},
    }
}

/// The recipients of a list that are in the given domain, in the order
/// of the list.
pub open spec fn members(paths: Seq<PathView>, domain: DomainView) -> Seq<PathView>
    decreases paths.len(),
{
    if paths.len() == 0 {
        Seq::<PathView>::empty()
    } else if paths.last().domain.same_as(domain) {
        members(paths.drop_last(), domain).push(paths.last())
    } else {
        members(paths.drop_last(), domain)
    }
}

/// Whether a domain equals one of a list.
pub open spec fn known(domains: Seq<DomainView>, domain: DomainView) -> bool {
    exists|k: int| 0 <= k < domains.len() && (#[trigger] domains[k]).same_as(domain)
}

/// The domains of a list of recipients, each once, in the order in which
/// they first occur.
pub open spec fn destinations(paths: Seq<PathView>) -> Seq<DomainView>
    decreases paths.len(),
{
    if paths.len() == 0 {
        Seq::<DomainView>::empty()
    } else if known(destinations(paths.drop_last()), paths.last().domain) {
        destinations(paths.drop_last())
    } else {
        destinations(paths.drop_last()).push(paths.last().domain)
    }
}

/// The recipients of a list by destination: one group for each domain, in
/// the order in which the domains first occur, each holding the
/// recipients in that domain in the order of the list.
pub open spec fn grouped(paths: Seq<PathView>) -> Seq<Seq<PathView>> {
    destinations(paths).map_values(|d: DomainView| members(paths, d))
}

/// Whether all recipients of a list are in one domain.
pub open spec fn single_domain(paths: Seq<PathView>) -> bool {
    forall|i: int, j: int|
        0 <= i < paths.len() && 0 <= j < paths.len() ==> (#[trigger] paths[i]).domain.same_as(
            (#[trigger] paths[j]).domain,
        )
}

/// Whether a message can be handed to a session, and if not, why.
pub open spec fn admissible(message: ForeignMessageView) -> Result<(), DeliveryError> {
    if message.forward_paths.len() == 0 {
        Err(DeliveryError::NoForwardPaths)
    } else if !single_domain(message.forward_paths) {
        Err(DeliveryError::MismatchedDomains)
    } else {
        Ok(())
    }
}

/// The messages that a message is split into: one for each destination,
/// with the sender and the text of the message that is split.
pub open spec fn split(message: ForeignMessageView) -> Seq<ForeignMessageView> {
    grouped(message.forward_paths).map_values(
        |group: Seq<PathView>|
            ForeignMessageView {
                reverse_path: message.reverse_path,
                forward_paths: group,
                data: message.data,
            },
    )
}

/// The recipients in a domain are recipients of that domain.
pub proof fn lemma_members_domain(paths: Seq<PathView>, domain: DomainView)
    ensures
        forall|i: int|
            0 <= i < members(paths, domain).len() ==> (#[trigger] members(
                paths,
                domain,
            )[i]).domain.same_as(domain),
        members(paths, domain).len() <= paths.len(),
    decreases paths.len(),
{
    if paths.len() > 0 {
        lemma_members_domain(paths.drop_last(), domain);
    }
}

/// Every domain of the list of destinations is the domain of a
/// recipient, and the domain of every recipient equals one of them.
pub proof fn lemma_destinations_cover(paths: Seq<PathView>)
    ensures
        forall|k: int|
            0 <= k < destinations(paths).len() ==> exists|i: int|
                0 <= i < paths.len() && (#[trigger] paths[i]).domain == (#[trigger] destinations(
                    paths,
                )[k]),
        forall|i: int| 0 <= i < paths.len() ==> known(destinations(paths), (#[trigger] paths[i]).domain),
    decreases paths.len(),
{
    if paths.len() > 0 {
        let init = paths.drop_last();
        let last = paths.last();
        lemma_destinations_cover(init);
        let before = destinations(init);
        let after = destinations(paths);
        assert forall|k: int| 0 <= k < after.len() implies exists|i: int|
            0 <= i < paths.len() && (#[trigger] paths[i]).domain == (#[trigger] after[k]) by {
            if k < before.len() {
                assert(after[k] == before[k]);
                let i = choose|i: int| 0 <= i < init.len() && (#[trigger] init[i]).domain == before[k];
                assert(paths[i] == init[i]);
            } else {
                assert(paths[paths.len() - 1].domain == after[k]);
            }
        }
        assert forall|i: int| 0 <= i < paths.len() implies known(
            after,
            (#[trigger] paths[i]).domain,
        ) by {
            if i < init.len() {
                assert(paths[i] == init[i]);
                assert(known(before, init[i].domain));
                let k = choose|k: int| 0 <= k < before.len() && (#[trigger] before[k]).same_as(init[i].domain);
                assert(after[k] == before[k]);
            } else {
                if known(before, last.domain) {
                } else {
                    lemma_same_as_reflexive(last.domain);
                    assert(after[after.len() - 1].same_as(last.domain));
                }
            }
        }
    }
}

/// No two destinations are equal.
pub proof fn lemma_destinations_distinct(paths: Seq<PathView>)
    ensures
        forall|k: int, l: int|
            0 <= k < l < destinations(paths).len() ==> !(#[trigger] destinations(paths)[k]).same_as(
                #[trigger] destinations(paths)[l],
            ),
    decreases paths.len(),
{
    if paths.len() > 0 {
        let before = destinations(paths.drop_last());
        let after = destinations(paths);
        lemma_destinations_distinct(paths.drop_last());
        assert forall|k: int, l: int| 0 <= k < l < after.len() implies !(#[trigger] after[k]).same_as(
            #[trigger] after[l],
        ) by {
            if l < before.len() {
                assert(after[k] == before[k] && after[l] == before[l]);
            } else {
                assert(!known(before, paths.last().domain));
                assert(after[k] == before[k]);
                assert(!before[k].same_as(paths.last().domain));
            }
        }
    }
}

/// A recipient that is in the domain of a group is in no other group:
/// the groups of different destinations share no recipient.
pub proof fn lemma_groups_disjoint(paths: Seq<PathView>, k: int, l: int, i: int)
    requires
        0 <= k < destinations(paths).len(),
        0 <= l < destinations(paths).len(),
        k != l,
        0 <= i < members(paths, destinations(paths)[k]).len(),
    ensures
        !members(paths, destinations(paths)[k])[i].domain.same_as(destinations(paths)[l]),
{
    let ds = destinations(paths);
    let p = members(paths, ds[k])[i];
    lemma_members_domain(paths, ds[k]);
    lemma_destinations_distinct(paths);
    if p.domain.same_as(ds[l]) {
        lemma_same_as_symmetric(p.domain, ds[k]);
        lemma_same_as_transitive(ds[k], p.domain, ds[l]);
        lemma_same_as_symmetric(ds[k], ds[l]);
    }
}

/// Every group of a split holds at least one recipient, and all its
/// recipients are in one domain: each message of a split can be handed
/// to a session.
pub proof fn lemma_split_admissible(message: ForeignMessageView, k: int)
    requires
        0 <= k < split(message).len(),
    ensures
        admissible(split(message)[k]) == Ok::<(), DeliveryError>(()),
        split(message)[k].reverse_path == message.reverse_path,
        split(message)[k].data == message.data,
{
    let paths = message.forward_paths;
    let domain = destinations(paths)[k];
    let group = members(paths, domain);
    lemma_members_domain(paths, domain);
    lemma_destinations_cover(paths);
    let i = choose|i: int| 0 <= i < paths.len() && (#[trigger] paths[i]).domain == domain;
    lemma_same_as_reflexive(domain);
    lemma_members_holds(paths, domain, i);
    assert forall|a: int, b: int| 0 <= a < group.len() && 0 <= b < group.len() implies (
    #[trigger] group[a]).domain.same_as((#[trigger] group[b]).domain) by {
        lemma_same_as_symmetric(group[b].domain, domain);
        lemma_same_as_transitive(group[a].domain, domain, group[b].domain);
    }
}

/// A recipient in a domain occurs among the recipients in that domain.
pub proof fn lemma_members_holds(paths: Seq<PathView>, domain: DomainView, i: int)
    requires
        0 <= i < paths.len(),
        paths[i].domain.same_as(domain),
    ensures
        members(paths, domain).contains(paths[i]),
    decreases paths.len(),
{
    let init = paths.drop_last();
    if i == paths.len() - 1 {
        let m = members(paths, domain);
        assert(m[m.len() - 1] == paths[i]);
    } else {
        lemma_members_holds(init, domain, i);
        let m0 = members(init, domain);
        let j = choose|j: int| 0 <= j < m0.len() && m0[j] == init[i];
        assert(members(paths, domain)[j] == paths[i]);
    }
}

/// Every recipient of a message is in exactly the group of its domain:
/// the split loses no recipient.
pub proof fn lemma_split_complete(message: ForeignMessageView, i: int)
    requires
        0 <= i < message.forward_paths.len(),
    ensures
        exists|k: int|
            0 <= k < split(message).len() && (#[trigger] split(message)[k]).forward_paths.contains(
                message.forward_paths[i],
            ),
{
    let paths = message.forward_paths;
    lemma_destinations_cover(paths);
    let ds = destinations(paths);
    let k = choose|k: int| 0 <= k < ds.len() && (#[trigger] ds[k]).same_as(paths[i].domain);
    lemma_same_as_symmetric(ds[k], paths[i].domain);
    lemma_members_holds(paths, ds[k], i);
    assert(split(message)[k].forward_paths == members(paths, ds[k]));
}

/// Two recipients in different domains end up in different messages of
/// the split, each of which can be delivered without the other.
pub proof fn lemma_different_domains_different_groups(message: ForeignMessageView, i: int, j: int)
    requires
        0 <= i < message.forward_paths.len(),
        0 <= j < message.forward_paths.len(),
        !message.forward_paths[i].domain.same_as(message.forward_paths[j].domain),
    ensures
        exists|k: int, l: int|
            0 <= k < split(message).len() && 0 <= l < split(message).len() && k != l && (
            #[trigger] split(message)[k]).forward_paths.contains(message.forward_paths[i]) && (
            #[trigger] split(message)[l]).forward_paths.contains(message.forward_paths[j]),
{
    let paths = message.forward_paths;
    lemma_destinations_cover(paths);
    let ds = destinations(paths);
    let k = choose|k: int| 0 <= k < ds.len() && (#[trigger] ds[k]).same_as(paths[i].domain);
    let l = choose|l: int| 0 <= l < ds.len() && (#[trigger] ds[l]).same_as(paths[j].domain);
    lemma_same_as_symmetric(ds[k], paths[i].domain);
    lemma_same_as_symmetric(ds[l], paths[j].domain);
    if k == l {
        lemma_same_as_transitive(paths[i].domain, ds[k], paths[j].domain);
    }
    lemma_members_holds(paths, ds[k], i);
    lemma_members_holds(paths, ds[l], j);
    assert(split(message)[k].forward_paths == members(paths, ds[k]));
    assert(split(message)[l].forward_paths == members(paths, ds[l]));
}

/// Tells whether a message can be handed to a session: it must name a
/// recipient, and all its recipients must be in one domain.
pub fn check(message: &ForeignMessage) -> (r: Result<(), DeliveryError>)
    ensures
        r == admissible(message@),
{
    let paths = &message.forward_paths;
    if paths.len() == 0 {
        return Err(DeliveryError::NoForwardPaths);
    }
    let ghost views = paths.deep_view();
    let mut i: usize = 1;
    while i < paths.len()
        invariant
            1 <= i <= paths.len(),
            views == paths.deep_view(),
            views == message@.forward_paths,
            forall|j: int| 0 <= j < i ==> (#[trigger] views[j]).domain.same_as(views[0].domain),
        decreases paths.len() - i,
    {
        if !paths[i].path().domain.same_as(&paths[0].path().domain) {
            assert(!views[i as int].domain.same_as(views[0].domain));
            assert(!single_domain(views));
            return Err(DeliveryError::MismatchedDomains);
        }
        i += 1;
    }
    proof {
        lemma_same_as_reflexive(views[0].domain);
        assert forall|a: int, b: int| 0 <= a < views.len() && 0 <= b < views.len() implies (
        #[trigger] views[a]).domain.same_as((#[trigger] views[b]).domain) by {
            lemma_same_as_symmetric(views[b].domain, views[0].domain);
            lemma_same_as_transitive(views[a].domain, views[0].domain, views[b].domain);
        }
    }
    Ok(())
}

/// Lists the domains of the recipients, each once, in the order in which
/// they first occur.
pub fn destinations_of(paths: &Vec<ForeignPath>) -> (r: Vec<Domain>)
    ensures
        r.deep_view() == destinations(paths.deep_view()),
{
    let ghost views = paths.deep_view();
    let mut found: Vec<Domain> = Vec::new();
    let mut i: usize = 0;
    assert(views.take(0) =~= Seq::<PathView>::empty());
    assert(found.deep_view() =~= Seq::<DomainView>::empty());
    while i < paths.len()
        invariant
            0 <= i <= paths.len(),
            views == paths.deep_view(),
            found.deep_view() == destinations(views.take(i as int)),
        decreases paths.len() - i,
    {
        let domain = &paths[i].path().domain;
        let ghost before = found.deep_view();
        let mut seen = false;
        let mut k: usize = 0;
        while k < found.len() && !seen
            invariant
                0 <= k <= found.len(),
                before == found.deep_view(),
                !seen ==> forall|j: int| 0 <= j < k ==> !(#[trigger] before[j]).same_as(domain@),
                seen ==> known(before, domain@),
            decreases found.len() - k + (if seen { 0int } else { 1int }),
        {
            if found[k].same_as(domain) {
                assert(before[k as int].same_as(domain@));
                seen = true;
            } else {
                k += 1;
            }
        }
        proof {
            let upto = views.take(i + 1);
            assert(upto.drop_last() =~= views.take(i as int));
            assert(upto.last() == views[i as int]);
            assert(domain@ == views[i as int].domain);
        }
        if !seen {
            found.push(domain.clone());
            assert(found.deep_view() =~= before.push(domain@));
        }
        i += 1;
    }
    assert(views.take(i as int) =~= views);
    found
}

/// Picks the recipients that are in the given domain, in their order.
pub fn members_of(paths: &Vec<ForeignPath>, domain: &Domain) -> (r: Vec<ForeignPath>)
    ensures
        r.deep_view() == members(paths.deep_view(), domain@),
{
    let ghost views = paths.deep_view();
    let mut chosen: Vec<ForeignPath> = Vec::new();
    let mut i: usize = 0;
    assert(views.take(0) =~= Seq::<PathView>::empty());
    assert(chosen.deep_view() =~= Seq::<PathView>::empty());
    while i < paths.len()
        invariant
            0 <= i <= paths.len(),
            views == paths.deep_view(),
            chosen.deep_view() == members(views.take(i as int), domain@),
        decreases paths.len() - i,
    {
        proof {
            let upto = views.take(i + 1);
            assert(upto.drop_last() =~= views.take(i as int));
            assert(upto.last() == views[i as int]);
        }
        let ghost before = chosen.deep_view();
        if paths[i].path().domain.same_as(domain) {
            chosen.push(paths[i].clone());
            assert(chosen.deep_view() =~= before.push(views[i as int]));
        }
        i += 1;
    }
    assert(views.take(i as int) =~= views);
    chosen
}

/// Splits a message by destination.  The result is `split(message@)`:
/// one message for each domain among the recipients, in the order in
/// which the domains first occur, each with a copy of the sender and of
/// the text.  A message without recipients gives no message at all.
pub fn partition(message: &ForeignMessage) -> (r: Vec<ForeignMessage>)
    ensures
        r.deep_view() == split(message@),
{
    let domains = destinations_of(&message.forward_paths);
    let ghost paths = message.forward_paths.deep_view();
    let mut parts: Vec<ForeignMessage> = Vec::new();
    let mut k: usize = 0;
    while k < domains.len()
        invariant
            0 <= k <= domains.len(),
            paths == message.forward_paths.deep_view(),
            domains.deep_view() == destinations(paths),
            parts.len() == k,
            forall|j: int| 0 <= j < k ==> (#[trigger] parts[j])@ == split(message@)[j],
        decreases domains.len() - k,
    {
        let group = members_of(&message.forward_paths, &domains[k]);
        let part = ForeignMessage::from_parts(
            message.reverse_path.clone(),
            group,
            clone_lines(&message.data),
        );
        assert(domains.deep_view()[k as int] == domains[k as int]@);
        assert(part@ == split(message@)[k as int]);
        parts.push(part);
        k += 1;
    }
    assert(parts.deep_view() =~= split(message@));
    parts
}

} // verus!
