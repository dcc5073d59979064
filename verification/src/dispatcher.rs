//! The delivery of a message to all its destinations, one after another.
//!
//! A `Dispatcher` splits the message by destination domain and runs one
//! delivery for each group.  However a delivery ends, its result is put
//! on record and the next group is begun: what happens in one group
//! changes nothing for the groups beside it.

use vstd::prelude::*;
use crate::delivery::{
    Action, ActionView, Delivery, DeliveryView, Event, EventView, Outcome, OutcomeView, Status,
};
use crate::error::DeliveryError;
use crate::dispatch::{partition, split};
use crate::smtp::args::{Domain, DomainView};
use crate::smtp::client::{ForeignMessage, ForeignMessageView};

verus! {

/// The state of a dispatch.
pub struct Dispatcher {
    hostname: Domain,
    groups: Vec<ForeignMessage>,
    next: usize,
    current: Delivery,
    outcomes: Vec<Outcome>,
}

/// The mathematical value of a `Dispatcher`.
pub struct DispatcherView {
    /// The name under which the clients greet the servers.
    pub hostname: DomainView,
    /// The groups that have not been begun, in order.
    pub waiting: Seq<ForeignMessageView>,
    /// The delivery that is under way, or `Done` between two deliveries.
    pub current: DeliveryView,
    /// The results of the deliveries that are over, in order.
    pub outcomes: Seq<OutcomeView>,
}

impl DispatcherView {
    /// Begins the waiting groups one after another until one has
    /// something to do.  A delivery that is over as soon as it is begun
    /// is put on record and the next one is begun.  With no group left
    /// there is nothing to do.
    pub open spec fn advance(self) -> (DispatcherView, ActionView)
        decreases self.waiting.len(),
    {
        if self.waiting.len() == 0 {
            (DispatcherView { current: DeliveryView::Done, ..self }, ActionView::Idle)
        } else {
            let (delivery, action) = DeliveryView::begin(self.hostname, self.waiting[0]);
            match action {
                ActionView::Finish(outcome) => (DispatcherView {
                    waiting: self.waiting.drop_first(),
                    current: DeliveryView::Done,
                    outcomes: self.outcomes.push(outcome),
                    ..self
                }).advance(),
                _ => (
                    DispatcherView {
                        waiting: self.waiting.drop_first(),
                        current: delivery,
                        ..self
                    },
                    action,
                ),
            }
        }
    }

    /// The dispatch of a message, at its start.
    pub open spec fn begin(hostname: DomainView, message: ForeignMessageView) -> (
        DispatcherView,
        ActionView,
    ) {
        (DispatcherView {
            hostname,
            waiting: split(message),
            current: DeliveryView::Done,
            outcomes: Seq::<OutcomeView>::empty(),
        }).advance()
    }

    /// What the dispatch does when it is told what happened.  The event
    /// goes to the delivery under way.  When that delivery ends, for
    /// whatever reason, its result is put on record and the dispatch goes
    /// on with the groups that wait.
    pub open spec fn step(self, event: EventView) -> (DispatcherView, ActionView) {
        let (delivery, action) = self.current.step(event);
        match action {
            ActionView::Finish(outcome) => (DispatcherView {
                current: DeliveryView::Done,
                outcomes: self.outcomes.push(outcome),
                ..self
            }).advance(),
            _ => (DispatcherView { current: delivery, ..self }, action),
        }
    }

    /// The number of groups of the dispatch: those on record, the one
    /// under way and those that wait.
    pub open spec fn groups(self) -> int {
        self.outcomes.len() + self.waiting.len() + (if self.current is Done {
            0int
        } else {
            1int
        })
    }
}

impl View for Dispatcher {
    type V = DispatcherView;

    closed spec fn view(&self) -> DispatcherView {
        DispatcherView {
            hostname: self.hostname@,
            waiting: if self.next <= self.groups.len() {
                self.groups.deep_view().skip(self.next as int)
            } else {
                Seq::<ForeignMessageView>::empty()
            },
            current: self.current@,
            outcomes: self.outcomes.deep_view(),
        }
    }
}

impl Dispatcher {
    /// Splits a message by destination and begins the first delivery.
    /// The clients will greet the servers as `hostname`.
    pub fn begin(hostname: Domain, message: &ForeignMessage) -> (r: (Dispatcher, Action))
        ensures
            (r.0@, r.1@) == DispatcherView::begin(hostname@, message@),
    {
        let dispatcher = Dispatcher {
            hostname,
            groups: partition(message),
            next: 0,
            current: Delivery::Done,
            outcomes: Vec::new(),
        };
        assert(dispatcher@.waiting =~= split(message@));
        assert(dispatcher@.outcomes =~= Seq::<OutcomeView>::empty());
        dispatcher.advance()
    }

    /// Begins the waiting groups until one has something to do.
    fn advance(self) -> (r: (Dispatcher, Action))
        requires
            self@.current is Done,
        ensures
            (r.0@, r.1@) == self@.advance(),
    {
        let mut this = self;
        while this.next < this.groups.len()
            invariant
                this@.current is Done,
                this@.advance() == self@.advance(),
            decreases this.groups.len() - this.next,
        {
            let ghost before = this@;
            let message = this.groups[this.next].clone();
            let (delivery, action) = Delivery::begin(this.hostname.clone(), message);
            this.next = this.next + 1;
            assert(this@.waiting =~= before.waiting.drop_first());
            match action {
                Action::Finish(outcome) => {
                    this.outcomes.push(outcome);
                    assert(this@.outcomes =~= before.outcomes.push(outcome@));
                },
                other => {
                    this.current = delivery;
                    return (this, other);
                },
            }
        }
        (this, Action::Idle)
    }

    /// Takes what happened to the delivery under way and says what to do
    /// next.  `Action::Connect` for the next group means that the
    /// connection of the group before is to be closed first.
    pub fn step(self, event: Event) -> (r: (Dispatcher, Action))
        ensures
            (r.0@, r.1@) == self@.step(event@),
    {
        let Dispatcher { hostname, groups, next, current, outcomes } = self;
        let (delivery, action) = current.step(event);
        match action {
            Action::Finish(outcome) => {
                let mut outcomes = outcomes;
                outcomes.push(outcome);
                let this = Dispatcher { hostname, groups, next, current: Delivery::Done, outcomes };
                assert(this@.outcomes =~= self@.outcomes.push(outcome@));
                this.advance()
            },
            other => (Dispatcher { hostname, groups, next, current: delivery, outcomes }, other),
        }
    }

    /// Whether every group has had its delivery.
    pub fn is_done(&self) -> (r: bool)
        ensures
            r == (self@.current is Done && self@.waiting.len() == 0),
    {
        self.current.is_done() && self.next >= self.groups.len()
    }

    /// The results of the deliveries that are over, in the order of the
    /// groups.
    pub fn outcomes(&self) -> (r: &Vec<Outcome>)
        ensures
            r.deep_view() == self@.outcomes,
    {
        &self.outcomes
    }

    /// Ends the dispatch and hands out the results.
    pub fn into_outcomes(self) -> (r: Vec<Outcome>)
        ensures
            r.deep_view() == self@.outcomes,
    {
        self.outcomes
    }
}

/// Beginning the groups that wait loses no group and touches none: the
/// results on record stay as they are, the groups that still wait are
/// the last of those that waited, and the number of groups is the same.
pub proof fn lemma_advance_keeps_groups(dispatch: DispatcherView)
    requires
        dispatch.current is Done,
    ensures
        ({
            let after = dispatch.advance().0;
            &&& after.hostname == dispatch.hostname
            &&& after.groups() == dispatch.groups()
            &&& after.outcomes.len() >= dispatch.outcomes.len()
            &&& after.outcomes.take(dispatch.outcomes.len() as int) == dispatch.outcomes
            &&& after.waiting.len() <= dispatch.waiting.len()
            &&& after.waiting == dispatch.waiting.skip(
                dispatch.waiting.len() - after.waiting.len(),
            )
            &&& dispatch.advance().1 is Idle <==> after.current is Done
            &&& after.current is Done ==> after.waiting.len() == 0
            &&& !(dispatch.advance().1 is Finish)
        }),
    decreases dispatch.waiting.len(),
{
    if dispatch.waiting.len() == 0 {
        assert(dispatch.outcomes.take(dispatch.outcomes.len() as int) =~= dispatch.outcomes);
        assert(dispatch.waiting.skip(0) =~= dispatch.waiting);
    } else {
        let (delivery, action) = DeliveryView::begin(dispatch.hostname, dispatch.waiting[0]);
        match action {
            ActionView::Finish(outcome) => {
                let next = DispatcherView {
                    waiting: dispatch.waiting.drop_first(),
                    current: DeliveryView::Done,
                    outcomes: dispatch.outcomes.push(outcome),
                    ..dispatch
                };
                lemma_advance_keeps_groups(next);
                let after = next.advance().0;
                assert(after.outcomes.take(dispatch.outcomes.len() as int) =~= next.outcomes.take(
                    dispatch.outcomes.len() as int,
                ));
                assert(next.outcomes.take(dispatch.outcomes.len() as int) =~= dispatch.outcomes);
                assert(after.waiting =~= dispatch.waiting.skip(
                    dispatch.waiting.len() - after.waiting.len(),
                ));
            },
            _ => {
                assert(dispatch.outcomes.take(dispatch.outcomes.len() as int)
                    =~= dispatch.outcomes);
                assert(dispatch.waiting.drop_first() =~= dispatch.waiting.skip(1));
            },
        }
    }
}

/// Whatever happens to the delivery under way, success, refusal, timeout
/// or a broken connection, the other groups are not affected: no result
/// on record changes, the groups that wait stay as they are and keep
/// their order, and no group is lost.  Only groups from the front of the
/// waiting ones are begun, and only once the delivery under way is over.
pub proof fn lemma_step_keeps_groups(dispatch: DispatcherView, event: EventView)
    requires
        dispatch.current is Done ==> dispatch.waiting.len() == 0,
    ensures
        ({
            let after = dispatch.step(event).0;
            &&& after.hostname == dispatch.hostname
            &&& after.groups() == dispatch.groups()
            &&& after.outcomes.len() >= dispatch.outcomes.len()
            &&& after.outcomes.take(dispatch.outcomes.len() as int) == dispatch.outcomes
            &&& after.waiting.len() <= dispatch.waiting.len()
            &&& after.waiting == dispatch.waiting.skip(
                dispatch.waiting.len() - after.waiting.len(),
            )
            &&& after.current is Done ==> after.waiting.len() == 0
            &&& !(dispatch.current.step(event).1 is Finish) ==> after.waiting == dispatch.waiting
                && after.outcomes == dispatch.outcomes && after.current == dispatch.current.step(
                event,
            ).0 && dispatch.step(event).1 == dispatch.current.step(event).1
        }),
{
    let (delivery, action) = dispatch.current.step(event);
    match action {
        ActionView::Finish(outcome) => {
            let next = DispatcherView {
                current: DeliveryView::Done,
                outcomes: dispatch.outcomes.push(outcome),
                ..dispatch
            };
            lemma_advance_keeps_groups(next);
            let after = next.advance().0;
            assert(after.outcomes.take(dispatch.outcomes.len() as int) =~= next.outcomes.take(
                dispatch.outcomes.len() as int,
            ));
            assert(next.outcomes.take(dispatch.outcomes.len() as int) =~= dispatch.outcomes);
        },
        _ => {
            assert(dispatch.outcomes.take(dispatch.outcomes.len() as int) =~= dispatch.outcomes);
            assert(dispatch.waiting.skip(0) =~= dispatch.waiting);
        },
    }
}

/// A delivery that ends, be it by a failure, is followed by the next
/// group as if nothing had happened before: its result is put on record,
/// and the dispatch goes on exactly as the waiting groups would be begun
/// on their own.
pub proof fn lemma_failure_is_contained(
    dispatch: DispatcherView,
    event: EventView,
    outcome: OutcomeView,
)
    requires
        dispatch.current.step(event).1 == ActionView::Finish(outcome),
    ensures
        dispatch.step(event) == (DispatcherView {
            current: DeliveryView::Done,
            outcomes: dispatch.outcomes.push(outcome),
            ..dispatch
        }).advance(),
        dispatch.waiting.len() > 0 && !(DeliveryView::begin(
            dispatch.hostname,
            dispatch.waiting[0],
        ).1 is Finish) ==> dispatch.step(event) == (
            DispatcherView {
                hostname: dispatch.hostname,
                waiting: dispatch.waiting.drop_first(),
                current: DeliveryView::begin(dispatch.hostname, dispatch.waiting[0]).0,
                outcomes: dispatch.outcomes.push(outcome),
            },
            DeliveryView::begin(dispatch.hostname, dispatch.waiting[0]).1,
        ),
{
}

/// A connection that is not established in time fails its own group with
/// `ConnectionTimeout`, and nothing else.
pub proof fn lemma_timeout_fails_one_group(dispatch: DispatcherView)
    requires
        dispatch.current is Connecting,
    ensures
        ({
            let after = dispatch.step(EventView::ConnectTimedOut).0;
            &&& after.outcomes.len() > dispatch.outcomes.len()
            &&& after.outcomes[dispatch.outcomes.len() as int] == (OutcomeView {
                status: Status::Failed(
                    DeliveryError::ConnectionTimeout,
                ),
                bounce: None,
            })
            &&& after.outcomes.take(dispatch.outcomes.len() as int) == dispatch.outcomes
            &&& after.groups() == dispatch.groups()
        }),
{
    let outcome = OutcomeView {
        status: Status::Failed(DeliveryError::ConnectionTimeout),
        bounce: None,
    };
    let next = DispatcherView {
        current: DeliveryView::Done,
        outcomes: dispatch.outcomes.push(outcome),
        ..dispatch
    };
    lemma_advance_keeps_groups(next);
    let after = next.advance().0;
    assert(after.outcomes.take(next.outcomes.len() as int) == next.outcomes);
    assert(after.outcomes[dispatch.outcomes.len() as int] == after.outcomes.take(
        next.outcomes.len() as int,
    )[dispatch.outcomes.len() as int]);
    assert(after.outcomes.take(dispatch.outcomes.len() as int) =~= next.outcomes.take(
        dispatch.outcomes.len() as int,
    ));
    assert(next.outcomes.take(dispatch.outcomes.len() as int) =~= dispatch.outcomes);
}

} // verus!
