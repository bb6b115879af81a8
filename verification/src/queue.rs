//! What holds of webhook deliveries as a whole, however many workers there are.
//!
//! A queue is what the database holds of deliveries, and which of them a worker holds. A
//! worker reads the deliveries that are due under row locks, and passes over those that are
//! locked already. It keeps the locks until the attempts are recorded: its transaction shows
//! them when it commits, and none of them if it does not.
use vstd::prelude::*;

use crate::webhooks::DeliveryState;

verus! {

/// A delivery, with the endpoint that it goes to.
pub struct QueuedDelivery {
    pub endpoint_id: u128,
    pub state: DeliveryState,
}

/// A delivery in the hands of a worker: what its attempt will be recorded as, once it has
/// ended.
pub struct Hold {
    pub worker: int,
    pub ended: Option<DeliveryState>,
}

/// The deliveries, and who holds them.
pub struct Queue {
    /// The deliveries, by their ids.
    pub deliveries: Map<u128, QueuedDelivery>,
    /// The endpoints that are switched off.
    pub inactive: Set<u128>,
    /// The deliveries that a worker holds.
    pub held: Map<u128, Hold>,
    /// The deliveries that were taken up, in order, each with the attempts that came before.
    pub taken: Seq<(u128, int)>,
}

/// Something that happens.
pub enum QueueEvent {
    /// A delivery is recorded.
    Enqueue { id: u128, endpoint_id: u128, now: int },
    /// An endpoint is switched on or off.
    Switch { endpoint_id: u128, active: bool },
    /// A worker takes a delivery up.
    TakeUp { worker: int, id: u128, now: int },
    /// The attempt of a worker ends.
    End { worker: int, id: u128, error: Option<Seq<char>>, now: int },
    /// A worker commits its attempts, all of which have ended, and lets the deliveries go.
    Commit { worker: int },
    /// A worker lets a delivery go whose attempt broke down.
    Abandon { worker: int, id: u128 },
    /// A worker breaks down, and lets all that it holds go.
    Crash { worker: int },
}

impl Queue {
    /// The queue before anything has happened.
    pub open spec fn empty() -> Queue {
        Queue {
            deliveries: Map::empty(),
            inactive: Set::empty(),
            held: Map::empty(),
            taken: Seq::empty(),
        }
    }

    /// Whether a worker can take the delivery up: it is due, its endpoint is active, and
    /// nobody holds it.
    pub open spec fn is_free(self, id: u128, now: int) -> bool {
        &&& self.deliveries.contains_key(id)
        &&& self.deliveries[id].state.is_due(now)
        &&& !self.inactive.contains(self.deliveries[id].endpoint_id)
        &&& !self.held.contains_key(id)
    }

    /// Whether the worker holds the delivery.
    pub open spec fn holds(self, worker: int, id: u128) -> bool {
        self.held.contains_key(id) && self.held[id].worker == worker
    }

    /// What the worker holds is let go.
    pub open spec fn let_go(self, worker: int) -> Map<u128, Hold> {
        Map::new(
            |id: u128| self.held.contains_key(id) && self.held[id].worker != worker,
            |id: u128| self.held[id],
        )
    }

    /// The deliveries once the attempts of the worker are recorded.
    pub open spec fn recorded(self, worker: int) -> Map<u128, QueuedDelivery> {
        Map::new(
            |id: u128| self.deliveries.contains_key(id),
            |id: u128|
                if self.holds(worker, id) {
                    match self.held[id].ended {
                        Some(state) => QueuedDelivery { state, ..self.deliveries[id] },
                        None => self.deliveries[id],
                    }
                } else {
                    self.deliveries[id]
                },
        )
    }

    /// Whether every attempt of the worker has ended.
    pub open spec fn is_done(self, worker: int) -> bool {
        forall|id: u128| #[trigger]
            self.held.contains_key(id) && self.held[id].worker == worker
                ==> self.held[id].ended is Some
    }

    /// The queue after `event`. What cannot happen leaves it as it is.
    pub open spec fn after(self, event: QueueEvent) -> Queue {
        match event {
            QueueEvent::Enqueue { id, endpoint_id, now } => if self.deliveries.contains_key(id) {
                self
            } else {
                Queue {
                    deliveries: self.deliveries.insert(
                        id,
                        QueuedDelivery { endpoint_id, state: DeliveryState::fresh(now) },
                    ),
                    ..self
                }
            },
            QueueEvent::Switch { endpoint_id, active } => Queue {
                inactive: if active {
                    self.inactive.remove(endpoint_id)
                } else {
                    self.inactive.insert(endpoint_id)
                },
                ..self
            },
            QueueEvent::TakeUp { worker, id, now } => if self.is_free(id, now) {
                Queue {
                    held: self.held.insert(id, Hold { worker, ended: None }),
                    taken: self.taken.push((id, self.deliveries[id].state.attempt_count)),
                    ..self
                }
            } else {
                self
            },
            QueueEvent::End { worker, id, error, now } => if self.holds(worker, id)
                && self.held[id].ended is None {
                Queue {
                    held: self.held.insert(
                        id,
                        Hold {
                            worker,
                            ended: Some(self.deliveries[id].state.after(error, now)),
                        },
                    ),
                    ..self
                }
            } else {
                self
            },
            QueueEvent::Commit { worker } => if self.is_done(worker) {
                Queue {
                    deliveries: self.recorded(worker),
                    held: self.let_go(worker),
                    ..self
                }
            } else {
                self
            },
            QueueEvent::Abandon { worker, id } => if self.holds(worker, id) {
                Queue { held: self.held.remove(id), ..self }
            } else {
                self
            },
            QueueEvent::Crash { worker } => Queue { held: self.let_go(worker), ..self },
        }
    }

    /// The queue after a row of events.
    pub open spec fn after_all(self, events: Seq<QueueEvent>) -> Queue
        decreases events.len(),
    {
        if events.len() == 0 {
            self
        } else {
            self.after_all(events.drop_last()).after(events.last())
        }
    }

    /// What is held is there, and an attempt that has ended counts for one more.
    pub open spec fn holds_are_sound(self) -> bool {
        forall|id: u128| #[trigger]
            self.held.contains_key(id) ==> self.deliveries.contains_key(id) && (
            self.held[id].ended matches Some(state) ==> state.attempt_count
                == self.deliveries[id].state.attempt_count + 1)
    }

    /// What was taken up is there; and it was recorded since, or is still held.
    pub open spec fn attempts_are_accounted_for(self) -> bool {
        forall|i: int|
            0 <= i < self.taken.len() ==> {
                let (id, before) = #[trigger] self.taken[i];
                &&& self.deliveries.contains_key(id)
                &&& before < self.deliveries[id].state.attempt_count || (before
                    == self.deliveries[id].state.attempt_count && self.held.contains_key(id))
            }
    }
}

/// Whether in this event a worker lets a delivery go that it did not come to an end with.
pub open spec fn is_breakdown(event: QueueEvent) -> bool {
    event is Abandon || event is Crash
}

/// Whether in this event the worker can let the delivery go.
pub open spec fn ends_hold(event: QueueEvent, worker: int, id: u128) -> bool {
    match event {
        QueueEvent::Commit { worker: w } => w == worker,
        QueueEvent::Abandon { worker: w, id: i } => w == worker && i == id,
        QueueEvent::Crash { worker: w } => w == worker,
        _ => false,
    }
}

/// A delivery that is due, goes to an active endpoint and is held by nobody can be taken up.
/// It is then in the hands of the worker that took it up.
pub proof fn free_deliveries_are_taken_up(q: Queue, worker: int, id: u128, now: int)
    requires
        q.is_free(id, now),
    ensures
        q.after(QueueEvent::TakeUp { worker, id, now }).holds(worker, id),
        q.after(QueueEvent::TakeUp { worker, id, now }).taken == q.taken.push(
            (id, q.deliveries[id].state.attempt_count),
        ),
{
}

/// A delivery that is held, is not due yet or goes to an endpoint that is switched off is
/// passed over.
pub proof fn other_deliveries_are_passed_over(q: Queue, worker: int, id: u128, now: int)
    requires
        !q.is_free(id, now),
    ensures
        q.after(QueueEvent::TakeUp { worker, id, now }) == q,
{
}

/// A delivery that a worker holds stays in its hands, and is taken up by nobody, until that
/// worker commits its attempt or breaks down, whatever other workers do.
pub proof fn held_deliveries_are_left_alone(
    q: Queue,
    events: Seq<QueueEvent>,
    worker: int,
    id: u128,
)
    requires
        q.holds(worker, id),
        q.deliveries.contains_key(id),
        forall|i: int| 0 <= i < events.len() ==> !ends_hold(#[trigger] events[i], worker, id),
    ensures
        q.after_all(events).holds(worker, id),
        q.after_all(events).deliveries.contains_key(id),
        q.after_all(events).deliveries[id] == q.deliveries[id],
        q.taken.is_prefix_of(q.after_all(events).taken),
        forall|i: int|
            q.taken.len() <= i < q.after_all(events).taken.len() ==> (
            #[trigger] q.after_all(events).taken[i]).0 != id,
    decreases events.len(),
{
    if events.len() > 0 {
        let init = events.drop_last();
        let before = q.after_all(init);
        assert forall|i: int| 0 <= i < init.len() implies !ends_hold(
            #[trigger] init[i],
            worker,
            id,
        ) by {
            assert(init[i] == events[i]);
        }
        held_deliveries_are_left_alone(q, init, worker, id);
        assert(!ends_hold(events[events.len() - 1], worker, id));
        let after = before.after(events.last());
        assert(before.taken.is_prefix_of(after.taken));
        assert forall|i: int| q.taken.len() <= i < after.taken.len() implies (
        #[trigger] after.taken[i]).0 != id by {
            if i < before.taken.len() {
                assert(after.taken[i] == before.taken[i]);
            }
        }
    }
}

/// A commit records the attempts of the worker as they ended, and lets their deliveries go.
pub proof fn commits_record_attempts(
    q: Queue,
    worker: int,
    id: u128,
    error: Option<Seq<char>>,
    now: int,
)
    requires
        q.holds(worker, id),
        q.deliveries.contains_key(id),
        q.held[id].ended is None,
        q.after(QueueEvent::End { worker, id, error, now }).is_done(worker),
    ensures
        ({
            let m = q.after(QueueEvent::End { worker, id, error, now }).after(
                QueueEvent::Commit { worker },
            );
            &&& !m.held.contains_key(id)
            &&& m.deliveries[id].state == q.deliveries[id].state.after(error, now)
            &&& m.deliveries[id].endpoint_id == q.deliveries[id].endpoint_id
        }),
{
}

proof fn holds_stay_sound(q: Queue, event: QueueEvent)
    requires
        q.holds_are_sound(),
    ensures
        q.after(event).holds_are_sound(),
{
    let m = q.after(event);
    assert forall|id: u128| #[trigger] m.held.contains_key(id) implies m.deliveries.contains_key(
        id,
    ) && (m.held[id].ended matches Some(state) ==> state.attempt_count
        == m.deliveries[id].state.attempt_count + 1) by {
        assert(q.held.contains_key(id) || event is TakeUp);
    }
}

proof fn attempts_stay_accounted_for(q: Queue, event: QueueEvent)
    requires
        q.holds_are_sound(),
        q.attempts_are_accounted_for(),
        q.taken.no_duplicates(),
        !is_breakdown(event),
    ensures
        q.after(event).attempts_are_accounted_for(),
        q.after(event).taken.no_duplicates(),
{
    let m = q.after(event);
    assert forall|i: int| 0 <= i < m.taken.len() implies {
        let (id, before) = #[trigger] m.taken[i];
        &&& m.deliveries.contains_key(id)
        &&& before < m.deliveries[id].state.attempt_count || (before
            == m.deliveries[id].state.attempt_count && m.held.contains_key(id))
    } by {
        if i < q.taken.len() {
            assert(m.taken[i] == q.taken[i]);
            let id = q.taken[i].0;
            if q.held.contains_key(id) && event is Commit {
                assert(q.deliveries.contains_key(id));
            }
        }
    }
    assert forall|i: int, j: int| 0 <= i < m.taken.len() && 0 <= j < m.taken.len() && i
        != j implies m.taken[i] != m.taken[j] by {
        if i < q.taken.len() {
            assert(m.taken[i] == q.taken[i]);
        }
        if j < q.taken.len() {
            assert(m.taken[j] == q.taken[j]);
        }
    }
}

/// Exclusive pick-up: as long as no worker breaks down, none of the attempts of a delivery is
/// made twice, however many workers there are and however they are interleaved.
pub proof fn attempts_are_made_once(events: Seq<QueueEvent>)
    requires
        forall|i: int| 0 <= i < events.len() ==> !is_breakdown(#[trigger] events[i]),
    ensures
        Queue::empty().after_all(events).taken.no_duplicates(),
        Queue::empty().after_all(events).holds_are_sound(),
        Queue::empty().after_all(events).attempts_are_accounted_for(),
    decreases events.len(),
{
    if events.len() > 0 {
        let init = events.drop_last();
        assert forall|i: int| 0 <= i < init.len() implies !is_breakdown(#[trigger] init[i]) by {
            assert(init[i] == events[i]);
        }
        attempts_are_made_once(init);
        assert(!is_breakdown(events[events.len() - 1]));
        holds_stay_sound(Queue::empty().after_all(init), events.last());
        attempts_stay_accounted_for(Queue::empty().after_all(init), events.last());
    }
}

} // verus!
