//! The tracker as a mathematical state machine, and what holds of every run
//! of it.
//!
//! The executable tracker's operations are specified as steps of this
//! machine; what is proved of the machine at the end of the file therefore
//! holds of every sequence of operations on a tracker.

use vstd::prelude::*;
use std::sync::Arc;
use crate::connection::ConnectionInfo;
use crate::time::{spec_max, spec_min, MonotonicTime};

verus! {

/// The state of a tracker, with unbounded counters.
pub struct TrackerModel {
    /// The identity that the next admitted connection gets.
    pub next_id: nat,
    /// The most connections that may be open at once.
    pub limit: nat,
    /// The open connections, by identity.
    pub live: Map<nat, Arc<ConnectionInfo>>,
    /// The most connections that were ever open at once.
    pub max_open: nat,
    /// How many connections were refused.
    pub limit_hits: nat,
    /// The shortest age at which a connection closed, if any has closed.
    pub past_min_age: Option<nat>,
    /// The longest age at which a connection closed, zero if none has.
    pub past_max_age: nat,
    /// The most requests counted on a connection that closed.
    pub past_max_requests: nat,
}

/// What can happen to a tracker.
pub enum TrackerEvent {
    /// A connection asks to be admitted; `info` is what is recorded of it if
    /// it is.
    Connect { info: Arc<ConnectionInfo> },
    /// The connection `id` closes at the given age, with the given number of
    /// requests counted on it.
    Disconnect { id: nat, age: nat, requests: nat },
}

impl TrackerModel {
    /// The state of a new tracker.
    pub open spec fn initial(limit: nat) -> TrackerModel {
        TrackerModel {
            next_id: 1,
            limit,
            live: Map::empty(),
            max_open: 0,
            limit_hits: 0,
            past_min_age: None,
            past_max_age: 0,
            past_max_requests: 0,
        }
    }

    /// The invariant of the tracker: no more connections are open than the
    /// limit allows, every open connection has an identity that was already
    /// handed out, and the peak is a true peak.
    pub open spec fn wf(self) -> bool {
        &&& self.live.dom().finite()
        &&& self.live.len() <= self.limit
        &&& self.next_id >= 1
        &&& forall|id: nat| self.live.contains_key(id) ==> 1 <= id < self.next_id
        &&& self.live.len() <= self.max_open <= self.limit
        &&& (self.past_min_age matches Some(shortest) ==> shortest <= self.past_max_age)
    }

    /// Every entry is filed under the identity it records.
    pub open spec fn labelled(self) -> bool {
        forall|id: nat| #[trigger]
            self.live.contains_key(id) ==> self.live[id].spec_id()@ == id
    }

    /// One more connection would exceed the limit.
    pub open spec fn is_full(self) -> bool {
        self.live.len() + 1 > self.limit
    }

    /// The state after a connection was refused.
    pub open spec fn refuse(self) -> TrackerModel {
        TrackerModel { limit_hits: self.limit_hits + 1, ..self }
    }

    /// The state after a connection was admitted and `info` recorded of it.
    pub open spec fn accept(self, info: Arc<ConnectionInfo>) -> TrackerModel {
        let live = self.live.insert(self.next_id, info);
        TrackerModel {
            next_id: self.next_id + 1,
            live,
            max_open: spec_max(self.max_open as int, live.len() as int) as nat,
            ..self
        }
    }

    /// The state after a connection asked to be admitted.
    pub open spec fn connect(self, info: Arc<ConnectionInfo>) -> TrackerModel {
        if self.is_full() {
            self.refuse()
        } else {
            self.accept(info)
        }
    }

    /// The state after the connection `id` was released at the given age and
    /// request count. Releasing a connection that is not open changes nothing.
    pub open spec fn release(self, id: nat, age: nat, requests: nat) -> TrackerModel {
        if self.live.contains_key(id) {
            TrackerModel {
                live: self.live.remove(id),
                past_min_age: Some(
                    match self.past_min_age {
                        Some(shortest) => spec_min(shortest as int, age as int) as nat,
                        None => age,
                    },
                ),
                past_max_age: spec_max(self.past_max_age as int, age as int) as nat,
                past_max_requests: spec_max(self.past_max_requests as int, requests as int) as nat,
                ..self
            }
        } else {
            self
        }
    }

    /// The state after one event.
    pub open spec fn step(self, event: TrackerEvent) -> TrackerModel {
        match event {
            TrackerEvent::Connect { info } => self.connect(info),
            TrackerEvent::Disconnect { id, age, requests } => self.release(id, age, requests),
        }
    }

    /// The state after a sequence of events.
    pub open spec fn run(self, events: Seq<TrackerEvent>) -> TrackerModel
        decreases events.len(),
    {
        if events.len() == 0 {
            self
        } else {
            self.run(events.drop_last()).step(events.last())
        }
    }

    /// Whether the last of `events` is a connection that is admitted.
    pub open spec fn last_is_admitted(self, events: Seq<TrackerEvent>) -> bool
        recommends
            events.len() > 0,
    {
        events.last() is Connect && !self.run(events.drop_last()).is_full()
    }

    /// Whether the last of `events` is a connection that is refused.
    pub open spec fn last_is_refused(self, events: Seq<TrackerEvent>) -> bool
        recommends
            events.len() > 0,
    {
        events.last() is Connect && self.run(events.drop_last()).is_full()
    }

    /// How many of `events` are connections that are admitted.
    pub open spec fn admitted(self, events: Seq<TrackerEvent>) -> nat
        decreases events.len(),
    {
        if events.len() == 0 {
            0
        } else if self.last_is_admitted(events) {
            self.admitted(events.drop_last()) + 1
        } else {
            self.admitted(events.drop_last())
        }
    }

    /// How many of `events` are connections that are refused.
    pub open spec fn refused(self, events: Seq<TrackerEvent>) -> nat
        decreases events.len(),
    {
        if events.len() == 0 {
            0
        } else if self.last_is_refused(events) {
            self.refused(events.drop_last()) + 1
        } else {
            self.refused(events.drop_last())
        }
    }

    /// The identities handed out during `events`, in the order in which they
    /// were handed out.
    pub open spec fn issued(self, events: Seq<TrackerEvent>) -> Seq<nat>
        decreases events.len(),
    {
        if events.len() == 0 {
            Seq::empty()
        } else if self.last_is_admitted(events) {
            self.issued(events.drop_last()).push(self.run(events.drop_last()).next_id)
        } else {
            self.issued(events.drop_last())
        }
    }

    /// `longest` is the largest age on record at the monotonic reading `now`:
    /// the largest among the ages at which connections closed and the ages
    /// of the open connections, zero if there never was a connection.
    pub open spec fn is_max_lifetime(self, now: MonotonicTime, longest: int) -> bool {
        &&& longest >= self.past_max_age
        &&& forall|id: nat| #[trigger]
            self.live.contains_key(id) ==> longest >= self.live[id].spec_age(now)
        &&& (longest == self.past_max_age || exists|id: nat| #[trigger]
            self.live.contains_key(id) && longest == self.live[id].spec_age(now))
    }

    /// `shortest` is the smallest age on record at the monotonic reading
    /// `now`: the smallest among the shortest age at which a connection
    /// closed, if any has closed, and the ages of the open connections; zero
    /// if there never was a connection.
    pub open spec fn is_min_lifetime(self, now: MonotonicTime, shortest: int) -> bool {
        &&& self.past_min_age matches Some(past) ==> shortest <= past
        &&& forall|id: nat| #[trigger]
            self.live.contains_key(id) ==> shortest <= self.live[id].spec_age(now)
        &&& {
            ||| self.past_min_age == Some(shortest as nat) && shortest >= 0
            ||| exists|id: nat| #[trigger]
                self.live.contains_key(id) && shortest == self.live[id].spec_age(now)
            ||| self.past_min_age.is_none() && self.live.dom() =~= Set::empty() && shortest == 0
        }
    }

    /// `listing` holds every open connection exactly once.
    pub open spec fn is_listing(self, listing: Seq<Arc<ConnectionInfo>>) -> bool {
        &&& forall|i: int|
            0 <= i < listing.len() ==> self.live.contains_key(
                (#[trigger] listing[i]).spec_id()@ as nat,
            ) && self.live[listing[i].spec_id()@ as nat] == listing[i]
        &&& forall|id: nat| #[trigger]
            self.live.contains_key(id) ==> exists|i: int|
                0 <= i < listing.len() && #[trigger] listing[i] == self.live[id]
        &&& forall|i: int, j: int|
            0 <= i < j < listing.len() ==> (#[trigger] listing[i]).spec_id() != (
            #[trigger] listing[j]).spec_id()
    }
}

/// How many of `events` are connection attempts.
pub open spec fn attempts(events: Seq<TrackerEvent>) -> nat
    decreases events.len(),
{
    if events.len() == 0 {
        0
    } else if events.last() is Connect {
        attempts(events.drop_last()) + 1
    } else {
        attempts(events.drop_last())
    }
}

/// Every one of `events` is a connection attempt.
pub open spec fn all_connects(events: Seq<TrackerEvent>) -> bool {
    forall|i: int| 0 <= i < events.len() ==> #[trigger] events[i] is Connect
}

/// An event keeps the invariant and the limit.
pub proof fn lemma_step_keeps_invariant(state: TrackerModel, event: TrackerEvent)
    requires
        state.wf(),
    ensures
        state.step(event).wf(),
        state.step(event).limit == state.limit,
        state.step(event).next_id >= state.next_id,
{
    match event {
        TrackerEvent::Connect { info } => {
            if !state.is_full() {
                assert(!state.live.contains_key(state.next_id));
                let after = state.accept(info);
                assert(after.live.len() == state.live.len() + 1);
                assert forall|id: nat| after.live.contains_key(id) implies 1 <= id
                    < after.next_id by {
                    if id != state.next_id {
                        assert(state.live.contains_key(id));
                    }
                }
            }
        },
        TrackerEvent::Disconnect { id, age, requests } => {
            if state.live.contains_key(id) {
                let after = state.release(id, age, requests);
                assert(after.live.len() == state.live.len() - 1);
                assert forall|other: nat| after.live.contains_key(other) implies 1 <= other
                    < after.next_id by {
                    assert(state.live.contains_key(other));
                }
            }
        },
    }
}

/// The invariant holds after every run that starts where it holds, and the
/// limit never changes.
pub proof fn lemma_run_keeps_invariant(state: TrackerModel, events: Seq<TrackerEvent>)
    requires
        state.wf(),
    ensures
        state.run(events).wf(),
        state.run(events).limit == state.limit,
        state.run(events).next_id >= state.next_id,
    decreases events.len(),
{
    if events.len() > 0 {
        lemma_run_keeps_invariant(state, events.drop_last());
        lemma_step_keeps_invariant(state.run(events.drop_last()), events.last());
    }
}

/// In every state that a new tracker can reach, the number of open
/// connections is at most the limit, and so is the peak.
pub proof fn lemma_live_never_exceeds_limit(limit: nat, events: Seq<TrackerEvent>)
    ensures
        TrackerModel::initial(limit).run(events).live.len() <= limit,
        TrackerModel::initial(limit).run(events).max_open <= limit,
        TrackerModel::initial(limit).run(events).live.len() <= TrackerModel::initial(limit).run(
            events,
        ).max_open,
{
    assert(TrackerModel::initial(limit).wf());
    lemma_run_keeps_invariant(TrackerModel::initial(limit), events);
}

/// Every connection attempt is either admitted or refused; the refusals are
/// what `limit_hits` counts, and the admissions are what moves `next_id`.
pub proof fn lemma_attempts_are_admitted_or_refused(state: TrackerModel, events: Seq<TrackerEvent>)
    ensures
        state.admitted(events) + state.refused(events) == attempts(events),
        state.run(events).limit_hits == state.limit_hits + state.refused(events),
        state.run(events).next_id == state.next_id + state.admitted(events),
    decreases events.len(),
{
    if events.len() > 0 {
        lemma_attempts_are_admitted_or_refused(state, events.drop_last());
    }
}

/// Counted from a new tracker: admitted plus refused is the number of
/// attempts, and `limit_hits` is the number refused.
pub proof fn lemma_limit_hits_counts_refusals(limit: nat, events: Seq<TrackerEvent>)
    ensures
        TrackerModel::initial(limit).admitted(events) + TrackerModel::initial(limit).refused(events)
            == attempts(events),
        TrackerModel::initial(limit).run(events).limit_hits == TrackerModel::initial(
            limit,
        ).refused(events),
{
    lemma_attempts_are_admitted_or_refused(TrackerModel::initial(limit), events);
}

/// The identities handed out during a run are strictly increasing, so none
/// is handed out twice; each lies between the `next_id` before the run and
/// the `next_id` after it.
pub proof fn lemma_issued_ids_increase(state: TrackerModel, events: Seq<TrackerEvent>)
    requires
        state.wf(),
    ensures
        state.issued(events).len() == state.admitted(events),
        forall|i: int|
            0 <= i < state.issued(events).len() ==> state.next_id <= #[trigger] state.issued(
                events,
            )[i] < state.run(events).next_id,
        forall|i: int, j: int|
            0 <= i < j < state.issued(events).len() ==> #[trigger] state.issued(events)[i]
                < #[trigger] state.issued(events)[j],
    decreases events.len(),
{
    if events.len() > 0 {
        let earlier = events.drop_last();
        lemma_issued_ids_increase(state, earlier);
        lemma_run_keeps_invariant(state, earlier);
        lemma_step_keeps_invariant(state.run(earlier), events.last());
    }
}

/// An identity that is handed out is not the identity of any connection
/// that is open at that moment: identities are never reused.
pub proof fn lemma_next_id_is_fresh(state: TrackerModel)
    requires
        state.wf(),
    ensures
        !state.live.contains_key(state.next_id),
{
}

/// A burst of connection attempts with no release in between: as many are
/// admitted as there is room for, and the rest are refused.
pub proof fn lemma_burst_fills_to_limit(state: TrackerModel, events: Seq<TrackerEvent>)
    requires
        state.wf(),
        all_connects(events),
    ensures
        state.admitted(events) == spec_min(events.len() as int, state.limit - state.live.len()),
        state.refused(events) == spec_max(
            0,
            events.len() - (state.limit - state.live.len()),
        ),
        state.run(events).live.len() == state.live.len() + state.admitted(events),
        state.run(events).limit_hits == state.limit_hits + state.refused(events),
    decreases events.len(),
{
    lemma_attempts_are_admitted_or_refused(state, events);
    if events.len() > 0 {
        let earlier = events.drop_last();
        assert(all_connects(earlier));
        lemma_burst_fills_to_limit(state, earlier);
        lemma_run_keeps_invariant(state, earlier);
        let before = state.run(earlier);
        assert(events.last() is Connect);
        if !before.is_full() {
            assert(!before.live.contains_key(before.next_id));
        }
    }
}

/// A burst of `events.len()` attempts on a new tracker with limit `limit`:
/// exactly the smaller of the two numbers are admitted, and `limit_hits`
/// is the excess of attempts over the limit.
pub proof fn lemma_burst_on_new_tracker(limit: nat, events: Seq<TrackerEvent>)
    requires
        all_connects(events),
    ensures
        TrackerModel::initial(limit).admitted(events) == spec_min(
            events.len() as int,
            limit as int,
        ),
        TrackerModel::initial(limit).run(events).limit_hits == spec_max(0, events.len() - limit),
{
    assert(TrackerModel::initial(limit).wf());
    assert(TrackerModel::initial(limit).live.len() == 0);
    lemma_burst_fills_to_limit(TrackerModel::initial(limit), events);
}

/// Releasing a connection a second time changes nothing, whatever age and
/// request count the second release reports.
pub proof fn lemma_release_is_idempotent(
    state: TrackerModel,
    id: nat,
    age: nat,
    requests: nat,
    later_age: nat,
    later_requests: nat,
)
    ensures
        state.release(id, age, requests).release(id, later_age, later_requests) == state.release(
            id,
            age,
            requests,
        ),
{
}

/// The age and the request count of a connection that is released are
/// within the extrema from then on.
pub proof fn lemma_release_folds_extrema(state: TrackerModel, id: nat, age: nat, requests: nat)
    requires
        state.live.contains_key(id),
    ensures
        state.release(id, age, requests).past_max_age >= age,
        state.release(id, age, requests).past_max_requests >= requests,
        state.release(id, age, requests).past_min_age matches Some(shortest) && shortest <= age,
        !state.release(id, age, requests).live.contains_key(id),
{
}

/// No event lowers the peak, the count of refusals, the longest age or the
/// largest request count on record, and no event raises the shortest age on
/// record once there is one.
pub proof fn lemma_step_keeps_records(state: TrackerModel, event: TrackerEvent)
    ensures
        state.step(event).max_open >= state.max_open,
        state.step(event).limit_hits >= state.limit_hits,
        state.step(event).past_max_age >= state.past_max_age,
        state.step(event).past_max_requests >= state.past_max_requests,
        state.past_min_age matches Some(shortest) ==> (state.step(event).past_min_age matches Some(
            after,
        ) && after <= shortest),
{
}

/// Over a run, the peak, the count of refusals, the longest age and the
/// largest request count on record never fall.
pub proof fn lemma_run_keeps_records(state: TrackerModel, events: Seq<TrackerEvent>)
    ensures
        state.run(events).max_open >= state.max_open,
        state.run(events).limit_hits >= state.limit_hits,
        state.run(events).past_max_age >= state.past_max_age,
        state.run(events).past_max_requests >= state.past_max_requests,
    decreases events.len(),
{
    if events.len() > 0 {
        lemma_run_keeps_records(state, events.drop_last());
        lemma_step_keeps_records(state.run(events.drop_last()), events.last());
    }
}

/// The count of refusals rises by one with a connection attempt on a full
/// tracker and is changed by nothing else; the source of identities moves
/// on by one with an admission and is changed by nothing else.
pub proof fn lemma_step_counts(state: TrackerModel, event: TrackerEvent)
    ensures
        state.step(event).limit_hits == state.limit_hits + if event is Connect && state.is_full() {
            1int
        } else {
            0int
        },
        state.step(event).next_id == state.next_id + if event is Connect && !state.is_full() {
            1int
        } else {
            0int
        },
{
}

/// The shortest lifetime on record is at most the longest.
pub proof fn lemma_shortest_is_at_most_longest(state: TrackerModel, now: MonotonicTime)
    requires
        state.wf(),
    ensures
        forall|shortest: int, longest: int|
            #![trigger state.is_min_lifetime(now, shortest), state.is_max_lifetime(now, longest)]
            state.is_min_lifetime(now, shortest) && state.is_max_lifetime(now, longest)
                ==> shortest <= longest,
{
}

/// The shortest lifetime on record is never above the age of an open
/// connection, nor above the age at which a connection closed.
pub proof fn lemma_shortest_is_below_all(
    state: TrackerModel,
    now: MonotonicTime,
    shortest: int,
    id: nat,
)
    requires
        state.is_min_lifetime(now, shortest),
    ensures
        state.live.contains_key(id) ==> shortest <= state.live[id].spec_age(now),
        state.past_min_age matches Some(past) ==> shortest <= past,
{
}

} // verus!
