//! Admission control and metrics for open connections.
//!
//! The tracker keeps one entry per open connection, refuses a new connection
//! once the configured limit is reached, and folds the age and request count
//! of every connection that closes into running extrema. The clocks are read
//! by the caller; the tracker is handed the readings.

pub mod model;

use vstd::prelude::*;
use std::sync::Arc;
use ahash::AHashMap;
use crate::config::ServerSocketType;
use crate::counter::RequestCounter;
use crate::connection::model::{lemma_shortest_is_at_most_longest, TrackerModel};
use crate::time::{spec_max, MonotonicTime, TimeSpan, WallTime};

verus! {

/// `ahash::AHashMap`: the hash map that holds the open connections. Nothing
/// is known of what is inside one but through [`open_entries`].
#[verifier::external_type_specification]
#[verifier::external_body]
#[verifier::reject_recursive_types(K)]
#[verifier::reject_recursive_types(V)]
#[verifier::reject_recursive_types(S)]
pub struct ExAHashMap<K, V, S>(AHashMap<K, V, S>);

/// `ahash::RandomState`: the hasher of an `AHashMap`.
#[verifier::external_type_specification]
#[verifier::external_body]
pub struct ExRandomState(ahash::RandomState);

/// The identity of one admitted connection.
#[derive(Clone, Copy, Debug, PartialEq, Eq, Structural, Hash, PartialOrd, Ord)]
pub struct ConnectionID(usize);

impl View for ConnectionID {
    type V = usize;

    closed spec fn view(&self) -> usize {
        self.0
    }
}

impl ConnectionID {
    /// The identity as a number.
    pub fn as_usize(&self) -> (value: usize)
        ensures
            value == self@,
    {
        self.0
    }
}

/// What is recorded of a connection while it is open.
#[derive(Debug)]
pub struct ConnectionInfo {
    id: ConnectionID,
    creation_time: WallTime,
    creation_instant: MonotonicTime,
    server_socket_type: ServerSocketType,
    num_requests: RequestCounter,
}

impl ConnectionInfo {
    /// The connection's identity.
    pub closed spec fn spec_id(&self) -> ConnectionID {
        self.id
    }

    /// The wall-clock reading at admission.
    pub closed spec fn spec_creation_time(&self) -> WallTime {
        self.creation_time
    }

    /// The monotonic reading at admission.
    pub closed spec fn spec_creation_instant(&self) -> MonotonicTime {
        self.creation_instant
    }

    /// The kind of socket the connection came in on.
    pub closed spec fn spec_server_socket_type(&self) -> ServerSocketType {
        self.server_socket_type
    }

    /// The handle on the connection's request counter.
    pub closed spec fn counter(&self) -> RequestCounter {
        self.num_requests
    }

    /// The age of the connection at the monotonic reading `now`: the time
    /// since admission, zero where `now` is the earlier reading.
    pub open spec fn spec_age(&self, now: MonotonicTime) -> int {
        now.spec_since(self.spec_creation_instant())
    }

    fn new(
        id: ConnectionID,
        server_socket_type: ServerSocketType,
        now_wall: WallTime,
        now_monotonic: MonotonicTime,
    ) -> (info: Self)
        ensures
            info.spec_id() == id,
            info.spec_server_socket_type() == server_socket_type,
            info.spec_creation_time() == now_wall,
            info.spec_creation_instant() == now_monotonic,
    {
        Self {
            id,
            creation_time: now_wall,
            creation_instant: now_monotonic,
            server_socket_type,
            num_requests: RequestCounter::new(),
        }
    }

    #[verifier::when_used_as_spec(spec_id)]
    pub fn id(&self) -> (id: ConnectionID)
        ensures
            id == self.spec_id(),
    {
        self.id
    }

    #[verifier::when_used_as_spec(spec_creation_time)]
    pub fn creation_time(&self) -> (time: WallTime)
        ensures
            time == self.spec_creation_time(),
    {
        self.creation_time
    }

    #[verifier::when_used_as_spec(spec_creation_instant)]
    pub fn creation_instant(&self) -> (time: MonotonicTime)
        ensures
            time == self.spec_creation_instant(),
    {
        self.creation_instant
    }

    #[verifier::when_used_as_spec(spec_server_socket_type)]
    pub fn server_socket_type(&self) -> (kind: ServerSocketType)
        ensures
            kind == self.spec_server_socket_type(),
    {
        self.server_socket_type
    }

    /// The number of requests counted on the connection so far. The counter is
    /// shared with the connection's guard and read without synchronisation, so
    /// nothing is promised of the value.
    pub fn num_requests(&self) -> usize {
        self.num_requests.load()
    }

    /// The time from the connection's admission to `now`, zero where `now` is
    /// the earlier reading.
    pub fn age(&self, now: MonotonicTime) -> (age: TimeSpan)
        ensures
            age.nanos == self.spec_age(now),
    {
        now.saturating_since(self.creation_instant)
    }
}

/// The token of one admitted connection. It carries the connection's identity
/// and a handle on its request counter.
pub struct ConnectionGuard {
    id: ConnectionID,
    server_socket_type: ServerSocketType,
    num_requests: RequestCounter,
}

impl ConnectionGuard {
    /// The identity of the guarded connection.
    pub closed spec fn spec_id(&self) -> ConnectionID {
        self.id
    }

    /// The kind of socket the guarded connection came in on.
    pub closed spec fn spec_server_socket_type(&self) -> ServerSocketType {
        self.server_socket_type
    }

    /// The handle on the connection's request counter.
    pub closed spec fn counter(&self) -> RequestCounter {
        self.num_requests
    }

    fn new(
        id: ConnectionID,
        server_socket_type: ServerSocketType,
        num_requests: RequestCounter,
    ) -> (guard: Self)
        ensures
            guard.spec_id() == id,
            guard.spec_server_socket_type() == server_socket_type,
            guard.counter() == num_requests,
    {
        Self { id, server_socket_type, num_requests }
    }

    #[verifier::when_used_as_spec(spec_id)]
    pub fn id(&self) -> (id: ConnectionID)
        ensures
            id == self.spec_id(),
    {
        self.id
    }

    #[verifier::when_used_as_spec(spec_server_socket_type)]
    pub fn server_socket_type(&self) -> (kind: ServerSocketType)
        ensures
            kind == self.spec_server_socket_type(),
    {
        self.server_socket_type
    }

    /// Counts one more request on the connection.
    pub fn increment_num_requests(&self) {
        self.num_requests.increment();
    }

    /// The number of requests counted on the connection so far; see
    /// [`ConnectionInfo::num_requests`].
    pub fn num_requests(&self) -> usize {
        self.num_requests.load()
    }
}

/// The entries of an `AHashMap` of open connections: what the map holds, by
/// key.
pub uninterp spec fn open_entries(table: AHashMap<usize, Arc<ConnectionInfo>>) -> Map<
    nat,
    Arc<ConnectionInfo>,
>;

/// `AHashMap::new`: the table it makes holds nothing.
#[verifier::external_body]
fn table_new() -> (table: AHashMap<usize, Arc<ConnectionInfo>>)
    ensures
        open_entries(table) == (Map::<nat, Arc<ConnectionInfo>>::empty()),
{
    AHashMap::new()
}

/// `HashMap::len`, reached through `AHashMap`'s `Deref`: the number of entries.
#[verifier::external_body]
fn table_len(table: &AHashMap<usize, Arc<ConnectionInfo>>) -> (len: usize)
    ensures
        len == open_entries(*table).dom().len(),
{
    table.len()
}

/// `AHashMap::insert`: afterwards the table maps `id` to `info` and is
/// otherwise unchanged; the entry that `id` had before, if any, is returned.
#[verifier::external_body]
fn table_insert(
    table: &mut AHashMap<usize, Arc<ConnectionInfo>>,
    id: usize,
    info: Arc<ConnectionInfo>,
) -> (previous: Option<Arc<ConnectionInfo>>)
    ensures
        open_entries(*final(table)) == open_entries(*old(table)).insert(id as nat, info),
        previous == (if open_entries(*old(table)).contains_key(id as nat) {
            Some(open_entries(*old(table))[id as nat])
        } else {
            None
        }),
{
    table.insert(id, info)
}

/// `AHashMap::remove`: afterwards the table has no entry for `id` and is
/// otherwise unchanged; the entry that `id` had before, if any, is returned.
#[verifier::external_body]
fn table_remove(table: &mut AHashMap<usize, Arc<ConnectionInfo>>, id: usize) -> (removed: Option<
    Arc<ConnectionInfo>,
>)
    ensures
        open_entries(*final(table)) == open_entries(*old(table)).remove(id as nat),
        removed == (if open_entries(*old(table)).contains_key(id as nat) {
            Some(open_entries(*old(table))[id as nat])
        } else {
            None
        }),
{
    table.remove(&id)
}

/// `HashMap::iter`, reached through `AHashMap`'s `Deref`: every entry of the
/// table is handed out exactly once, in an order that is not fixed.
#[verifier::external_body]
fn table_entries(table: &AHashMap<usize, Arc<ConnectionInfo>>) -> (entries: Vec<
    (usize, Arc<ConnectionInfo>),
>)
    ensures
        forall|i: int|
            0 <= i < entries.len() ==> open_entries(*table).contains_key(
                (#[trigger] entries[i]).0 as nat,
            ) && open_entries(*table)[entries[i].0 as nat] == entries[i].1,
        forall|id: nat| #[trigger]
            open_entries(*table).contains_key(id) ==> exists|i: int|
                0 <= i < entries.len() && (#[trigger] entries[i]).0 == id,
        forall|i: int, j: int|
            0 <= i < j < entries.len() ==> (#[trigger] entries[i]).0 != (#[trigger] entries[j]).0,
{
    table.iter().map(|(id, info)| (*id, Arc::clone(info))).collect()
}

/// The running figures of a tracker.
#[derive(Clone, Copy, Debug)]
pub struct ConnectionTrackerMetrics {
    pub max_open_connections: usize,
    pub connection_limit_hits: usize,
    pub past_min_connection_age: Option<TimeSpan>,
    pub past_max_connection_age: TimeSpan,
    pub past_max_requests_per_connection: usize,
}

impl ConnectionTrackerMetrics {
    /// The figures of a tracker that has seen no connection yet.
    pub fn new() -> (metrics: Self)
        ensures
            metrics.max_open_connections == 0,
            metrics.connection_limit_hits == 0,
            metrics.past_min_connection_age.is_none(),
            metrics.past_max_connection_age.nanos == 0,
            metrics.past_max_requests_per_connection == 0,
    {
        Self {
            max_open_connections: 0,
            connection_limit_hits: 0,
            past_min_connection_age: None,
            past_max_connection_age: TimeSpan::zero(),
            past_max_requests_per_connection: 0,
        }
    }

    /// The shortest age at which a connection closed, as a number.
    pub open spec fn spec_past_min_age(self) -> Option<nat> {
        match self.past_min_connection_age {
            Some(span) => Some(span.nanos as nat),
            None => None,
        }
    }

    /// Raises the peak to `new_num_connections` where that is more.
    pub fn update_for_new_connection(&mut self, new_num_connections: usize)
        ensures
            final(self).max_open_connections == spec_max(
                old(self).max_open_connections as int,
                new_num_connections as int,
            ),
            final(self).connection_limit_hits == old(self).connection_limit_hits,
            final(self).past_min_connection_age == old(self).past_min_connection_age,
            final(self).past_max_connection_age == old(self).past_max_connection_age,
            final(self).past_max_requests_per_connection == old(
                self,
            ).past_max_requests_per_connection,
    {
        if new_num_connections > self.max_open_connections {
            self.max_open_connections = new_num_connections;
        }
    }

    /// Folds the age and the request count of a connection that closed into
    /// the extrema.
    pub fn update_for_removed_connection(&mut self, age: TimeSpan, num_requests: usize)
        ensures
            final(self).max_open_connections == old(self).max_open_connections,
            final(self).connection_limit_hits == old(self).connection_limit_hits,
            final(self).past_min_connection_age == Some(
                match old(self).past_min_connection_age {
                    Some(shortest) => if shortest.nanos <= age.nanos {
                        shortest
                    } else {
                        age
                    },
                    None => age,
                },
            ),
            final(self).past_max_connection_age.nanos == spec_max(
                old(self).past_max_connection_age.nanos as int,
                age.nanos as int,
            ),
            final(self).past_max_requests_per_connection == spec_max(
                old(self).past_max_requests_per_connection as int,
                num_requests as int,
            ),
    {
        let shortest = match self.past_min_connection_age {
            Some(shortest) => shortest.min(age),
            None => age,
        };
        self.past_min_connection_age = Some(shortest);
        self.past_max_connection_age = self.past_max_connection_age.max(age);
        if num_requests > self.past_max_requests_per_connection {
            self.past_max_requests_per_connection = num_requests;
        }
    }

    /// Counts one more refused connection.
    pub fn increment_connection_limit_hits(&mut self)
        requires
            old(self).connection_limit_hits < usize::MAX,
        ensures
            final(self).connection_limit_hits == old(self).connection_limit_hits + 1,
            final(self).max_open_connections == old(self).max_open_connections,
            final(self).past_min_connection_age == old(self).past_min_connection_age,
            final(self).past_max_connection_age == old(self).past_max_connection_age,
            final(self).past_max_requests_per_connection == old(
                self,
            ).past_max_requests_per_connection,
    {
        self.connection_limit_hits = self.connection_limit_hits + 1;
    }
}

/// The largest of `past` and the `observed` counts.
pub open spec fn spec_max_requests(past: int, observed: Seq<usize>) -> int
    decreases observed.len(),
{
    if observed.len() == 0 {
        past
    } else {
        spec_max(spec_max_requests(past, observed.drop_last()), observed.last() as int)
    }
}

/// The largest of `past` and the `observed` request counts.
pub fn max_requests_over(past: usize, observed: &Vec<usize>) -> (most: usize)
    ensures
        most == spec_max_requests(past as int, observed@),
        most >= past,
        forall|i: int| 0 <= i < observed.len() ==> most >= #[trigger] observed[i],
        most == past || exists|i: int| 0 <= i < observed.len() && most == #[trigger] observed[i],
{
    let mut most: usize = past;
    let mut index: usize = 0;
    while index < observed.len()
        invariant
            index <= observed.len(),
            most == spec_max_requests(past as int, observed@.take(index as int)),
            most >= past,
            forall|i: int| 0 <= i < index ==> most >= #[trigger] observed[i],
            most == past || exists|i: int| 0 <= i < index && most == #[trigger] observed[i],
        decreases observed.len() - index,
    {
        assert(observed@.take(index + 1).drop_last() =~= observed@.take(index as int));
        if observed[index] > most {
            most = observed[index];
        }
        index = index + 1;
    }
    assert(observed@.take(index as int) =~= observed@);
    most
}

/// The figures and the open connections of a tracker at one moment.
pub struct ConnectionTrackerStateSnapshot {
    pub max_open_connections: usize,
    pub connection_limit_hits: usize,
    pub min_connection_lifetime: TimeSpan,
    pub max_connection_lifetime: TimeSpan,
    pub max_requests_per_connection: usize,
    pub open_connections: Vec<Arc<ConnectionInfo>>,
}

/// The tracker: the open connections, the limit on their number, and the
/// running figures.
pub struct ConnectionTrackerState {
    next_connection_id: usize,
    connection_limit: usize,
    id_to_connection_info: AHashMap<usize, Arc<ConnectionInfo>>,
    metrics: ConnectionTrackerMetrics,
}

impl View for ConnectionTrackerState {
    type V = TrackerModel;

    closed spec fn view(&self) -> TrackerModel {
        TrackerModel {
            next_id: self.next_connection_id as nat,
            limit: self.connection_limit as nat,
            live: open_entries(self.id_to_connection_info),
            max_open: self.metrics.max_open_connections as nat,
            limit_hits: self.metrics.connection_limit_hits as nat,
            past_min_age: self.metrics.spec_past_min_age(),
            past_max_age: self.metrics.past_max_connection_age.nanos as nat,
            past_max_requests: self.metrics.past_max_requests_per_connection as nat,
        }
    }
}

impl ConnectionTrackerState {
    /// The invariant of the tracker.
    pub open spec fn wf(&self) -> bool {
        self@.wf() && self@.labelled()
    }

    /// A tracker that admits at most `connection_limit` connections at once.
    pub fn new(connection_limit: usize) -> (state: Self)
        ensures
            state@ == TrackerModel::initial(connection_limit as nat),
            state.wf(),
    {
        let state = Self {
            next_connection_id: 1,
            connection_limit,
            id_to_connection_info: table_new(),
            metrics: ConnectionTrackerMetrics::new(),
        };
        assert(state@.live =~= Map::empty());
        state
    }

    fn next_connection_id(&mut self) -> (id: ConnectionID)
        requires
            old(self).next_connection_id < usize::MAX,
        ensures
            id@ == old(self).next_connection_id,
            final(self).next_connection_id == old(self).next_connection_id + 1,
            final(self).connection_limit == old(self).connection_limit,
            final(self).id_to_connection_info == old(self).id_to_connection_info,
            final(self).metrics == old(self).metrics,
    {
        let connection_id = self.next_connection_id;
        self.next_connection_id = self.next_connection_id + 1;
        ConnectionID(connection_id)
    }

    fn new_connection_exceeds_connection_limit(&self) -> (exceeds: bool)
        requires
            self.wf(),
        ensures
            exceeds == self@.is_full(),
    {
        table_len(&self.id_to_connection_info) >= self.connection_limit
    }

    /// Whether the counter that the next call of
    /// [`ConnectionTrackerState::add_connection`] advances has room: the count
    /// of refusals where the tracker is full, and else the source of
    /// identities.
    pub fn can_add_connection(&self) -> (room: bool)
        requires
            self.wf(),
        ensures
            room == if self@.is_full() {
                self@.limit_hits < usize::MAX
            } else {
                self@.next_id < usize::MAX
            },
    {
        if self.new_connection_exceeds_connection_limit() {
            self.metrics.connection_limit_hits < usize::MAX
        } else {
            self.next_connection_id < usize::MAX
        }
    }

    /// Admits a connection if the limit allows one more, and refuses it
    /// otherwise. An admitted connection gets the next identity, is recorded
    /// with the two clock readings, and its guard shares its request counter.
    /// A refusal is counted in `limit_hits` and changes nothing else.
    pub fn add_connection(
        &mut self,
        server_socket_type: ServerSocketType,
        now_wall: WallTime,
        now_monotonic: MonotonicTime,
    ) -> (admitted: Option<ConnectionGuard>)
        requires
            old(self).wf(),
            old(self)@.is_full() ==> old(self)@.limit_hits < usize::MAX,
            !old(self)@.is_full() ==> old(self)@.next_id < usize::MAX,
        ensures
            final(self).wf(),
            final(self)@.limit == old(self)@.limit,
            final(self)@.live.len() <= final(self)@.limit,
            admitted.is_none() <==> old(self)@.is_full(),
            admitted.is_none() ==> final(self)@ == old(self)@.refuse(),
            admitted.is_none() ==> {
                &&& final(self)@.live == old(self)@.live
                &&& final(self)@.limit_hits == old(self)@.limit_hits + 1
                &&& final(self)@.next_id == old(self)@.next_id
            },
            admitted matches Some(guard) ==> {
                &&& final(self)@.live.len() == old(self)@.live.len() + 1
                &&& final(self)@.limit_hits == old(self)@.limit_hits
                &&& final(self)@.next_id == old(self)@.next_id + 1
                &&& !old(self)@.live.contains_key(guard.spec_id()@ as nat)
                &&& forall|id: nat| #[trigger]
                    old(self)@.live.contains_key(id) ==> id < guard.spec_id()@
            },
            admitted matches Some(guard) ==> {
                &&& guard.spec_id()@ == old(self)@.next_id
                &&& guard.spec_server_socket_type() == server_socket_type
                &&& final(self)@.live.contains_key(old(self)@.next_id)
                &&& final(self)@ == old(self)@.accept(final(self)@.live[old(self)@.next_id])
                &&& final(self)@.live[old(self)@.next_id].spec_id() == guard.spec_id()
                &&& final(self)@.live[old(self)@.next_id].spec_server_socket_type()
                    == server_socket_type
                &&& final(self)@.live[old(self)@.next_id].spec_creation_time() == now_wall
                &&& final(self)@.live[old(self)@.next_id].spec_creation_instant()
                    == now_monotonic
                &&& final(self)@.live[old(self)@.next_id].counter() == guard.counter()
            },
    {
        if self.new_connection_exceeds_connection_limit() {
            self.metrics.increment_connection_limit_hits();
            return None;
        }
        let connection_id = self.next_connection_id();
        let connection_info = Arc::new(
            ConnectionInfo::new(connection_id, server_socket_type, now_wall, now_monotonic),
        );
        let num_requests = connection_info.num_requests.share();
        let ghost recorded = connection_info;
        table_insert(&mut self.id_to_connection_info, connection_id.as_usize(), connection_info);
        let new_num_connections = table_len(&self.id_to_connection_info);
        self.metrics.update_for_new_connection(new_num_connections);
        proof {
            let before = old(self)@;
            assert(!before.live.contains_key(before.next_id));
            assert(self@.live =~= before.live.insert(before.next_id, recorded));
            assert(self@.live.len() == before.live.len() + 1);
            assert(self@ == before.accept(recorded));
            assert forall|id: nat| self@.live.contains_key(id) implies 1 <= id
                < self@.next_id by {
                if id != before.next_id {
                    assert(before.live.contains_key(id));
                }
            }
            assert forall|id: nat| #[trigger] self@.live.contains_key(id) implies self@.live[id].spec_id()@
                == id by {
                if id != before.next_id {
                    assert(before.live.contains_key(id));
                }
            }
        }
        Some(ConnectionGuard::new(connection_id, server_socket_type, num_requests))
    }

    /// Releases the connection `connection_id`: it is no longer open, and its
    /// age at `now` and the request count read from its counter are folded
    /// into the extrema. Releasing a connection that is not open changes
    /// nothing, so releasing twice is the same as releasing once.
    pub fn remove_connection(&mut self, connection_id: ConnectionID, now: MonotonicTime)
        requires
            old(self).wf(),
        ensures
            final(self).wf(),
            final(self)@.limit == old(self)@.limit,
            final(self)@.limit_hits == old(self)@.limit_hits,
            final(self)@.next_id == old(self)@.next_id,
            final(self)@.max_open == old(self)@.max_open,
            final(self)@.live.len() <= final(self)@.limit,
            !old(self)@.live.contains_key(connection_id@ as nat) ==> final(self)@ == old(self)@,
            old(self)@.live.contains_key(connection_id@ as nat) ==> exists|requests: nat|
                final(self)@ == #[trigger] old(self)@.release(
                    connection_id@ as nat,
                    old(self)@.live[connection_id@ as nat].spec_age(now) as nat,
                    requests,
                ),
            !final(self)@.live.contains_key(connection_id@ as nat),
    {
        let removed = table_remove(&mut self.id_to_connection_info, connection_id.as_usize());
        match removed {
            Some(connection_info) => {
                let age = connection_info.age(now);
                let num_requests = connection_info.num_requests();
                self.metrics.update_for_removed_connection(age, num_requests);
                proof {
                    let before = old(self)@;
                    let id = connection_id@ as nat;
                    let after = before.release(id, age.nanos as nat, num_requests as nat);
                    assert(self@.live =~= after.live);
                    assert(self@.past_min_age == after.past_min_age);
                    assert(self@ == after);
                    assert(connection_info == before.live[id]);
                    assert(age.nanos as nat == before.live[id].spec_age(now) as nat);
                    assert(self@ == before.release(
                        id,
                        before.live[id].spec_age(now) as nat,
                        num_requests as nat,
                    ));
                    assert(self@.live.len() == before.live.len() - 1);
                    assert forall|other: nat| self@.live.contains_key(other) implies 1 <= other
                        < self@.next_id by {
                        assert(before.live.contains_key(other));
                    }
                    assert forall|other: nat| #[trigger]
                        self@.live.contains_key(other) implies self@.live[other].spec_id()@
                        == other by {
                        assert(before.live.contains_key(other));
                    }
                }
            },
            None => {
                assert(self@.live =~= old(self)@.live);
            },
        }
    }

    /// The most connections that were ever open at once.
    pub fn max_open_connections(&self) -> (peak: usize)
        ensures
            peak == self@.max_open,
    {
        self.metrics.max_open_connections
    }

    /// How many connections were refused.
    pub fn connection_limit_hits(&self) -> (hits: usize)
        ensures
            hits == self@.limit_hits,
    {
        self.metrics.connection_limit_hits
    }

    /// The limit on the number of open connections.
    pub fn connection_limit(&self) -> (limit: usize)
        ensures
            limit == self@.limit,
    {
        self.connection_limit
    }

    /// The number of open connections.
    pub fn num_open_connections(&self) -> (count: usize)
        ensures
            count == self@.live.len(),
    {
        table_len(&self.id_to_connection_info)
    }

    /// The shortest lifetime on record at `now`: the smallest among the
    /// shortest age at which a connection closed, if any has closed, and the
    /// ages of the open connections; zero if there never was a connection.
    pub fn min_connection_lifetime(&self, now: MonotonicTime) -> (shortest: TimeSpan)
        ensures
            self@.is_min_lifetime(now, shortest.nanos as int),
    {
        let entries = table_entries(&self.id_to_connection_info);
        let ghost live = self@.live;
        let ghost past = self.metrics.past_min_connection_age;
        let mut shortest: Option<TimeSpan> = self.metrics.past_min_connection_age;
        let mut index: usize = 0;
        while index < entries.len()
            invariant
                index <= entries.len(),
                past.is_some() ==> shortest.is_some() && shortest.unwrap().nanos
                    <= past.unwrap().nanos,
                shortest.is_none() ==> index == 0 && past.is_none(),
                forall|i: int|
                    0 <= i < index ==> shortest.is_some() && shortest.unwrap().nanos <= (
                    #[trigger] entries[i]).1.spec_age(now),
                shortest.is_some() ==> past == shortest || exists|i: int|
                    0 <= i < index && shortest.unwrap().nanos == (
                    #[trigger] entries[i]).1.spec_age(now),
            decreases entries.len() - index,
        {
            let age = entries[index].1.age(now);
            shortest = match shortest {
                Some(least) => Some(least.min(age)),
                None => Some(age),
            };
            index = index + 1;
        }
        match shortest {
            Some(least) => {
                proof {
                    assert forall|id: nat| #[trigger] live.contains_key(id) implies least.nanos
                        <= live[id].spec_age(now) by {
                        let i = choose|i: int|
                            0 <= i < entries.len() && (#[trigger] entries[i]).0 == id;
                        assert(live[entries[i].0 as nat] == entries[i].1);
                    }
                    if past != Some(least) {
                        let at = choose|i: int|
                            0 <= i < entries.len() && least.nanos == (
                            #[trigger] entries[i]).1.spec_age(now);
                        assert(live.contains_key(entries[at].0 as nat) && live[entries[at].0 as nat]
                            == entries[at].1);
                    }
                }
                least
            },
            None => {
                proof {
                    assert forall|id: nat| !live.contains_key(id) by {
                        if live.contains_key(id) {
                            let i = choose|i: int|
                                0 <= i < entries.len() && (#[trigger] entries[i]).0 == id;
                        }
                    }
                    assert(live.dom() =~= Set::empty());
                }
                TimeSpan::zero()
            },
        }
    }

    /// The longest lifetime on record at `now`: the largest among the ages at
    /// which connections closed and the ages of the open connections.
    pub fn max_connection_lifetime(&self, now: MonotonicTime) -> (longest: TimeSpan)
        ensures
            self@.is_max_lifetime(now, longest.nanos as int),
    {
        let entries = table_entries(&self.id_to_connection_info);
        let ghost live = self@.live;
        let ghost past = self.metrics.past_max_connection_age.nanos;
        let mut longest = self.metrics.past_max_connection_age;
        let mut index: usize = 0;
        while index < entries.len()
            invariant
                index <= entries.len(),
                longest.nanos >= past,
                forall|i: int|
                    0 <= i < index ==> longest.nanos >= (#[trigger] entries[i]).1.spec_age(now),
                longest.nanos == past || exists|i: int|
                    0 <= i < index && longest.nanos == (#[trigger] entries[i]).1.spec_age(now),
            decreases entries.len() - index,
        {
            let age = entries[index].1.age(now);
            if age.nanos > longest.nanos {
                longest = age;
            }
            index = index + 1;
        }
        proof {
            assert forall|id: nat| #[trigger] live.contains_key(id) implies longest.nanos
                >= live[id].spec_age(now) by {
                let i = choose|i: int| 0 <= i < entries.len() && (#[trigger] entries[i]).0 == id;
                assert(live[entries[i].0 as nat] == entries[i].1);
            }
            if longest.nanos != past {
                let at = choose|i: int|
                    0 <= i < entries.len() && longest.nanos == (#[trigger] entries[i]).1.spec_age(
                        now,
                    );
                assert(live.contains_key(entries[at].0 as nat) && live[entries[at].0 as nat]
                    == entries[at].1);
            }
        }
        longest
    }

    /// The most requests counted on one connection: the largest among the
    /// counts of the connections that closed and the counts read now from the
    /// counters of the open connections. Those readings are not synchronised
    /// with the connections, so only the bound from the closed ones is
    /// promised; [`max_requests_over`] states what is done with the readings.
    pub fn max_requests_per_connection(&self) -> (most: usize)
        ensures
            most >= self@.past_max_requests,
            self@.live.dom() =~= Set::empty() ==> most == self@.past_max_requests,
    {
        let entries = table_entries(&self.id_to_connection_info);
        let mut observed: Vec<usize> = Vec::new();
        let mut index: usize = 0;
        while index < entries.len()
            invariant
                index <= entries.len(),
                observed.len() == index,
            decreases entries.len() - index,
        {
            observed.push(entries[index].1.num_requests());
            index = index + 1;
        }
        proof {
            if entries.len() > 0 {
                assert(self@.live.contains_key(entries[0].0 as nat));
            }
        }
        max_requests_over(self.metrics.past_max_requests_per_connection, &observed)
    }

    /// Every open connection, each exactly once, in no particular order.
    pub fn open_connections(&self) -> (listing: Vec<Arc<ConnectionInfo>>)
        requires
            self.wf(),
        ensures
            self@.is_listing(listing@),
            listing.len() == self@.live.len(),
    {
        let mut entries = table_entries(&self.id_to_connection_info);
        let ghost live = self@.live;
        let ghost all = entries@;
        let mut listing: Vec<Arc<ConnectionInfo>> = Vec::new();
        proof {
            lemma_entries_count(live, all);
        }
        while entries.len() > 0
            invariant
                entries.len() <= all.len(),
                entries@ =~= all.take(entries.len() as int),
                listing.len() == all.len() - entries.len(),
                forall|i: int|
                    0 <= i < listing.len() ==> #[trigger] listing[i] == all[all.len() - 1 - i].1,
            decreases entries.len(),
        {
            let ghost at = entries.len() - 1;
            let entry = entries.pop();
            match entry {
                Some(pair) => {
                    assert(pair == all[at]);
                    listing.push(pair.1);
                },
                None => {},
            }
        }
        proof {
            let n = all.len() as int;
            assert forall|i: int| 0 <= i < listing.len() implies live.contains_key(
                (#[trigger] listing[i]).spec_id()@ as nat,
            ) && live[listing[i].spec_id()@ as nat] == listing[i] by {
                let pair = all[n - 1 - i];
                assert(live.contains_key(pair.0 as nat) && live[pair.0 as nat] == pair.1);
            }
            assert forall|id: nat| #[trigger] live.contains_key(id) implies exists|i: int|
                0 <= i < listing.len() && #[trigger] listing[i] == live[id] by {
                let k = choose|k: int| 0 <= k < all.len() && (#[trigger] all[k]).0 == id;
                assert(live[all[k].0 as nat] == all[k].1);
                assert(listing[n - 1 - k] == all[k].1);
            }
            assert forall|i: int, j: int| 0 <= i < j < listing.len() implies (
            #[trigger] listing[i]).spec_id() != (#[trigger] listing[j]).spec_id() by {
                let a = all[n - 1 - i];
                let b = all[n - 1 - j];
                assert(live.contains_key(a.0 as nat) && live[a.0 as nat] == a.1);
                assert(live.contains_key(b.0 as nat) && live[b.0 as nat] == b.1);
                assert(a.0 != b.0);
            }
        }
        listing
    }

    /// The figures and the open connections at the monotonic reading `now`.
    pub fn snapshot(&self, now: MonotonicTime) -> (snapshot: ConnectionTrackerStateSnapshot)
        requires
            self.wf(),
        ensures
            snapshot.max_open_connections == self@.max_open,
            snapshot.connection_limit_hits == self@.limit_hits,
            self@.is_min_lifetime(now, snapshot.min_connection_lifetime.nanos as int),
            self@.is_max_lifetime(now, snapshot.max_connection_lifetime.nanos as int),
            snapshot.min_connection_lifetime.nanos <= snapshot.max_connection_lifetime.nanos,
            snapshot.max_requests_per_connection >= self@.past_max_requests,
            self@.live.dom() =~= Set::empty() ==> snapshot.max_requests_per_connection
                == self@.past_max_requests,
            self@.is_listing(snapshot.open_connections@),
            snapshot.open_connections.len() == self@.live.len(),
            snapshot.open_connections.len() <= snapshot.max_open_connections,
            snapshot.max_open_connections <= self@.limit,
    {
        proof {
            lemma_shortest_is_at_most_longest(self@, now);
        }
        ConnectionTrackerStateSnapshot {
            max_open_connections: self.max_open_connections(),
            connection_limit_hits: self.connection_limit_hits(),
            min_connection_lifetime: self.min_connection_lifetime(now),
            max_connection_lifetime: self.max_connection_lifetime(now),
            max_requests_per_connection: self.max_requests_per_connection(),
            open_connections: self.open_connections(),
        }
    }
}

/// A listing that holds every key of a finite map exactly once is as long as
/// the map is large.
proof fn lemma_entries_count(
    live: Map<nat, Arc<ConnectionInfo>>,
    entries: Seq<(usize, Arc<ConnectionInfo>)>,
)
    requires
        live.dom().finite(),
        forall|i: int|
            0 <= i < entries.len() ==> live.contains_key((#[trigger] entries[i]).0 as nat),
        forall|id: nat| #[trigger]
            live.contains_key(id) ==> exists|i: int|
                0 <= i < entries.len() && (#[trigger] entries[i]).0 == id,
        forall|i: int, j: int|
            0 <= i < j < entries.len() ==> (#[trigger] entries[i]).0 != (#[trigger] entries[j]).0,
    ensures
        entries.len() == live.dom().len(),
    decreases entries.len(),
{
    if entries.len() == 0 {
        assert(live.dom() =~= Set::empty());
    } else {
        let last = entries.last();
        let rest = entries.drop_last();
        let fewer = live.remove(last.0 as nat);
        assert forall|id: nat| #[trigger] fewer.contains_key(id) implies exists|i: int|
            0 <= i < rest.len() && (#[trigger] rest[i]).0 == id by {
            let i = choose|i: int| 0 <= i < entries.len() && (#[trigger] entries[i]).0 == id;
            assert(i < rest.len());
            assert(rest[i] == entries[i]);
        }
        assert forall|i: int| 0 <= i < rest.len() implies fewer.contains_key(
            (#[trigger] rest[i]).0 as nat,
        ) by {
            assert(rest[i] == entries[i]);
            assert(entries[i].0 != entries[entries.len() - 1].0);
        }
        lemma_entries_count(fewer, rest);
        assert(live.contains_key(last.0 as nat));
    }
}

/// Two identities are the same exactly if they are the same number.
pub proof fn lemma_same_number_same_id(first: ConnectionID, second: ConnectionID)
    ensures
        first@ == second@ <==> first == second,
{
}

} // verus!
