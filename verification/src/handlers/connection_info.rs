//! The report on the connection tracker: its figures, and the newest of the
//! open connections, newest first.

use vstd::prelude::*;
use std::sync::Arc;
use crate::config::ServerSocketType;
use crate::connection::{ConnectionInfo, ConnectionTrackerStateSnapshot};
use crate::time::{MonotonicTime, TimeSpan, WallTime, NANOS_PER_SEC};

verus! {

/// The most open connections that a report lists.
pub const MAX_REPORTED_CONNECTIONS: usize = 20;

/// One open connection in a report.
#[derive(Clone, Copy, Debug)]
pub struct ConnectionInfoDTO {
    pub id: usize,
    pub server_socket_type: ServerSocketType,
    pub creation_time: WallTime,
    /// The age of the connection, in whole seconds.
    pub age: TimeSpan,
    pub num_requests: usize,
}

/// The report on the tracker.
#[derive(Clone, Debug)]
pub struct ConnectionTrackerStateDTO {
    pub max_open_connections: usize,
    pub connection_limit_hits: usize,
    /// The shortest lifetime on record, in whole seconds.
    pub min_connection_lifetime: TimeSpan,
    /// The longest lifetime on record, in whole seconds.
    pub max_connection_lifetime: TimeSpan,
    pub max_requests_per_connection: usize,
    pub num_open_connections: usize,
    /// The newest open connections, newest first.
    pub open_connections: Vec<ConnectionInfoDTO>,
}

/// No two of `ids` are the same.
pub open spec fn ids_distinct(ids: Seq<usize>) -> bool {
    forall|i: int, j: int| 0 <= i < j < ids.len() ==> ids[i] != ids[j]
}

/// Position `m` is one of `top`.
pub open spec fn is_listed(top: Seq<usize>, m: int) -> bool {
    exists|j: int| 0 <= j < top.len() && #[trigger] top[j] == m
}

/// Every identity at a position of `top` is larger than the one at position
/// `m`.
pub open spec fn outranked(ids: Seq<usize>, top: Seq<usize>, m: int) -> bool {
    forall|j: int| 0 <= j < top.len() ==> ids[#[trigger] top[j] as int] > ids[m]
}

/// The identities at the positions of `top` are in falling order.
pub open spec fn is_falling(ids: Seq<usize>, top: Seq<usize>) -> bool {
    forall|a: int, b: int|
        0 <= a < b < top.len() ==> ids[#[trigger] top[a] as int] > ids[#[trigger] top[b] as int]
}

/// Every position below `upto` is one of `top`, or, if `full`, holds an
/// identity smaller than all those at the positions of `top`.
pub open spec fn covers(ids: Seq<usize>, upto: int, top: Seq<usize>, full: bool) -> bool {
    forall|m: int| 0 <= m < upto ==> #[trigger] is_listed(top, m) || (full && outranked(ids, top, m))
}

/// Every one of `top` is a position below `upto`.
pub open spec fn within(top: Seq<usize>, upto: int) -> bool {
    forall|j: int| 0 <= j < top.len() ==> #[trigger] top[j] < upto
}

/// `top` holds the positions of the largest among the first `upto` of
/// `ids`, at most `limit` of them, the largest first: as many as there are,
/// up to `limit`; each larger than the next; and every one that is left out
/// is smaller than all that are in.
pub open spec fn is_newest_upto(ids: Seq<usize>, upto: int, limit: int, top: Seq<usize>) -> bool {
    &&& 0 <= upto <= ids.len()
    &&& top.len() == if upto <= limit {
        upto
    } else {
        limit
    }
    &&& within(top, upto)
    &&& is_falling(ids, top)
    &&& covers(ids, upto, top, top.len() == limit)
}

/// `top` holds the positions of the largest of `ids`, at most `limit` of
/// them, the largest first.
pub open spec fn is_newest(ids: Seq<usize>, limit: int, top: Seq<usize>) -> bool {
    is_newest_upto(ids, ids.len() as int, limit, top)
}

/// Putting position `next` into `before` at `position`, where all before
/// it hold larger identities and all from it on hold smaller ones, keeps
/// the order and the cover.
proof fn lemma_insert_keeps_rank(
    ids: Seq<usize>,
    next: usize,
    before: Seq<usize>,
    position: int,
    full: bool,
)
    requires
        next < ids.len(),
        0 <= position <= before.len(),
        within(before, next as int),
        is_falling(ids, before),
        covers(ids, next as int, before, full),
        forall|j: int| 0 <= j < position ==> ids[#[trigger] before[j] as int] > ids[next as int],
        forall|j: int|
            position <= j < before.len() ==> ids[#[trigger] before[j] as int] < ids[next as int],
        full ==> position < before.len(),
    ensures
        within(before.insert(position, next), next + 1),
        is_falling(ids, before.insert(position, next)),
        covers(ids, next + 1, before.insert(position, next), full),
{
    let inserted = before.insert(position, next);
    assert forall|j: int| 0 <= j < inserted.len() implies #[trigger] inserted[j] < next + 1 by {
        if j < position {
            assert(inserted[j] == before[j]);
        } else if j > position {
            assert(inserted[j] == before[j - 1]);
        }
    }
    assert forall|a: int, b: int| 0 <= a < b < inserted.len() implies ids[#[trigger] inserted[a] as int]
        > ids[#[trigger] inserted[b] as int] by {
        if b < position {
            assert(inserted[a] == before[a] && inserted[b] == before[b]);
        } else if b == position {
            assert(inserted[a] == before[a]);
        } else if a == position {
            assert(inserted[b] == before[b - 1]);
        } else if a < position {
            assert(inserted[a] == before[a] && inserted[b] == before[b - 1]);
        } else {
            assert(inserted[a] == before[a - 1] && inserted[b] == before[b - 1]);
        }
    }
    assert forall|m: int| 0 <= m < next + 1 implies #[trigger] is_listed(inserted, m) || (full
        && outranked(ids, inserted, m)) by {
        if m == next {
            assert(inserted[position] == m);
        } else if is_listed(before, m) {
            let j = choose|j: int| 0 <= j < before.len() && #[trigger] before[j] == m;
            if j < position {
                assert(inserted[j] == m);
            } else {
                assert(inserted[j + 1] == m);
            }
        } else {
            assert(full && outranked(ids, before, m));
            assert forall|j: int| 0 <= j < inserted.len() implies ids[#[trigger] inserted[j] as int]
                > ids[m] by {
                if j < position {
                    assert(inserted[j] == before[j]);
                } else if j > position {
                    assert(inserted[j] == before[j - 1]);
                } else {
                    assert(ids[before[position] as int] > ids[m]);
                }
            }
        }
    }
}

/// Leaving out the last of `longer`, the smallest, keeps the order and the
/// cover, now of a full list.
proof fn lemma_drop_last_keeps_rank(ids: Seq<usize>, upto: int, longer: Seq<usize>, full: bool)
    requires
        longer.len() > 0,
        within(longer, upto),
        upto <= ids.len(),
        is_falling(ids, longer),
        covers(ids, upto, longer, full),
    ensures
        within(longer.drop_last(), upto),
        is_falling(ids, longer.drop_last()),
        covers(ids, upto, longer.drop_last(), true),
{
    let kept = longer.drop_last();
    assert forall|j: int| 0 <= j < kept.len() implies #[trigger] kept[j] < upto by {
        assert(kept[j] == longer[j]);
    }
    assert forall|a: int, b: int| 0 <= a < b < kept.len() implies ids[#[trigger] kept[a] as int]
        > ids[#[trigger] kept[b] as int] by {
        assert(kept[a] == longer[a] && kept[b] == longer[b]);
    }
    assert forall|m: int| 0 <= m < upto implies #[trigger] is_listed(kept, m) || outranked(
        ids,
        kept,
        m,
    ) by {
        if is_listed(longer, m) {
            let j = choose|j: int| 0 <= j < longer.len() && #[trigger] longer[j] == m;
            if j < kept.len() {
                assert(kept[j] == m);
            } else {
                assert forall|i: int| 0 <= i < kept.len() implies ids[#[trigger] kept[i] as int]
                    > ids[m] by {
                    assert(kept[i] == longer[i]);
                    assert(ids[longer[i] as int] > ids[longer[j] as int]);
                }
            }
        } else {
            assert(outranked(ids, longer, m));
            assert forall|i: int| 0 <= i < kept.len() implies ids[#[trigger] kept[i] as int]
                > ids[m] by {
                assert(kept[i] == longer[i]);
            }
        }
    }
}

/// Where position `next` holds an identity smaller than all of a full
/// list, the list covers it as it is.
proof fn lemma_skip_keeps_rank(ids: Seq<usize>, next: int, top: Seq<usize>)
    requires
        0 <= next < ids.len(),
        covers(ids, next, top, true),
        forall|j: int| 0 <= j < top.len() ==> ids[#[trigger] top[j] as int] > ids[next],
    ensures
        covers(ids, next + 1, top, true),
{
    assert forall|m: int| 0 <= m < next + 1 implies #[trigger] is_listed(top, m) || outranked(
        ids,
        top,
        m,
    ) by {
        if m == next {
            assert(outranked(ids, top, m));
        }
    }
}

/// The positions of the largest of `ids`, at most `limit` of them, the
/// largest first.
pub fn newest_indices(ids: &Vec<usize>, limit: usize) -> (top: Vec<usize>)
    requires
        ids_distinct(ids@),
    ensures
        is_newest(ids@, limit as int, top@),
{
    let mut top: Vec<usize> = Vec::new();
    let mut next: usize = 0;
    while next < ids.len()
        invariant
            next <= ids.len(),
            ids_distinct(ids@),
            is_newest_upto(ids@, next as int, limit as int, top@),
        decreases ids.len() - next,
    {
        let ghost before = top@;
        let id = ids[next];
        let mut position: usize = 0;
        while position < top.len() && ids[top[position]] > id
            invariant
                position <= top.len(),
                next < ids.len(),
                id == ids[next as int],
                within(top@, next as int),
                forall|j: int| 0 <= j < position ==> ids[#[trigger] top[j] as int] > id,
            decreases top.len() - position,
        {
            position = position + 1;
        }
        proof {
            assert forall|j: int| position <= j < before.len() implies ids[#[trigger] before[j] as int]
                < id by {
                assert(before[j] < next);
                assert(ids[before[j] as int] != ids[next as int]);
                if j > position {
                    assert(ids[before[position as int] as int] > ids[before[j] as int]);
                }
            }
        }
        if position < limit {
            let ghost full = before.len() == limit;
            proof {
                lemma_insert_keeps_rank(ids@, next, before, position as int, full);
            }
            top.insert(position, next);
            if top.len() > limit {
                proof {
                    lemma_drop_last_keeps_rank(ids@, next + 1, top@, full);
                }
                top.pop();
            } else {
                proof {
                    assert(!full);
                    assert forall|m: int| 0 <= m < next + 1 implies #[trigger] is_listed(top@, m)
                        by {}
                }
            }
        } else {
            proof {
                lemma_skip_keeps_rank(ids@, next as int, before);
            }
        }
        next = next + 1;
    }
    top
}

/// The identities of a list of connections.
pub open spec fn spec_ids(open: Seq<Arc<ConnectionInfo>>) -> Seq<usize> {
    Seq::new(open.len(), |i: int| open[i].spec_id()@)
}

/// No two of the connections have the same identity.
pub open spec fn connections_distinct(open: Seq<Arc<ConnectionInfo>>) -> bool {
    forall|i: int, j: int|
        0 <= i < j < open.len() ==> (#[trigger] open[i]).spec_id() != (#[trigger] open[j]).spec_id()
}

/// A span cut down to whole seconds, in nanoseconds.
pub open spec fn spec_whole_seconds(nanos: int) -> int {
    (nanos / NANOS_PER_SEC as int) * NANOS_PER_SEC
}

impl ConnectionInfoDTO {
    /// The entry describes the connection `info` at the monotonic reading
    /// `now`: its identity, its socket, when it was admitted, and its age in
    /// whole seconds.
    pub open spec fn describes(&self, info: &ConnectionInfo, now: MonotonicTime) -> bool {
        &&& self.id == info.spec_id()@
        &&& self.server_socket_type == info.spec_server_socket_type()
        &&& self.creation_time == info.spec_creation_time()
        &&& self.age.nanos == spec_whole_seconds(info.spec_age(now))
    }

    /// The entry for the connection `info` at the monotonic reading `now`.
    /// The request count is read from the connection's counter, of which
    /// nothing is promised.
    pub fn from_info(info: &ConnectionInfo, now: MonotonicTime) -> (entry: Self)
        ensures
            entry.describes(info, now),
    {
        Self {
            id: info.id().as_usize(),
            server_socket_type: info.server_socket_type(),
            creation_time: info.creation_time(),
            age: info.age(now).truncate_to_secs(),
            num_requests: info.num_requests(),
        }
    }
}

/// `listed` describes the newest of the connections `open`, at most
/// `limit` of them, the newest first.
pub open spec fn is_report_of(
    open: Seq<Arc<ConnectionInfo>>,
    now: MonotonicTime,
    limit: int,
    listed: Seq<ConnectionInfoDTO>,
) -> bool {
    exists|top: Seq<usize>|
        {
            &&& #[trigger] is_newest(spec_ids(open), limit, top)
            &&& listed.len() == top.len()
            &&& forall|i: int|
                0 <= i < listed.len() ==> (#[trigger] listed[i]).describes(
                    &open[top[i] as int],
                    now,
                )
        }
}

impl ConnectionTrackerStateDTO {
    /// The report on a snapshot taken at the monotonic reading `now`: the
    /// figures, the lifetimes in whole seconds, the number of open
    /// connections, and the newest of them, at most
    /// [`MAX_REPORTED_CONNECTIONS`], the newest first.
    pub fn from_snapshot(snapshot: &ConnectionTrackerStateSnapshot, now: MonotonicTime) -> (report:
        Self)
        requires
            connections_distinct(snapshot.open_connections@),
        ensures
            report.max_open_connections == snapshot.max_open_connections,
            report.connection_limit_hits == snapshot.connection_limit_hits,
            report.min_connection_lifetime.nanos == spec_whole_seconds(
                snapshot.min_connection_lifetime.nanos as int,
            ),
            report.max_connection_lifetime.nanos == spec_whole_seconds(
                snapshot.max_connection_lifetime.nanos as int,
            ),
            report.max_requests_per_connection == snapshot.max_requests_per_connection,
            report.num_open_connections == snapshot.open_connections.len(),
            is_report_of(
                snapshot.open_connections@,
                now,
                MAX_REPORTED_CONNECTIONS as int,
                report.open_connections@,
            ),
    {
        let open = &snapshot.open_connections;
        let mut ids: Vec<usize> = Vec::new();
        let mut index: usize = 0;
        while index < open.len()
            invariant
                index <= open.len(),
                ids.len() == index,
                forall|i: int| 0 <= i < index ==> #[trigger] ids[i] == open[i].spec_id()@,
            decreases open.len() - index,
        {
            ids.push(open[index].id().as_usize());
            index = index + 1;
        }
        proof {
            assert(ids@ =~= spec_ids(open@));
            assert forall|i: int, j: int| 0 <= i < j < ids.len() implies ids[i] != ids[j] by {
                crate::connection::lemma_same_number_same_id(open[i].spec_id(), open[j].spec_id());
            }
        }
        let top = newest_indices(&ids, MAX_REPORTED_CONNECTIONS);
        let mut open_connections: Vec<ConnectionInfoDTO> = Vec::new();
        let mut rank: usize = 0;
        while rank < top.len()
            invariant
                rank <= top.len(),
                open_connections.len() == rank,
                within(top@, open.len() as int),
                forall|i: int|
                    0 <= i < rank ==> (#[trigger] open_connections[i]).describes(
                        &open[top[i] as int],
                        now,
                    ),
            decreases top.len() - rank,
        {
            open_connections.push(ConnectionInfoDTO::from_info(&open[top[rank]], now));
            rank = rank + 1;
        }
        Self {
            max_open_connections: snapshot.max_open_connections,
            connection_limit_hits: snapshot.connection_limit_hits,
            min_connection_lifetime: snapshot.min_connection_lifetime.truncate_to_secs(),
            max_connection_lifetime: snapshot.max_connection_lifetime.truncate_to_secs(),
            max_requests_per_connection: snapshot.max_requests_per_connection,
            num_open_connections: open.len(),
            open_connections,
        }
    }
}

/// The identity `id` is listed, or it is smaller than every identity that
/// is listed.
pub open spec fn accounts_for(listed: Seq<ConnectionInfoDTO>, id: usize) -> bool {
    ||| exists|i: int| 0 <= i < listed.len() && (#[trigger] listed[i]).id == id
    ||| forall|i: int| 0 <= i < listed.len() ==> (#[trigger] listed[i]).id > id
}

/// In a report, the connections are listed by falling identity, and a
/// connection that is left out is older than every one that is listed.
pub proof fn lemma_report_lists_newest_first(
    open: Seq<Arc<ConnectionInfo>>,
    now: MonotonicTime,
    limit: int,
    listed: Seq<ConnectionInfoDTO>,
)
    requires
        is_report_of(open, now, limit, listed),
    ensures
        listed.len() == if open.len() <= limit {
            open.len() as int
        } else {
            limit
        },
        forall|a: int, b: int|
            0 <= a < b < listed.len() ==> (#[trigger] listed[a]).id > (#[trigger] listed[b]).id,
        forall|m: int| 0 <= m < open.len() ==> accounts_for(listed, (#[trigger] open[m]).spec_id()@),
{
    let ids = spec_ids(open);
    let top = choose|top: Seq<usize>|
        {
            &&& #[trigger] is_newest(ids, limit, top)
            &&& listed.len() == top.len()
            &&& forall|i: int|
                0 <= i < listed.len() ==> (#[trigger] listed[i]).describes(
                    &open[top[i] as int],
                    now,
                )
        };
    assert forall|a: int, b: int| 0 <= a < b < listed.len() implies (#[trigger] listed[a]).id > (
    #[trigger] listed[b]).id by {
        assert(ids[top[a] as int] > ids[top[b] as int]);
    }
    assert forall|m: int| 0 <= m < open.len() implies accounts_for(
        listed,
        (#[trigger] open[m]).spec_id()@,
    ) by {
        if is_listed(top, m) {
            let j = choose|j: int| 0 <= j < top.len() && #[trigger] top[j] == m;
            assert(listed[j].id == open[m].spec_id()@);
        } else {
            assert(outranked(ids, top, m));
            assert forall|i: int| 0 <= i < listed.len() implies (#[trigger] listed[i]).id
                > open[m].spec_id()@ by {
                assert(ids[top[i] as int] > ids[m]);
            }
        }
    }
}

} // verus!
