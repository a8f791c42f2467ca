//! Tracks the live connections of the server and what the closed ones leave
//! behind.

pub mod internal;

use crate::utils::time::current_timestamp_string;
use crate::utils::time::elapsed_between;
use crate::utils::time::saturating_elapsed;
use crate::utils::time::MonotonicClock;
use crate::utils::time::truncate_to_seconds;
use crate::utils::time::whole_seconds;
use internal::holds_each_once;
use internal::ConnectionCounterMetrics;
use internal::ConnectionTrackerState;
use internal::ConnectionTrackerStateView;
use std::collections::BTreeMap;
use vstd::prelude::*;
use vstd::std_specs::cmp::OrdSpec;
use vstd::std_specs::iter::IteratorSpec;

verus! {

/// The identity of a connection. Identifiers are handed out in increasing
/// order, starting at one, and never reused.
#[derive(Clone, Copy, Debug, PartialEq, Eq, Hash, Ord, PartialOrd, Structural)]
pub struct ConnectionID(usize);

impl View for ConnectionID {
    type V = usize;

    closed spec fn view(&self) -> usize {
        self.0
    }
}

impl ConnectionID {
    /// The identifier with the number `value`.
    pub closed spec fn from_number(value: usize) -> Self {
        ConnectionID(value)
    }

    pub(crate) fn new(value: usize) -> (id: Self)
        ensures
            id == Self::from_number(value),
            id@ == value,
    {
        ConnectionID(value)
    }

    pub fn as_usize(&self) -> (value: usize)
        ensures
            value == self@,
    {
        self.0
    }

    /// Two identifiers with the same number are the same identifier.
    pub proof fn same_number_same_id(a: ConnectionID, b: ConnectionID)
        ensures
            a@ == b@ <==> a == b,
    {
    }

    /// An identifier is the one made from its number.
    pub proof fn number_round_trip(value: usize)
        ensures
            Self::from_number(value)@ == value,
            forall|id: ConnectionID| id@ == value ==> id == Self::from_number(value),
    {
    }
}

/// The counters that connections report into while they are served.
#[derive(Clone, Copy, Debug, PartialEq, Eq, Structural)]
pub enum ConnectionCounterMetricName {
    /// Connections that ended with a transport error.
    Errors,
    /// Connections that outlived the maximum lifetime and were asked to shut
    /// down.
    InitialTimeouts,
    /// Connections that were abandoned after the graceful shutdown timeout.
    FinalTimeouts,
}

/// A counter after one more event, held at the largest value once it is
/// reached.
pub open spec fn counted_once_more(count: usize) -> usize {
    if count < usize::MAX {
        (count + 1) as usize
    } else {
        count
    }
}

/// Computes [`counted_once_more`].
pub fn count_once_more(count: usize) -> (next: usize)
    ensures
        next == counted_once_more(count),
{
    if count < usize::MAX {
        count + 1
    } else {
        count
    }
}

/// What the tracker knows of one live connection.
#[derive(Debug)]
pub struct ConnectionInfo {
    pub id: ConnectionID,
    /// The wall-clock time at which the connection was admitted, as text.
    pub creation_time: String,
    /// The monotonic clock reading at which the connection was admitted, in
    /// nanoseconds.
    pub creation_instant: u128,
    /// The number of requests seen on the connection so far.
    pub num_requests: usize,
}

impl Clone for ConnectionInfo {
    fn clone(&self) -> (copy: Self)
        ensures
            copy == *self,
    {
        ConnectionInfo {
            id: self.id,
            creation_time: self.creation_time.clone(),
            creation_instant: self.creation_instant,
            num_requests: self.num_requests,
        }
    }
}

impl ConnectionInfo {
    pub fn new(id: ConnectionID, creation_time: String, creation_instant: u128) -> (info: Self)
        ensures
            info == (ConnectionInfo { id, creation_time, creation_instant, num_requests: 0 }),
    {
        ConnectionInfo { id, creation_time, creation_instant, num_requests: 0 }
    }

    pub fn num_requests(&self) -> (count: usize)
        ensures
            count == self.num_requests,
    {
        self.num_requests
    }

    /// The age of the connection at the clock reading `now`.
    pub open spec fn spec_age(&self, now: u128) -> u128 {
        elapsed_between(self.creation_instant, now)
    }

    /// The age of the connection at the clock reading `now`: zero if `now`
    /// lies before its admission.
    #[verifier::when_used_as_spec(spec_age)]
    pub fn age(&self, now: u128) -> (age: u128)
        ensures
            age == self.spec_age(now),
    {
        saturating_elapsed(self.creation_instant, now)
    }
}

/// The token of an admitted connection. The code that serves the connection
/// holds it, reports through it, and gives it up when the connection is done.
#[derive(Debug)]
pub struct ConnectionGuard {
    pub id: ConnectionID,
}

impl ConnectionGuard {
    pub(crate) fn new(id: ConnectionID) -> (guard: Self)
        ensures
            guard.id == id,
    {
        ConnectionGuard { id }
    }
}

/// The number of connections that a report lists.
pub const NEWEST_CONNECTIONS_LIMIT: usize = 20;

/// A copy of what the tracker held at one moment.
pub struct ConnectionTrackerStateSnapshot {
    pub max_open_connections: usize,
    /// In nanoseconds.
    pub min_connection_lifetime: u128,
    /// In nanoseconds.
    pub max_connection_lifetime: u128,
    pub max_requests_per_connection: usize,
    pub connection_errors: usize,
    pub connection_initial_timeouts: usize,
    pub connection_final_timeouts: usize,
    /// The records of the live connections, in no particular order.
    pub open_connections: Vec<ConnectionInfo>,
    /// The monotonic clock reading at which the copy was made, in
    /// nanoseconds.
    pub taken_at: u128,
}

impl ConnectionTrackerStateSnapshot {
    /// Whether this is a copy of `state` and `counter_metrics`, made at the
    /// clock reading `now`.
    pub open spec fn copies(
        self,
        state: ConnectionTrackerStateView,
        counter_metrics: ConnectionCounterMetrics,
        now: u128,
    ) -> bool {
        &&& self.max_open_connections == state.metrics.max_open_connections
        &&& self.min_connection_lifetime == match state.metrics.past_min_connection_age {
            Some(past_min) => past_min,
            None => 0,
        }
        &&& self.max_connection_lifetime == state.metrics.past_max_connection_age
        &&& self.max_requests_per_connection == state.metrics.past_max_requests_per_connection
        &&& self.connection_errors == counter_metrics.count(ConnectionCounterMetricName::Errors)
        &&& self.connection_initial_timeouts == counter_metrics.count(
            ConnectionCounterMetricName::InitialTimeouts,
        )
        &&& self.connection_final_timeouts == counter_metrics.count(
            ConnectionCounterMetricName::FinalTimeouts,
        )
        &&& holds_each_once(self.open_connections@, state.live)
        &&& self.taken_at == now
    }

    /// Copies the aggregates, the counters and the records of all live
    /// connections, and notes the clock reading `now`.
    pub fn take(
        state: &ConnectionTrackerState,
        counter_metrics: &ConnectionCounterMetrics,
        now: u128,
    ) -> (snapshot: Self)
        requires
            state.wf(),
        ensures
            snapshot.copies(state@, *counter_metrics, now),
    {
        ConnectionTrackerStateSnapshot {
            max_open_connections: state.max_open_connections(),
            min_connection_lifetime: state.min_connection_lifetime(),
            max_connection_lifetime: state.max_connection_lifetime(),
            max_requests_per_connection: state.max_requests_per_connection(),
            connection_errors: counter_metrics.load(ConnectionCounterMetricName::Errors),
            connection_initial_timeouts: counter_metrics.load(
                ConnectionCounterMetricName::InitialTimeouts,
            ),
            connection_final_timeouts: counter_metrics.load(
                ConnectionCounterMetricName::FinalTimeouts,
            ),
            open_connections: state.open_connections(),
            taken_at: now,
        }
    }
}

/// One live connection as a report shows it.
#[derive(Debug)]
pub struct ConnectionInfoSnapshotDTO {
    pub id: usize,
    pub creation_time: String,
    /// In whole seconds.
    pub age: u64,
    pub num_requests: usize,
}

impl ConnectionInfoSnapshotDTO {
    /// What a report made at the clock reading `now` shows of a connection.
    pub open spec fn of(connection_info: ConnectionInfo, now: u128) -> Self {
        ConnectionInfoSnapshotDTO {
            id: connection_info.id@,
            creation_time: connection_info.creation_time,
            age: whole_seconds(connection_info.spec_age(now)),
            num_requests: connection_info.num_requests,
        }
    }

    /// Reduces the record of a connection to what a report made at the clock
    /// reading `now` shows of it; the age is cut down to whole seconds.
    pub fn from(connection_info: &ConnectionInfo, now: u128) -> (dto: Self)
        ensures
            dto == Self::of(*connection_info, now),
    {
        ConnectionInfoSnapshotDTO {
            id: connection_info.id.as_usize(),
            creation_time: connection_info.creation_time.clone(),
            age: truncate_to_seconds(connection_info.age(now)),
            num_requests: connection_info.num_requests(),
        }
    }
}

/// The records of `connections` by the number of their identifier. Where
/// two records have the same identifier, the later one stands.
pub open spec fn filed_by_id(connections: Seq<ConnectionInfo>) -> Map<usize, ConnectionInfo>
    decreases connections.len(),
{
    if connections.len() == 0 {
        Map::empty()
    } else {
        filed_by_id(connections.drop_last()).insert(connections.last().id@, connections.last())
    }
}

/// Whether `listed` shows the newest connections of `live` as a report made
/// at the clock reading `now` does: the `limit` connections with the largest
/// identifiers, or all if there are fewer, by descending identifier.
pub open spec fn lists_newest(
    listed: Seq<ConnectionInfoSnapshotDTO>,
    live: Map<usize, ConnectionInfo>,
    now: u128,
    limit: nat,
) -> bool {
    &&& listed.len() == if live.len() <= limit {
        live.len()
    } else {
        limit
    }
    &&& forall|i: int|
        0 <= i < listed.len() ==> live.contains_key(#[trigger] listed[i].id) && listed[i]
            == ConnectionInfoSnapshotDTO::of(live[listed[i].id], now)
    &&& forall|i: int, j: int| 0 <= i < j < listed.len() ==> listed[i].id > listed[j].id
    &&& forall|id: usize, i: int|
        live.contains_key(id) && 0 <= i < listed.len() && id > listed[i].id ==> exists|j: int|
            0 <= j < i && #[trigger] listed[j].id == id
}


/// Whether `a` comes before `b` in the order of `K`.
spec fn sorts_before<K: Ord>(a: K, b: K) -> bool {
    a.cmp_spec(&b) is Less
}

/// Keys that a `BTreeMap` hands out in its order are strictly ascending
/// numbers.
proof fn lemma_keys_ascend(keys: Seq<&usize>)
    requires
        vstd::std_specs::btree::increasing_seq(keys),
    ensures
        forall|i: int, j: int| 0 <= i < j < keys.len() ==> *keys[i] < *keys[j],
{
    assert forall|i: int, j: int| 0 <= i < j < keys.len() implies *keys[i] < *keys[j] by {
        assert(sorts_before::<&usize>(keys[i], keys[j]));
    }
}

/// Whether `refs` files under each number a reference to the record that
/// `filed` files under it.
spec fn refers_to(refs: Map<usize, &ConnectionInfo>, filed: Map<usize, ConnectionInfo>) -> bool {
    &&& refs.dom() == filed.dom()
    &&& forall|id: usize| #[trigger] refs.contains_key(id) ==> *refs[id] == filed[id]
}

/// Records filed by identifier are finitely many, each is one of the
/// records that were filed, and each is filed under its own identifier.
pub proof fn lemma_filed_by_id(connections: Seq<ConnectionInfo>)
    ensures
        filed_by_id(connections).dom().finite(),
        filed_by_id(connections).len() <= connections.len(),
        forall|id: usize| #[trigger]
            filed_by_id(connections).contains_key(id) ==> filed_by_id(connections)[id].id@ == id
                && connections.contains(filed_by_id(connections)[id]),
        forall|i: int|
            0 <= i < connections.len() ==> filed_by_id(connections).contains_key(
                #[trigger] connections[i].id@,
            ),
    decreases connections.len(),
{
    if connections.len() > 0 {
        let earlier = connections.drop_last();
        lemma_filed_by_id(earlier);
        assert forall|id: usize| #[trigger]
            filed_by_id(connections).contains_key(id) implies connections.contains(
            filed_by_id(connections)[id],
        ) by {
            if id == connections.last().id@ {
                assert(connections[connections.len() - 1] == connections.last());
            } else {
                let i = choose|i: int|
                    0 <= i < earlier.len() && earlier[i] == filed_by_id(earlier)[id];
                assert(connections[i] == earlier[i]);
            }
        }
        assert forall|i: int| 0 <= i < connections.len() implies filed_by_id(
            connections,
        ).contains_key(#[trigger] connections[i].id@) by {
            if i < connections.len() - 1 {
                assert(connections[i] == earlier[i]);
            }
        }
    }
}

/// A report of the tracker: the aggregates with lifetimes in whole seconds,
/// the counters, the number of live connections, and the newest of them.
#[derive(Debug)]
pub struct ConnectionTrackerStateSnapshotDTO {
    pub max_open_connections: usize,
    /// In whole seconds.
    pub min_connection_lifetime: u64,
    /// In whole seconds.
    pub max_connection_lifetime: u64,
    pub max_requests_per_connection: usize,
    pub connection_errors: usize,
    pub connection_initial_timeouts: usize,
    pub connection_final_timeouts: usize,
    pub num_open_connections: usize,
    /// At most [`NEWEST_CONNECTIONS_LIMIT`] connections, newest first.
    pub open_connections: Vec<ConnectionInfoSnapshotDTO>,
}

impl ConnectionTrackerStateSnapshotDTO {
    /// Whether this is the report of `snapshot`.
    pub open spec fn reports(self, snapshot: ConnectionTrackerStateSnapshot) -> bool {
        let filed = filed_by_id(snapshot.open_connections@);
        &&& self.max_open_connections == snapshot.max_open_connections
        &&& self.min_connection_lifetime == whole_seconds(snapshot.min_connection_lifetime)
        &&& self.max_connection_lifetime == whole_seconds(snapshot.max_connection_lifetime)
        &&& self.max_requests_per_connection == snapshot.max_requests_per_connection
        &&& self.connection_errors == snapshot.connection_errors
        &&& self.connection_initial_timeouts == snapshot.connection_initial_timeouts
        &&& self.connection_final_timeouts == snapshot.connection_final_timeouts
        &&& self.num_open_connections == filed.len()
        &&& lists_newest(
            self.open_connections@,
            filed,
            snapshot.taken_at,
            NEWEST_CONNECTIONS_LIMIT as nat,
        )
    }

    /// Turns a snapshot into a report: lifetimes are cut down to whole
    /// seconds, the live connections are counted, and the newest of them, at
    /// most [`NEWEST_CONNECTIONS_LIMIT`], are listed by descending identifier.
    pub fn from(state_snapshot: ConnectionTrackerStateSnapshot) -> (dto: Self)
        ensures
            dto.reports(state_snapshot),
    {
        let connections = &state_snapshot.open_connections;
        let ghost filed = filed_by_id(connections@);

        let mut id_to_open_connection: BTreeMap<usize, &ConnectionInfo> = BTreeMap::new();
        let mut filed_count: usize = 0;
        while filed_count < connections.len()
            invariant
                filed_count <= connections.len(),
                refers_to(
                    id_to_open_connection@,
                    filed_by_id(connections@.take(filed_count as int)),
                ),
            decreases connections.len() - filed_count,
        {
            let connection_info = &connections[filed_count];
            id_to_open_connection.insert(connection_info.id.as_usize(), connection_info);
            proof {
                let longer = connections@.take(filed_count + 1);
                assert(longer.drop_last() =~= connections@.take(filed_count as int));
                assert(longer.last() == connections@[filed_count as int]);
            }
            filed_count += 1;
        }
        proof {
            assert(connections@.take(filed_count as int) =~= connections@);
            lemma_filed_by_id(connections@);
        }
        let num_open_connections = id_to_open_connection.len();

        let ghost keys = id_to_open_connection.keys().remaining();
        let mut ascending_ids: Vec<usize> = Vec::new();
        for id in it: id_to_open_connection.keys()
            invariant
                it.seq() == keys,
                ascending_ids.len() == it.index(),
                forall|j: int| 0 <= j < ascending_ids.len() ==> ascending_ids[j] == *keys[j],
        {
            ascending_ids.push(*id);
        }
        proof {
            lemma_keys_ascend(keys);
            assert(keys.len() == filed.len());
            assert forall|id: usize| #[trigger] filed.contains_key(id) implies exists|j: int|
                0 <= j < ascending_ids.len() && ascending_ids[j] == id by {
                assert(keys.unref().to_set().contains(id));
                let j = choose|j: int| 0 <= j < keys.unref().len() && keys.unref()[j] == id;
                assert(ascending_ids[j] == id);
            }
            assert forall|j: int| 0 <= j < ascending_ids.len() implies filed.contains_key(
                #[trigger] ascending_ids[j],
            ) by {
                assert(keys.unref()[j] == ascending_ids[j]);
                assert(keys.unref().to_set().contains(keys.unref()[j]));
            }
            assert forall|a: int, b: int| 0 <= a < b < ascending_ids.len() implies ascending_ids[a]
                < ascending_ids[b] by {
                assert(*keys[a] < *keys[b]);
            }
        }

        let mut open_connections: Vec<ConnectionInfoSnapshotDTO> = Vec::new();
        let mut older: usize = ascending_ids.len();
        while older > 0 && open_connections.len() < NEWEST_CONNECTIONS_LIMIT
            invariant
                older <= ascending_ids.len(),
                open_connections.len() + older == ascending_ids.len(),
                open_connections.len() <= NEWEST_CONNECTIONS_LIMIT,
                refers_to(id_to_open_connection@, filed),
                forall|j: int|
                    0 <= j < ascending_ids.len() ==> filed.contains_key(
                        #[trigger] ascending_ids[j],
                    ),
                forall|id: usize| #[trigger] filed.contains_key(id) ==> filed[id].id@ == id,
                forall|a: int, b: int|
                    0 <= a < b < ascending_ids.len() ==> ascending_ids[a] < ascending_ids[b],
                forall|id: usize| #[trigger]
                    filed.contains_key(id) ==> exists|j: int|
                        0 <= j < ascending_ids.len() && ascending_ids[j] == id,
                ascending_ids.len() == filed.len(),
                forall|j: int|
                    0 <= j < open_connections.len() ==> #[trigger] open_connections[j]
                        == ConnectionInfoSnapshotDTO::of(
                        filed[ascending_ids[ascending_ids.len() - 1 - j]],
                        state_snapshot.taken_at,
                    ),
            decreases older,
        {
            older -= 1;
            let id = ascending_ids[older];
            match id_to_open_connection.get(&id) {
                Some(connection_info) => {
                    open_connections.push(
                        ConnectionInfoSnapshotDTO::from(connection_info, state_snapshot.taken_at),
                    );
                },
                None => {
                    assert(false);
                },
            }
        }
        proof {
            let listed = open_connections@;
            let count = ascending_ids.len() as int;
            assert forall|j: int| 0 <= j < listed.len() implies listed[j].id == ascending_ids[count
                - 1 - j] by {
                assert(filed.contains_key(ascending_ids[count - 1 - j]));
            }
            assert forall|id: usize, i: int|
                filed.contains_key(id) && 0 <= i < listed.len() && id > listed[i].id implies exists|
                j: int,
            |
                0 <= j < i && #[trigger] listed[j].id == id by {
                let position = choose|p: int| 0 <= p < count && ascending_ids[p] == id;
                assert(ascending_ids[count - 1 - i] < ascending_ids[position]);
                assert(position > count - 1 - i);
                assert(listed[count - 1 - position].id == id);
            }
            assert forall|i: int| 0 <= i < listed.len() implies filed.contains_key(
                #[trigger] listed[i].id,
            ) && listed[i] == ConnectionInfoSnapshotDTO::of(
                filed[listed[i].id],
                state_snapshot.taken_at,
            ) by {
                assert(filed.contains_key(ascending_ids[count - 1 - i]));
            }
        }

        ConnectionTrackerStateSnapshotDTO {
            max_open_connections: state_snapshot.max_open_connections,
            min_connection_lifetime: truncate_to_seconds(state_snapshot.min_connection_lifetime),
            max_connection_lifetime: truncate_to_seconds(state_snapshot.max_connection_lifetime),
            max_requests_per_connection: state_snapshot.max_requests_per_connection,
            connection_errors: state_snapshot.connection_errors,
            connection_initial_timeouts: state_snapshot.connection_initial_timeouts,
            connection_final_timeouts: state_snapshot.connection_final_timeouts,
            num_open_connections,
            open_connections,
        }
    }
}

/// A list of the live records, each exactly once, files by identifier to
/// the live connections themselves.
pub proof fn lemma_filed_by_id_of_live(
    connections: Seq<ConnectionInfo>,
    live: Map<usize, ConnectionInfo>,
)
    requires
        live.dom().finite(),
        holds_each_once(connections, live),
    ensures
        filed_by_id(connections) == live,
{
    let filed = filed_by_id(connections);
    lemma_filed_by_id(connections);
    let ids = connections.map_values(|connection_info: ConnectionInfo| connection_info.id@);
    assert(ids.no_duplicates());
    ids.unique_seq_to_set();
    assert forall|id: usize| ids.to_set().contains(id) implies live.dom().contains(id) by {
        let i = choose|i: int| 0 <= i < ids.len() && ids[i] == id;
        assert(live.contains_key(connections[i].id@));
    }
    vstd::set_lib::lemma_subset_equality(ids.to_set(), live.dom());
    assert forall|id: usize| live.contains_key(id) implies #[trigger] filed.contains_key(id) by {
        assert(ids.to_set().contains(id));
        let i = choose|i: int| 0 <= i < ids.len() && ids[i] == id;
        assert(filed.contains_key(connections[i].id@));
    }
    assert forall|id: usize| #[trigger] filed.contains_key(id) implies live.contains_key(id)
        && filed[id] == live[id] by {
        let i = choose|i: int| 0 <= i < connections.len() && connections[i] == filed[id];
        assert(live.contains_key(connections[i].id@));
    }
    assert(filed =~= live);
}

/// Only one list shows the newest connections of `live`.
pub proof fn lemma_newest_list_is_unique(
    first: Seq<ConnectionInfoSnapshotDTO>,
    second: Seq<ConnectionInfoSnapshotDTO>,
    live: Map<usize, ConnectionInfo>,
    now: u128,
    limit: nat,
)
    requires
        lists_newest(first, live, now, limit),
        lists_newest(second, live, now, limit),
    ensures
        first == second,
{
    lemma_newest_lists_agree(first, second, live, now, limit, first.len() as int);
    assert(first =~= second);
}

proof fn lemma_newest_lists_agree(
    first: Seq<ConnectionInfoSnapshotDTO>,
    second: Seq<ConnectionInfoSnapshotDTO>,
    live: Map<usize, ConnectionInfo>,
    now: u128,
    limit: nat,
    upto: int,
)
    requires
        lists_newest(first, live, now, limit),
        lists_newest(second, live, now, limit),
        0 <= upto <= first.len(),
    ensures
        forall|i: int| 0 <= i < upto ==> first[i] == second[i],
    decreases upto,
{
    if upto > 0 {
        lemma_newest_lists_agree(first, second, live, now, limit, upto - 1);
        let i = upto - 1;
        assert(live.contains_key(first[i].id));
        assert(live.contains_key(second[i].id));
        if first[i].id > second[i].id {
            let j = choose|j: int| 0 <= j < i && #[trigger] second[j].id == first[i].id;
            assert(first[j].id > first[i].id);
        }
        if second[i].id > first[i].id {
            let j = choose|j: int| 0 <= j < i && #[trigger] first[j].id == second[i].id;
            assert(second[j].id > second[i].id);
        }
    }
}

impl ConnectionTrackerStateSnapshotDTO {
    /// Whether this is the report, made at the clock reading `now`, of a
    /// tracker in the state `state` with the counters `counter_metrics`: the
    /// aggregates with lifetimes in whole seconds, the counters, the number
    /// of live connections, and the newest of them by descending identifier.
    pub open spec fn reports_tracker(
        self,
        state: ConnectionTrackerStateView,
        counter_metrics: ConnectionCounterMetrics,
        now: u128,
    ) -> bool {
        &&& self.max_open_connections == state.metrics.max_open_connections
        &&& self.min_connection_lifetime == whole_seconds(
            match state.metrics.past_min_connection_age {
                Some(past_min) => past_min,
                None => 0,
            },
        )
        &&& self.max_connection_lifetime == whole_seconds(state.metrics.past_max_connection_age)
        &&& self.max_requests_per_connection == state.metrics.past_max_requests_per_connection
        &&& self.connection_errors == counter_metrics.count(ConnectionCounterMetricName::Errors)
        &&& self.connection_initial_timeouts == counter_metrics.count(
            ConnectionCounterMetricName::InitialTimeouts,
        )
        &&& self.connection_final_timeouts == counter_metrics.count(
            ConnectionCounterMetricName::FinalTimeouts,
        )
        &&& self.num_open_connections == state.live.len()
        &&& lists_newest(self.open_connections@, state.live, now, NEWEST_CONNECTIONS_LIMIT as nat)
    }

    /// The report of a copy of a tracker is the report of the tracker.
    pub proof fn lemma_report_of_copy(
        self,
        snapshot: ConnectionTrackerStateSnapshot,
        state: ConnectionTrackerStateView,
        counter_metrics: ConnectionCounterMetrics,
        now: u128,
    )
        requires
            state.wf(),
            snapshot.copies(state, counter_metrics, now),
            self.reports(snapshot),
        ensures
            self.reports_tracker(state, counter_metrics, now),
    {
        lemma_filed_by_id_of_live(snapshot.open_connections@, state.live);
    }

    /// A report never lists more than [`NEWEST_CONNECTIONS_LIMIT`]
    /// connections, whatever the number of live ones, and lists them by
    /// strictly descending identifier.
    pub proof fn lemma_report_is_bounded_and_descending(
        self,
        state: ConnectionTrackerStateView,
        counter_metrics: ConnectionCounterMetrics,
        now: u128,
    )
        requires
            self.reports_tracker(state, counter_metrics, now),
        ensures
            self.open_connections@.len() <= NEWEST_CONNECTIONS_LIMIT,
            self.open_connections@.len() <= self.num_open_connections,
            forall|i: int, j: int|
                0 <= i < j < self.open_connections@.len() ==> self.open_connections@[i].id
                    > self.open_connections@[j].id,
    {
    }
}

/// What the server asks of a connection tracker.
pub trait ConnectionTrackerService {
    /// The invariant of the tracker.
    spec fn wf(&self) -> bool;

    /// The live connections and the aggregates.
    spec fn state(&self) -> ConnectionTrackerStateView;

    /// The event counters.
    spec fn counter_metrics(&self) -> ConnectionCounterMetrics;

    /// Admits a connection now. This always succeeds: the connection gets
    /// the next identifier and a fresh record, stamped with the current
    /// time.
    fn add_connection(&mut self) -> (guard: ConnectionGuard)
        requires
            old(self).wf(),
            old(self).state().previous_connection_id < usize::MAX,
        ensures
            final(self).wf(),
            guard.id@ == old(self).state().previous_connection_id + 1,
            exists|creation_time: String, now: u128|
                final(self).state() == #[trigger] old(self).state().add_connection(
                    creation_time,
                    now,
                ),
            final(self).counter_metrics() == old(self).counter_metrics(),
    ;

    /// Reports the state of the tracker as of now.
    fn state_snapshot_dto(&self) -> (dto: ConnectionTrackerStateSnapshotDTO)
        requires
            self.wf(),
        ensures
            exists|now: u128| #[trigger]
                dto.reports_tracker(self.state(), self.counter_metrics(), now),
    ;
}

/// A tracker with nothing in it and a clock started now.
pub fn new_connection_tracker_service() -> (service: ConnectionTrackerServiceImpl)
    ensures
        service.wf(),
        service.state() == ConnectionTrackerStateView::initial(),
        forall|name: ConnectionCounterMetricName| service.counter_metrics().count(name) == 0,
{
    ConnectionTrackerServiceImpl::new()
}

/// The connection tracker: the tracked state, the counters, and the clock
/// by which connections are aged.
pub struct ConnectionTrackerServiceImpl {
    state: ConnectionTrackerState,
    counter_metrics: ConnectionCounterMetrics,
    clock: MonotonicClock,
}

impl ConnectionTrackerServiceImpl {
    pub fn new() -> (service: Self)
        ensures
            service.wf(),
            service.state() == ConnectionTrackerStateView::initial(),
            forall|name: ConnectionCounterMetricName| service.counter_metrics().count(name) == 0,
    {
        ConnectionTrackerServiceImpl {
            state: ConnectionTrackerState::new(),
            counter_metrics: ConnectionCounterMetrics::new(),
            clock: MonotonicClock::start(),
        }
    }

    /// Whether an identifier is left for another connection.
    pub fn has_free_identifier(&self) -> (free: bool)
        ensures
            free == (self.state().previous_connection_id < usize::MAX),
    {
        self.state.has_free_identifier()
    }

    /// Releases the connection `connection_id` now. Does nothing if the
    /// connection is not live, so that a second release is harmless.
    pub fn remove_connection(&mut self, connection_id: ConnectionID)
        requires
            old(self).wf(),
        ensures
            final(self).wf(),
            exists|now: u128|
                final(self).state() == #[trigger] old(self).state().remove_connection(
                    connection_id@,
                    now,
                ),
            !final(self).state().live.contains_key(connection_id@),
            final(self).counter_metrics() == old(self).counter_metrics(),
    {
        let now = self.clock.elapsed_nanos();
        self.state.remove_connection(connection_id, now);
        assert(self.state() == old(self).state().remove_connection(connection_id@, now));
    }

    /// Copies what the tracker holds now.
    pub fn connection_tracker_state_snapshot(&self) -> (snapshot: ConnectionTrackerStateSnapshot)
        requires
            self.wf(),
        ensures
            snapshot.copies(self.state(), self.counter_metrics(), snapshot.taken_at),
    {
        let now = self.clock.elapsed_nanos();
        ConnectionTrackerStateSnapshot::take(&self.state, &self.counter_metrics, now)
    }

    /// Adds one to the counter called `name`.
    pub fn increment_counter_metric(&mut self, name: ConnectionCounterMetricName)
        ensures
            final(self).wf() == old(self).wf(),
            final(self).state() == old(self).state(),
            final(self).counter_metrics().count(name) == counted_once_more(
                old(self).counter_metrics().count(name),
            ),
            forall|other: ConnectionCounterMetricName|
                other != name ==> final(self).counter_metrics().count(other) == old(
                    self,
                ).counter_metrics().count(other),
    {
        self.counter_metrics.increment(name);
    }

    /// Counts one more request on the connection `connection_id`.
    pub fn increment_num_requests(&mut self, connection_id: ConnectionID)
        requires
            old(self).wf(),
        ensures
            final(self).wf(),
            final(self).state() == old(self).state().record_request(connection_id@),
            final(self).counter_metrics() == old(self).counter_metrics(),
    {
        self.state.increment_num_requests(connection_id);
    }

    /// The number of requests seen on the connection `connection_id`, if it
    /// is live.
    pub fn num_requests(&self, connection_id: ConnectionID) -> (count: Option<usize>)
        ensures
            count == if self.state().live.contains_key(connection_id@) {
                Some(self.state().live[connection_id@].num_requests)
            } else {
                None
            },
    {
        self.state.num_requests(connection_id)
    }
}

impl ConnectionTrackerService for ConnectionTrackerServiceImpl {
    closed spec fn wf(&self) -> bool {
        self.state.wf()
    }

    closed spec fn state(&self) -> ConnectionTrackerStateView {
        self.state@
    }

    closed spec fn counter_metrics(&self) -> ConnectionCounterMetrics {
        self.counter_metrics
    }

    fn add_connection(&mut self) -> (guard: ConnectionGuard) {
        let creation_time = current_timestamp_string();
        let now = self.clock.elapsed_nanos();
        let guard = self.state.add_connection(creation_time, now);
        assert(self.state() == old(self).state().add_connection(creation_time, now));
        guard
    }

    fn state_snapshot_dto(&self) -> (dto: ConnectionTrackerStateSnapshotDTO) {
        let snapshot = self.connection_tracker_state_snapshot();
        let ghost taken_at = snapshot.taken_at;
        let ghost copied = snapshot;
        let dto = ConnectionTrackerStateSnapshotDTO::from(snapshot);
        proof {
            dto.lemma_report_of_copy(copied, self.state(), self.counter_metrics(), taken_at);
        }
        dto
    }
}

impl ConnectionGuard {
    /// Counts one more request on the connection of this guard.
    pub fn increment_num_requests(&self, service: &mut ConnectionTrackerServiceImpl)
        requires
            old(service).wf(),
        ensures
            final(service).wf(),
            final(service).state() == old(service).state().record_request(self.id@),
            final(service).counter_metrics() == old(service).counter_metrics(),
    {
        service.increment_num_requests(self.id);
    }

    /// The number of requests seen on the connection of this guard, zero
    /// once it has been released.
    pub fn num_requests(&self, service: &ConnectionTrackerServiceImpl) -> (count: usize)
        ensures
            count == if service.state().live.contains_key(self.id@) {
                service.state().live[self.id@].num_requests
            } else {
                0
            },
    {
        match service.num_requests(self.id) {
            Some(count) => count,
            None => 0,
        }
    }

    /// Adds one to the counter called `name`.
    pub fn increment_counter_metric(
        &self,
        service: &mut ConnectionTrackerServiceImpl,
        name: ConnectionCounterMetricName,
    )
        ensures
            final(service).wf() == old(service).wf(),
            final(service).state() == old(service).state(),
            final(service).counter_metrics().count(name) == counted_once_more(
                old(service).counter_metrics().count(name),
            ),
            forall|other: ConnectionCounterMetricName|
                other != name ==> final(service).counter_metrics().count(other) == old(
                    service,
                ).counter_metrics().count(other),
    {
        service.increment_counter_metric(name);
    }

    /// Gives the guard up: the connection is released from the tracker now.
    pub fn release(self, service: &mut ConnectionTrackerServiceImpl)
        requires
            old(service).wf(),
        ensures
            final(service).wf(),
            exists|now: u128|
                final(service).state() == #[trigger] old(service).state().remove_connection(
                    self.id@,
                    now,
                ),
            !final(service).state().live.contains_key(self.id@),
            final(service).counter_metrics() == old(service).counter_metrics(),
    {
        service.remove_connection(self.id);
    }
}

} // verus!
