//! The state behind the connection tracker: the live connections, the
//! aggregates that outlast them, and the event counters.

use super::count_once_more;
use super::counted_once_more;
use super::ConnectionCounterMetricName;
use super::ConnectionID;
use super::ConnectionGuard;
use super::ConnectionInfo;
use std::collections::HashMap;
use vstd::prelude::*;
use vstd::std_specs::iter::IteratorSpec;

verus! {

/// Aggregates over the history of the tracker. They are folded when a
/// connection is admitted or closed and keep their value after it is gone;
/// lifetimes and request counts are those of closed connections only.
#[derive(Clone, Copy, Debug, PartialEq, Eq, Structural)]
pub struct ConnectionTrackerMetrics {
    /// The largest number of connections that were open at the same time.
    pub max_open_connections: usize,
    /// The shortest lifetime of a closed connection, if any has closed.
    pub past_min_connection_age: Option<u128>,
    /// The longest lifetime of a closed connection.
    pub past_max_connection_age: u128,
    /// The largest number of requests that a closed connection had served.
    pub past_max_requests_per_connection: usize,
}

impl ConnectionTrackerMetrics {
    /// The aggregates of a tracker that has seen nothing.
    pub open spec fn initial() -> Self {
        ConnectionTrackerMetrics {
            max_open_connections: 0,
            past_min_connection_age: None,
            past_max_connection_age: 0,
            past_max_requests_per_connection: 0,
        }
    }

    /// The aggregates once `new_num_connections` connections are open.
    pub open spec fn after_new_connection(self, new_num_connections: usize) -> Self {
        ConnectionTrackerMetrics {
            max_open_connections: if self.max_open_connections >= new_num_connections {
                self.max_open_connections
            } else {
                new_num_connections
            },
            ..self
        }
    }

    /// The aggregates once a connection of the given age and request count
    /// has closed.
    pub open spec fn after_removed_connection(self, age: u128, num_requests: usize) -> Self {
        ConnectionTrackerMetrics {
            max_open_connections: self.max_open_connections,
            past_min_connection_age: match self.past_min_connection_age {
                Some(past_min) => Some(if past_min <= age { past_min } else { age }),
                None => Some(age),
            },
            past_max_connection_age: if self.past_max_connection_age >= age {
                self.past_max_connection_age
            } else {
                age
            },
            past_max_requests_per_connection: if self.past_max_requests_per_connection
                >= num_requests {
                self.past_max_requests_per_connection
            } else {
                num_requests
            },
        }
    }

    pub fn new() -> (metrics: Self)
        ensures
            metrics == Self::initial(),
    {
        ConnectionTrackerMetrics {
            max_open_connections: 0,
            past_min_connection_age: None,
            past_max_connection_age: 0,
            past_max_requests_per_connection: 0,
        }
    }

    pub fn update_for_new_connection(&mut self, new_num_connections: usize)
        ensures
            *final(self) == old(self).after_new_connection(new_num_connections),
    {
        if self.max_open_connections < new_num_connections {
            self.max_open_connections = new_num_connections;
        }
    }

    pub fn update_for_removed_connection(
        &mut self,
        removed_connection_info: &ConnectionInfo,
        now: u128,
    )
        ensures
            *final(self) == old(self).after_removed_connection(
                removed_connection_info.spec_age(now),
                removed_connection_info.num_requests,
            ),
    {
        let removed_connection_age = removed_connection_info.age(now);
        let past_min = match self.past_min_connection_age {
            Some(past_min) => if past_min <= removed_connection_age {
                past_min
            } else {
                removed_connection_age
            },
            None => removed_connection_age,
        };
        self.past_min_connection_age = Some(past_min);
        if self.past_max_connection_age < removed_connection_age {
            self.past_max_connection_age = removed_connection_age;
        }
        if self.past_max_requests_per_connection < removed_connection_info.num_requests() {
            self.past_max_requests_per_connection = removed_connection_info.num_requests();
        }
    }
}

impl Default for ConnectionTrackerMetrics {
    fn default() -> (metrics: Self)
        ensures
            metrics == Self::initial(),
    {
        Self::new()
    }
}

/// Counts of what happened to connections while they were served.
#[derive(Debug)]
pub struct ConnectionCounterMetrics {
    connection_errors: usize,
    connection_initial_timeouts: usize,
    connection_final_timeouts: usize,
}

impl ConnectionCounterMetrics {
    /// The value of the counter called `name`.
    pub closed spec fn count(&self, name: ConnectionCounterMetricName) -> usize {
        match name {
            ConnectionCounterMetricName::Errors => self.connection_errors,
            ConnectionCounterMetricName::InitialTimeouts => self.connection_initial_timeouts,
            ConnectionCounterMetricName::FinalTimeouts => self.connection_final_timeouts,
        }
    }

    /// Counters with all counts at zero.
    pub fn new() -> (counters: Self)
        ensures
            forall|name: ConnectionCounterMetricName| counters.count(name) == 0,
    {
        ConnectionCounterMetrics {
            connection_errors: 0,
            connection_initial_timeouts: 0,
            connection_final_timeouts: 0,
        }
    }

    /// The counter called `name`.
    pub fn metric(&self, name: ConnectionCounterMetricName) -> (metric: &usize)
        ensures
            *metric == self.count(name),
    {
        match name {
            ConnectionCounterMetricName::Errors => &self.connection_errors,
            ConnectionCounterMetricName::InitialTimeouts => &self.connection_initial_timeouts,
            ConnectionCounterMetricName::FinalTimeouts => &self.connection_final_timeouts,
        }
    }

    /// Adds one to the counter called `name` and leaves the others alone. A
    /// counter that has reached `usize::MAX` stays there.
    pub fn increment(&mut self, name: ConnectionCounterMetricName)
        ensures
            final(self).count(name) == counted_once_more(old(self).count(name)),
            forall|other: ConnectionCounterMetricName|
                other != name ==> final(self).count(other) == old(self).count(other),
    {
        match name {
            ConnectionCounterMetricName::Errors => {
                self.connection_errors = count_once_more(self.connection_errors);
            },
            ConnectionCounterMetricName::InitialTimeouts => {
                self.connection_initial_timeouts = count_once_more(
                    self.connection_initial_timeouts,
                );
            },
            ConnectionCounterMetricName::FinalTimeouts => {
                self.connection_final_timeouts = count_once_more(self.connection_final_timeouts);
            },
        }
    }

    /// Reads the counter called `name`.
    pub fn load(&self, name: ConnectionCounterMetricName) -> (count: usize)
        ensures
            count == self.count(name),
    {
        *self.metric(name)
    }
}

impl Default for ConnectionCounterMetrics {
    fn default() -> (counters: Self)
        ensures
            forall|name: ConnectionCounterMetricName| counters.count(name) == 0,
    {
        Self::new()
    }
}

/// What a [`ConnectionTrackerState`] holds: the cursor of identifiers, the
/// live connections by the number of their identifier, and the aggregates.
pub struct ConnectionTrackerStateView {
    pub previous_connection_id: usize,
    pub live: Map<usize, ConnectionInfo>,
    pub metrics: ConnectionTrackerMetrics,
}

impl ConnectionTrackerStateView {
    /// A tracker that has seen nothing.
    pub open spec fn initial() -> Self {
        ConnectionTrackerStateView {
            previous_connection_id: 0,
            live: Map::empty(),
            metrics: ConnectionTrackerMetrics::initial(),
        }
    }

    /// Every live connection is filed under its own identifier, which was
    /// issued before the cursor moved on; no more connections are live than
    /// identifiers were issued; and the largest number of open connections
    /// seen is at least the number open now.
    pub open spec fn wf(self) -> bool {
        &&& self.live.dom().finite()
        &&& forall|id: usize| #[trigger]
            self.live.contains_key(id) ==> 1 <= id <= self.previous_connection_id
                && self.live[id].id@ == id
        &&& self.live.len() <= self.previous_connection_id
        &&& self.live.len() <= self.metrics.max_open_connections
    }

    /// The record of a connection admitted under the number `id`.
    pub open spec fn admitted(id: usize, creation_time: String, now: u128) -> ConnectionInfo {
        ConnectionInfo {
            id: ConnectionID::from_number(id),
            creation_time,
            creation_instant: now,
            num_requests: 0,
        }
    }

    /// The tracker after it admitted a connection at the clock reading `now`.
    pub open spec fn add_connection(self, creation_time: String, now: u128) -> Self {
        let id = (self.previous_connection_id + 1) as usize;
        let live = self.live.insert(id, Self::admitted(id, creation_time, now));
        ConnectionTrackerStateView {
            previous_connection_id: id,
            live,
            metrics: self.metrics.after_new_connection(live.len() as usize),
        }
    }

    /// The tracker after the connection `id` was released at the clock
    /// reading `now`: unchanged if no such connection is live.
    pub open spec fn remove_connection(self, id: usize, now: u128) -> Self {
        if self.live.contains_key(id) {
            ConnectionTrackerStateView {
                previous_connection_id: self.previous_connection_id,
                live: self.live.remove(id),
                metrics: self.metrics.after_removed_connection(
                    self.live[id].spec_age(now),
                    self.live[id].num_requests,
                ),
            }
        } else {
            self
        }
    }

    /// The tracker after one more request was seen on the connection `id`:
    /// unchanged if no such connection is live.
    pub open spec fn record_request(self, id: usize) -> Self {
        if self.live.contains_key(id) {
            ConnectionTrackerStateView {
                live: self.live.insert(
                    id,
                    ConnectionInfo {
                        num_requests: counted_once_more(self.live[id].num_requests),
                        ..self.live[id]
                    },
                ),
                ..self
            }
        } else {
            self
        }
    }
}

/// What happens to a tracker: a connection is admitted, a request is seen
/// on a connection, or a connection is released.
pub enum ConnectionTrackerEvent {
    Admitted { creation_time: String, now: u128 },
    RequestSeen { id: usize },
    Released { id: usize, now: u128 },
}

impl ConnectionTrackerStateView {
    /// The tracker after `event`.
    pub open spec fn after_event(self, event: ConnectionTrackerEvent) -> Self {
        match event {
            ConnectionTrackerEvent::Admitted { creation_time, now } => self.add_connection(
                creation_time,
                now,
            ),
            ConnectionTrackerEvent::RequestSeen { id } => self.record_request(id),
            ConnectionTrackerEvent::Released { id, now } => self.remove_connection(id, now),
        }
    }

    /// The tracker after `events`, in their order.
    pub open spec fn after_events(self, events: Seq<ConnectionTrackerEvent>) -> Self
        decreases events.len(),
    {
        if events.len() == 0 {
            self
        } else {
            self.after_events(events.drop_last()).after_event(events.last())
        }
    }

    /// The largest number of connections that are live at any point while
    /// `events` happen to the tracker, the start included.
    pub open spec fn peak_open(self, events: Seq<ConnectionTrackerEvent>) -> nat
        decreases events.len(),
    {
        if events.len() == 0 {
            self.live.len()
        } else {
            let before = self.peak_open(events.drop_last());
            let now_open = self.after_events(events).live.len();
            if before >= now_open {
                before
            } else {
                now_open
            }
        }
    }

    /// Admitting a connection keeps the invariant, moves the cursor on by
    /// one, and makes exactly one more connection live, under the new
    /// identifier.
    pub proof fn lemma_add_connection(self, creation_time: String, now: u128)
        requires
            self.wf(),
            self.previous_connection_id < usize::MAX,
        ensures
            self.add_connection(creation_time, now).wf(),
            self.add_connection(creation_time, now).previous_connection_id
                == self.previous_connection_id + 1,
            !self.live.contains_key((self.previous_connection_id + 1) as usize),
            self.add_connection(creation_time, now).live.dom() == self.live.dom().insert(
                (self.previous_connection_id + 1) as usize,
            ),
            self.add_connection(creation_time, now).live.len() == self.live.len() + 1,
    {
        ConnectionID::number_round_trip((self.previous_connection_id + 1) as usize);
    }

    /// Releasing a connection keeps the invariant and leaves the cursor
    /// where it is; the connection is not live afterwards, and no other
    /// connection is touched.
    pub proof fn lemma_remove_connection(self, id: usize, now: u128)
        requires
            self.wf(),
        ensures
            self.remove_connection(id, now).wf(),
            self.remove_connection(id, now).previous_connection_id == self.previous_connection_id,
            self.remove_connection(id, now).live == self.live.remove(id),
            self.remove_connection(id, now).live.len() <= self.live.len(),
    {
        assert(self.remove_connection(id, now).live =~= self.live.remove(id));
    }

    /// Counting a request keeps the invariant and touches nothing but the
    /// request count of the one connection.
    pub proof fn lemma_record_request(self, id: usize)
        requires
            self.wf(),
        ensures
            self.record_request(id).wf(),
            self.record_request(id).previous_connection_id == self.previous_connection_id,
            self.record_request(id).metrics == self.metrics,
            self.record_request(id).live.dom() == self.live.dom(),
            forall|other: usize|
                other != id && self.live.contains_key(other) ==> self.record_request(
                    id,
                ).live[other] == self.live[other],
    {
        assert(self.record_request(id).live.dom() =~= self.live.dom());
    }

    /// Releasing a connection a second time changes nothing: its record is
    /// taken out once and folded into the aggregates once.
    pub proof fn lemma_release_is_idempotent(self, id: usize, first: u128, second: u128)
        ensures
            self.remove_connection(id, first).remove_connection(id, second)
                == self.remove_connection(id, first),
    {
    }

    /// No event lowers an aggregate: the largest number of open connections,
    /// the longest lifetime and the largest request count never fall, and the
    /// shortest lifetime, once there is one, never rises.
    pub proof fn lemma_aggregates_are_monotone(self, event: ConnectionTrackerEvent)
        ensures
            self.after_event(event).metrics.max_open_connections
                >= self.metrics.max_open_connections,
            self.after_event(event).metrics.past_max_connection_age
                >= self.metrics.past_max_connection_age,
            self.after_event(event).metrics.past_max_requests_per_connection
                >= self.metrics.past_max_requests_per_connection,
            self.metrics.past_min_connection_age matches Some(before) ==> (self.after_event(
                event,
            ).metrics.past_min_connection_age matches Some(after) && after <= before),
    {
    }

    /// Over any sequence of admissions, requests and releases for which the
    /// identifiers suffice, the tracker keeps its invariant, has moved the
    /// cursor only forward, and reports as the largest number of open
    /// connections the larger of what it reported at the start and the peak
    /// number of live connections on the way.
    pub proof fn lemma_max_open_follows_peak(self, events: Seq<ConnectionTrackerEvent>)
        requires
            self.wf(),
            self.previous_connection_id + events.len() <= usize::MAX,
        ensures
            self.after_events(events).wf(),
            self.previous_connection_id <= self.after_events(events).previous_connection_id
                <= self.previous_connection_id + events.len(),
            self.peak_open(events) >= self.live.len(),
            self.peak_open(events) >= self.after_events(events).live.len(),
            self.after_events(events).metrics.max_open_connections == if self.metrics.max_open_connections
                >= self.peak_open(events) {
                self.metrics.max_open_connections as nat
            } else {
                self.peak_open(events)
            },
        decreases events.len(),
    {
        if events.len() > 0 {
            let before = self.after_events(events.drop_last());
            self.lemma_max_open_follows_peak(events.drop_last());
            match events.last() {
                ConnectionTrackerEvent::Admitted { creation_time, now } => {
                    before.lemma_add_connection(creation_time, now);
                },
                ConnectionTrackerEvent::RequestSeen { id } => {
                    before.lemma_record_request(id);
                },
                ConnectionTrackerEvent::Released { id, now } => {
                    before.lemma_remove_connection(id, now);
                },
            }
        }
    }

    /// For a tracker that starts empty, the largest number of open
    /// connections that it reports after any sequence of admissions,
    /// requests and releases is the largest number of connections that were
    /// live at any point of the sequence.
    pub proof fn lemma_max_open_is_historical_maximum(events: Seq<ConnectionTrackerEvent>)
        requires
            events.len() <= usize::MAX,
        ensures
            Self::initial().after_events(events).wf(),
            Self::initial().after_events(events).metrics.max_open_connections
                == Self::initial().peak_open(events),
    {
        Self::initial().lemma_max_open_follows_peak(events);
    }
}

/// Whether `connections` lists the records of `live`, each exactly once.
pub open spec fn holds_each_once(
    connections: Seq<ConnectionInfo>,
    live: Map<usize, ConnectionInfo>,
) -> bool {
    &&& connections.len() == live.len()
    &&& forall|i: int|
        0 <= i < connections.len() ==> live.contains_key(#[trigger] connections[i].id@)
            && live[connections[i].id@] == connections[i]
    &&& forall|i: int, j: int|
        0 <= i < j < connections.len() ==> connections[i].id@ != connections[j].id@
}

/// The live connections and the aggregates over the closed ones.
pub struct ConnectionTrackerState {
    previous_connection_id: usize,
    id_to_connection_info: HashMap<usize, ConnectionInfo>,
    metrics: ConnectionTrackerMetrics,
}

impl View for ConnectionTrackerState {
    type V = ConnectionTrackerStateView;

    closed spec fn view(&self) -> ConnectionTrackerStateView {
        ConnectionTrackerStateView {
            previous_connection_id: self.previous_connection_id,
            live: self.id_to_connection_info@,
            metrics: self.metrics,
        }
    }
}

impl ConnectionTrackerState {
    /// The invariant of the tracker, see [`ConnectionTrackerStateView::wf`].
    pub open spec fn wf(&self) -> bool {
        self@.wf()
    }

    /// A tracker that has seen nothing.
    pub fn new() -> (state: Self)
        ensures
            state.wf(),
            state@ == ConnectionTrackerStateView::initial(),
    {
        ConnectionTrackerState {
            previous_connection_id: 0,
            id_to_connection_info: HashMap::new(),
            metrics: ConnectionTrackerMetrics::new(),
        }
    }

    fn next_connection_id(&mut self) -> (connection_id: ConnectionID)
        requires
            old(self).previous_connection_id < usize::MAX,
        ensures
            connection_id@ == old(self).previous_connection_id + 1,
            connection_id == ConnectionID::from_number(connection_id@),
            final(self).previous_connection_id == connection_id@,
            final(self).id_to_connection_info == old(self).id_to_connection_info,
            final(self).metrics == old(self).metrics,
    {
        let connection_id = self.previous_connection_id + 1;
        self.previous_connection_id = connection_id;
        ConnectionID::new(connection_id)
    }

    /// Admits a connection at the clock reading `now`: gives it the next
    /// identifier, files a fresh record under it and raises the largest
    /// number of open connections if it is now exceeded.
    pub fn add_connection(&mut self, creation_time: String, now: u128) -> (guard: ConnectionGuard)
        requires
            old(self).wf(),
            old(self)@.previous_connection_id < usize::MAX,
        ensures
            final(self).wf(),
            final(self)@ == old(self)@.add_connection(creation_time, now),
            guard.id@ == old(self)@.previous_connection_id + 1,
    {
        let connection_id = self.next_connection_id();
        let connection_info = ConnectionInfo::new(connection_id, creation_time, now);
        self.id_to_connection_info.insert(connection_id.as_usize(), connection_info);
        let new_num_connections = self.id_to_connection_info.len();
        self.metrics.update_for_new_connection(new_num_connections);
        ConnectionGuard::new(connection_id)
    }

    /// Releases the connection `connection_id` at the clock reading `now`:
    /// takes its record out of the live connections and folds its age and
    /// request count into the aggregates. Does nothing if the connection is
    /// not live.
    pub fn remove_connection(&mut self, connection_id: ConnectionID, now: u128)
        requires
            old(self).wf(),
        ensures
            final(self).wf(),
            final(self)@ == old(self)@.remove_connection(connection_id@, now),
    {
        let id = connection_id.as_usize();
        if let Some(connection_info) = self.id_to_connection_info.remove(&id) {
            self.metrics.update_for_removed_connection(&connection_info, now);
        }
        assert(self@.live =~= old(self)@.remove_connection(id, now).live);
    }

    /// Counts one more request on the connection `connection_id`. Does
    /// nothing if the connection is not live.
    pub fn increment_num_requests(&mut self, connection_id: ConnectionID)
        requires
            old(self).wf(),
        ensures
            final(self).wf(),
            final(self)@ == old(self)@.record_request(connection_id@),
    {
        let id = connection_id.as_usize();
        if let Some(connection_info) = self.id_to_connection_info.remove(&id) {
            let counted = ConnectionInfo {
                num_requests: count_once_more(connection_info.num_requests),
                ..connection_info
            };
            self.id_to_connection_info.insert(id, counted);
        }
        assert(self@.live =~= old(self)@.record_request(id).live);
    }

    /// The number of requests seen on the connection `connection_id`, if it
    /// is live.
    pub fn num_requests(&self, connection_id: ConnectionID) -> (count: Option<usize>)
        ensures
            count == if self@.live.contains_key(connection_id@) {
                Some(self@.live[connection_id@].num_requests)
            } else {
                None
            },
    {
        let id = connection_id.as_usize();
        match self.id_to_connection_info.get(&id) {
            Some(connection_info) => Some(connection_info.num_requests()),
            None => None,
        }
    }

    /// Copies of the records of the live connections, each exactly once, in
    /// no particular order.
    pub fn open_connections(&self) -> (connections: Vec<ConnectionInfo>)
        requires
            self.wf(),
        ensures
            holds_each_once(connections@, self@.live),
    {
        let mut connections: Vec<ConnectionInfo> = Vec::new();
        let ghost entries = self.id_to_connection_info.iter().remaining();
        for entry in it: self.id_to_connection_info.iter()
            invariant
                it.seq() == entries,
                entries.no_duplicates(),
                connections.len() == it.index(),
                forall|j: int| 0 <= j < connections.len() ==> connections[j] == *entries[j].1,
        {
            connections.push(entry.1.clone());
        }
        proof {
            let live = self@.live;
            assert forall|i: int, j: int| 0 <= i < j < connections.len() implies connections[i].id@
                != connections[j].id@ by {
                assert(live.contains_key(*entries[i].0) && live[*entries[i].0] == *entries[i].1);
                assert(live.contains_key(*entries[j].0) && live[*entries[j].0] == *entries[j].1);
                if *entries[i].0 == *entries[j].0 {
                    assert(entries[i] == entries[j]);
                }
            }
            assert forall|i: int| 0 <= i < connections.len() implies live.contains_key(
                #[trigger] connections[i].id@,
            ) && live[connections[i].id@] == connections[i] by {
                assert(live.contains_key(*entries[i].0) && live[*entries[i].0] == *entries[i].1);
            }
        }
        connections
    }

    /// Whether an identifier is left for another connection.
    pub fn has_free_identifier(&self) -> (free: bool)
        ensures
            free == (self@.previous_connection_id < usize::MAX),
    {
        self.previous_connection_id < usize::MAX
    }

    /// The number of live connections.
    pub fn num_open_connections(&self) -> (count: usize)
        ensures
            count == self@.live.len(),
    {
        self.id_to_connection_info.len()
    }

    /// The largest number of connections that were open at the same time.
    pub fn max_open_connections(&self) -> (count: usize)
        ensures
            count == self@.metrics.max_open_connections,
    {
        self.metrics.max_open_connections
    }

    /// The shortest lifetime of a closed connection in nanoseconds, zero if
    /// none has closed.
    pub fn min_connection_lifetime(&self) -> (lifetime: u128)
        ensures
            lifetime == match self@.metrics.past_min_connection_age {
                Some(past_min) => past_min,
                None => 0,
            },
    {
        match self.metrics.past_min_connection_age {
            Some(past_min_connection_age) => past_min_connection_age,
            None => 0,
        }
    }

    /// The longest lifetime of a closed connection in nanoseconds, zero if
    /// none has closed.
    pub fn max_connection_lifetime(&self) -> (lifetime: u128)
        ensures
            lifetime == self@.metrics.past_max_connection_age,
    {
        self.metrics.past_max_connection_age
    }

    /// The largest number of requests that a closed connection had served.
    pub fn max_requests_per_connection(&self) -> (count: usize)
        ensures
            count == self@.metrics.past_max_requests_per_connection,
    {
        self.metrics.past_max_requests_per_connection
    }
}

impl Default for ConnectionTrackerState {
    fn default() -> (state: Self)
        ensures
            state.wf(),
            state@ == ConnectionTrackerStateView::initial(),
    {
        Self::new()
    }
}

} // verus!
