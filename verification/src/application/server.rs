//! The life of an accepted connection.
//!
//! A connection is served until it finishes or until it has outlived its
//! maximum lifetime. In the second case it is asked to shut down
//! gracefully and given a second, shorter time to finish; a connection that
//! has not finished by then is abandoned. The server races the connection
//! against the timers and reports what happened first; this module decides
//! what follows.

use crate::config::ServerConnectionConfiguration;
use crate::service::connection_service::counted_once_more;
use crate::service::connection_service::ConnectionCounterMetricName;
use crate::service::connection_service::ConnectionGuard;
use crate::service::connection_service::ConnectionTrackerService;
use crate::service::connection_service::ConnectionTrackerServiceImpl;
use std::time::Duration;
use vstd::prelude::*;

verus! {

/// Whether an accepted socket becomes a tracked connection. A socket on
/// which `TCP_NODELAY` was asked for and could not be set is passed over.
pub fn admits_socket(
    connection_configuration: &ServerConnectionConfiguration,
    set_nodelay_failed: bool,
) -> (admitted: bool)
    ensures
        admitted == !(connection_configuration.tcp_nodelay && set_nodelay_failed),
{
    !(connection_configuration.tcp_nodelay && set_nodelay_failed)
}

/// Where a connection stands.
#[derive(Clone, Copy, Debug, PartialEq, Eq, Structural)]
pub enum ConnectionPhase {
    /// The connection is served; the timer of the maximum lifetime runs.
    Serving,
    /// The connection was asked to shut down gracefully; the timer of the
    /// graceful shutdown runs.
    GracefulShutdownRequested,
    /// The connection finished or was abandoned.
    Closed,
}

/// What the race between a connection and its timer ended with.
#[derive(Clone, Copy, Debug, PartialEq, Eq, Structural)]
pub enum ConnectionEvent {
    /// The connection finished by itself, with a transport error or without.
    Finished { error: bool },
    /// The running timer elapsed first.
    TimeoutElapsed,
}

/// What follows from an event.
#[derive(Clone, Copy, Debug, PartialEq, Eq, Structural)]
pub struct ConnectionStep {
    /// Where the connection stands afterwards.
    pub phase: ConnectionPhase,
    /// The counter that the event is counted in, if any.
    pub counter: Option<ConnectionCounterMetricName>,
    /// Whether the connection is to be told to shut down gracefully.
    pub graceful_shutdown: bool,
    /// Whether the connection races the timer of the graceful shutdown next.
    pub rearm: bool,
    /// Whether the connection is done with and its guard is to be released.
    pub release: bool,
}

/// What follows when `event` happens to a connection in `phase`.
pub open spec fn connection_step(phase: ConnectionPhase, event: ConnectionEvent) -> ConnectionStep {
    match phase {
        ConnectionPhase::Closed => ConnectionStep {
            phase: ConnectionPhase::Closed,
            counter: None,
            graceful_shutdown: false,
            rearm: false,
            release: false,
        },
        ConnectionPhase::Serving => match event {
            ConnectionEvent::Finished { error } => ConnectionStep {
                phase: ConnectionPhase::Closed,
                counter: if error {
                    Some(ConnectionCounterMetricName::Errors)
                } else {
                    None
                },
                graceful_shutdown: false,
                rearm: false,
                release: true,
            },
            ConnectionEvent::TimeoutElapsed => ConnectionStep {
                phase: ConnectionPhase::GracefulShutdownRequested,
                counter: Some(ConnectionCounterMetricName::InitialTimeouts),
                graceful_shutdown: true,
                rearm: true,
                release: false,
            },
        },
        ConnectionPhase::GracefulShutdownRequested => match event {
            ConnectionEvent::Finished { error } => ConnectionStep {
                phase: ConnectionPhase::Closed,
                counter: if error {
                    Some(ConnectionCounterMetricName::Errors)
                } else {
                    None
                },
                graceful_shutdown: false,
                rearm: false,
                release: true,
            },
            ConnectionEvent::TimeoutElapsed => ConnectionStep {
                phase: ConnectionPhase::Closed,
                counter: Some(ConnectionCounterMetricName::FinalTimeouts),
                graceful_shutdown: true,
                rearm: false,
                release: true,
            },
        },
    }
}

/// Computes [`connection_step`].
pub fn next_connection_step(phase: ConnectionPhase, event: ConnectionEvent) -> (step:
    ConnectionStep)
    ensures
        step == connection_step(phase, event),
{
    match phase {
        ConnectionPhase::Closed => ConnectionStep {
            phase: ConnectionPhase::Closed,
            counter: None,
            graceful_shutdown: false,
            rearm: false,
            release: false,
        },
        ConnectionPhase::Serving => match event {
            ConnectionEvent::Finished { error } => finished_step(error),
            ConnectionEvent::TimeoutElapsed => ConnectionStep {
                phase: ConnectionPhase::GracefulShutdownRequested,
                counter: Some(ConnectionCounterMetricName::InitialTimeouts),
                graceful_shutdown: true,
                rearm: true,
                release: false,
            },
        },
        ConnectionPhase::GracefulShutdownRequested => match event {
            ConnectionEvent::Finished { error } => finished_step(error),
            ConnectionEvent::TimeoutElapsed => ConnectionStep {
                phase: ConnectionPhase::Closed,
                counter: Some(ConnectionCounterMetricName::FinalTimeouts),
                graceful_shutdown: true,
                rearm: false,
                release: true,
            },
        },
    }
}

/// The step of a connection that finished by itself.
fn finished_step(error: bool) -> (step: ConnectionStep)
    ensures
        step == connection_step(ConnectionPhase::Serving, ConnectionEvent::Finished { error }),
        step == connection_step(
            ConnectionPhase::GracefulShutdownRequested,
            ConnectionEvent::Finished { error },
        ),
{
    ConnectionStep {
        phase: ConnectionPhase::Closed,
        counter: if error {
            Some(ConnectionCounterMetricName::Errors)
        } else {
            None
        },
        graceful_shutdown: false,
        rearm: false,
        release: true,
    }
}

/// Where a connection that starts in `phase` stands after `events`.
pub open spec fn phase_after(phase: ConnectionPhase, events: Seq<ConnectionEvent>) -> ConnectionPhase
    decreases events.len(),
{
    if events.len() == 0 {
        phase
    } else {
        connection_step(phase_after(phase, events.drop_last()), events.last()).phase
    }
}

/// How often `events` are counted in the counter called `name`, for a
/// connection that starts in `phase`.
pub open spec fn times_counted(
    phase: ConnectionPhase,
    events: Seq<ConnectionEvent>,
    name: ConnectionCounterMetricName,
) -> nat
    decreases events.len(),
{
    if events.len() == 0 {
        0
    } else {
        let before = times_counted(phase, events.drop_last(), name);
        let step = connection_step(phase_after(phase, events.drop_last()), events.last());
        if step.counter == Some(name) {
            before + 1
        } else {
            before
        }
    }
}

/// How often the guard is to be released over `events`, for a connection
/// that starts in `phase`.
pub open spec fn times_released(phase: ConnectionPhase, events: Seq<ConnectionEvent>) -> nat
    decreases events.len(),
{
    if events.len() == 0 {
        0
    } else {
        let before = times_released(phase, events.drop_last());
        if connection_step(phase_after(phase, events.drop_last()), events.last()).release {
            before + 1
        } else {
            before
        }
    }
}

/// A counter after it counted `times` more events, held at the largest
/// value once it is reached.
pub open spec fn counted_more(count: usize, times: nat) -> usize
    decreases times,
{
    if times == 0 {
        count
    } else {
        counted_once_more(counted_more(count, (times - 1) as nat))
    }
}

/// Counting one event after the other adds up: a counter that counts the
/// steps of a run one by one has, after one more event, counted once more
/// if the step of that event is counted in it, and stands as it stood if
/// not.
pub proof fn lemma_counts_add_up(
    phase: ConnectionPhase,
    events: Seq<ConnectionEvent>,
    event: ConnectionEvent,
    name: ConnectionCounterMetricName,
    count: usize,
)
    ensures
        counted_more(count, times_counted(phase, events.push(event), name)) == if connection_step(
            phase_after(phase, events),
            event,
        ).counter == Some(name) {
            counted_once_more(counted_more(count, times_counted(phase, events, name)))
        } else {
            counted_more(count, times_counted(phase, events, name))
        },
{
    lemma_one_more_event(phase, events, event);
}

/// A closed connection stays closed, and nothing follows from what happens
/// to it.
pub proof fn lemma_closed_is_final(event: ConnectionEvent)
    ensures
        connection_step(ConnectionPhase::Closed, event) == (ConnectionStep {
            phase: ConnectionPhase::Closed,
            counter: None,
            graceful_shutdown: false,
            rearm: false,
            release: false,
        }),
{
}

/// The guard of a connection is released with the step that closes it, and
/// with no other: a connection is closed by exactly one of its finishing
/// and its final timeout.
pub proof fn lemma_release_closes(phase: ConnectionPhase, event: ConnectionEvent)
    ensures
        connection_step(phase, event).release <==> phase != ConnectionPhase::Closed
            && connection_step(phase, event).phase == ConnectionPhase::Closed,
        connection_step(phase, event).rearm <==> connection_step(phase, event).phase
            == ConnectionPhase::GracefulShutdownRequested,
{
}

/// Whatever happens to a connection and in whatever order: its guard is
/// released at most once, and exactly once if it ends up closed, which it
/// does with the second event at the latest; it is counted at most once in
/// each counter, as a final timeout only if it was counted as an initial
/// timeout before, and not both as an error and as a final timeout.
pub proof fn lemma_connection_runs(events: Seq<ConnectionEvent>)
    ensures
        times_released(ConnectionPhase::Serving, events) == if phase_after(
            ConnectionPhase::Serving,
            events,
        ) == ConnectionPhase::Closed {
            1nat
        } else {
            0nat
        },
        times_counted(ConnectionPhase::Serving, events, ConnectionCounterMetricName::Errors) <= 1,
        times_counted(ConnectionPhase::Serving, events, ConnectionCounterMetricName::FinalTimeouts)
            <= times_counted(
            ConnectionPhase::Serving,
            events,
            ConnectionCounterMetricName::InitialTimeouts,
        ) <= 1,
        phase_after(ConnectionPhase::Serving, events) == ConnectionPhase::Serving ==> events.len()
            == 0,
        events.len() >= 2 ==> phase_after(ConnectionPhase::Serving, events)
            == ConnectionPhase::Closed,
        phase_after(ConnectionPhase::Serving, events) == ConnectionPhase::GracefulShutdownRequested
            ==> times_counted(
            ConnectionPhase::Serving,
            events,
            ConnectionCounterMetricName::InitialTimeouts,
        ) == 1 && times_counted(
            ConnectionPhase::Serving,
            events,
            ConnectionCounterMetricName::FinalTimeouts,
        ) == 0 && times_counted(
            ConnectionPhase::Serving,
            events,
            ConnectionCounterMetricName::Errors,
        ) == 0,
        times_counted(ConnectionPhase::Serving, events, ConnectionCounterMetricName::Errors)
            + times_counted(
            ConnectionPhase::Serving,
            events,
            ConnectionCounterMetricName::FinalTimeouts,
        ) <= 1,
    decreases events.len(),
{
    if events.len() > 0 {
        lemma_connection_runs(events.drop_last());
    }
}

/// A connection that outlives its maximum lifetime and then finishes before
/// the graceful shutdown timeout is counted once as an initial timeout and
/// not as a final timeout; it ends up closed, its guard released once.
pub proof fn lemma_finished_after_initial_timeout(error: bool)
    ensures
        ({
            let events = seq![ConnectionEvent::TimeoutElapsed, ConnectionEvent::Finished { error }];
            &&& phase_after(ConnectionPhase::Serving, events) == ConnectionPhase::Closed
            &&& times_counted(
                ConnectionPhase::Serving,
                events,
                ConnectionCounterMetricName::InitialTimeouts,
            ) == 1
            &&& times_counted(
                ConnectionPhase::Serving,
                events,
                ConnectionCounterMetricName::FinalTimeouts,
            ) == 0
            &&& times_counted(ConnectionPhase::Serving, events, ConnectionCounterMetricName::Errors)
                == if error {
                1nat
            } else {
                0nat
            }
            &&& times_released(ConnectionPhase::Serving, events) == 1
            &&& forall|count: usize|
                counted_more(
                    count,
                    times_counted(
                        ConnectionPhase::Serving,
                        events,
                        ConnectionCounterMetricName::InitialTimeouts,
                    ),
                ) == counted_once_more(count)
            &&& forall|count: usize|
                counted_more(
                    count,
                    times_counted(
                        ConnectionPhase::Serving,
                        events,
                        ConnectionCounterMetricName::FinalTimeouts,
                    ),
                ) == count
        }),
{
    lemma_two_events(ConnectionEvent::TimeoutElapsed, ConnectionEvent::Finished { error });
    assert forall|count: usize| counted_more(count, 1) == counted_once_more(count) by {
        reveal_with_fuel(counted_more, 2);
    }
}

/// A connection that is still open when both timers have elapsed is counted
/// once as an initial timeout and once as a final timeout; it ends up
/// closed, its guard released once.
pub proof fn lemma_abandoned_after_both_timeouts()
    ensures
        ({
            let events = seq![ConnectionEvent::TimeoutElapsed, ConnectionEvent::TimeoutElapsed];
            &&& phase_after(ConnectionPhase::Serving, events) == ConnectionPhase::Closed
            &&& times_counted(
                ConnectionPhase::Serving,
                events,
                ConnectionCounterMetricName::InitialTimeouts,
            ) == 1
            &&& times_counted(
                ConnectionPhase::Serving,
                events,
                ConnectionCounterMetricName::FinalTimeouts,
            ) == 1
            &&& times_counted(ConnectionPhase::Serving, events, ConnectionCounterMetricName::Errors)
                == 0
            &&& times_released(ConnectionPhase::Serving, events) == 1
            &&& forall|count: usize|
                counted_more(
                    count,
                    times_counted(
                        ConnectionPhase::Serving,
                        events,
                        ConnectionCounterMetricName::InitialTimeouts,
                    ),
                ) == counted_once_more(count)
            &&& forall|count: usize|
                counted_more(
                    count,
                    times_counted(
                        ConnectionPhase::Serving,
                        events,
                        ConnectionCounterMetricName::FinalTimeouts,
                    ),
                ) == counted_once_more(count)
        }),
{
    lemma_two_events(ConnectionEvent::TimeoutElapsed, ConnectionEvent::TimeoutElapsed);
    assert forall|count: usize| counted_more(count, 1) == counted_once_more(count) by {
        reveal_with_fuel(counted_more, 2);
    }
}

/// One more event at the end of a run adds its step to the run.
pub proof fn lemma_one_more_event(
    phase: ConnectionPhase,
    events: Seq<ConnectionEvent>,
    event: ConnectionEvent,
)
    ensures
        ({
            let step = connection_step(phase_after(phase, events), event);
            &&& phase_after(phase, events.push(event)) == step.phase
            &&& forall|name: ConnectionCounterMetricName|
                times_counted(phase, events.push(event), name) == times_counted(
                    phase,
                    events,
                    name,
                ) + (if step.counter == Some(name) {
                    1nat
                } else {
                    0nat
                })
            &&& times_released(phase, events.push(event)) == times_released(phase, events) + (
            if step.release {
                1nat
            } else {
                0nat
            })
        }),
{
    assert(events.push(event).drop_last() =~= events);
    assert(events.push(event).last() == event);
}

/// Unfolds a run of two events into its two steps.
proof fn lemma_two_events(first: ConnectionEvent, second: ConnectionEvent)
    ensures
        ({
            let events = seq![first, second];
            let middle = connection_step(ConnectionPhase::Serving, first);
            let end = connection_step(middle.phase, second);
            &&& phase_after(ConnectionPhase::Serving, events) == end.phase
            &&& forall|name: ConnectionCounterMetricName|
                times_counted(ConnectionPhase::Serving, events, name) == (if middle.counter
                    == Some(name) {
                    1nat
                } else {
                    0nat
                }) + (if end.counter == Some(name) {
                    1nat
                } else {
                    0nat
                })
            &&& times_released(ConnectionPhase::Serving, events) == (if middle.release {
                1nat
            } else {
                0nat
            }) + (if end.release {
                1nat
            } else {
                0nat
            })
        }),
{
    let none = Seq::<ConnectionEvent>::empty();
    lemma_one_more_event(ConnectionPhase::Serving, none, first);
    lemma_one_more_event(ConnectionPhase::Serving, none.push(first), second);
    assert(seq![first, second] =~= none.push(first).push(second));
}

/// An accepted connection on its way through the timeouts.
#[derive(Debug)]
pub struct Connection {
    connection_guard: ConnectionGuard,
    max_lifetime: Duration,
    graceful_shutdown_timeout: Duration,
    phase: ConnectionPhase,
}

impl Connection {
    /// Where the connection stands.
    pub closed spec fn spec_phase(&self) -> ConnectionPhase {
        self.phase
    }

    /// The guard of the connection.
    pub closed spec fn spec_guard(&self) -> ConnectionGuard {
        self.connection_guard
    }

    /// The two timeouts of the connection, in the order in which they run.
    pub closed spec fn timeouts(&self) -> (Duration, Duration) {
        (self.max_lifetime, self.graceful_shutdown_timeout)
    }

    /// A connection that is about to be served.
    pub fn new(
        connection_guard: ConnectionGuard,
        connection_configuration: &ServerConnectionConfiguration,
    ) -> (connection: Self)
        ensures
            connection.spec_phase() == ConnectionPhase::Serving,
            connection.spec_guard() == connection_guard,
            connection.timeouts() == (
                connection_configuration.max_lifetime,
                connection_configuration.graceful_shutdown_timeout,
            ),
    {
        Connection {
            connection_guard,
            max_lifetime: connection_configuration.max_lifetime,
            graceful_shutdown_timeout: connection_configuration.graceful_shutdown_timeout,
            phase: ConnectionPhase::Serving,
        }
    }

    /// Where the connection stands.
    #[verifier::when_used_as_spec(spec_phase)]
    pub fn phase(&self) -> (phase: ConnectionPhase)
        ensures
            phase == self.spec_phase(),
    {
        self.phase
    }

    /// The guard of the connection.
    pub fn guard(&self) -> (guard: &ConnectionGuard)
        ensures
            *guard == self.spec_guard(),
    {
        &self.connection_guard
    }

    /// The timeout that the connection races now: the maximum lifetime while
    /// it is served, the graceful shutdown timeout once it was asked to shut
    /// down, none when it is closed.
    pub fn timeout(&self) -> (timeout: Option<Duration>)
        ensures
            timeout == match self.spec_phase() {
                ConnectionPhase::Serving => Some(self.timeouts().0),
                ConnectionPhase::GracefulShutdownRequested => Some(self.timeouts().1),
                ConnectionPhase::Closed => None,
            },
    {
        match self.phase {
            ConnectionPhase::Serving => Some(self.max_lifetime),
            ConnectionPhase::GracefulShutdownRequested => Some(self.graceful_shutdown_timeout),
            ConnectionPhase::Closed => None,
        }
    }

    /// Counts one more request on the connection.
    pub fn request_received(&self, service: &mut ConnectionTrackerServiceImpl)
        requires
            old(service).wf(),
        ensures
            final(service).wf(),
            final(service).state() == old(service).state().record_request(self.spec_guard().id@),
            final(service).counter_metrics() == old(service).counter_metrics(),
    {
        self.connection_guard.increment_num_requests(service);
    }

    /// Takes what the race between the connection and its timer ended with,
    /// moves the connection on, counts the event where it counts, and says
    /// what the server is to do.
    pub fn on_event(&mut self, event: ConnectionEvent, service: &mut ConnectionTrackerServiceImpl) -> (step:
        ConnectionStep)
        ensures
            step == connection_step(old(self).spec_phase(), event),
            final(self).spec_phase() == step.phase,
            final(self).spec_guard() == old(self).spec_guard(),
            final(self).timeouts() == old(self).timeouts(),
            final(service).wf() == old(service).wf(),
            final(service).state() == old(service).state(),
            forall|name: ConnectionCounterMetricName|
                final(service).counter_metrics().count(name) == if step.counter == Some(name) {
                    counted_once_more(old(service).counter_metrics().count(name))
                } else {
                    old(service).counter_metrics().count(name)
                },
    {
        let step = next_connection_step(self.phase, event);
        self.phase = step.phase;
        match step.counter {
            Some(name) => {
                self.connection_guard.increment_counter_metric(service, name);
            },
            None => {},
        }
        step
    }

    /// Gives up the guard of the connection: the connection is released
    /// from the tracker now and is not live afterwards.
    pub fn release(self, service: &mut ConnectionTrackerServiceImpl)
        requires
            old(service).wf(),
        ensures
            final(service).wf(),
            exists|now: u128|
                final(service).state() == #[trigger] old(service).state().remove_connection(
                    self.spec_guard().id@,
                    now,
                ),
            !final(service).state().live.contains_key(self.spec_guard().id@),
            final(service).counter_metrics() == old(service).counter_metrics(),
    {
        let guard = self.connection_guard;
        assert(guard.id@ == self.spec_guard().id@);
        guard.release(service);
    }

    /// Whether the connection is closed: nothing more follows from it.
    pub fn is_closed(&self) -> (closed: bool)
        ensures
            closed == (self.spec_phase() == ConnectionPhase::Closed),
    {
        match self.phase {
            ConnectionPhase::Closed => true,
            _ => false,
        }
    }
}

} // verus!
