use ops_service::application::server::admits_socket;
use ops_service::application::server::next_connection_step;
use ops_service::application::server::Connection;
use ops_service::application::server::ConnectionEvent;
use ops_service::application::server::ConnectionPhase;
use ops_service::application::server::ConnectionStep;
use ops_service::config::ServerConnectionConfiguration;
use ops_service::service::connection_service::new_connection_tracker_service;
use ops_service::service::connection_service::ConnectionCounterMetricName;
use ops_service::service::connection_service::ConnectionTrackerService;
use ops_service::service::connection_service::ConnectionTrackerServiceImpl;
use std::time::Duration;

fn configuration(tcp_nodelay: bool) -> ServerConnectionConfiguration {
    ServerConnectionConfiguration {
        max_lifetime: Duration::from_secs(120),
        graceful_shutdown_timeout: Duration::from_secs(5),
        tcp_nodelay,
    }
}

fn counts(service: &ConnectionTrackerServiceImpl) -> (usize, usize, usize) {
    let dto = service.state_snapshot_dto();
    (
        dto.connection_errors,
        dto.connection_initial_timeouts,
        dto.connection_final_timeouts,
    )
}

fn serving(service: &mut ConnectionTrackerServiceImpl) -> Connection {
    let guard = service.add_connection();
    Connection::new(guard, &configuration(false))
}

#[test]
fn a_connection_that_finishes_in_time_counts_nothing() {
    let mut service = new_connection_tracker_service();
    let mut connection = serving(&mut service);
    assert_eq!(connection.phase(), ConnectionPhase::Serving);
    let step = connection.on_event(ConnectionEvent::Finished { error: false }, &mut service);
    assert_eq!(
        step,
        ConnectionStep {
            phase: ConnectionPhase::Closed,
            counter: None,
            graceful_shutdown: false,
            rearm: false,
            release: true,
        }
    );
    assert!(connection.is_closed());
    assert_eq!(counts(&service), (0, 0, 0));
}

#[test]
fn a_connection_that_ends_in_error_counts_an_error() {
    let mut service = new_connection_tracker_service();
    let mut connection = serving(&mut service);
    let step = connection.on_event(ConnectionEvent::Finished { error: true }, &mut service);
    assert_eq!(step.counter, Some(ConnectionCounterMetricName::Errors));
    assert!(step.release);
    assert!(!step.graceful_shutdown);
    assert_eq!(counts(&service), (1, 0, 0));
}

#[test]
fn finishing_after_the_initial_timeout_counts_the_initial_timeout_only() {
    let mut service = new_connection_tracker_service();
    let mut connection = serving(&mut service);
    let step = connection.on_event(ConnectionEvent::TimeoutElapsed, &mut service);
    assert_eq!(
        step,
        ConnectionStep {
            phase: ConnectionPhase::GracefulShutdownRequested,
            counter: Some(ConnectionCounterMetricName::InitialTimeouts),
            graceful_shutdown: true,
            rearm: true,
            release: false,
        }
    );
    assert!(!connection.is_closed());
    assert_eq!(counts(&service), (0, 1, 0));
    let step = connection.on_event(ConnectionEvent::Finished { error: false }, &mut service);
    assert!(step.release);
    assert_eq!(step.counter, None);
    assert_eq!(connection.phase(), ConnectionPhase::Closed);
    assert_eq!(counts(&service), (0, 1, 0));
}

#[test]
fn a_connection_open_after_both_timeouts_counts_both_and_is_removed() {
    let mut service = new_connection_tracker_service();
    let other = service.add_connection();
    let mut connection = serving(&mut service);
    let id = connection.guard().id;
    let first = connection.on_event(ConnectionEvent::TimeoutElapsed, &mut service);
    let second = connection.on_event(ConnectionEvent::TimeoutElapsed, &mut service);
    assert!(!first.release);
    assert_eq!(
        second,
        ConnectionStep {
            phase: ConnectionPhase::Closed,
            counter: Some(ConnectionCounterMetricName::FinalTimeouts),
            graceful_shutdown: true,
            rearm: false,
            release: true,
        }
    );
    assert_eq!(counts(&service), (0, 1, 1));
    assert_eq!(service.num_requests(id), Some(0));
    connection.release(&mut service);
    assert_eq!(service.num_requests(id), None);
    let dto = service.state_snapshot_dto();
    assert_eq!(dto.num_open_connections, 1);
    assert_eq!(dto.open_connections[0].id, other.id.as_usize());
    assert_eq!(counts(&service), (0, 1, 1));
}

#[test]
fn an_error_after_the_initial_timeout_counts_both() {
    let mut service = new_connection_tracker_service();
    let mut connection = serving(&mut service);
    connection.on_event(ConnectionEvent::TimeoutElapsed, &mut service);
    let step = connection.on_event(ConnectionEvent::Finished { error: true }, &mut service);
    assert_eq!(step.counter, Some(ConnectionCounterMetricName::Errors));
    assert!(step.release);
    assert_eq!(counts(&service), (1, 1, 0));
}

#[test]
fn nothing_follows_from_a_closed_connection() {
    let mut service = new_connection_tracker_service();
    let mut connection = serving(&mut service);
    connection.on_event(ConnectionEvent::TimeoutElapsed, &mut service);
    connection.on_event(ConnectionEvent::TimeoutElapsed, &mut service);
    let quiet = ConnectionStep {
        phase: ConnectionPhase::Closed,
        counter: None,
        graceful_shutdown: false,
        rearm: false,
        release: false,
    };
    for event in [
        ConnectionEvent::TimeoutElapsed,
        ConnectionEvent::Finished { error: true },
        ConnectionEvent::Finished { error: false },
    ] {
        assert_eq!(connection.on_event(event, &mut service), quiet);
        assert_eq!(next_connection_step(ConnectionPhase::Closed, event), quiet);
    }
    assert_eq!(counts(&service), (0, 1, 1));
}

#[test]
fn each_counter_counts_every_connection() {
    let mut service = new_connection_tracker_service();
    for _ in 0..3 {
        let mut connection = serving(&mut service);
        connection.on_event(ConnectionEvent::TimeoutElapsed, &mut service);
        connection.on_event(ConnectionEvent::TimeoutElapsed, &mut service);
        connection.release(&mut service);
    }
    for _ in 0..2 {
        let mut connection = serving(&mut service);
        connection.on_event(ConnectionEvent::Finished { error: true }, &mut service);
        connection.release(&mut service);
    }
    assert_eq!(counts(&service), (2, 3, 3));
    let dto = service.state_snapshot_dto();
    assert_eq!(dto.num_open_connections, 0);
    assert_eq!(dto.max_open_connections, 1);
}

#[test]
fn the_timer_follows_the_phase() {
    let mut service = new_connection_tracker_service();
    let mut connection = serving(&mut service);
    assert_eq!(connection.timeout(), Some(Duration::from_secs(120)));
    connection.on_event(ConnectionEvent::TimeoutElapsed, &mut service);
    assert_eq!(connection.timeout(), Some(Duration::from_secs(5)));
    connection.on_event(ConnectionEvent::TimeoutElapsed, &mut service);
    assert_eq!(connection.timeout(), None);
}

#[test]
fn requests_are_counted_through_the_connection() {
    let mut service = new_connection_tracker_service();
    let connection = serving(&mut service);
    connection.request_received(&mut service);
    connection.request_received(&mut service);
    connection.request_received(&mut service);
    assert_eq!(connection.guard().num_requests(&service), 3);
    connection.release(&mut service);
    assert_eq!(service.state_snapshot_dto().max_requests_per_connection, 3);
}

#[test]
fn a_socket_is_passed_over_only_when_nodelay_was_wanted_and_failed() {
    assert!(admits_socket(&configuration(true), false));
    assert!(!admits_socket(&configuration(true), true));
    assert!(admits_socket(&configuration(false), false));
    assert!(admits_socket(&configuration(false), true));
}
