use ops_service::config::host_is_external;
use ops_service::config::ServerConfiguration;
use ops_service::config::ServerConnectionConfiguration;
use ops_service::utils::time::current_timestamp_string;
use ops_service::utils::time::saturating_elapsed;
use ops_service::utils::time::system_time_to_string;
use ops_service::utils::time::timestamp_or_unknown;
use ops_service::utils::time::truncate_to_milliseconds;
use ops_service::utils::time::truncate_to_seconds;
use ops_service::utils::time::MonotonicClock;
use ops_service::utils::time::NANOS_PER_MILLISECOND;
use ops_service::utils::time::NANOS_PER_SECOND;
use std::time::Duration;
use std::time::SystemTime;

fn server_configuration(external_hosts: &[&str]) -> ServerConfiguration {
    ServerConfiguration {
        bind_address: "127.0.0.1:8080".to_string(),
        request_timeout: Duration::from_secs(10),
        context: "/api".to_string(),
        external_hosts: external_hosts.iter().map(|h| h.to_string()).collect(),
        connection: ServerConnectionConfiguration {
            max_lifetime: Duration::from_secs(60),
            graceful_shutdown_timeout: Duration::from_secs(5),
            tcp_nodelay: true,
        },
    }
}

#[test]
fn a_listed_host_is_external() {
    let configuration = server_configuration(&["www.example.org", "example.org"]);
    assert!(host_is_external(&configuration, "www.example.org"));
    assert!(host_is_external(&configuration, "example.org"));
}

#[test]
fn any_other_host_is_internal() {
    let configuration = server_configuration(&["www.example.org", "example.org"]);
    assert!(!host_is_external(&configuration, "localhost"));
    assert!(!host_is_external(&configuration, "example.org:8080"));
    assert!(!host_is_external(&configuration, "Example.org"));
    assert!(!host_is_external(&configuration, ""));
    assert!(!host_is_external(&server_configuration(&[]), "example.org"));
}

#[test]
fn elapsed_time_never_goes_below_zero() {
    assert_eq!(saturating_elapsed(10, 25), 15);
    assert_eq!(saturating_elapsed(25, 25), 0);
    assert_eq!(saturating_elapsed(25, 10), 0);
    assert_eq!(saturating_elapsed(0, u128::MAX), u128::MAX);
}

#[test]
fn seconds_are_cut_not_rounded() {
    assert_eq!(NANOS_PER_SECOND, 1_000_000_000);
    assert_eq!(truncate_to_seconds(0), 0);
    assert_eq!(truncate_to_seconds(999_999_999), 0);
    assert_eq!(truncate_to_seconds(1_000_000_000), 1);
    assert_eq!(truncate_to_seconds(61_999_999_999), 61);
    let longest = Duration::MAX.as_nanos();
    assert_eq!(truncate_to_seconds(longest), u64::MAX);
    assert_eq!(truncate_to_seconds(u128::MAX), u64::MAX);
}

#[test]
fn milliseconds_are_cut_not_rounded() {
    assert_eq!(NANOS_PER_MILLISECOND, 1_000_000);
    assert_eq!(truncate_to_milliseconds(0), 0);
    assert_eq!(truncate_to_milliseconds(999_999), 0);
    assert_eq!(truncate_to_milliseconds(1_000_000), 1);
    assert_eq!(truncate_to_milliseconds(2_500_000_000), 2500);
    assert_eq!(
        truncate_to_milliseconds(Duration::MAX.as_nanos()),
        Duration::MAX.as_millis()
    );
}

#[test]
fn a_time_without_rendering_is_unknown() {
    assert_eq!(timestamp_or_unknown(None), "UNKNOWN");
    assert_eq!(
        timestamp_or_unknown(Some("2024-01-02T03:04:05Z".to_string())),
        "2024-01-02T03:04:05Z"
    );
}

#[test]
fn a_wall_clock_time_is_rendered_with_its_date() {
    let midsummer_1970 = SystemTime::UNIX_EPOCH + Duration::from_secs(200 * 24 * 3600);
    let text = system_time_to_string(midsummer_1970);
    assert!(text.starts_with("1970-07-"), "{}", text);
    assert!(text.contains('T'), "{}", text);
}

#[test]
fn a_wall_clock_time_beyond_the_calendar_is_unknown() {
    let year_twenty_thousand = SystemTime::UNIX_EPOCH + Duration::from_secs(570_000_000_000);
    assert_eq!(system_time_to_string(year_twenty_thousand), "UNKNOWN");
}

#[test]
fn the_current_time_is_rendered() {
    let text = current_timestamp_string();
    assert_ne!(text, "UNKNOWN");
    assert!(text.len() >= "2024-01-02T03:04:05".len(), "{}", text);
    assert!(text.starts_with("20"), "{}", text);
}

#[test]
fn the_monotonic_clock_does_not_run_backwards() {
    let clock = MonotonicClock::start();
    let mut last = clock.elapsed_nanos();
    let mut moved = false;
    for _ in 0..10_000_000 {
        let next = clock.elapsed_nanos();
        assert!(next >= last, "{} then {}", last, next);
        if next > last {
            moved = true;
        }
        last = next;
        if moved && last > 1_000_000 {
            break;
        }
    }
    assert!(moved);
}
