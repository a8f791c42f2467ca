use ops_service::service::connection_service::internal::ConnectionTrackerState;
use ops_service::service::request_info_service::build_request_headers;
use ops_service::service::request_info_service::request_info;
use ops_service::service::request_info_service::version_name;
use ops_service::service::request_info_service::HttpVersion;
use ops_service::service::request_info_service::RequestHeader;
use ops_service::utils::request::CounterRequestId;

fn header(name: &str, value: Option<&str>) -> RequestHeader {
    RequestHeader {
        name: name.to_string(),
        value: value.map(|v| v.to_string()),
    }
}

fn pair(name: &str, value: &str) -> (String, String) {
    (name.to_string(), value.to_string())
}

#[test]
fn versions_have_their_names() {
    assert_eq!(version_name(HttpVersion::Http09), "HTTP/0.9");
    assert_eq!(version_name(HttpVersion::Http10), "HTTP/1.0");
    assert_eq!(version_name(HttpVersion::Http11), "HTTP/1.1");
    assert_eq!(version_name(HttpVersion::Http2), "HTTP/2.0");
    assert_eq!(version_name(HttpVersion::Http3), "HTTP/3.0");
    assert_eq!(version_name(HttpVersion::Other), "[Unknown]");
}

#[test]
fn headers_are_reported_by_name_in_order_of_first_occurrence() {
    let joined = build_request_headers(&vec![
        header("host", Some("example.org")),
        header("accept", Some("text/html")),
        header("user-agent", Some("curl/8")),
    ]);
    assert_eq!(
        joined,
        vec![
            pair("host", "example.org"),
            pair("accept", "text/html"),
            pair("user-agent", "curl/8"),
        ]
    );
}

#[test]
fn values_of_one_name_are_joined() {
    let joined = build_request_headers(&vec![
        header("accept", Some("text/html")),
        header("cookie", Some("a=1")),
        header("accept", Some("application/json")),
        header("cookie", Some("b=2")),
        header("accept", Some("*/*")),
    ]);
    assert_eq!(
        joined,
        vec![
            pair("accept", "text/html; application/json; */*"),
            pair("cookie", "a=1; b=2"),
        ]
    );
}

#[test]
fn a_value_that_is_not_text_is_unknown() {
    let joined = build_request_headers(&vec![
        header("x-raw", None),
        header("x-mixed", Some("ok")),
        header("x-mixed", None),
        header("x-raw", Some("later")),
    ]);
    assert_eq!(
        joined,
        vec![
            pair("x-raw", "[Unknown]; later"),
            pair("x-mixed", "ok; [Unknown]"),
        ]
    );
}

#[test]
fn no_headers_give_no_entries() {
    assert!(build_request_headers(&Vec::new()).is_empty());
}

#[test]
fn header_names_are_told_apart_exactly() {
    let joined = build_request_headers(&vec![
        header("a", Some("1")),
        header("A", Some("2")),
        header("a ", Some("3")),
        header("", Some("4")),
        header("", Some("")),
    ]);
    assert_eq!(
        joined,
        vec![pair("a", "1"), pair("A", "2"), pair("a ", "3"), pair("", "4; ")]
    );
}

#[test]
fn a_request_is_reported_with_its_connection() {
    let mut state = ConnectionTrackerState::new();
    state.add_connection(String::new(), 0);
    let guard = state.add_connection(String::new(), 0);
    let info = request_info(
        guard.id,
        "/api/request_info?x=1".to_string(),
        "GET".to_string(),
        HttpVersion::Http2,
        &vec![header("host", Some("localhost")), header("host", Some("other"))],
    );
    assert_eq!(info.request_fields.connection_id, 2);
    assert_eq!(info.request_fields.method, "GET");
    assert_eq!(info.request_fields.version, "HTTP/2.0");
    assert_eq!(info.request_fields.original_uri, "/api/request_info?x=1");
    assert_eq!(info.request_headers, vec![pair("host", "localhost; other")]);
}

#[test]
fn requests_are_numbered_from_zero() {
    let mut counter = CounterRequestId::new();
    assert_eq!(counter.make_request_id(), 0);
    assert_eq!(counter.make_request_id(), 1);
    assert_eq!(counter.make_request_id(), 2);
    let mut other = CounterRequestId::default();
    assert_eq!(other.make_request_id(), 0);
    assert_eq!(counter.make_request_id(), 3);
}

#[test]
fn the_build_is_reported_under_its_names() {
    let build = ops_service::service::version_service::BuildInfo {
        build_timestamp: "2024-01-02T03:04:05Z",
        cargo_debug: "false",
        cargo_opt_level: "3",
        cargo_pkg_version: "1.2.3",
        cargo_target_triple: "x86_64-unknown-linux-gnu",
        rustc_channel: "stable",
        rustc_semver: "1.80.0",
    };
    assert_eq!(
        ops_service::service::version_service::verison_info(&build),
        vec![
            ("build_timestamp", "2024-01-02T03:04:05Z"),
            ("cargo_debug", "false"),
            ("cargo_opt_level", "3"),
            ("cargo_pkg_version", "1.2.3"),
            ("cargo_target_triple", "x86_64-unknown-linux-gnu"),
            ("rustc_channel", "stable"),
            ("rustc_semver", "1.80.0"),
        ]
    );
}
