use sysmon_extract::request::{
    auth_header_of, basic_auth_header, event_code_text, output_path, search_url,
};
use sysmon_extract::schema::EventKind;

#[test]
fn basic_auth_header_of_a_user() {
    assert_eq!(basic_auth_header("user", "pass"), Some("Basic dXNlcjpwYXNz".to_string()));
    assert_eq!(
        basic_auth_header("elastic", "changeme"),
        Some("Basic ZWxhc3RpYzpjaGFuZ2VtZQ==".to_string())
    );
}

#[test]
fn basic_auth_header_pads_to_four_characters() {
    assert_eq!(basic_auth_header("", ""), Some("Basic Og==".to_string()));
    assert_eq!(basic_auth_header("a", ""), Some("Basic YTo=".to_string()));
    assert_eq!(basic_auth_header("a", "b"), Some("Basic YTpi".to_string()));
}

#[test]
fn basic_auth_header_uses_the_standard_alphabet() {
    assert_eq!(basic_auth_header("\u{3ef}", "\u{3ff}"), Some("Basic z686z78=".to_string()));
    assert_eq!(basic_auth_header("~~~", "???"), Some("Basic fn5+Oj8/Pw==".to_string()));
}

#[test]
fn password_may_hold_colons() {
    assert_eq!(basic_auth_header("u", "p:q"), Some("Basic dTpwOnE=".to_string()));
}

#[test]
fn auth_header_starts_with_basic() {
    assert_eq!(auth_header_of("dXNlcjpwYXNz"), "Basic dXNlcjpwYXNz");
    assert_eq!(auth_header_of(""), "Basic ");
}

#[test]
fn search_url_joins_base_index_and_endpoint() {
    assert_eq!(
        search_url("https://es.example:9200", ".ds-winlogbeat-8.8.1-2023.08.16-000001"),
        "https://es.example:9200/.ds-winlogbeat-8.8.1-2023.08.16-000001/_search"
    );
    assert_eq!(search_url("", ""), "//_search");
}

#[test]
fn event_codes_as_text() {
    assert_eq!(event_code_text(EventKind::ProcessCreate), "1");
    assert_eq!(event_code_text(EventKind::NetworkConnection), "3");
    assert_eq!(event_code_text(EventKind::ImageLoaded), "7");
    assert_eq!(event_code_text(EventKind::RegistryValueSet), "13");
    assert_eq!(event_code_text(EventKind::FileDeleteArchived), "23");
    for kind in [
        EventKind::ProcessCreate,
        EventKind::NetworkConnection,
        EventKind::ImageLoaded,
        EventKind::RegistryValueSet,
        EventKind::FileDeleteArchived,
    ] {
        assert_eq!(event_code_text(kind), kind.code().to_string());
    }
}

#[test]
fn output_path_is_location_code_suffix() {
    assert_eq!(
        output_path("/data/temp/event", EventKind::NetworkConnection, "_logs.csv"),
        "/data/temp/event3_logs.csv"
    );
    assert_eq!(
        output_path("/data/temp/event", EventKind::FileDeleteArchived, "_logs.csv"),
        "/data/temp/event23_logs.csv"
    );
    assert_eq!(output_path("", EventKind::ProcessCreate, ""), "1");
}
