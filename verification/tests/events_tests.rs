use courtyard_core::events::{channel_of, line_reports_error, route_line, Payload};

#[test]
fn object_with_type_routes_to_typed_channel() {
    let ev = route_line("cleaning", "{\"type\":\"progress\",\"pct\":40}", None);
    assert_eq!(ev.channel.as_str(), "cleaning:progress");
    match ev.payload {
        Payload::Record(s) => assert_eq!(s.as_str(), "{\"type\":\"progress\",\"pct\":40}"),
        _ => panic!("expected a structured record"),
    }
    assert!(ev.corr.is_none());
}

#[test]
fn object_without_type_routes_to_unknown() {
    let ev = route_line("dataset", "{\"pct\":40}", None);
    assert_eq!(ev.channel.as_str(), "dataset:unknown");
    assert!(matches!(ev.payload, Payload::Record(_)));
}

#[test]
fn object_with_non_string_type_routes_to_unknown() {
    let ev = route_line("dataset", "{\"type\":7}", None);
    assert_eq!(ev.channel.as_str(), "dataset:unknown");
}

#[test]
fn json_scalar_routes_to_log() {
    let ev = route_line("export", "5", None);
    assert_eq!(ev.channel.as_str(), "export:log");
    match ev.payload {
        Payload::Log(s) => assert_eq!(s.as_str(), "5"),
        _ => panic!("expected a log payload"),
    }
}

#[test]
fn malformed_json_routes_to_log_byte_for_byte() {
    let line = "{oops\"  : trailing \\ text";
    let ev = route_line("inference", line, None);
    assert_eq!(ev.channel.as_str(), "inference:log");
    match ev.payload {
        Payload::Log(s) => assert_eq!(s.as_str(), line),
        _ => panic!("expected a log payload"),
    }
}

#[test]
fn plain_text_routes_to_log() {
    let ev = route_line("download", "fetching weights...", None);
    assert_eq!(ev.channel.as_str(), "download:log");
}

#[test]
fn empty_line_routes_to_log() {
    let ev = route_line("cleaning", "", None);
    assert_eq!(ev.channel.as_str(), "cleaning:log");
}

#[test]
fn correlation_key_is_carried() {
    let ev = route_line("export", "{\"type\":\"done\"}", Some(String::from("proj-1")));
    assert_eq!(ev.corr.as_deref(), Some("proj-1"));
}

#[test]
fn error_record_is_recognized() {
    assert!(line_reports_error("{\"type\":\"error\",\"message\":\"disk full\"}"));
    assert!(!line_reports_error("{\"type\":\"progress\"}"));
    assert!(!line_reports_error("{\"message\":\"error\"}"));
    assert!(!line_reports_error("error"));
    assert!(!line_reports_error("\"error\""));
}

#[test]
fn channel_name_is_prefix_colon_kind() {
    assert_eq!(channel_of("dataset", "version").as_str(), "dataset:version");
}
