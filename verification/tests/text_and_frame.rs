//! The text helpers, the progress-line framing and the document parse.

use nanocl_core::err::ErrorKind;
use nanocl_core::generic::GenericOrder;
use nanocl_core::nginx::{Nginx, NginxConfKind};
use nanocl_core::state::{
    json_escape, parse_state, stream_to_bytes, StateData, StateDocRaw, StateStream,
};
use nanocl_core::text::{bool_string, dec_string, gen_key, gen_vm_key};

#[test]
fn decimal_rendering() {
    assert_eq!(dec_string(0).as_str(), "0");
    assert_eq!(dec_string(7).as_str(), "7");
    assert_eq!(dec_string(10).as_str(), "10");
    assert_eq!(dec_string(512).as_str(), "512");
    assert_eq!(dec_string(18446744073709551615).as_str(), "18446744073709551615");
}

#[test]
fn boolean_rendering() {
    assert_eq!(bool_string(true).as_str(), "true");
    assert_eq!(bool_string(false).as_str(), "false");
}

#[test]
fn composed_keys() {
    assert_eq!(gen_key("global", "hello").as_str(), "hello.global");
    assert_eq!(gen_vm_key("global", "box").as_str(), "box.global.v");
}

#[test]
fn escaping() {
    assert_eq!(json_escape("plain").as_str(), "plain");
    assert_eq!(json_escape("a\"b").as_str(), "a\\\"b");
    assert_eq!(json_escape("a\\b").as_str(), "a\\\\b");
    assert_eq!(json_escape("line\nbreak\tand\rmore").as_str(), "line\\nbreak\\tand\\rmore");
    // The other control characters get their four-digit form.
    assert_eq!(json_escape("a\u{1}b").as_str(), "a\\u0001b");
    assert_eq!(json_escape("\u{1b}[0m").as_str(), "\\u001b[0m");
    assert_eq!(json_escape("\u{1f}").as_str(), "\\u001f");
}

#[test]
fn framing() {
    let m = StateStream::Msg(String::from("Created Cargo a"));
    assert_eq!(stream_to_bytes(&m).as_str(), "{\"Msg\":\"Created Cargo a\"}\r\n");
    let e = StateStream::Error(String::from("boom \"x\""));
    assert_eq!(stream_to_bytes(&e).as_str(), "{\"Error\":\"boom \\\"x\\\"\"}\r\n");
}

#[test]
fn parse_state_kinds() {
    let doc = StateDocRaw {
        kind: String::from("Deployment"),
        namespace: Some(String::from("demo")),
        cargoes: None,
        resources: None,
    };
    assert!(matches!(parse_state(doc), Ok(StateData::Deployment(_))));

    let doc = StateDocRaw {
        kind: String::from("Cargo"),
        namespace: None,
        cargoes: Some(Vec::new()),
        resources: None,
    };
    assert!(matches!(parse_state(doc), Ok(StateData::Cargo(_))));

    let doc = StateDocRaw {
        kind: String::from("Cargo"),
        namespace: None,
        cargoes: None,
        resources: None,
    };
    let err = parse_state(doc).err().unwrap();
    assert_eq!(err.kind, ErrorKind::Validation);
    assert_eq!(err.kind.status_code(), 400);

    let doc = StateDocRaw {
        kind: String::from("Resource"),
        namespace: None,
        cargoes: None,
        resources: Some(Vec::new()),
    };
    assert!(matches!(parse_state(doc), Ok(StateData::Resource(_))));

    let doc = StateDocRaw {
        kind: String::from("Job"),
        namespace: None,
        cargoes: None,
        resources: None,
    };
    let err = parse_state(doc).err().unwrap();
    assert_eq!(err.kind, ErrorKind::Validation);
}

#[test]
fn order_parse() {
    assert!(matches!(GenericOrder::from_str("asc"), Ok(GenericOrder::Asc)));
    assert!(matches!(GenericOrder::from_str("desc"), Ok(GenericOrder::Desc)));
    let err = GenericOrder::from_str("ASC").err().unwrap();
    assert_eq!(err.kind, ErrorKind::Validation);
}

#[test]
fn nginx_paths() {
    let nginx = Nginx::new("/etc/nginx");
    assert_eq!(
        nginx.gen_conf_path("my-site", &NginxConfKind::Site).as_str(),
        "/etc/nginx/sites-enabled/my-site.conf"
    );
    assert_eq!(
        nginx.gen_conf_path("my-stream", &NginxConfKind::Stream).as_str(),
        "/etc/nginx/streams-enabled/my-stream.conf"
    );
    let other = nanocl_core::nginx::new("/cfg");
    assert_eq!(other.conf_dir.as_str(), "/cfg");
}

#[test]
fn nginx_kind_parse() {
    assert!(matches!(NginxConfKind::from_str("Site"), Ok(NginxConfKind::Site)));
    assert!(matches!(NginxConfKind::from_str("site"), Ok(NginxConfKind::Site)));
    assert!(matches!(NginxConfKind::from_str("Stream"), Ok(NginxConfKind::Stream)));
    assert!(matches!(NginxConfKind::from_str("stream"), Ok(NginxConfKind::Stream)));
    let err = NginxConfKind::from_str("socket").err().unwrap();
    assert_eq!(err.kind, ErrorKind::Validation);
    assert_eq!(NginxConfKind::Site.to_text(), "Site");
    assert_eq!(NginxConfKind::Stream.to_text(), "Stream");
}
