use runtimed::message::{execute_request_content, write_header, write_object};
use runtimed::wire::MessageEnvelope;

fn json(b: &[u8]) -> serde_json::Value {
    serde_json::from_slice(b).unwrap()
}

#[test]
fn header_document() {
    let h = json(&write_header("m1", "status", "s1", "2024-01-01"));
    assert_eq!(h["msg_id"], "m1");
    assert_eq!(h["msg_type"], "status");
    assert_eq!(h["session"], "s1");
    assert_eq!(h["username"], "runtimed");
    assert_eq!(h["date"], "2024-01-01");
    assert_eq!(h["version"], "5.3");
}

#[test]
fn execute_content_document() {
    let c = execute_request_content("print(\"hi\")\n");
    let v = json(&c);
    assert_eq!(v["code"], "print(\"hi\")\n");
    assert_eq!(v["silent"], false);
    assert_eq!(v["store_history"], true);
    assert_eq!(v["user_expressions"], serde_json::Value::Object(serde_json::Map::new()));
    assert_eq!(v["allow_stdin"], false);
}

#[test]
fn object_writer_exact_text() {
    let r = write_object(&vec!["a", "b"], &vec![b"1".to_vec(), b"true".to_vec()]);
    assert_eq!(String::from_utf8(r).unwrap(), "{\"a\":1,\"b\":true}");
    assert_eq!(write_object(&Vec::new(), &Vec::new()), b"{}".to_vec());
}

#[test]
fn construct_fresh_ids_differ() {
    let ida = uuid::Uuid::new_v4().to_string();
    let idb = uuid::Uuid::new_v4().to_string();
    let a = MessageEnvelope::construct_with("kernel_info_request", b"{}".to_vec(), None, "s", &ida, "d");
    let b = MessageEnvelope::construct_with("kernel_info_request", b"{}".to_vec(), None, "s", &idb, "d");
    assert_eq!(a.header_str("msg_id"), Some(ida));
    assert_ne!(a.header_str("msg_id"), b.header_str("msg_id"));
    assert_eq!(a.header_str("msg_type"), Some("kernel_info_request".to_string()));
    assert_eq!(a.parent_header, b"{}".to_vec());
    assert_eq!(a.metadata, b"{}".to_vec());
}

#[test]
fn reply_correlation_by_id() {
    let q = MessageEnvelope::construct_with("execute_request", b"{}".to_vec(), None, "s", "q1", "d");
    let x = MessageEnvelope::construct_with("execute_reply", b"{}".to_vec(), Some(&q), "s", "x1", "d");
    let other = MessageEnvelope::construct_with("execute_request", b"{}".to_vec(), None, "s", "q2", "d");
    let y = MessageEnvelope::construct_with("execute_reply", b"{}".to_vec(), Some(&other), "s", "y1", "d");
    assert!(x.is_reply_to(&q));
    assert!(!y.is_reply_to(&q));
    assert!(!q.is_reply_to(&q));
    assert_eq!(x.parent_str("msg_id"), Some("q1".to_string()));
}

#[test]
fn shutdown_signal_detection() {
    let req = MessageEnvelope::construct_with("shutdown_request", b"{}".to_vec(), None, "s", "q", "d");
    let idle = MessageEnvelope::construct_with(
        "status",
        b"{\"execution_state\":\"idle\"}".to_vec(),
        Some(&req),
        "s",
        "x",
        "d",
    );
    let busy = MessageEnvelope::construct_with(
        "status",
        b"{\"execution_state\":\"busy\"}".to_vec(),
        Some(&req),
        "s",
        "y",
        "d",
    );
    let other = MessageEnvelope::construct_with(
        "status",
        b"{\"execution_state\":\"idle\"}".to_vec(),
        None,
        "s",
        "z",
        "d",
    );
    assert!(idle.is_shutdown_signal());
    assert!(!busy.is_shutdown_signal());
    assert!(!other.is_shutdown_signal());
}

#[test]
fn documents_match_serde_json_compact_form() {
    let c = execute_request_content("1+1");
    let reparsed = serde_json::to_vec(&json(&c)).unwrap();
    assert_eq!(c, reparsed);
    let h = write_header("m1", "status", "s1", "2024-01-01");
    assert_eq!(h, serde_json::to_vec(&json(&h)).unwrap());
}
