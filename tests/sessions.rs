use runtimed::ingest::{IngestLoop, IngestStep};
use runtimed::message::execute_request_content;
use runtimed::session::{
    await_reply_step, decimal, execute_request_with, heartbeat_echoed, listen_step,
    AttachAction, AttachEvent, AttachPhase, AttachPlan, ExecuteStep, JupyterRuntime, ListenStep, Role,
    RuntimeError,
};
use runtimed::wire::{MessageEnvelope, ProtocolError};

fn descriptor() -> JupyterRuntime {
    JupyterRuntime {
        id: "00000000-0000-0000-0000-000000000000".to_string(),
        shell_port: 1,
        iopub_port: 2,
        stdin_port: 3,
        control_port: 4,
        hb_port: 5,
        kernel_name: "python3".to_string(),
        ip: "127.0.0.1".to_string(),
        key: b"abc".to_vec(),
        transport: "tcp".to_string(),
        signature_scheme: "hmac-sha256".to_string(),
        connection_file: String::new(),
        state: String::new(),
        kernel_info: Vec::new(),
    }
}

fn status(id: &str, parent: Option<&MessageEnvelope>) -> MessageEnvelope {
    MessageEnvelope::construct_with("status", b"{\"execution_state\":\"busy\"}".to_vec(), parent, "s", id, "d")
}

#[test]
fn decimal_text() {
    assert_eq!(decimal(0), "0");
    assert_eq!(decimal(7), "7");
    assert_eq!(decimal(10), "10");
    assert_eq!(decimal(65535), "65535");
}

#[test]
fn endpoints_per_role() {
    let d = descriptor();
    assert_eq!(d.endpoint(Role::Shell), "tcp://127.0.0.1:1");
    assert_eq!(d.endpoint(Role::Iopub), "tcp://127.0.0.1:2");
    assert_eq!(d.endpoint(Role::Heartbeat), "tcp://127.0.0.1:5");
}

#[test]
fn ports_must_be_role_distinct() {
    let mut d = descriptor();
    assert!(d.has_distinct_ports());
    d.hb_port = 1;
    assert!(!d.has_distinct_ports());
    d.hb_port = 5;
    d.control_port = 3;
    assert!(!d.has_distinct_ports());
}

#[test]
fn attach_opens_all_five() {
    let (mut plan, first) = AttachPlan::start();
    let mut actions = vec![first];
    loop {
        let a = plan.step(AttachEvent::Connected);
        actions.push(a);
        if a == AttachAction::Attached {
            break;
        }
    }
    assert_eq!(
        actions,
        vec![
            AttachAction::Connect(Role::Iopub),
            AttachAction::Connect(Role::Shell),
            AttachAction::Connect(Role::Stdin),
            AttachAction::Connect(Role::Control),
            AttachAction::Connect(Role::Heartbeat),
            AttachAction::Attached,
        ]
    );
    assert_eq!(plan.opened, 5);
}

#[test]
fn attach_failure_at_each_step_closes_everything() {
    let order = [Role::Iopub, Role::Shell, Role::Stdin, Role::Control, Role::Heartbeat];
    for k in 0..5usize {
        let (mut plan, _) = AttachPlan::start();
        let mut open: Vec<Role> = Vec::new();
        for i in 0..k {
            open.push(order[i]);
            plan.step(AttachEvent::Connected);
        }
        let mut a = plan.step(AttachEvent::ConnectFailed);
        while let AttachAction::Close(r) = a {
            assert_eq!(open.pop(), Some(r));
            a = plan.step(AttachEvent::Closed);
        }
        assert_eq!(a, AttachAction::Failed);
        assert!(open.is_empty());
        assert_eq!(plan.opened, 0);
        assert_eq!(plan.phase, AttachPhase::Failed);
    }
}

#[test]
fn attach_ignores_out_of_phase_events() {
    let (mut plan, _) = AttachPlan::start();
    assert_eq!(plan.step(AttachEvent::Closed), AttachAction::Ignore);
    assert_eq!(plan.opened, 0);
}

#[test]
fn heartbeat_echo() {
    assert!(heartbeat_echoed(b"ping", b"ping"));
    assert!(!heartbeat_echoed(b"ping", b"pong"));
}

#[test]
fn execute_waits_for_the_correlated_reply() {
    let q = execute_request_with("1+1", "s", "q1", "d");
    let unrelated = status("u1", None);
    let x = MessageEnvelope::construct_with("execute_reply", b"{\"status\":\"ok\"}".to_vec(), Some(&q), "s", "x1", "d");
    assert!(matches!(await_reply_step(&q, Ok(unrelated)), ExecuteStep::Skip));
    match await_reply_step(&q, Ok(x)) {
        ExecuteStep::Reply(r) => assert_eq!(r.header_str("msg_id"), Some("x1".to_string())),
        _ => panic!("reply not recognised"),
    }
    assert!(matches!(
        await_reply_step(&q, Err(RuntimeError::ConnectionClosed)),
        ExecuteStep::Fail(RuntimeError::ConnectionClosed)
    ));
}

#[test]
fn listen_stops_on_shutdown_or_loss() {
    let req = MessageEnvelope::construct_with("shutdown_request", b"{}".to_vec(), None, "s", "q", "d");
    let idle = MessageEnvelope::construct_with(
        "status",
        b"{\"execution_state\":\"idle\"}".to_vec(),
        Some(&req),
        "s",
        "x",
        "d",
    );
    assert_eq!(listen_step(&Ok(idle)), ListenStep::Shutdown);
    assert_eq!(listen_step(&Ok(status("y", Some(&req)))), ListenStep::Continue);
    assert_eq!(
        listen_step(&Err(RuntimeError::Protocol(ProtocolError::SignatureMismatch))),
        ListenStep::Lost(RuntimeError::Protocol(ProtocolError::SignatureMismatch))
    );
}

#[test]
fn ingestion_continues_after_append_failure() {
    let parent = execute_request_with("1+1", "s", "q1", "d");
    let mut lp = IngestLoop::new("rt-1".to_string(), 100);
    let mut rows = Vec::new();
    for i in 0..4 {
        let e = status(&format!("m{}", i), Some(&parent));
        match lp.on_receive(Ok(e), format!("t{}", i)) {
            IngestStep::Append(rec) => {
                assert_eq!(rec.runtime_id, "rt-1");
                assert_eq!(rec.msg_id, Some(format!("m{}", i)));
                assert_eq!(rec.msg_type, Some("status".to_string()));
                assert_eq!(rec.parent_msg_id, Some("q1".to_string()));
                assert_eq!(rec.parent_msg_type, Some("execute_request".to_string()));
                assert_eq!(rec.created_at, format!("t{}", i));
                rows.push(rec.row_id);
            }
            IngestStep::Stop(_) => panic!("loop stopped"),
        }
        let outcome = if i == 1 { Err(RuntimeError::AppendError) } else { Ok(()) };
        lp.on_append_result(outcome);
    }
    assert_eq!(rows, vec![100, 101, 102, 103]);
    assert_eq!(lp.appended, 3);
    assert_eq!(lp.failed, 1);
}

#[test]
fn ingestion_ends_on_receive_failure() {
    let mut lp = IngestLoop::new("rt".to_string(), 0);
    assert!(matches!(
        lp.on_receive(Err(RuntimeError::ConnectionClosed), String::new()),
        IngestStep::Stop(RuntimeError::ConnectionClosed)
    ));
    assert!(matches!(
        lp.on_receive(Ok(status("a", None)), String::new()),
        IngestStep::Stop(RuntimeError::ConnectionClosed)
    ));
    assert_eq!(lp.next_row, 0);
}

#[test]
fn attach_then_execute_scenario() {
    let d = descriptor();
    let (mut plan, first) = AttachPlan::start();
    let mut endpoints = Vec::new();
    let mut a = first;
    while let AttachAction::Connect(role) = a {
        endpoints.push(d.endpoint(role));
        a = plan.step(AttachEvent::Connected);
    }
    assert_eq!(a, AttachAction::Attached);
    assert_eq!(endpoints.len(), 5);

    let q = execute_request_with("1+1", "session", "req-1", "2024-01-01T00:00:00Z");
    let frames = q.encode(&d.key, &d.signature_scheme).unwrap();
    let sent = MessageEnvelope::decode(&frames, &d.key, &d.signature_scheme).unwrap();
    assert_eq!(sent.content_str("code"), Some("1+1".to_string()));
    assert_eq!(sent.content, execute_request_content("1+1"));

    let noise = status("n", None).encode(&d.key, &d.signature_scheme).unwrap();
    let reply = MessageEnvelope::construct_with("execute_reply", b"{\"status\":\"ok\"}".to_vec(), Some(&q), "k", "r1", "d");
    let reply_frames = reply.encode(&d.key, &d.signature_scheme).unwrap();
    let mut got = None;
    for f in [noise, reply_frames] {
        let m = MessageEnvelope::decode(&f, &d.key, &d.signature_scheme).map_err(RuntimeError::Protocol);
        if let ExecuteStep::Reply(r) = await_reply_step(&q, m) {
            got = Some(r);
            break;
        }
    }
    let r = got.unwrap();
    assert_eq!(r.content_str("status"), Some("ok".to_string()));
    assert!(r.is_reply_to(&q));
}
