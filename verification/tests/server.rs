use dotagent::daemon::local::{send_response_after, LocalReplyGate, Release};
use dotagent::local_api::framing::{
    BoundedLine, FedFrame, FrameReader, LineReader, MAX_FRAME_BYTES, MAX_LINE_BYTES,
};
use dotagent::local_api::protocol::{
    ClientMessage, MessageSendParams, ServerError, ServerEvent, ServerResponse,
    MAX_EVENT_QUEUE_BYTES,
};
use dotagent::local_api::server::{
    check_peer, consumes_quota, dispatch, ensure_bindable, message_answer, message_params,
    on_frame, reads_on, typed_request, value_answer, BindDecision, BindRefusal, ConnectionSlots,
    EventSendError, EventTx, FrameKind, FrameStep, LocalApiServer, PathState, PeerInfo, QueueSlot,
    Route, WriteOutcome,
};
use serde_json::Value;

fn json(text: &str) -> Value {
    serde_json::from_str(text).unwrap()
}

fn code(r: &ServerResponse) -> String {
    r.error.as_ref().unwrap().code.clone()
}

fn line(text: &str) -> BoundedLine {
    BoundedLine::Complete(text.as_bytes().to_vec())
}

fn request(step: FrameStep) -> (String, Value) {
    match step {
        FrameStep::Request { id, raw } => (id, raw),
        FrameStep::Respond { response, .. } => panic!("answered early: {response:?}"),
        FrameStep::Skip => panic!("skipped"),
    }
}

fn response(step: FrameStep) -> (ServerResponse, bool) {
    match step {
        FrameStep::Respond { response, close } => (response, close),
        FrameStep::Request { id, .. } => panic!("went on: {id}"),
        FrameStep::Skip => panic!("skipped"),
    }
}

#[test]
fn bind_replaces_a_stale_socket() {
    let d = ensure_bindable("/tmp/api.sock", PathState::Stale { owner: 501 }, 501);
    assert!(matches!(d, BindDecision::Sweep));
    let d = ensure_bindable("/tmp/api.sock", PathState::Missing, 501);
    assert!(matches!(d, BindDecision::Bind));
}

#[test]
fn bind_refuses_a_regular_file_at_the_socket_path() {
    match ensure_bindable("/tmp/api.sock", PathState::NotASocket, 501) {
        BindDecision::Refuse { kind, message } => {
            assert!(matches!(kind, BindRefusal::Occupied));
            assert!(message.contains("/tmp/api.sock"), "{message}");
        }
        _ => panic!("a regular file must not be replaced"),
    }
}

#[test]
fn bind_refuses_while_another_server_is_listening() {
    match ensure_bindable("/tmp/api.sock", PathState::Live, 501) {
        BindDecision::Refuse { kind, .. } => assert!(matches!(kind, BindRefusal::AddrInUse)),
        _ => panic!("a live socket must not be taken over"),
    }
}

#[test]
fn someone_elses_dead_socket_is_left_alone() {
    match ensure_bindable("/tmp/api.sock", PathState::Stale { owner: 0 }, 501) {
        BindDecision::Refuse { kind, .. } => {
            assert!(matches!(kind, BindRefusal::PermissionDenied))
        }
        _ => panic!("only our own socket is swept"),
    }
    match ensure_bindable("/x", PathState::Unreadable { error: "EACCES".into() }, 501) {
        BindDecision::Refuse { kind, .. } => assert!(matches!(kind, BindRefusal::Unreadable)),
        _ => panic!("an unreadable path is not bound"),
    }
}

#[test]
fn numeric_request_ids_are_normalized_end_to_end() {
    let (id, raw) = request(on_frame(
        line(r#"{"id":42,"method":"message.send","params":{"text":"status?"}}"#),
        true,
        30,
    ));
    assert_eq!(id, "42");
    let msg = ClientMessage {
        id,
        method: raw["method"].as_str().unwrap().to_string(),
        params: Some(raw["params"].clone()),
    };
    match dispatch(msg) {
        Route::Message { id, params } => {
            assert_eq!(id, "42");
            assert_eq!(params["text"], "status?");
        }
        other => panic!("{other:?}"),
    }
    let answer = message_answer("42", Ok(())).to_json();
    assert_eq!(answer["id"], "42");
    assert_eq!(answer["result"]["accepted"], true);
}

#[test]
fn a_peer_uid_mismatch_is_rejected_before_the_handler() {
    let other = check_peer(&PeerInfo { pid: None, uid: Some(1) }, 0).unwrap_err();
    assert_eq!(code(&other), "internal");
    // A platform that names no uid is served without inventing one.
    assert!(check_peer(&PeerInfo { pid: Some(7), uid: None }, 0).is_ok());
    assert!(check_peer(&PeerInfo { pid: None, uid: Some(0) }, 0).is_ok());
}

#[test]
fn an_invalid_session_id_is_rejected_before_the_handler_sees_it() {
    let typed = MessageSendParams {
        session_id: Some("../../etc/passwd".into()),
        text: "hi".into(),
    };
    let resp = message_params("u1", Ok(typed)).unwrap_err();
    assert_eq!(resp.id, "u1");
    assert_eq!(code(&resp), "session_id_invalid");
}

#[test]
fn rate_limit_kicks_in_after_the_cap() {
    let frame = r#"{"id":"r3","method":"message.send","params":{"text":"hi"}}"#;
    let (resp, close) = response(on_frame(line(frame), false, 2));
    assert_eq!(resp.id, "r3");
    assert_eq!(code(&resp), "rate_limited");
    assert_eq!(
        resp.error.unwrap().message,
        "more than 2 requests per minute; slow down"
    );
    assert!(!close);
}

#[test]
fn malformed_and_oversized_lines_consume_rate_quota() {
    assert!(consumes_quota(&line("this is not json")));
    let big = BoundedLine::Oversized(br#"{"id":"big","method":"status.get","params":{"#.to_vec());
    assert!(consumes_quota(&big));
    assert!(!consumes_quota(&line("")));

    let (resp, close) = response(on_frame(line("this is not json"), true, 1));
    assert_eq!(code(&resp), "invalid_request");
    assert!(!close);

    let (resp, close) = response(on_frame(big, false, 1));
    assert_eq!(resp.id, "big");
    assert_eq!(code(&resp), "rate_limited");
    assert!(close);
}

#[test]
fn one_connection_accepts_valid_lines_after_64_kib_total() {
    // The bound is per line: a reader goes on after any number of them.
    let one = format!(r#"{{"id":"u","method":"m","pad":"{}"}}"#, "x".repeat(40 * 1024));
    let mut bytes = one.clone().into_bytes();
    bytes.push(b'\n');
    let mut reader = LineReader::new(MAX_LINE_BYTES);
    for _ in 0..3 {
        let fed = reader.feed(&bytes);
        assert_eq!(fed.consumed, bytes.len());
        match fed.line {
            Some(BoundedLine::Complete(l)) => assert_eq!(l, one.as_bytes()),
            _ => panic!("a line within the bound must be whole"),
        }
    }
}

#[test]
fn a_full_response_queue_poison_disconnects_the_connection() {
    let mut events = EventTx::new(MAX_EVENT_QUEUE_BYTES);
    assert!(events.send_response(QueueSlot::Free).is_ok());
    assert_eq!(
        events.send_response(QueueSlot::Full),
        Err(EventSendError::Overflow)
    );
    assert!(events.poisoned);
}

/// Queue a response where the connection's queue has a slot for it, then tell
/// the reply gate that waits for it what came of that.
fn respond_then_tell(
    events: &mut EventTx,
    gate: &mut LocalReplyGate,
    slot: QueueSlot,
    queue: &mut Vec<Value>,
) -> Result<(), EventSendError> {
    let (sent, release) = send_response_after(events, slot, gate);
    if sent.is_ok() {
        queue.push(message_answer("u1", Ok(())).to_json());
    }
    match release {
        Release::AlreadyOpen => {}
        Release::Enqueue(started) => {
            assert!(!gate.is_released(), "nothing may pass before the held event");
            if let Some(event) = started {
                queue.push(event.to_json());
            }
            gate.finish_release();
        }
    }
    sent
}

#[test]
fn response_hook_runs_only_after_the_response_is_queued() {
    let mut events = EventTx::new(MAX_EVENT_QUEUE_BYTES);
    let mut gate = LocalReplyGate::new();
    assert!(gate.defer_started(ServerEvent::run_started("s", "d")).is_none());
    let mut queue = Vec::new();
    let sent = respond_then_tell(&mut events, &mut gate, QueueSlot::Free, &mut queue);
    assert!(sent.is_ok());
    assert!(reads_on(false, sent));
    assert_eq!(queue.len(), 2);
    assert_eq!(queue[0]["id"], "u1");
    assert_eq!(queue[0]["result"]["accepted"], true, "response must be queued first");
    assert_eq!(queue[1]["event"], "run.started");
    assert!(gate.is_released());
    assert!(!events.poisoned);
}

#[test]
fn response_hook_reports_enqueue_failure_for_cleanup() {
    let mut events = EventTx::new(MAX_EVENT_QUEUE_BYTES);
    let mut gate = LocalReplyGate::new();
    assert!(gate.defer_started(ServerEvent::run_started("s", "d")).is_none());
    let mut queue = Vec::new();
    let sent = respond_then_tell(&mut events, &mut gate, QueueSlot::Full, &mut queue);
    assert_eq!(sent, Err(EventSendError::Overflow));
    assert!(queue.is_empty(), "what was held is dropped with the connection");
    assert!(gate.is_released(), "nobody may wait for a response that never comes");
    assert!(gate.started.is_none());
    assert!(!reads_on(false, sent));
    assert!(events.poisoned);
}

#[test]
fn event_queue_budget_rejects_atomic_overflow_without_wrapping() {
    let mut events = EventTx::new(usize::MAX);
    events.queued_bytes = usize::MAX - 1;
    assert_eq!(
        events.send(40, QueueSlot::Free),
        Err(EventSendError::Overflow)
    );
    assert_eq!(events.queued_bytes, usize::MAX - 1);
}

#[test]
fn event_queue_overflow_disconnects_the_client() {
    let mut events = EventTx::new(100);
    assert!(events.send(60, QueueSlot::Free).is_ok());
    assert_eq!(events.send(60, QueueSlot::Free), Err(EventSendError::Overflow));
    // Too late: the connection is gone for everything that follows.
    assert_eq!(events.send(1, QueueSlot::Free), Err(EventSendError::Closed));
    assert_eq!(events.send_response(QueueSlot::Free), Err(EventSendError::Closed));
}

#[test]
fn a_written_event_gives_its_bytes_back() {
    let mut events = EventTx::new(100);
    assert!(events.send(100, QueueSlot::Free).is_ok());
    assert_eq!(events.queued_bytes, 100);
    assert!(events.frame_done(FrameKind::Event, 100, WriteOutcome::Written));
    assert_eq!(events.queued_bytes, 0);
    assert!(!events.frame_done(FrameKind::Response, 10, WriteOutcome::TimedOut));
}

#[test]
fn commands_list_and_status_get_round_trip() {
    let msg = |method: &str| ClientMessage { id: "u1".into(), method: method.into(), params: None };
    assert!(matches!(dispatch(msg("commands.list")), Route::CommandsList { .. }));
    assert!(matches!(dispatch(msg("status.get")), Route::StatusGet { .. }));
    let ok = value_answer("u1", Ok(json(r#"{"gateway":"ok"}"#))).to_json();
    assert_eq!(ok["result"]["gateway"], "ok");
    let bad = value_answer("u1", Err(ServerError::new("internal", "boom"))).to_json();
    assert_eq!(bad["error"]["message"], "boom");
}

#[test]
fn an_unknown_method_and_missing_params_are_answered() {
    match dispatch(ClientMessage { id: "u".into(), method: "nope".into(), params: None }) {
        Route::Respond(r) => assert_eq!(r.error.unwrap().message, "unknown method 'nope'"),
        other => panic!("{other:?}"),
    }
    match dispatch(ClientMessage { id: "u".into(), method: "message.send".into(), params: None }) {
        Route::Respond(r) => assert_eq!(r.error.unwrap().message, "message.send requires params"),
        other => panic!("{other:?}"),
    }
    let r = typed_request("u", Err("missing field `method`".into())).unwrap_err();
    assert_eq!(r.error.unwrap().message, "invalid request: missing field `method`");
    let r = message_params("u", Err("bad".into())).unwrap_err();
    assert_eq!(r.error.unwrap().message, "invalid params for message.send: bad");
}

#[test]
fn the_connection_cap_rejects_extra_clients() {
    let mut slots = ConnectionSlots::new(1);
    assert!(slots.accept().is_ok());
    assert_eq!(code(&slots.accept().unwrap_err()), "too_many_connections");
    slots.release();
    assert!(slots.accept().is_ok());
}

#[test]
fn a_malformed_line_gets_an_error_and_the_connection_survives() {
    let (resp, close) = response(on_frame(line("{broken"), true, 30));
    assert_eq!(code(&resp), "invalid_request");
    assert!(!close);
    assert!(reads_on(close, Ok(())));
}

#[test]
fn a_line_that_is_no_text_is_answered() {
    let (resp, close) = response(on_frame(BoundedLine::Complete(vec![0xff, b'{']), true, 30));
    assert_eq!(resp.error.unwrap().message, "request line is not valid UTF-8");
    assert!(!close);
}

#[test]
fn a_final_line_without_newline_is_processed() {
    let mut reader = LineReader::new(MAX_LINE_BYTES);
    let text = br#"{"id":"tail","method":"status.get"}"#;
    let fed = reader.feed(text);
    assert_eq!(fed.consumed, text.len());
    assert!(fed.line.is_none());
    match reader.finish() {
        Some(BoundedLine::Complete(l)) => assert_eq!(l, text),
        _ => panic!("the last line counts without its newline"),
    }
    assert!(reader.finish().is_none());
}

#[test]
fn a_carriage_return_belongs_to_the_line_end() {
    let mut reader = LineReader::new(MAX_LINE_BYTES);
    match reader.feed(b"abc\r\nrest").line {
        Some(BoundedLine::Complete(l)) => assert_eq!(l, b"abc"),
        _ => panic!("a line was expected"),
    }
}

#[test]
fn an_unterminated_oversized_line_closes_without_waiting_for_newline() {
    let mut reader = LineReader::new(MAX_LINE_BYTES);
    let fed = reader.feed(&vec![b'x'; MAX_LINE_BYTES + 1]);
    let Some(frame @ BoundedLine::Oversized(_)) = fed.line else {
        panic!("the bound must not wait for a newline");
    };
    let (_, close) = response(on_frame(frame, true, 30));
    assert!(close);
}

#[test]
fn an_oversized_line_is_rejected() {
    let (resp, close) = response(on_frame(
        BoundedLine::Oversized(br#"{"id":"o1","me"#.to_vec()),
        true,
        30,
    ));
    assert_eq!(resp.id, "o1");
    assert_eq!(
        resp.error.unwrap().message,
        "request line exceeds 65536 bytes"
    );
    assert!(close);
}

#[test]
fn bridge_preserves_jsonl_bytes_and_half_closes_stdin() {
    let mut reader = FrameReader::new(MAX_FRAME_BYTES);
    let input = b"{\"id\":1}\r\n{\"id\":2}\n";
    let mut at = 0;
    let mut frames = Vec::new();
    while at < input.len() {
        match reader.feed(&input[at..]) {
            FedFrame::Frame { frame, consumed } => {
                frames.push(frame);
                at += consumed;
            }
            FedFrame::More => at = input.len(),
            FedFrame::TooLong { message } => panic!("{message}"),
        }
    }
    assert_eq!(frames, vec![b"{\"id\":1}\r\n".to_vec(), b"{\"id\":2}\n".to_vec()]);
    assert!(reader.finish().is_none());
}

#[test]
fn forward_frames_rejects_an_unterminated_oversized_frame_without_writing() {
    let mut reader = FrameReader::new(MAX_FRAME_BYTES);
    match reader.feed(&vec![b'x'; MAX_FRAME_BYTES + 1]) {
        FedFrame::TooLong { message } => assert!(message.contains("65536"), "{message}"),
        _ => panic!("an oversized frame must not be forwarded"),
    }
}

#[test]
fn a_frame_split_over_reads_comes_out_whole() {
    let mut reader = FrameReader::new(16);
    assert!(matches!(reader.feed(b"ab"), FedFrame::More));
    match reader.feed(b"cd\nef") {
        FedFrame::Frame { frame, consumed } => {
            assert_eq!(frame, b"abcd\n");
            assert_eq!(consumed, 3);
        }
        _ => panic!("a frame was expected"),
    }
    assert!(matches!(reader.feed(b"ef"), FedFrame::More));
    assert_eq!(reader.finish().unwrap(), b"ef");
}

#[test]
fn the_builders_set_what_they_name() {
    let s = LocalApiServer::new("/x/api.sock")
        .with_rate_per_minute(2)
        .with_max_connections(3)
        .with_max_event_queue_bytes(4)
        .with_write_timeout(5);
    assert_eq!(s.socket_path, "/x/api.sock");
    assert_eq!(s.rate_per_minute, 2);
    assert_eq!(s.max_connections, 3);
    assert_eq!(s.max_event_queue_bytes, 4);
    assert_eq!(s.write_timeout_seconds, 5);
}

#[test]
fn an_actor_is_named_by_uid_and_pid() {
    let both = PeerInfo { pid: Some(7), uid: Some(501) }.actor();
    assert!(both.contains("501") && both.contains('7'), "{both}");
    let none = PeerInfo { pid: None, uid: None }.actor();
    assert_ne!(none, both);
}

#[test]
fn a_writer_failure_releases_the_connection_cap() {
    let mut slots = ConnectionSlots::new(1);
    assert!(slots.accept().is_ok());
    assert_eq!(code(&slots.accept().unwrap_err()), "too_many_connections");
    for broken in [WriteOutcome::Failed, WriteOutcome::TimedOut] {
        // The client is gone: its response cannot be written, and the writer
        // stops. With the queue closed behind it, the reader stops too.
        let mut events = EventTx::new(MAX_EVENT_QUEUE_BYTES);
        assert!(events.send_response(QueueSlot::Free).is_ok());
        assert!(!events.frame_done(FrameKind::Response, 40, broken));
        let late = events.send_response(QueueSlot::Closed);
        assert_eq!(late, Err(EventSendError::Closed));
        assert!(!reads_on(false, late));
        slots.release();
        assert!(slots.accept().is_ok(), "a failed writer must release the live connection slot");
        assert!(slots.accept().is_err());
    }
}
