use dotagent::local_api::error_code;
use dotagent::local_api::framing::{
    resolve_socket_path, salvage_id_from_bytes, salvage_id_from_line,
};
use dotagent::local_api::protocol::{
    is_valid_session_id, normalize_id, salvage_id, MessageSendParams, ServerEvent, ServerResponse,
    MAX_TEXT_BYTES,
};
use dotagent::local_api::server::parse_request;
use serde_json::Value;

fn json(text: &str) -> Value {
    serde_json::from_str(text).unwrap()
}

fn params(session_id: Option<&str>, text: &str) -> MessageSendParams {
    MessageSendParams { session_id: session_id.map(str::to_string), text: text.to_string() }
}

#[test]
fn a_numeric_id_is_normalized_to_a_string() {
    let (id, raw) = parse_request(r#"{"id":42,"method":"commands.list"}"#).unwrap();
    assert_eq!(id, "42");
    assert_eq!(normalize_id(&raw["id"]).as_deref(), Some("42"));
    assert_eq!(raw["method"], "commands.list");
    assert!(raw.get("params").is_none());
}

#[test]
fn a_string_id_survives_verbatim() {
    let (id, raw) =
        parse_request(r#"{"id":"u1","method":"status.get","params":{"x":1}}"#).unwrap();
    assert_eq!(id, "u1");
    assert_eq!(raw["params"], json(r#"{"x":1}"#));
}

#[test]
fn an_id_that_is_neither_string_nor_number_is_rejected() {
    let raw = json(r#"{"id":true,"method":"commands.list"}"#);
    assert!(normalize_id(&raw["id"]).is_none());
    assert!(normalize_id(&json("null")).is_none());
    assert!(normalize_id(&json("[1]")).is_none());
}

#[test]
fn salvage_recovers_string_and_numeric_ids_but_not_garbage() {
    assert_eq!(salvage_id(&json(r#"{ "id": "u9" }"#)), "u9");
    assert_eq!(salvage_id(&json(r#"{ "id": 7 }"#)), "7");
    assert_eq!(salvage_id(&json(r#"{ "id": null }"#)), "");
    assert_eq!(salvage_id(&json(r#"{ "method": "m" }"#)), "");
}

#[test]
fn response_omits_the_unset_half() {
    let ok = ServerResponse::ok("u1", json(r#"{"accepted": true}"#)).to_json();
    assert_eq!(ok, json(r#"{"id": "u1", "result": {"accepted": true}}"#));

    let err = ServerResponse::err("u2", error_code::INTERNAL, "boom").to_json();
    assert_eq!(
        err,
        json(r#"{"id": "u2", "error": {"code": "internal", "message": "boom"}}"#)
    );
}

#[test]
fn event_constructors_emit_exactly_the_documented_fields() {
    assert_eq!(
        ServerEvent::typing("default").to_json(),
        json(r#"{"event": "typing", "session_id": "default"}"#)
    );
    assert_eq!(
        ServerEvent::run_started("s1", "disk-alert").to_json(),
        json(r#"{"event": "run.started", "session_id": "s1", "agent": "disk-alert"}"#)
    );
    assert_eq!(
        ServerEvent::reply_delta("s1", "half a line").to_json(),
        json(r#"{"event": "reply.delta", "session_id": "s1", "line": "half a line"}"#)
    );
    assert_eq!(
        ServerEvent::reply("s1", "all done").to_json(),
        json(r#"{"event": "reply", "session_id": "s1", "text": "all done"}"#)
    );
}

#[test]
fn session_defaults_to_default_when_absent() {
    assert_eq!(params(None, "hi").effective_session_id(), "default");
    assert_eq!(params(Some("chat-9_a"), "hi").effective_session_id(), "chat-9_a");
}

#[test]
fn validate_rejects_empty_and_whitespace_text() {
    for text in ["", "   ", "\t\n"] {
        let err = params(None, text).validate().unwrap_err();
        assert_eq!(err.code, error_code::INVALID_REQUEST, "{text:?}");
    }
}

#[test]
fn validate_rejects_oversized_text() {
    let p = params(None, &"a".repeat(MAX_TEXT_BYTES + 1));
    assert_eq!(p.validate().unwrap_err().code, error_code::INVALID_REQUEST);
    assert!(params(None, &"a".repeat(MAX_TEXT_BYTES)).validate().is_ok());
}

#[test]
fn validate_rejects_a_traversal_shaped_session_id() {
    let err = params(Some("../../etc/passwd"), "hi").validate().unwrap_err();
    assert_eq!(err.code, error_code::SESSION_ID_INVALID);
    // What was sent is quoted, so that nothing in it can pass for prose.
    assert!(err.message.contains("\"../../etc/passwd\""), "{}", err.message);
}

#[test]
fn a_refused_session_id_is_quoted_with_its_escapes() {
    let err = params(Some("a\n\"b"), "hi").validate().unwrap_err();
    assert!(err.message.contains(r#""a\n\"b""#), "{}", err.message);
}

#[test]
fn validate_rejects_an_overlong_session_id() {
    assert_eq!(
        params(Some(&"a".repeat(65)), "hi").validate().unwrap_err().code,
        error_code::SESSION_ID_INVALID
    );
    assert!(params(Some(&"a".repeat(64)), "hi").validate().is_ok());
}

#[test]
fn validate_accepts_the_boring_good_case() {
    assert!(params(Some("chat-9_a"), "status?").validate().is_ok());
}

#[test]
fn a_session_id_is_letters_digits_dash_and_underscore() {
    assert!(is_valid_session_id("A-z_09"));
    for bad in ["", "a b", "a/b", "a.b", "é"] {
        assert!(!is_valid_session_id(bad), "{bad}");
    }
}

#[test]
fn request_id_salvage_handles_a_truncated_json_prefix() {
    assert_eq!(
        salvage_id_from_bytes(&b"{\"id\":\"partial\",\"method\":\"status.get\"".to_vec()),
        "partial"
    );
    assert_eq!(salvage_id_from_bytes(&b"not json".to_vec()), "");
}

#[test]
fn a_truncated_line_gives_up_its_id_only_where_a_member_name_stands() {
    assert_eq!(
        salvage_id_from_line("{\"method\":\"m\",\"id\" : \"a\\\"b\",\"params\":["),
        "a\"b"
    );
    // Inside a text it is not a member.
    assert_eq!(salvage_id_from_line("[\"the \\\"id\\\": \\\"x\\\" of"), "");
    // An id in the params is not the request's.
    assert_eq!(
        salvage_id_from_bytes(&b"{\"method\":\"status.get\",\"params\":{\"id\":\"inner\"".to_vec()),
        ""
    );
    assert_eq!(
        salvage_id_from_line("{\"params\":[{\"id\":\"a\"},\"{\"],\"id\":\"outer\",\"m"),
        "outer"
    );
    // Nor is one that comes after the request, or outside an object.
    assert_eq!(salvage_id_from_line("{\"method\":\"m\"} {\"id\":\"late\""), "");
    assert_eq!(salvage_id_from_line("[{\"id\":\"listed\""), "");
    // A number is an id too; nothing else is.
    assert_eq!(salvage_id_from_bytes(&b"{\"id\":42,\"method\":\"status.get\"".to_vec()), "42");
    assert_eq!(salvage_id_from_line("{\"id\":-1.5,\"method\":"), "-1.5");
    assert_eq!(salvage_id_from_line("{\"id\":true,\"method\":"), "");
    assert_eq!(salvage_id_from_line("{\"id\":\"cut"), "");
    // A whole line gives its own id, numbers included.
    assert_eq!(salvage_id_from_line(r#"{"id":17}"#), "17");
    // Bytes that are no text have none.
    assert_eq!(salvage_id_from_bytes(&vec![0xff, 0xfe]), "");
}

#[test]
fn a_line_that_is_no_json_says_where_it_broke() {
    let resp = parse_request(r#"{"id":"u3","method":"#).unwrap_err();
    let error = resp.error.unwrap();
    assert_eq!(error.code, "invalid_request");
    assert!(error.message.starts_with("invalid JSON: "), "{}", error.message);
    assert!(error.message.contains("line 1"), "{}", error.message);
    assert_eq!(resp.id, "u3");
}

#[test]
fn default_socket_uses_dotagent_home() {
    assert_eq!(resolve_socket_path(None, "/home/x/.dotagent"), "/home/x/.dotagent/api.sock");
}

#[test]
fn explicit_socket_path_wins() {
    assert_eq!(
        resolve_socket_path(Some("/tmp/dotagent-test-api.sock"), "/home/x"),
        "/tmp/dotagent-test-api.sock"
    );
}

#[test]
fn what_goes_on_the_wire_keeps_the_order_of_its_fields() {
    assert_eq!(
        ServerEvent::reply("s", "hi").to_text(),
        r#"{"event":"reply","session_id":"s","text":"hi"}"#
    );
    assert_eq!(
        ServerEvent::run_started("s", "a").to_text(),
        r#"{"event":"run.started","session_id":"s","agent":"a"}"#
    );
    assert_eq!(
        ServerResponse::err("u1", "internal", "no").to_text(),
        r#"{"id":"u1","error":{"code":"internal","message":"no"}}"#
    );
    assert_eq!(
        ServerResponse::ok("u1", json("{\"b\":1,\"a\":[true]}")).to_text(),
        r#"{"id":"u1","result":{"a":[true],"b":1}}"#
    );
}
