use pool_miner::pool_client::{Inbound, PoolClient, SessionState, ValidationRequest};
use pool_miner::utils::amount_u64_to_string;
use pool_miner::wire::{
    decimal, frame_register, frame_submit_hash, frame_validation_result, same_text, InboundFields,
};

fn client() -> PoolClient {
    PoolClient::new("ws://localhost:3000".to_string(), "Miner111".to_string())
}

fn assignment(hash_id: &str) -> String {
    format!(
        "{{\"type\":\"validate_hash\",\"hashId\":\"{}\",\"hash\":\"he11owor1d\",\"difficulty\":18,\"minerAddress\":\"11111111111111111111111111111111\",\"nonce\":\"0102\"}}",
        hash_id
    )
}

fn fields(msg_type: Option<&str>) -> InboundFields {
    InboundFields {
        msg_type: msg_type.map(|s| s.to_string()),
        hash_id: Some("id".to_string()),
        hash: Some("h".to_string()),
        difficulty: Some(5),
        miner_address: Some("m".to_string()),
        nonce: Some("n".to_string()),
        signature: Some("sig".to_string()),
        error: Some("err".to_string()),
    }
}

fn same_request(a: &ValidationRequest, b: &ValidationRequest) -> bool {
    a.msg_type == b.msg_type
        && a.hashId == b.hashId
        && a.hash == b.hash
        && a.difficulty == b.difficulty
        && a.minerAddress == b.minerAddress
        && a.nonce == b.nonce
}

#[test]
fn amounts_are_written_in_decimal() {
    assert_eq!(amount_u64_to_string(0), "0");
    assert_eq!(amount_u64_to_string(7), "7");
    assert_eq!(amount_u64_to_string(10), "10");
    assert_eq!(amount_u64_to_string(1_000_000_000), "1000000000");
    assert_eq!(amount_u64_to_string(u64::MAX), "18446744073709551615");
    assert_eq!(decimal(1234567890), "1234567890");
}

#[test]
fn amounts_are_written_as_std_writes_them() {
    for n in [0u64, 9, 10, 11, 99, 100, 101, 65535, 4294967296, u64::MAX - 1] {
        assert_eq!(amount_u64_to_string(n), format!("{}", n));
    }
}

#[test]
fn same_text_compares_characters() {
    assert!(same_text("validate_hash", "validate_hash"));
    assert!(!same_text("validate_hash", "validate_hash "));
    assert!(same_text("", ""));
}

#[test]
fn a_new_session_has_no_assignment() {
    let c = client();
    assert!(c.get_validation_request().is_none());
    assert_eq!(c.ws_url(), "ws://localhost:3000");
}

#[test]
fn registration_carries_the_address() {
    let frame = client().connect();
    assert_eq!(frame, "{\"address\":\"Miner111\",\"type\":\"register\"}");
    let doc = serde_json::from_str::<serde_json::Value>(&frame).unwrap();
    assert_eq!(doc["type"].as_str(), Some("register"));
    assert_eq!(doc["address"].as_str(), Some("Miner111"));
}

#[test]
fn registration_escapes_the_address() {
    let mut c = PoolClient::new("ws://x".to_string(), "a\"b\\c\n".to_string());
    let frame = c.connect();
    assert_eq!(frame, "{\"address\":\"a\\\"b\\\\c\\n\",\"type\":\"register\"}");
    let doc = serde_json::from_str::<serde_json::Value>(&frame).unwrap();
    assert_eq!(doc["address"].as_str(), Some("a\"b\\c\n"));
}

#[test]
fn submission_carries_its_members() {
    let frame = client().submit_hash("he11owor1d".to_string(), 21, "0a0b".to_string());
    assert_eq!(
        frame,
        "{\"type\":\"submit_hash\",\"hash\":\"he11owor1d\",\"difficulty\":21,\"minerAddress\":\"Miner111\",\"nonce\":\"0a0b\"}"
    );
    let doc = serde_json::from_str::<serde_json::Value>(&frame).unwrap();
    assert_eq!(doc["type"].as_str(), Some("submit_hash"));
    assert_eq!(doc["hash"].as_str(), Some("he11owor1d"));
    assert_eq!(doc["difficulty"].as_u64(), Some(21));
    assert_eq!(doc["minerAddress"].as_str(), Some("Miner111"));
    assert_eq!(doc["nonce"].as_str(), Some("0a0b"));
}

#[test]
fn submission_with_the_extreme_difficulties() {
    let frame = client().submit_hash("h".to_string(), 0, "n".to_string());
    assert!(frame.contains("\"difficulty\":0,"));
    let frame = client().submit_hash("h".to_string(), u32::MAX, "n".to_string());
    assert!(frame.contains("\"difficulty\":4294967295,"));
}

#[test]
fn validation_result_of_a_success() {
    let frame = client().submit_validation_result(
        "abc123".to_string(),
        true,
        Some("5sig".to_string()),
        None,
    );
    assert_eq!(
        frame,
        "{\"type\":\"validation_result\",\"hashId\":\"abc123\",\"success\":true,\"signature\":\"5sig\",\"error\":null}"
    );
}

#[test]
fn validation_result_of_a_failure() {
    let frame = client().submit_validation_result(
        "abc123".to_string(),
        false,
        None,
        Some("No available bus found".to_string()),
    );
    assert_eq!(
        frame,
        "{\"type\":\"validation_result\",\"hashId\":\"abc123\",\"success\":false,\"signature\":null,\"error\":\"No available bus found\"}"
    );
    let doc = serde_json::from_str::<serde_json::Value>(&frame).unwrap();
    assert_eq!(doc["hashId"].as_str(), Some("abc123"));
    assert_eq!(doc["success"].as_bool(), Some(false));
    assert!(doc["signature"].is_null());
    assert_eq!(doc["error"].as_str(), Some("No available bus found"));
}

#[test]
fn frames_take_their_members_as_they_are() {
    assert_eq!(frame_register("X"), "{\"address\":X,\"type\":\"register\"}");
    assert_eq!(
        frame_submit_hash("H", 3, "M", "N"),
        "{\"type\":\"submit_hash\",\"hash\":H,\"difficulty\":3,\"minerAddress\":M,\"nonce\":N}"
    );
    assert_eq!(
        frame_validation_result("I", true, Some("S"), Some("E")),
        "{\"type\":\"validation_result\",\"hashId\":I,\"success\":true,\"signature\":S,\"error\":E}"
    );
    assert_eq!(
        frame_validation_result("I", false, None, None),
        "{\"type\":\"validation_result\",\"hashId\":I,\"success\":false,\"signature\":null,\"error\":null}"
    );
}

#[test]
fn an_assignment_becomes_the_pending_one() {
    let mut c = client();
    let meaning = c.receive(&assignment("abc123")).unwrap();
    assert!(matches!(meaning, Inbound::Assigned));
    let request = c.get_validation_request().expect("an assignment is pending");
    assert_eq!(request.msg_type, "validate_hash");
    assert_eq!(request.hashId, "abc123");
    assert_eq!(request.hash, "he11owor1d");
    assert_eq!(request.difficulty, 18);
    assert_eq!(request.minerAddress, "11111111111111111111111111111111");
    assert_eq!(request.nonce, "0102");
}

#[test]
fn reading_the_assignment_leaves_it_pending() {
    let mut c = client();
    c.receive(&assignment("abc123")).unwrap();
    let first = c.get_validation_request().unwrap();
    let second = c.get_validation_request().unwrap();
    assert!(same_request(&first, &second));
    assert_eq!(second.hashId, "abc123");
}

#[test]
fn a_second_assignment_replaces_the_first() {
    let mut c = client();
    c.receive(&assignment("first")).unwrap();
    c.receive(&assignment("second")).unwrap();
    let request = c.get_validation_request().unwrap();
    assert_eq!(request.hashId, "second");
}

#[test]
fn other_messages_leave_the_assignment_pending() {
    let mut c = client();
    c.receive(&assignment("abc123")).unwrap();
    c.receive("{\"type\":\"hash_confirmed\",\"signature\":\"s\"}").unwrap();
    c.receive("{\"type\":\"hash_rejected\",\"error\":\"e\"}").unwrap();
    c.receive("{\"type\":\"something_else\"}").unwrap();
    c.receive("[1,2,3]").unwrap();
    assert!(c.receive("not json").is_err());
    assert_eq!(c.get_validation_request().unwrap().hashId, "abc123");
}

#[test]
fn a_confirmation_carries_its_signature() {
    let mut c = client();
    let meaning = c.receive("{\"type\":\"hash_confirmed\",\"signature\":\"5sig\"}").unwrap();
    assert!(matches!(meaning, Inbound::HashConfirmed(s) if s == "5sig"));
    let meaning = c.receive("{\"type\":\"hash_confirmed\"}").unwrap();
    assert!(matches!(meaning, Inbound::HashConfirmed(s) if s.is_empty()));
    let meaning = c.receive("{\"type\":\"hash_confirmed\",\"signature\":7}").unwrap();
    assert!(matches!(meaning, Inbound::HashConfirmed(s) if s.is_empty()));
    assert!(c.get_validation_request().is_none());
}

#[test]
fn a_rejection_carries_its_reason() {
    let mut c = client();
    let meaning = c.receive("{\"type\":\"hash_rejected\",\"error\":\"too late\"}").unwrap();
    assert!(matches!(meaning, Inbound::HashRejected(s) if s == "too late"));
    let meaning = c.receive("{\"type\":\"hash_rejected\"}").unwrap();
    assert!(matches!(meaning, Inbound::HashRejected(s) if s.is_empty()));
}

#[test]
fn unknown_messages_are_ignored() {
    let mut c = client();
    for text in [
        "{\"type\":\"ping\"}",
        "{\"type\":7}",
        "{}",
        "[]",
        "null",
        "42",
        "\"validate_hash\"",
        "{\"kind\":\"validate_hash\"}",
        "{\"type\":\"Validate_Hash\"}",
    ] {
        assert!(matches!(c.receive(text), Ok(Inbound::Ignored)));
    }
    assert!(c.get_validation_request().is_none());
}

#[test]
fn text_that_is_not_json_is_an_error() {
    let mut c = client();
    assert!(c.receive("").is_err());
    assert!(c.receive("{").is_err());
    assert!(c.receive("{\"type\":\"validate_hash\"").is_err());
    assert!(c.receive("{} {}").is_err());
    let reason = c.receive("nope").unwrap_err();
    assert!(!reason.is_empty());
}

#[test]
fn an_assignment_with_a_member_missing_is_ignored() {
    let complete = assignment("abc123");
    for member in ["hashId", "hash", "difficulty", "minerAddress", "nonce"] {
        let mut doc = serde_json::from_str::<serde_json::Value>(&complete).unwrap();
        doc.as_object_mut().unwrap().remove(member);
        let mut c = client();
        assert!(matches!(c.receive(&doc.to_string()), Ok(Inbound::Ignored)));
        assert!(c.get_validation_request().is_none());
    }
}

#[test]
fn an_assignment_with_a_member_of_the_wrong_type_is_ignored() {
    for text in [
        "{\"type\":\"validate_hash\",\"hashId\":1,\"hash\":\"h\",\"difficulty\":18,\"minerAddress\":\"m\",\"nonce\":\"n\"}",
        "{\"type\":\"validate_hash\",\"hashId\":\"i\",\"hash\":\"h\",\"difficulty\":\"18\",\"minerAddress\":\"m\",\"nonce\":\"n\"}",
        "{\"type\":\"validate_hash\",\"hashId\":\"i\",\"hash\":\"h\",\"difficulty\":-1,\"minerAddress\":\"m\",\"nonce\":\"n\"}",
        "{\"type\":\"validate_hash\",\"hashId\":\"i\",\"hash\":\"h\",\"difficulty\":18.5,\"minerAddress\":\"m\",\"nonce\":\"n\"}",
        "{\"type\":\"validate_hash\",\"hashId\":\"i\",\"hash\":\"h\",\"difficulty\":18.0,\"minerAddress\":\"m\",\"nonce\":\"n\"}",
        "{\"type\":\"validate_hash\",\"hashId\":\"i\",\"hash\":\"h\",\"difficulty\":4294967296,\"minerAddress\":\"m\",\"nonce\":\"n\"}",
        "{\"type\":\"validate_hash\",\"hashId\":\"i\",\"hash\":null,\"difficulty\":18,\"minerAddress\":\"m\",\"nonce\":\"n\"}",
        "{\"type\":\"validate_hash\",\"hashId\":\"i\",\"hash\":\"h\",\"difficulty\":18,\"minerAddress\":\"m\",\"nonce\":[]}",
    ] {
        let mut c = client();
        c.receive(&assignment("kept")).unwrap();
        assert!(matches!(c.receive(text), Ok(Inbound::Ignored)));
        assert_eq!(c.get_validation_request().unwrap().hashId, "kept");
    }
}

#[test]
fn an_assignment_may_have_the_highest_difficulty_and_more_members() {
    let mut c = client();
    let text = "{\"extra\":true,\"type\":\"validate_hash\",\"hashId\":\"i\",\"hash\":\"h\",\"difficulty\":4294967295,\"minerAddress\":\"m\",\"nonce\":\"n\"}";
    assert!(matches!(c.receive(text), Ok(Inbound::Assigned)));
    assert_eq!(c.get_validation_request().unwrap().difficulty, u32::MAX);
}

#[test]
fn dispatch_goes_by_the_type() {
    let mut c = client();
    assert!(matches!(c.dispatch(fields(None)), Inbound::Ignored));
    assert!(matches!(c.dispatch(fields(Some("register"))), Inbound::Ignored));
    assert!(c.get_validation_request().is_none());
    assert!(matches!(c.dispatch(fields(Some("hash_confirmed"))), Inbound::HashConfirmed(s) if s == "sig"));
    assert!(matches!(c.dispatch(fields(Some("hash_rejected"))), Inbound::HashRejected(s) if s == "err"));
    assert!(c.get_validation_request().is_none());
    assert!(matches!(c.dispatch(fields(Some("validate_hash"))), Inbound::Assigned));
    let request = c.get_validation_request().unwrap();
    assert_eq!(
        (request.msg_type.as_str(), request.hashId.as_str(), request.hash.as_str(), request.difficulty),
        ("validate_hash", "id", "h", 5)
    );
    assert_eq!((request.minerAddress.as_str(), request.nonce.as_str()), ("m", "n"));
}

#[test]
fn into_assignment_needs_every_member() {
    assert!(fields(Some("validate_hash")).into_assignment().is_some());
    assert!(fields(None).into_assignment().is_none());
    let mut f = fields(Some("validate_hash"));
    f.difficulty = Some(u32::MAX as u64 + 1);
    assert!(f.into_assignment().is_none());
    let mut f = fields(Some("validate_hash"));
    f.difficulty = Some(u32::MAX as u64);
    assert_eq!(f.into_assignment().unwrap().difficulty, u32::MAX);
    let mut f = fields(Some("validate_hash"));
    f.nonce = None;
    assert!(f.into_assignment().is_none());
    let mut f = fields(Some("x"));
    f.signature = None;
    f.error = None;
    assert!(f.into_assignment().is_some());
}

#[test]
fn a_session_goes_through_its_states_in_order() {
    let mut c = client();
    assert_eq!(c.state(), SessionState::Disconnected);
    c.dial();
    assert_eq!(c.state(), SessionState::Connecting);
    c.connect();
    assert_eq!(c.state(), SessionState::Registered);
    c.receive("{\"type\":\"hash_confirmed\"}").unwrap();
    assert_eq!(c.state(), SessionState::Streaming);
    c.receive(&assignment("abc123")).unwrap();
    assert_eq!(c.state(), SessionState::Streaming);
    c.disconnect();
    assert_eq!(c.state(), SessionState::Disconnected);
    assert_eq!(c.get_validation_request().unwrap().hashId, "abc123");
    c.dial();
    assert_eq!(c.state(), SessionState::Connecting);
}

#[test]
fn a_step_out_of_turn_leaves_the_state() {
    let mut c = client();
    c.connect();
    assert_eq!(c.state(), SessionState::Disconnected);
    c.receive("{}").unwrap();
    assert_eq!(c.state(), SessionState::Disconnected);
    c.dial();
    c.dial();
    assert_eq!(c.state(), SessionState::Connecting);
    c.receive("{}").unwrap();
    assert_eq!(c.state(), SessionState::Connecting);
    c.connect();
    c.dial();
    c.connect();
    assert_eq!(c.state(), SessionState::Registered);
}

#[test]
fn text_that_is_not_json_ends_the_connection() {
    let mut c = client();
    c.dial();
    c.connect();
    c.receive(&assignment("abc123")).unwrap();
    assert_eq!(c.state(), SessionState::Streaming);
    assert!(c.receive("not json").is_err());
    assert_eq!(c.state(), SessionState::Disconnected);
    assert_eq!(c.get_validation_request().unwrap().hashId, "abc123");
}

#[test]
fn a_plain_hash_id_stands_in_the_message_as_it_is() {
    let frame = client().submit_validation_result("abc123".to_string(), false, None, Some("e".to_string()));
    assert!(frame.contains("\"hashId\":\"abc123\""));
}

#[test]
fn control_characters_are_written_as_escapes() {
    let mut c = PoolClient::new("ws://x".to_string(), "\u{0}\u{8}\t\n\u{b}\u{c}\r\u{1f} \u{7f}\u{e9}/".to_string());
    assert_eq!(
        c.connect(),
        "{\"address\":\"\\u0000\\b\\t\\n\\u000b\\f\\r\\u001f \u{7f}\u{e9}/\",\"type\":\"register\"}"
    );
}
