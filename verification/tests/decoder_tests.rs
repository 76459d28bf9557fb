use gemini_chat_api::client::Session;
use gemini_chat_api::enums::Model;
use gemini_chat_api::error::Error;
use gemini_chat_api::decoder::decode_chat_response;

fn wire_text(inner_escaped_line: &str) -> String {
    let mut t = String::from(")]}'\n\n");
    t.push_str(inner_escaped_line);
    t
}

const HELLO_LINE: &str = r#"[["wrb.fr",null,"[null,[\"c1\",\"r1\"],[\"Hi\"],null,[[\"ch1\",[\"Hello!\"]]]]"]]"#;

#[test]
fn end_to_end_scenario() {
    // cookie file with both required entries
    let cookie_json = br#"[{"name":"__Secure-1PSID","value":"p-cookie"},{"name":"__Secure-1PSIDTS","value":"t-cookie"}]"#;
    let (psid, psidts) = gemini_chat_api::load_cookies(cookie_json).unwrap();
    assert_eq!(psid, "p-cookie");
    assert_eq!(psidts, "t-cookie");

    let mut s = Session::new(&psid, &psidts, Model::Unspecified, None).unwrap();
    assert!(s.check_initialized().is_err());

    // token acquisition stub returns abc123
    let tok =
        gemini_chat_api::token::evaluate_init_response(200, "x \"SNlM0e\":\"abc123\" y").unwrap();
    assert_eq!(tok, "abc123");
    s.set_token(tok);
    assert!(s.check_initialized().is_ok());

    // a crafted generate response
    let text = wire_text(HELLO_LINE);
    let resp = s.parse_response(text.as_bytes()).unwrap();
    assert_eq!(resp.content, "Hello!");
    assert_eq!(resp.conversation_id, "c1");
    assert_eq!(resp.response_id, "r1");
    assert_eq!(resp.text_query, "Hi");
    assert!(resp.factuality_queries.is_none());
    assert!(!resp.error);
    assert_eq!(resp.choices.len(), 1);
    assert_eq!(resp.choices[0].id, "ch1");
    assert_eq!(resp.choices[0].content, "Hello!");

    // the session's continuation triple follows the envelope
    assert_eq!(s.conversation_id(), "c1");
    assert_eq!(s.response_id, "r1");
    assert_eq!(s.choice_id, "ch1");
}

#[test]
fn nonce_changes_after_each_successful_exchange() {
    let mut s = Session::new("p", "t", Model::Unspecified, None).unwrap();
    s.set_token(String::from("tok"));
    let before = s.reqid;
    let text = wire_text(HELLO_LINE);
    s.parse_response(text.as_bytes()).unwrap();
    let mid = s.reqid;
    assert_ne!(before, mid);
    s.parse_response(text.as_bytes()).unwrap();
    assert_ne!(mid, s.reqid);
    assert!(s.reqid >= 1000);
}

#[test]
fn too_few_lines_fails_with_parse_and_leaves_state() {
    let mut s = Session::new("p", "t", Model::Unspecified, None).unwrap();
    s.set_token(String::from("tok"));
    let before_reqid = s.reqid;
    match s.parse_response(b"only one line") {
        Err(Error::Parse(m)) => assert!(m.starts_with("Unexpected response format.")),
        _ => panic!("expected parse error"),
    }
    assert_eq!(s.reqid, before_reqid);
    assert_eq!(s.conversation_id(), "");
}

#[test]
fn no_envelope_fails_with_parse() {
    match decode_chat_response(b")]}'\n\n[\"no envelope\"]\nnoise", "", "") {
        Err(Error::Parse(m)) => {
            assert_eq!(m, "Failed to parse response body. No valid data found.");
        }
        _ => panic!("expected parse error"),
    }
}

#[test]
fn null_metadata_defaults_without_failing() {
    // index 3 of the envelope is null: metadata is none, everything else
    // still decodes
    let resp = decode_chat_response(wire_text(HELLO_LINE).as_bytes(), "", "").unwrap();
    assert!(resp.factuality_queries.is_none());
    assert_eq!(resp.content, "Hello!");
}

#[test]
fn present_metadata_is_passed_through() {
    let line = r#"[["wrb.fr",null,"[null,[\"c\",\"r\"],[\"q\"],[\"meta\"],[[\"id\",[\"t\"]]]]"]]"#;
    let resp = decode_chat_response(wire_text(line).as_bytes(), "", "").unwrap();
    match resp.factuality_queries {
        Some(gemini_chat_api::json::Json::Arr(v)) => {
            assert_eq!(v.len(), 1);
            assert_eq!(v[0], gemini_chat_api::json::Json::Str(String::from("meta")));
        }
        _ => panic!("expected metadata array"),
    }
}

#[test]
fn missing_continuation_pair_keeps_previous_ids() {
    let line = r#"[["wrb.fr",null,"[null,null,[\"q\"],null,[[\"id9\",[\"txt\"]]]]"]]"#;
    let resp = decode_chat_response(wire_text(line).as_bytes(), "prev-c", "prev-r").unwrap();
    assert_eq!(resp.conversation_id, "prev-c");
    assert_eq!(resp.response_id, "prev-r");
}

#[test]
fn short_candidates_are_skipped_and_order_kept() {
    let line = r#"[["wrb.fr",null,"[null,[\"c\",\"r\"],[\"q\"],null,[[\"a\",[\"ta\"]],[\"lonely\"],[\"b\",[\"tb\"]]]]"]]"#;
    let resp = decode_chat_response(wire_text(line).as_bytes(), "", "").unwrap();
    assert_eq!(resp.choices.len(), 2);
    assert_eq!(resp.choices[0].id, "a");
    assert_eq!(resp.choices[0].content, "ta");
    assert_eq!(resp.choices[1].id, "b");
    assert_eq!(resp.choices[1].content, "tb");
}

#[test]
fn non_wrb_parts_and_noise_lines_are_skipped() {
    let mut text = String::from(")]}'\nnot json\n[1,2,3]\n");
    text.push_str(r#"[["other",null,"x"],["wrb.fr",null,"[null,[\"cX\",\"rX\"],[\"q\"],null,[[\"i\",[\"ok\"]]]]"]]"#);
    let resp = decode_chat_response(text.as_bytes(), "", "").unwrap();
    assert_eq!(resp.conversation_id, "cX");
    assert_eq!(resp.content, "ok");
}

#[test]
fn envelope_with_null_answers_is_not_an_envelope() {
    // element 4 null: the scan must keep looking and fail if nothing else
    let line = r#"[["wrb.fr",null,"[null,[\"c\",\"r\"],[\"q\"],null,null]"]]"#;
    assert!(matches!(
        decode_chat_response(wire_text(line).as_bytes(), "", ""),
        Err(Error::Parse(_))
    ));
}

#[test]
fn sentinel_line_with_trailing_payload_is_cleaned() {
    // the sentinel plus one byte, then whitespace, then the array
    let mut text = String::from("x\ny\n)]}'   ");
    text.push_str(r#"[["wrb.fr",null,"[null,[\"cZ\",\"rZ\"],[\"q\"],null,[[\"i\",[\"w\"]]]]"]]"#);
    let resp = decode_chat_response(text.as_bytes(), "", "").unwrap();
    assert_eq!(resp.conversation_id, "cZ");
    assert_eq!(resp.content, "w");
}

#[test]
fn multibyte_answer_text_survives() {
    let line = "[[\"wrb.fr\",null,\"[null,[\\\"c\\\",\\\"r\\\"],[\\\"q\\\"],null,[[\\\"i\\\",[\\\"h\u{00e9}llo \u{4e16}\u{754c}\\\"]]]]\"]]";
    let resp = decode_chat_response(wire_text(line).as_bytes(), "", "").unwrap();
    assert_eq!(resp.content, "h\u{00e9}llo \u{4e16}\u{754c}");
}
