use gemini_chat_api::client::Session;
use gemini_chat_api::client::next_reqid;
use gemini_chat_api::enums::Model;
use gemini_chat_api::error::Error;
use gemini_chat_api::utils::upload_outcome;

#[test]
fn new_session_requires_primary_cookie() {
    match Session::new("", "ts", Model::Unspecified, None) {
        Err(Error::Authentication(m)) => assert_eq!(m, "__Secure-1PSID cookie is required"),
        _ => panic!("expected authentication error"),
    }
}

#[test]
fn new_session_starts_fresh() {
    let s = Session::new("p", "t", Model::G2_5Pro, Some(String::from("http://proxy"))).unwrap();
    assert_eq!(s.snlm0e, "");
    assert_eq!(s.conversation_id(), "");
    assert_eq!(s.response_id, "");
    assert_eq!(s.choice_id, "");
    assert!((1000000..9999999).contains(&s.reqid));
    assert_eq!(s.secure_1psidts, "t");
    assert_eq!(*s.model(), Model::G2_5Pro);
    assert_eq!(s.proxy.as_deref(), Some("http://proxy"));
}

#[test]
fn check_initialized_reports_missing_token() {
    let s = Session::new("p", "t", Model::Unspecified, None).unwrap();
    match s.check_initialized() {
        Err(Error::NotInitialized(m)) => {
            assert_eq!(m, "AsyncChatbot not properly initialized. SNlM0e is missing.");
        }
        _ => panic!("expected not-initialized error"),
    }
}

#[test]
fn reset_clears_conversation_but_keeps_token() {
    let mut s = Session::new("p", "t", Model::Unspecified, None).unwrap();
    s.set_token(String::from("tok"));
    s.conversation_id = String::from("c");
    s.response_id = String::from("r");
    s.choice_id = String::from("ch");
    s.reset();
    assert_eq!(s.conversation_id(), "");
    assert_eq!(s.response_id, "");
    assert_eq!(s.choice_id, "");
    assert_eq!(s.snlm0e, "tok");
    assert!((1000000..9999999).contains(&s.reqid));
}

#[test]
fn next_reqid_never_repeats() {
    assert_eq!(next_reqid(5, 2000), 2005);
    assert_eq!(next_reqid(u32::MAX, 1234), 1234);
    assert_ne!(next_reqid(u32::MAX - 500, 8999), u32::MAX - 500);
}

#[test]
fn rotation_needs_empty_secondary_cookie() {
    let s = Session::new("p", "", Model::Unspecified, None).unwrap();
    assert!(s.needs_cookie_rotation());
    let s2 = Session::new("p", "t", Model::Unspecified, None).unwrap();
    assert!(!s2.needs_cookie_rotation());
}

#[test]
fn rotation_updates_cookie_on_success() {
    let mut s = Session::new("p", "old", Model::Unspecified, None).unwrap();
    let cookies = vec![
        (String::from("other"), String::from("x")),
        (String::from("__Secure-1PSIDTS"), String::from("fresh")),
    ];
    let got = s.apply_rotation_response(200, &cookies);
    assert_eq!(got.as_deref(), Some("fresh"));
    assert_eq!(s.secure_1psidts, "fresh");
}

#[test]
fn rotation_failure_is_never_fatal() {
    let mut s = Session::new("p", "old", Model::Unspecified, None).unwrap();
    let cookies = vec![(String::from("__Secure-1PSIDTS"), String::from("fresh"))];
    // non-success status: no update
    assert!(s.apply_rotation_response(500, &cookies).is_none());
    assert_eq!(s.secure_1psidts, "old");
    // success but the cookie is absent: no update
    let other = vec![(String::from("other"), String::from("x"))];
    assert!(s.apply_rotation_response(200, &other).is_none());
    assert_eq!(s.secure_1psidts, "old");
}

#[test]
fn generate_request_is_exactly_encoded() {
    let mut s = Session::new("p", "t", Model::Unspecified, None).unwrap();
    s.set_token(String::from("abc123"));
    let req = s.build_generate_request("Hi", None);
    let expected_url = format!(
        "https://gemini.google.com/_/BardChatUi/data/assistant.lamda.BardFrontendService/StreamGenerate?bl=boq_assistant-bard-web-server_20240625.13_p0&_reqid={}&rt=c",
        s.reqid
    );
    assert_eq!(req.url, expected_url);
    let expected_body = "f.req=%5Bnull%2C%22%5B%5B%5C%22Hi%5C%22%5D%2Cnull%2C%5B%5C%22%5C%22%2C%5C%22%5C%22%2C%5C%22%5C%22%5D%5D%22%5D&at=abc123";
    assert_eq!(String::from_utf8(req.body).unwrap(), expected_body);
}

#[test]
fn generate_request_carries_triple_and_upload_reference() {
    let mut s = Session::new("p", "t", Model::Unspecified, None).unwrap();
    s.set_token(String::from("tok"));
    s.conversation_id = String::from("c1");
    s.response_id = String::from("r1");
    s.choice_id = String::from("ch1");
    let req = s.build_generate_request("what is this?", Some("asset-9"));
    let body = String::from_utf8(req.body).unwrap();
    // the inner document before double encoding:
    //   [["what is this?"],[[["asset-9",1]]],["c1","r1","ch1"]]
    let decoded = body.replace("%5B", "[").replace("%5D", "]").replace("%5C", "\\")
        .replace("%22", "\"").replace("%2C", ",").replace("+", " ").replace("%3F", "?");
    assert!(decoded.starts_with("f.req=[null,\"[[\\\"what is this?\\\"],[[[\\\"asset-9\\\",1]]],[\\\"c1\\\",\\\"r1\\\",\\\"ch1\\\"]]\"]"));
    assert!(decoded.ends_with("&at=tok"));
}

#[test]
fn message_quotes_are_escaped_in_payload() {
    let mut s = Session::new("p", "t", Model::Unspecified, None).unwrap();
    s.set_token(String::from("tok"));
    let req = s.build_generate_request("say \"hi\"\n", None);
    let body = String::from_utf8(req.body).unwrap();
    // the quote inside the message is escaped twice: once for the inner
    // document, once more when the document is embedded as a string
    assert!(body.contains("%5C%5C%5C%22hi%5C%5C%5C%22"));
    // the newline becomes the two-character escape, itself escaped
    assert!(body.contains("%5C%5Cn"));
}

#[test]
fn upload_failure_aborts_before_generate_and_keeps_state() {
    let mut s = Session::new("p", "t", Model::Unspecified, None).unwrap();
    s.set_token(String::from("tok"));
    let before_reqid = s.reqid;
    // the upload collaborator answered with a non-success status: the
    // exchange aborts as an upload error before any generate request exists
    match upload_outcome(503, String::from("ignored")) {
        Err(Error::Upload(m)) => assert_eq!(m, "Upload failed with status: 503"),
        _ => panic!("expected upload error"),
    }
    assert_eq!(s.reqid, before_reqid);
    assert_eq!(s.conversation_id(), "");
    assert_eq!(s.snlm0e, "tok");
}

#[test]
fn upload_success_returns_identifier() {
    let id = upload_outcome(200, String::from("asset-42")).unwrap();
    assert_eq!(id, "asset-42");
}

#[test]
fn error_messages_are_exposed() {
    let e = Error::Timeout;
    assert_eq!(e.message(), "Request timed out");
    let p = Error::Parse(String::from("boom"));
    assert_eq!(p.message(), "boom");
}
