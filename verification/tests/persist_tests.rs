use gemini_chat_api::client::Session;
use gemini_chat_api::enums::Model;
use gemini_chat_api::persist::SavedConversation;
use gemini_chat_api::persist::find_conversation;
use gemini_chat_api::persist::parse_saved;
use gemini_chat_api::persist::saved_to_json;
use gemini_chat_api::persist::upsert_conversation;

fn sample(name: &str, reqid: u32) -> SavedConversation {
    SavedConversation {
        conversation_name: String::from(name),
        reqid,
        conversation_id: String::from("c"),
        response_id: String::from("r"),
        choice_id: String::from("ch"),
        snlm0e: String::from("tok"),
        model_name: String::from("gemini-2.5-pro"),
        timestamp: String::from("1700000000"),
    }
}

#[test]
fn upsert_appends_new_and_replaces_existing() {
    let mut convs: Vec<SavedConversation> = Vec::new();
    upsert_conversation(&mut convs, sample("a", 1));
    upsert_conversation(&mut convs, sample("b", 2));
    assert_eq!(convs.len(), 2);
    upsert_conversation(&mut convs, sample("a", 9));
    assert_eq!(convs.len(), 2);
    assert_eq!(convs[0].reqid, 9);
    assert_eq!(convs[1].reqid, 2);
}

#[test]
fn find_returns_first_match_or_none() {
    let mut convs: Vec<SavedConversation> = Vec::new();
    upsert_conversation(&mut convs, sample("a", 1));
    upsert_conversation(&mut convs, sample("b", 2));
    assert_eq!(find_conversation(&convs, "b").unwrap().reqid, 2);
    assert!(find_conversation(&convs, "zzz").is_none());
}

#[test]
fn save_then_load_restores_session_exactly() {
    let mut s = Session::new("p", "t", Model::G2_5Flash, None).unwrap();
    s.set_token(String::from("tok-77"));
    s.conversation_id = String::from("c77");
    s.response_id = String::from("r77");
    s.choice_id = String::from("ch77");

    let record = s.make_saved("my chat", String::from("1700000001"));
    assert_eq!(record.model_name, "gemini-2.5-flash");

    let mut convs: Vec<SavedConversation> = Vec::new();
    upsert_conversation(&mut convs, record);

    let found = find_conversation(&convs, "my chat").unwrap().clone();
    let mut fresh = Session::new("p", "t", Model::Unspecified, None).unwrap();
    fresh.apply_saved(&found);
    assert_eq!(fresh.reqid, s.reqid);
    assert_eq!(fresh.conversation_id(), "c77");
    assert_eq!(fresh.response_id, "r77");
    assert_eq!(fresh.choice_id, "ch77");
    assert_eq!(fresh.snlm0e, "tok-77");
    assert_eq!(*fresh.model(), Model::G2_5Flash);
}

#[test]
fn unknown_model_name_leaves_model_unchanged() {
    let mut s = Session::new("p", "t", Model::G2_0Flash, None).unwrap();
    let mut record = sample("x", 5);
    record.model_name = String::from("not-a-model");
    s.apply_saved(&record);
    assert_eq!(*s.model(), Model::G2_0Flash);
}

#[test]
fn serialized_collection_parses_back_identically() {
    let mut convs: Vec<SavedConversation> = Vec::new();
    let mut tricky = sample("na\"me\nwith\\escapes", 4242);
    tricky.conversation_id = String::from("id with spaces & unicode \u{00e9}");
    upsert_conversation(&mut convs, tricky);
    upsert_conversation(&mut convs, sample("plain", 7));

    let bytes = saved_to_json(&convs);
    let back = parse_saved(&bytes).unwrap();
    assert_eq!(back, convs);
}

#[test]
fn empty_collection_serializes_as_empty_array() {
    let convs: Vec<SavedConversation> = Vec::new();
    let bytes = saved_to_json(&convs);
    assert_eq!(bytes, b"[]".to_vec());
    assert_eq!(parse_saved(&bytes).unwrap(), convs);
}

#[test]
fn reqid_is_written_as_a_number() {
    let mut convs: Vec<SavedConversation> = Vec::new();
    upsert_conversation(&mut convs, sample("n", 1234567));
    let text = String::from_utf8(saved_to_json(&convs)).unwrap();
    assert!(text.contains("\"_reqid\":1234567,"));
    assert!(text.contains("\"SNlM0e\":\"tok\""));
}

#[test]
fn malformed_record_is_refused() {
    assert!(parse_saved(b"{\"not\":\"an array\"}").is_err());
    assert!(parse_saved(b"[{\"conversation_name\":\"x\"}]").is_err());
    // a fractional or oversized nonce is refused
    assert!(
        parse_saved(
            br#"[{"conversation_name":"x","_reqid":1.5,"conversation_id":"","response_id":"","choice_id":"","SNlM0e":"","model_name":"","timestamp":""}]"#
        )
        .is_err()
    );
    assert!(
        parse_saved(
            br#"[{"conversation_name":"x","_reqid":4294967296,"conversation_id":"","response_id":"","choice_id":"","SNlM0e":"","model_name":"","timestamp":""}]"#
        )
        .is_err()
    );
}
