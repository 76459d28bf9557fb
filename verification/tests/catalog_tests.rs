use gemini_chat_api::enums::Endpoint;
use gemini_chat_api::enums::Model;
use gemini_chat_api::enums::gemini_headers;
use gemini_chat_api::enums::rotate_cookies_body;
use gemini_chat_api::enums::rotate_cookies_headers;
use gemini_chat_api::enums::upload_headers;
use gemini_chat_api::error::Error;
use gemini_chat_api::json::Json;
use gemini_chat_api::text::parse_u32;
use gemini_chat_api::text::split_lines;
use gemini_chat_api::text::u32_to_string;
use gemini_chat_api::utils::cookies_to_map;
use gemini_chat_api::utils::load_cookies;

#[test]
fn endpoint_urls_are_fixed() {
    assert_eq!(Endpoint::Init.url(), "https://gemini.google.com/app");
    assert_eq!(
        Endpoint::Generate.url(),
        "https://gemini.google.com/_/BardChatUi/data/assistant.lamda.BardFrontendService/StreamGenerate"
    );
    assert_eq!(Endpoint::RotateCookies.url(), "https://accounts.google.com/RotateCookies");
    assert_eq!(Endpoint::Upload.url(), "https://content-push.googleapis.com/upload");
}

#[test]
fn gemini_header_catalog_is_complete() {
    let h = gemini_headers();
    assert_eq!(h.len(), 14);
    assert_eq!(h[0], ("content-type", "application/x-www-form-urlencoded;charset=utf-8"));
    assert_eq!(h[1], ("host", "gemini.google.com"));
    assert_eq!(h[4], ("x-same-domain", "1"));
    assert!(h[5].1.starts_with("Mozilla/5.0 (Windows NT 10.0; Win64; x64)"));
    assert_eq!(h[13], ("sec-fetch-site", "same-origin"));
}

#[test]
fn rotation_request_shape() {
    let h = rotate_cookies_headers();
    assert_eq!(h, vec![("content-type", "application/json")]);
    assert_eq!(rotate_cookies_body(), "[000,\"-0000000000000000000\"]");
}

#[test]
fn upload_header_catalog() {
    assert_eq!(upload_headers(), vec![("push-id", "feeds/mcudyrk2a4khkz")]);
}

#[test]
fn model_names_round_trip() {
    let models = [
        Model::Unspecified,
        Model::G2_0Flash,
        Model::G2_0FlashThinking,
        Model::G2_5Flash,
        Model::G2_5Pro,
        Model::G2_0ExpAdvanced,
        Model::G2_5ExpAdvanced,
    ];
    for m in models {
        assert_eq!(Model::from_name(m.name()), Some(m.clone()));
    }
    assert_eq!(Model::from_name("gemini-9"), None);
    assert_eq!(Model::default(), Model::Unspecified);
}

#[test]
fn model_header_blobs_are_exact_constants() {
    assert_eq!(Model::Unspecified.headers(), None);
    assert_eq!(Model::G2_0Flash.headers(), Some(r#"[1,null,null,null,"f299729663a2343f"]"#));
    assert_eq!(
        Model::G2_0FlashThinking.headers(),
        Some(r#"[null,null,null,null,"7ca48d02d802f20a"]"#)
    );
    assert_eq!(Model::G2_5Flash.headers(), Some(r#"[1,null,null,null,"35609594dbe934d8"]"#));
    assert_eq!(Model::G2_5Pro.headers(), Some(r#"[1,null,null,null,"2525e3954d185b3c"]"#));
    assert_eq!(
        Model::G2_0ExpAdvanced.headers(),
        Some(r#"[null,null,null,null,"b1e46a6037e6aa9f"]"#)
    );
    assert_eq!(
        Model::G2_5ExpAdvanced.headers(),
        Some(r#"[null,null,null,null,"203e6bb81620bcfe"]"#)
    );
    assert_eq!(Model::header_name(), "x-goog-ext-525001261-jspb");
}

#[test]
fn advanced_models_are_flagged() {
    assert!(Model::G2_0ExpAdvanced.is_advanced_only());
    assert!(Model::G2_5ExpAdvanced.is_advanced_only());
    assert!(!Model::G2_5Pro.is_advanced_only());
    assert!(!Model::Unspecified.is_advanced_only());
}

#[test]
fn cookie_names_match_case_insensitively() {
    let json = br#"[{"name":"__secure-1psid","value":"a"},{"name":"__SECURE-1PSIDTS","value":"b"}]"#;
    let (p, t) = load_cookies(json).unwrap();
    assert_eq!(p, "a");
    assert_eq!(t, "b");
}

#[test]
fn later_cookie_entry_wins() {
    let json = br#"[{"name":"__Secure-1PSID","value":"old"},{"name":"__Secure-1PSIDTS","value":"t"},{"name":"__Secure-1PSID","value":"new"}]"#;
    let (p, _) = load_cookies(json).unwrap();
    assert_eq!(p, "new");
}

#[test]
fn missing_cookies_are_reported_each_by_name() {
    let only_ts = br#"[{"name":"__Secure-1PSIDTS","value":"b"}]"#;
    match load_cookies(only_ts) {
        Err(Error::Cookie(m)) => assert_eq!(m, "Required cookie __Secure-1PSID not found"),
        _ => panic!("expected cookie error"),
    }
    let only_psid = br#"[{"name":"__Secure-1PSID","value":"a"},{"name":"extra","value":"x"}]"#;
    match load_cookies(only_psid) {
        Err(Error::Cookie(m)) => assert_eq!(m, "Required cookie __Secure-1PSIDTS not found"),
        _ => panic!("expected cookie error"),
    }
}

#[test]
fn malformed_cookie_file_is_a_cookie_error() {
    assert!(matches!(load_cookies(b"not json"), Err(Error::Cookie(_))));
    assert!(matches!(load_cookies(b"{\"name\":\"x\"}"), Err(Error::Cookie(_))));
    assert!(matches!(load_cookies(br#"[{"name":"x"}]"#), Err(Error::Cookie(_))));
    assert!(matches!(load_cookies(br#"[{"name":1,"value":"v"}]"#), Err(Error::Cookie(_))));
}

#[test]
fn cookie_map_holds_both_names() {
    let m = cookies_to_map("pv", "tv");
    assert_eq!(
        m,
        vec![
            (String::from("__Secure-1PSID"), String::from("pv")),
            (String::from("__Secure-1PSIDTS"), String::from("tv")),
        ]
    );
}

#[test]
fn decimal_rendering_and_parsing() {
    assert_eq!(u32_to_string(0), "0");
    assert_eq!(u32_to_string(1234567), "1234567");
    assert_eq!(u32_to_string(u32::MAX), "4294967295");
    assert_eq!(parse_u32(b"0"), Some(0));
    assert_eq!(parse_u32(b"4294967295"), Some(u32::MAX));
    assert_eq!(parse_u32(b"4294967296"), None);
    assert_eq!(parse_u32(b""), None);
    assert_eq!(parse_u32(b"12a"), None);
}

#[test]
fn json_model_reaches_every_variant_through_metadata() {
    // the opaque metadata slot passes an arbitrary JSON subtree through: it
    // exercises the parser's whole value model
    let line = r#"[["wrb.fr",null,"[null,[\"c\",\"r\"],[\"q\"],[1,\"a\",null,true,{\"k\":2.5}],[[\"i\",[\"t\"]]]]"]]"#;
    let mut text = String::from(")]}'\n\n");
    text.push_str(line);
    let resp = gemini_chat_api::decoder::decode_chat_response(text.as_bytes(), "", "").unwrap();
    match resp.factuality_queries {
        Some(Json::Arr(items)) => {
            assert_eq!(items.len(), 5);
            assert_eq!(items[0], Json::Num(String::from("1")));
            assert_eq!(items[1], Json::Str(String::from("a")));
            assert_eq!(items[2], Json::Null);
            assert_eq!(items[3], Json::Bool(true));
            match &items[4] {
                Json::Obj(pairs) => {
                    assert_eq!(pairs.len(), 1);
                    assert_eq!(pairs[0].0, "k");
                    assert_eq!(pairs[0].1, Json::Num(String::from("2.5")));
                }
                _ => panic!("expected object"),
            }
        }
        _ => panic!("expected metadata array"),
    }
}

#[test]
fn line_splitting_matches_str_lines() {
    let cases: [&str; 6] = ["", "a", "a\nb", "a\r\nb\n", "\n\n", "one\rline"];
    for c in cases {
        let got = split_lines(c.as_bytes());
        let want: Vec<Vec<u8>> = c.lines().map(|l| l.as_bytes().to_vec()).collect();
        assert_eq!(got, want);
    }
}
