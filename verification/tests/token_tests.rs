use gemini_chat_api::error::Error;
use gemini_chat_api::token::evaluate_init_response;
use gemini_chat_api::token::extract_snlm0e;

#[test]
fn token_extracted_double_quotes() {
    let body = "window.WIZ = 1; \"SNlM0e\":\"abc123\"; more";
    let t = evaluate_init_response(200, body).unwrap();
    assert_eq!(t, "abc123");
}

#[test]
fn token_extracted_single_quotes_and_spacing() {
    let body = "xx 'SNlM0e'  :  'AQx-99_z' yy";
    let t = evaluate_init_response(200, body).unwrap();
    assert_eq!(t, "AQx-99_z");
}

#[test]
fn token_leftmost_match_wins() {
    let body = "\"SNlM0e\":\"first\" and \"SNlM0e\":\"second\"";
    let t = evaluate_init_response(200, body).unwrap();
    assert_eq!(t, "first");
}

#[test]
fn token_extractor_returns_capture_bytes() {
    let cap = extract_snlm0e(b"pre\"SNlM0e\":\"tok-1\"post").unwrap();
    assert_eq!(cap, b"tok-1".to_vec());
    assert!(extract_snlm0e(b"no key here").is_none());
    // an empty value never matches
    assert!(extract_snlm0e(b"\"SNlM0e\":\"\"").is_none());
}

#[test]
fn status_401_is_authentication() {
    match evaluate_init_response(401, "anything") {
        Err(Error::Authentication(m)) => {
            assert_eq!(m, "Authentication failed (status 401). Check cookies.");
        }
        other => panic!("expected authentication error, got {:?}", other.is_ok()),
    }
}

#[test]
fn status_403_is_authentication() {
    assert!(matches!(
        evaluate_init_response(403, ""),
        Err(Error::Authentication(_))
    ));
}

#[test]
fn other_http_error_is_parse_with_status() {
    match evaluate_init_response(500, "\"SNlM0e\":\"tok\"") {
        Err(Error::Parse(m)) => assert_eq!(m, "HTTP error: 500"),
        _ => panic!("expected parse error"),
    }
}

#[test]
fn login_marker_beats_token_on_success_status() {
    // even with a perfectly good token pattern, a login page means failed
    // authentication
    let body = "SignIn?continue=https://x \"SNlM0e\":\"tok\"";
    match evaluate_init_response(200, body) {
        Err(Error::Authentication(m)) => {
            assert_eq!(m, "Authentication failed. Cookies might be invalid or expired.");
        }
        _ => panic!("expected authentication error"),
    }
}

#[test]
fn identifier_shown_marker_is_authentication() {
    let body = "<div id=\"identifier-shown\">login</div>";
    assert!(matches!(
        evaluate_init_response(200, body),
        Err(Error::Authentication(_))
    ));
}

#[test]
fn sign_in_title_marker_is_authentication() {
    let body = "<title>Sign in - Google Accounts</title>";
    assert!(matches!(
        evaluate_init_response(200, body),
        Err(Error::Authentication(_))
    ));
}

#[test]
fn missing_token_with_429_mentions_rate_limit() {
    match evaluate_init_response(200, "error 429 too many requests") {
        Err(Error::Parse(m)) => assert_eq!(m, "SNlM0e not found. Rate limit likely exceeded."),
        _ => panic!("expected parse error"),
    }
}

#[test]
fn missing_token_plain_message() {
    match evaluate_init_response(200, "<html>nothing here</html>") {
        Err(Error::Parse(m)) => {
            assert_eq!(m, "SNlM0e value not found in response. Check cookie validity.");
        }
        _ => panic!("expected parse error"),
    }
}
