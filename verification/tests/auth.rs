use agent_may::auth::{
    access_with, auth_error_text, auth_file_path, chatgpt_access, chatgpt_api_url, codex_home,
    error_message_from, jwt_payload, jwt_payload_part, parse_error_message, parse_id_token,
    refresh_chatgpt_tokens, refresh_chatgpt_tokens_at, refresh_session_tokens, token_url,
    user_profile, AuthClaims, AuthError, AuthFile, AuthSession, HttpStatus, IdClaims, ProfileClaims,
    RefreshResponse, TokenData, UserProfile,
};
use agent_may::json::{parse_json, Json};
use agent_may::paths::{Anchor, Location};
use agent_may::time::Timestamp;

fn text(s: &str) -> Option<String> {
    Some(s.to_string())
}

fn status(code: u16, text: &str) -> HttpStatus {
    HttpStatus { code, text: text.to_string() }
}

fn tokens(account: Option<&str>) -> TokenData {
    TokenData {
        id_token: "aGVhZA.e30.c2ln".to_string(),
        access_token: "access".to_string(),
        refresh_token: "refresh".to_string(),
        account_id: account.map(|a| a.to_string()),
    }
}

fn stored(tokens: Option<TokenData>) -> AuthFile {
    AuthFile { auth_mode: text("chatgpt"), openai_api_key: None, tokens, last_refresh: None }
}

fn session(tokens: Option<TokenData>) -> AuthSession {
    AuthSession { auth: stored(tokens), auth_path: Location::at("/tmp/auth.json") }
}

fn claims() -> IdClaims {
    IdClaims {
        email: text("me@example.com"),
        profile: Some(ProfileClaims { email: text("other@example.com") }),
        auth: Some(AuthClaims {
            chatgpt_plan_type: text("plus"),
            chatgpt_account_id: text("acct"),
        }),
    }
}

fn unread() -> Result<IdClaims, String> {
    Err("unread".to_string())
}

fn parts(place: &Location) -> (Option<String>, Vec<String>) {
    let anchor = match &place.anchor {
        Anchor::Home => None,
        Anchor::Fixed(path) => Some(path.clone()),
    };
    (anchor, place.tail.clone())
}

#[test]
fn auth_file_is_below_the_home_directory() {
    let place = auth_file_path(None, true).unwrap();
    assert_eq!(parts(&place), (None, vec![".codex".to_string(), "auth.json".to_string()]));
}

#[test]
fn auth_file_is_in_the_directory_that_is_set() {
    let place = auth_file_path(Some("  /data/codex "), false).unwrap();
    assert_eq!(parts(&place), (text("/data/codex"), vec!["auth.json".to_string()]));
}

#[test]
fn blank_setting_counts_as_none() {
    let place = codex_home(Some(" \t"), true).unwrap();
    assert_eq!(parts(&place), (None, vec![".codex".to_string()]));
}

#[test]
fn unknown_home_directory_is_an_error() {
    let error = auth_file_path(Some(""), false).unwrap_err();
    assert!(matches!(error, AuthError::HomeUnknown));
    assert_eq!(error.message(), "could not determine the home directory");
}

#[test]
fn service_addresses() {
    assert_eq!(
        chatgpt_api_url("/codex/responses"),
        "https://chatgpt.com/backend-api/codex/responses"
    );
    assert_eq!(token_url(), "https://auth.openai.com/oauth/token");
}

#[test]
fn error_message_prefers_the_description() {
    let raw = r#" {"error":{"message":"inner"},"error_description":"outer"} "#;
    assert_eq!(parse_error_message(raw), "outer");
}

#[test]
fn error_message_falls_back_step_by_step() {
    assert_eq!(parse_error_message(r#"{"error":{"message":"inner"}}"#), "inner");
    assert_eq!(parse_error_message(r#"{"error":"flat","error_description":7}"#), "flat");
    assert_eq!(parse_error_message(r#" {"error":{"code":1}} "#), r#"{"error":{"code":1}}"#);
    assert_eq!(parse_error_message("  not json\n"), "not json");
    assert_eq!(parse_error_message(" \n "), "unknown error");
}

#[test]
fn error_text_of_a_value() {
    let json = Json::Object(vec![("error".to_string(), Json::Text("boom".to_string()))]);
    assert_eq!(auth_error_text(&json), text("boom"));
    assert_eq!(auth_error_text(&Json::Null), None);
}

#[test]
fn error_message_of_a_given_value() {
    let json = || Json::Object(vec![("error".to_string(), Json::Text("boom".to_string()))]);
    assert_eq!(error_message_from(" body ", Some(json())), "boom");
    assert_eq!(error_message_from(" body ", Some(Json::Null)), "body");
    assert_eq!(error_message_from(" body ", None), "body");
    assert_eq!(error_message_from(" ", Some(json())), "unknown error");
}

#[test]
fn access_with_a_given_profile() {
    let known = || UserProfile { email: None, plan_type: None, account_id: text("theirs") };
    let file = stored(Some(tokens(None)));
    assert_eq!(access_with(&file, Some(known())).unwrap().account_id, "theirs");
    assert!(matches!(access_with(&file, None), Err(AuthError::NoAccountId)));
    let file = stored(Some(tokens(Some("mine"))));
    assert_eq!(access_with(&file, Some(known())).unwrap().account_id, "mine");
    assert!(matches!(access_with(&stored(None), Some(known())), Err(AuthError::NoTokens)));
}

#[test]
fn payload_part_is_between_the_dots() {
    assert_eq!(jwt_payload_part("a.b-b.c").unwrap(), "b-b");
    assert_eq!(jwt_payload_part("..").unwrap(), "");
    assert!(matches!(jwt_payload_part("a.b.c."), Err(AuthError::JwtFormat)));
}

#[test]
fn json_is_read() {
    let json = parse_json(r#"{"a":[1,true,null],"b":"A\n","n":-2.50}"#).unwrap();
    assert_eq!(json.text_at("b"), text("A\n"));
    assert!(json.get("missing").is_none());
    assert!(json.text_at("a").is_none());
    match json.get("a") {
        Some(Json::List(items)) => {
            assert_eq!(items.len(), 3);
            assert!(matches!(items[1], Json::Bool(true)));
            assert!(matches!(items[2], Json::Null));
        }
        _ => panic!("no list"),
    }
    assert_eq!(
        parse_json("{").unwrap_err(),
        "EOF while parsing an object at line 1 column 1"
    );
}

#[test]
fn payload_is_the_middle_part() {
    assert_eq!(jwt_payload("aGVhZA.eyJhIjoxfQ.c2ln").unwrap(), br#"{"a":1}"#.to_vec());
}

#[test]
fn token_with_other_than_three_parts_is_refused() {
    let error = jwt_payload("a.b").unwrap_err();
    assert!(matches!(error, AuthError::JwtFormat));
    assert_eq!(error.message(), "invalid JWT format");
    assert!(matches!(jwt_payload("a.b.c.d"), Err(AuthError::JwtFormat)));
}

#[test]
fn payload_that_is_no_base64_is_refused() {
    let error = jwt_payload("a.*.c").unwrap_err();
    assert!(matches!(error, AuthError::JwtPayload(_)));
    assert_eq!(
        error.message(),
        "failed to decode JWT payload: Invalid symbol 42, offset 0."
    );
    assert_eq!(
        jwt_payload("a.e30=.c").unwrap_err().message(),
        "failed to decode JWT payload: Invalid padding"
    );
}

#[test]
fn profile_comes_from_the_claims() {
    let profile = parse_id_token("a.e30.c", Ok(claims())).unwrap();
    assert_eq!(profile.email, text("me@example.com"));
    assert_eq!(profile.plan_type, text("plus"));
    assert_eq!(profile.account_id, text("acct"));
}

#[test]
fn profile_address_is_the_second_choice() {
    let given = IdClaims { email: None, auth: None, ..claims() };
    let profile = parse_id_token("a.e30.c", Ok(given)).unwrap();
    assert_eq!(profile.email, text("other@example.com"));
    assert_eq!(profile.plan_type, None);
    assert_eq!(profile.account_id, None);
}

#[test]
fn claims_that_cannot_be_read_are_an_error() {
    let error = parse_id_token("a.e30.c", Err("bad".to_string())).unwrap_err();
    assert!(matches!(error, AuthError::IdClaims(_)));
    assert_eq!(error.message(), "failed to parse id_token claims: bad");
    assert!(matches!(parse_id_token("a.e30", Ok(claims())), Err(AuthError::JwtFormat)));
}

#[test]
fn profile_without_tokens_is_empty() {
    let profile = user_profile(&stored(None), unread()).unwrap();
    assert_eq!((profile.email, profile.plan_type, profile.account_id), (None, None, None));
}

#[test]
fn access_uses_the_stored_account() {
    let access = chatgpt_access(&stored(Some(tokens(Some("mine")))), unread()).unwrap();
    assert_eq!(access.access_token, "access");
    assert_eq!(access.account_id, "mine");
}

#[test]
fn access_falls_back_to_the_account_in_the_token() {
    let access = chatgpt_access(&stored(Some(tokens(None))), Ok(claims())).unwrap();
    assert_eq!(access.account_id, "acct");
}

#[test]
fn access_needs_tokens_and_an_account() {
    let error = chatgpt_access(&stored(None), unread()).unwrap_err();
    assert_eq!(error.message(), "stored auth does not contain ChatGPT tokens");
    let error = chatgpt_access(&stored(Some(tokens(None))), unread()).unwrap_err();
    assert_eq!(error.message(), "stored auth does not contain a ChatGPT account id");
}

#[test]
fn refresh_asks_with_the_refresh_token() {
    let request = refresh_session_tokens(&session(Some(tokens(None)))).unwrap();
    assert_eq!(request.client_id, "app_EMoamEEZ73f0CkXaXp7hrann");
    assert_eq!(request.grant_type, "refresh_token");
    assert_eq!(request.refresh_token, "refresh");
    let error = refresh_session_tokens(&session(None)).unwrap_err();
    assert_eq!(error.message(), "stored auth does not contain a refresh token");
}

#[test]
fn refresh_replaces_what_came_and_keeps_the_rest() {
    let mut session = session(Some(tokens(Some("mine"))));
    let now = Timestamp::new(1_700_000_000, 5).unwrap();
    let came = RefreshResponse { id_token: None, access_token: text("new"), refresh_token: None };
    refresh_chatgpt_tokens_at(&mut session, &status(200, "200 OK"), "{}", Ok(came), now).unwrap();
    let after = session.auth.tokens.unwrap();
    assert_eq!(after.access_token, "new");
    assert_eq!(after.refresh_token, "refresh");
    assert_eq!(after.id_token, "aGVhZA.e30.c2ln");
    assert_eq!(after.account_id, text("mine"));
    assert_eq!(session.auth.last_refresh, Some(now));
    assert_eq!(session.auth.auth_mode, text("chatgpt"));
}

#[test]
fn refresh_that_brings_nothing_notes_the_time() {
    let mut session = session(Some(tokens(None)));
    let came = RefreshResponse { id_token: None, access_token: None, refresh_token: None };
    refresh_chatgpt_tokens(&mut session, &status(204, "204 No Content"), "", Ok(came)).unwrap();
    assert_eq!(session.auth.tokens.unwrap().access_token, "access");
    assert!(session.auth.last_refresh.unwrap().secs() > 1_600_000_000);
}

#[test]
fn failed_refresh_changes_nothing() {
    let mut session = session(Some(tokens(None)));
    let now = Timestamp::new(0, 0).unwrap();
    let refused = status(400, "400 Bad Request");
    let bad = || Err("bad".to_string());
    let error =
        refresh_chatgpt_tokens_at(&mut session, &refused, r#"{"error":"gone"}"#, bad(), now)
            .unwrap_err();
    assert_eq!(error.message(), "token refresh failed with status 400 Bad Request: gone");
    let fine = status(200, "200 OK");
    let error = refresh_chatgpt_tokens_at(&mut session, &fine, "x", bad(), now).unwrap_err();
    assert_eq!(error.message(), "failed to parse the token refresh response: bad");
    assert_eq!(session.auth.last_refresh, None);
    assert_eq!(session.auth.tokens.as_ref().unwrap().access_token, "access");
    session.auth.tokens = None;
    let came = RefreshResponse { id_token: None, access_token: None, refresh_token: None };
    let error = refresh_chatgpt_tokens_at(&mut session, &fine, "{}", Ok(came), now).unwrap_err();
    assert_eq!(error.message(), "stored auth is missing tokens");
}

#[test]
fn success_is_from_200_to_299() {
    assert!(!status(199, "").is_success());
    assert!(status(200, "").is_success());
    assert!(status(299, "").is_success());
    assert!(!status(300, "").is_success());
}
