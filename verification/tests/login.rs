use agent_may::auth::{AuthClaims, AuthError, HttpStatus, IdClaims};
use agent_may::encoding::write_form;
use agent_may::login::{
    api_key_exchange_body, build_authorize_url, callback_address, exchange_code_for_tokens,
    exchange_id_token_for_api_key, generate_pkce, generate_state, judge_callback,
    login_complete_reply, pkce_from, receive_callback, redirect_uri, token_exchange_body,
    CallbackStep, CodeExchangeResponse, IdentifiedLogin, Login, LoginStep, PkceCodes,
};
use agent_may::paths::Location;
use agent_may::time::Timestamp;

fn text(s: &str) -> Option<String> {
    Some(s.to_string())
}

fn status(code: u16, text: &str) -> HttpStatus {
    HttpStatus { code, text: text.to_string() }
}

fn bad<T>() -> Result<T, String> {
    Err("bad".to_string())
}

fn came() -> CodeExchangeResponse {
    CodeExchangeResponse {
        id_token: "h.e30.s".to_string(),
        access_token: "access".to_string(),
        refresh_token: "refresh".to_string(),
    }
}

fn claims(account: &str) -> IdClaims {
    IdClaims {
        email: text("me@example.com"),
        profile: None,
        auth: Some(AuthClaims { chatgpt_plan_type: text("pro"), chatgpt_account_id: text(account) }),
    }
}

fn refused(step: CallbackStep) -> (Option<(u16, bool, String)>, String) {
    match step {
        CallbackStep::Refuse { reply, error } => {
            (reply.map(|r| (r.status, r.html, r.body)), error.message())
        }
        CallbackStep::Exchange(code) => panic!("exchanged {}", code),
    }
}

#[test]
fn addresses_of_the_callback() {
    assert_eq!(redirect_uri(), "http://localhost:1455/auth/callback");
    assert_eq!(callback_address(), "127.0.0.1:1455");
}

#[test]
fn challenge_is_the_digest_of_the_verifier() {
    let bytes: Vec<u8> = vec![
        116, 24, 223, 180, 151, 153, 224, 37, 79, 250, 96, 125, 216, 173, 187, 186, 22, 212, 37, 77,
        105, 214, 191, 240, 91, 88, 5, 88, 83, 132, 141, 121,
    ];
    let pkce = pkce_from(&bytes);
    assert_eq!(pkce.code_verifier, "dBjftJeZ4CVP-mB92K27uhbUJU1p1r_wW1gFWFOEjXk");
    assert_eq!(pkce.code_challenge, "E9Melhoa2OwvFrEMTJguCHaoeK1t8URWbuGJSstw-cM");
}

#[test]
fn codes_are_fresh() {
    let (a, b) = (generate_pkce(), generate_pkce());
    assert_eq!(a.code_verifier.len(), 86);
    assert_eq!(a.code_challenge.len(), 43);
    assert_ne!(a.code_verifier, b.code_verifier);
    assert_eq!(generate_state().len(), 43);
    assert_ne!(generate_state(), generate_state());
}

#[test]
fn authorize_url_has_all_parameters() {
    let pkce = PkceCodes { code_verifier: "v".to_string(), code_challenge: "ch".to_string() };
    assert_eq!(
        build_authorize_url("http://localhost:1455/auth/callback", &pkce, "st"),
        "https://auth.openai.com/oauth/authorize?response_type=code\
         &client_id=app_EMoamEEZ73f0CkXaXp7hrann\
         &redirect_uri=http%3A%2F%2Flocalhost%3A1455%2Fauth%2Fcallback\
         &scope=openid%20profile%20email%20offline_access%20api.connectors.read%20api.connectors.invoke\
         &code_challenge=ch&code_challenge_method=S256&id_token_add_organizations=true\
         &codex_cli_simplified_flow=true&state=st&originator=codex_cli_rs"
    );
}

#[test]
fn forms_are_percent_encoded() {
    assert_eq!(write_form(&vec![("a", "x y&z=ü~-_.")]), "a=x%20y%26z%3D%C3%BC~-_.");
    assert_eq!(write_form(&Vec::new()), "");
}

#[test]
fn token_exchange_form() {
    assert_eq!(
        token_exchange_body("c/1", "http://h/p", "v"),
        "grant_type=authorization_code&code=c%2F1&redirect_uri=http%3A%2F%2Fh%2Fp\
         &client_id=app_EMoamEEZ73f0CkXaXp7hrann&code_verifier=v"
    );
}

#[test]
fn api_key_exchange_form() {
    assert_eq!(
        api_key_exchange_body("h.p.s"),
        "grant_type=urn%3Aietf%3Aparams%3Aoauth%3Agrant-type%3Atoken-exchange\
         &client_id=app_EMoamEEZ73f0CkXaXp7hrann&requested_token=openai-api-key\
         &subject_token=h.p.s\
         &subject_token_type=urn%3Aietf%3Aparams%3Aoauth%3Atoken-type%3Aid_token"
    );
}

#[test]
fn callback_with_state_and_code_is_exchanged() {
    match receive_callback("/auth/callback?code=a%20b&state=st", "st") {
        CallbackStep::Exchange(code) => assert_eq!(code, "a b"),
        other => panic!("{:?}", other),
    }
}

#[test]
fn last_of_repeated_parameters_counts() {
    match receive_callback("/auth/callback?code=1&state=no&code=2&state=st", "st") {
        CallbackStep::Exchange(code) => assert_eq!(code, "2"),
        other => panic!("{:?}", other),
    }
}

#[test]
fn callback_to_another_path_is_refused() {
    let (reply, message) = refused(receive_callback("/favicon.ico?code=1&state=st", "st"));
    assert_eq!(reply, Some((404, false, "Not found".to_string())));
    assert_eq!(message, "unexpected callback path: /favicon.ico");
}

#[test]
fn callback_with_an_error_tells_its_description() {
    let (reply, message) =
        refused(receive_callback("/auth/callback?error=denied&error_description=no+way", "st"));
    let page = "<html><body><h1>Login failed</h1><p>no way</p></body></html>";
    assert_eq!(reply, Some((200, true, page.to_string())));
    assert_eq!(message, "oauth callback failed: no way");
    let (_, message) = refused(receive_callback("/auth/callback?error=denied", "st"));
    assert_eq!(message, "oauth callback failed: denied");
}

#[test]
fn callback_without_state_is_refused() {
    let (reply, message) = refused(receive_callback("/auth/callback?code=1", "st"));
    assert_eq!(reply, None);
    assert_eq!(message, "oauth callback was missing state");
}

#[test]
fn callback_with_another_state_is_refused() {
    let (reply, message) = refused(receive_callback("/auth/callback?code=1&state=x", "st"));
    assert_eq!(reply, Some((400, false, "State mismatch".to_string())));
    assert_eq!(message, "oauth callback state did not match the login request");
}

#[test]
fn callback_without_code_is_refused() {
    let (reply, message) = refused(receive_callback("/auth/callback?state=st", "st"));
    assert_eq!(reply, None);
    assert_eq!(message, "oauth callback was missing code");
}

#[test]
fn callback_that_is_no_url_is_refused() {
    let (reply, message) = refused(receive_callback(":port/auth/callback", "st"));
    assert_eq!(reply, None);
    assert_eq!(message, "failed to parse the callback URL: invalid port number");
    let (reply, message) = refused(judge_callback(Err("bad".to_string()), "st"));
    assert_eq!(reply, None);
    assert_eq!(message, "failed to parse the callback URL: bad");
}

#[test]
fn judging_given_parts() {
    let pairs = vec![
        ("state".to_string(), "st".to_string()),
        ("code".to_string(), "c".to_string()),
    ];
    match judge_callback(Ok(("/auth/callback".to_string(), pairs)), "st") {
        CallbackStep::Exchange(code) => assert_eq!(code, "c"),
        other => panic!("{:?}", other),
    }
}

#[test]
fn code_exchange_needs_success_and_tokens() {
    assert!(exchange_code_for_tokens(&status(200, "200 OK"), "", Ok(came())).is_ok());
    let error = exchange_code_for_tokens(&status(200, "200 OK"), "", bad()).unwrap_err();
    assert_eq!(error.message(), "failed to parse the token exchange response: bad");
    let error =
        exchange_code_for_tokens(&status(403, "403 Forbidden"), " nope ", Ok(came())).unwrap_err();
    assert_eq!(error.message(), "token exchange failed with status 403 Forbidden: nope");
}

#[test]
fn api_key_exchange_needs_success_and_a_key() {
    assert_eq!(
        exchange_id_token_for_api_key(&status(200, "200 OK"), "", Ok("sk".to_string())).unwrap(),
        "sk"
    );
    let error = exchange_id_token_for_api_key(&status(200, "200 OK"), "", bad()).unwrap_err();
    assert_eq!(error.message(), "failed to parse the API key exchange response: bad");
    let error = exchange_id_token_for_api_key(&status(500, "500 Oops"), "", bad()).unwrap_err();
    assert_eq!(error.message(), "API key exchange failed with status 500 Oops: unknown error");
}

#[test]
fn reply_after_the_login() {
    let reply = login_complete_reply();
    assert_eq!((reply.status, reply.html), (200, true));
    assert_eq!(
        reply.body,
        "<html><body><h1>Login complete</h1><p>You can return to the terminal.</p></body></html>"
    );
}

#[test]
fn login_from_start_to_end() {
    let login = Login::start_with(pkce_from(&vec![0, 1, 2]), "st".to_string());
    assert_eq!(login.redirect_uri, "http://localhost:1455/auth/callback");
    assert!(login.url.contains("&state=st&"));
    assert!(login.url.contains(&login.pkce.code_challenge));
    assert!(!login.url.contains(&login.pkce.code_verifier));
    match login.on_callback("/auth/callback?code=c&state=st") {
        LoginStep::RequestTokens(body) => assert_eq!(
            body,
            token_exchange_body("c", "http://localhost:1455/auth/callback", "AAEC")
        ),
        other => panic!("{:?}", other),
    }
    let known =
        IdentifiedLogin::on_tokens(&status(200, "200 OK"), "", Ok(came()), Ok(claims("acct")))
            .unwrap();
    assert_eq!(known.api_key_request(), api_key_exchange_body("h.e30.s"));
    let now = Timestamp::new(1_700_000_000, 0).unwrap();
    let no_key = Err(AuthError::ApiKeyResponse("bad".to_string()));
    let (file, summary) = known.complete_at(no_key, Location::at("/a"), now);
    assert_eq!(file.auth_mode, text("chatgpt"));
    assert_eq!(file.openai_api_key, None);
    assert_eq!(file.last_refresh, Some(now));
    let tokens = file.tokens.unwrap();
    assert_eq!(tokens.access_token, "access");
    assert_eq!(tokens.refresh_token, "refresh");
    assert_eq!(tokens.id_token, "h.e30.s");
    assert_eq!(tokens.account_id, text("acct"));
    assert_eq!(summary.email, text("me@example.com"));
    assert_eq!(summary.plan_type, text("pro"));
}

#[test]
fn login_keeps_an_api_key_that_came() {
    let known =
        IdentifiedLogin::on_tokens(&status(200, "200 OK"), "", Ok(came()), Ok(claims("acct")))
            .unwrap();
    let (file, _) = known.complete(Ok("sk".to_string()), Location::home());
    assert_eq!(file.openai_api_key, text("sk"));
    assert!(file.last_refresh.unwrap().secs() > 1_600_000_000);
}

#[test]
fn login_refuses_what_the_callback_refuses() {
    let login = Login::start();
    assert_eq!(login.pkce.code_verifier.len(), 86);
    match login.on_callback("/auth/callback?code=c&state=other") {
        LoginStep::Refuse { reply, error } => {
            assert_eq!(reply.unwrap().status, 400);
            assert!(matches!(error, AuthError::StateMismatch));
        }
        other => panic!("{:?}", other),
    }
}

#[test]
fn login_needs_tokens_with_readable_claims() {
    let fine = status(200, "200 OK");
    let error = IdentifiedLogin::on_tokens(&fine, "", Ok(came()), bad()).unwrap_err();
    assert_eq!(error.message(), "failed to parse id_token claims: bad");
    let error = IdentifiedLogin::on_tokens(&fine, "", bad(), bad()).unwrap_err();
    assert_eq!(error.message(), "failed to parse the token exchange response: bad");
    let error = IdentifiedLogin::on_tokens(&status(500, "500"), "", bad(), bad()).unwrap_err();
    assert!(matches!(error, AuthError::TokenExchange { .. }));
}
