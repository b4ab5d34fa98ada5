//! Logging in with a browser.

use vstd::prelude::*;
use vstd::string::*;
use vstd::utf8::encode_utf8;

use crate::auth::{
    auth_failure_text, parse_error_message, parse_id_token, stored_access, token_profile,
    AccessView, AuthError, AuthErrorView, AuthFile, AuthFileView, HttpStatus, IdClaims, ProfileView,
    TokenData, TokenView, UserProfile, AUTH_ISSUER, CLIENT_ID,
};
use crate::encoding::{
    base64_encode, base64_url, form_pairs, form_text, law_form_is_cut_at_ampersands, pair_texts,
    parts_view, random_bytes, read_url, sha256, sha256_digest, url_form, url_parts, write_form,
};
use crate::number::{decimal, decimal_text};
use crate::paths::{opt_text, Location, LocationView};
use crate::text::{same_text, split_at_each};
use crate::time::Timestamp;
use crate::views::{copy_opt, error_view, opt_view};

verus! {

pub const CALLBACK_PORT: u16 = 1455;

pub const CALLBACK_PATH: &'static str = "/auth/callback";

pub const ORIGINATOR: &'static str = "codex_cli_rs";

pub const LOGIN_SCOPE: &'static str =
    "openid profile email offline_access api.connectors.read api.connectors.invoke";

/// What to tell about a login that succeeded.
#[derive(Debug, Clone)]
pub struct LoginSummary {
    pub email: Option<String>,
    pub plan_type: Option<String>,
    pub auth_path: Location,
}

#[verifier::ext_equal]
pub struct SummaryView {
    pub email: Option<Seq<char>>,
    pub plan_type: Option<Seq<char>>,
    pub auth_path: LocationView,
}

impl View for LoginSummary {
    type V = SummaryView;

    open spec fn view(&self) -> SummaryView {
        SummaryView {
            email: opt_view(self.email),
            plan_type: opt_view(self.plan_type),
            auth_path: self.auth_path@,
        }
    }
}

/// The tokens that a login code was exchanged for.
#[derive(Debug)]
pub struct CodeExchangeResponse {
    pub id_token: String,
    pub access_token: String,
    pub refresh_token: String,
}

/// The secret of a login, and the digest of it that is sent first.
#[derive(Debug, Clone)]
pub struct PkceCodes {
    pub code_verifier: String,
    pub code_challenge: String,
}

#[verifier::ext_equal]
pub struct PkceView {
    pub code_verifier: Seq<char>,
    pub code_challenge: Seq<char>,
}

impl View for PkceCodes {
    type V = PkceView;

    open spec fn view(&self) -> PkceView {
        PkceView { code_verifier: self.code_verifier@, code_challenge: self.code_challenge@ }
    }
}

/// Where the browser is sent after the login.
pub open spec fn redirect_target() -> Seq<char> {
    "http://localhost:"@ + decimal(CALLBACK_PORT as int) + CALLBACK_PATH@
}

/// Where the browser is sent after the login.
pub fn redirect_uri() -> (r: String)
    ensures
        r@ == redirect_target(),
{
    "http://localhost:".to_string().concat(decimal_text(CALLBACK_PORT as usize).as_str()).concat(
        CALLBACK_PATH,
    )
}

/// Where to listen for the browser.
pub fn callback_address() -> (r: String)
    ensures
        r@ == "127.0.0.1:"@ + decimal(CALLBACK_PORT as int),
{
    "127.0.0.1:".to_string().concat(decimal_text(CALLBACK_PORT as usize).as_str())
}

/// The codes made from random bytes: the bytes in base64, and the SHA-256 digest of that text
/// in base64.
pub open spec fn pkce_of(bytes: Seq<u8>) -> PkceView {
    let verifier = base64_url(bytes);
    PkceView {
        code_verifier: verifier,
        code_challenge: base64_url(sha256(encode_utf8(verifier))),
    }
}

/// Makes the codes of a login from bytes.
pub fn pkce_from(bytes: &Vec<u8>) -> (r: PkceCodes)
    requires
        bytes@.len() * 2 <= usize::MAX,
    ensures
        r@ == pkce_of(bytes@),
        r.code_verifier@.len() == (bytes@.len() * 4 + 2) / 3,
        r.code_challenge@.len() == 43,
{
    let code_verifier = base64_encode(bytes.as_slice());
    let digest = sha256_digest(code_verifier.as_str().as_bytes());
    let code_challenge = base64_encode(digest.as_slice());
    PkceCodes { code_verifier, code_challenge }
}

/// Makes the codes of a login, from 64 random bytes.
pub fn generate_pkce() -> (r: PkceCodes)
    ensures
        exists|bytes: Seq<u8>| bytes.len() == 64 && r@ == pkce_of(bytes),
        r.code_verifier@.len() == 86,
        r.code_challenge@.len() == 43,
{
    let bytes = random_bytes(64);
    pkce_from(&bytes)
}

/// Makes the state of a login, from 32 random bytes.
pub fn generate_state() -> (r: String)
    ensures
        exists|bytes: Seq<u8>| bytes.len() == 32 && r@ == base64_url(bytes),
        r@.len() == 43,
{
    let bytes = random_bytes(32);
    base64_encode(bytes.as_slice())
}

/// The parameters of the login page.
pub open spec fn authorize_params(
    redirect_uri: Seq<char>,
    challenge: Seq<char>,
    state: Seq<char>,
) -> Seq<(Seq<char>, Seq<char>)> {
    seq![
        ("response_type"@, "code"@),
        ("client_id"@, CLIENT_ID@),
        ("redirect_uri"@, redirect_uri),
        ("scope"@, LOGIN_SCOPE@),
        ("code_challenge"@, challenge),
        ("code_challenge_method"@, "S256"@),
        ("id_token_add_organizations"@, "true"@),
        ("codex_cli_simplified_flow"@, "true"@),
        ("state"@, state),
        ("originator"@, ORIGINATOR@),
    ]
}

/// The address of the login page.
pub open spec fn authorize_url(
    redirect_uri: Seq<char>,
    challenge: Seq<char>,
    state: Seq<char>,
) -> Seq<char> {
    AUTH_ISSUER@ + "/oauth/authorize?"@ + form_text(
        authorize_params(redirect_uri, challenge, state),
    )
}

/// The address of the login page.
pub fn build_authorize_url(redirect_uri: &str, pkce: &PkceCodes, state: &str) -> (r: String)
    ensures
        r@ == authorize_url(redirect_uri@, pkce.code_challenge@, state@),
{
    let query: Vec<(&str, &str)> = vec![
        ("response_type", "code"),
        ("client_id", CLIENT_ID),
        ("redirect_uri", redirect_uri),
        ("scope", LOGIN_SCOPE),
        ("code_challenge", pkce.code_challenge.as_str()),
        ("code_challenge_method", "S256"),
        ("id_token_add_organizations", "true"),
        ("codex_cli_simplified_flow", "true"),
        ("state", state),
        ("originator", ORIGINATOR),
    ];
    assert(Seq::new(query@.len(), |i: int| (query@[i].0@, query@[i].1@)) =~= authorize_params(
        redirect_uri@,
        pkce.code_challenge@,
        state@,
    ));
    AUTH_ISSUER.to_string().concat("/oauth/authorize?").concat(write_form(&query).as_str())
}

/// What to answer the browser.
#[derive(Debug)]
pub struct CallbackReply {
    pub status: u16,
    pub html: bool,
    pub body: String,
}

#[verifier::ext_equal]
pub struct ReplyView {
    pub status: u16,
    pub html: bool,
    pub body: Seq<char>,
}

impl View for CallbackReply {
    type V = ReplyView;

    open spec fn view(&self) -> ReplyView {
        ReplyView { status: self.status, html: self.html, body: self.body@ }
    }
}

/// What to do about a callback.
#[derive(Debug)]
pub enum CallbackStep {
    /// Give up, after the answer if there is one.
    Refuse { reply: Option<CallbackReply>, error: AuthError },
    /// Exchange this code for tokens.
    Exchange(String),
}

pub enum CallbackStepView {
    Refuse { reply: Option<ReplyView>, error: AuthErrorView },
    Exchange(Seq<char>),
}

impl View for CallbackStep {
    type V = CallbackStepView;

    open spec fn view(&self) -> CallbackStepView {
        match self {
            CallbackStep::Refuse { reply, error } => CallbackStepView::Refuse {
                reply: opt_view(*reply),
                error: error@,
            },
            CallbackStep::Exchange(code) => CallbackStepView::Exchange(code@),
        }
    }
}

/// The value of the last pair with that key.
pub open spec fn last_value(pairs: Seq<(Seq<char>, Seq<char>)>, key: Seq<char>) -> Option<Seq<char>>
    decreases pairs.len(),
{
    if pairs.len() == 0 {
        None
    } else if pairs.last().0 == key {
        Some(pairs.last().1)
    } else {
        last_value(pairs.drop_last(), key)
    }
}

/// The value of the last pair with that key.
fn find_last<'a>(pairs: &'a Vec<(String, String)>, key: &str) -> (r: Option<&'a str>)
    ensures
        opt_text(r) == last_value(pair_texts(pairs@), key@),
{
    let ghost all = pair_texts(pairs@);
    let mut i: usize = pairs.len();
    assert(all.take(i as int) =~= all);
    while i > 0
        invariant
            i <= pairs@.len(),
            all == pair_texts(pairs@),
            last_value(all, key@) == last_value(all.take(i as int), key@),
        decreases i,
    {
        assert(all.take(i as int).drop_last() =~= all.take(i - 1));
        assert(all.take(i as int).last() == all[i - 1]);
        if same_text(pairs[i - 1].0.as_str(), key) {
            return Some(pairs[i - 1].1.as_str());
        }
        i -= 1;
    }
    None
}

/// The page that tells the browser that the login failed.
pub open spec fn failure_page(description: Seq<char>) -> Seq<char> {
    "<html><body><h1>Login failed</h1><p>"@ + description + "</p></body></html>"@
}

/// The page that tells the browser that the login is complete.
pub open spec fn success_page() -> Seq<char> {
    "<html><body><h1>Login complete</h1><p>You can return to the terminal.</p></body></html>"@
}

/// What to do about a callback. It counts if it comes to the right path, reports no error, and
/// brings back the state of this login and a code. Of a repeated parameter the last value counts.
pub open spec fn callback_step(
    parts: Result<(Seq<char>, Seq<(Seq<char>, Seq<char>)>), Seq<char>>,
    state: Seq<char>,
) -> CallbackStepView {
    match parts {
        Err(cause) => CallbackStepView::Refuse {
            reply: None,
            error: AuthErrorView::CallbackUrl(cause),
        },
        Ok((path, pairs)) => {
            let returned = last_value(pairs, "state"@);
            let code = last_value(pairs, "code"@);
            if path != CALLBACK_PATH@ {
                CallbackStepView::Refuse {
                    reply: Some(ReplyView { status: 404, html: false, body: "Not found"@ }),
                    error: AuthErrorView::UnexpectedPath(path),
                }
            } else if let Some(error) = last_value(pairs, "error"@) {
                let description = match last_value(pairs, "error_description"@) {
                    Some(text) => text,
                    None => error,
                };
                CallbackStepView::Refuse {
                    reply: Some(
                        ReplyView { status: 200, html: true, body: failure_page(description) },
                    ),
                    error: AuthErrorView::CallbackFailed(description),
                }
            } else if returned is None {
                CallbackStepView::Refuse { reply: None, error: AuthErrorView::MissingState }
            } else if returned->0 != state {
                CallbackStepView::Refuse {
                    reply: Some(ReplyView { status: 400, html: false, body: "State mismatch"@ }),
                    error: AuthErrorView::StateMismatch,
                }
            } else if let Some(code) = code {
                CallbackStepView::Exchange(code)
            } else {
                CallbackStepView::Refuse { reply: None, error: AuthErrorView::MissingCode }
            }
        },
    }
}

/// Judges a callback by the path and the query of its URL, or by why that could not be read.
pub fn judge_callback(
    parts: Result<(String, Vec<(String, String)>), String>,
    state: &str,
) -> (r: CallbackStep)
    ensures
        r@ == callback_step(parts_view(parts), state@),
{
    let (path, pairs) = match parts {
        Err(cause) => {
            return CallbackStep::Refuse { reply: None, error: AuthError::CallbackUrl(cause) };
        },
        Ok((path, pairs)) => (path, pairs),
    };
    if !same_text(path.as_str(), CALLBACK_PATH) {
        return CallbackStep::Refuse {
            reply: Some(
                CallbackReply { status: 404, html: false, body: "Not found".to_string() },
            ),
            error: AuthError::UnexpectedPath(path),
        };
    }
    if let Some(error) = find_last(&pairs, "error") {
        let description = match find_last(&pairs, "error_description") {
            Some(text) => text,
            None => error,
        };
        let page = "<html><body><h1>Login failed</h1><p>".to_string().concat(description).concat(
            "</p></body></html>",
        );
        return CallbackStep::Refuse {
            reply: Some(CallbackReply { status: 200, html: true, body: page }),
            error: AuthError::CallbackFailed(description.to_string()),
        };
    }
    match find_last(&pairs, "state") {
        None => CallbackStep::Refuse { reply: None, error: AuthError::MissingState },
        Some(returned) => {
            if !same_text(returned, state) {
                CallbackStep::Refuse {
                    reply: Some(
                        CallbackReply {
                            status: 400,
                            html: false,
                            body: "State mismatch".to_string(),
                        },
                    ),
                    error: AuthError::StateMismatch,
                }
            } else {
                match find_last(&pairs, "code") {
                    Some(code) => CallbackStep::Exchange(code.to_string()),
                    None => CallbackStep::Refuse { reply: None, error: AuthError::MissingCode },
                }
            }
        },
    }
}

/// Judges a callback by the resource that the browser has asked for.
pub fn receive_callback(request_url: &str, state: &str) -> (r: CallbackStep)
    ensures
        r@ == callback_step(url_parts("http://localhost"@ + request_url@), state@),
{
    let address = "http://localhost".to_string().concat(request_url);
    judge_callback(read_url(address.as_str()), state)
}

/// A code is exchanged only if the callback brought back the state of this login.
pub proof fn law_code_needs_matching_state(
    parts: Result<(Seq<char>, Seq<(Seq<char>, Seq<char>)>), Seq<char>>,
    state: Seq<char>,
)
    ensures
        callback_step(parts, state) matches CallbackStepView::Exchange(code) ==> {
            &&& parts matches Ok((path, pairs))
            &&& path == CALLBACK_PATH@
            &&& last_value(pairs, "error"@) is None
            &&& last_value(pairs, "state"@) == Some(state)
            &&& last_value(pairs, "code"@) == Some(code)
        },
{
}

/// The answer to the browser after the login.
pub fn login_complete_reply() -> (r: CallbackReply)
    ensures
        r@ == (ReplyView { status: 200, html: true, body: success_page() }),
{
    CallbackReply {
        status: 200,
        html: true,
        body:
            "<html><body><h1>Login complete</h1><p>You can return to the terminal.</p></body></html>".to_string(),
    }
}

/// The form that exchanges a login code for tokens.
pub open spec fn token_exchange_params(
    code: Seq<char>,
    redirect_uri: Seq<char>,
    code_verifier: Seq<char>,
) -> Seq<(Seq<char>, Seq<char>)> {
    seq![
        ("grant_type"@, "authorization_code"@),
        ("code"@, code),
        ("redirect_uri"@, redirect_uri),
        ("client_id"@, CLIENT_ID@),
        ("code_verifier"@, code_verifier),
    ]
}

/// The body of the request that exchanges a login code for tokens.
pub fn token_exchange_body(code: &str, redirect_uri: &str, code_verifier: &str) -> (r: String)
    ensures
        r@ == form_text(token_exchange_params(code@, redirect_uri@, code_verifier@)),
{
    let form: Vec<(&str, &str)> = vec![
        ("grant_type", "authorization_code"),
        ("code", code),
        ("redirect_uri", redirect_uri),
        ("client_id", CLIENT_ID),
        ("code_verifier", code_verifier),
    ];
    assert(Seq::new(form@.len(), |i: int| (form@[i].0@, form@[i].1@)) =~= token_exchange_params(
        code@,
        redirect_uri@,
        code_verifier@,
    ));
    write_form(&form)
}

/// The form that exchanges an ID token for an API key.
pub open spec fn api_key_exchange_params(id_token: Seq<char>) -> Seq<(Seq<char>, Seq<char>)> {
    seq![
        ("grant_type"@, "urn:ietf:params:oauth:grant-type:token-exchange"@),
        ("client_id"@, CLIENT_ID@),
        ("requested_token"@, "openai-api-key"@),
        ("subject_token"@, id_token),
        ("subject_token_type"@, "urn:ietf:params:oauth:token-type:id_token"@),
    ]
}

/// The body of the request that exchanges an ID token for an API key.
pub fn api_key_exchange_body(id_token: &str) -> (r: String)
    ensures
        r@ == form_text(api_key_exchange_params(id_token@)),
{
    let form: Vec<(&str, &str)> = vec![
        ("grant_type", "urn:ietf:params:oauth:grant-type:token-exchange"),
        ("client_id", CLIENT_ID),
        ("requested_token", "openai-api-key"),
        ("subject_token", id_token),
        ("subject_token_type", "urn:ietf:params:oauth:token-type:id_token"),
    ];
    assert(Seq::new(form@.len(), |i: int| (form@[i].0@, form@[i].1@)) =~= api_key_exchange_params(
        id_token@,
    ));
    write_form(&form)
}

/// What the answer to the exchange of a login code leads to.
pub open spec fn token_verdict(
    status: HttpStatus,
    body: Seq<char>,
    parsed: Result<CodeExchangeResponse, String>,
) -> Result<CodeExchangeResponse, AuthErrorView> {
    if !status.ok() {
        Err(AuthErrorView::TokenExchange { status: status.text@, detail: auth_failure_text(body) })
    } else {
        match parsed {
            Ok(tokens) => Ok(tokens),
            Err(cause) => Err(AuthErrorView::TokenResponse(cause@)),
        }
    }
}

/// Judges the answer to the exchange of a login code. `parsed` is what the body of a successful
/// answer could be read as, or why it could not.
pub fn exchange_code_for_tokens(
    status: &HttpStatus,
    body: &str,
    parsed: Result<CodeExchangeResponse, String>,
) -> (r: Result<CodeExchangeResponse, AuthError>)
    ensures
        error_view(r) == if !status.ok() {
            Err(
                AuthErrorView::TokenExchange {
                    status: status.text@,
                    detail: auth_failure_text(body@),
                },
            )
        } else {
            match parsed {
                Ok(tokens) => Ok(tokens),
                Err(cause) => Err(AuthErrorView::TokenResponse(cause@)),
            }
        },
        error_view(r) == token_verdict(*status, body@, parsed),
{
    if !status.is_success() {
        return Err(
            AuthError::TokenExchange {
                status: status.text.clone(),
                detail: parse_error_message(body),
            },
        );
    }
    match parsed {
        Ok(tokens) => Ok(tokens),
        Err(cause) => Err(AuthError::TokenResponse(cause)),
    }
}

/// What the answer to the exchange of an ID token leads to.
pub open spec fn key_verdict(
    status: HttpStatus,
    body: Seq<char>,
    parsed: Result<String, String>,
) -> Result<String, AuthErrorView> {
    if !status.ok() {
        Err(AuthErrorView::ApiKeyExchange { status: status.text@, detail: auth_failure_text(body) })
    } else {
        match parsed {
            Ok(key) => Ok(key),
            Err(cause) => Err(AuthErrorView::ApiKeyResponse(cause@)),
        }
    }
}

/// Judges the answer to the exchange of an ID token. `parsed` is the key that could be read from
/// the body of a successful answer, or why it could not.
pub fn exchange_id_token_for_api_key(
    status: &HttpStatus,
    body: &str,
    parsed: Result<String, String>,
) -> (r: Result<String, AuthError>)
    ensures
        error_view(r) == if !status.ok() {
            Err(
                AuthErrorView::ApiKeyExchange {
                    status: status.text@,
                    detail: auth_failure_text(body@),
                },
            )
        } else {
            match parsed {
                Ok(key) => Ok(key),
                Err(cause) => Err(AuthErrorView::ApiKeyResponse(cause@)),
            }
        },
        error_view(r) == key_verdict(*status, body@, parsed),
{
    if !status.is_success() {
        return Err(
            AuthError::ApiKeyExchange {
                status: status.text.clone(),
                detail: parse_error_message(body),
            },
        );
    }
    match parsed {
        Ok(key) => Ok(key),
        Err(cause) => Err(AuthError::ApiKeyResponse(cause)),
    }
}

/// What is stored after a login.
pub open spec fn login_record(
    tokens: CodeExchangeResponse,
    profile: ProfileView,
    api_key: Option<Seq<char>>,
    now: Timestamp,
) -> AuthFileView {
    AuthFileView {
        auth_mode: Some("chatgpt"@),
        openai_api_key: api_key,
        tokens: Some(
            TokenView {
                id_token: tokens.id_token@,
                access_token: tokens.access_token@,
                refresh_token: tokens.refresh_token@,
                account_id: profile.account_id,
            },
        ),
        last_refresh: Some(now),
    }
}

/// What to store after a login at the moment `now`.
pub fn login_auth_file_at(
    tokens: CodeExchangeResponse,
    profile: &UserProfile,
    api_key: Option<String>,
    now: Timestamp,
) -> (r: AuthFile)
    ensures
        r@ == login_record(tokens, profile@, opt_view(api_key), now),
{
    AuthFile {
        auth_mode: Some("chatgpt".to_string()),
        openai_api_key: api_key,
        tokens: Some(
            TokenData {
                account_id: copy_opt(&profile.account_id),
                id_token: tokens.id_token,
                access_token: tokens.access_token,
                refresh_token: tokens.refresh_token,
            },
        ),
        last_refresh: Some(now),
    }
}

/// A login that was just stored can be used at once, for the account in its profile.
pub proof fn law_fresh_login_gives_access(
    tokens: CodeExchangeResponse,
    profile: ProfileView,
    api_key: Option<Seq<char>>,
    now: Timestamp,
    claims: Result<IdClaims, String>,
)
    requires
        profile.account_id is Some,
    ensures
        stored_access(login_record(tokens, profile, api_key, now), claims) == Ok::<
            AccessView,
            AuthErrorView,
        >(AccessView { access_token: tokens.access_token@, account_id: profile.account_id->0 }),
{
}

/// A login under way: the page to open, and what its callback has to fit.
#[derive(Debug)]
pub struct Login {
    pub redirect_uri: String,
    pub pkce: PkceCodes,
    pub state: String,
    pub url: String,
}

#[verifier::ext_equal]
pub struct LoginView {
    pub redirect_uri: Seq<char>,
    pub pkce: PkceView,
    pub state: Seq<char>,
    pub url: Seq<char>,
}

impl View for Login {
    type V = LoginView;

    open spec fn view(&self) -> LoginView {
        LoginView {
            redirect_uri: self.redirect_uri@,
            pkce: self.pkce@,
            state: self.state@,
            url: self.url@,
        }
    }
}

/// The login that starts with these codes and this state.
pub open spec fn started(pkce: PkceView, state: Seq<char>) -> LoginView {
    LoginView {
        redirect_uri: redirect_target(),
        pkce,
        state,
        url: authorize_url(redirect_target(), pkce.code_challenge, state),
    }
}

/// What to do next in a login.
#[derive(Debug)]
pub enum LoginStep {
    /// Give up, after the answer to the browser if there is one.
    Refuse { reply: Option<CallbackReply>, error: AuthError },
    /// Ask for tokens with this form.
    RequestTokens(String),
}

pub enum LoginStepView {
    Refuse { reply: Option<ReplyView>, error: AuthErrorView },
    RequestTokens(Seq<char>),
}

impl View for LoginStep {
    type V = LoginStepView;

    open spec fn view(&self) -> LoginStepView {
        match self {
            LoginStep::Refuse { reply, error } => LoginStepView::Refuse {
                reply: opt_view(*reply),
                error: error@,
            },
            LoginStep::RequestTokens(body) => LoginStepView::RequestTokens(body@),
        }
    }
}

/// The step that follows a callback: a code is exchanged, with the secret of the login.
pub open spec fn step_after_callback(login: LoginView, verdict: CallbackStepView) -> LoginStepView {
    match verdict {
        CallbackStepView::Refuse { reply, error } => LoginStepView::Refuse { reply, error },
        CallbackStepView::Exchange(code) => LoginStepView::RequestTokens(
            form_text(token_exchange_params(code, login.redirect_uri, login.pkce.code_verifier)),
        ),
    }
}

impl Login {
    /// Starts a login with these codes and this state.
    pub fn start_with(pkce: PkceCodes, state: String) -> (r: Login)
        ensures
            r@ == started(pkce@, state@),
    {
        let redirect_uri = redirect_uri();
        let url = build_authorize_url(redirect_uri.as_str(), &pkce, state.as_str());
        Login { redirect_uri, pkce, state, url }
    }

    /// Starts a login with fresh codes.
    pub fn start() -> (r: Login)
        ensures
            r@ == started(r@.pkce, r@.state),
            exists|secret: Seq<u8>| secret.len() == 64 && r@.pkce == pkce_of(secret),
            exists|bytes: Seq<u8>| bytes.len() == 32 && r@.state == base64_url(bytes),
    {
        let pkce = generate_pkce();
        let state = generate_state();
        Login::start_with(pkce, state)
    }

    /// What follows the verdict on a callback.
    pub fn after_callback(&self, verdict: CallbackStep) -> (r: LoginStep)
        ensures
            r@ == step_after_callback(self@, verdict@),
    {
        match verdict {
            CallbackStep::Refuse { reply, error } => LoginStep::Refuse { reply, error },
            CallbackStep::Exchange(code) => LoginStep::RequestTokens(
                token_exchange_body(
                    code.as_str(),
                    self.redirect_uri.as_str(),
                    self.pkce.code_verifier.as_str(),
                ),
            ),
        }
    }

    /// What follows a callback for this resource.
    pub fn on_callback(&self, request_url: &str) -> (r: LoginStep)
        ensures
            r@ == step_after_callback(
                self@,
                callback_step(url_parts("http://localhost"@ + request_url@), self@.state),
            ),
    {
        self.after_callback(receive_callback(request_url, self.state.as_str()))
    }
}

/// The API key, if there is one.
pub open spec fn key_of(api_key: Result<String, AuthError>) -> Option<Seq<char>> {
    match api_key {
        Ok(key) => Some(key@),
        Err(_) => None,
    }
}

/// A login whose tokens have come.
#[derive(Debug)]
pub struct IdentifiedLogin {
    pub tokens: CodeExchangeResponse,
    pub profile: UserProfile,
}

impl IdentifiedLogin {
    /// Takes the answer to the request for tokens. `parsed` is what the body of a successful
    /// answer could be read as, `claims` what the payload of the ID token in it could be read as,
    /// or why they could not.
    pub fn on_tokens(
        status: &HttpStatus,
        body: &str,
        parsed: Result<CodeExchangeResponse, String>,
        claims: Result<IdClaims, String>,
    ) -> (r: Result<IdentifiedLogin, AuthError>)
        ensures
            match r {
                Ok(login) => {
                    &&& status.ok()
                    &&& parsed == Ok::<CodeExchangeResponse, String>(login.tokens)
                    &&& token_profile(login.tokens.id_token@, claims) == Ok::<
                        ProfileView,
                        AuthErrorView,
                    >(login.profile@)
                },
                Err(error) => error@ == if !status.ok() {
                    AuthErrorView::TokenExchange {
                        status: status.text@,
                        detail: auth_failure_text(body@),
                    }
                } else if let Err(cause) = parsed {
                    AuthErrorView::TokenResponse(cause@)
                } else {
                    token_profile(parsed->Ok_0.id_token@, claims)->Err_0
                },
            },
            r is Ok <==> status.ok() && parsed is Ok && token_profile(
                parsed->Ok_0.id_token@,
                claims,
            ) is Ok,
    {
        let tokens = match exchange_code_for_tokens(status, body, parsed) {
            Ok(tokens) => tokens,
            Err(error) => {
                return Err(error);
            },
        };
        match parse_id_token(tokens.id_token.as_str(), claims) {
            Ok(profile) => Ok(IdentifiedLogin { tokens, profile }),
            Err(error) => Err(error),
        }
    }

    /// The form that asks for an API key.
    pub fn api_key_request(&self) -> (r: String)
        ensures
            r@ == form_text(api_key_exchange_params(self.tokens.id_token@)),
    {
        api_key_exchange_body(self.tokens.id_token.as_str())
    }

    /// Completes the login at the moment `now`: what to store, and what to tell. A login without
    /// an API key is complete all the same.
    pub fn complete_at(
        self,
        api_key: Result<String, AuthError>,
        auth_path: Location,
        now: Timestamp,
    ) -> (r: (AuthFile, LoginSummary))
        ensures
            r.0@ == login_record(self.tokens, self.profile@, key_of(api_key), now),
            r.1@ == (SummaryView {
                email: self.profile@.email,
                plan_type: self.profile@.plan_type,
                auth_path: auth_path@,
            }),
    {
        let key = match api_key {
            Ok(key) => Some(key),
            Err(_) => None,
        };
        let auth = login_auth_file_at(self.tokens, &self.profile, key, now);
        let UserProfile { email, plan_type, account_id: _ } = self.profile;
        (auth, LoginSummary { email, plan_type, auth_path })
    }

    /// Completes the login now.
    pub fn complete(self, api_key: Result<String, AuthError>, auth_path: Location) -> (r: (
        AuthFile,
        LoginSummary,
    ))
        ensures
            exists|now: Timestamp|
                r.0@ == login_record(self.tokens, self.profile@, key_of(api_key), now),
            r.1@ == (SummaryView {
                email: self.profile@.email,
                plan_type: self.profile@.plan_type,
                auth_path: auth_path@,
            }),
    {
        let now = Timestamp::now();
        self.complete_at(api_key, auth_path, now)
    }
}

/// Whether pairs have a value for a key: the last one that stands there.
pub open spec fn has_value(
    pairs: Seq<(Seq<char>, Seq<char>)>,
    key: Seq<char>,
    value: Seq<char>,
) -> bool {
    exists|i: int|
        0 <= i < pairs.len() && #[trigger] pairs[i] == (key, value) && (forall|j: int|
            i < j < pairs.len() ==> (#[trigger] pairs[j]).0 != key)
}

/// Whether pairs have no value for a key.
pub open spec fn has_no_value(pairs: Seq<(Seq<char>, Seq<char>)>, key: Seq<char>) -> bool {
    forall|j: int| 0 <= j < pairs.len() ==> (#[trigger] pairs[j]).0 != key
}

/// Of several values for a key the last one counts.
pub proof fn law_last_value_counts(
    pairs: Seq<(Seq<char>, Seq<char>)>,
    key: Seq<char>,
    value: Seq<char>,
)
    ensures
        has_value(pairs, key, value) ==> last_value(pairs, key) == Some(value),
        has_no_value(pairs, key) ==> last_value(pairs, key) is None,
    decreases pairs.len(),
{
    if pairs.len() > 0 {
        let head = pairs.drop_last();
        law_last_value_counts(head, key, value);
        let n = pairs.len() - 1;
        if has_value(pairs, key, value) {
            let i = choose|i: int|
                0 <= i < pairs.len() && #[trigger] pairs[i] == (key, value) && (forall|j: int|
                    i < j < pairs.len() ==> (#[trigger] pairs[j]).0 != key);
            if i < n {
                assert(pairs[n].0 != key);
                assert(head[i] == (key, value));
                assert forall|j: int| i < j < head.len() implies (#[trigger] head[j]).0 != key by {
                    assert(head[j] == pairs[j]);
                }
                assert(has_value(head, key, value));
            }
        }
        if has_no_value(pairs, key) {
            assert(pairs[n].0 != key);
            assert forall|j: int| 0 <= j < head.len() implies (#[trigger] head[j]).0 != key by {
                assert(head[j] == pairs[j]);
            }
        }
    }
}

/// A callback at the right path, without an error and with the state of the login, brings exactly
/// the code that it carries. Each callback that lacks one of these is refused for what it lacks.
pub proof fn law_callback_brings_its_code(
    pairs: Seq<(Seq<char>, Seq<char>)>,
    state: Seq<char>,
    returned: Seq<char>,
    code: Seq<char>,
)
    requires
        has_no_value(pairs, "error"@),
    ensures
        ({
            let step = callback_step(Ok(("/auth/callback"@, pairs)), state);
            &&& has_value(pairs, "state"@, state) && has_value(pairs, "code"@, code) ==> step
                == CallbackStepView::Exchange(code)
            &&& has_value(pairs, "state"@, state) && has_no_value(pairs, "code"@) ==> (
            step matches CallbackStepView::Refuse { error, .. } && error
                == AuthErrorView::MissingCode)
            &&& has_value(pairs, "state"@, returned) && returned != state ==> (
            step matches CallbackStepView::Refuse { reply: Some(reply), error } && error
                == AuthErrorView::StateMismatch && reply.status == 400)
            &&& has_no_value(pairs, "state"@) ==> (step matches CallbackStepView::Refuse {
                error,
                ..
            } && error == AuthErrorView::MissingState)
        }),
{
    law_last_value_counts(pairs, "error"@, code);
    law_last_value_counts(pairs, "state"@, state);
    law_last_value_counts(pairs, "state"@, returned);
    law_last_value_counts(pairs, "code"@, code);
}

/// A callback that reports an error is refused with its description, or else with the error
/// itself, and the page shown says the same; one at another path is not found, and one that cannot
/// be read is refused with the cause.
pub proof fn law_refused_callback_says_why(
    path: Seq<char>,
    pairs: Seq<(Seq<char>, Seq<char>)>,
    state: Seq<char>,
    error: Seq<char>,
    description: Seq<char>,
    cause: Seq<char>,
)
    ensures
        has_value(pairs, "error"@, error) && has_value(pairs, "error_description"@, description)
            ==> (callback_step(Ok(("/auth/callback"@, pairs)), state) matches
            CallbackStepView::Refuse { reply: Some(reply), error: refused } && refused
            == AuthErrorView::CallbackFailed(description) && reply.html && reply.body
            == failure_page(description)),
        has_value(pairs, "error"@, error) && has_no_value(pairs, "error_description"@) ==> (
        callback_step(Ok(("/auth/callback"@, pairs)), state) matches CallbackStepView::Refuse {
            reply: Some(reply),
            error: refused,
        } && refused == AuthErrorView::CallbackFailed(error) && reply.html && reply.body
            == failure_page(error)),
        path != "/auth/callback"@ ==> (callback_step(Ok((path, pairs)), state) matches
            CallbackStepView::Refuse { reply: Some(reply), error: refused } && refused
            == AuthErrorView::UnexpectedPath(path) && reply.status == 404),
        callback_step(Err(cause), state) matches CallbackStepView::Refuse {
            reply: None,
            error: refused,
        } && refused == AuthErrorView::CallbackUrl(cause),
{
    law_last_value_counts(pairs, "error"@, error);
    law_last_value_counts(pairs, "error_description"@, description);
}

/// The tokens are asked for with the code that the callback brought, the address that it came
/// back to and the verifier of this login: these are the pieces of the form, each encoded.
pub proof fn law_token_request_carries_the_code(login: LoginView, code: Seq<char>)
    ensures
        step_after_callback(login, CallbackStepView::Exchange(code)) matches
            LoginStepView::RequestTokens(form) && split_at_each(form, '&') == seq![
            "grant_type"@ + "="@ + url_form("authorization_code"@),
            "code"@ + "="@ + url_form(code),
            "redirect_uri"@ + "="@ + url_form(login.redirect_uri),
            "client_id"@ + "="@ + url_form(CLIENT_ID@),
            "code_verifier"@ + "="@ + url_form(login.pkce.code_verifier),
        ],
{
    let pairs = token_exchange_params(code, login.redirect_uri, login.pkce.code_verifier);
    reveal_strlit("grant_type");
    reveal_strlit("code");
    reveal_strlit("redirect_uri");
    reveal_strlit("client_id");
    reveal_strlit("code_verifier");
    assert forall|i: int, k: int|
        0 <= i < pairs.len() && 0 <= k < pairs[i].0.len() implies #[trigger] pairs[i].0[k]
        != '&' by {
        assert(i == 0 || i == 1 || i == 2 || i == 3 || i == 4);
    }
    law_form_is_cut_at_ampersands(pairs);
    assert(form_pairs(pairs) =~= seq![
        "grant_type"@ + "="@ + url_form("authorization_code"@),
        "code"@ + "="@ + url_form(code),
        "redirect_uri"@ + "="@ + url_form(login.redirect_uri),
        "client_id"@ + "="@ + url_form(CLIENT_ID@),
        "code_verifier"@ + "="@ + url_form(login.pkce.code_verifier),
    ]);
}

/// The key is asked for with the ID token of this login.
pub proof fn law_key_request_carries_the_id_token(id_token: Seq<char>)
    ensures
        split_at_each(form_text(api_key_exchange_params(id_token)), '&') == seq![
            "grant_type"@ + "="@ + url_form("urn:ietf:params:oauth:grant-type:token-exchange"@),
            "client_id"@ + "="@ + url_form(CLIENT_ID@),
            "requested_token"@ + "="@ + url_form("openai-api-key"@),
            "subject_token"@ + "="@ + url_form(id_token),
            "subject_token_type"@ + "="@ + url_form("urn:ietf:params:oauth:token-type:id_token"@),
        ],
{
    let pairs = api_key_exchange_params(id_token);
    reveal_strlit("grant_type");
    reveal_strlit("client_id");
    reveal_strlit("requested_token");
    reveal_strlit("subject_token");
    reveal_strlit("subject_token_type");
    assert forall|i: int, k: int|
        0 <= i < pairs.len() && 0 <= k < pairs[i].0.len() implies #[trigger] pairs[i].0[k]
        != '&' by {
        assert(i == 0 || i == 1 || i == 2 || i == 3 || i == 4);
    }
    law_form_is_cut_at_ampersands(pairs);
    assert(form_pairs(pairs) =~= seq![
        "grant_type"@ + "="@ + url_form("urn:ietf:params:oauth:grant-type:token-exchange"@),
        "client_id"@ + "="@ + url_form(CLIENT_ID@),
        "requested_token"@ + "="@ + url_form("openai-api-key"@),
        "subject_token"@ + "="@ + url_form(id_token),
        "subject_token_type"@ + "="@ + url_form("urn:ietf:params:oauth:token-type:id_token"@),
    ]);
}

/// The address that the browser is sent to carries the challenge and the state of this login and
/// the address to come back to, which is also the one that the tokens are asked for with.
pub proof fn law_started_login_is_asked_for(pkce: PkceView, state: Seq<char>)
    ensures
        ({
            let login = started(pkce, state);
            let front = "https://auth.openai.com"@ + "/oauth/authorize?"@;
            let pieces = split_at_each(login.url.skip(front.len() as int), '&');
            &&& login.pkce == pkce
            &&& login.state == state
            &&& login.url.len() >= front.len()
            &&& login.url.take(front.len() as int) == front
            &&& pieces.len() == 10
            &&& pieces[0] == "response_type"@ + "="@ + url_form("code"@)
            &&& pieces[1] == "client_id"@ + "="@ + url_form(CLIENT_ID@)
            &&& pieces[2] == "redirect_uri"@ + "="@ + url_form(login.redirect_uri)
            &&& pieces[3] == "scope"@ + "="@ + url_form(LOGIN_SCOPE@)
            &&& pieces[4] == "code_challenge"@ + "="@ + url_form(pkce.code_challenge)
            &&& pieces[5] == "code_challenge_method"@ + "="@ + url_form("S256"@)
            &&& pieces[8] == "state"@ + "="@ + url_form(state)
            &&& pieces[9] == "originator"@ + "="@ + url_form(ORIGINATOR@)
        }),
{
    let login = started(pkce, state);
    let front = "https://auth.openai.com"@ + "/oauth/authorize?"@;
    let pairs = authorize_params(login.redirect_uri, pkce.code_challenge, state);
    assert(login.url =~= front + form_text(pairs));
    assert(login.url.take(front.len() as int) =~= front);
    assert(login.url.skip(front.len() as int) =~= form_text(pairs));
    reveal_strlit("response_type");
    reveal_strlit("client_id");
    reveal_strlit("redirect_uri");
    reveal_strlit("scope");
    reveal_strlit("code_challenge");
    reveal_strlit("code_challenge_method");
    reveal_strlit("id_token_add_organizations");
    reveal_strlit("codex_cli_simplified_flow");
    reveal_strlit("state");
    reveal_strlit("originator");
    assert forall|i: int, k: int|
        0 <= i < pairs.len() && 0 <= k < pairs[i].0.len() implies #[trigger] pairs[i].0[k]
        != '&' by {
        assert(i == 0 || i == 1 || i == 2 || i == 3 || i == 4 || i == 5 || i == 6 || i == 7 || i
            == 8 || i == 9);
    }
    law_form_is_cut_at_ampersands(pairs);
}

/// The challenge is made from the verifier that is sent later, and from nothing else.
pub proof fn law_challenge_belongs_to_the_verifier(bytes: Seq<u8>)
    ensures
        pkce_of(bytes).code_verifier == base64_url(bytes),
        pkce_of(bytes).code_challenge == base64_url(
            sha256(encode_utf8(pkce_of(bytes).code_verifier)),
        ),
{
}

/// What is stored of a login is what came: each token in its place, the account of the profile,
/// the key if there is one, and the moment.
pub proof fn law_login_stores_what_came(
    tokens: CodeExchangeResponse,
    profile: ProfileView,
    api_key: Result<String, AuthError>,
    now: Timestamp,
)
    ensures
        ({
            let record = login_record(tokens, profile, key_of(api_key), now);
            &&& record.tokens matches Some(stored)
            &&& stored.id_token == tokens.id_token@
            &&& stored.access_token == tokens.access_token@
            &&& stored.refresh_token == tokens.refresh_token@
            &&& stored.account_id == profile.account_id
            &&& record.auth_mode == Some("chatgpt"@)
            &&& record.last_refresh == Some(now)
            &&& api_key matches Ok(key) ==> record.openai_api_key == Some(key@)
            &&& api_key is Err ==> record.openai_api_key is None
        }),
{
}

/// The tokens and the key that an answer of success brings are taken as they came; any other
/// status, and an answer that could not be read, is an error that says why.
pub proof fn law_exchange_takes_what_came(
    status: HttpStatus,
    body: Seq<char>,
    tokens: CodeExchangeResponse,
    key: String,
    cause: String,
)
    ensures
        200 <= status.code < 300 ==> {
            &&& token_verdict(status, body, Ok(tokens)) == Ok::<
                CodeExchangeResponse,
                AuthErrorView,
            >(tokens)
            &&& key_verdict(status, body, Ok(key)) == Ok::<String, AuthErrorView>(key)
            &&& token_verdict(status, body, Err(cause)) == Err::<
                CodeExchangeResponse,
                AuthErrorView,
            >(AuthErrorView::TokenResponse(cause@))
            &&& key_verdict(status, body, Err(cause)) == Err::<String, AuthErrorView>(
                AuthErrorView::ApiKeyResponse(cause@),
            )
        },
        !(200 <= status.code < 300) ==> {
            &&& token_verdict(status, body, Ok(tokens)) == Err::<
                CodeExchangeResponse,
                AuthErrorView,
            >(
                AuthErrorView::TokenExchange {
                    status: status.text@,
                    detail: auth_failure_text(body),
                },
            )
            &&& key_verdict(status, body, Ok(key)) == Err::<String, AuthErrorView>(
                AuthErrorView::ApiKeyExchange {
                    status: status.text@,
                    detail: auth_failure_text(body),
                },
            )
        },
{
}

/// The browser comes back to this machine, to the port and the path that are waited at.
pub proof fn law_browser_comes_back_here()
    ensures
        redirect_target() == "http://localhost:1455/auth/callback"@,
{
    reveal_strlit("http://localhost:");
    reveal_strlit("/auth/callback");
    reveal_strlit("http://localhost:1455/auth/callback");
    reveal_with_fuel(decimal, 4);
    assert(decimal(1455) =~= seq!['1', '4', '5', '5']);
    assert(redirect_target() =~= "http://localhost:1455/auth/callback"@);
}

/// The page of a failed login shows the description as it is.
pub proof fn law_failure_page_shows_the_description(description: Seq<char>)
    ensures
        ({
            let front = "<html><body><h1>Login failed</h1><p>"@;
            let rest = failure_page(description).skip(front.len() as int);
            &&& failure_page(description).take(front.len() as int) == front
            &&& rest.take(description.len() as int) == description
            &&& rest.skip(description.len() as int) == "</p></body></html>"@
        }),
{
    let front = "<html><body><h1>Login failed</h1><p>"@;
    let back = "</p></body></html>"@;
    let rest = failure_page(description).skip(front.len() as int);
    assert(failure_page(description).take(front.len() as int) =~= front);
    assert(rest =~= description + back);
    assert(rest.take(description.len() as int) =~= description);
    assert(rest.skip(description.len() as int) =~= back);
}

} // verus!
