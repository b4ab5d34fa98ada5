//! The tokens that a login leaves behind.

use vstd::prelude::*;
use vstd::string::*;

use crate::encoding::{base64_decode, base64_url_bytes};
use crate::json::{
    holds, json_of, json_opt, lacks, law_member_is_the_first_of_its_name, parse_json_if, Json,
    JsonView,
};
use crate::lines::{blank, lemma_trimmed_is, tight};
use crate::paths::{
    law_setting_names_the_place, opt_text, resolve_setting, setting_or_home, AnchorView, Location,
    LocationView,
};
use crate::text::{lemma_split_add, lemma_split_none, split_at_each, split_on, texts, trim, trimmed};
use crate::time::Timestamp;
use crate::views::{error_view, ok_of, opt_view, result_view};

verus! {

pub const AUTH_ISSUER: &'static str = "https://auth.openai.com";

pub const CHATGPT_BASE_URL: &'static str = "https://chatgpt.com/backend-api";

pub const CLIENT_ID: &'static str = "app_EMoamEEZ73f0CkXaXp7hrann";

/// What is stored of a login.
#[derive(Debug, Clone)]
pub struct AuthFile {
    pub auth_mode: Option<String>,
    pub openai_api_key: Option<String>,
    pub tokens: Option<TokenData>,
    pub last_refresh: Option<Timestamp>,
}

/// The tokens of a login.
#[derive(Debug, Clone)]
pub struct TokenData {
    pub id_token: String,
    pub access_token: String,
    pub refresh_token: String,
    pub account_id: Option<String>,
}

/// A stored login, and where it is stored.
#[derive(Debug, Clone)]
pub struct AuthSession {
    pub auth: AuthFile,
    pub auth_path: Location,
}

/// What the ID token tells about the user.
#[derive(Debug, Clone)]
pub struct UserProfile {
    pub email: Option<String>,
    pub plan_type: Option<String>,
    pub account_id: Option<String>,
}

/// What a chat request identifies itself with.
#[derive(Debug, Clone)]
pub struct ChatGptAccess {
    pub access_token: String,
    pub account_id: String,
}

/// The tokens that a refresh has renewed.
#[derive(Debug)]
pub struct RefreshResponse {
    pub id_token: Option<String>,
    pub access_token: Option<String>,
    pub refresh_token: Option<String>,
}

/// The claims of an ID token that are of interest.
#[derive(Debug)]
pub struct IdClaims {
    pub email: Option<String>,
    pub profile: Option<ProfileClaims>,
    pub auth: Option<AuthClaims>,
}

/// The claims about the profile of the user.
#[derive(Debug)]
pub struct ProfileClaims {
    pub email: Option<String>,
}

/// The claims about the account of the user.
#[derive(Debug)]
pub struct AuthClaims {
    pub chatgpt_plan_type: Option<String>,
    pub chatgpt_account_id: Option<String>,
}

/// The status of a response: its code, and the code with its meaning as text.
#[derive(Debug)]
pub struct HttpStatus {
    pub code: u16,
    pub text: String,
}

/// What to ask for new tokens with.
#[derive(Debug)]
pub struct RefreshRequest {
    pub client_id: String,
    pub grant_type: String,
    pub refresh_token: String,
}

#[verifier::ext_equal]
pub struct TokenView {
    pub id_token: Seq<char>,
    pub access_token: Seq<char>,
    pub refresh_token: Seq<char>,
    pub account_id: Option<Seq<char>>,
}

#[verifier::ext_equal]
pub struct AuthFileView {
    pub auth_mode: Option<Seq<char>>,
    pub openai_api_key: Option<Seq<char>>,
    pub tokens: Option<TokenView>,
    pub last_refresh: Option<Timestamp>,
}

#[verifier::ext_equal]
pub struct SessionView {
    pub auth: AuthFileView,
    pub auth_path: LocationView,
}

#[verifier::ext_equal]
pub struct ProfileView {
    pub email: Option<Seq<char>>,
    pub plan_type: Option<Seq<char>>,
    pub account_id: Option<Seq<char>>,
}

#[verifier::ext_equal]
pub struct AccessView {
    pub access_token: Seq<char>,
    pub account_id: Seq<char>,
}

#[verifier::ext_equal]
pub struct RefreshRequestView {
    pub client_id: Seq<char>,
    pub grant_type: Seq<char>,
    pub refresh_token: Seq<char>,
}

impl View for TokenData {
    type V = TokenView;

    open spec fn view(&self) -> TokenView {
        TokenView {
            id_token: self.id_token@,
            access_token: self.access_token@,
            refresh_token: self.refresh_token@,
            account_id: opt_view(self.account_id),
        }
    }
}

impl View for AuthFile {
    type V = AuthFileView;

    open spec fn view(&self) -> AuthFileView {
        AuthFileView {
            auth_mode: opt_view(self.auth_mode),
            openai_api_key: opt_view(self.openai_api_key),
            tokens: opt_view(self.tokens),
            last_refresh: self.last_refresh,
        }
    }
}

impl View for AuthSession {
    type V = SessionView;

    open spec fn view(&self) -> SessionView {
        SessionView { auth: self.auth@, auth_path: self.auth_path@ }
    }
}

impl View for UserProfile {
    type V = ProfileView;

    open spec fn view(&self) -> ProfileView {
        ProfileView {
            email: opt_view(self.email),
            plan_type: opt_view(self.plan_type),
            account_id: opt_view(self.account_id),
        }
    }
}

impl View for ChatGptAccess {
    type V = AccessView;

    open spec fn view(&self) -> AccessView {
        AccessView { access_token: self.access_token@, account_id: self.account_id@ }
    }
}

impl View for RefreshRequest {
    type V = RefreshRequestView;

    open spec fn view(&self) -> RefreshRequestView {
        RefreshRequestView {
            client_id: self.client_id@,
            grant_type: self.grant_type@,
            refresh_token: self.refresh_token@,
        }
    }
}

/// Why a login, or the use of one, fails.
#[derive(Debug)]
pub enum AuthError {
    HomeUnknown,
    CallbackUrl(String),
    UnexpectedPath(String),
    CallbackFailed(String),
    MissingState,
    StateMismatch,
    MissingCode,
    NoTokens,
    NoAccountId,
    NoRefreshToken,
    MissingTokens,
    TokenExchange { status: String, detail: String },
    ApiKeyExchange { status: String, detail: String },
    TokenRefresh { status: String, detail: String },
    TokenResponse(String),
    ApiKeyResponse(String),
    RefreshResponse(String),
    JwtFormat,
    JwtPayload(String),
    IdClaims(String),
}

pub enum AuthErrorView {
    HomeUnknown,
    CallbackUrl(Seq<char>),
    UnexpectedPath(Seq<char>),
    CallbackFailed(Seq<char>),
    MissingState,
    StateMismatch,
    MissingCode,
    NoTokens,
    NoAccountId,
    NoRefreshToken,
    MissingTokens,
    TokenExchange { status: Seq<char>, detail: Seq<char> },
    ApiKeyExchange { status: Seq<char>, detail: Seq<char> },
    TokenRefresh { status: Seq<char>, detail: Seq<char> },
    TokenResponse(Seq<char>),
    ApiKeyResponse(Seq<char>),
    RefreshResponse(Seq<char>),
    JwtFormat,
    JwtPayload(Seq<char>),
    IdClaims(Seq<char>),
}

impl View for AuthError {
    type V = AuthErrorView;

    open spec fn view(&self) -> AuthErrorView {
        match self {
            AuthError::HomeUnknown => AuthErrorView::HomeUnknown,
            AuthError::CallbackUrl(cause) => AuthErrorView::CallbackUrl(cause@),
            AuthError::UnexpectedPath(path) => AuthErrorView::UnexpectedPath(path@),
            AuthError::CallbackFailed(text) => AuthErrorView::CallbackFailed(text@),
            AuthError::MissingState => AuthErrorView::MissingState,
            AuthError::StateMismatch => AuthErrorView::StateMismatch,
            AuthError::MissingCode => AuthErrorView::MissingCode,
            AuthError::NoTokens => AuthErrorView::NoTokens,
            AuthError::NoAccountId => AuthErrorView::NoAccountId,
            AuthError::NoRefreshToken => AuthErrorView::NoRefreshToken,
            AuthError::MissingTokens => AuthErrorView::MissingTokens,
            AuthError::TokenExchange { status, detail } => AuthErrorView::TokenExchange {
                status: status@,
                detail: detail@,
            },
            AuthError::ApiKeyExchange { status, detail } => AuthErrorView::ApiKeyExchange {
                status: status@,
                detail: detail@,
            },
            AuthError::TokenRefresh { status, detail } => AuthErrorView::TokenRefresh {
                status: status@,
                detail: detail@,
            },
            AuthError::TokenResponse(cause) => AuthErrorView::TokenResponse(cause@),
            AuthError::ApiKeyResponse(cause) => AuthErrorView::ApiKeyResponse(cause@),
            AuthError::RefreshResponse(cause) => AuthErrorView::RefreshResponse(cause@),
            AuthError::JwtFormat => AuthErrorView::JwtFormat,
            AuthError::JwtPayload(cause) => AuthErrorView::JwtPayload(cause@),
            AuthError::IdClaims(cause) => AuthErrorView::IdClaims(cause@),
        }
    }
}

impl AuthErrorView {
    /// What to tell the user.
    pub open spec fn message(self) -> Seq<char> {
        match self {
            AuthErrorView::HomeUnknown => "could not determine the home directory"@,
            AuthErrorView::CallbackUrl(cause) => "failed to parse the callback URL: "@ + cause,
            AuthErrorView::UnexpectedPath(path) => "unexpected callback path: "@ + path,
            AuthErrorView::CallbackFailed(text) => "oauth callback failed: "@ + text,
            AuthErrorView::MissingState => "oauth callback was missing state"@,
            AuthErrorView::StateMismatch => "oauth callback state did not match the login request"@,
            AuthErrorView::MissingCode => "oauth callback was missing code"@,
            AuthErrorView::NoTokens => "stored auth does not contain ChatGPT tokens"@,
            AuthErrorView::NoAccountId => "stored auth does not contain a ChatGPT account id"@,
            AuthErrorView::NoRefreshToken => "stored auth does not contain a refresh token"@,
            AuthErrorView::MissingTokens => "stored auth is missing tokens"@,
            AuthErrorView::TokenExchange { status, detail } =>
                "token exchange failed with status "@ + status + ": "@ + detail,
            AuthErrorView::ApiKeyExchange { status, detail } =>
                "API key exchange failed with status "@ + status + ": "@ + detail,
            AuthErrorView::TokenRefresh { status, detail } => "token refresh failed with status "@
                + status + ": "@ + detail,
            AuthErrorView::TokenResponse(cause) =>
                "failed to parse the token exchange response: "@ + cause,
            AuthErrorView::ApiKeyResponse(cause) =>
                "failed to parse the API key exchange response: "@ + cause,
            AuthErrorView::RefreshResponse(cause) =>
                "failed to parse the token refresh response: "@ + cause,
            AuthErrorView::JwtFormat => "invalid JWT format"@,
            AuthErrorView::JwtPayload(cause) => "failed to decode JWT payload: "@ + cause,
            AuthErrorView::IdClaims(cause) => "failed to parse id_token claims: "@ + cause,
        }
    }
}

fn status_message(lead: &str, status: &str, detail: &str) -> (r: String)
    ensures
        r@ == lead@ + status@ + ": "@ + detail@,
{
    let mut r = lead.to_string();
    r.append(status);
    r.append(": ");
    r.append(detail);
    r
}

impl AuthError {
    /// What to tell the user.
    pub fn message(&self) -> (r: String)
        ensures
            r@ == self@.message(),
    {
        match self {
            AuthError::HomeUnknown => "could not determine the home directory".to_string(),
            AuthError::CallbackUrl(cause) =>
                "failed to parse the callback URL: ".to_string().concat(cause.as_str()),
            AuthError::UnexpectedPath(path) => "unexpected callback path: ".to_string().concat(
                path.as_str(),
            ),
            AuthError::CallbackFailed(text) => "oauth callback failed: ".to_string().concat(
                text.as_str(),
            ),
            AuthError::MissingState => "oauth callback was missing state".to_string(),
            AuthError::StateMismatch =>
                "oauth callback state did not match the login request".to_string(),
            AuthError::MissingCode => "oauth callback was missing code".to_string(),
            AuthError::NoTokens => "stored auth does not contain ChatGPT tokens".to_string(),
            AuthError::NoAccountId =>
                "stored auth does not contain a ChatGPT account id".to_string(),
            AuthError::NoRefreshToken => "stored auth does not contain a refresh token".to_string(),
            AuthError::MissingTokens => "stored auth is missing tokens".to_string(),
            AuthError::TokenExchange { status, detail } => status_message(
                "token exchange failed with status ",
                status.as_str(),
                detail.as_str(),
            ),
            AuthError::ApiKeyExchange { status, detail } => status_message(
                "API key exchange failed with status ",
                status.as_str(),
                detail.as_str(),
            ),
            AuthError::TokenRefresh { status, detail } => status_message(
                "token refresh failed with status ",
                status.as_str(),
                detail.as_str(),
            ),
            AuthError::TokenResponse(cause) =>
                "failed to parse the token exchange response: ".to_string().concat(cause.as_str()),
            AuthError::ApiKeyResponse(cause) =>
                "failed to parse the API key exchange response: ".to_string().concat(cause.as_str()),
            AuthError::RefreshResponse(cause) =>
                "failed to parse the token refresh response: ".to_string().concat(cause.as_str()),
            AuthError::JwtFormat => "invalid JWT format".to_string(),
            AuthError::JwtPayload(cause) => "failed to decode JWT payload: ".to_string().concat(
                cause.as_str(),
            ),
            AuthError::IdClaims(cause) => "failed to parse id_token claims: ".to_string().concat(
                cause.as_str(),
            ),
        }
    }
}

impl HttpStatus {
    /// Whether the request was answered as asked: the codes from 200 to 299.
    pub open spec fn ok(self) -> bool {
        200 <= self.code < 300
    }

    /// Whether the request was answered as asked.
    pub fn is_success(&self) -> (r: bool)
        ensures
            r == self.ok(),
    {
        200 <= self.code && self.code < 300
    }
}

/// The directory for the login: what the setting names, or `.codex` in the home directory.
pub fn codex_home(value: Option<&str>, home_known: bool) -> (r: Result<Location, AuthError>)
    ensures
        result_view(r) == codex_home_of(opt_text(value), home_known),
{
    match resolve_setting(value, home_known, ".codex") {
        Ok(place) => Ok(place),
        Err(_) => Err(AuthError::HomeUnknown),
    }
}

/// The directory for the login: what the setting names, or `.codex` in the home directory.
pub open spec fn codex_home_of(value: Option<Seq<char>>, home_known: bool) -> Result<
    LocationView,
    AuthErrorView,
> {
    match setting_or_home(value, home_known, ".codex"@) {
        Ok(place) => Ok(place),
        Err(_) => Err(AuthErrorView::HomeUnknown),
    }
}

/// The file of the login: `auth.json` in its directory.
pub open spec fn auth_path_of(value: Option<Seq<char>>, home_known: bool) -> Result<
    LocationView,
    AuthErrorView,
> {
    match codex_home_of(value, home_known) {
        Ok(place) => Ok(place.child("auth.json"@)),
        Err(e) => Err(e),
    }
}

/// The file of the login: `value` is the directory for it where one is set.
pub fn auth_file_path(value: Option<&str>, home_known: bool) -> (r: Result<Location, AuthError>)
    ensures
        result_view(r) == auth_path_of(opt_text(value), home_known),
{
    match codex_home(value, home_known) {
        Ok(home) => Ok(home.join("auth.json")),
        Err(e) => Err(e),
    }
}

/// The address of a path of the chat service.
pub fn chatgpt_api_url(path: &str) -> (r: String)
    ensures
        r@ == CHATGPT_BASE_URL@ + path@,
{
    CHATGPT_BASE_URL.to_string().concat(path)
}

/// Where tokens are asked for.
pub fn token_url() -> (r: String)
    ensures
        r@ == AUTH_ISSUER@ + "/oauth/token"@,
{
    AUTH_ISSUER.to_string().concat("/oauth/token")
}

/// The text of a member inside the member `error`.
pub open spec fn nested_error_text(json: JsonView, key: Seq<char>) -> Option<Seq<char>> {
    match json.member("error"@) {
        Some(error) => error.text_at(key),
        None => None,
    }
}

/// What an answer of the login service says about an error: its `error_description`, else the
/// `message` inside `error`, else `error` itself, the first of them that is a text.
pub open spec fn auth_error_detail(json: JsonView) -> Option<Seq<char>> {
    if json.text_at("error_description"@) is Some {
        json.text_at("error_description"@)
    } else if nested_error_text(json, "message"@) is Some {
        nested_error_text(json, "message"@)
    } else {
        json.text_at("error"@)
    }
}

/// The text of a member inside the member `error`.
pub(crate) fn find_nested_error_text(json: &Json, key: &str) -> (r: Option<String>)
    ensures
        opt_view(r) == nested_error_text(json@, key@),
{
    match json.get("error") {
        Some(error) => error.text_at(key),
        None => None,
    }
}

/// What an answer of the login service says about an error.
pub fn auth_error_text(json: &Json) -> (r: Option<String>)
    ensures
        opt_view(r) == auth_error_detail(json@),
{
    if let Some(text) = json.text_at("error_description") {
        return Some(text);
    }
    if let Some(text) = find_nested_error_text(json, "message") {
        return Some(text);
    }
    json.text_at("error")
}

/// What a failed request says, given its body without white space around it and what that could
/// be read as: the detail in it, if there is one, else the body itself.
pub open spec fn auth_failure_from(body: Seq<char>, json: Option<JsonView>) -> Seq<char> {
    if body.len() == 0 {
        "unknown error"@
    } else {
        match json {
            Some(json) => match auth_error_detail(json) {
                Some(text) => text,
                None => body,
            },
            None => body,
        }
    }
}

/// What the body of a failed request says.
pub open spec fn auth_failure_text(raw: Seq<char>) -> Seq<char> {
    auth_failure_from(trimmed(raw), ok_of(json_of(trimmed(raw))))
}

/// What a failed request to the login service says. `json` is what the body, without the white
/// space around it, could be read as.
pub fn error_message_from(raw: &str, json: Option<Json>) -> (r: String)
    ensures
        r@ == auth_failure_from(trimmed(raw@), json_opt(json)),
{
    let body = trim(raw);
    if body.is_empty() {
        return "unknown error".to_string();
    }
    match json {
        Some(json) => match auth_error_text(&json) {
            Some(text) => text,
            None => body.to_string(),
        },
        None => body.to_string(),
    }
}

/// What the body of a failed request to the login service says.
pub fn parse_error_message(raw: &str) -> (r: String)
    ensures
        r@ == auth_failure_text(raw@),
{
    error_message_from(raw, parse_json_if(trim(raw)))
}

/// The payload of a token as it is written: the middle one of its three parts.
pub open spec fn payload_part(jwt: Seq<char>) -> Result<Seq<char>, AuthErrorView> {
    let parts = split_at_each(jwt, '.');
    if parts.len() != 3 {
        Err(AuthErrorView::JwtFormat)
    } else {
        Ok(parts[1])
    }
}

/// The payload that was decoded, or what was said about it.
pub open spec fn decoded_payload(decoded: Result<Seq<u8>, Seq<char>>) -> Result<
    Seq<u8>,
    AuthErrorView,
> {
    match decoded {
        Ok(bytes) => Ok(bytes),
        Err(cause) => Err(AuthErrorView::JwtPayload(cause)),
    }
}

/// The payload of a token, decoded.
pub open spec fn token_payload(jwt: Seq<char>) -> Result<Seq<u8>, AuthErrorView> {
    match payload_part(jwt) {
        Ok(part) => decoded_payload(base64_url_bytes(part)),
        Err(error) => Err(error),
    }
}

/// The payload of a token as it is written.
pub fn jwt_payload_part(jwt: &str) -> (r: Result<String, AuthError>)
    ensures
        result_view(r) == payload_part(jwt@),
{
    let parts = split_on(jwt, '.');
    assert(texts(parts@).len() == parts@.len());
    if parts.len() != 3 {
        return Err(AuthError::JwtFormat);
    }
    Ok(parts[1].clone())
}

/// The payload of a token.
pub fn jwt_payload(jwt: &str) -> (r: Result<Vec<u8>, AuthError>)
    ensures
        result_view(r) == token_payload(jwt@),
{
    match jwt_payload_part(jwt) {
        Ok(part) => match base64_decode(part.as_str()) {
            Ok(bytes) => Ok(bytes),
            Err(cause) => Err(AuthError::JwtPayload(cause)),
        },
        Err(error) => Err(error),
    }
}

/// The payload of three parts put together with dots is what the middle one decodes to.
pub proof fn law_payload_is_the_middle_part(
    header: Seq<char>,
    payload: Seq<char>,
    signature: Seq<char>,
)
    requires
        forall|i: int| 0 <= i < header.len() ==> header[i] != '.',
        forall|i: int| 0 <= i < payload.len() ==> payload[i] != '.',
        forall|i: int| 0 <= i < signature.len() ==> signature[i] != '.',
    ensures
        token_payload(header + seq!['.'] + payload + seq!['.'] + signature)
            == decoded_payload(base64_url_bytes(payload)),
{
    lemma_split_none(header, '.');
    lemma_split_none(payload, '.');
    lemma_split_none(signature, '.');
    lemma_split_add(header, payload, '.');
    lemma_split_add(header + seq!['.'] + payload, signature, '.');
    let parts = split_at_each(header + seq!['.'] + payload + seq!['.'] + signature, '.');
    assert(parts =~= seq![header, payload, signature]);
}

/// The profile that claims tell of: the address in the claims, else the one in the profile; the
/// plan and the account from the claims about the account.
pub open spec fn claimed_profile(claims: IdClaims) -> ProfileView {
    ProfileView {
        email: if claims.email is Some {
            opt_view(claims.email)
        } else if let Some(profile) = claims.profile {
            opt_view(profile.email)
        } else {
            None
        },
        plan_type: match claims.auth {
            Some(auth) => opt_view(auth.chatgpt_plan_type),
            None => None,
        },
        account_id: match claims.auth {
            Some(auth) => opt_view(auth.chatgpt_account_id),
            None => None,
        },
    }
}

/// The profile that claims tell of.
pub fn profile_from_claims(claims: IdClaims) -> (r: UserProfile)
    ensures
        r@ == claimed_profile(claims),
{
    let email = match claims.email {
        Some(email) => Some(email),
        None => match claims.profile {
            Some(profile) => profile.email,
            None => None,
        },
    };
    match claims.auth {
        Some(auth) => UserProfile {
            email,
            plan_type: auth.chatgpt_plan_type,
            account_id: auth.chatgpt_account_id,
        },
        None => UserProfile { email, plan_type: None, account_id: None },
    }
}

/// The profile of an ID token. It needs a payload, and claims that the payload could be read as.
pub open spec fn token_profile(id_token: Seq<char>, claims: Result<IdClaims, String>) -> Result<
    ProfileView,
    AuthErrorView,
> {
    match token_payload(id_token) {
        Err(e) => Err(e),
        Ok(_) => match claims {
            Ok(c) => Ok(claimed_profile(c)),
            Err(cause) => Err(AuthErrorView::IdClaims(cause@)),
        },
    }
}

/// The profile of an ID token. `claims` is what its payload, if it has one, could be read as, or
/// why it could not.
pub fn parse_id_token(id_token: &str, claims: Result<IdClaims, String>) -> (r: Result<
    UserProfile,
    AuthError,
>)
    ensures
        result_view(r) == token_profile(id_token@, claims),
{
    match jwt_payload(id_token) {
        Err(e) => Err(e),
        Ok(_) => match claims {
            Ok(c) => Ok(profile_from_claims(c)),
            Err(cause) => Err(AuthError::IdClaims(cause)),
        },
    }
}

/// The profile of a stored login; without tokens nothing is known.
pub open spec fn stored_profile(auth: AuthFileView, claims: Result<IdClaims, String>) -> Result<
    ProfileView,
    AuthErrorView,
> {
    match auth.tokens {
        None => Ok(ProfileView { email: None, plan_type: None, account_id: None }),
        Some(tokens) => token_profile(tokens.id_token, claims),
    }
}

/// The profile of a stored login. `claims` is what the payload of its ID token could be read as, or
/// why it could not.
pub fn user_profile(auth: &AuthFile, claims: Result<IdClaims, String>) -> (r: Result<
    UserProfile,
    AuthError,
>)
    ensures
        result_view(r) == stored_profile(auth@, claims),
{
    match &auth.tokens {
        None => Ok(UserProfile { email: None, plan_type: None, account_id: None }),
        Some(tokens) => parse_id_token(tokens.id_token.as_str(), claims),
    }
}

/// What chat requests identify themselves with, given the profile of the ID token if that could
/// be read: the access token, and the account that is stored or else the one in the profile.
pub open spec fn access_given(auth: AuthFileView, profile: Option<ProfileView>) -> Result<
    AccessView,
    AuthErrorView,
> {
    match auth.tokens {
        None => Err(AuthErrorView::NoTokens),
        Some(tokens) => {
            let account = if tokens.account_id is Some {
                tokens.account_id
            } else if let Some(profile) = profile {
                profile.account_id
            } else {
                None
            };
            match account {
                Some(account_id) => Ok(
                    AccessView { access_token: tokens.access_token, account_id },
                ),
                None => Err(AuthErrorView::NoAccountId),
            }
        },
    }
}

/// The profile of a stored login, if it can be read.
pub open spec fn readable_profile(auth: AuthFileView, claims: Result<IdClaims, String>) -> Option<
    ProfileView,
> {
    match stored_profile(auth, claims) {
        Ok(profile) => Some(profile),
        Err(_) => None,
    }
}

/// What chat requests identify themselves with.
pub open spec fn stored_access(auth: AuthFileView, claims: Result<IdClaims, String>) -> Result<
    AccessView,
    AuthErrorView,
> {
    access_given(auth, readable_profile(auth, claims))
}

/// What chat requests identify themselves with. `profile` is that of the ID token, if it could be
/// read.
pub fn access_with(auth: &AuthFile, profile: Option<UserProfile>) -> (r: Result<
    ChatGptAccess,
    AuthError,
>)
    ensures
        result_view(r) == access_given(auth@, opt_view(profile)),
{
    match &auth.tokens {
        None => Err(AuthError::NoTokens),
        Some(tokens) => {
            let account = match &tokens.account_id {
                Some(id) => Some(id.clone()),
                None => match profile {
                    Some(profile) => profile.account_id,
                    None => None,
                },
            };
            match account {
                Some(account_id) => Ok(
                    ChatGptAccess { access_token: tokens.access_token.clone(), account_id },
                ),
                None => Err(AuthError::NoAccountId),
            }
        },
    }
}

/// What chat requests identify themselves with. `claims` is what the payload of the ID token
/// could be read as.
pub fn chatgpt_access(auth: &AuthFile, claims: Result<IdClaims, String>) -> (r: Result<
    ChatGptAccess,
    AuthError,
>)
    ensures
        result_view(r) == stored_access(auth@, claims),
{
    let profile = match user_profile(auth, claims) {
        Ok(profile) => Some(profile),
        Err(_) => None,
    };
    access_with(auth, profile)
}

/// The request for new tokens of a session: with the refresh token that is stored.
pub open spec fn refresh_request_of(session: SessionView) -> Result<
    RefreshRequestView,
    AuthErrorView,
> {
    match session.auth.tokens {
        Some(tokens) => Ok(
            RefreshRequestView {
                client_id: CLIENT_ID@,
                grant_type: "refresh_token"@,
                refresh_token: tokens.refresh_token,
            },
        ),
        None => Err(AuthErrorView::NoRefreshToken),
    }
}

/// The request for new tokens of a session.
pub fn refresh_session_tokens(session: &AuthSession) -> (r: Result<RefreshRequest, AuthError>)
    ensures
        result_view(r) == match session@.auth.tokens {
            Some(tokens) => Ok(
                RefreshRequestView {
                    client_id: CLIENT_ID@,
                    grant_type: "refresh_token"@,
                    refresh_token: tokens.refresh_token,
                },
            ),
            None => Err(AuthErrorView::NoRefreshToken),
        },
        result_view(r) == refresh_request_of(session@),
{
    match &session.auth.tokens {
        Some(tokens) => Ok(
            RefreshRequest {
                client_id: CLIENT_ID.to_string(),
                grant_type: "refresh_token".to_string(),
                refresh_token: tokens.refresh_token.clone(),
            },
        ),
        None => Err(AuthError::NoRefreshToken),
    }
}

/// The value that came, or the one from before.
pub open spec fn renewed(came: Option<String>, before: Seq<char>) -> Seq<char> {
    match came {
        Some(value) => value@,
        None => before,
    }
}

/// The session after a refresh: each token that came replaces the one from before, the others
/// and the account stay.
pub open spec fn refreshed_session(
    session: SessionView,
    came: RefreshResponse,
    now: Timestamp,
) -> SessionView {
    let tokens = session.auth.tokens->0;
    SessionView {
        auth: AuthFileView {
            tokens: Some(
                TokenView {
                    id_token: renewed(came.id_token, tokens.id_token),
                    access_token: renewed(came.access_token, tokens.access_token),
                    refresh_token: renewed(came.refresh_token, tokens.refresh_token),
                    account_id: tokens.account_id,
                },
            ),
            last_refresh: Some(now),
            ..session.auth
        },
        ..session
    }
}

/// What the answer to a refresh leads to: an error, or nothing if the session can be renewed.
pub open spec fn refresh_verdict(
    session: SessionView,
    status: HttpStatus,
    body: Seq<char>,
    parsed: Result<RefreshResponse, String>,
) -> Result<(), AuthErrorView> {
    if !status.ok() {
        Err(AuthErrorView::TokenRefresh { status: status.text@, detail: auth_failure_text(body) })
    } else if let Err(cause) = parsed {
        Err(AuthErrorView::RefreshResponse(cause@))
    } else if session.auth.tokens is None {
        Err(AuthErrorView::MissingTokens)
    } else {
        Ok(())
    }
}

/// Takes over the answer to a refresh that came at the moment `now`. `parsed` is what the body of
/// a successful answer could be read as, or why it could not. On an error the session stays as it
/// is.
pub fn refresh_chatgpt_tokens_at(
    session: &mut AuthSession,
    status: &HttpStatus,
    body: &str,
    parsed: Result<RefreshResponse, String>,
    now: Timestamp,
) -> (r: Result<(), AuthError>)
    ensures
        error_view(r) == refresh_verdict(old(session)@, *status, body@, parsed),
        final(session)@ == if r is Ok {
            refreshed_session(old(session)@, parsed->Ok_0, now)
        } else {
            old(session)@
        },
{
    if !status.is_success() {
        return Err(
            AuthError::TokenRefresh {
                status: status.text.clone(),
                detail: parse_error_message(body),
            },
        );
    }
    let came = match parsed {
        Ok(came) => came,
        Err(cause) => {
            return Err(AuthError::RefreshResponse(cause));
        },
    };
    let ghost before = session@;
    match session.auth.tokens.take() {
        None => {
            assert(session@ =~= before);
            Err(AuthError::MissingTokens)
        },
        Some(tokens) => {
            let TokenData { id_token, access_token, refresh_token, account_id } = tokens;
            session.auth.tokens = Some(
                TokenData {
                    id_token: match came.id_token {
                        Some(value) => value,
                        None => id_token,
                    },
                    access_token: match came.access_token {
                        Some(value) => value,
                        None => access_token,
                    },
                    refresh_token: match came.refresh_token {
                        Some(value) => value,
                        None => refresh_token,
                    },
                    account_id,
                },
            );
            session.auth.last_refresh = Some(now);
            assert(session@ =~= refreshed_session(before, came, now));
            Ok(())
        },
    }
}

/// Takes over the answer to a refresh that has just come.
pub fn refresh_chatgpt_tokens(
    session: &mut AuthSession,
    status: &HttpStatus,
    body: &str,
    parsed: Result<RefreshResponse, String>,
) -> (r: Result<(), AuthError>)
    ensures
        error_view(r) == refresh_verdict(old(session)@, *status, body@, parsed),
        r is Err ==> final(session)@ == old(session)@,
        r is Ok ==> exists|now: Timestamp|
            final(session)@ == refreshed_session(old(session)@, parsed->Ok_0, now),
{
    let now = Timestamp::now();
    refresh_chatgpt_tokens_at(session, status, body, parsed, now)
}

/// After a refresh, chat requests use the access token that came, or the one from before if none
/// did, for the account that was stored.
pub proof fn law_refreshed_access(
    session: SessionView,
    came: RefreshResponse,
    now: Timestamp,
    claims: Result<IdClaims, String>,
)
    requires
        session.auth.tokens is Some,
        session.auth.tokens->0.account_id is Some,
    ensures
        stored_access(refreshed_session(session, came, now).auth, claims) == Ok::<
            AccessView,
            AuthErrorView,
        >(
            AccessView {
                access_token: renewed(came.access_token, session.auth.tokens->0.access_token),
                account_id: session.auth.tokens->0.account_id->0,
            },
        ),
{
}

/// A refresh that brings nothing new only changes when the last one was.
pub proof fn law_empty_refresh_keeps_tokens(session: SessionView, now: Timestamp)
    requires
        session.auth.tokens is Some,
    ensures
        refreshed_session(
            session,
            (RefreshResponse { id_token: None, access_token: None, refresh_token: None }),
            now,
        ) == (SessionView {
            auth: AuthFileView { last_refresh: Some(now), ..session.auth },
            ..session
        }),
{
}

/// A refresh stores every token that came, keeps the others, and leaves the account, the key and
/// the place of the file alone. The next refresh is asked for with the refresh token that is
/// stored then.
pub proof fn law_refresh_stores_what_came(
    session: SessionView,
    came: RefreshResponse,
    now: Timestamp,
)
    requires
        session.auth.tokens is Some,
    ensures
        ({
            let before = session.auth.tokens->0;
            let after = refreshed_session(session, came, now);
            let tokens = after.auth.tokens->0;
            &&& after.auth.tokens is Some
            &&& came.id_token matches Some(token) ==> tokens.id_token == token@
            &&& came.id_token is None ==> tokens.id_token == before.id_token
            &&& came.access_token matches Some(token) ==> tokens.access_token == token@
            &&& came.access_token is None ==> tokens.access_token == before.access_token
            &&& came.refresh_token matches Some(token) ==> tokens.refresh_token == token@
            &&& came.refresh_token is None ==> tokens.refresh_token == before.refresh_token
            &&& tokens.account_id == before.account_id
            &&& after.auth.auth_mode == session.auth.auth_mode
            &&& after.auth.openai_api_key == session.auth.openai_api_key
            &&& after.auth.last_refresh == Some(now)
            &&& after.auth_path == session.auth_path
            &&& refresh_request_of(after) matches Ok(request) && (match came.refresh_token {
                Some(token) => request.refresh_token == token@,
                None => request.refresh_token == before.refresh_token,
            })
        }),
{
}

/// A refresh is asked for with the stored refresh token, and exactly where there is one.
pub proof fn law_refresh_request_carries_the_stored_token(session: SessionView)
    ensures
        session.auth.tokens matches Some(tokens) ==> (refresh_request_of(session) matches Ok(
            request,
        ) && request.refresh_token == tokens.refresh_token && request.grant_type
            == "refresh_token"@ && request.client_id == CLIENT_ID@),
        session.auth.tokens is None ==> refresh_request_of(session) is Err,
{
}

/// A refresh succeeds exactly where the status is one of success, the answer could be read and
/// there are tokens; else the error tells what the service said or what could not be read.
pub proof fn law_refresh_needs_a_readable_success(
    session: SessionView,
    status: HttpStatus,
    body: Seq<char>,
    parsed: Result<RefreshResponse, String>,
)
    ensures
        refresh_verdict(session, status, body, parsed) is Ok <==> 200 <= status.code < 300
            && parsed is Ok && session.auth.tokens is Some,
        !(200 <= status.code < 300) ==> refresh_verdict(session, status, body, parsed) == Err::<
            (),
            AuthErrorView,
        >(AuthErrorView::TokenRefresh { status: status.text@, detail: auth_failure_text(body) }),
        200 <= status.code < 300 && parsed is Err ==> refresh_verdict(session, status, body, parsed)
            == Err::<(), AuthErrorView>(AuthErrorView::RefreshResponse(parsed->Err_0@)),
        200 <= status.code < 300 && parsed is Ok && session.auth.tokens is None ==> refresh_verdict(
            session,
            status,
            body,
            parsed,
        ) == Err::<(), AuthErrorView>(AuthErrorView::MissingTokens),
{
}

/// What is told of a failed request: the description of the error, else the message in it, else
/// the error itself; without any of them the whole body, and of a blank body that nothing is
/// known.
pub proof fn law_auth_failure_tells_what_the_service_said(
    lead: Seq<char>,
    body: Seq<char>,
    trail: Seq<char>,
    error: JsonView,
    text: Seq<char>,
)
    requires
        blank(lead),
        blank(trail),
        tight(body),
    ensures
        body.len() == 0 ==> auth_failure_text(lead + body + trail) == "unknown error"@,
        body.len() > 0 && json_of(body) is Err ==> auth_failure_text(lead + body + trail) == body,
        body.len() > 0 && (json_of(body) matches Ok(json) && holds(
            json,
            "error_description"@,
            JsonView::Text(text),
        )) ==> auth_failure_text(lead + body + trail) == text,
        body.len() > 0 && (json_of(body) matches Ok(json) && lacks(json, "error_description"@)
            && holds(json, "error"@, error) && holds(error, "message"@, JsonView::Text(text)))
            ==> auth_failure_text(lead + body + trail) == text,
        body.len() > 0 && (json_of(body) matches Ok(json) && lacks(json, "error_description"@)
            && holds(json, "error"@, JsonView::Text(text))) ==> auth_failure_text(
            lead + body + trail,
        ) == text,
        body.len() > 0 && (json_of(body) matches Ok(json) && lacks(json, "error_description"@)
            && lacks(json, "error"@)) ==> auth_failure_text(lead + body + trail) == body,
        body.len() > 0 && (json_of(body) matches Ok(json) && lacks(json, "error_description"@)
            && holds(json, "error"@, error) && !(error is Text) && lacks(error, "message"@))
            ==> auth_failure_text(lead + body + trail) == body,
{
    lemma_trimmed_is(lead, body, trail);
    if let Ok(json) = json_of(body) {
        law_member_is_the_first_of_its_name(json, "error_description"@, JsonView::Text(text));
        law_member_is_the_first_of_its_name(json, "error"@, error);
        law_member_is_the_first_of_its_name(json, "error"@, JsonView::Text(text));
        law_member_is_the_first_of_its_name(error, "message"@, JsonView::Text(text));
    }
}

/// A profile tells what the claims tell: the address in the claims wins over the one in their
/// profile, and nothing is told that no claim tells.
pub proof fn law_profile_tells_what_was_claimed(claims: IdClaims)
    ensures
        claims.email matches Some(email) ==> claimed_profile(claims).email == Some(email@),
        claims.email is None ==> (claims.profile matches Some(profile) ==> (match profile.email {
            Some(email) => claimed_profile(claims).email == Some(email@),
            None => claimed_profile(claims).email is None,
        })),
        claims.email is None && claims.profile is None ==> claimed_profile(claims).email is None,
        claims.auth matches Some(auth) ==> (match auth.chatgpt_plan_type {
            Some(plan) => claimed_profile(claims).plan_type == Some(plan@),
            None => claimed_profile(claims).plan_type is None,
        }),
        claims.auth matches Some(auth) ==> (match auth.chatgpt_account_id {
            Some(account) => claimed_profile(claims).account_id == Some(account@),
            None => claimed_profile(claims).account_id is None,
        }),
        claims.auth is None ==> claimed_profile(claims).plan_type is None && claimed_profile(
            claims,
        ).account_id is None,
{
}

/// The stored account wins over the one that the ID token claims, which is used only where none
/// is stored. The access token is always the stored one.
pub proof fn law_access_is_the_stored_one(auth: AuthFileView, claims: IdClaims)
    requires
        auth.tokens is Some,
        token_payload(auth.tokens->0.id_token) is Ok,
    ensures
        stored_access(auth, Ok(claims)) matches Ok(access) ==> access.access_token
            == auth.tokens->0.access_token,
        auth.tokens->0.account_id matches Some(account) ==> (stored_access(auth, Ok(claims)) matches
            Ok(access) && access.account_id == account),
        auth.tokens->0.account_id is None ==> (claims.auth matches Some(about) ==> (
        about.chatgpt_account_id matches Some(account) ==> (stored_access(auth, Ok(claims)) matches
            Ok(access) && access.account_id == account@))),
        stored_access(auth, Ok(claims)) is Err ==> stored_access(auth, Ok(claims)) == Err::<
            AccessView,
            AuthErrorView,
        >(AuthErrorView::NoAccountId),
{
}

/// What an error tells ends with the cause that it carries.
pub proof fn law_message_ends_with_the_cause(cause: Seq<char>, status: Seq<char>)
    ensures
        has_suffix(AuthErrorView::CallbackUrl(cause).message(), cause),
        has_suffix(AuthErrorView::UnexpectedPath(cause).message(), cause),
        has_suffix(AuthErrorView::CallbackFailed(cause).message(), cause),
        has_suffix(AuthErrorView::TokenResponse(cause).message(), cause),
        has_suffix(AuthErrorView::ApiKeyResponse(cause).message(), cause),
        has_suffix(AuthErrorView::RefreshResponse(cause).message(), cause),
        has_suffix(AuthErrorView::JwtPayload(cause).message(), cause),
        has_suffix(AuthErrorView::IdClaims(cause).message(), cause),
        has_suffix(
            (AuthErrorView::TokenExchange { status, detail: cause }).message(),
            status + ": "@ + cause,
        ),
        has_suffix(
            (AuthErrorView::ApiKeyExchange { status, detail: cause }).message(),
            status + ": "@ + cause,
        ),
        has_suffix(
            (AuthErrorView::TokenRefresh { status, detail: cause }).message(),
            status + ": "@ + cause,
        ),
{
    lemma_has_suffix("failed to parse the callback URL: "@, cause);
    lemma_has_suffix("unexpected callback path: "@, cause);
    lemma_has_suffix("oauth callback failed: "@, cause);
    lemma_has_suffix("failed to parse the token exchange response: "@, cause);
    lemma_has_suffix("failed to parse the API key exchange response: "@, cause);
    lemma_has_suffix("failed to parse the token refresh response: "@, cause);
    lemma_has_suffix("failed to decode JWT payload: "@, cause);
    lemma_has_suffix("failed to parse id_token claims: "@, cause);
    let told = status + ": "@ + cause;
    lemma_has_suffix("token exchange failed with status "@, told);
    lemma_has_suffix("API key exchange failed with status "@, told);
    lemma_has_suffix("token refresh failed with status "@, told);
    assert("token exchange failed with status "@ + status + ": "@ + cause
        =~= "token exchange failed with status "@ + told);
    assert("API key exchange failed with status "@ + status + ": "@ + cause
        =~= "API key exchange failed with status "@ + told);
    assert("token refresh failed with status "@ + status + ": "@ + cause
        =~= "token refresh failed with status "@ + told);
}

/// Whether a text ends with another.
pub open spec fn has_suffix(s: Seq<char>, end: Seq<char>) -> bool {
    s.len() >= end.len() && s.skip(s.len() - end.len()) == end
}

pub proof fn lemma_has_suffix(s: Seq<char>, end: Seq<char>)
    ensures
        has_suffix(s + end, end),
{
    assert((s + end).skip(s.len() as int) =~= end);
}

/// A token has exactly three parts with points between them; any other number of points makes it
/// no token.
pub proof fn law_token_has_three_parts(jwt: Seq<char>)
    ensures
        split_at_each(jwt, '.').len() != 3 <==> token_payload(jwt) == Err::<
            Seq<u8>,
            AuthErrorView,
        >(AuthErrorView::JwtFormat),
{
}

/// The tokens are stored in one file, in the directory that is set or else in the one below the
/// home directory.
pub proof fn law_tokens_have_one_place(
    lead: Seq<char>,
    path: Seq<char>,
    trail: Seq<char>,
    home_known: bool,
)
    requires
        blank(lead),
        blank(trail),
        tight(path),
        path.len() > 0,
    ensures
        auth_path_of(Some(lead + path + trail), home_known) == Ok::<LocationView, AuthErrorView>(
            LocationView { anchor: AnchorView::Fixed(path), tail: seq!["auth.json"@] },
        ),
        auth_path_of(None, true) == Ok::<LocationView, AuthErrorView>(
            LocationView { anchor: AnchorView::Home, tail: seq![".codex"@, "auth.json"@] },
        ),
        auth_path_of(None, false) == Err::<LocationView, AuthErrorView>(AuthErrorView::HomeUnknown),
{
    law_setting_names_the_place(lead, path, trail, home_known, ".codex"@);
    assert(Seq::<Seq<char>>::empty().push("auth.json"@) =~= seq!["auth.json"@]);
    assert(seq![".codex"@].push("auth.json"@) =~= seq![".codex"@, "auth.json"@]);
}

/// An answer is one of success exactly from two hundred up to three hundred.
pub proof fn law_success_is_a_status_in_the_two_hundreds(status: HttpStatus)
    ensures
        status.ok() <==> status.code / 100 == 2,
{
}

/// The payload of a token is what its middle part decodes to, or the error of the decoding with
/// its cause; the profile of a token is what its claims tell, or why they could not be read.
pub proof fn law_token_gives_its_profile(
    jwt: Seq<char>,
    part: Seq<char>,
    bytes: Seq<u8>,
    claims: IdClaims,
    cause: String,
    told: Seq<char>,
)
    requires
        payload_part(jwt) == Ok::<Seq<char>, AuthErrorView>(part),
    ensures
        base64_url_bytes(part) == Ok::<Seq<u8>, Seq<char>>(bytes) ==> {
            &&& token_payload(jwt) == Ok::<Seq<u8>, AuthErrorView>(bytes)
            &&& token_profile(jwt, Ok(claims)) == Ok::<ProfileView, AuthErrorView>(
                claimed_profile(claims),
            )
            &&& token_profile(jwt, Err(cause)) == Err::<ProfileView, AuthErrorView>(
                AuthErrorView::IdClaims(cause@),
            )
        },
        base64_url_bytes(part) == Err::<Seq<u8>, Seq<char>>(told) ==> {
            &&& token_payload(jwt) == Err::<Seq<u8>, AuthErrorView>(AuthErrorView::JwtPayload(told))
            &&& token_profile(jwt, Ok(claims)) == Err::<ProfileView, AuthErrorView>(
                AuthErrorView::JwtPayload(told),
            )
        },
{
}

/// A session without tokens has an empty profile and no access; one with tokens has the profile of
/// its ID token, and an access without a stored account only where that profile can be read.
pub proof fn law_session_without_tokens_has_no_access(
    auth: AuthFileView,
    claims: Result<IdClaims, String>,
)
    ensures
        auth.tokens is None ==> {
            &&& stored_profile(auth, claims) matches Ok(profile)
            &&& profile.email is None
            &&& profile.plan_type is None
            &&& profile.account_id is None
            &&& stored_access(auth, claims) == Err::<AccessView, AuthErrorView>(
                AuthErrorView::NoTokens,
            )
        },
        auth.tokens matches Some(tokens) ==> {
            &&& stored_profile(auth, claims) == token_profile(tokens.id_token, claims)
            &&& tokens.account_id is None && token_profile(tokens.id_token, claims) is Err
                ==> stored_access(auth, claims) == Err::<AccessView, AuthErrorView>(
                AuthErrorView::NoAccountId,
            )
        },
{
}

} // verus!
