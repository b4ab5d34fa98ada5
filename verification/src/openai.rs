//! Chat requests to the service, and what comes back.

use vstd::prelude::*;
use vstd::string::*;
use vstd::utf8::encode_utf8;

use crate::auth::{
    chatgpt_access, find_nested_error_text, has_suffix, lemma_has_suffix, nested_error_text,
    stored_access, AccessView, AuthError, AuthErrorView, AuthFile, ChatGptAccess, HttpStatus,
    IdClaims,
};
use crate::json::{
    holds, json_of, json_opt, lacks, law_member_is_the_first_of_its_name, law_text_of_a_member,
    parse_json, parse_json_if, Json, JsonView,
};
use crate::lines::{blank, lemma_trimmed_is, tight};
use crate::text::{
    has_prefix, join, joined, lemma_texts_push, same_text, starts_with, texts, trim,
    trim_start_matches, trimmed, white_space, without_prefixes,
};
use crate::views::{error_view, ok_of, opt_view, result_view};

verus! {

/// One message of a chat.
#[derive(Debug)]
pub struct ChatTurn {
    pub role: String,
    pub content: String,
}

#[verifier::ext_equal]
pub struct TurnView {
    pub role: Seq<char>,
    pub content: Seq<char>,
}

impl View for ChatTurn {
    type V = TurnView;

    open spec fn view(&self) -> TurnView {
        TurnView { role: self.role@, content: self.content@ }
    }
}

impl Clone for ChatTurn {
    fn clone(&self) -> (r: ChatTurn)
        ensures
            r@ == self@,
    {
        ChatTurn { role: self.role.clone(), content: self.content.clone() }
    }
}

/// The views of turns.
pub open spec fn turn_views(turns: Seq<ChatTurn>) -> Seq<TurnView> {
    turns.map_values(|turn: ChatTurn| turn@)
}

/// The model to chat with, and its instructions.
#[derive(Debug, Clone)]
pub struct ChatClient {
    pub model: String,
    pub instructions: String,
}

/// What a chat request asks.
#[derive(Debug)]
pub struct ResponseRequest {
    pub model: String,
    pub instructions: String,
    pub store: bool,
    pub stream: bool,
    pub input: Vec<ResponseMessage>,
}

/// One message in a chat request.
#[derive(Debug)]
pub struct ResponseMessage {
    pub role: String,
    pub content: Vec<ResponseContent>,
}

/// One piece of a message in a chat request.
#[derive(Debug)]
pub struct ResponseContent {
    pub kind: String,
    pub text: String,
}

#[verifier::ext_equal]
pub struct RequestView {
    pub model: Seq<char>,
    pub instructions: Seq<char>,
    pub store: bool,
    pub stream: bool,
    pub input: Seq<MessageView>,
}

#[verifier::ext_equal]
pub struct MessageView {
    pub role: Seq<char>,
    pub content: Seq<ContentView>,
}

#[verifier::ext_equal]
pub struct ContentView {
    pub kind: Seq<char>,
    pub text: Seq<char>,
}

impl View for ResponseContent {
    type V = ContentView;

    open spec fn view(&self) -> ContentView {
        ContentView { kind: self.kind@, text: self.text@ }
    }
}

impl View for ResponseMessage {
    type V = MessageView;

    open spec fn view(&self) -> MessageView {
        MessageView {
            role: self.role@,
            content: self.content@.map_values(|c: ResponseContent| c@),
        }
    }
}

impl View for ResponseRequest {
    type V = RequestView;

    open spec fn view(&self) -> RequestView {
        RequestView {
            model: self.model@,
            instructions: self.instructions@,
            store: self.store,
            stream: self.stream,
            input: self.input@.map_values(|m: ResponseMessage| m@),
        }
    }
}

/// How the text of a message is marked: what the assistant said is output, all else is input.
pub open spec fn content_kind(role: Seq<char>) -> Seq<char> {
    if role == "assistant"@ {
        "output_text"@
    } else {
        "input_text"@
    }
}

/// How the text of a message is marked.
pub fn content_type_for_role(role: &str) -> (r: &'static str)
    ensures
        r@ == content_kind(role@),
{
    if same_text(role, "assistant") {
        "output_text"
    } else {
        "input_text"
    }
}

/// A turn as a message in a request.
pub open spec fn message_of(turn: TurnView) -> MessageView {
    MessageView {
        role: turn.role,
        content: seq![ContentView { kind: content_kind(turn.role), text: turn.content }],
    }
}

/// The request that continues a chat: every turn is sent along, in order; nothing is stored with
/// the service, and the answer comes as a stream.
pub open spec fn request_of(
    model: Seq<char>,
    instructions: Seq<char>,
    turns: Seq<TurnView>,
) -> RequestView {
    RequestView {
        model,
        instructions,
        store: false,
        stream: true,
        input: turns.map_values(|turn: TurnView| message_of(turn)),
    }
}

/// Why a chat request fails.
#[derive(Debug)]
pub enum ChatError {
    Auth(AuthError),
    AuthorizationHeader(String),
    AccountHeader(String),
    Backend { status: String, detail: String },
    EventPayload(String),
    Reported(String),
    NoText,
    StillUnauthorized,
}

pub enum ChatErrorView {
    Auth(AuthErrorView),
    AuthorizationHeader(Seq<char>),
    AccountHeader(Seq<char>),
    Backend { status: Seq<char>, detail: Seq<char> },
    EventPayload(Seq<char>),
    Reported(Seq<char>),
    NoText,
    StillUnauthorized,
}

impl View for ChatError {
    type V = ChatErrorView;

    open spec fn view(&self) -> ChatErrorView {
        match self {
            ChatError::Auth(error) => ChatErrorView::Auth(error@),
            ChatError::AuthorizationHeader(cause) => ChatErrorView::AuthorizationHeader(cause@),
            ChatError::AccountHeader(cause) => ChatErrorView::AccountHeader(cause@),
            ChatError::Backend { status, detail } => ChatErrorView::Backend {
                status: status@,
                detail: detail@,
            },
            ChatError::EventPayload(cause) => ChatErrorView::EventPayload(cause@),
            ChatError::Reported(payload) => ChatErrorView::Reported(payload@),
            ChatError::NoText => ChatErrorView::NoText,
            ChatError::StillUnauthorized => ChatErrorView::StillUnauthorized,
        }
    }
}

impl ChatErrorView {
    /// What to tell the user.
    pub open spec fn message(self) -> Seq<char> {
        match self {
            ChatErrorView::Auth(error) => error.message(),
            ChatErrorView::AuthorizationHeader(cause) =>
                "failed to construct the authorization header: "@ + cause,
            ChatErrorView::AccountHeader(cause) =>
                "failed to construct the chatgpt-account-id header: "@ + cause,
            ChatErrorView::Backend { status, detail } => "Codex backend returned "@ + status
                + ": "@ + detail,
            ChatErrorView::EventPayload(cause) => "failed to parse an SSE event payload: "@ + cause,
            ChatErrorView::Reported(payload) => "Codex backend reported an error: "@ + payload,
            ChatErrorView::NoText => "chat response did not contain readable text"@,
            ChatErrorView::StillUnauthorized => "chat request remained unauthorized after refresh"@,
        }
    }
}

impl ChatError {
    /// What to tell the user.
    pub fn message(&self) -> (r: String)
        ensures
            r@ == self@.message(),
    {
        match self {
            ChatError::Auth(error) => error.message(),
            ChatError::AuthorizationHeader(cause) =>
                "failed to construct the authorization header: ".to_string().concat(
                cause.as_str(),
            ),
            ChatError::AccountHeader(cause) =>
                "failed to construct the chatgpt-account-id header: ".to_string().concat(
                cause.as_str(),
            ),
            ChatError::Backend { status, detail } => "Codex backend returned ".to_string().concat(
                status.as_str(),
            ).concat(": ").concat(detail.as_str()),
            ChatError::EventPayload(cause) =>
                "failed to parse an SSE event payload: ".to_string().concat(cause.as_str()),
            ChatError::Reported(payload) => "Codex backend reported an error: ".to_string().concat(
                payload.as_str(),
            ),
            ChatError::NoText => "chat response did not contain readable text".to_string(),
            ChatError::StillUnauthorized =>
                "chat request remained unauthorized after refresh".to_string(),
        }
    }
}

/// What a chat request came to.
#[derive(Debug)]
pub enum ChatResponse {
    Complete(String),
    Unauthorized,
}

/// Whether tokens were refreshed before a request.
#[derive(Debug, Clone, Copy, PartialEq, Eq, Structural)]
pub enum SendStage {
    First,
    AfterRefresh,
}

/// What to do after a chat request.
#[derive(Debug)]
pub enum SendStep {
    /// The answer is here.
    Done(String),
    /// Refresh the tokens and send the request again, which is then at that stage.
    Refresh(SendStage),
    Fail(ChatError),
}

pub enum SendStepView {
    Done(Seq<char>),
    Refresh(SendStage),
    Fail(ChatErrorView),
}

impl View for SendStep {
    type V = SendStepView;

    open spec fn view(&self) -> SendStepView {
        match self {
            SendStep::Done(text) => SendStepView::Done(text@),
            SendStep::Refresh(stage) => SendStepView::Refresh(*stage),
            SendStep::Fail(error) => SendStepView::Fail(error@),
        }
    }
}

/// What to do after a chat request: the first refusal leads to a refresh, the second is final.
pub open spec fn step_after(stage: SendStage, response: ChatResponse) -> SendStepView {
    match response {
        ChatResponse::Complete(text) => SendStepView::Done(text@),
        ChatResponse::Unauthorized => match stage {
            SendStage::First => SendStepView::Refresh(SendStage::AfterRefresh),
            SendStage::AfterRefresh => SendStepView::Fail(ChatErrorView::StillUnauthorized),
        },
    }
}

impl ChatClient {
    pub fn new(model: String, instructions: String) -> (r: ChatClient)
        ensures
            r.model@ == model@,
            r.instructions@ == instructions@,
    {
        ChatClient { model, instructions }
    }

    /// The request that continues a chat.
    pub fn request(&self, turns: &Vec<ChatTurn>) -> (r: ResponseRequest)
        ensures
            r@ == request_of(self.model@, self.instructions@, turn_views(turns@)),
    {
        let mut input: Vec<ResponseMessage> = Vec::new();
        let mut i: usize = 0;
        while i < turns.len()
            invariant
                i <= turns@.len(),
                input@.len() == i,
                forall|k: int| 0 <= k < i ==> (#[trigger] input@[k])@ == message_of(turns@[k]@),
            decreases turns@.len() - i,
        {
            let kind = content_type_for_role(turns[i].role.as_str()).to_string();
            let content: Vec<ResponseContent> = vec![
                ResponseContent { kind, text: turns[i].content.clone() },
            ];
            let message = ResponseMessage { role: turns[i].role.clone(), content };
            assert(message@ =~~= message_of(turns@[i as int]@));
            input.push(message);
            i += 1;
        }
        let r = ResponseRequest {
            model: self.model.clone(),
            instructions: self.instructions.clone(),
            store: false,
            stream: true,
            input,
        };
        assert(r@.input =~= request_of(
            self.model@,
            self.instructions@,
            turn_views(turns@),
        ).input);
        r
    }

    /// What to do after a chat request at that stage.
    pub fn send(&self, stage: SendStage, response: ChatResponse) -> (r: SendStep)
        ensures
            r@ == step_after(stage, response),
    {
        match response {
            ChatResponse::Complete(text) => SendStep::Done(text),
            ChatResponse::Unauthorized => match stage {
                SendStage::First => SendStep::Refresh(SendStage::AfterRefresh),
                SendStage::AfterRefresh => SendStep::Fail(ChatError::StillUnauthorized),
            },
        }
    }
}

/// Whatever comes back, a request is sent at most twice, with one refresh between.
pub proof fn law_at_most_one_refresh(first: ChatResponse, second: ChatResponse)
    ensures
        step_after(SendStage::First, first) matches SendStepView::Refresh(stage) ==> !(step_after(
            stage,
            second,
        ) is Refresh),
{
}

/// Whether a byte can stand in the value of a header.
pub open spec fn header_byte(b: u8) -> bool {
    (b >= 32 && b != 127) || b == 9
}

/// Whether a text can be the value of a header.
pub open spec fn header_text(text: Seq<char>) -> bool {
    forall|i: int| 0 <= i < encode_utf8(text).len() ==> header_byte(#[trigger] encode_utf8(text)[i])
}

/// What is said about a text that cannot be the value of a header.
pub open spec fn header_problem() -> Seq<char> {
    "failed to parse header value"@
}

/// Calls `reqwest::header::HeaderValue::from_str`, which takes a text exactly if each byte of it
/// is a tab or no control byte: from 32 on, except 127. Its error, here as its text, always says
/// the same.
#[verifier::external_body]
fn try_header_value(text: &str) -> (r: Result<(), String>)
    ensures
        r is Ok <==> header_text(text@),
        r matches Err(cause) ==> cause@ == header_problem(),
{
    match reqwest::header::HeaderValue::from_str(text) {
        Ok(_) => Ok(()),
        Err(error) => Err(error.to_string()),
    }
}

/// The headers of a chat request.
#[derive(Debug)]
pub struct ChatHeaders {
    pub content_type: String,
    pub authorization: String,
    pub account_id: String,
}

#[verifier::ext_equal]
pub struct HeadersView {
    pub content_type: Seq<char>,
    pub authorization: Seq<char>,
    pub account_id: Seq<char>,
}

impl View for ChatHeaders {
    type V = HeadersView;

    open spec fn view(&self) -> HeadersView {
        HeadersView {
            content_type: self.content_type@,
            authorization: self.authorization@,
            account_id: self.account_id@,
        }
    }
}

/// The headers of a chat request, if the access token and the account can stand in headers.
pub open spec fn headers_for(access: AccessView) -> Result<HeadersView, ChatErrorView> {
    let authorization = "Bearer "@ + access.access_token;
    if !header_text(authorization) {
        Err(ChatErrorView::AuthorizationHeader(header_problem()))
    } else if !header_text(access.account_id) {
        Err(ChatErrorView::AccountHeader(header_problem()))
    } else {
        Ok(
            HeadersView {
                content_type: "application/json"@,
                authorization,
                account_id: access.account_id,
            },
        )
    }
}

/// The headers of a chat request.
pub fn chat_headers(access: ChatGptAccess) -> (r: Result<ChatHeaders, ChatError>)
    ensures
        result_view(r) == headers_for(access@),
{
    let authorization = "Bearer ".to_string().concat(access.access_token.as_str());
    if let Err(cause) = try_header_value(authorization.as_str()) {
        return Err(ChatError::AuthorizationHeader(cause));
    }
    if let Err(cause) = try_header_value(access.account_id.as_str()) {
        return Err(ChatError::AccountHeader(cause));
    }
    Ok(
        ChatHeaders {
            content_type: "application/json".to_string(),
            authorization,
            account_id: access.account_id,
        },
    )
}

/// The headers of a chat request with a stored login.
pub open spec fn session_headers_of(access: Result<AccessView, AuthErrorView>) -> Result<
    HeadersView,
    ChatErrorView,
> {
    match access {
        Ok(access) => headers_for(access),
        Err(error) => Err(ChatErrorView::Auth(error)),
    }
}

/// The headers of a chat request with a stored login. `claims` is what the payload of the ID
/// token could be read as.
pub fn session_headers(auth: &AuthFile, claims: Result<IdClaims, String>) -> (r: Result<
    ChatHeaders,
    ChatError,
>)
    ensures
        result_view(r) == session_headers_of(stored_access(auth@, claims)),
{
    match chatgpt_access(auth, claims) {
        Ok(access) => chat_headers(access),
        Err(error) => Err(ChatError::Auth(error)),
    }
}

/// What an answer of the service says about an error: the `message` inside `error`, else
/// `detail`, else `message`, the first of them that is a text.
pub open spec fn chat_error_detail(json: JsonView) -> Option<Seq<char>> {
    if nested_error_text(json, "message"@) is Some {
        nested_error_text(json, "message"@)
    } else if json.text_at("detail"@) is Some {
        json.text_at("detail"@)
    } else {
        json.text_at("message"@)
    }
}

/// What an answer of the service says about an error.
pub fn chat_error_text(json: &Json) -> (r: Option<String>)
    ensures
        opt_view(r) == chat_error_detail(json@),
{
    if let Some(text) = find_nested_error_text(json, "message") {
        return Some(text);
    }
    if let Some(text) = json.text_at("detail") {
        return Some(text);
    }
    json.text_at("message")
}

/// What a failed chat request says, given its body without white space around it and what that
/// could be read as: the detail in it, if there is one, else the body itself.
pub open spec fn chat_failure_from(body: Seq<char>, json: Option<JsonView>) -> Seq<char> {
    if body.len() == 0 {
        "unknown error"@
    } else {
        match json {
            Some(json) => match chat_error_detail(json) {
                Some(text) => text,
                None => body,
            },
            None => body,
        }
    }
}

/// What the body of a failed chat request says.
pub open spec fn chat_failure_text(raw: Seq<char>) -> Seq<char> {
    chat_failure_from(trimmed(raw), ok_of(json_of(trimmed(raw))))
}

/// What a failed chat request says. `json` is what the body, without the white space around it,
/// could be read as.
pub fn chat_message_from(raw: &str, json: Option<Json>) -> (r: String)
    ensures
        r@ == chat_failure_from(trimmed(raw@), json_opt(json)),
{
    let body = trim(raw);
    if body.is_empty() {
        return "unknown error".to_string();
    }
    match json {
        Some(json) => match chat_error_text(&json) {
            Some(text) => text,
            None => body.to_string(),
        },
        None => body.to_string(),
    }
}

/// What the body of a failed chat request says.
pub fn error_message(raw: &str) -> (r: String)
    ensures
        r@ == chat_failure_text(raw@),
{
    chat_message_from(raw, parse_json_if(trim(raw)))
}

/// What the status of a reply leads to.
#[derive(Debug)]
pub enum Reply {
    /// The request counts as not authorized; the notice, if any, is to be shown.
    Unauthorized { notice: Option<String> },
    /// The answer is in the body.
    Stream,
}

pub enum ReplyKind {
    Unauthorized { notice: Option<Seq<char>> },
    Stream,
}

impl View for Reply {
    type V = ReplyKind;

    open spec fn view(&self) -> ReplyKind {
        match self {
            Reply::Unauthorized { notice } => ReplyKind::Unauthorized { notice: opt_view(*notice) },
            Reply::Stream => ReplyKind::Stream,
        }
    }
}

/// What the status of a reply leads to: 401 to a refresh, with a notice if the body says
/// anything; success to reading the body; every other status is an error.
pub open spec fn reply_kind(status: HttpStatus, body: Seq<char>) -> Result<
    ReplyKind,
    ChatErrorView,
> {
    if status.code == 401 {
        Ok(
            ReplyKind::Unauthorized {
                notice: if trimmed(body).len() == 0 {
                    None
                } else {
                    Some("refreshing ChatGPT auth after 401: "@ + chat_failure_text(body))
                },
            },
        )
    } else if !status.ok() {
        Err(ChatErrorView::Backend { status: status.text@, detail: chat_failure_text(body) })
    } else {
        Ok(ReplyKind::Stream)
    }
}

/// Judges a reply by its status. `body` is its body unless the status is a success.
pub fn judge_reply(status: &HttpStatus, body: &str) -> (r: Result<Reply, ChatError>)
    ensures
        result_view(r) == reply_kind(*status, body@),
{
    if status.code == 401 {
        let notice = if trim(body).is_empty() {
            None
        } else {
            Some(
                "refreshing ChatGPT auth after 401: ".to_string().concat(
                    error_message(body).as_str(),
                ),
            )
        };
        return Ok(Reply::Unauthorized { notice });
    }
    if !status.is_success() {
        return Err(
            ChatError::Backend { status: status.text.clone(), detail: error_message(body) },
        );
    }
    Ok(Reply::Stream)
}

/// What one line of a streamed answer means.
pub enum LineMeaning {
    Nothing,
    End,
    Chunk(Seq<char>),
    Failure(ChatErrorView),
}

/// What the payload of an event means, given what it could be read as, or why it could not.
pub open spec fn event_meaning(
    payload: Seq<char>,
    event: Result<JsonView, Seq<char>>,
) -> LineMeaning {
    match event {
        Err(cause) => LineMeaning::Failure(ChatErrorView::EventPayload(cause)),
        Ok(event) => {
            let kind = event.text_at("type"@);
            if kind == Some("response.output_text.delta"@) {
                match event.text_at("delta"@) {
                    Some(delta) => LineMeaning::Chunk(delta),
                    None => LineMeaning::Nothing,
                }
            } else if kind == Some("response.error"@) {
                LineMeaning::Failure(ChatErrorView::Reported(payload))
            } else {
                LineMeaning::Nothing
            }
        },
    }
}

/// The payload of a line with data.
pub open spec fn line_payload(line: Seq<char>) -> Seq<char> {
    trimmed(without_prefixes(line, "data: "@))
}

/// What one line of a streamed answer means. Only lines with data mean anything.
pub open spec fn line_meaning(line: Seq<char>) -> LineMeaning {
    if !has_prefix(line, "data: "@) {
        LineMeaning::Nothing
    } else if line_payload(line) == "[DONE]"@ {
        LineMeaning::End
    } else {
        event_meaning(line_payload(line), json_of(line_payload(line)))
    }
}

/// What has been read of a streamed answer.
#[verifier::ext_equal]
pub struct StreamView {
    pub chunks: Seq<Seq<char>>,
    pub done: bool,
}

/// What has been read after one more thing was learned; nothing counts after the end.
pub open spec fn stream_after(stream: StreamView, meaning: LineMeaning) -> Result<
    StreamView,
    ChatErrorView,
> {
    match meaning {
        LineMeaning::Nothing => Ok(stream),
        LineMeaning::End => Ok(StreamView { done: true, ..stream }),
        LineMeaning::Chunk(text) => Ok(StreamView { chunks: stream.chunks.push(text), ..stream }),
        LineMeaning::Failure(error) => Err(error),
    }
}

/// What has been read after one more line.
pub open spec fn stream_after_line(stream: StreamView, line: Seq<char>) -> Result<
    StreamView,
    ChatErrorView,
> {
    if stream.done {
        Ok(stream)
    } else {
        stream_after(stream, line_meaning(line))
    }
}

/// What has been read after more lines; the first failure counts.
pub open spec fn stream_after_lines(stream: StreamView, lines: Seq<Seq<char>>) -> Result<
    StreamView,
    ChatErrorView,
>
    decreases lines.len(),
{
    if lines.len() == 0 {
        Ok(stream)
    } else {
        match stream_after_lines(stream, lines.drop_last()) {
            Ok(stream) => stream_after_line(stream, lines.last()),
            Err(error) => Err(error),
        }
    }
}

/// The state before the first line.
pub open spec fn empty_stream() -> StreamView {
    StreamView { chunks: Seq::empty(), done: false }
}

/// The answer: all chunks together. There has to be a chunk.
pub open spec fn stream_answer(stream: StreamView) -> Result<Seq<char>, ChatErrorView> {
    if stream.chunks.len() == 0 {
        Err(ChatErrorView::NoText)
    } else {
        Ok(joined(stream.chunks, ""@))
    }
}

/// The answer in the lines of a stream.
pub open spec fn answer_in(lines: Seq<Seq<char>>) -> Result<Seq<char>, ChatErrorView> {
    match stream_after_lines(empty_stream(), lines) {
        Ok(stream) => stream_answer(stream),
        Err(error) => Err(error),
    }
}

/// Reads a streamed answer line by line.
#[derive(Debug)]
pub struct StreamReader {
    pub chunks: Vec<String>,
    pub done: bool,
}

impl View for StreamReader {
    type V = StreamView;

    open spec fn view(&self) -> StreamView {
        StreamView { chunks: texts(self.chunks@), done: self.done }
    }
}

impl StreamReader {
    pub fn new() -> (r: StreamReader)
        ensures
            r@ == empty_stream(),
    {
        let r = StreamReader { chunks: Vec::new(), done: false };
        assert(r@.chunks =~= Seq::empty());
        r
    }

    /// Takes an event, given the payload and what that could be read as, or why it could not.
    pub fn take_event(&mut self, payload: &str, event: Result<Json, String>) -> (r: Result<
        (),
        ChatError,
    >)
        ensures
            match stream_after(old(self)@, event_meaning(payload@, result_view(event))) {
                Ok(stream) => r is Ok && final(self)@ == stream,
                Err(error) => error_view(r) == Err::<(), ChatErrorView>(error) && final(self)@
                    == old(self)@,
            },
    {
        let event = match event {
            Err(cause) => {
                return Err(ChatError::EventPayload(cause));
            },
            Ok(event) => event,
        };
        if let Some(kind) = event.text_at("type") {
            if same_text(kind.as_str(), "response.output_text.delta") {
                if let Some(delta) = event.text_at("delta") {
                    proof {
                        lemma_texts_push(self.chunks@, delta);
                    }
                    self.chunks.push(delta);
                }
            } else if same_text(kind.as_str(), "response.error") {
                return Err(ChatError::Reported(payload.to_string()));
            }
        }
        Ok(())
    }

    /// Takes one line, without its end.
    pub fn take_line(&mut self, line: &str) -> (r: Result<(), ChatError>)
        ensures
            match stream_after_line(old(self)@, line@) {
                Ok(stream) => r is Ok && final(self)@ == stream,
                Err(error) => error_view(r) == Err::<(), ChatErrorView>(error) && final(self)@
                    == old(self)@,
            },
    {
        if self.done || !starts_with(line, "data: ") {
            return Ok(());
        }
        let payload = trim(trim_start_matches(line, "data: "));
        if same_text(payload, "[DONE]") {
            self.done = true;
            return Ok(());
        }
        let event = parse_json(payload);
        self.take_event(payload, event)
    }

    /// The answer.
    pub fn finish(&self) -> (r: Result<String, ChatError>)
        ensures
            result_view(r) == stream_answer(self@),
    {
        assert(texts(self.chunks@).len() == self.chunks@.len());
        if self.chunks.len() == 0 {
            return Err(ChatError::NoText);
        }
        Ok(join(&self.chunks, ""))
    }
}

/// The answer in the lines of a stream.
pub fn extract_stream_text(lines: &Vec<String>) -> (r: Result<String, ChatError>)
    ensures
        result_view(r) == answer_in(texts(lines@)),
{
    let mut reader = StreamReader::new();
    let ghost all = texts(lines@);
    let mut i: usize = 0;
    assert(all.take(0) =~= Seq::empty());
    while i < lines.len()
        invariant
            i <= lines@.len(),
            all == texts(lines@),
            stream_after_lines(empty_stream(), all.take(i as int)) == Ok::<
                StreamView,
                ChatErrorView,
            >(reader@),
        decreases lines@.len() - i,
    {
        let ghost before = reader@;
        assert(all.take(i + 1).drop_last() =~= all.take(i as int));
        assert(all.take(i + 1).last() == all[i as int]);
        match reader.take_line(lines[i].as_str()) {
            Ok(_) => {},
            Err(error) => {
                proof {
                    lemma_failure_is_final(all, i + 1, error@);
                }
                return Err(error);
            },
        }
        i += 1;
    }
    assert(all.take(i as int) =~= all);
    reader.finish()
}

proof fn lemma_failure_is_final(lines: Seq<Seq<char>>, upto: int, error: ChatErrorView)
    requires
        0 <= upto <= lines.len(),
        stream_after_lines(empty_stream(), lines.take(upto)) == Err::<StreamView, ChatErrorView>(
            error,
        ),
    ensures
        stream_after_lines(empty_stream(), lines) == Err::<StreamView, ChatErrorView>(error),
    decreases lines.len() - upto,
{
    if upto < lines.len() {
        assert(lines.take(upto + 1).drop_last() =~= lines.take(upto));
        lemma_failure_is_final(lines, upto + 1, error);
    } else {
        assert(lines.take(upto) =~= lines);
    }
}

/// Lines can be read in parts: the state after the first part is all that the second needs.
pub proof fn law_stream_can_be_read_in_parts(
    stream: StreamView,
    first: Seq<Seq<char>>,
    second: Seq<Seq<char>>,
)
    ensures
        stream_after_lines(stream, first + second) == match stream_after_lines(stream, first) {
            Ok(between) => stream_after_lines(between, second),
            Err(error) => Err(error),
        },
    decreases second.len(),
{
    if second.len() == 0 {
        assert(first + second =~= first);
    } else {
        assert((first + second).drop_last() =~= first + second.drop_last());
        law_stream_can_be_read_in_parts(stream, first, second.drop_last());
    }
}

proof fn lemma_done_stays(stream: StreamView, lines: Seq<Seq<char>>)
    requires
        stream.done,
    ensures
        stream_after_lines(stream, lines) == Ok::<StreamView, ChatErrorView>(stream),
    decreases lines.len(),
{
    if lines.len() > 0 {
        lemma_done_stays(stream, lines.drop_last());
    }
}

/// What comes after the end mark of a stream does not count, whatever it is.
pub proof fn law_lines_after_the_end_are_ignored(
    before: Seq<Seq<char>>,
    mark: Seq<char>,
    after: Seq<Seq<char>>,
)
    requires
        line_meaning(mark) is End,
    ensures
        answer_in(before + seq![mark] + after) == answer_in(before),
{
    let marked = before + seq![mark];
    assert(marked.drop_last() =~= before);
    law_stream_can_be_read_in_parts(empty_stream(), marked, after);
    if let Ok(stream) = stream_after_lines(empty_stream(), marked) {
        lemma_done_stays(stream, after);
    }
}

/// Lines without data do not count.
pub proof fn law_lines_without_data_are_ignored(
    before: Seq<Seq<char>>,
    line: Seq<char>,
    after: Seq<Seq<char>>,
)
    requires
        !has_prefix(line, "data: "@),
    ensures
        answer_in(before + seq![line] + after) == answer_in(before + after),
{
    let with_line = before + seq![line];
    assert(with_line.drop_last() =~= before);
    law_stream_can_be_read_in_parts(empty_stream(), with_line, after);
    law_stream_can_be_read_in_parts(empty_stream(), before, after);
}

/// A request carries the whole chat: it has exactly as many messages as there are turns, and each
/// has the role of its turn and one content, the text of that turn, unchanged. The service is told
/// to stream its answer and not to keep the chat.
pub proof fn law_request_carries_every_turn(
    model: Seq<char>,
    instructions: Seq<char>,
    turns: Seq<TurnView>,
)
    ensures
        request_of(model, instructions, turns).input.len() == turns.len(),
        forall|i: int|
            0 <= i < turns.len() ==> {
                let message = #[trigger] request_of(model, instructions, turns).input[i];
                &&& message.role == turns[i].role
                &&& message.content.len() == 1
                &&& message.content[0].text == turns[i].content
                &&& message.content[0].kind == "output_text"@ <==> turns[i].role == "assistant"@
                &&& message.content[0].kind == "input_text"@ <==> turns[i].role != "assistant"@
            },
        request_of(model, instructions, turns).model == model,
        request_of(model, instructions, turns).instructions == instructions,
        request_of(model, instructions, turns).stream,
        !request_of(model, instructions, turns).store,
{
    reveal_strlit("output_text");
    reveal_strlit("input_text");
    assert("output_text"@ != "input_text"@) by {
        assert("output_text"@[0] != "input_text"@[0]);
    }
}

/// A turn that is added to a chat adds one message to the request, behind the others.
pub proof fn law_next_turn_is_one_more_message(
    model: Seq<char>,
    instructions: Seq<char>,
    turns: Seq<TurnView>,
    turn: TurnView,
)
    ensures
        request_of(model, instructions, turns.push(turn)).input.drop_last() == request_of(
            model,
            instructions,
            turns,
        ).input,
        request_of(model, instructions, turns.push(turn)).input.last().content[0].text
            == turn.content,
{
    assert(request_of(model, instructions, turns.push(turn)).input.drop_last() =~= request_of(
        model,
        instructions,
        turns,
    ).input);
}

/// Whether a line is data with this payload: behind `data: `, perhaps with white space around it.
pub open spec fn carries(line: Seq<char>, payload: Seq<char>) -> bool {
    &&& tight(payload)
    &&& payload.len() > 0
    &&& !has_prefix(payload, "data:"@)
    &&& exists|lead: Seq<char>, trail: Seq<char>|
        line == "data: "@ + lead + payload + trail && #[trigger] blank(lead) && #[trigger] blank(
            trail,
        )
}

/// What stands behind `data: ` in a line is its payload, without the white space around it.
pub proof fn law_payload_is_what_a_line_carries(line: Seq<char>, payload: Seq<char>)
    requires
        carries(line, payload),
    ensures
        has_prefix(line, "data: "@),
        line_payload(line) == payload,
{
    reveal_strlit("data: ");
    reveal_strlit("data:");
    let (lead, trail): (Seq<char>, Seq<char>) = choose|lead: Seq<char>, trail: Seq<char>|
        line == "data: "@ + lead + payload + trail && #[trigger] blank(lead) && #[trigger] blank(
            trail,
        );
    let rest = lead + payload + trail;
    assert(line =~= "data: "@ + rest);
    assert(line.take(6) =~= "data: "@);
    assert(line.skip(6) =~= rest);
    if has_prefix(rest, "data: "@) {
        assert(rest.take(6) == "data: "@);
        assert forall|k: int| 0 <= k < 6 implies rest[k] == #[trigger] "data: "@[k] by {
            assert(rest.take(6)[k] == rest[k]);
        }
        let mark = "data: "@;
        assert(mark[0] == 'd' && mark[1] == 'a' && mark[2] == 't' && mark[3] == 'a' && mark[4]
            == ':');
        if lead.len() > 0 {
            assert(white_space(lead[0]));
            assert(rest[0] == lead[0]);
        } else {
            let n = payload.len();
            if n < 5 {
                let last = payload[n - 1];
                assert(!white_space(last));
                assert(rest[n as int] == trail[0]);
                assert(white_space(trail[0]));
                assert(!white_space("data: "@[n as int]));
            } else {
                assert forall|k: int| 0 <= k < 5 implies payload[k] == rest[k] by {}
                assert(payload.take(5) =~= "data:"@);
            }
            assert(false);
        }
    }
    assert(without_prefixes(line, "data: "@) == without_prefixes(rest, "data: "@));
    assert(without_prefixes(rest, "data: "@) == rest);
    lemma_trimmed_is(lead, payload, trail);
}

/// Whether a line is an event of the service that brings this text.
pub open spec fn brings(line: Seq<char>, text: Seq<char>) -> bool {
    exists|payload: Seq<char>| #[trigger]
        carries(line, payload) && payload != "[DONE]"@ && (json_of(payload) matches Ok(event)
            && holds(event, "type"@, JsonView::Text("response.output_text.delta"@)) && holds(
            event,
            "delta"@,
            JsonView::Text(text),
        ))
}

/// Whether an event brings no text and reports no error: it is of another type, or of none, or
/// what it brings is no text.
pub open spec fn empty_event(event: JsonView) -> bool {
    ||| lacks(event, "type"@)
    ||| exists|kind: JsonView| #[trigger]
        holds(event, "type"@, kind) && kind != JsonView::Text("response.output_text.delta"@) && kind
            != JsonView::Text("response.error"@)
    ||| holds(event, "type"@, JsonView::Text("response.output_text.delta"@)) && (lacks(
        event,
        "delta"@,
    ) || exists|delta: JsonView| #[trigger] holds(event, "delta"@, delta) && !(delta is Text))
}

/// Whether a line is an event of the service that brings no text and reports no error.
pub open spec fn brings_nothing(line: Seq<char>) -> bool {
    exists|payload: Seq<char>| #[trigger]
        carries(line, payload) && payload != "[DONE]"@ && (json_of(payload) matches Ok(event)
            && empty_event(event))
}

proof fn lemma_brought_text(line: Seq<char>, text: Seq<char>)
    requires
        brings(line, text),
    ensures
        line_meaning(line) == LineMeaning::Chunk(text),
{
    let payload = choose|payload: Seq<char>| #[trigger]
        carries(line, payload) && payload != "[DONE]"@ && (json_of(payload) matches Ok(event)
            && holds(event, "type"@, JsonView::Text("response.output_text.delta"@)) && holds(
            event,
            "delta"@,
            JsonView::Text(text),
        ));
    law_payload_is_what_a_line_carries(line, payload);
    let event = json_of(payload)->Ok_0;
    law_text_of_a_member(event, "type"@, JsonView::Text("response.output_text.delta"@));
    law_text_of_a_member(event, "delta"@, JsonView::Text(text));
}

proof fn lemma_brought_nothing(line: Seq<char>)
    requires
        brings_nothing(line),
    ensures
        line_meaning(line) == LineMeaning::Nothing,
{
    let payload = choose|payload: Seq<char>| #[trigger]
        carries(line, payload) && payload != "[DONE]"@ && (json_of(payload) matches Ok(event)
            && empty_event(event));
    law_payload_is_what_a_line_carries(line, payload);
    let event = json_of(payload)->Ok_0;
    lemma_empty_event(payload, event);
}

/// An event that brings a text appends exactly that text to the answer, character for character,
/// as long as the stream has neither ended nor failed.
pub proof fn law_delta_is_appended_as_it_is(
    lines: Seq<Seq<char>>,
    line: Seq<char>,
    text: Seq<char>,
)
    requires
        brings(line, text),
        stream_after_lines(empty_stream(), lines) matches Ok(stream) && !stream.done,
    ensures
        answer_in(lines) matches Ok(answer) ==> answer_in(lines.push(line)) == Ok::<
            Seq<char>,
            ChatErrorView,
        >(answer + text),
        answer_in(lines) is Err ==> answer_in(lines.push(line)) == Ok::<Seq<char>, ChatErrorView>(
            text,
        ),
{
    lemma_brought_text(line, text);
    let stream = stream_after_lines(empty_stream(), lines)->Ok_0;
    assert(lines.push(line).drop_last() =~= lines);
    reveal_strlit("");
    let more = stream.chunks.push(text);
    assert(more.drop_last() =~= stream.chunks);
    assert(joined(more, ""@) =~= if stream.chunks.len() == 0 {
        text
    } else {
        joined(stream.chunks, ""@) + text
    });
}

proof fn lemma_stream_of_deltas(lines: Seq<Seq<char>>, texts: Seq<Seq<char>>)
    requires
        lines.len() == texts.len(),
        forall|i: int| 0 <= i < lines.len() ==> brings(#[trigger] lines[i], texts[i]),
    ensures
        stream_after_lines(empty_stream(), lines) == Ok::<StreamView, ChatErrorView>(
            StreamView { chunks: texts, done: false },
        ),
    decreases lines.len(),
{
    if lines.len() == 0 {
        assert(texts =~= seq![]);
    } else {
        let head = lines.drop_last();
        assert forall|i: int| 0 <= i < head.len() implies brings(
            #[trigger] head[i],
            texts.drop_last()[i],
        ) by {
            assert(brings(lines[i], texts[i]));
        }
        lemma_stream_of_deltas(head, texts.drop_last());
        assert(brings(lines[lines.len() - 1], texts.last()));
        lemma_brought_text(lines.last(), texts.last());
        assert(texts.drop_last().push(texts.last()) =~= texts);
    }
}

proof fn lemma_joined_is_flatten(parts: Seq<Seq<char>>)
    ensures
        joined(parts, ""@) == parts.flatten(),
    decreases parts.len(),
{
    reveal_strlit("");
    if parts.len() == 0 {
        assert(joined(parts, ""@) =~= parts.flatten());
    } else {
        lemma_joined_is_flatten(parts.drop_last());
        parts.lemma_flatten_and_flatten_alt_are_equivalent();
        parts.drop_last().lemma_flatten_and_flatten_alt_are_equivalent();
        assert(joined(parts, ""@) =~= joined(parts.drop_last(), ""@) + parts.last());
    }
}

/// The answer in a stream of texts is exactly these texts, one behind the other. A stream without
/// any has no answer.
pub proof fn law_answer_is_all_that_came(lines: Seq<Seq<char>>, texts: Seq<Seq<char>>)
    requires
        lines.len() == texts.len(),
        forall|i: int| 0 <= i < lines.len() ==> brings(#[trigger] lines[i], texts[i]),
    ensures
        lines.len() > 0 ==> answer_in(lines) == Ok::<Seq<char>, ChatErrorView>(texts.flatten()),
        lines.len() == 0 ==> answer_in(lines) == Err::<Seq<char>, ChatErrorView>(
            ChatErrorView::NoText,
        ),
{
    lemma_stream_of_deltas(lines, texts);
    lemma_joined_is_flatten(texts);
}

/// Events that bring nothing do not count, wherever they stand.
pub proof fn law_other_events_are_ignored(
    before: Seq<Seq<char>>,
    line: Seq<char>,
    after: Seq<Seq<char>>,
)
    requires
        brings_nothing(line),
    ensures
        answer_in(before + seq![line] + after) == answer_in(before + after),
{
    lemma_brought_nothing(line);
    let with_line = before + seq![line];
    assert(with_line.drop_last() =~= before);
    law_stream_can_be_read_in_parts(empty_stream(), with_line, after);
    law_stream_can_be_read_in_parts(empty_stream(), before, after);
}

/// A line that carries the mark of the end ends the stream: what came before it is the answer,
/// whatever comes after.
pub proof fn law_end_mark_ends_the_stream(
    before: Seq<Seq<char>>,
    mark: Seq<char>,
    after: Seq<Seq<char>>,
)
    requires
        carries(mark, "[DONE]"@),
    ensures
        answer_in(before + seq![mark] + after) == answer_in(before),
{
    law_payload_is_what_a_line_carries(mark, "[DONE]"@);
    law_lines_after_the_end_are_ignored(before, mark, after);
}

/// A reported error fails the answer with exactly what was reported, and an event that cannot be
/// read fails it with the cause, whatever texts came before and whatever comes after.
pub proof fn law_stream_fails_with_what_was_reported(
    lines: Seq<Seq<char>>,
    texts: Seq<Seq<char>>,
    line: Seq<char>,
    payload: Seq<char>,
    after: Seq<Seq<char>>,
)
    requires
        lines.len() == texts.len(),
        forall|i: int| 0 <= i < lines.len() ==> brings(#[trigger] lines[i], texts[i]),
        carries(line, payload),
        payload != "[DONE]"@,
    ensures
        json_of(payload) matches Ok(event) ==> holds(
            event,
            "type"@,
            JsonView::Text("response.error"@),
        ) ==> answer_in(lines + seq![line] + after) == Err::<Seq<char>, ChatErrorView>(
            ChatErrorView::Reported(payload),
        ),
        json_of(payload) matches Err(cause) ==> answer_in(lines + seq![line] + after) == Err::<
            Seq<char>,
            ChatErrorView,
        >(ChatErrorView::EventPayload(cause)),
{
    lemma_stream_of_deltas(lines, texts);
    law_payload_is_what_a_line_carries(line, payload);
    let with_line = lines + seq![line];
    assert(with_line.drop_last() =~= lines);
    law_stream_can_be_read_in_parts(empty_stream(), with_line, after);
    if let Ok(event) = json_of(payload) {
        if holds(event, "type"@, JsonView::Text("response.error"@)) {
            law_text_of_a_member(event, "type"@, JsonView::Text("response.error"@));
            reveal_strlit("response.error");
            reveal_strlit("response.output_text.delta");
            assert("response.error"@.len() != "response.output_text.delta"@.len());
        }
    }
}

/// A complete answer is handed on as it came, before and after a refresh; only the first request
/// that is not authorized leads to a refresh.
pub proof fn law_complete_answer_is_handed_on(stage: SendStage, text: String)
    ensures
        step_after(stage, ChatResponse::Complete(text)) == SendStepView::Done(text@),
        step_after(SendStage::First, ChatResponse::Unauthorized) is Refresh,
        step_after(SendStage::AfterRefresh, ChatResponse::Unauthorized) is Fail,
{
}

/// The headers of a request carry the token and the account of the access that they are made
/// from, as they are, and no others.
pub proof fn law_headers_carry_the_access(access: AccessView)
    ensures
        headers_for(access) matches Ok(headers) ==> {
            &&& headers.authorization == "Bearer "@ + access.access_token
            &&& headers.account_id == access.account_id
            &&& headers.content_type == "application/json"@
        },
        headers_for(access) is Ok <==> header_text("Bearer "@ + access.access_token)
            && header_text(access.account_id),
        headers_for(access) matches Err(ChatErrorView::AccountHeader(_)) ==> header_text(
            "Bearer "@ + access.access_token,
        ) && !header_text(access.account_id),
        headers_for(access) matches Err(ChatErrorView::AuthorizationHeader(_)) ==> !header_text(
            "Bearer "@ + access.access_token,
        ),
{
}

/// What is told of a failed request: the message in the error that the service reports, else its
/// detail, else its message; without any of them the whole body, and of a blank body that
/// nothing is known.
pub proof fn law_failure_tells_what_the_service_said(
    lead: Seq<char>,
    body: Seq<char>,
    trail: Seq<char>,
    error: JsonView,
    text: Seq<char>,
)
    requires
        blank(lead),
        blank(trail),
        tight(body),
    ensures
        body.len() == 0 ==> chat_failure_text(lead + body + trail) == "unknown error"@,
        body.len() > 0 && json_of(body) is Err ==> chat_failure_text(lead + body + trail) == body,
        body.len() > 0 && (json_of(body) matches Ok(json) && holds(json, "error"@, error) && holds(
            error,
            "message"@,
            JsonView::Text(text),
        )) ==> chat_failure_text(lead + body + trail) == text,
        body.len() > 0 && (json_of(body) matches Ok(json) && lacks(json, "error"@) && holds(
            json,
            "detail"@,
            JsonView::Text(text),
        )) ==> chat_failure_text(lead + body + trail) == text,
        body.len() > 0 && (json_of(body) matches Ok(json) && holds(json, "error"@, error) && lacks(
            error,
            "message"@,
        ) && holds(json, "detail"@, JsonView::Text(text))) ==> chat_failure_text(
            lead + body + trail,
        ) == text,
        body.len() > 0 && (json_of(body) matches Ok(json) && lacks(json, "error"@) && lacks(
            json,
            "detail"@,
        ) && holds(json, "message"@, JsonView::Text(text))) ==> chat_failure_text(
            lead + body + trail,
        ) == text,
        body.len() > 0 && (json_of(body) matches Ok(json) && lacks(json, "error"@) && lacks(
            json,
            "detail"@,
        ) && lacks(json, "message"@)) ==> chat_failure_text(lead + body + trail) == body,
{
    lemma_trimmed_is(lead, body, trail);
    if let Ok(json) = json_of(body) {
        law_member_is_the_first_of_its_name(json, "error"@, error);
        law_member_is_the_first_of_its_name(json, "detail"@, JsonView::Text(text));
        law_member_is_the_first_of_its_name(json, "message"@, JsonView::Text(text));
        law_member_is_the_first_of_its_name(error, "message"@, JsonView::Text(text));
    }
}

/// Only an answer with the status for a missing authorization asks for a refresh, and the notice
/// tells what the service said. Any other status outside of success is an error that tells it.
pub proof fn law_reply_is_judged_by_its_status(status: HttpStatus, body: Seq<char>)
    ensures
        reply_kind(status, body) matches Ok(ReplyKind::Unauthorized { .. }) <==> status.code == 401,
        reply_kind(status, body) matches Ok(ReplyKind::Stream) <==> 200 <= status.code < 300,
        reply_kind(status, body) matches Ok(ReplyKind::Unauthorized { notice: Some(notice) })
            ==> notice == "refreshing ChatGPT auth after 401: "@ + chat_failure_text(body),
        reply_kind(status, body) matches Ok(ReplyKind::Unauthorized { notice: None })
            <==> status.code == 401 && trimmed(body).len() == 0,
        reply_kind(status, body) matches Err(error) ==> error == (ChatErrorView::Backend {
            status: status.text@,
            detail: chat_failure_text(body),
        }),
{
}

/// What an error tells ends with the cause that it carries, and an error of the login tells what
/// it tells there.
pub proof fn law_chat_message_ends_with_the_cause(
    cause: Seq<char>,
    status: Seq<char>,
    error: AuthErrorView,
)
    ensures
        ChatErrorView::Auth(error).message() == error.message(),
        has_suffix(ChatErrorView::AuthorizationHeader(cause).message(), cause),
        has_suffix(ChatErrorView::AccountHeader(cause).message(), cause),
        has_suffix(ChatErrorView::EventPayload(cause).message(), cause),
        has_suffix(ChatErrorView::Reported(cause).message(), cause),
        has_suffix(
            (ChatErrorView::Backend { status, detail: cause }).message(),
            status + ": "@ + cause,
        ),
{
    lemma_has_suffix("failed to construct the authorization header: "@, cause);
    lemma_has_suffix("failed to construct the chatgpt-account-id header: "@, cause);
    lemma_has_suffix("failed to parse an SSE event payload: "@, cause);
    lemma_has_suffix("Codex backend reported an error: "@, cause);
    let told = status + ": "@ + cause;
    lemma_has_suffix("Codex backend returned "@, told);
    assert("Codex backend returned "@ + status + ": "@ + cause =~= "Codex backend returned "@
        + told);
}

/// A session without a usable access gets no headers but the error of the access; one with an
/// access gets the headers of that access.
pub proof fn law_session_headers_come_from_its_access(access: AccessView, error: AuthErrorView)
    ensures
        session_headers_of(Ok(access)) == headers_for(access),
        session_headers_of(Err(error)) == Err::<HeadersView, ChatErrorView>(
            ChatErrorView::Auth(error),
        ),
{
}

/// An event is taken as it is: a text that it brings goes behind the others unchanged, an error
/// fails with the payload unchanged, one that cannot be read with its cause, and any other leaves
/// the stream alone.
pub proof fn law_event_is_taken_as_it_is(
    stream: StreamView,
    payload: Seq<char>,
    event: JsonView,
    text: Seq<char>,
    cause: Seq<char>,
)
    ensures
        holds(event, "type"@, JsonView::Text("response.output_text.delta"@)) && holds(
            event,
            "delta"@,
            JsonView::Text(text),
        ) ==> stream_after(stream, event_meaning(payload, Ok(event))) == Ok::<
            StreamView,
            ChatErrorView,
        >(StreamView { chunks: stream.chunks.push(text), done: stream.done }),
        holds(event, "type"@, JsonView::Text("response.error"@)) ==> stream_after(
            stream,
            event_meaning(payload, Ok(event)),
        ) == Err::<StreamView, ChatErrorView>(ChatErrorView::Reported(payload)),
        stream_after(stream, event_meaning(payload, Err(cause))) == Err::<
            StreamView,
            ChatErrorView,
        >(ChatErrorView::EventPayload(cause)),
        empty_event(event) ==> stream_after(stream, event_meaning(payload, Ok(event))) == Ok::<
            StreamView,
            ChatErrorView,
        >(stream),
{
    reveal_strlit("response.error");
    reveal_strlit("response.output_text.delta");
    assert("response.error"@.len() != "response.output_text.delta"@.len());
    if holds(event, "type"@, JsonView::Text("response.output_text.delta"@)) {
        law_text_of_a_member(event, "type"@, JsonView::Text("response.output_text.delta"@));
    }
    if holds(event, "delta"@, JsonView::Text(text)) {
        law_text_of_a_member(event, "delta"@, JsonView::Text(text));
    }
    if holds(event, "type"@, JsonView::Text("response.error"@)) {
        law_text_of_a_member(event, "type"@, JsonView::Text("response.error"@));
    }
    if empty_event(event) {
        lemma_empty_event(payload, event);
    }
}

proof fn lemma_empty_event(payload: Seq<char>, event: JsonView)
    requires
        empty_event(event),
    ensures
        event_meaning(payload, Ok(event)) == LineMeaning::Nothing,
{
    if lacks(event, "type"@) {
        law_member_is_the_first_of_its_name(event, "type"@, JsonView::Null);
    } else if holds(event, "type"@, JsonView::Text("response.output_text.delta"@)) && (lacks(
        event,
        "delta"@,
    ) || exists|delta: JsonView| #[trigger] holds(event, "delta"@, delta) && !(delta is Text)) {
        law_text_of_a_member(event, "type"@, JsonView::Text("response.output_text.delta"@));
        if lacks(event, "delta"@) {
            law_member_is_the_first_of_its_name(event, "delta"@, JsonView::Null);
        } else {
            let delta = choose|delta: JsonView| #[trigger]
                holds(event, "delta"@, delta) && !(delta is Text);
            law_text_of_a_member(event, "delta"@, delta);
        }
    } else {
        let kind = choose|kind: JsonView| #[trigger]
            holds(event, "type"@, kind) && kind != JsonView::Text("response.output_text.delta"@)
                && kind != JsonView::Text("response.error"@);
        law_text_of_a_member(event, "type"@, kind);
    }
}

} // verus!
