use agent_may::auth::{AuthError, AuthFile, ChatGptAccess, HttpStatus};
use agent_may::json::{parse_json, Json};
use agent_may::openai::{
    chat_error_text, chat_headers, chat_message_from, content_type_for_role, error_message,
    extract_stream_text, judge_reply, session_headers, ChatClient, ChatError, ChatResponse,
    ChatTurn, Reply, SendStage, SendStep, StreamReader,
};

fn turn(role: &str, content: &str) -> ChatTurn {
    ChatTurn { role: role.to_string(), content: content.to_string() }
}

fn status(code: u16, text: &str) -> HttpStatus {
    HttpStatus { code, text: text.to_string() }
}

fn client() -> ChatClient {
    ChatClient::new("gpt-5".to_string(), "be brief".to_string())
}

fn owned(parts: &[&str]) -> Vec<String> {
    parts.iter().map(|p| p.to_string()).collect()
}

fn access(token: &str, account: &str) -> ChatGptAccess {
    ChatGptAccess { access_token: token.to_string(), account_id: account.to_string() }
}

fn delta(text: &str) -> String {
    format!(r#"data: {{"type":"response.output_text.delta","delta":"{}"}}"#, text)
}

#[test]
fn kinds_of_content() {
    assert_eq!(content_type_for_role("assistant"), "output_text");
    assert_eq!(content_type_for_role("user"), "input_text");
    assert_eq!(content_type_for_role("Assistant"), "input_text");
}

#[test]
fn request_carries_every_turn() {
    let request = client().request(&vec![turn("user", "hi"), turn("assistant", "hello")]);
    assert_eq!(request.model, "gpt-5");
    assert_eq!(request.instructions, "be brief");
    assert!(!request.store);
    assert!(request.stream);
    assert_eq!(request.input.len(), 2);
    assert_eq!(request.input[0].role, "user");
    assert_eq!(request.input[0].content.len(), 1);
    assert_eq!(request.input[0].content[0].kind, "input_text");
    assert_eq!(request.input[0].content[0].text, "hi");
    assert_eq!(request.input[1].role, "assistant");
    assert_eq!(request.input[1].content[0].kind, "output_text");
    assert_eq!(request.input[1].content[0].text, "hello");
}

#[test]
fn first_refusal_leads_to_one_refresh() {
    let client = client();
    match client.send(SendStage::First, ChatResponse::Unauthorized) {
        SendStep::Refresh(stage) => match client.send(stage, ChatResponse::Unauthorized) {
            SendStep::Fail(error) => {
                assert_eq!(error.message(), "chat request remained unauthorized after refresh")
            }
            other => panic!("{:?}", other),
        },
        other => panic!("{:?}", other),
    }
}

#[test]
fn answer_ends_the_request_at_either_stage() {
    for stage in [SendStage::First, SendStage::AfterRefresh] {
        match client().send(stage, ChatResponse::Complete("42".to_string())) {
            SendStep::Done(text) => assert_eq!(text, "42"),
            other => panic!("{:?}", other),
        }
    }
}

#[test]
fn headers_carry_token_and_account() {
    let headers = chat_headers(access("tok", "acct\té")).unwrap();
    assert_eq!(headers.content_type, "application/json");
    assert_eq!(headers.authorization, "Bearer tok");
    assert_eq!(headers.account_id, "acct\té");
}

#[test]
fn control_characters_cannot_stand_in_headers() {
    for bad in ["a\nb", "a\0", "\u{7f}", "\r"] {
        let error = chat_headers(access(bad, "acct")).unwrap_err();
        assert_eq!(
            error.message(),
            "failed to construct the authorization header: failed to parse header value"
        );
        let error = chat_headers(access("tok", bad)).unwrap_err();
        assert_eq!(
            error.message(),
            "failed to construct the chatgpt-account-id header: failed to parse header value"
        );
    }
}

#[test]
fn headers_need_tokens() {
    let auth =
        AuthFile { auth_mode: None, openai_api_key: None, tokens: None, last_refresh: None };
    let error = session_headers(&auth, Err("unread".to_string())).unwrap_err();
    assert!(matches!(error, ChatError::Auth(AuthError::NoTokens)));
    assert_eq!(error.message(), "stored auth does not contain ChatGPT tokens");
}

#[test]
fn chat_error_message_falls_back_step_by_step() {
    assert_eq!(
        error_message(r#"{"error":{"message":"a"},"detail":"b","message":"c"}"#),
        "a"
    );
    assert_eq!(error_message(r#"{"error":"x","detail":"b","message":"c"}"#), "b");
    assert_eq!(error_message(r#"{"detail":1,"message":"c"}"#), "c");
    assert_eq!(error_message(" {} "), "{}");
    assert_eq!(error_message("plain\n"), "plain");
    assert_eq!(error_message("\t"), "unknown error");
}

#[test]
fn chat_error_text_of_a_value() {
    let json = Json::Object(vec![("detail".to_string(), Json::Text("d".to_string()))]);
    assert_eq!(chat_error_text(&json), Some("d".to_string()));
    assert_eq!(chat_error_text(&Json::Text("d".to_string())), None);
}

#[test]
fn chat_error_message_of_a_given_value() {
    let json = Json::Object(vec![("detail".to_string(), Json::Text("d".to_string()))]);
    assert_eq!(chat_message_from(" body ", Some(json)), "d");
    assert_eq!(chat_message_from(" body ", Some(Json::List(Vec::new()))), "body");
    assert_eq!(chat_message_from("\n", None), "unknown error");
}

#[test]
fn unauthorized_reply_comes_with_a_notice() {
    match judge_reply(&status(401, "401 Unauthorized"), r#"{"detail":"expired"}"#) {
        Ok(Reply::Unauthorized { notice }) => assert_eq!(
            notice,
            Some("refreshing ChatGPT auth after 401: expired".to_string())
        ),
        other => panic!("{:?}", other),
    }
    match judge_reply(&status(401, "401 Unauthorized"), " ") {
        Ok(Reply::Unauthorized { notice }) => assert_eq!(notice, None),
        other => panic!("{:?}", other),
    }
}

#[test]
fn other_failures_are_errors() {
    let error = judge_reply(&status(429, "429 Too Many Requests"), "slow down").unwrap_err();
    assert_eq!(error.message(), "Codex backend returned 429 Too Many Requests: slow down");
}

#[test]
fn success_is_read_as_a_stream() {
    assert!(matches!(judge_reply(&status(200, "200 OK"), ""), Ok(Reply::Stream)));
}

#[test]
fn stream_is_the_chunks_in_order() {
    let lines = vec![
        "event: x".to_string(),
        delta("Hel"),
        String::new(),
        r#"data: {"type":"response.created"}"#.to_string(),
        delta("lo"),
        "data: [DONE]".to_string(),
        "data: not even json".to_string(),
    ];
    assert_eq!(extract_stream_text(&lines).unwrap(), "Hello");
}

#[test]
fn stream_without_chunks_is_an_error() {
    let error = extract_stream_text(&owned(&["data: [DONE]", &delta("late")])).unwrap_err();
    assert_eq!(error.message(), "chat response did not contain readable text");
    assert!(extract_stream_text(&Vec::new()).is_err());
}

#[test]
fn empty_chunk_is_an_answer() {
    assert_eq!(extract_stream_text(&vec![delta("")]).unwrap(), "");
}

#[test]
fn stream_with_a_broken_event_is_an_error() {
    let error = extract_stream_text(&owned(&[&delta("a"), "data: {"])).unwrap_err();
    assert_eq!(
        error.message(),
        "failed to parse an SSE event payload: EOF while parsing an object at line 1 column 1"
    );
}

#[test]
fn reported_error_is_passed_on() {
    let error =
        extract_stream_text(&owned(&[r#"data:   {"type":"response.error","n":1} "#])).unwrap_err();
    assert_eq!(
        error.message(),
        r#"Codex backend reported an error: {"type":"response.error","n":1}"#
    );
}

#[test]
fn repeated_data_marks_are_skipped() {
    let line = format!("data: {}", delta("x"));
    assert_eq!(extract_stream_text(&vec![line]).unwrap(), "x");
}

#[test]
fn delta_that_is_no_text_is_skipped() {
    let lines = vec![
        r#"data: {"type":"response.output_text.delta","delta":7}"#.to_string(),
        delta("x"),
    ];
    assert_eq!(extract_stream_text(&lines).unwrap(), "x");
}

#[test]
fn reader_takes_line_by_line() {
    let mut reader = StreamReader::new();
    reader.take_line(&delta("a")).unwrap();
    reader.take_line("data: [DONE]").unwrap();
    reader.take_line(&delta("b")).unwrap();
    assert!(reader.done);
    assert_eq!(reader.finish().unwrap(), "a");
}

#[test]
fn reader_takes_events() {
    let mut reader = StreamReader::new();
    let event = parse_json(r#"{"type":"response.output_text.delta","delta":"q"}"#);
    reader.take_event("unused", event).unwrap();
    let error = reader.take_event("p", Err("bad".to_string())).unwrap_err();
    assert_eq!(error.message(), "failed to parse an SSE event payload: bad");
    assert_eq!(reader.finish().unwrap(), "q");
}
