use agent_may::auth::{AuthFile, UserProfile};
use agent_may::cli::{
    chat_banner, chosen_command, login_report, logout_report, status_report, take_answer, take_line,
    ChatArgs, Command, LineStep,
};
use agent_may::login::LoginSummary;
use agent_may::paths::Location;

fn text(s: &str) -> Option<String> {
    Some(s.to_string())
}

fn profile(email: Option<String>, plan: Option<String>, account: Option<String>) -> UserProfile {
    UserProfile { email, plan_type: plan, account_id: account }
}

#[test]
fn chat_is_the_default_command() {
    match chosen_command(None) {
        Command::Chat(args) => {
            assert_eq!(args.model, "gpt-5");
            assert_eq!(args.system_prompt, "You are a concise terminal-based AI assistant.");
        }
        other => panic!("{:?}", other),
    }
    assert!(matches!(chosen_command(Some(Command::Logout)), Command::Logout));
    let given = ChatArgs { model: "m".to_string(), system_prompt: "p".to_string() };
    match chosen_command(Some(Command::Chat(given))) {
        Command::Chat(args) => assert_eq!((args.model, args.system_prompt), ("m".into(), "p".into())),
        other => panic!("{:?}", other),
    }
}

#[test]
fn lines_at_the_prompt() {
    let mut turns = Vec::new();
    assert_eq!(take_line(&mut turns, " \n"), LineStep::AskAgain);
    assert_eq!(take_line(&mut turns, "/exit\n"), LineStep::Leave);
    assert_eq!(take_line(&mut turns, "  /quit "), LineStep::Leave);
    assert!(turns.is_empty());
    assert_eq!(take_line(&mut turns, "/exit now\n"), LineStep::Send);
    assert_eq!(turns.len(), 1);
    assert_eq!(turns[0].role, "user");
    assert_eq!(turns[0].content, "/exit now");
}

#[test]
fn user_and_assistant_take_turns() {
    let mut turns = Vec::new();
    for (line, answer) in [("a", "b"), ("c", "d")] {
        assert_eq!(take_line(&mut turns, line), LineStep::Send);
        assert_eq!(
            take_answer(&mut turns, answer.to_string()),
            format!("\nassistant> {}\n", answer)
        );
    }
    let roles: Vec<String> = turns.iter().map(|t| t.role.clone()).collect();
    assert_eq!(roles, vec!["user", "assistant", "user", "assistant"]);
    assert_eq!(turns[3].content, "d");
}

#[test]
fn requests_of_a_whole_chat() {
    let mut turns = Vec::new();
    let mut requests: Vec<String> = Vec::new();
    let mut answers = ["x", "y", "z"].iter();
    for line in [" \n", "one\n", "", "two", " three ", "/quit\n", "four"] {
        match take_line(&mut turns, line) {
            LineStep::AskAgain => {}
            LineStep::Leave => break,
            LineStep::Send => {
                let said: Vec<String> =
                    turns.iter().map(|t| format!("{}:{}", t.role, t.content)).collect();
                requests.push(said.join(" "));
                take_answer(&mut turns, answers.next().unwrap().to_string());
            }
        }
    }
    assert_eq!(
        requests,
        vec![
            "user:one",
            "user:one assistant:x user:two",
            "user:one assistant:x user:two assistant:y user:three",
        ]
    );
}

#[test]
fn report_after_a_login() {
    let summary = LoginSummary {
        email: text("me@x"),
        plan_type: text("plus"),
        auth_path: Location::at("/a"),
    };
    assert_eq!(
        login_report(&summary, "/a"),
        vec!["", "Login succeeded.", "Account: me@x", "Plan: plus", "Saved auth to /a"]
    );
    let bare = LoginSummary { email: None, plan_type: None, auth_path: Location::at("/a") };
    assert_eq!(login_report(&bare, "/a"), vec!["", "Login succeeded.", "Saved auth to /a"]);
}

#[test]
fn banner_before_a_chat() {
    assert_eq!(
        chat_banner("gpt-5", &profile(text("me@x"), text("plus"), None)),
        vec!["Model: gpt-5", "Signed in as: me@x", "Plan: plus", "Type `/exit` to quit.\n"]
    );
    assert_eq!(
        chat_banner("gpt-5", &profile(None, None, None)),
        vec!["Model: gpt-5", "Type `/exit` to quit.\n"]
    );
}

#[test]
fn report_of_the_status() {
    let auth = AuthFile {
        auth_mode: text("chatgpt"),
        openai_api_key: text("sk"),
        tokens: None,
        last_refresh: None,
    };
    assert_eq!(
        status_report(&auth, &profile(text("me@x"), text("plus"), text("acct")), "/a"),
        vec![
            "Auth file: /a",
            "Mode: chatgpt",
            "API key present: true",
            "Account: me@x",
            "Plan: plus",
            "Workspace: acct",
        ]
    );
    let bare =
        AuthFile { auth_mode: None, openai_api_key: None, tokens: None, last_refresh: None };
    assert_eq!(
        status_report(&bare, &profile(None, None, None), "/a"),
        vec!["Auth file: /a", "Mode: unknown", "API key present: false"]
    );
}

#[test]
fn report_after_a_logout() {
    assert_eq!(logout_report(true), "Removed stored auth.");
    assert_eq!(logout_report(false), "No stored auth was present.");
}
