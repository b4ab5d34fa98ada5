//! The commands of the program, and what they print.

use vstd::prelude::*;
use vstd::string::*;

use crate::auth::{AuthFile, AuthFileView, ProfileView, UserProfile};
use crate::layout::at_most;
use crate::lines::{blank, lemma_trimmed_is, tight};
use crate::login::{LoginSummary, SummaryView};
use crate::openai::{turn_views, ChatTurn, TurnView};
use crate::screen::{or_unknown, text_or_unknown};
use crate::text::{lemma_texts_push, same_text, texts, trim, trimmed};

verus! {

pub const DEFAULT_MODEL: &'static str = "gpt-5";

pub const DEFAULT_SYSTEM_PROMPT: &'static str = "You are a concise terminal-based AI assistant.";

pub const NO_LOGIN: &'static str =
    "no stored Codex-style login found; run `agent-may login` first";

/// What a chat is started with.
#[derive(Debug)]
pub struct ChatArgs {
    pub model: String,
    pub system_prompt: String,
}

/// What the program is asked to do.
#[derive(Debug)]
pub enum Command {
    Login,
    Chat(ChatArgs),
    Logout,
    Status,
}

pub enum CommandView {
    Login,
    Chat { model: Seq<char>, system_prompt: Seq<char> },
    Logout,
    Status,
}

impl View for Command {
    type V = CommandView;

    open spec fn view(&self) -> CommandView {
        match self {
            Command::Login => CommandView::Login,
            Command::Chat(args) => CommandView::Chat {
                model: args.model@,
                system_prompt: args.system_prompt@,
            },
            Command::Logout => CommandView::Logout,
            Command::Status => CommandView::Status,
        }
    }
}

/// What to do: what was asked, or a chat with the default model and prompt.
pub fn chosen_command(command: Option<Command>) -> (r: Command)
    ensures
        r@ == match command {
            Some(c) => c@,
            None => CommandView::Chat {
                model: DEFAULT_MODEL@,
                system_prompt: DEFAULT_SYSTEM_PROMPT@,
            },
        },
{
    match command {
        Some(c) => c,
        None => Command::Chat(
            ChatArgs {
                model: DEFAULT_MODEL.to_string(),
                system_prompt: DEFAULT_SYSTEM_PROMPT.to_string(),
            },
        ),
    }
}

/// What a line typed at the prompt leads to.
#[derive(Debug, Clone, Copy, PartialEq, Eq, Structural)]
pub enum LineStep {
    /// Ask for another line.
    AskAgain,
    /// End the chat.
    Leave,
    /// Send the turns and hand the answer to `take_answer`.
    Send,
}

/// What a line leads to: an empty one to nothing, the two commands to the end, and every other
/// one is sent. White space around it does not count.
pub open spec fn line_step(line: Seq<char>) -> LineStep {
    let input = trimmed(line);
    if input.len() == 0 {
        LineStep::AskAgain
    } else if input == "/exit"@ || input == "/quit"@ {
        LineStep::Leave
    } else {
        LineStep::Send
    }
}

/// The turns after a line: what is sent becomes a turn of the user.
pub open spec fn turns_after_line(turns: Seq<TurnView>, line: Seq<char>) -> Seq<TurnView> {
    if line_step(line) is Send {
        turns.push(TurnView { role: "user"@, content: trimmed(line) })
    } else {
        turns
    }
}

/// The turns after an answer.
pub open spec fn turns_after_answer(turns: Seq<TurnView>, answer: Seq<char>) -> Seq<TurnView> {
    turns.push(TurnView { role: "assistant"@, content: answer })
}

/// Takes a line that was typed at the prompt.
pub fn take_line(turns: &mut Vec<ChatTurn>, line: &str) -> (r: LineStep)
    ensures
        r == line_step(line@),
        turn_views(final(turns)@) == turns_after_line(turn_views(old(turns)@), line@),
{
    let input = trim(line);
    if input.is_empty() {
        return LineStep::AskAgain;
    }
    if same_text(input, "/exit") || same_text(input, "/quit") {
        return LineStep::Leave;
    }
    let turn = ChatTurn { role: "user".to_string(), content: input.to_string() };
    assert(turn_views(turns@.push(turn)) =~= turn_views(turns@).push(turn@));
    turns.push(turn);
    LineStep::Send
}

/// Takes an answer, and gives what to print for it.
pub fn take_answer(turns: &mut Vec<ChatTurn>, answer: String) -> (r: String)
    ensures
        r@ == "\nassistant> "@ + answer@ + "\n"@,
        turn_views(final(turns)@) == turns_after_answer(turn_views(old(turns)@), answer@),
{
    let printed = "\nassistant> ".to_string().concat(answer.as_str()).concat("\n");
    let turn = ChatTurn { role: "assistant".to_string(), content: answer };
    assert(turn_views(turns@.push(turn)) =~= turn_views(turns@).push(turn@));
    turns.push(turn);
    printed
}

/// Whether the user and the assistant take turns, the user first.
pub open spec fn alternating(turns: Seq<TurnView>) -> bool {
    forall|i: int|
        0 <= i < turns.len() ==> (#[trigger] turns[i]).role == if i % 2 == 0 {
            "user"@
        } else {
            "assistant"@
        }
}

/// In a chat at the prompt the user and the assistant take turns: between two lines every turn of
/// the user has its answer.
pub proof fn law_prompt_chat_alternates(turns: Seq<TurnView>, line: Seq<char>, answer: Seq<char>)
    requires
        alternating(turns),
        turns.len() % 2 == 0,
    ensures
        alternating(turns_after_line(turns, line)),
        line_step(line) is Send ==> {
            let after = turns_after_answer(turns_after_line(turns, line), answer);
            alternating(after) && after.len() % 2 == 0
        },
        !(line_step(line) is Send) ==> turns_after_line(turns, line) == turns,
{
}

/// How far a chat at the prompt has come.
pub enum RunEnd {
    /// Another line is asked for.
    Asking,
    /// An answer is awaited.
    Awaiting,
    /// The user has ended the chat.
    Left,
    /// A request has failed, with this message.
    Failed(Seq<char>),
}

/// A chat at the prompt: the turns of each request that was sent, and how far it has come.
#[verifier::ext_equal]
pub struct PromptRun {
    pub requests: Seq<Seq<TurnView>>,
    pub end: RunEnd,
}

/// A chat at the prompt that goes on from `turns` with these lines, where the requests are answered
/// like this, one after the other. A request that fails ends the chat.
pub open spec fn prompt_run(
    turns: Seq<TurnView>,
    lines: Seq<Seq<char>>,
    answers: Seq<Result<Seq<char>, Seq<char>>>,
) -> PromptRun
    decreases lines.len(),
{
    if lines.len() == 0 {
        PromptRun { requests: seq![], end: RunEnd::Asking }
    } else {
        let asked = turns_after_line(turns, lines[0]);
        match line_step(lines[0]) {
            LineStep::AskAgain => prompt_run(asked, lines.skip(1), answers),
            LineStep::Leave => PromptRun { requests: seq![], end: RunEnd::Left },
            LineStep::Send => if answers.len() == 0 {
                PromptRun { requests: seq![asked], end: RunEnd::Awaiting }
            } else {
                match answers[0] {
                    Ok(answer) => {
                        let rest = prompt_run(
                            turns_after_answer(asked, answer),
                            lines.skip(1),
                            answers.skip(1),
                        );
                        PromptRun { requests: seq![asked] + rest.requests, end: rest.end }
                    },
                    Err(message) => PromptRun {
                        requests: seq![asked],
                        end: RunEnd::Failed(message),
                    },
                }
            },
        }
    }
}

/// What is to be sent of these lines: those that are not blank, without the white space around
/// them, up to the first that ends the chat.
pub open spec fn sent_lines(lines: Seq<Seq<char>>) -> Seq<Seq<char>>
    decreases lines.len(),
{
    if lines.len() == 0 {
        seq![]
    } else {
        match line_step(lines[0]) {
            LineStep::AskAgain => sent_lines(lines.skip(1)),
            LineStep::Leave => seq![],
            LineStep::Send => seq![trimmed(lines[0])] + sent_lines(lines.skip(1)),
        }
    }
}

/// Whether one of these lines ends the chat.
pub open spec fn has_farewell(lines: Seq<Seq<char>>) -> bool {
    exists|i: int| 0 <= i < lines.len() && line_step(#[trigger] lines[i]) is Leave
}

/// How many requests are answered before the first that fails.
pub open spec fn answered(answers: Seq<Result<Seq<char>, Seq<char>>>) -> int
    decreases answers.len(),
{
    if answers.len() == 0 || answers[0] is Err {
        0
    } else {
        1 + answered(answers.skip(1))
    }
}

/// The first `k` of the lines with their answers, and the line after them.
pub open spec fn dialogue(
    sent: Seq<Seq<char>>,
    answers: Seq<Result<Seq<char>, Seq<char>>>,
    k: int,
) -> Seq<TurnView> {
    Seq::new(
        (2 * k + 1) as nat,
        |i: int|
            if i % 2 == 0 {
                TurnView { role: "user"@, content: sent[i / 2] }
            } else {
                TurnView { role: "assistant"@, content: answers[i / 2]->Ok_0 }
            },
    )
}

/// How far a chat comes with so many lines to send and such answers.
pub open spec fn run_end(
    sent: int,
    answers: Seq<Result<Seq<char>, Seq<char>>>,
    farewell: bool,
) -> RunEnd {
    let n = answered(answers);
    if n >= sent {
        if farewell {
            RunEnd::Left
        } else {
            RunEnd::Asking
        }
    } else if n < answers.len() {
        RunEnd::Failed(answers[n]->Err_0)
    } else {
        RunEnd::Awaiting
    }
}

proof fn lemma_answered(answers: Seq<Result<Seq<char>, Seq<char>>>)
    ensures
        0 <= answered(answers) <= answers.len(),
        answered(answers) < answers.len() ==> answers[answered(answers)] is Err,
    decreases answers.len(),
{
    if answers.len() > 0 && answers[0] is Ok {
        lemma_answered(answers.skip(1));
    }
}

proof fn lemma_farewell_front(lines: Seq<Seq<char>>)
    requires
        lines.len() > 0,
    ensures
        has_farewell(lines) == (line_step(lines[0]) is Leave || has_farewell(lines.skip(1))),
{
    let rest = lines.skip(1);
    if has_farewell(rest) {
        let i = choose|i: int| 0 <= i < rest.len() && line_step(#[trigger] rest[i]) is Leave;
        assert(lines[i + 1] == rest[i]);
    }
    if has_farewell(lines) && !(line_step(lines[0]) is Leave) {
        let i = choose|i: int| 0 <= i < lines.len() && line_step(#[trigger] lines[i]) is Leave;
        assert(rest[i - 1] == lines[i]);
    }
}

proof fn lemma_prompt_run(
    turns: Seq<TurnView>,
    lines: Seq<Seq<char>>,
    answers: Seq<Result<Seq<char>, Seq<char>>>,
)
    ensures
        ({
            let run = prompt_run(turns, lines, answers);
            let sent = sent_lines(lines);
            &&& run.requests.len() == at_most(sent.len() as int, answered(answers) + 1)
            &&& forall|k: int|
                0 <= k < run.requests.len() ==> #[trigger] run.requests[k] == turns + dialogue(
                    sent,
                    answers,
                    k,
                )
            &&& run.end == run_end(sent.len() as int, answers, has_farewell(lines))
        }),
    decreases lines.len(),
{
    let run = prompt_run(turns, lines, answers);
    let sent = sent_lines(lines);
    lemma_answered(answers);
    if lines.len() == 0 {
        assert(!has_farewell(lines));
    } else {
        let later = lines.skip(1);
        lemma_farewell_front(lines);
        match line_step(lines[0]) {
            LineStep::AskAgain => {
                lemma_prompt_run(turns, later, answers);
            },
            LineStep::Leave => {},
            LineStep::Send => {
                let asked = turns_after_line(turns, lines[0]);
                assert(asked =~= turns + dialogue(sent, answers, 0));
                if answers.len() > 0 && answers[0] is Ok {
                    let more = answers.skip(1);
                    let next = turns_after_answer(asked, answers[0]->Ok_0);
                    let rest = prompt_run(next, later, more);
                    let others = sent_lines(later);
                    lemma_prompt_run(next, later, more);
                    lemma_answered(more);
                    assert(answered(answers) == 1 + answered(more));
                    assert forall|k: int| 0 <= k < run.requests.len() implies #[trigger] run
                        .requests[k] == turns + dialogue(sent, answers, k) by {
                        if k > 0 {
                            assert(run.requests[k] == rest.requests[k - 1]);
                            let d = dialogue(sent, answers, k);
                            let e = dialogue(others, more, k - 1);
                            assert forall|i: int| 2 <= i < d.len() implies #[trigger] d[i] == e[i
                                - 2] by {
                                assert(i / 2 == (i - 2) / 2 + 1);
                                assert(sent[i / 2] == others[(i - 2) / 2]);
                                if i % 2 == 1 {
                                    assert(i / 2 < answers.len());
                                    assert(answers[i / 2] == more[(i - 2) / 2]);
                                }
                            }
                            assert(next + e =~= turns + d);
                        }
                    }
                }
            },
        }
    }
}

/// A whole chat at the prompt: the requests are as many as there are lines to send, unless one
/// fails or is not answered yet. The request after `k` others holds exactly the first `k` lines
/// with their answers between them, in order, and the next line. The chat ends when the user says
/// so, or with the first request that fails.
pub proof fn law_prompt_requests(
    lines: Seq<Seq<char>>,
    answers: Seq<Result<Seq<char>, Seq<char>>>,
)
    ensures
        ({
            let run = prompt_run(seq![], lines, answers);
            let sent = sent_lines(lines);
            &&& run.requests.len() == at_most(sent.len() as int, answered(answers) + 1)
            &&& forall|k: int|
                0 <= k < run.requests.len() ==> #[trigger] run.requests[k] == dialogue(
                    sent,
                    answers,
                    k,
                )
            &&& run.end == run_end(sent.len() as int, answers, has_farewell(lines))
        }),
{
    lemma_prompt_run(seq![], lines, answers);
    let run = prompt_run(seq![], lines, answers);
    let sent = sent_lines(lines);
    assert forall|k: int| 0 <= k < run.requests.len() implies #[trigger] run.requests[k]
        == dialogue(sent, answers, k) by {
        assert(seq![] + dialogue(sent, answers, k) =~= dialogue(sent, answers, k));
    }
}

/// What is sent is never blank, and never one of the commands that end the chat.
pub proof fn law_blank_lines_and_commands_are_not_sent(lines: Seq<Seq<char>>)
    ensures
        forall|i: int|
            0 <= i < sent_lines(lines).len() ==> {
                &&& (#[trigger] sent_lines(lines)[i]).len() > 0
                &&& sent_lines(lines)[i] != "/exit"@
                &&& sent_lines(lines)[i] != "/quit"@
            },
    decreases lines.len(),
{
    if lines.len() > 0 {
        let later = lines.skip(1);
        law_blank_lines_and_commands_are_not_sent(later);
        assert forall|i: int| 0 <= i < sent_lines(lines).len() implies {
            &&& (#[trigger] sent_lines(lines)[i]).len() > 0
            &&& sent_lines(lines)[i] != "/exit"@
            &&& sent_lines(lines)[i] != "/quit"@
        } by {
            if line_step(lines[0]) is Send {
                if i > 0 {
                    assert(sent_lines(lines)[i] == sent_lines(later)[i - 1]);
                }
            } else {
                assert(sent_lines(lines)[i] == sent_lines(later)[i]);
            }
        }
    }
}

/// Lines after one that ends the chat do not count.
pub proof fn law_nothing_is_sent_after_the_farewell(
    turns: Seq<TurnView>,
    before: Seq<Seq<char>>,
    farewell: Seq<char>,
    after: Seq<Seq<char>>,
    answers: Seq<Result<Seq<char>, Seq<char>>>,
)
    requires
        line_step(farewell) is Leave,
    ensures
        prompt_run(turns, before + seq![farewell] + after, answers) == prompt_run(
            turns,
            before + seq![farewell],
            answers,
        ),
    decreases before.len(),
{
    let all = before + seq![farewell] + after;
    let some = before + seq![farewell];
    if before.len() == 0 {
        assert(all[0] == farewell);
        assert(some[0] == farewell);
    } else {
        let rest = before.skip(1);
        assert(all[0] == before[0]);
        assert(some[0] == before[0]);
        assert(all.skip(1) =~= rest + seq![farewell] + after);
        assert(some.skip(1) =~= rest + seq![farewell]);
        let asked = turns_after_line(turns, before[0]);
        law_nothing_is_sent_after_the_farewell(asked, rest, farewell, after, answers);
        if answers.len() > 0 {
            law_nothing_is_sent_after_the_farewell(
                turns_after_answer(asked, answers[0]->Ok_0),
                rest,
                farewell,
                after,
                answers.skip(1),
            );
        }
    }
}

/// A line with a value, if there is one.
pub open spec fn line_if(label: Seq<char>, value: Option<Seq<char>>) -> Seq<Seq<char>> {
    match value {
        Some(text) => seq![label + text],
        None => seq![],
    }
}

fn push_line(lines: &mut Vec<String>, line: String)
    ensures
        texts(final(lines)@) == texts(old(lines)@).push(line@),
{
    proof {
        lemma_texts_push(lines@, line);
    }
    lines.push(line);
}

fn push_line_if(lines: &mut Vec<String>, label: &str, value: &Option<String>)
    ensures
        texts(final(lines)@) == texts(old(lines)@) + line_if(
            label@,
            match value {
                Some(text) => Some(text@),
                None => None,
            },
        ),
{
    let ghost before = texts(lines@);
    if let Some(text) = value {
        push_line(lines, label.to_string().concat(text.as_str()));
        assert(texts(lines@) =~= before + line_if(label@, Some(text@)));
    } else {
        assert(texts(lines@) =~= before + line_if(label@, None));
    }
}

/// What is printed after a login. `path` is where it is stored, as it is shown.
pub open spec fn login_report_lines(summary: SummaryView, path: Seq<char>) -> Seq<Seq<char>> {
    seq![seq![], "Login succeeded."@] + line_if("Account: "@, summary.email) + line_if(
        "Plan: "@,
        summary.plan_type,
    ) + seq!["Saved auth to "@ + path]
}

/// What to print after a login.
pub fn login_report(summary: &LoginSummary, path: &str) -> (r: Vec<String>)
    ensures
        texts(r@) == login_report_lines(summary@, path@),
{
    let mut lines: Vec<String> = Vec::new();
    assert(texts(lines@) =~= seq![]);
    push_line(&mut lines, String::new());
    push_line(&mut lines, "Login succeeded.".to_string());
    assert(texts(lines@) =~= seq![seq![], "Login succeeded."@]);
    push_line_if(&mut lines, "Account: ", &summary.email);
    push_line_if(&mut lines, "Plan: ", &summary.plan_type);
    push_line(&mut lines, "Saved auth to ".to_string().concat(path));
    assert(texts(lines@) =~= login_report_lines(summary@, path@));
    lines
}

/// What is printed before a chat at the prompt.
pub open spec fn chat_banner_lines(model: Seq<char>, profile: ProfileView) -> Seq<Seq<char>> {
    seq!["Model: "@ + model] + line_if("Signed in as: "@, profile.email) + line_if(
        "Plan: "@,
        profile.plan_type,
    ) + seq!["Type `/exit` to quit.\n"@]
}

/// What to print before a chat at the prompt.
pub fn chat_banner(model: &str, profile: &UserProfile) -> (r: Vec<String>)
    ensures
        texts(r@) == chat_banner_lines(model@, profile@),
{
    let mut lines: Vec<String> = Vec::new();
    assert(texts(lines@) =~= seq![]);
    push_line(&mut lines, "Model: ".to_string().concat(model));
    assert(texts(lines@) =~= seq!["Model: "@ + model@]);
    push_line_if(&mut lines, "Signed in as: ", &profile.email);
    push_line_if(&mut lines, "Plan: ", &profile.plan_type);
    push_line(&mut lines, "Type `/exit` to quit.\n".to_string());
    assert(texts(lines@) =~= chat_banner_lines(model@, profile@));
    lines
}

/// What is printed about a stored login. `path` is where it is stored, as it is shown.
pub open spec fn status_report_lines(
    auth: AuthFileView,
    profile: ProfileView,
    path: Seq<char>,
) -> Seq<Seq<char>> {
    seq![
        "Auth file: "@ + path,
        "Mode: "@ + or_unknown(auth.auth_mode),
        "API key present: "@ + if auth.openai_api_key is Some {
            "true"@
        } else {
            "false"@
        },
    ] + line_if("Account: "@, profile.email) + line_if("Plan: "@, profile.plan_type) + line_if(
        "Workspace: "@,
        profile.account_id,
    )
}

/// What to print about a stored login.
pub fn status_report(auth: &AuthFile, profile: &UserProfile, path: &str) -> (r: Vec<String>)
    ensures
        texts(r@) == status_report_lines(auth@, profile@, path@),
{
    let mut lines: Vec<String> = Vec::new();
    assert(texts(lines@) =~= seq![]);
    push_line(&mut lines, "Auth file: ".to_string().concat(path));
    push_line(&mut lines, "Mode: ".to_string().concat(text_or_unknown(&auth.auth_mode)));
    let present = if auth.openai_api_key.is_some() {
        "true"
    } else {
        "false"
    };
    push_line(&mut lines, "API key present: ".to_string().concat(present));
    assert(texts(lines@) =~= seq![
        "Auth file: "@ + path@,
        "Mode: "@ + or_unknown(auth@.auth_mode),
        "API key present: "@ + present@,
    ]);
    push_line_if(&mut lines, "Account: ", &profile.email);
    push_line_if(&mut lines, "Plan: ", &profile.plan_type);
    push_line_if(&mut lines, "Workspace: ", &profile.account_id);
    assert(texts(lines@) =~= status_report_lines(auth@, profile@, path@));
    lines
}

/// What to print after a logout that has or has not found a login.
pub fn logout_report(removed: bool) -> (r: &'static str)
    ensures
        r@ == if removed {
            "Removed stored auth."@
        } else {
            "No stored auth was present."@
        },
{
    if removed {
        "Removed stored auth."
    } else {
        "No stored auth was present."
    }
}

/// A line is judged by its text, without the white space around it: a blank one asks again, the
/// two commands leave, and any other text is sent as it is.
pub proof fn law_line_is_judged_by_its_text(
    turns: Seq<TurnView>,
    lead: Seq<char>,
    text: Seq<char>,
    trail: Seq<char>,
)
    requires
        blank(lead),
        blank(trail),
        tight(text),
    ensures
        line_step(lead + text + trail) is AskAgain <==> text.len() == 0,
        line_step(lead + text + trail) is Leave <==> text == "/exit"@ || text == "/quit"@,
        line_step(lead + text + trail) is Send ==> turns_after_line(turns, lead + text + trail)
            == turns.push(TurnView { role: "user"@, content: text }),
        !(line_step(lead + text + trail) is Send) ==> turns_after_line(turns, lead + text + trail)
            == turns,
{
    reveal_strlit("/exit");
    reveal_strlit("/quit");
    lemma_trimmed_is(lead, text, trail);
}

/// An answer becomes the next turn as it came, behind all others.
pub proof fn law_answer_is_the_next_turn(turns: Seq<TurnView>, answer: Seq<char>)
    ensures
        turns_after_answer(turns, answer).len() == turns.len() + 1,
        turns_after_answer(turns, answer).last().role == "assistant"@,
        turns_after_answer(turns, answer).last().content == answer,
        turns_after_answer(turns, answer).drop_last() == turns,
{
    assert(turns_after_answer(turns, answer).drop_last() =~= turns);
}

/// Lines that are neither blank nor a command, without white space around them, are all sent, as
/// they are and in their order.
pub proof fn law_plain_lines_are_all_sent(lines: Seq<Seq<char>>)
    requires
        forall|i: int|
            0 <= i < lines.len() ==> {
                &&& tight(#[trigger] lines[i])
                &&& lines[i].len() > 0
                &&& lines[i] != "/exit"@
                &&& lines[i] != "/quit"@
            },
    ensures
        sent_lines(lines) == lines,
        !has_farewell(lines),
    decreases lines.len(),
{
    let e = Seq::<char>::empty();
    assert forall|i: int| 0 <= i < lines.len() implies trimmed(#[trigger] lines[i])
        == lines[i] by {
        lemma_trimmed_is(e, lines[i], e);
        assert(e + lines[i] + e =~= lines[i]);
    }
    if lines.len() > 0 {
        let rest = lines.skip(1);
        assert forall|i: int| 0 <= i < rest.len() implies {
            &&& tight(#[trigger] rest[i])
            &&& rest[i].len() > 0
            &&& rest[i] != "/exit"@
            &&& rest[i] != "/quit"@
        } by {
            assert(rest[i] == lines[i + 1]);
        }
        law_plain_lines_are_all_sent(rest);
        assert(trimmed(lines[0]) == lines[0]);
        assert(seq![lines[0]] + rest =~= lines);
    }
}

/// The reports tell every value that is known, each on a line of its own, and where the tokens
/// are stored.
pub proof fn law_reports_tell_what_is_known(
    summary: SummaryView,
    auth: AuthFileView,
    profile: ProfileView,
    model: Seq<char>,
    path: Seq<char>,
)
    ensures
        ({
            let report = login_report_lines(summary, path);
            let email = if summary.email is Some {
                1int
            } else {
                0
            };
            let plan = if summary.plan_type is Some {
                1int
            } else {
                0
            };
            &&& report.len() == 3 + email + plan
            &&& report[0].len() == 0
            &&& report[1] == "Login succeeded."@
            &&& summary.email matches Some(text) ==> report[2] == "Account: "@ + text
            &&& summary.plan_type matches Some(text) ==> report[2 + email] == "Plan: "@ + text
            &&& report.last() == "Saved auth to "@ + path
        }),
        ({
            let banner = chat_banner_lines(model, profile);
            let email = if profile.email is Some {
                1int
            } else {
                0
            };
            let plan = if profile.plan_type is Some {
                1int
            } else {
                0
            };
            &&& banner.len() == 2 + email + plan
            &&& banner[0] == "Model: "@ + model
            &&& profile.email matches Some(text) ==> banner[1] == "Signed in as: "@ + text
            &&& profile.plan_type matches Some(text) ==> banner[1 + email] == "Plan: "@ + text
            &&& banner.last() == "Type `/exit` to quit.\n"@
        }),
        ({
            let report = status_report_lines(auth, profile, path);
            let email = if profile.email is Some {
                1int
            } else {
                0
            };
            let plan = if profile.plan_type is Some {
                1int
            } else {
                0
            };
            let account = if profile.account_id is Some {
                1int
            } else {
                0
            };
            &&& report.len() == 3 + email + plan + account
            &&& report[0] == "Auth file: "@ + path
            &&& auth.auth_mode matches Some(mode) ==> report[1] == "Mode: "@ + mode
            &&& auth.auth_mode is None ==> report[1] == "Mode: "@ + "unknown"@
            &&& auth.openai_api_key is Some ==> report[2] == "API key present: "@ + "true"@
            &&& auth.openai_api_key is None ==> report[2] == "API key present: "@ + "false"@
            &&& profile.email matches Some(text) ==> report[3] == "Account: "@ + text
            &&& profile.plan_type matches Some(text) ==> report[3 + email] == "Plan: "@ + text
            &&& profile.account_id matches Some(text) ==> report[3 + email + plan]
                == "Workspace: "@ + text
        }),
{
}

} // verus!
