use agent_may::auth::UserProfile;
use agent_may::config::AppConfig;
use agent_may::layout::input_cursor_position;
use agent_may::openai::ChatTurn;
use agent_may::paths::Location;
use agent_may::screen::{
    chat_footer, chat_header, footer_with_date, input_box, label_message, message_color,
    message_highlight, message_item, message_items, picker_footer, picker_header, picker_highlight,
    picker_rows, row_with_dates, MessageColor,
};
use agent_may::storage::{ChatStore, ChatSummary, StoredChat};
use agent_may::time::Timestamp;
use agent_may::ui::{
    apply_save, apply_worker_event, apply_worker_event_at, handle_key, handle_key_at, handle_paste,
    handle_picker_key, turns_to_messages, App, ChatState, Effect, Key, KeyPress, PickerState,
    Screen, UiMessage, WorkerEvent,
};

fn at(secs: i64) -> Timestamp {
    Timestamp::new(secs, 0).unwrap()
}

fn store() -> ChatStore {
    ChatStore::new(&AppConfig {
        config_path: Location::at("/c/config.toml"),
        chats_dir: Location::at("/chats"),
    })
}

fn profile() -> UserProfile {
    UserProfile { email: Some("me@x".to_string()), plan_type: None, account_id: None }
}

fn summary(id: &str) -> ChatSummary {
    ChatSummary {
        id: id.to_string(),
        title: format!("title {}", id),
        created_at: at(0),
        updated_at: at(60),
        model: "gpt-5".to_string(),
    }
}

fn app(ids: &[&str]) -> App {
    let chats = ids.iter().map(|id| summary(id)).collect();
    App::new("gpt-5".to_string(), profile(), store(), chats)
}

fn stored(turns: &[(&str, &str)]) -> StoredChat {
    StoredChat {
        id: "id".to_string(),
        title: "New chat".to_string(),
        created_at: at(0),
        updated_at: at(0),
        model: "gpt-5".to_string(),
        turns: turns
            .iter()
            .map(|(r, c)| ChatTurn { role: r.to_string(), content: c.to_string() })
            .collect(),
    }
}

fn in_chat(turns: &[(&str, &str)]) -> App {
    let mut app = app(&[]);
    app.show_chat(stored(turns));
    app
}

fn key(key: Key) -> KeyPress {
    KeyPress { key, control: false }
}

fn control(key: Key) -> KeyPress {
    KeyPress { key, control: true }
}

fn press(app: &mut App, pressed: KeyPress) -> Effect {
    assert!(app.is_in_order());
    let effect = handle_key_at(app, pressed, Some((20, 10)), at(100), 7);
    assert!(app.is_in_order());
    effect
}

fn typed(app: &mut App, text: &str) {
    for c in text.chars() {
        press(app, key(Key::Char(c)));
    }
}

fn chat_of(app: &App) -> &ChatState {
    match &app.screen {
        Screen::Chat(chat) => chat,
        Screen::Picker(_) => panic!("no chat"),
    }
}

fn picker_of(app: &App) -> &PickerState {
    match &app.screen {
        Screen::Picker(picker) => picker,
        Screen::Chat(_) => panic!("no list"),
    }
}

#[test]
fn program_starts_with_the_list() {
    let app = app(&["a", "b"]);
    let picker = picker_of(&app);
    assert_eq!(picker.status, "Select a chat or press n to create a new one.");
    assert_eq!(picker.selected, 0);
    assert_eq!(picker.selected_chat().unwrap().id, "a");
}

#[test]
fn control_c_quits_everywhere() {
    assert!(matches!(press(&mut app(&[]), control(Key::Char('c'))), Effect::Quit));
    assert!(matches!(press(&mut in_chat(&[]), control(Key::Char('c'))), Effect::Quit));
    let mut chat = in_chat(&[]);
    assert!(matches!(press(&mut chat, key(Key::Char('c'))), Effect::Nothing));
    assert_eq!(chat_of(&chat).input, "c");
}

#[test]
fn list_moves_between_its_ends() {
    let mut app = app(&["a", "b"]);
    press(&mut app, key(Key::Up));
    assert_eq!(picker_of(&app).selected, 0);
    press(&mut app, key(Key::Down));
    press(&mut app, key(Key::Down));
    assert_eq!(picker_of(&app).selected, 1);
    press(&mut app, key(Key::Up));
    assert_eq!(picker_of(&app).selected, 0);
}

#[test]
fn list_keys_ask_for_work() {
    let mut app = app(&["a", "b"]);
    assert!(matches!(press(&mut app, key(Key::Char('q'))), Effect::Quit));
    assert!(matches!(press(&mut app, key(Key::Char('r'))), Effect::ReloadChats));
    assert!(matches!(press(&mut app, key(Key::Char('x'))), Effect::Nothing));
    assert!(matches!(press(&mut app, key(Key::Esc)), Effect::Nothing));
    press(&mut app, key(Key::Down));
    match press(&mut app, key(Key::Enter)) {
        Effect::LoadChat(files) => assert_eq!(files.directory.tail, vec!["b".to_string()]),
        other => panic!("{:?}", other),
    }
}

#[test]
fn empty_list_has_nothing_to_open() {
    let mut app = app(&[]);
    assert!(matches!(press(&mut app, key(Key::Enter)), Effect::Nothing));
    assert_eq!(picker_of(&app).status, "No chats yet. Press n to create one.");
    press(&mut app, key(Key::Down));
    assert_eq!(picker_of(&app).selected, 0);
}

#[test]
fn reloaded_list_keeps_the_selection_in_range() {
    let mut app = app(&["a", "b", "c"]);
    press(&mut app, key(Key::Down));
    press(&mut app, key(Key::Down));
    app.show_reloaded(vec![summary("a"), summary("b")]);
    assert_eq!(picker_of(&app).selected, 1);
    assert_eq!(picker_of(&app).status, "Loaded 2 chats.");
    app.show_reloaded(Vec::new());
    assert_eq!(picker_of(&app).selected, 0);
    assert_eq!(picker_of(&app).status, "Loaded 0 chats.");
}

#[test]
fn new_chat_is_saved_and_then_opened() {
    let mut app = app(&["a"]);
    let made = match press(&mut app, key(Key::Char('n'))) {
        Effect::CreateChat { chat, save } => {
            assert_eq!(save.conversation, "# New chat\n\n");
            assert_eq!(save.files.directory.tail, vec![chat.id.clone()]);
            chat
        }
        other => panic!("{:?}", other),
    };
    assert_eq!(picker_of(&app).chats.len(), 1);
    assert_eq!(picker_of(&app).status, "Select a chat or press n to create a new one.");
    app.show_chat(made);
    let chat = chat_of(&app);
    assert_eq!(chat.chat.id, "1970-01-01_00-01-40_00000007");
    assert_eq!(chat.messages.len(), 1);
    assert_eq!(chat.messages[0].role, "system");
    assert_eq!(chat.messages[0].content, "New chat. Type a prompt and press Enter.");
    assert_eq!(chat.status, "Idle");
}

#[test]
fn picker_keys_do_nothing_in_a_chat() {
    let mut app = in_chat(&[]);
    let effect = handle_picker_key(&mut app, key(Key::Char('q')), at(0), 0);
    assert!(matches!(effect, Effect::Nothing));
    assert_eq!(chat_of(&app).input, "");
}

#[test]
fn opened_chat_shows_its_turns() {
    let app = in_chat(&[("user", "a"), ("assistant", "b")]);
    let chat = chat_of(&app);
    assert_eq!(chat.messages.len(), 2);
    assert_eq!(chat.selected, 1);
    assert_eq!(turns_to_messages(&chat.chat.turns)[1].content, "b");
}

#[test]
fn messages_are_walked_between_their_ends() {
    let mut app = in_chat(&[("user", "a"), ("assistant", "b")]);
    press(&mut app, key(Key::Down));
    assert_eq!(chat_of(&app).selected, 1);
    press(&mut app, key(Key::Up));
    press(&mut app, key(Key::Up));
    assert_eq!(chat_of(&app).selected, 0);
}

#[test]
fn typing_and_backspace() {
    let mut app = in_chat(&[]);
    typed(&mut app, "héy");
    press(&mut app, key(Key::Backspace));
    assert_eq!(chat_of(&app).input, "hé");
    press(&mut app, control(Key::Char('x')));
    press(&mut app, key(Key::Other));
    assert_eq!(chat_of(&app).input, "hé");
}

#[test]
fn pasted_text_is_undone_by_one_backspace() {
    let mut app = in_chat(&[]);
    typed(&mut app, "é ");
    handle_paste(&mut app, "some long text", Some((20, 10)));
    assert!(app.is_in_order());
    assert_eq!(chat_of(&app).input, "é some long text");
    assert_eq!(chat_of(&app).pasted_segments.len(), 1);
    assert_eq!(chat_of(&app).pasted_segments[0].start, 3);
    assert_eq!(chat_of(&app).pasted_segments[0].end, 17);
    assert_eq!(
        chat_of(&app).pasted_segments[0].preview,
        "[some <pasted text 14 chars> text]"
    );
    press(&mut app, key(Key::Backspace));
    assert_eq!(chat_of(&app).input, "é ");
    assert!(chat_of(&app).pasted_segments.is_empty());
}

#[test]
fn empty_paste_and_paste_into_the_list_do_nothing() {
    let mut chat = in_chat(&[]);
    handle_paste(&mut chat, "", None);
    assert!(chat_of(&chat).pasted_segments.is_empty());
    let mut list = app(&[]);
    handle_paste(&mut list, "x", None);
    assert_eq!(picker_of(&list).status, "Select a chat or press n to create a new one.");
}

#[test]
fn input_scrolls_with_control() {
    let mut app = in_chat(&[]);
    typed(&mut app, &"abcdefghij ".repeat(10));
    assert_eq!(chat_of(&app).input_scroll, 2);
    press(&mut app, control(Key::Down));
    assert_eq!(chat_of(&app).input_scroll, 2);
    press(&mut app, control(Key::Up));
    press(&mut app, control(Key::Up));
    press(&mut app, control(Key::Up));
    assert_eq!(chat_of(&app).input_scroll, 0);
    press(&mut app, control(Key::Down));
    assert_eq!(chat_of(&app).input_scroll, 1);
}

fn prompted() -> App {
    let mut app = in_chat(&[("user", "a"), ("assistant", "b")]);
    press(&mut app, key(Key::Up));
    typed(&mut app, " next ");
    match press(&mut app, key(Key::Enter)) {
        Effect::Save(save) => {
            assert_eq!(save.metadata.title, "a");
            assert_eq!(save.metadata.updated_at, at(100));
            assert!(save.conversation.contains(" next\n<!-- /message -->"));
        }
        other => panic!("{:?}", other),
    }
    let chat = chat_of(&app);
    assert!(chat.pending);
    assert_eq!(chat.status, "Waiting for gpt-5...");
    assert_eq!(chat.input, "");
    assert_eq!(chat.chat.turns.len(), 3);
    assert_eq!(chat.messages.len(), 2);
    assert_eq!(chat.selected, 0);
    app
}

#[test]
fn prompt_is_saved_and_then_shown_and_sent() {
    let mut app = prompted();
    match apply_save(&mut app, true) {
        Effect::Send(turns) => {
            assert_eq!(turns.len(), 3);
            assert_eq!(turns[2].role, "user");
            assert_eq!(turns[2].content, " next ");
        }
        other => panic!("{:?}", other),
    }
    assert!(app.is_in_order());
    let chat = chat_of(&app);
    assert_eq!(chat.messages.len(), 3);
    assert_eq!(chat.messages[2].role, "user");
    assert_eq!(chat.messages[2].content, " next ");
    assert_eq!(chat.selected, 2);
}

#[test]
fn prompt_that_is_not_saved_is_neither_shown_nor_sent() {
    let mut app = prompted();
    assert!(matches!(apply_save(&mut app, false), Effect::Nothing));
    let chat = chat_of(&app);
    assert_eq!(chat.messages.len(), 2);
    assert_eq!(chat.selected, 0);
    assert_eq!(chat.chat.turns.len(), 3);
    assert!(chat.pending);
}

#[test]
fn save_without_a_turn_or_a_chat_shows_nothing() {
    let mut chat = in_chat(&[]);
    assert!(matches!(apply_save(&mut chat, true), Effect::Nothing));
    assert_eq!(chat_of(&chat).messages.len(), 1);
    let mut list = app(&["a"]);
    assert!(matches!(apply_save(&mut list, true), Effect::Nothing));
    assert_eq!(picker_of(&list).chats.len(), 1);
}

#[test]
fn blank_prompt_is_not_sent() {
    let mut app = in_chat(&[]);
    typed(&mut app, "  ");
    assert!(matches!(press(&mut app, key(Key::Enter)), Effect::Nothing));
    assert_eq!(chat_of(&app).input, "  ");
}

#[test]
fn pending_chat_is_not_left_and_takes_no_second_prompt() {
    let mut app = in_chat(&[]);
    typed(&mut app, "a");
    press(&mut app, key(Key::Enter));
    typed(&mut app, "b");
    assert!(matches!(press(&mut app, key(Key::Enter)), Effect::Nothing));
    assert!(matches!(press(&mut app, key(Key::Esc)), Effect::Nothing));
    assert_eq!(
        chat_of(&app).status,
        "Wait for the current response before leaving this chat."
    );
    handle_paste(&mut app, "c", None);
    assert_eq!(chat_of(&app).input, "b");
}

#[test]
fn chat_is_left_with_escape() {
    let mut app = in_chat(&[]);
    assert!(matches!(press(&mut app, key(Key::Esc)), Effect::LeaveChat));
    app.show_picker(vec![summary("a")]);
    assert_eq!(picker_of(&app).chats.len(), 1);
}

#[test]
fn answer_becomes_a_turn() {
    let mut app = in_chat(&[("user", "a")]);
    typed(&mut app, "x");
    match apply_worker_event_at(&mut app, WorkerEvent::Response("b".to_string()), at(200)) {
        Effect::Save(save) => assert_eq!(save.metadata.updated_at, at(200)),
        other => panic!("{:?}", other),
    }
    assert_eq!(chat_of(&app).messages.len(), 1);
    assert_eq!(chat_of(&app).selected, 0);
    assert!(matches!(apply_save(&mut app, false), Effect::Nothing));
    assert_eq!(chat_of(&app).messages.len(), 1);
    assert!(matches!(apply_save(&mut app, true), Effect::Nothing));
    let chat = chat_of(&app);
    assert!(!chat.pending);
    assert_eq!(chat.status, "Idle");
    assert_eq!(chat.chat.turns.len(), 2);
    assert_eq!(chat.chat.turns[1].role, "assistant");
    assert_eq!(chat.messages[1].role, "assistant");
    assert_eq!(chat.messages[1].content, "b");
    assert_eq!(chat.selected, 1);
    assert_eq!(chat.input, "x");
}

#[test]
fn failure_is_shown_and_not_kept() {
    let mut app = in_chat(&[("user", "a")]);
    let effect = apply_worker_event(&mut app, WorkerEvent::Error("boom".to_string()));
    assert!(matches!(effect, Effect::Nothing));
    let chat = chat_of(&app);
    assert_eq!(chat.status, "Request failed");
    assert_eq!(chat.chat.turns.len(), 1);
    assert_eq!(chat.messages[1].role, "error");
    assert_eq!(chat.messages[1].content, "boom");
}

#[test]
fn answer_without_a_chat_does_not_count() {
    let mut list = app(&["a"]);
    let effect = apply_worker_event(&mut list, WorkerEvent::Response("b".to_string()));
    assert!(matches!(effect, Effect::Nothing));
    assert_eq!(picker_of(&list).chats.len(), 1);
}

#[test]
fn key_at_the_present_moment() {
    let mut app = in_chat(&[]);
    handle_key(&mut app, key(Key::Char('a')), None);
    handle_key(&mut app, key(Key::Enter), None);
    assert!(chat_of(&app).chat.updated_at.secs() > 1_600_000_000);
}

#[test]
fn list_screen_texts() {
    let app = app(&["a"]);
    let picker = picker_of(&app);
    assert_eq!(
        picker_header(&app, picker, "/chats"),
        "agent-may | model=gpt-5 | chats=1 | root=/chats"
    );
    let rows = picker_rows(picker);
    assert_eq!(rows.len(), 1);
    assert_eq!(rows[0].title, "title a");
    assert_eq!(
        rows[0].details,
        Some("updated 1970-01-01 00:01 | created 1970-01-01 00:00 | model gpt-5".to_string())
    );
    assert_eq!(picker_highlight(picker), Some(0));
    assert_eq!(
        picker_footer(picker),
        "Select a chat or press n to create a new one. | \
         Enter open | n new chat | r refresh | q quit"
    );
}

#[test]
fn texts_with_given_dates() {
    let row = row_with_dates("T", "now", "then", "m");
    assert_eq!(row.title, "T");
    assert_eq!(row.details, Some("updated now | created then | model m".to_string()));
    assert!(footer_with_date("Busy", "now").starts_with("Busy | last updated now | Enter send"));
}

#[test]
fn empty_list_screen() {
    let app = app(&[]);
    let rows = picker_rows(picker_of(&app));
    assert_eq!(rows.len(), 1);
    assert_eq!(rows[0].title, "No chats yet. Press n to create one.");
    assert_eq!(rows[0].details, None);
    assert_eq!(picker_highlight(picker_of(&app)), None);
}

#[test]
fn chat_screen_texts() {
    let app = in_chat(&[("user", "a")]);
    let chat = chat_of(&app);
    assert_eq!(chat_header(&app, chat), "New chat | model=gpt-5 | account=me@x | plan=unknown");
    assert_eq!(
        chat_footer(chat),
        "Idle | last updated 1970-01-01 00:00 | Enter send | Esc back to chats | \
         Up/Down messages | Ctrl+Up/Down input | Ctrl+C quit"
    );
    assert_eq!(message_highlight(chat), Some(0));
}

#[test]
fn messages_have_colours_and_labels_in_upper_case() {
    assert_eq!(message_color("assistant"), MessageColor::Green);
    assert_eq!(message_color("error"), MessageColor::Red);
    assert_eq!(message_color("system"), MessageColor::Yellow);
    assert_eq!(message_color("user"), MessageColor::Cyan);
    let message = UiMessage { role: "assistant".to_string(), content: "hi".to_string() };
    let item = message_item(&message, 40);
    assert_eq!(item.color, MessageColor::Green);
    assert_eq!(item.rows[0].label, "ASSISTANT: ");
    assert_eq!(item.rows[0].text, "hi");
    assert_eq!(label_message("Me", &message, 40).rows[0].label, "Me: ");
    let app = in_chat(&[("user", "a"), ("assistant", "b")]);
    let items = message_items(chat_of(&app), 40);
    assert_eq!(items.len(), 2);
    assert_eq!(items[0].rows[0].label, "USER: ");
    assert_eq!(items[1].color, MessageColor::Green);
}

#[test]
fn input_box_shows_the_end() {
    let mut app = in_chat(&[]);
    typed(&mut app, &"abcdefghij ".repeat(10));
    let chat = chat_of(&app);
    let shown = input_box(chat, 20);
    assert_eq!(shown.lines.len(), 10);
    assert_eq!(shown.height, 10);
    assert_eq!(shown.scroll, 2);
    assert_eq!(input_cursor_position(shown.height, &shown.lines, shown.scroll), (10, 7));
    assert_eq!(shown.preview, chat.input);
    let wide = input_box(chat, 200);
    assert_eq!((wide.height, wide.scroll), (3, 0));
}
