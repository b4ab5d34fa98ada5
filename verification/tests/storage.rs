use agent_may::config::AppConfig;
use agent_may::conversation::{
    parse_conversation_markdown, parse_role_marker, render_conversation_markdown,
};
use agent_may::openai::ChatTurn;
use agent_may::paths::{Anchor, Location};
use agent_may::storage::{
    chat_id_from, chat_id_with, derive_title, generate_chat_id, refresh_chat_metadata,
    refresh_chat_metadata_at, ChatMetadata, ChatStore, StoredChat,
};
use agent_may::time::Timestamp;

fn turn(role: &str, content: &str) -> ChatTurn {
    ChatTurn { role: role.to_string(), content: content.to_string() }
}

fn pairs(turns: &Vec<ChatTurn>) -> Vec<(String, String)> {
    turns.iter().map(|t| (t.role.clone(), t.content.clone())).collect()
}

fn pair(role: &str, content: &str) -> (String, String) {
    (role.to_string(), content.to_string())
}

fn at(secs: i64) -> Timestamp {
    Timestamp::new(secs, 0).unwrap()
}

fn chat(id: &str, title: &str, updated: Timestamp, turns: Vec<ChatTurn>) -> StoredChat {
    StoredChat {
        id: id.to_string(),
        title: title.to_string(),
        created_at: at(0),
        updated_at: updated,
        model: "gpt-5".to_string(),
        turns,
    }
}

fn store() -> ChatStore {
    ChatStore::new(&AppConfig {
        config_path: Location::at("/c/config.toml"),
        chats_dir: Location::at("/chats"),
    })
}

fn path(place: &Location) -> String {
    let mut r = match &place.anchor {
        Anchor::Home => "~".to_string(),
        Anchor::Fixed(path) => path.clone(),
    };
    for name in &place.tail {
        r.push('/');
        r.push_str(name);
    }
    r
}

#[test]
fn store_is_where_the_settings_say() {
    assert_eq!(path(store().root()), "/chats");
}

#[test]
fn list_is_newest_first_and_keeps_the_order_of_equals() {
    let loaded = vec![
        Some(chat("a", "", at(5), Vec::new())),
        None,
        Some(chat("b", "", at(9), Vec::new())),
        Some(chat("c", "", at(5), Vec::new())),
        Some(chat("d", "", Timestamp::new(5, 1).unwrap(), Vec::new())),
        Some(chat("e", "", at(-3), Vec::new())),
    ];
    let ids: Vec<String> = store().list_chats(loaded).iter().map(|c| c.id.clone()).collect();
    assert_eq!(ids.concat(), "bdace");
}

#[test]
fn summary_keeps_the_details() {
    let list = store().list_chats(vec![Some(chat("a", "T", at(5), vec![turn("user", "x")]))]);
    assert_eq!(list.len(), 1);
    assert_eq!(list[0].title, "T");
    assert_eq!(list[0].model, "gpt-5");
    assert_eq!(list[0].created_at, at(0));
    assert_eq!(list[0].updated_at, at(5));
}

#[test]
fn names_of_chats_have_the_moment_and_the_number() {
    assert_eq!(chat_id_with(at(0), 0xab), "1970-01-01_00-00-00_000000ab");
    assert_eq!(chat_id_with(at(1_700_000_000), u32::MAX), "2023-11-14_22-13-20_ffffffff");
    assert_eq!(chat_id_from("then", 16), "then_00000010");
    assert_ne!(chat_id_with(at(0), 1), chat_id_with(at(0), 2));
    assert!(generate_chat_id(at(0)).starts_with("1970-01-01_00-00-00_"));
    assert_eq!(generate_chat_id(at(0)).len(), 28);
}

#[test]
fn random_numbers_differ() {
    let ids: Vec<String> = (0..8).map(|_| generate_chat_id(at(0))).collect();
    assert!(ids.iter().any(|id| *id != ids[0]));
}

#[test]
fn new_chat_is_empty_and_saved() {
    let (chat, save) = store().create_chat_with("m", at(7), 1);
    assert_eq!(chat.id, "1970-01-01_00-00-07_00000001");
    assert_eq!(chat.title, "New chat");
    assert_eq!((chat.created_at, chat.updated_at), (at(7), at(7)));
    assert_eq!(chat.model, "m");
    assert!(chat.turns.is_empty());
    assert_eq!(path(&save.files.directory), "/chats/1970-01-01_00-00-07_00000001");
    assert_eq!(path(&save.files.metadata), "/chats/1970-01-01_00-00-07_00000001/chat.toml");
    assert_eq!(
        path(&save.files.conversation),
        "/chats/1970-01-01_00-00-07_00000001/conversation.md"
    );
    assert_eq!(save.metadata.title, "New chat");
    assert_eq!(save.conversation, "# New chat\n\n");
    let (now, _) = store().create_chat("m");
    assert!(now.created_at.secs() > 1_600_000_000);
    assert_eq!(now.created_at, now.updated_at);
}

#[test]
fn chat_is_loaded_from_its_directory() {
    assert_eq!(path(&store().load_chat("x").metadata), "/chats/x/chat.toml");
}

#[test]
fn conversation_text_has_marks() {
    let turns = vec![turn("user", "hi  \n\n"), turn("assistant", " hello"), turn("tool", "")];
    assert_eq!(
        render_conversation_markdown("T", &turns),
        "# T\n\n\
         <!-- role: user -->\nhi\n<!-- /message -->\n\n\
         <!-- role: assistant -->\n hello\n<!-- /message -->\n\n\
         <!-- role: user -->\n\n<!-- /message -->\n\n"
    );
}

#[test]
fn conversation_is_read_back() {
    let turns = vec![
        turn("user", "one\n\n  two"),
        turn("assistant", "  spaced  "),
        turn("system", "a\r\nb"),
        turn("user", " \n"),
    ];
    let text = render_conversation_markdown("Title", &turns);
    assert_eq!(
        pairs(&parse_conversation_markdown(&text)),
        vec![pair("user", "one\n\n  two"), pair("assistant", "spaced"), pair("user", "a\nb")]
    );
}

#[test]
fn what_was_read_is_read_back_unchanged() {
    let raw = "junk\n <!-- role: user --> \r\n\n  x\r\n\ty  \n<!-- /message -->\nmore\n\
               <!-- role: assistant -->\ngone\n<!-- role: assistant -->\nkept\n<!-- /message -->\n\
               <!-- role: user -->\nopen";
    let turns = parse_conversation_markdown(raw);
    assert_eq!(pairs(&turns), vec![pair("user", "x\n\ty"), pair("assistant", "kept")]);
    let again = parse_conversation_markdown(&render_conversation_markdown("T", &turns));
    assert_eq!(pairs(&again), pairs(&turns));
}

#[test]
fn mark_inside_of_a_content_cuts_it() {
    let text = render_conversation_markdown("T", &vec![turn("user", "a\n<!-- /message -->\nb")]);
    assert_eq!(pairs(&parse_conversation_markdown(&text)), vec![pair("user", "a")]);
}

#[test]
fn empty_message_and_stray_end_do_not_count() {
    assert!(parse_conversation_markdown("<!-- /message -->\n").is_empty());
    assert!(
        parse_conversation_markdown("<!-- role: user -->\n \n<!-- /message -->\n").is_empty()
    );
}

#[test]
fn role_marks() {
    assert_eq!(parse_role_marker("  <!-- role: user -->\t"), Some("user"));
    assert_eq!(parse_role_marker("<!-- role: assistant -->"), Some("assistant"));
    assert_eq!(parse_role_marker("<!-- role: system -->"), None);
    assert_eq!(parse_role_marker("x <!-- role: user -->"), None);
}

#[test]
fn title_is_the_first_thing_the_user_said() {
    let turns = vec![turn("assistant", "no"), turn("user", " a \n\n b\r\nc "), turn("user", "d")];
    assert_eq!(derive_title(&turns), Some("a b c".to_string()));
}

#[test]
fn long_title_is_shortened() {
    let sixty = "é".repeat(60);
    assert_eq!(derive_title(&vec![turn("user", &sixty)]), Some(sixty.clone()));
    let longer = format!("{}x", sixty);
    assert_eq!(derive_title(&vec![turn("user", &longer)]), Some(format!("{}...", sixty)));
}

#[test]
fn no_title_without_anything_said() {
    assert_eq!(derive_title(&Vec::new()), None);
    assert_eq!(derive_title(&vec![turn("assistant", "x")]), None);
    assert_eq!(derive_title(&vec![turn("user", " \n "), turn("user", "x")]), None);
}

#[test]
fn change_sets_a_title_only_once() {
    let mut fresh = chat("a", "New chat", at(0), vec![turn("user", "hello")]);
    refresh_chat_metadata_at(&mut fresh, at(9));
    assert_eq!(fresh.title, "hello");
    assert_eq!(fresh.updated_at, at(9));
    assert_eq!(fresh.created_at, at(0));
    fresh.turns[0].content = "other".to_string();
    refresh_chat_metadata(&mut fresh);
    assert_eq!(fresh.title, "hello");
    assert!(fresh.updated_at.secs() > 1_600_000_000);
}

#[test]
fn saved_chat_is_loaded() {
    let given = chat("id-1", "T", at(5), vec![turn("user", "x"), turn("assistant", "y")]);
    let save = store().save_chat(&given);
    let loaded = ChatStore::load_chat_from_dir(
        Some("id-1"),
        "/chats/id-1",
        save.metadata,
        Some(&save.conversation),
    )
    .unwrap();
    assert_eq!(loaded.id, "id-1");
    assert_eq!(loaded.title, "T");
    assert_eq!(loaded.created_at, at(0));
    assert_eq!(loaded.updated_at, at(5));
    assert_eq!(loaded.model, "gpt-5");
    assert_eq!(pairs(&loaded.turns), pairs(&given.turns));
}

#[test]
fn missing_conversation_has_no_turns() {
    let metadata = ChatMetadata {
        title: "T".to_string(),
        created_at: at(1),
        updated_at: at(2),
        model: "m".to_string(),
    };
    let loaded = ChatStore::load_chat_from_dir(Some("x"), "/x", metadata, None).unwrap();
    assert!(loaded.turns.is_empty());
}

#[test]
fn directory_without_a_name_is_refused() {
    let metadata = chat("a", "T", at(0), Vec::new()).metadata();
    let error = ChatStore::load_chat_from_dir(None, "/chats/..", metadata, None).unwrap_err();
    assert_eq!(error.message(), "invalid chat directory name: /chats/..");
}
