//! The screens of the program, and what keys and answers do to them.

use vstd::prelude::*;
use vstd::string::*;

use crate::auth::{ProfileView, UserProfile};
use crate::encoding::random_u32;
use crate::layout::{at_least, at_most, current_input_width, max_input_scroll, scroll_limit};
use crate::number::{decimal, decimal_text};
use crate::offsets::length_in_bytes;
use crate::openai::{turn_views, ChatTurn, TurnView};
use crate::paste::{
    erasable, erase_last, erased, input_preview, is_tidy, law_backspace_undoes_paste,
    law_backspace_undoes_typing, law_erasing_keeps_input_tidy, law_pasting_keeps_input_tidy,
    law_tidy_input_is_renderable, law_typing_keeps_input_tidy, make_paste_preview, pasted,
    render_input_preview, renderable, segment_views, tidy, typed, InputView, PastedSegment,
};
use crate::paths::LocationView;
use crate::storage::{
    chat_id, files_of, new_chat, refresh_chat_metadata_at, save_of, summary_views, touched,
    ChatFiles, ChatFilesView, ChatSave, ChatSaveView, ChatStore, ChatSummary, ChatSummaryView,
    ChatView, StoredChat,
};
use crate::text::{trim, trimmed};
use crate::time::Timestamp;
use crate::wrap::monus;

verus! {

pub const PICKER_GREETING: &'static str = "Select a chat or press n to create a new one.";

pub const NO_CHATS: &'static str = "No chats yet. Press n to create one.";

pub const CHAT_GREETING: &'static str = "New chat. Type a prompt and press Enter.";

pub const STAY_IN_CHAT: &'static str = "Wait for the current response before leaving this chat.";

/// One message on the screen.
#[derive(Debug)]
pub struct UiMessage {
    pub role: String,
    pub content: String,
}

impl View for UiMessage {
    type V = TurnView;

    open spec fn view(&self) -> TurnView {
        TurnView { role: self.role@, content: self.content@ }
    }
}

/// The views of messages.
pub open spec fn message_views(messages: Seq<UiMessage>) -> Seq<TurnView> {
    messages.map_values(|m: UiMessage| m@)
}

/// What a request to the service came to.
#[derive(Debug)]
pub enum WorkerEvent {
    Response(String),
    Error(String),
}

/// The list of chats.
#[derive(Debug)]
pub struct PickerState {
    pub chats: Vec<ChatSummary>,
    pub selected: usize,
    pub status: String,
}

#[verifier::ext_equal]
pub struct PickerView {
    pub chats: Seq<ChatSummaryView>,
    pub selected: int,
    pub status: Seq<char>,
}

impl View for PickerState {
    type V = PickerView;

    open spec fn view(&self) -> PickerView {
        PickerView {
            chats: summary_views(self.chats@),
            selected: self.selected as int,
            status: self.status@,
        }
    }
}

/// One chat.
#[derive(Debug)]
pub struct ChatState {
    pub chat: StoredChat,
    pub messages: Vec<UiMessage>,
    pub input: String,
    pub pasted_segments: Vec<PastedSegment>,
    pub input_scroll: usize,
    pub selected: usize,
    pub status: String,
    pub pending: bool,
}

#[verifier::ext_equal]
pub struct ChatStateView {
    pub chat: ChatView,
    pub messages: Seq<TurnView>,
    pub input: InputView,
    pub input_scroll: int,
    pub selected: int,
    pub status: Seq<char>,
    pub pending: bool,
}

impl View for ChatState {
    type V = ChatStateView;

    open spec fn view(&self) -> ChatStateView {
        ChatStateView {
            chat: self.chat@,
            messages: message_views(self.messages@),
            input: InputView {
                text: self.input@,
                segments: segment_views(self.pasted_segments@),
            },
            input_scroll: self.input_scroll as int,
            selected: self.selected as int,
            status: self.status@,
            pending: self.pending,
        }
    }
}

/// What is on the screen.
#[derive(Debug)]
pub enum Screen {
    Picker(PickerState),
    Chat(ChatState),
}

pub enum ScreenView {
    Picker(PickerView),
    Chat(ChatStateView),
}

impl View for Screen {
    type V = ScreenView;

    open spec fn view(&self) -> ScreenView {
        match self {
            Screen::Picker(picker) => ScreenView::Picker(picker@),
            Screen::Chat(chat) => ScreenView::Chat(chat@),
        }
    }
}

/// The program while it runs.
#[derive(Debug)]
pub struct App {
    pub model: String,
    pub profile: UserProfile,
    pub store: ChatStore,
    pub screen: Screen,
}

#[verifier::ext_equal]
pub struct AppView {
    pub model: Seq<char>,
    pub profile: ProfileView,
    pub store: LocationView,
    pub screen: ScreenView,
}

impl View for App {
    type V = AppView;

    open spec fn view(&self) -> AppView {
        AppView {
            model: self.model@,
            profile: self.profile@,
            store: self.store@,
            screen: self.screen@,
        }
    }
}

/// The keys that mean something.
#[derive(Debug, Clone, Copy)]
pub enum Key {
    Char(char),
    Enter,
    Esc,
    Up,
    Down,
    Backspace,
    Other,
}

/// A key, and whether the control key is held.
#[derive(Debug, Clone, Copy)]
pub struct KeyPress {
    pub key: Key,
    pub control: bool,
}

/// What is left to do after a key or an answer.
#[derive(Debug)]
pub enum Effect {
    Nothing,
    Quit,
    /// List the chats and hand them to `show_reloaded`.
    ReloadChats,
    /// List the chats and hand them to `show_picker`.
    LeaveChat,
    /// Load the chat that is kept there and hand it to `show_chat`.
    LoadChat(ChatFiles),
    /// Save this chat and, if that succeeded, hand it to `show_chat`.
    CreateChat { chat: StoredChat, save: ChatSave },
    /// Save, and tell `apply_save` whether that succeeded.
    Save(ChatSave),
    /// Send these turns and hand the answer to `apply_worker_event`.
    Send(Vec<ChatTurn>),
}

pub enum EffectView {
    Nothing,
    Quit,
    ReloadChats,
    LeaveChat,
    LoadChat(ChatFilesView),
    CreateChat { chat: ChatView, save: ChatSaveView },
    Save(ChatSaveView),
    Send(Seq<TurnView>),
}

impl View for Effect {
    type V = EffectView;

    open spec fn view(&self) -> EffectView {
        match self {
            Effect::Nothing => EffectView::Nothing,
            Effect::Quit => EffectView::Quit,
            Effect::ReloadChats => EffectView::ReloadChats,
            Effect::LeaveChat => EffectView::LeaveChat,
            Effect::LoadChat(files) => EffectView::LoadChat(files@),
            Effect::CreateChat { chat, save } => EffectView::CreateChat {
                chat: chat@,
                save: save@,
            },
            Effect::Save(save) => EffectView::Save(save@),
            Effect::Send(turns) => EffectView::Send(turn_views(turns@)),
        }
    }
}

/// A list of chats as it is first shown.
pub open spec fn fresh_picker(chats: Seq<ChatSummaryView>) -> PickerView {
    PickerView { chats, selected: 0, status: PICKER_GREETING@ }
}

/// A chat as it is first shown: the last message is selected, and a chat without any has a
/// greeting.
pub open spec fn opened(chat: ChatView) -> ChatStateView {
    let messages = if chat.turns.len() == 0 {
        seq![TurnView { role: "system"@, content: CHAT_GREETING@ }]
    } else {
        chat.turns
    };
    ChatStateView {
        chat,
        messages,
        input: InputView { text: seq![], segments: seq![] },
        input_scroll: 0,
        selected: messages.len() - 1,
        status: "Idle"@,
        pending: false,
    }
}

/// A chat with one more message on the screen, which is selected.
pub open spec fn with_message(
    chat: ChatStateView,
    role: Seq<char>,
    content: Seq<char>,
) -> ChatStateView {
    ChatStateView {
        messages: chat.messages.push(TurnView { role, content }),
        selected: chat.messages.len() as int,
        ..chat
    }
}

/// A chat with that input, scrolled to its end.
pub open spec fn with_input(chat: ChatStateView, input: InputView, width: int) -> ChatStateView {
    ChatStateView {
        input,
        input_scroll: scroll_limit(input_preview(input.text, input.segments), width),
        ..chat
    }
}

/// A chat with one more turn, at the moment `now`.
pub open spec fn with_turn(
    chat: ChatView,
    role: Seq<char>,
    content: Seq<char>,
    now: Timestamp,
) -> ChatView {
    touched(ChatView { turns: chat.turns.push(TurnView { role, content }), ..chat }, now)
}

/// The width for the input on a terminal of that size.
pub open spec fn input_width(size: Option<(u16, u16)>) -> int {
    at_least(
        monus(
            match size {
                Some(cells) => cells.0 as int,
                None => 80,
            },
            3,
        ),
        8,
    )
}

/// The messages for turns.
pub fn turns_to_messages(turns: &Vec<ChatTurn>) -> (r: Vec<UiMessage>)
    ensures
        message_views(r@) == turn_views(turns@),
{
    let mut r: Vec<UiMessage> = Vec::new();
    let mut i: usize = 0;
    while i < turns.len()
        invariant
            i <= turns@.len(),
            r@.len() == i,
            forall|k: int| 0 <= k < i ==> (#[trigger] r@[k])@ == turns@[k]@,
        decreases turns@.len() - i,
    {
        r.push(UiMessage { role: turns[i].role.clone(), content: turns[i].content.clone() });
        i += 1;
    }
    assert(message_views(r@) =~= turn_views(turns@));
    r
}

/// Other turns with the same contents.
pub fn copy_turns(turns: &Vec<ChatTurn>) -> (r: Vec<ChatTurn>)
    ensures
        turn_views(r@) == turn_views(turns@),
{
    let mut r: Vec<ChatTurn> = Vec::new();
    let mut i: usize = 0;
    while i < turns.len()
        invariant
            i <= turns@.len(),
            r@.len() == i,
            forall|k: int| 0 <= k < i ==> (#[trigger] r@[k])@ == turns@[k]@,
        decreases turns@.len() - i,
    {
        r.push(turns[i].clone());
        i += 1;
    }
    assert(turn_views(r@) =~= turn_views(turns@));
    r
}

impl PickerState {
    pub fn new(chats: Vec<ChatSummary>) -> (r: PickerState)
        ensures
            r@ == fresh_picker(summary_views(chats@)),
    {
        PickerState { chats, selected: 0, status: PICKER_GREETING.to_string() }
    }

    /// The chat that is selected, if there is one.
    pub fn selected_chat(&self) -> (r: Option<&ChatSummary>)
        ensures
            match r {
                Some(chat) => self@.selected < self@.chats.len() && chat@
                    == self@.chats[self@.selected],
                None => self@.selected >= self@.chats.len(),
            },
    {
        if self.selected < self.chats.len() {
            Some(&self.chats[self.selected])
        } else {
            None
        }
    }
}

impl ChatState {
    /// A chat as it is first shown.
    pub fn from_chat(chat: StoredChat) -> (r: ChatState)
        ensures
            r@ == opened(chat@),
    {
        let mut messages = turns_to_messages(&chat.turns);
        assert(message_views(messages@).len() == messages@.len());
        if messages.len() == 0 {
            messages.push(
                UiMessage { role: "system".to_string(), content: CHAT_GREETING.to_string() },
            );
            assert(message_views(messages@) =~= seq![
                TurnView { role: "system"@, content: CHAT_GREETING@ },
            ]);
        }
        let selected: usize = messages.len() - 1;
        let r = ChatState {
            chat,
            messages,
            input: String::new(),
            pasted_segments: Vec::new(),
            input_scroll: 0,
            selected,
            status: "Idle".to_string(),
            pending: false,
        };
        assert(r@ =~~= opened(chat@));
        r
    }

    /// Shows one more message and selects it.
    pub fn push_message(&mut self, role: &str, content: String)
        ensures
            final(self)@ == with_message(old(self)@, role@, content@),
    {
        let ghost before = self@;
        let message = UiMessage { role: role.to_string(), content };
        assert(message_views(self.messages@.push(message)) =~= before.messages.push(message@));
        self.messages.push(message);
        self.selected = self.messages.len() - 1;
        assert(self@ =~= with_message(before, role@, content@));
    }
}

/// Takes the last character from the input, or the pasted text at its end as a whole.
pub fn backspace_input(chat: &mut ChatState)
    requires
        erasable(old(chat)@.input),
    ensures
        final(chat)@ == (ChatStateView { input: erased(old(chat)@.input), ..old(chat)@ }),
{
    erase_last(&mut chat.input, &mut chat.pasted_segments);
}

/// Scrolls the input to its end, on a terminal of that size.
pub fn scroll_input_to_bottom(chat: &mut ChatState, size: Option<(u16, u16)>)
    requires
        renderable(old(chat)@.input.text, old(chat)@.input.segments, 0),
    ensures
        final(chat)@ == with_input(old(chat)@, old(chat)@.input, input_width(size)),
{
    let preview = render_input_preview(chat.input.as_str(), &chat.pasted_segments);
    chat.input_scroll = max_input_scroll(preview.as_str(), current_input_width(size));
}

/// Whether a key can be handled: what of the input it makes visible or takes away starts and ends
/// between characters.
pub open spec fn acceptable(chat: ChatStateView, key: KeyPress) -> bool {
    match key.key {
        Key::Down => key.control ==> renderable(chat.input.text, chat.input.segments, 0),
        Key::Backspace => {
            let after = erased(chat.input);
            erasable(chat.input) && renderable(after.text, after.segments, 0)
        },
        Key::Char(c) => {
            let after = typed(chat.input, c);
            !key.control ==> renderable(after.text, after.segments, 0)
        },
        _ => true,
    }
}

/// A chat whose input is to be sent, at the moment `now`: it has become a turn, but it is not a
/// message on the screen before it is saved.
pub open spec fn after_sending(
    chat: ChatStateView,
    model: Seq<char>,
    now: Timestamp,
) -> ChatStateView {
    ChatStateView {
        chat: with_turn(chat.chat, "user"@, chat.input.text, now),
        input: InputView { text: seq![], segments: seq![] },
        input_scroll: 0,
        status: "Waiting for "@ + model + "..."@,
        pending: true,
        ..chat
    }
}

/// What a key does in a chat. Only one answer is awaited at a time, and a chat is not left while
/// one is awaited. What is to be sent is saved first.
pub open spec fn chat_step(
    chat: ChatStateView,
    model: Seq<char>,
    store: LocationView,
    key: KeyPress,
    width: int,
    now: Timestamp,
) -> (ChatStateView, EffectView) {
    let last_message = monus(chat.messages.len() as int, 1);
    match key.key {
        Key::Esc => if chat.pending {
            (ChatStateView { status: STAY_IN_CHAT@, ..chat }, EffectView::Nothing)
        } else {
            (chat, EffectView::LeaveChat)
        },
        Key::Up => if key.control {
            (
                ChatStateView { input_scroll: monus(chat.input_scroll, 1), ..chat },
                EffectView::Nothing,
            )
        } else {
            (ChatStateView { selected: monus(chat.selected, 1), ..chat }, EffectView::Nothing)
        },
        Key::Down => if key.control {
            let limit = scroll_limit(input_preview(chat.input.text, chat.input.segments), width);
            (
                ChatStateView { input_scroll: at_most(chat.input_scroll + 1, limit), ..chat },
                EffectView::Nothing,
            )
        } else {
            (
                ChatStateView { selected: at_most(chat.selected + 1, last_message), ..chat },
                EffectView::Nothing,
            )
        },
        Key::Backspace => (with_input(chat, erased(chat.input), width), EffectView::Nothing),
        Key::Enter => if chat.pending || trimmed(chat.input.text).len() == 0 {
            (chat, EffectView::Nothing)
        } else {
            let after = after_sending(chat, model, now);
            (after, EffectView::Save(save_of(store, after.chat)))
        },
        Key::Char(c) => if key.control {
            (chat, EffectView::Nothing)
        } else {
            (with_input(chat, typed(chat.input, c), width), EffectView::Nothing)
        },
        Key::Other => (chat, EffectView::Nothing),
    }
}

/// What a key does in the list of chats. The list stays on the screen until another chat is loaded,
/// or a new one saved.
pub open spec fn picker_step(
    app: AppView,
    picker: PickerView,
    key: KeyPress,
    now: Timestamp,
    suffix: u32,
) -> (AppView, EffectView) {
    let last_chat = monus(picker.chats.len() as int, 1);
    match key.key {
        Key::Char(c) => if c == 'q' {
            (app, EffectView::Quit)
        } else if c == 'r' {
            (app, EffectView::ReloadChats)
        } else if c == 'n' {
            let chat = new_chat(chat_id(now, suffix), app.model, now);
            (app, EffectView::CreateChat { chat, save: save_of(app.store, chat) })
        } else {
            (app, EffectView::Nothing)
        },
        Key::Up => (
            with_picker(app, PickerView { selected: monus(picker.selected, 1), ..picker }),
            EffectView::Nothing,
        ),
        Key::Down => (
            with_picker(
                app,
                PickerView { selected: at_most(picker.selected + 1, last_chat), ..picker },
            ),
            EffectView::Nothing,
        ),
        Key::Enter => if picker.selected < picker.chats.len() {
            (app, EffectView::LoadChat(files_of(app.store, picker.chats[picker.selected].id)))
        } else {
            (with_picker(app, PickerView { status: NO_CHATS@, ..picker }), EffectView::Nothing)
        },
        _ => (app, EffectView::Nothing),
    }
}

/// The program with that list of chats on the screen.
pub open spec fn with_picker(app: AppView, picker: PickerView) -> AppView {
    AppView { screen: ScreenView::Picker(picker), ..app }
}

/// The program with that chat on the screen.
pub open spec fn with_chat(app: AppView, chat: ChatStateView) -> AppView {
    AppView { screen: ScreenView::Chat(chat), ..app }
}

/// What a key does. Control and C ends the program, whatever is on the screen.
pub open spec fn key_step(
    app: AppView,
    key: KeyPress,
    width: int,
    now: Timestamp,
    suffix: u32,
) -> (AppView, EffectView) {
    if key.control && key.key == Key::Char('c') {
        (app, EffectView::Quit)
    } else {
        match app.screen {
            ScreenView::Picker(picker) => picker_step(app, picker, key, now, suffix),
            ScreenView::Chat(chat) => {
                let (after, effect) = chat_step(chat, app.model, app.store, key, width, now);
                (with_chat(app, after), effect)
            },
        }
    }
}

/// Handles a key in a chat, on a terminal of that size and at the moment `now`.
pub fn handle_chat_key(
    chat: &mut ChatState,
    model: &str,
    store: &ChatStore,
    key: KeyPress,
    size: Option<(u16, u16)>,
    now: Timestamp,
) -> (r: Effect)
    requires
        acceptable(old(chat)@, key),
    ensures
        (final(chat)@, r@) == chat_step(old(chat)@, model@, store@, key, input_width(size), now),
{
    let ghost before = chat@;
    assert(before.messages.len() == chat.messages@.len());
    match key.key {
        Key::Esc => {
            if chat.pending {
                chat.status = STAY_IN_CHAT.to_string();
                Effect::Nothing
            } else {
                Effect::LeaveChat
            }
        },
        Key::Up => {
            if key.control {
                if chat.input_scroll > 0 {
                    chat.input_scroll = chat.input_scroll - 1;
                }
            } else {
                if chat.selected > 0 {
                    chat.selected = chat.selected - 1;
                }
            }
            Effect::Nothing
        },
        Key::Down => {
            if key.control {
                let preview = render_input_preview(chat.input.as_str(), &chat.pasted_segments);
                let limit: usize = max_input_scroll(preview.as_str(), current_input_width(size));
                if chat.input_scroll < limit {
                    chat.input_scroll = chat.input_scroll + 1;
                } else {
                    chat.input_scroll = limit;
                }
            } else {
                chat.selected = next_index(chat.selected, chat.messages.len());
            }
            Effect::Nothing
        },
        Key::Backspace => {
            backspace_input(chat);
            scroll_input_to_bottom(chat, size);
            Effect::Nothing
        },
        Key::Enter => {
            if chat.pending {
                return Effect::Nothing;
            }
            let prompt = chat.input.clone();
            if trim(prompt.as_str()).is_empty() {
                return Effect::Nothing;
            }
            chat.input = String::new();
            chat.pasted_segments = Vec::new();
            chat.input_scroll = 0;
            chat.status = "Waiting for ".to_string().concat(model).concat("...");
            chat.pending = true;
            push_turn(&mut chat.chat, "user", prompt, now);
            assert(segment_views(chat.pasted_segments@) =~= seq![]);
            assert(chat.input@ =~= seq![]);
            assert(chat@ =~= after_sending(before, model@, now));
            Effect::Save(store.save_chat(&chat.chat))
        },
        Key::Char(c) => {
            if !key.control {
                chat.input.push(c);
                assert(chat@.input =~= typed(before.input, c));
                scroll_input_to_bottom(chat, size);
                assert(chat@ =~= with_input(before, typed(before.input, c), input_width(size)));
            }
            Effect::Nothing
        },
        Key::Other => Effect::Nothing,
    }
}

/// Adds a turn to a chat at the moment `now`.
fn push_turn(chat: &mut StoredChat, role: &str, content: String, now: Timestamp)
    ensures
        final(chat)@ == with_turn(old(chat)@, role@, content@, now),
{
    let ghost before = chat@;
    let turn = ChatTurn { role: role.to_string(), content };
    assert(turn_views(chat.turns@.push(turn)) =~= before.turns.push(turn@));
    chat.turns.push(turn);
    refresh_chat_metadata_at(chat, now);
}

/// The index behind `at` in a list of that many, or the last one.
fn next_index(at: usize, count: usize) -> (r: usize)
    ensures
        r == at_most(at + 1, monus(count as int, 1)),
{
    if count == 0 {
        0
    } else if at < count - 1 {
        at + 1
    } else {
        count - 1
    }
}

/// Handles a key in the list of chats, at the moment `now` and with `suffix` for a new chat.
pub fn handle_picker_key(app: &mut App, key: KeyPress, now: Timestamp, suffix: u32) -> (r: Effect)
    ensures
        match old(app)@.screen {
            ScreenView::Picker(picker) => (final(app)@, r@) == picker_step(
                old(app)@,
                picker,
                key,
                now,
                suffix,
            ),
            ScreenView::Chat(_) => final(app)@ == old(app)@ && r@ is Nothing,
        },
{
    let ghost before = app@;
    match &mut app.screen {
        Screen::Chat(_) => Effect::Nothing,
        Screen::Picker(picker) => {
            assert(picker@.chats.len() == picker.chats@.len());
            match key.key {
                Key::Char(c) => {
                    if c == 'q' {
                        Effect::Quit
                    } else if c == 'r' {
                        Effect::ReloadChats
                    } else if c == 'n' {
                        let (chat, save) = app.store.create_chat_with(
                            app.model.as_str(),
                            now,
                            suffix,
                        );
                        Effect::CreateChat { chat, save }
                    } else {
                        Effect::Nothing
                    }
                },
                Key::Up => {
                    if picker.selected > 0 {
                        picker.selected = picker.selected - 1;
                    }
                    Effect::Nothing
                },
                Key::Down => {
                    picker.selected = next_index(picker.selected, picker.chats.len());
                    Effect::Nothing
                },
                Key::Enter => match picker.selected_chat() {
                    Some(summary) => Effect::LoadChat(app.store.load_chat(summary.id.as_str())),
                    None => {
                        picker.status = NO_CHATS.to_string();
                        Effect::Nothing
                    },
                },
                _ => Effect::Nothing,
            }
        },
    }
}

/// Whether a key can be handled with what is on the screen.
pub open spec fn acceptable_key(app: AppView, key: KeyPress) -> bool {
    app.screen matches ScreenView::Chat(chat) ==> acceptable(chat, key)
}

/// Handles a key on a terminal of that size, at the moment `now` and with `suffix` for a new chat.
pub fn handle_key_at(
    app: &mut App,
    key: KeyPress,
    size: Option<(u16, u16)>,
    now: Timestamp,
    suffix: u32,
) -> (r: Effect)
    requires
        acceptable_key(old(app)@, key),
    ensures
        (final(app)@, r@) == key_step(old(app)@, key, input_width(size), now, suffix),
{
    if key.control {
        if let Key::Char(c) = key.key {
            if c == 'c' {
                return Effect::Quit;
            }
        }
    }
    match &mut app.screen {
        Screen::Picker(_) => handle_picker_key(app, key, now, suffix),
        Screen::Chat(chat) => handle_chat_key(
            chat,
            app.model.as_str(),
            &app.store,
            key,
            size,
            now,
        ),
    }
}

/// Handles a key that was just pressed, on a terminal of that size.
pub fn handle_key(app: &mut App, key: KeyPress, size: Option<(u16, u16)>) -> (r: Effect)
    requires
        acceptable_key(old(app)@, key),
    ensures
        exists|now: Timestamp, suffix: u32|
            (final(app)@, r@) == #[trigger] key_step(
                old(app)@,
                key,
                input_width(size),
                now,
                suffix,
            ),
{
    let now = Timestamp::now();
    let suffix = random_u32();
    handle_key_at(app, key, size, now, suffix)
}

/// The program after a text was pasted. It goes to the end of the input, unless an answer is
/// awaited.
pub open spec fn paste_step(app: AppView, text: Seq<char>, width: int) -> AppView {
    match app.screen {
        ScreenView::Picker(_) => app,
        ScreenView::Chat(chat) => if chat.pending || text.len() == 0 {
            app
        } else {
            with_chat(app, with_input(chat, pasted(chat.input, text), width))
        },
    }
}

/// Whether a pasted text can be handled.
pub open spec fn acceptable_paste(app: AppView, text: Seq<char>) -> bool {
    app.screen matches ScreenView::Chat(chat) ==> chat.pending || text.len() == 0 || renderable(
        pasted(chat.input, text).text,
        pasted(chat.input, text).segments,
        0,
    )
}

/// Handles a pasted text, on a terminal of that size.
pub fn handle_paste(app: &mut App, text: &str, size: Option<(u16, u16)>)
    requires
        acceptable_paste(old(app)@, text@),
    ensures
        final(app)@ == paste_step(old(app)@, text@, input_width(size)),
{
    match &mut app.screen {
        Screen::Picker(_) => {},
        Screen::Chat(chat) => {
            if chat.pending || text.is_empty() {
                return;
            }
            let ghost before = chat@;
            let start: usize = length_in_bytes(chat.input.as_str());
            chat.input.append(text);
            let stop: usize = length_in_bytes(chat.input.as_str());
            let segment = PastedSegment { start, end: stop, preview: make_paste_preview(text) };
            assert(segment_views(chat.pasted_segments@.push(segment)) =~= segment_views(
                chat.pasted_segments@,
            ).push(segment@));
            chat.pasted_segments.push(segment);
            assert(chat@.input =~= pasted(before.input, text@));
            scroll_input_to_bottom(chat, size);
            assert(chat@ =~= with_input(before, pasted(before.input, text@), input_width(size)));
        },
    }
}

/// A chat after an answer, at the moment `now`: it has become a turn, but it is not a message on
/// the screen before it is saved.
pub open spec fn after_response(
    chat: ChatStateView,
    text: Seq<char>,
    now: Timestamp,
) -> ChatStateView {
    ChatStateView {
        chat: with_turn(chat.chat, "assistant"@, text, now),
        status: "Idle"@,
        pending: false,
        ..chat
    }
}

/// A chat after a request has failed: the error is shown and does not become a turn.
pub open spec fn after_failure(chat: ChatStateView, message: Seq<char>) -> ChatStateView {
    with_message(
        ChatStateView { status: "Request failed"@, pending: false, ..chat },
        "error"@,
        message,
    )
}

/// What an answer does. It only counts while a chat is on the screen.
pub open spec fn event_step(app: AppView, event: WorkerEvent, now: Timestamp) -> (
    AppView,
    EffectView,
) {
    match app.screen {
        ScreenView::Picker(_) => (app, EffectView::Nothing),
        ScreenView::Chat(chat) => match event {
            WorkerEvent::Response(text) => {
                let after = after_response(chat, text@, now);
                (with_chat(app, after), EffectView::Save(save_of(app.store, after.chat)))
            },
            WorkerEvent::Error(message) => (
                with_chat(app, after_failure(chat, message@)),
                EffectView::Nothing,
            ),
        },
    }
}

/// Handles an answer that came at the moment `now`.
pub fn apply_worker_event_at(app: &mut App, event: WorkerEvent, now: Timestamp) -> (r: Effect)
    ensures
        (final(app)@, r@) == event_step(old(app)@, event, now),
{
    match &mut app.screen {
        Screen::Picker(_) => Effect::Nothing,
        Screen::Chat(chat) => {
            let ghost before = chat@;
            chat.pending = false;
            match event {
                WorkerEvent::Response(text) => {
                    chat.status = "Idle".to_string();
                    push_turn(&mut chat.chat, "assistant", text, now);
                    assert(chat@ =~= after_response(before, text@, now));
                    Effect::Save(app.store.save_chat(&chat.chat))
                },
                WorkerEvent::Error(message) => {
                    chat.status = "Request failed".to_string();
                    chat.push_message("error", message);
                    assert(chat@ =~= after_failure(before, message@));
                    Effect::Nothing
                },
            }
        },
    }
}

/// Handles an answer that has just come.
pub fn apply_worker_event(app: &mut App, event: WorkerEvent) -> (r: Effect)
    ensures
        exists|now: Timestamp| (final(app)@, r@) == #[trigger] event_step(old(app)@, event, now),
{
    let now = Timestamp::now();
    apply_worker_event_at(app, event, now)
}

/// What the outcome of a save does. The last turn of a chat that was saved becomes a message, and
/// while an answer is awaited the turns are then sent. If the save has failed nothing is shown
/// and nothing is sent.
pub open spec fn save_step(app: AppView, saved: bool) -> (AppView, EffectView) {
    match app.screen {
        ScreenView::Picker(_) => (app, EffectView::Nothing),
        ScreenView::Chat(chat) => if !saved || chat.chat.turns.len() == 0 {
            (app, EffectView::Nothing)
        } else {
            let turn = chat.chat.turns.last();
            (
                with_chat(app, with_message(chat, turn.role, turn.content)),
                if chat.pending {
                    EffectView::Send(chat.chat.turns)
                } else {
                    EffectView::Nothing
                },
            )
        },
    }
}

/// Handles the outcome of a save.
pub fn apply_save(app: &mut App, saved: bool) -> (r: Effect)
    ensures
        (final(app)@, r@) == save_step(old(app)@, saved),
{
    match &mut app.screen {
        Screen::Picker(_) => Effect::Nothing,
        Screen::Chat(chat) => {
            let count: usize = chat.chat.turns.len();
            assert(chat@.chat.turns.len() == count);
            if !saved || count == 0 {
                return Effect::Nothing;
            }
            let turn = chat.chat.turns[count - 1].clone();
            assert(turn@ == chat@.chat.turns.last());
            chat.push_message(turn.role.as_str(), turn.content);
            if chat.pending {
                Effect::Send(copy_turns(&chat.chat.turns))
            } else {
                Effect::Nothing
            }
        },
    }
}

/// A list of chats after it was loaded again.
pub open spec fn reloaded(picker: PickerView, chats: Seq<ChatSummaryView>) -> PickerView {
    PickerView {
        chats,
        selected: at_most(picker.selected, monus(chats.len() as int, 1)),
        status: "Loaded "@ + decimal(chats.len() as int) + " chats."@,
    }
}

impl App {
    /// The program at its start, with those chats.
    pub fn new(model: String, profile: UserProfile, store: ChatStore, chats: Vec<ChatSummary>) -> (r:
        App)
        ensures
            r@ == (AppView {
                model: model@,
                profile: profile@,
                store: store@,
                screen: ScreenView::Picker(fresh_picker(summary_views(chats@))),
            }),
    {
        App { model, profile, store, screen: Screen::Picker(PickerState::new(chats)) }
    }

    /// Takes the chats that were listed again into the list on the screen.
    pub fn show_reloaded(&mut self, chats: Vec<ChatSummary>)
        ensures
            final(self)@ == match old(self)@.screen {
                ScreenView::Picker(picker) => with_picker(
                    old(self)@,
                    reloaded(picker, summary_views(chats@)),
                ),
                ScreenView::Chat(_) => old(self)@,
            },
    {
        match &mut self.screen {
            Screen::Chat(_) => {},
            Screen::Picker(picker) => {
                let count: usize = chats.len();
                let last: usize = if count > 0 {
                    count - 1
                } else {
                    0
                };
                picker.chats = chats;
                if picker.selected > last {
                    picker.selected = last;
                }
                picker.status =
                "Loaded ".to_string().concat(decimal_text(count).as_str()).concat(" chats.");
            },
        }
    }

    /// Shows these chats.
    pub fn show_picker(&mut self, chats: Vec<ChatSummary>)
        ensures
            final(self)@ == with_picker(old(self)@, fresh_picker(summary_views(chats@))),
    {
        self.screen = Screen::Picker(PickerState::new(chats));
    }

    /// Shows this chat.
    pub fn show_chat(&mut self, chat: StoredChat)
        ensures
            final(self)@ == with_chat(old(self)@, opened(chat@)),
    {
        self.screen = Screen::Chat(ChatState::from_chat(chat));
    }
}

/// Whether a chat on the screen is in order: its pasted texts lie in its input one after the
/// other, and one of its messages is selected.
pub open spec fn chat_in_order(chat: ChatStateView) -> bool {
    &&& tidy(chat.input)
    &&& 0 <= chat.selected < chat.messages.len()
    &&& chat.input_scroll >= 0
}

/// Whether a list on the screen is in order: one of its chats is selected, if it has any.
pub open spec fn picker_in_order(picker: PickerView) -> bool {
    0 <= picker.selected <= monus(picker.chats.len() as int, 1)
}

/// Whether the program is in order.
pub open spec fn in_order(app: AppView) -> bool {
    match app.screen {
        ScreenView::Picker(picker) => picker_in_order(picker),
        ScreenView::Chat(chat) => chat_in_order(chat),
    }
}

impl App {
    /// Whether the program is in order.
    pub fn is_in_order(&self) -> (r: bool)
        ensures
            r == in_order(self@),
    {
        match &self.screen {
            Screen::Picker(picker) => {
                assert(picker@.chats.len() == picker.chats@.len());
                picker.selected < picker.chats.len() || picker.selected == 0
            },
            Screen::Chat(chat) => {
                assert(chat@.messages.len() == chat.messages@.len());
                chat.selected < chat.messages.len() && is_tidy(
                    chat.input.as_str(),
                    &chat.pasted_segments,
                )
            },
        }
    }
}

/// The program is in order at its start and whenever another list or chat is shown.
pub proof fn law_new_screens_are_in_order(app: AppView, chats: Seq<ChatSummaryView>, chat: ChatView)
    ensures
        in_order(with_picker(app, fresh_picker(chats))),
        in_order(with_chat(app, opened(chat))),
{
}

/// In a program that is in order every key and every pasted text can be handled.
pub proof fn law_in_order_accepts_everything(app: AppView, key: KeyPress, text: Seq<char>)
    requires
        in_order(app),
    ensures
        acceptable_key(app, key),
        acceptable_paste(app, text),
{
    if let ScreenView::Chat(chat) = app.screen {
        law_tidy_input_is_renderable(chat.input);
        law_erasing_keeps_input_tidy(chat.input);
        law_tidy_input_is_renderable(erased(chat.input));
        if let Key::Char(c) = key.key {
            law_typing_keeps_input_tidy(chat.input, c);
            law_tidy_input_is_renderable(typed(chat.input, c));
        }
        if text.len() > 0 {
            law_pasting_keeps_input_tidy(chat.input, text);
            law_tidy_input_is_renderable(pasted(chat.input, text));
        }
    }
}

/// Keys keep the program in order.
pub proof fn law_keys_keep_order(
    app: AppView,
    key: KeyPress,
    width: int,
    now: Timestamp,
    suffix: u32,
)
    requires
        in_order(app),
    ensures
        in_order(key_step(app, key, width, now, suffix).0),
{
    if let ScreenView::Chat(chat) = app.screen {
        law_erasing_keeps_input_tidy(chat.input);
        if let Key::Char(c) = key.key {
            law_typing_keeps_input_tidy(chat.input, c);
        }
    }
}

/// Pasted texts keep the program in order.
pub proof fn law_pastes_keep_order(app: AppView, text: Seq<char>, width: int)
    requires
        in_order(app),
    ensures
        in_order(paste_step(app, text, width)),
{
    if let ScreenView::Chat(chat) = app.screen {
        if text.len() > 0 {
            law_pasting_keeps_input_tidy(chat.input, text);
        }
    }
}

/// Answers, the outcomes of saves and a list that was loaded again keep the program in order.
pub proof fn law_answers_keep_order(
    app: AppView,
    event: WorkerEvent,
    now: Timestamp,
    saved: bool,
    picker: PickerView,
    chats: Seq<ChatSummaryView>,
)
    requires
        in_order(app),
        picker_in_order(picker),
    ensures
        in_order(event_step(app, event, now).0),
        in_order(save_step(app, saved).0),
        picker_in_order(reloaded(picker, chats)),
{
}

/// While an answer is awaited, no key leaves the chat, saves or sends anything or touches what was
/// said; only the program can be ended.
pub proof fn law_pending_chat_stays(
    app: AppView,
    chat: ChatStateView,
    key: KeyPress,
    width: int,
    now: Timestamp,
    suffix: u32,
)
    requires
        app.screen == ScreenView::Chat(chat),
        chat.pending,
    ensures
        ({
            let (after, effect) = key_step(app, key, width, now, suffix);
            &&& effect is Nothing || effect is Quit
            &&& after.screen matches ScreenView::Chat(kept)
            &&& kept.pending
            &&& kept.chat == chat.chat
            &&& kept.messages == chat.messages
        }),
{
}

/// What is sent is the whole chat, which ends with the input, and it is sent after it was saved:
/// a key saves the chat with the input as its last turn and shows no message yet. Once that save
/// has succeeded the input is shown and selected, and the same turns are sent. If it has failed,
/// messages and selection are as before, and nothing is sent.
pub proof fn law_sent_turns_end_with_input(
    app: AppView,
    chat: ChatStateView,
    key: KeyPress,
    width: int,
    now: Timestamp,
    suffix: u32,
)
    requires
        app.screen == ScreenView::Chat(chat),
    ensures
        ({
            let (asked, effect) = key_step(app, key, width, now, suffix);
            let prompt = TurnView { role: "user"@, content: chat.input.text };
            let turns = chat.chat.turns.push(prompt);
            &&& !(effect is Send)
            &&& effect matches EffectView::Save(save) ==> {
                &&& !chat.pending
                &&& trimmed(chat.input.text).len() > 0
                &&& asked.screen matches ScreenView::Chat(unsaved)
                &&& unsaved.pending
                &&& unsaved.chat.turns == turns
                &&& unsaved.input == (InputView { text: seq![], segments: seq![] })
                &&& unsaved.messages == chat.messages
                &&& unsaved.selected == chat.selected
                &&& save == save_of(app.store, unsaved.chat)
                &&& save_step(asked, true) == (
                    with_chat(
                        app,
                        ChatStateView {
                            messages: chat.messages.push(prompt),
                            selected: chat.messages.len() as int,
                            ..unsaved
                        },
                    ),
                    EffectView::Send(turns),
                )
                &&& save_step(asked, false) == (asked, EffectView::Nothing)
            }
        }),
{
}

/// After an answer the chat can go on: nothing is awaited, and the turns end with the answer, which
/// is saved. Once that save has succeeded the answer is shown and selected. If it has failed,
/// messages and selection are as before.
pub proof fn law_answer_completes_request(
    app: AppView,
    chat: ChatStateView,
    text: String,
    now: Timestamp,
)
    requires
        app.screen == ScreenView::Chat(chat),
    ensures
        ({
            let (came, effect) = event_step(app, WorkerEvent::Response(text), now);
            let answer = TurnView { role: "assistant"@, content: text@ };
            &&& came.screen matches ScreenView::Chat(unsaved)
            &&& !unsaved.pending
            &&& unsaved.chat.turns == chat.chat.turns.push(answer)
            &&& unsaved.messages == chat.messages
            &&& unsaved.selected == chat.selected
            &&& unsaved.input == chat.input
            &&& effect == EffectView::Save(save_of(app.store, unsaved.chat))
            &&& save_step(came, true) == (
                with_chat(
                    app,
                    ChatStateView {
                        messages: chat.messages.push(answer),
                        selected: chat.messages.len() as int,
                        ..unsaved
                    },
                ),
                EffectView::Nothing,
            )
            &&& save_step(came, false) == (came, EffectView::Nothing)
        }),
{
}

/// A new chat leaves the list on the screen until it is saved: what is handed out is the chat and
/// what to write for it.
pub proof fn law_new_chat_is_saved_before_it_is_shown(
    app: AppView,
    key: KeyPress,
    width: int,
    now: Timestamp,
    suffix: u32,
)
    ensures
        ({
            let (after, effect) = key_step(app, key, width, now, suffix);
            effect matches EffectView::CreateChat { chat, save } ==> {
                &&& after == app
                &&& app.screen is Picker
                &&& chat == new_chat(chat_id(now, suffix), app.model, now)
                &&& save == save_of(app.store, chat)
            }
        }),
{
}

/// After a failed request the turns are as they were, and nothing is awaited or saved.
pub proof fn law_failure_keeps_turns(
    app: AppView,
    chat: ChatStateView,
    message: String,
    now: Timestamp,
)
    requires
        app.screen == ScreenView::Chat(chat),
    ensures
        ({
            let (after, effect) = event_step(app, WorkerEvent::Error(message), now);
            &&& after.screen matches ScreenView::Chat(failed)
            &&& !failed.pending
            &&& failed.chat == chat.chat
            &&& effect is Nothing
        }),
{
}

/// A chat that is opened shows every turn, as it is and in its order, the last one selected, with
/// an empty input. A chat without turns shows a greeting instead.
pub proof fn law_opened_chat_shows_every_turn(chat: ChatView)
    ensures
        opened(chat).chat == chat,
        chat.turns.len() > 0 ==> opened(chat).messages == chat.turns,
        chat.turns.len() == 0 ==> opened(chat).messages.len() == 1 && opened(
            chat,
        ).messages[0].role == "system"@,
        opened(chat).selected == opened(chat).messages.len() - 1,
        opened(chat).input.text.len() == 0,
        opened(chat).input.segments.len() == 0,
        opened(chat).input_scroll == 0,
        opened(chat).status == "Idle"@,
        !opened(chat).pending,
{
}

/// A typed character is appended to the input, and the chat itself stays as it is: nothing is
/// sent, saved or left.
pub proof fn law_typed_key_is_appended(
    app: AppView,
    chat: ChatStateView,
    c: char,
    width: int,
    now: Timestamp,
    suffix: u32,
)
    requires
        app.screen == ScreenView::Chat(chat),
    ensures
        ({
            let key = KeyPress { key: Key::Char(c), control: false };
            let (after, effect) = key_step(app, key, width, now, suffix);
            &&& effect is Nothing
            &&& after.screen matches ScreenView::Chat(kept)
            &&& kept.input.text == chat.input.text.push(c)
            &&& kept.input.segments == chat.input.segments
            &&& same_chat(kept, chat)
            &&& kept.selected == chat.selected
        }),
{
}

/// Whether two states show the same chat: the same turns and messages, with the same state of the
/// request.
pub open spec fn same_chat(a: ChatStateView, b: ChatStateView) -> bool {
    &&& a.chat == b.chat
    &&& a.messages == b.messages
    &&& a.status == b.status
    &&& a.pending == b.pending
}

/// Backspace undoes the last character typed, or the last paste as a whole, whatever the input
/// was.
pub proof fn law_backspace_key_undoes_the_last_input(
    app: AppView,
    chat: ChatStateView,
    c: char,
    text: Seq<char>,
    width: int,
    now: Timestamp,
    suffix: u32,
)
    requires
        app.screen == ScreenView::Chat(chat),
        chat_in_order(chat),
        !chat.pending,
        text.len() > 0,
    ensures
        ({
            let typing = KeyPress { key: Key::Char(c), control: false };
            let back = KeyPress { key: Key::Backspace, control: false };
            let typed = key_step(app, typing, width, now, suffix).0;
            let (after, effect) = key_step(typed, back, width, now, suffix);
            &&& effect is Nothing
            &&& after.screen matches ScreenView::Chat(kept)
            &&& kept.input == chat.input
            &&& same_chat(kept, chat)
        }),
        ({
            let back = KeyPress { key: Key::Backspace, control: false };
            let pasted = paste_step(app, text, width);
            let (after, effect) = key_step(pasted, back, width, now, suffix);
            &&& effect is Nothing
            &&& after.screen matches ScreenView::Chat(kept)
            &&& kept.input == chat.input
            &&& same_chat(kept, chat)
        }),
{
    law_backspace_undoes_typing(chat.input, c);
    law_backspace_undoes_paste(chat.input, text);
}

/// A pasted text is appended to the input as it is, unless an answer is awaited; nothing else
/// changes.
pub proof fn law_pasted_text_is_appended(
    app: AppView,
    chat: ChatStateView,
    text: Seq<char>,
    width: int,
)
    requires
        app.screen == ScreenView::Chat(chat),
    ensures
        paste_step(app, text, width).screen matches ScreenView::Chat(kept) && same_chat(kept, chat)
            && kept.selected == chat.selected && kept.input.text == if chat.pending {
            chat.input.text
        } else {
            chat.input.text + text
        },
        chat.pending ==> paste_step(app, text, width) == app,
{
    assert(chat.input.text + Seq::<char>::empty() =~= chat.input.text);
    if text.len() == 0 {
        assert(text =~= seq![]);
    }
}

/// The arrows move the selection by one, and stop at both ends; nothing else of a chat changes.
/// With control they scroll the input instead, by one line.
pub proof fn law_arrows_move_by_one(
    app: AppView,
    chat: ChatStateView,
    width: int,
    now: Timestamp,
    suffix: u32,
)
    requires
        app.screen == ScreenView::Chat(chat),
        chat_in_order(chat),
    ensures
        ({
            let key = KeyPress { key: Key::Up, control: false };
            let (after, effect) = key_step(app, key, width, now, suffix);
            &&& effect is Nothing
            &&& after.screen matches ScreenView::Chat(kept)
            &&& kept == (ChatStateView { selected: kept.selected, ..chat })
            &&& chat.selected > 0 ==> kept.selected == chat.selected - 1
            &&& chat.selected == 0 ==> kept.selected == 0
        }),
        ({
            let key = KeyPress { key: Key::Down, control: false };
            let (after, effect) = key_step(app, key, width, now, suffix);
            &&& effect is Nothing
            &&& after.screen matches ScreenView::Chat(kept)
            &&& kept == (ChatStateView { selected: kept.selected, ..chat })
            &&& chat.selected + 1 < chat.messages.len() ==> kept.selected == chat.selected + 1
            &&& chat.selected + 1 == chat.messages.len() ==> kept.selected == chat.selected
        }),
        ({
            let key = KeyPress { key: Key::Up, control: true };
            let (after, effect) = key_step(app, key, width, now, suffix);
            &&& effect is Nothing
            &&& after.screen matches ScreenView::Chat(kept)
            &&& kept == (ChatStateView { input_scroll: kept.input_scroll, ..chat })
            &&& chat.input_scroll > 0 ==> kept.input_scroll == chat.input_scroll - 1
            &&& chat.input_scroll == 0 ==> kept.input_scroll == 0
        }),
        ({
            let key = KeyPress { key: Key::Down, control: true };
            let limit = scroll_limit(input_preview(chat.input.text, chat.input.segments), width);
            let (after, effect) = key_step(app, key, width, now, suffix);
            &&& effect is Nothing
            &&& after.screen matches ScreenView::Chat(kept)
            &&& kept == (ChatStateView { input_scroll: kept.input_scroll, ..chat })
            &&& chat.input_scroll < limit ==> kept.input_scroll == chat.input_scroll + 1
            &&& chat.input_scroll >= limit ==> kept.input_scroll == limit
        }),
{
}

/// Enter sends the whole input as the next turn, exactly where no answer is awaited and the input
/// is not blank; else it does nothing. Of the chat only the turn, the moment and perhaps the title
/// change.
pub proof fn law_enter_sends_the_whole_input(
    app: AppView,
    chat: ChatStateView,
    control: bool,
    width: int,
    now: Timestamp,
    suffix: u32,
)
    requires
        app.screen == ScreenView::Chat(chat),
    ensures
        ({
            let key = KeyPress { key: Key::Enter, control };
            let (after, effect) = key_step(app, key, width, now, suffix);
            &&& chat.pending || trimmed(chat.input.text).len() == 0 ==> after == app
                && effect is Nothing
            &&& !chat.pending && trimmed(chat.input.text).len() > 0 ==> {
                &&& after.screen matches ScreenView::Chat(asked)
                &&& asked.chat.turns.len() == chat.chat.turns.len() + 1
                &&& asked.chat.turns.drop_last() == chat.chat.turns
                &&& asked.chat.turns.last().role == "user"@
                &&& asked.chat.turns.last().content == chat.input.text
                &&& asked.chat.id == chat.chat.id
                &&& asked.chat.model == chat.chat.model
                &&& asked.chat.created_at == chat.chat.created_at
                &&& asked.chat.updated_at == now
                &&& asked.status == "Waiting for "@ + app.model + "..."@
                &&& asked.input_scroll == 0
                &&& asked.pending
                &&& effect is Save
                &&& save_step(after, true).1 == EffectView::Send(asked.chat.turns)
            }
        }),
{
    let turn = TurnView { role: "user"@, content: chat.input.text };
    assert(chat.chat.turns.push(turn).drop_last() =~= chat.chat.turns);
}

/// An answer becomes the next turn as it came, with the moment at which it came; nothing else of
/// the chat but perhaps its title changes.
pub proof fn law_answer_becomes_the_next_turn(
    app: AppView,
    chat: ChatStateView,
    text: String,
    now: Timestamp,
)
    requires
        app.screen == ScreenView::Chat(chat),
    ensures
        event_step(app, WorkerEvent::Response(text), now).0.screen matches ScreenView::Chat(came)
            && came.chat.turns.drop_last() == chat.chat.turns && came.chat.turns.last().role
            == "assistant"@ && came.chat.turns.last().content == text@ && came.chat.id
            == chat.chat.id && came.chat.model == chat.chat.model && came.chat.created_at
            == chat.chat.created_at && came.chat.updated_at == now && came.status == "Idle"@,
{
    let turn = TurnView { role: "assistant"@, content: text@ };
    assert(chat.chat.turns.push(turn).drop_last() =~= chat.chat.turns);
}

/// A failure is shown as it was told, behind all other messages and selected; the input stays as
/// it is.
pub proof fn law_failure_is_shown_as_told(
    app: AppView,
    chat: ChatStateView,
    message: String,
    now: Timestamp,
)
    requires
        app.screen == ScreenView::Chat(chat),
    ensures
        event_step(app, WorkerEvent::Error(message), now).0.screen matches ScreenView::Chat(failed)
            && failed.messages.len() == chat.messages.len() + 1 && failed.messages.drop_last()
            == chat.messages && failed.messages.last().role == "error"@
            && failed.messages.last().content == message@ && failed.selected
            == failed.messages.len() - 1 && failed.input == chat.input && failed.status
            == "Request failed"@,
{
    let told = TurnView { role: "error"@, content: message@ };
    assert(chat.messages.push(told).drop_last() =~= chat.messages);
}

/// Escape leaves a chat exactly where no answer is awaited, and control with `c` quits from
/// everywhere; neither changes the chat.
pub proof fn law_leaving_changes_nothing(
    app: AppView,
    chat: ChatStateView,
    control: bool,
    width: int,
    now: Timestamp,
    suffix: u32,
)
    ensures
        key_step(app, KeyPress { key: Key::Char('c'), control: true }, width, now, suffix) == (
            app,
            EffectView::Quit,
        ),
        app.screen == ScreenView::Chat(chat) ==> {
            let (after, effect) = key_step(
                app,
                KeyPress { key: Key::Esc, control },
                width,
                now,
                suffix,
            );
            &&& effect is LeaveChat <==> !chat.pending
            &&& !chat.pending ==> after == app
            &&& chat.pending ==> effect is Nothing && after == with_chat(
                app,
                ChatStateView {
                    status: "Wait for the current response before leaving this chat."@,
                    ..chat
                },
            )
        },
{
}

/// On the list of chats the arrows move the selection by one and stop at both ends, Enter opens
/// the selected chat, and the three letters quit, reload and start a chat. The list stays as it
/// is.
pub proof fn law_list_follows_its_keys(
    app: AppView,
    picker: PickerView,
    width: int,
    now: Timestamp,
    suffix: u32,
)
    requires
        app.screen == ScreenView::Picker(picker),
        picker_in_order(picker),
    ensures
        ({
            let (after, effect) = key_step(
                app,
                KeyPress { key: Key::Up, control: false },
                width,
                now,
                suffix,
            );
            &&& effect is Nothing
            &&& after.screen matches ScreenView::Picker(kept)
            &&& kept.chats == picker.chats
            &&& kept.status == picker.status
            &&& kept.selected == if picker.selected > 0 {
                picker.selected - 1
            } else {
                0
            }
        }),
        ({
            let (after, effect) = key_step(
                app,
                KeyPress { key: Key::Down, control: false },
                width,
                now,
                suffix,
            );
            &&& effect is Nothing
            &&& after.screen matches ScreenView::Picker(kept)
            &&& kept.chats == picker.chats
            &&& kept.status == picker.status
            &&& kept.selected == if picker.selected + 1 < picker.chats.len() {
                picker.selected + 1
            } else {
                picker.selected
            }
        }),
        picker.chats.len() > 0 ==> key_step(
            app,
            KeyPress { key: Key::Enter, control: false },
            width,
            now,
            suffix,
        ) == (
            app,
            EffectView::LoadChat(files_of(app.store, picker.chats[picker.selected].id)),
        ),
        picker.chats.len() == 0 ==> key_step(
            app,
            KeyPress { key: Key::Enter, control: false },
            width,
            now,
            suffix,
        ) == (
            with_picker(
                app,
                PickerView { status: "No chats yet. Press n to create one."@, ..picker },
            ),
            EffectView::Nothing,
        ),
        key_step(app, KeyPress { key: Key::Char('q'), control: false }, width, now, suffix) == (
            app,
            EffectView::Quit,
        ),
        key_step(app, KeyPress { key: Key::Char('r'), control: false }, width, now, suffix) == (
            app,
            EffectView::ReloadChats,
        ),
        key_step(
            app,
            KeyPress { key: Key::Char('n'), control: false },
            width,
            now,
            suffix,
        ).1 is CreateChat,
{
}

/// A reloaded list shows the chats that were loaded, all of them, and keeps the selection as far
/// as there are that many.
pub proof fn law_reloaded_list_shows_what_was_loaded(
    picker: PickerView,
    chats: Seq<ChatSummaryView>,
)
    requires
        picker.selected >= 0,
    ensures
        reloaded(picker, chats).chats == chats,
        picker.selected < chats.len() ==> reloaded(picker, chats).selected == picker.selected,
        picker.selected >= chats.len() > 0 ==> reloaded(picker, chats).selected == chats.len() - 1,
        reloaded(picker, chats).status == "Loaded "@ + decimal(chats.len() as int) + " chats."@,
        fresh_picker(chats).chats == chats,
        fresh_picker(chats).selected == 0,
{
}

/// Keys, pastes, answers and saves only change the screen: the model, the profile and the place
/// of the chats stay.
pub proof fn law_only_the_screen_changes(
    app: AppView,
    key: KeyPress,
    text: Seq<char>,
    event: WorkerEvent,
    saved: bool,
    width: int,
    now: Timestamp,
    suffix: u32,
)
    ensures
        same_surroundings(key_step(app, key, width, now, suffix).0, app),
        same_surroundings(paste_step(app, text, width), app),
        same_surroundings(event_step(app, event, now).0, app),
        same_surroundings(save_step(app, saved).0, app),
        app.screen is Picker ==> {
            &&& paste_step(app, text, width) == app
            &&& event_step(app, event, now) == (app, EffectView::Nothing)
            &&& save_step(app, saved) == (app, EffectView::Nothing)
        },
{
}

/// Whether two states differ in their screens alone.
pub open spec fn same_surroundings(a: AppView, b: AppView) -> bool {
    &&& a.model == b.model
    &&& a.profile == b.profile
    &&& a.store == b.store
}

/// The input is as wide as the screen without its border and the cursor, but never narrower than
/// eight columns; where the size is unknown it is taken to be eighty.
pub proof fn law_input_is_as_wide_as_the_screen(width: u16, height: u16)
    ensures
        width >= 11 ==> input_width(Some((width, height))) == width - 3,
        width < 11 ==> input_width(Some((width, height))) == 8,
        input_width(None) == 77,
{
}

/// A message that is added stands behind all others, as it is, and is selected; nothing else
/// changes.
pub proof fn law_added_message_is_the_last(
    chat: ChatStateView,
    role: Seq<char>,
    content: Seq<char>,
)
    ensures
        ({
            let after = with_message(chat, role, content);
            &&& after.messages.drop_last() == chat.messages
            &&& after.messages.len() == chat.messages.len() + 1
            &&& after.messages.last() == (TurnView { role, content })
            &&& after.selected == chat.messages.len()
            &&& after == (ChatStateView {
                messages: after.messages,
                selected: after.selected,
                ..chat
            })
        }),
{
    assert(with_message(chat, role, content).messages.drop_last() =~= chat.messages);
}

/// Keys without a meaning change nothing: other keys and, in a chat, letters with control.
pub proof fn law_other_keys_do_nothing(
    app: AppView,
    c: char,
    control: bool,
    width: int,
    now: Timestamp,
    suffix: u32,
)
    ensures
        key_step(app, KeyPress { key: Key::Other, control }, width, now, suffix) == (
            app,
            EffectView::Nothing,
        ),
        app.screen is Chat && c != 'c' ==> key_step(
            app,
            KeyPress { key: Key::Char(c), control: true },
            width,
            now,
            suffix,
        ) == (app, EffectView::Nothing),
        app.screen is Picker && c != 'q' && c != 'r' && c != 'n' ==> key_step(
            app,
            KeyPress { key: Key::Char(c), control: false },
            width,
            now,
            suffix,
        ) == (app, EffectView::Nothing),
{
}

} // verus!
