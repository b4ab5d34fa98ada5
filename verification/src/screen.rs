//! What the screens say.

use vstd::prelude::*;
use vstd::string::*;

use crate::layout::{
    at_least, at_most, cursor_position, first_visible, inner_input_width, inner_message_width,
    input_box_height, law_message_is_labelled_once, law_message_rows_fit,
    law_message_rows_show_everything, message_rows, row_texts, row_view, visible_lines,
    wrap_message_lines, MessageRow, VISIBLE_INPUT_LINES,
};
use crate::number::{decimal, decimal_text};
use crate::openai::TurnView;
use crate::paste::{input_preview, render_input_preview, renderable, InputView};
use crate::storage::{ChatSummary, ChatSummaryView};
use crate::text::{same_text, texts};
use crate::time::screen_pattern;
use crate::ui::{
    message_views, with_input, App, AppView, ChatState, ChatStateView, PickerState, PickerView,
    UiMessage, NO_CHATS,
};
use crate::wrap::{
    ink, ink_all, law_wrapped_lines_are_not_empty, law_wrapped_lines_fit,
    law_wrapped_lines_keep_ink, monus, wrap_text_preserving_lines, wrapped_lines,
};

verus! {

pub const PICKER_HELP: &'static str = "Enter open | n new chat | r refresh | q quit";

pub const CHAT_HELP: &'static str =
    "Enter send | Esc back to chats | Up/Down messages | Ctrl+Up/Down input | Ctrl+C quit";

/// The line above the list of chats. `root` is where they are kept, as it is shown.
pub open spec fn picker_header_text(
    app: AppView,
    picker: PickerView,
    root: Seq<char>,
) -> Seq<char> {
    "agent-may | model="@ + app.model + " | chats="@ + decimal(picker.chats.len() as int)
        + " | root="@ + root
}

/// The line above the list of chats.
pub fn picker_header(app: &App, picker: &PickerState, root: &str) -> (r: String)
    ensures
        r@ == picker_header_text(app@, picker@, root@),
{
    assert(picker@.chats.len() == picker.chats@.len());
    let count = decimal_text(picker.chats.len());
    "agent-may | model=".to_string().concat(app.model.as_str()).concat(" | chats=").concat(
        count.as_str(),
    ).concat(" | root=").concat(root)
}

/// One entry in the list of chats: a title, and details below it if there are any.
#[derive(Debug)]
pub struct PickerRow {
    pub title: String,
    pub details: Option<String>,
}

#[verifier::ext_equal]
pub struct PickerRowView {
    pub title: Seq<char>,
    pub details: Option<Seq<char>>,
}

impl View for PickerRow {
    type V = PickerRowView;

    open spec fn view(&self) -> PickerRowView {
        PickerRowView {
            title: self.title@,
            details: match self.details {
                Some(text) => Some(text@),
                None => None,
            },
        }
    }
}

/// The entry for a chat, given its times as they are shown.
pub open spec fn dated_row(
    title: Seq<char>,
    updated: Seq<char>,
    created: Seq<char>,
    model: Seq<char>,
) -> PickerRowView {
    PickerRowView {
        title,
        details: Some("updated "@ + updated + " | created "@ + created + " | model "@ + model),
    }
}

/// The entry for a chat.
pub open spec fn chat_row(chat: ChatSummaryView) -> PickerRowView {
    dated_row(
        chat.title,
        chat.updated_at.text(screen_pattern()),
        chat.created_at.text(screen_pattern()),
        chat.model,
    )
}

/// The entries in the list of chats, or one that says that there are none.
pub open spec fn picker_entries(picker: PickerView) -> Seq<PickerRowView> {
    if picker.chats.len() == 0 {
        seq![PickerRowView { title: NO_CHATS@, details: None }]
    } else {
        picker.chats.map_values(|chat: ChatSummaryView| chat_row(chat))
    }
}

/// The entry for a chat, given its times as they are shown.
pub fn row_with_dates(title: &str, updated: &str, created: &str, model: &str) -> (r: PickerRow)
    ensures
        r@ == dated_row(title@, updated@, created@, model@),
{
    let details = "updated ".to_string().concat(updated).concat(" | created ").concat(
        created,
    ).concat(" | model ").concat(model);
    PickerRow { title: title.to_string(), details: Some(details) }
}

fn row_for(chat: &ChatSummary) -> (r: PickerRow)
    ensures
        r@ == chat_row(chat@),
{
    row_with_dates(
        chat.title.as_str(),
        chat.updated_at.screen_text().as_str(),
        chat.created_at.screen_text().as_str(),
        chat.model.as_str(),
    )
}

/// The entries in the list of chats.
pub fn picker_rows(picker: &PickerState) -> (r: Vec<PickerRow>)
    ensures
        r@.map_values(|row: PickerRow| row@) == picker_entries(picker@),
{
    let mut r: Vec<PickerRow> = Vec::new();
    assert(picker@.chats.len() == picker.chats@.len());
    if picker.chats.len() == 0 {
        r.push(PickerRow { title: NO_CHATS.to_string(), details: None });
        assert(r@.map_values(|row: PickerRow| row@) =~= picker_entries(picker@));
        return r;
    }
    let mut i: usize = 0;
    while i < picker.chats.len()
        invariant
            i <= picker.chats@.len(),
            r@.len() == i,
            forall|k: int| 0 <= k < i ==> (#[trigger] r@[k])@ == chat_row(picker.chats@[k]@),
        decreases picker.chats@.len() - i,
    {
        r.push(row_for(&picker.chats[i]));
        i += 1;
    }
    assert(r@.map_values(|row: PickerRow| row@) =~= picker_entries(picker@));
    r
}

/// The entry to highlight: the selected one, if there are entries at all.
pub fn picker_highlight(picker: &PickerState) -> (r: Option<usize>)
    ensures
        r == if picker@.chats.len() == 0 {
            None
        } else {
            Some(picker.selected)
        },
{
    assert(picker@.chats.len() == picker.chats@.len());
    if picker.chats.len() == 0 {
        None
    } else {
        Some(picker.selected)
    }
}

/// The line below the list of chats.
pub fn picker_footer(picker: &PickerState) -> (r: String)
    ensures
        r@ == picker@.status + " | "@ + PICKER_HELP@,
{
    picker.status.clone().concat(" | ").concat(PICKER_HELP)
}

/// A text that may be unknown.
pub open spec fn or_unknown(value: Option<Seq<char>>) -> Seq<char> {
    match value {
        Some(text) => text,
        None => "unknown"@,
    }
}

/// A text that may be unknown.
pub fn text_or_unknown(value: &Option<String>) -> (r: &str)
    ensures
        r@ == or_unknown(
            match value {
                Some(text) => Some(text@),
                None => None,
            },
        ),
{
    match value {
        Some(text) => text.as_str(),
        None => "unknown",
    }
}

/// The line above a chat.
pub open spec fn chat_header_text(app: AppView, chat: ChatStateView) -> Seq<char> {
    chat.chat.title + " | model="@ + app.model + " | account="@ + or_unknown(app.profile.email)
        + " | plan="@ + or_unknown(app.profile.plan_type)
}

/// The line above a chat.
pub fn chat_header(app: &App, chat: &ChatState) -> (r: String)
    ensures
        r@ == chat_header_text(app@, chat@),
{
    chat.chat.title.clone().concat(" | model=").concat(app.model.as_str()).concat(
        " | account=",
    ).concat(text_or_unknown(&app.profile.email)).concat(" | plan=").concat(
        text_or_unknown(&app.profile.plan_type),
    )
}

/// The line below a chat, given the time of its last change as it is shown.
pub open spec fn chat_footer_text(status: Seq<char>, updated: Seq<char>) -> Seq<char> {
    status + " | last updated "@ + updated + " | "@ + CHAT_HELP@
}

/// The line below a chat, given the time of its last change as it is shown.
pub fn footer_with_date(status: &str, updated: &str) -> (r: String)
    ensures
        r@ == chat_footer_text(status@, updated@),
{
    status.to_string().concat(" | last updated ").concat(updated).concat(" | ").concat(CHAT_HELP)
}

/// The line below a chat.
pub fn chat_footer(chat: &ChatState) -> (r: String)
    ensures
        r@ == chat_footer_text(
            chat@.status,
            chat@.chat.updated_at.text(screen_pattern()),
        ),
{
    footer_with_date(chat.status.as_str(), chat.chat.updated_at.screen_text().as_str())
}

/// The colours of the labels of messages.
#[derive(Debug, Clone, Copy, PartialEq, Eq, Structural)]
pub enum MessageColor {
    Green,
    Red,
    Yellow,
    Cyan,
}

/// The colour for a role.
pub open spec fn color_of(role: Seq<char>) -> MessageColor {
    if role == "assistant"@ {
        MessageColor::Green
    } else if role == "error"@ {
        MessageColor::Red
    } else if role == "system"@ {
        MessageColor::Yellow
    } else {
        MessageColor::Cyan
    }
}

/// The colour for a role.
pub fn message_color(role: &str) -> (r: MessageColor)
    ensures
        r == color_of(role@),
{
    if same_text(role, "assistant") {
        MessageColor::Green
    } else if same_text(role, "error") {
        MessageColor::Red
    } else if same_text(role, "system") {
        MessageColor::Yellow
    } else {
        MessageColor::Cyan
    }
}

/// The text in upper case, as `str::to_uppercase` gives it.
pub uninterp spec fn upper_case(text: Seq<char>) -> Seq<char>;

/// A character of ASCII in upper case.
pub open spec fn ascii_upper(c: char) -> char {
    if 'a' <= c <= 'z' {
        (c as int - 32) as char
    } else {
        c
    }
}

/// Calls `str::to_uppercase`. The result depends on the text alone; in a text of ASCII the letters
/// from `a` to `z` become those from `A` to `Z` and all else stays. How other characters are
/// mapped is left to the name.
#[verifier::external_body]
fn to_upper(text: &str) -> (r: String)
    ensures
        r@ == upper_case(text@),
        (forall|i: int| 0 <= i < text@.len() ==> (#[trigger] text@[i]) as int <= 127) ==> r@
            == text@.map_values(|c: char| ascii_upper(c)),
{
    text.to_uppercase()
}

/// One message on the screen: its colour, and its rows.
#[derive(Debug)]
pub struct MessageItem {
    pub color: MessageColor,
    pub rows: Vec<MessageRow>,
}

#[verifier::ext_equal]
pub struct MessageItemView {
    pub color: MessageColor,
    pub rows: Seq<(Seq<char>, Seq<char>)>,
}

impl View for MessageItem {
    type V = MessageItemView;

    open spec fn view(&self) -> MessageItemView {
        MessageItemView {
            color: self.color,
            rows: self.rows@.map_values(|row: MessageRow| row_view(row)),
        }
    }
}

/// A message behind the given label, in an area that many cells wide.
pub open spec fn labelled_item(label: Seq<char>, message: TurnView, width: int) -> MessageItemView {
    MessageItemView {
        color: color_of(message.role),
        rows: message_rows(label, message.content, at_least(monus(width, 6), 8)),
    }
}

/// A message behind its role in upper case.
pub open spec fn item_of(message: TurnView, width: int) -> MessageItemView {
    labelled_item(upper_case(message.role), message, width)
}

/// A message behind the given label, in an area that many cells wide.
pub fn label_message(label: &str, message: &UiMessage, width: u16) -> (r: MessageItem)
    ensures
        r@ == labelled_item(label@, message@, width as int),
{
    MessageItem {
        color: message_color(message.role.as_str()),
        rows: wrap_message_lines(label, message.content.as_str(), inner_message_width(width)),
    }
}

/// A message behind its role in upper case.
pub fn message_item(message: &UiMessage, width: u16) -> (r: MessageItem)
    ensures
        r@ == item_of(message@, width as int),
{
    let label = to_upper(message.role.as_str());
    label_message(label.as_str(), message, width)
}

/// Messages in an area that many cells wide.
pub open spec fn items_of(messages: Seq<TurnView>, width: int) -> Seq<MessageItemView> {
    messages.map_values(|message: TurnView| item_of(message, width))
}

/// The messages of a chat in an area that many cells wide.
pub fn message_items(chat: &ChatState, width: u16) -> (r: Vec<MessageItem>)
    ensures
        r@.map_values(|item: MessageItem| item@) == chat@.messages.map_values(
            |message: TurnView| item_of(message, width as int),
        ),
        r@.map_values(|item: MessageItem| item@) == items_of(chat@.messages, width as int),
{
    let mut r: Vec<MessageItem> = Vec::new();
    let mut i: usize = 0;
    while i < chat.messages.len()
        invariant
            i <= chat.messages@.len(),
            r@.len() == i,
            forall|k: int|
                0 <= k < i ==> (#[trigger] r@[k])@ == item_of(chat.messages@[k]@, width as int),
        decreases chat.messages@.len() - i,
    {
        r.push(message_item(&chat.messages[i], width));
        i += 1;
    }
    assert(r@.map_values(|item: MessageItem| item@) =~= chat@.messages.map_values(
        |message: TurnView| item_of(message, width as int),
    ));
    r
}

/// The message to highlight: the selected one, if there are messages at all.
pub fn message_highlight(chat: &ChatState) -> (r: Option<usize>)
    ensures
        r == if chat@.messages.len() == 0 {
            None
        } else {
            Some(chat.selected)
        },
{
    assert(message_views(chat.messages@).len() == chat.messages@.len());
    if chat.messages.len() == 0 {
        None
    } else {
        Some(chat.selected)
    }
}

/// The box with the input: its text, the same in lines, its height with the border, and how many
/// lines it is scrolled by.
#[derive(Debug)]
pub struct InputBox {
    pub preview: String,
    pub lines: Vec<String>,
    pub height: u16,
    pub scroll: usize,
}

#[verifier::ext_equal]
pub struct InputBoxView {
    pub preview: Seq<char>,
    pub lines: Seq<Seq<char>>,
    pub height: int,
    pub scroll: int,
}

impl View for InputBox {
    type V = InputBoxView;

    open spec fn view(&self) -> InputBoxView {
        InputBoxView {
            preview: self.preview@,
            lines: texts(self.lines@),
            height: self.height as int,
            scroll: self.scroll as int,
        }
    }
}

/// The box with the input of a chat in an area that many cells wide: as high as its lines, up to
/// a limit, and never scrolled beyond them.
pub open spec fn input_box_of(chat: ChatStateView, width: int) -> InputBoxView {
    let preview = input_preview(chat.input.text, chat.input.segments);
    let lines = wrapped_lines(preview, at_least(monus(width, 3), 8));
    let height = at_most(at_least(lines.len() as int, 1), VISIBLE_INPUT_LINES as int) + 2;
    InputBoxView {
        preview,
        lines,
        height,
        scroll: first_visible(height, lines.len() as int, chat.input_scroll),
    }
}

/// The box with the input of a chat in an area that many cells wide.
pub fn input_box(chat: &ChatState, width: u16) -> (r: InputBox)
    requires
        renderable(chat@.input.text, chat@.input.segments, 0),
    ensures
        r@ == input_box_of(chat@, width as int),
{
    let preview = render_input_preview(chat.input.as_str(), &chat.pasted_segments);
    let lines = wrap_text_preserving_lines(preview.as_str(), inner_input_width(width));
    assert(texts(lines@).len() == lines@.len());
    let height: u16 = input_box_height(lines.len());
    let visible: usize = (height - 2) as usize;
    assert(visible == visible_lines(height as int));
    let room: usize = if lines.len() >= visible {
        lines.len() - visible
    } else {
        0
    };
    let scroll: usize = if chat.input_scroll > room {
        room
    } else {
        chat.input_scroll
    };
    InputBox { preview, lines, height, scroll }
}

/// After the input has changed its end is in view: the box shows its last lines, and the cursor
/// stands behind the last one.
pub proof fn law_changed_input_shows_its_end(chat: ChatStateView, input: InputView, width: int)
    ensures
        ({
            let changed = with_input(chat, input, at_least(monus(width, 3), 8));
            let shown = input_box_of(changed, width);
            &&& shown.lines.len() > 0
            &&& shown.scroll + (shown.height - 2) == shown.lines.len()
            &&& cursor_position(shown.height, shown.lines, shown.scroll) == (
                (shown.lines.last().len() % 65536) as int,
                shown.height - 3,
            )
        }),
{
    law_wrapped_lines_are_not_empty(
        input_preview(input.text, input.segments),
        at_least(monus(width, 3), 8),
    );
}

/// The list of chats has a row for every chat, in their order, with its title, its moments and
/// its model; without a chat it says so.
pub proof fn law_list_has_a_row_for_every_chat(picker: PickerView)
    ensures
        picker.chats.len() > 0 ==> picker_entries(picker).len() == picker.chats.len(),
        picker.chats.len() == 0 ==> picker_entries(picker).len() == 1,
        picker.chats.len() == 0 ==> picker_entries(picker)[0].title
            == "No chats yet. Press n to create one."@,
        forall|i: int|
            0 <= i < picker.chats.len() ==> {
                let row = #[trigger] picker_entries(picker)[i];
                &&& row.title == picker.chats[i].title
                &&& row.details == Some(
                    "updated "@ + picker.chats[i].updated_at.text("%Y-%m-%d %H:%M"@)
                        + " | created "@ + picker.chats[i].created_at.text("%Y-%m-%d %H:%M"@)
                        + " | model "@ + picker.chats[i].model,
                )
            },
{
}

/// The headers tell the title, the model, the account and the plan, or that these are unknown,
/// and how many chats there are and where.
pub proof fn law_headers_tell_what_is_known(
    app: AppView,
    chat: ChatStateView,
    picker: PickerView,
    root: Seq<char>,
)
    ensures
        app.profile.email matches Some(email) ==> (app.profile.plan_type matches Some(plan)
            ==> chat_header_text(app, chat) == chat.chat.title + " | model="@ + app.model
            + " | account="@ + email + " | plan="@ + plan),
        app.profile.email is None ==> (app.profile.plan_type matches Some(plan)
            ==> chat_header_text(app, chat) == chat.chat.title + " | model="@ + app.model
            + " | account="@ + "unknown"@ + " | plan="@ + plan),
        app.profile.plan_type is None ==> (app.profile.email matches Some(email)
            ==> chat_header_text(app, chat) == chat.chat.title + " | model="@ + app.model
            + " | account="@ + email + " | plan="@ + "unknown"@),
        app.profile.plan_type is None && app.profile.email is None ==> chat_header_text(app, chat)
            == chat.chat.title + " | model="@ + app.model + " | account="@ + "unknown"@ + " | plan="@
            + "unknown"@,
        picker_header_text(app, picker, root) == "agent-may | model="@ + app.model + " | chats="@
            + decimal(picker.chats.len() as int) + " | root="@ + root,
{
}

/// A message is shown whole, in a color that tells its role: its rows hold all characters of its
/// content other than white space, in their order, and fit the screen where the label leaves
/// room.
pub proof fn law_message_is_shown_whole(label: Seq<char>, message: TurnView, width: int)
    ensures
        ink_all(row_texts(labelled_item(label, message, width).rows)) == ink(message.content),
        labelled_item(label, message, width).rows.len() > 0,
        labelled_item(label, message, width).rows[0].0 == label + ": "@,
        width >= 14 && label.len() + 8 < width ==> forall|i: int|
            0 <= i < labelled_item(label, message, width).rows.len() ==> (
            #[trigger] labelled_item(label, message, width).rows[i]).0.len() + labelled_item(
                label,
                message,
                width,
            ).rows[i].1.len() <= width - 6,
        labelled_item(label, message, width).color == MessageColor::Green <==> message.role
            == "assistant"@,
        labelled_item(label, message, width).color == MessageColor::Red <==> message.role
            == "error"@,
        labelled_item(label, message, width).color == MessageColor::Yellow <==> message.role
            == "system"@,
        item_of(message, width) == labelled_item(upper_case(message.role), message, width),
{
    let room = at_least(monus(width, 6), 8);
    law_message_rows_show_everything(label, message.content, room);
    law_message_is_labelled_once(label, message.content, room);
    if width >= 14 && label.len() + 8 < width {
        law_message_rows_fit(label, message.content, room);
    }
    reveal_strlit("assistant");
    reveal_strlit("error");
    reveal_strlit("system");
    assert("assistant"@.len() != "error"@.len());
    assert("assistant"@.len() != "system"@.len());
    assert("error"@.len() != "system"@.len());
}

/// The input box shows the whole input: its lines hold all characters of the preview other than
/// white space, in their order, and fit the box. It is as high as the lines need, up to eight of
/// them with the border, and the part shown never lies behind the last line.
pub proof fn law_input_box_shows_the_input(chat: ChatStateView, width: int)
    requires
        chat.input_scroll >= 0,
    ensures
        ({
            let shown = input_box_of(chat, width);
            &&& shown.preview == input_preview(chat.input.text, chat.input.segments)
            &&& ink_all(shown.lines) == ink(shown.preview)
            &&& shown.lines.len() > 0
            &&& forall|i: int|
                0 <= i < shown.lines.len() ==> (#[trigger] shown.lines[i]).len() <= at_least(
                    width - 3,
                    8,
                )
            &&& shown.lines.len() <= 8 ==> shown.height == shown.lines.len() + 2 && shown.scroll
                == 0
            &&& shown.lines.len() > 8 ==> shown.height == 10
            &&& 0 <= shown.scroll
            &&& shown.scroll + (shown.height - 2) <= shown.lines.len()
            &&& chat.input_scroll + (shown.height - 2) <= shown.lines.len() ==> shown.scroll
                == chat.input_scroll
        }),
{
    let room = at_least(monus(width, 3), 8);
    let preview = input_preview(chat.input.text, chat.input.segments);
    law_wrapped_lines_keep_ink(preview, room);
    law_wrapped_lines_are_not_empty(preview, room);
    law_wrapped_lines_fit(preview, room);
}

/// The line below a chat tells the state of the request, when the chat was changed last, and
/// which keys there are.
pub proof fn law_footer_tells_the_state(status: Seq<char>, updated: Seq<char>)
    ensures
        chat_footer_text(status, updated).take(status.len() as int) == status,
        chat_footer_text(status, updated).skip(status.len() as int) == " | last updated "@ + updated
            + " | "@ + CHAT_HELP@,
{
    let text = chat_footer_text(status, updated);
    assert(text.take(status.len() as int) =~= status);
    assert(text.skip(status.len() as int) =~= " | last updated "@ + updated + " | "@ + CHAT_HELP@);
}

/// Every message of a chat is shown, in its order and whole: the rows of each hold all characters
/// of its content other than white space, in their order.
pub proof fn law_every_message_is_shown(messages: Seq<TurnView>, width: int)
    ensures
        items_of(messages, width).len() == messages.len(),
        forall|i: int|
            0 <= i < messages.len() ==> ink_all(
                row_texts((#[trigger] items_of(messages, width)[i]).rows),
            ) == ink(messages[i].content),
{
    assert forall|i: int| 0 <= i < messages.len() implies ink_all(
        row_texts((#[trigger] items_of(messages, width)[i]).rows),
    ) == ink(messages[i].content) by {
        law_message_is_shown_whole(upper_case(messages[i].role), messages[i], width);
    }
}

} // verus!
