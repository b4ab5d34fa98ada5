//! Chats, and how they are kept.

use vstd::prelude::*;
use vstd::string::*;

use crate::config::AppConfig;
use crate::conversation::{
    conversation_in, conversation_text, free_of_marks, kept_turns,
    law_one_line_title_reads_as_nothing, law_written_conversation_is_read_back,
    parse_conversation_markdown, render_conversation_markdown, title_text,
};
use crate::encoding::random_u32;
use crate::lines::{
    lemma_lines_hold_no_feed, lemma_lines_of_two, lemma_trim_parts, lemma_trimmed_is, one_line,
    tight,
};
use crate::number::{
    hex8, hex_digits, hex_range, law_hex_digits_differ, law_hex_digits_fill_their_places,
};
use crate::openai::{turn_views, ChatTurn, TurnView};
use crate::paths::{opt_text, Location, LocationView};
use crate::text::{
    chars_of, join, joined, lemma_first_index_is, lemma_texts_push, line_seq, lines, same_text,
    text_between, texts, trim, trimmed, white_space,
};
use crate::time::{law_one_of_two_moments_is_later, name_pattern, Timestamp};
use crate::views::{opt_view, result_view};
use crate::wrap::{
    ink, ink_all, lemma_ink_add, lemma_ink_all_one, lemma_ink_empty, lemma_ink_lines,
    lemma_ink_of_blank, lemma_ink_one, lemma_ink_push,
};

verus! {

pub const DEFAULT_CHAT_TITLE: &'static str = "New chat";

pub const CHAT_TOML: &'static str = "chat.toml";

pub const CONVERSATION_MD: &'static str = "conversation.md";

/// How many characters of the first message make a title.
pub const TITLE_LENGTH: usize = 60;

/// A chat.
#[derive(Debug, Clone)]
pub struct StoredChat {
    pub id: String,
    pub title: String,
    pub created_at: Timestamp,
    pub updated_at: Timestamp,
    pub model: String,
    pub turns: Vec<ChatTurn>,
}

#[verifier::ext_equal]
pub struct ChatView {
    pub id: Seq<char>,
    pub title: Seq<char>,
    pub created_at: Timestamp,
    pub updated_at: Timestamp,
    pub model: Seq<char>,
    pub turns: Seq<TurnView>,
}

impl View for StoredChat {
    type V = ChatView;

    open spec fn view(&self) -> ChatView {
        ChatView {
            id: self.id@,
            title: self.title@,
            created_at: self.created_at,
            updated_at: self.updated_at,
            model: self.model@,
            turns: turn_views(self.turns@),
        }
    }
}

/// A chat without what was said in it.
#[derive(Debug, Clone)]
pub struct ChatSummary {
    pub id: String,
    pub title: String,
    pub created_at: Timestamp,
    pub updated_at: Timestamp,
    pub model: String,
}

#[verifier::ext_equal]
pub struct ChatSummaryView {
    pub id: Seq<char>,
    pub title: Seq<char>,
    pub created_at: Timestamp,
    pub updated_at: Timestamp,
    pub model: Seq<char>,
}

impl View for ChatSummary {
    type V = ChatSummaryView;

    open spec fn view(&self) -> ChatSummaryView {
        ChatSummaryView {
            id: self.id@,
            title: self.title@,
            created_at: self.created_at,
            updated_at: self.updated_at,
            model: self.model@,
        }
    }
}

/// What is kept of a chat beside the conversation.
#[derive(Debug, Clone)]
pub struct ChatMetadata {
    pub title: String,
    pub created_at: Timestamp,
    pub updated_at: Timestamp,
    pub model: String,
}

#[verifier::ext_equal]
pub struct MetadataView {
    pub title: Seq<char>,
    pub created_at: Timestamp,
    pub updated_at: Timestamp,
    pub model: Seq<char>,
}

impl View for ChatMetadata {
    type V = MetadataView;

    open spec fn view(&self) -> MetadataView {
        MetadataView {
            title: self.title@,
            created_at: self.created_at,
            updated_at: self.updated_at,
            model: self.model@,
        }
    }
}

impl ChatView {
    pub open spec fn summary(self) -> ChatSummaryView {
        ChatSummaryView {
            id: self.id,
            title: self.title,
            created_at: self.created_at,
            updated_at: self.updated_at,
            model: self.model,
        }
    }

    pub open spec fn metadata(self) -> MetadataView {
        MetadataView {
            title: self.title,
            created_at: self.created_at,
            updated_at: self.updated_at,
            model: self.model,
        }
    }
}

impl StoredChat {
    /// The chat without what was said in it.
    pub fn summary(self) -> (r: ChatSummary)
        ensures
            r@ == self@.summary(),
    {
        ChatSummary {
            id: self.id,
            title: self.title,
            created_at: self.created_at,
            updated_at: self.updated_at,
            model: self.model,
        }
    }

    /// What to keep beside the conversation.
    pub fn metadata(&self) -> (r: ChatMetadata)
        ensures
            r@ == self@.metadata(),
    {
        ChatMetadata {
            title: self.title.clone(),
            created_at: self.created_at,
            updated_at: self.updated_at,
            model: self.model.clone(),
        }
    }
}

/// Why a chat cannot be loaded.
#[derive(Debug)]
pub enum StorageError {
    /// The directory, as shown, has no name that is text.
    InvalidDirectoryName(String),
}

pub enum StorageErrorView {
    InvalidDirectoryName(Seq<char>),
}

impl View for StorageError {
    type V = StorageErrorView;

    open spec fn view(&self) -> StorageErrorView {
        match self {
            StorageError::InvalidDirectoryName(path) =>
                StorageErrorView::InvalidDirectoryName(path@),
        }
    }
}

impl StorageError {
    /// What to tell the user.
    pub fn message(&self) -> (r: String)
        ensures
            r@ == (match self@ {
                StorageErrorView::InvalidDirectoryName(path) => "invalid chat directory name: "@
                    + path,
            }),
    {
        match self {
            StorageError::InvalidDirectoryName(path) =>
                "invalid chat directory name: ".to_string().concat(path.as_str()),
        }
    }
}

/// Where the parts of a chat are kept.
#[derive(Debug)]
pub struct ChatFiles {
    pub directory: Location,
    pub metadata: Location,
    pub conversation: Location,
}

#[verifier::ext_equal]
pub struct ChatFilesView {
    pub directory: LocationView,
    pub metadata: LocationView,
    pub conversation: LocationView,
}

impl View for ChatFiles {
    type V = ChatFilesView;

    open spec fn view(&self) -> ChatFilesView {
        ChatFilesView {
            directory: self.directory@,
            metadata: self.metadata@,
            conversation: self.conversation@,
        }
    }
}

/// The files of a chat: both in the directory that is called like the chat.
pub open spec fn files_of(root: LocationView, id: Seq<char>) -> ChatFilesView {
    let directory = root.child(id);
    ChatFilesView {
        directory,
        metadata: directory.child(CHAT_TOML@),
        conversation: directory.child(CONVERSATION_MD@),
    }
}

/// What to write to keep a chat, and where.
#[derive(Debug)]
pub struct ChatSave {
    pub files: ChatFiles,
    pub metadata: ChatMetadata,
    pub conversation: String,
}

#[verifier::ext_equal]
pub struct ChatSaveView {
    pub files: ChatFilesView,
    pub metadata: MetadataView,
    pub conversation: Seq<char>,
}

impl View for ChatSave {
    type V = ChatSaveView;

    open spec fn view(&self) -> ChatSaveView {
        ChatSaveView {
            files: self.files@,
            metadata: self.metadata@,
            conversation: self.conversation@,
        }
    }
}

/// What to write to keep a chat.
pub open spec fn save_of(root: LocationView, chat: ChatView) -> ChatSaveView {
    ChatSaveView {
        files: files_of(root, chat.id),
        metadata: chat.metadata(),
        conversation: conversation_text(chat.title, chat.turns),
    }
}

/// The name of a chat that starts at a moment: the moment, and a number that tells it from
/// others.
pub open spec fn chat_id(now: Timestamp, suffix: u32) -> Seq<char> {
    now.text(name_pattern()) + "_"@ + hex_digits(suffix as int, 8)
}

/// The name of a chat, from the text of the moment when it starts and the number `suffix`.
pub fn chat_id_from(moment: &str, suffix: u32) -> (r: String)
    ensures
        r@ == moment@ + "_"@ + hex_digits(suffix as int, 8),
{
    moment.to_string().concat("_").concat(hex8(suffix).as_str())
}

/// The name of a chat that starts at the moment `now`, with the number `suffix`.
pub fn chat_id_with(now: Timestamp, suffix: u32) -> (r: String)
    ensures
        r@ == chat_id(now, suffix),
{
    chat_id_from(now.name_text().as_str(), suffix)
}

/// A name for a chat that starts at the moment `now`, with a random number.
pub fn generate_chat_id(now: Timestamp) -> (r: String)
    ensures
        exists|suffix: u32| r@ == chat_id(now, suffix),
{
    let suffix = random_u32();
    chat_id_with(now, suffix)
}

/// A chat at its start.
pub open spec fn new_chat(id: Seq<char>, model: Seq<char>, now: Timestamp) -> ChatView {
    ChatView {
        id,
        title: DEFAULT_CHAT_TITLE@,
        created_at: now,
        updated_at: now,
        model,
        turns: seq![],
    }
}

/// The chat that its parts make. A conversation that is missing has no turns.
pub open spec fn chat_from_parts(
    id: Seq<char>,
    metadata: MetadataView,
    conversation: Option<Seq<char>>,
) -> ChatView {
    ChatView {
        id,
        title: metadata.title,
        created_at: metadata.created_at,
        updated_at: metadata.updated_at,
        model: metadata.model,
        turns: match conversation {
            Some(raw) => conversation_in(raw),
            None => seq![],
        },
    }
}

/// The summaries of the chats that could be loaded, in order.
pub open spec fn summaries(loaded: Seq<Option<StoredChat>>) -> Seq<ChatSummaryView>
    decreases loaded.len(),
{
    if loaded.len() == 0 {
        seq![]
    } else {
        let before = summaries(loaded.drop_last());
        match loaded.last() {
            Some(chat) => before.push(chat@.summary()),
            None => before,
        }
    }
}

/// The chats with that last change, in order.
pub open spec fn changed_at(chats: Seq<ChatSummaryView>, secs: int, nanos: int) -> Seq<
    ChatSummaryView,
> {
    chats.filter(
        |c: ChatSummaryView|
            c.updated_at.seconds() == secs && c.updated_at.nanoseconds() == nanos,
    )
}

/// Whether no chat was changed after one before it.
pub open spec fn newest_first(chats: Seq<ChatSummaryView>) -> bool {
    forall|i: int, j: int|
        0 <= i < j < chats.len() ==> !(#[trigger] chats[j]).updated_at.after(
            (#[trigger] chats[i]).updated_at,
        )
}

/// Whether a list holds the same chats as the other, the newest first, and those changed at the
/// same moment in the order that they had.
pub open spec fn sorted_from(chats: Seq<ChatSummaryView>, given: Seq<ChatSummaryView>) -> bool {
    &&& chats.to_multiset() == given.to_multiset()
    &&& newest_first(chats)
    &&& forall|secs: int, nanos: int|
        #[trigger] changed_at(chats, secs, nanos) == changed_at(given, secs, nanos)
}

/// The views of summaries.
pub open spec fn summary_views(chats: Seq<ChatSummary>) -> Seq<ChatSummaryView> {
    chats.map_values(|c: ChatSummary| c@)
}

proof fn lemma_insert_sorted(
    chats: Seq<ChatSummaryView>,
    given: Seq<ChatSummaryView>,
    chat: ChatSummaryView,
    at: int,
)
    requires
        sorted_from(chats, given),
        0 <= at <= chats.len(),
        forall|i: int| 0 <= i < at ==> !chat.updated_at.after((#[trigger] chats[i]).updated_at),
        at < chats.len() ==> chat.updated_at.after(chats[at].updated_at),
    ensures
        sorted_from(chats.insert(at, chat), given.push(chat)),
{
    broadcast use vstd::seq_lib::to_multiset_insert, vstd::seq_lib::to_multiset_build;

    let more = chats.insert(at, chat);
    let front = chats.take(at);
    let back = chats.skip(at);
    assert(chats =~= front + back);
    assert(more =~= front + seq![chat] + back);
    assert(more.to_multiset() == given.push(chat).to_multiset());
    assert forall|i: int, j: int| 0 <= i < j < more.len() implies !(
    #[trigger] more[j]).updated_at.after((#[trigger] more[i]).updated_at) by {
        let a = if i < at {
            chats[i]
        } else {
            chats[i - 1]
        };
        let b = if j < at {
            chats[j]
        } else {
            chats[j - 1]
        };
        assert(i != at ==> more[i] == a);
        assert(j != at ==> more[j] == b);
        if i == at {
            assert(chats[at].updated_at == chats[at].updated_at);
        }
    }
    assert forall|secs: int, nanos: int|
        #[trigger] changed_at(more, secs, nanos) == changed_at(given.push(chat), secs, nanos) by {
        let same = |c: ChatSummaryView|
            c.updated_at.seconds() == secs && c.updated_at.nanoseconds() == nanos;
        assert(changed_at(chats, secs, nanos) == changed_at(given, secs, nanos));
        Seq::filter_distributes_over_add(front, back, same);
        Seq::filter_distributes_over_add(front + seq![chat], back, same);
        Seq::filter_distributes_over_add(front, seq![chat], same);
        Seq::filter_distributes_over_add(given, seq![chat], same);
        assert(given.push(chat) =~= given + seq![chat]);
        reveal(Seq::filter);
        let one = seq![chat];
        assert(one.drop_last() =~= seq![]);
        assert(one.drop_last().filter(same) =~= seq![]);
        if same(chat) {
            assert(one.filter(same) =~= one);
            assert forall|k: int| 0 <= k < back.len() implies !same(#[trigger] back[k]) by {
                assert(back[k] == chats[at + k]);
                assert(at < chats.len());
                if k > 0 {
                    assert(!chats[at + k].updated_at.after(chats[at].updated_at));
                }
            }
            lemma_filter_none(back, same);
            assert(front.filter(same) + one + back.filter(same) =~= front.filter(same)
                + back.filter(same) + one);
        } else {
            assert(one.filter(same) =~= seq![]);
            assert(front.filter(same) + seq![] + back.filter(same) =~= front.filter(same)
                + back.filter(same));
            assert(given.filter(same) + seq![] =~= given.filter(same));
        }
    }
}

proof fn lemma_filter_none(s: Seq<ChatSummaryView>, p: spec_fn(ChatSummaryView) -> bool)
    requires
        forall|k: int| 0 <= k < s.len() ==> !p(#[trigger] s[k]),
    ensures
        s.filter(p) == Seq::<ChatSummaryView>::empty(),
    decreases s.len(),
{
    reveal(Seq::filter);
    if s.len() > 0 {
        assert(!p(s[s.len() - 1]));
        assert forall|k: int| 0 <= k < s.drop_last().len() implies !p(
            #[trigger] s.drop_last()[k],
        ) by {
            assert(s.drop_last()[k] == s[k]);
        }
        lemma_filter_none(s.drop_last(), p);
    }
}

/// Puts a chat behind those that were not changed before it.
fn insert_by_change(chats: &mut Vec<ChatSummary>, chat: ChatSummary, Ghost(given): Ghost<
    Seq<ChatSummaryView>,
>)
    requires
        sorted_from(summary_views(old(chats)@), given),
    ensures
        sorted_from(summary_views(final(chats)@), given.push(chat@)),
{
    let ghost before = summary_views(chats@);
    let mut at: usize = 0;
    while at < chats.len() && !chat.updated_at.is_after(&chats[at].updated_at)
        invariant
            at <= chats@.len(),
            before == summary_views(chats@),
            forall|i: int|
                0 <= i < at ==> !chat.updated_at.after((#[trigger] before[i]).updated_at),
        decreases chats@.len() - at,
    {
        assert(before[at as int] == chats@[at as int]@);
        at += 1;
    }
    proof {
        if at < chats@.len() {
            assert(before[at as int] == chats@[at as int]@);
        }
        lemma_insert_sorted(before, given, chat@, at as int);
        assert(summary_views(chats@.insert(at as int, chat)) =~= before.insert(at as int, chat@));
    }
    chats.insert(at, chat);
}

/// The chats in a directory.
#[derive(Debug, Clone)]
pub struct ChatStore {
    root: Location,
}

impl View for ChatStore {
    type V = LocationView;

    closed spec fn view(&self) -> LocationView {
        self.root@
    }
}

impl ChatStore {
    /// The chats in the directory of the settings, which has to exist.
    pub fn new(config: &AppConfig) -> (r: ChatStore)
        ensures
            r@ == config.chats_dir@,
    {
        ChatStore { root: config.chats_dir.clone() }
    }

    /// Where the chats are kept.
    pub fn root(&self) -> (r: &Location)
        ensures
            r@ == self@,
    {
        &self.root
    }

    /// The list of chats. `loaded` has what each directory could be loaded as, in any order.
    pub fn list_chats(&self, loaded: Vec<Option<StoredChat>>) -> (r: Vec<ChatSummary>)
        ensures
            sorted_from(summary_views(r@), summaries(loaded@)),
    {
        let ghost all = loaded@;
        let ghost mut i: int = 0;
        let mut rest = loaded;
        let mut chats: Vec<ChatSummary> = Vec::new();
        proof {
            assert(summary_views(chats@) =~= seq![]);
            assert(all.take(0) =~= seq![]);
            assert(all.skip(0) =~= all);
        }
        while rest.len() > 0
            invariant
                0 <= i <= all.len(),
                rest@ == all.skip(i),
                sorted_from(summary_views(chats@), summaries(all.take(i))),
            decreases rest@.len(),
        {
            let entry = rest.remove(0);
            proof {
                assert(entry == all[i]);
                assert(all.take(i + 1).drop_last() =~= all.take(i));
                assert(rest@ =~= all.skip(i + 1));
                i = i + 1;
            }
            if let Some(chat) = entry {
                insert_by_change(
                    &mut chats,
                    chat.summary(),
                    Ghost(summaries(all.take(i - 1))),
                );
            }
        }
        assert(all.take(i) =~= all);
        chats
    }

    fn start_chat(&self, id: String, model: &str, now: Timestamp) -> (r: (StoredChat, ChatSave))
        ensures
            r.0@ == new_chat(id@, model@, now),
            r.1@ == save_of(self@, r.0@),
    {
        let chat = StoredChat {
            id,
            title: DEFAULT_CHAT_TITLE.to_string(),
            created_at: now,
            updated_at: now,
            model: model.to_string(),
            turns: Vec::new(),
        };
        assert(turn_views(chat.turns@) =~= seq![]);
        let save = self.save_chat(&chat);
        (chat, save)
    }

    /// A new chat for a model, at the moment `now` and with the number `suffix`, and what to
    /// write to keep it.
    pub fn create_chat_with(&self, model: &str, now: Timestamp, suffix: u32) -> (r: (
        StoredChat,
        ChatSave,
    ))
        ensures
            r.0@ == new_chat(chat_id(now, suffix), model@, now),
            r.1@ == save_of(self@, r.0@),
    {
        self.start_chat(chat_id_with(now, suffix), model, now)
    }

    /// A new chat for a model, and what to write to keep it.
    pub fn create_chat(&self, model: &str) -> (r: (StoredChat, ChatSave))
        ensures
            exists|now: Timestamp, suffix: u32|
                r.0@ == #[trigger] new_chat(#[trigger] chat_id(now, suffix), model@, now),
            r.1@ == save_of(self@, r.0@),
    {
        let now = Timestamp::now();
        let id = generate_chat_id(now);
        self.start_chat(id, model, now)
    }

    /// Where to load a chat from.
    pub fn load_chat(&self, id: &str) -> (r: ChatFiles)
        ensures
            r@ == files_of(self@, id@),
    {
        self.files(id)
    }

    fn files(&self, id: &str) -> (r: ChatFiles)
        ensures
            r@ == files_of(self@, id@),
    {
        let directory = self.root.join(id);
        let metadata = directory.join(CHAT_TOML);
        let conversation = directory.join(CONVERSATION_MD);
        ChatFiles { directory, metadata, conversation }
    }

    /// What to write to keep a chat.
    pub fn save_chat(&self, chat: &StoredChat) -> (r: ChatSave)
        ensures
            r@ == save_of(self@, chat@),
    {
        ChatSave {
            files: self.files(chat.id.as_str()),
            metadata: chat.metadata(),
            conversation: render_conversation_markdown(chat.title.as_str(), &chat.turns),
        }
    }

    /// The chat in a directory, from what is kept there. `name` is the name of the directory, if
    /// it is text, and `shown` the directory as the user is to see it.
    pub fn load_chat_from_dir(
        name: Option<&str>,
        shown: &str,
        metadata: ChatMetadata,
        conversation: Option<&str>,
    ) -> (r: Result<StoredChat, StorageError>)
        ensures
            result_view(r) == match name {
                Some(id) => Ok(chat_from_parts(id@, metadata@, opt_text(conversation))),
                None => Err(StorageErrorView::InvalidDirectoryName(shown@)),
            },
    {
        let turns = match conversation {
            Some(raw) => parse_conversation_markdown(raw),
            None => Vec::new(),
        };
        assert(conversation is None ==> turn_views(turns@) =~= seq![]);
        match name {
            Some(id) => Ok(
                StoredChat {
                    id: id.to_string(),
                    title: metadata.title,
                    created_at: metadata.created_at,
                    updated_at: metadata.updated_at,
                    model: metadata.model,
                    turns,
                },
            ),
            None => Err(StorageError::InvalidDirectoryName(shown.to_string())),
        }
    }
}

/// The lines without the white space around them, but for the blank ones.
pub open spec fn inked_lines(lines: Seq<Seq<char>>) -> Seq<Seq<char>>
    decreases lines.len(),
{
    if lines.len() == 0 {
        seq![]
    } else {
        let before = inked_lines(lines.drop_last());
        let line = trimmed(lines.last());
        if line.len() == 0 {
            before
        } else {
            before.push(line)
        }
    }
}

/// What the user said first.
pub open spec fn first_user_content(turns: Seq<TurnView>) -> Option<Seq<char>>
    decreases turns.len(),
{
    if turns.len() == 0 {
        None
    } else {
        let before = first_user_content(turns.drop_last());
        if before is Some {
            before
        } else if turns.last().role == "user"@ {
            Some(turns.last().content)
        } else {
            None
        }
    }
}

/// A text on one line.
pub open spec fn collapsed(content: Seq<char>) -> Seq<char> {
    joined(inked_lines(line_seq(content)), " "@)
}

/// A text cut to the length of a title, with dots where something is missing.
pub open spec fn shortened(text: Seq<char>) -> Seq<char> {
    if text.len() > TITLE_LENGTH {
        text.take(TITLE_LENGTH as int) + "..."@
    } else {
        text
    }
}

/// The title that turns give: what the user said first, on one line and shortened.
pub open spec fn derived_title(turns: Seq<TurnView>) -> Option<Seq<char>> {
    match first_user_content(turns) {
        Some(content) => if collapsed(content).len() == 0 {
            None
        } else {
            Some(shortened(collapsed(content)))
        },
        None => None,
    }
}

/// A text on one line.
fn collapse(content: &str) -> (r: String)
    ensures
        r@ == collapsed(content@),
{
    let all = lines(content);
    let ghost seen = texts(all@);
    let mut kept: Vec<String> = Vec::new();
    let mut i: usize = 0;
    assert(texts(kept@) =~= seq![]);
    while i < all.len()
        invariant
            i <= all@.len(),
            seen == texts(all@),
            texts(kept@) == inked_lines(seen.take(i as int)),
        decreases all@.len() - i,
    {
        assert(seen.take(i + 1).drop_last() =~= seen.take(i as int));
        assert(seen.take(i + 1).last() == seen[i as int]);
        let line = trim(all[i].as_str());
        if !line.is_empty() {
            let copy = line.to_string();
            proof {
                lemma_texts_push(kept@, copy);
            }
            kept.push(copy);
        }
        i += 1;
    }
    assert(seen.take(i as int) =~= seen);
    join(&kept, " ")
}

/// The title that turns give.
pub fn derive_title(turns: &Vec<ChatTurn>) -> (r: Option<String>)
    ensures
        opt_view(r) == derived_title(turn_views(turns@)),
{
    let ghost views = turn_views(turns@);
    let mut i: usize = 0;
    assert(views.take(0) =~= seq![]);
    while i < turns.len() && !same_text(turns[i].role.as_str(), "user")
        invariant
            i <= turns@.len(),
            views == turn_views(turns@),
            first_user_content(views.take(i as int)) is None,
        decreases turns@.len() - i,
    {
        assert(views.take(i + 1).drop_last() =~= views.take(i as int));
        assert(views.take(i + 1).last() == turns@[i as int]@);
        i += 1;
    }
    if i == turns.len() {
        assert(views.take(i as int) =~= views);
        return None;
    }
    proof {
        assert(views.take(i + 1).drop_last() =~= views.take(i as int));
        assert(views.take(i + 1).last() == turns@[i as int]@);
        lemma_first_user_stays(views, i + 1);
    }
    let text = collapse(turns[i].content.as_str());
    if text.as_str().is_empty() {
        return None;
    }
    let chars = chars_of(text.as_str());
    if chars.len() > TITLE_LENGTH {
        let head = text_between(&chars, 0, TITLE_LENGTH);
        assert(chars@.subrange(0, TITLE_LENGTH as int) =~= text@.take(TITLE_LENGTH as int));
        Some(head.concat("..."))
    } else {
        Some(text)
    }
}

proof fn lemma_first_user_stays(turns: Seq<TurnView>, upto: int)
    requires
        0 <= upto <= turns.len(),
        first_user_content(turns.take(upto)) is Some,
    ensures
        first_user_content(turns) == first_user_content(turns.take(upto)),
    decreases turns.len() - upto,
{
    if upto < turns.len() {
        assert(turns.take(upto + 1).drop_last() =~= turns.take(upto));
        lemma_first_user_stays(turns, upto + 1);
    } else {
        assert(turns.take(upto) =~= turns);
    }
}

/// A chat after a change at the moment `now`: a title that was never set is derived.
pub open spec fn touched(chat: ChatView, now: Timestamp) -> ChatView {
    ChatView {
        updated_at: now,
        title: if chat.title == DEFAULT_CHAT_TITLE@ && derived_title(chat.turns) is Some {
            derived_title(chat.turns)->0
        } else {
            chat.title
        },
        ..chat
    }
}

/// Notes a change of a chat at the moment `now`.
pub fn refresh_chat_metadata_at(chat: &mut StoredChat, now: Timestamp)
    ensures
        final(chat)@ == touched(old(chat)@, now),
{
    chat.updated_at = now;
    if same_text(chat.title.as_str(), DEFAULT_CHAT_TITLE) {
        if let Some(title) = derive_title(&chat.turns) {
            chat.title = title;
        }
    }
}

/// Notes a change of a chat that has just happened.
pub fn refresh_chat_metadata(chat: &mut StoredChat)
    ensures
        exists|now: Timestamp| final(chat)@ == touched(old(chat)@, now),
{
    let now = Timestamp::now();
    refresh_chat_metadata_at(chat, now);
}

proof fn lemma_inked_lines(lines: Seq<Seq<char>>)
    requires
        forall|i: int| 0 <= i < lines.len() ==> one_line(#[trigger] lines[i]),
    ensures
        forall|i: int|
            0 <= i < inked_lines(lines).len() ==> one_line(#[trigger] inked_lines(lines)[i]),
    decreases lines.len(),
{
    if lines.len() > 0 {
        let head = lines.drop_last();
        assert forall|i: int| 0 <= i < head.len() implies one_line(#[trigger] head[i]) by {
            assert(head[i] == lines[i]);
        }
        lemma_inked_lines(head);
        let line = lines[lines.len() - 1];
        assert(one_line(line));
        let (lead, trail) = lemma_trim_parts(line);
        assert forall|i: int| 0 <= i < trimmed(line).len() implies #[trigger] trimmed(line)[i]
            != '\n' by {
            assert(line[lead.len() + i] == trimmed(line)[i]);
        }
        assert forall|i: int| 0 <= i < inked_lines(lines).len() implies one_line(
            #[trigger] inked_lines(lines)[i],
        ) by {
            if i < inked_lines(head).len() {
                assert(inked_lines(lines)[i] == inked_lines(head)[i]);
            } else {
                assert(inked_lines(lines)[i] == trimmed(line));
            }
        }
    }
}

proof fn lemma_joined_one_line(parts: Seq<Seq<char>>, sep: Seq<char>)
    requires
        one_line(sep),
        forall|i: int| 0 <= i < parts.len() ==> one_line(#[trigger] parts[i]),
    ensures
        one_line(joined(parts, sep)),
    decreases parts.len(),
{
    if parts.len() > 1 {
        let head = parts.drop_last();
        assert forall|i: int| 0 <= i < head.len() implies one_line(#[trigger] head[i]) by {
            assert(head[i] == parts[i]);
        }
        lemma_joined_one_line(head, sep);
        assert(one_line(parts[parts.len() - 1]));
    } else if parts.len() == 1 {
        assert(one_line(parts[0]));
    }
}

/// A derived title is not empty, on one line, and no longer than the length of a title with the
/// dots behind it.
pub proof fn law_derived_title_is_short_and_on_one_line(turns: Seq<TurnView>)
    ensures
        derived_title(turns) matches Some(title) ==> {
            &&& 0 < title.len() <= TITLE_LENGTH + 3
            &&& one_line(title)
        },
{
    if let Some(content) = first_user_content(turns) {
        reveal_strlit(" ");
        reveal_strlit("...");
        lemma_lines_hold_no_feed(content);
        lemma_inked_lines(line_seq(content));
        lemma_joined_one_line(inked_lines(line_seq(content)), " "@);
        assert(one_line(collapsed(content)));
    }
}

/// Noting a change keeps a title on one line, and never gives up a title that was set.
pub proof fn law_change_keeps_title_on_one_line(chat: ChatView, now: Timestamp)
    requires
        one_line(chat.title),
    ensures
        one_line(touched(chat, now).title),
        chat.title != DEFAULT_CHAT_TITLE@ ==> touched(chat, now).title == chat.title,
{
    law_derived_title_is_short_and_on_one_line(chat.turns);
}

/// A new chat has a title on one line.
pub proof fn law_new_title_is_on_one_line(id: Seq<char>, model: Seq<char>, now: Timestamp)
    ensures
        one_line(new_chat(id, model, now).title),
{
    reveal_strlit("New chat");
}

/// A chat that was kept is loaded again as it was, with its turns as they are read back: the
/// parts that are written make the chat. The title must not read as turns by itself, and no line
/// of a content may be a mark.
pub proof fn law_saved_chat_is_loaded(root: LocationView, chat: ChatView)
    requires
        conversation_in(title_text(chat.title)) == Seq::<TurnView>::empty(),
        forall|i: int|
            0 <= i < chat.turns.len() ==> free_of_marks((#[trigger] chat.turns[i]).content),
    ensures
        ({
            let save = save_of(root, chat);
            chat_from_parts(chat.id, save.metadata, Some(save.conversation)) == (ChatView {
                turns: kept_turns(chat.turns),
                ..chat
            })
        }),
{
    law_written_conversation_is_read_back(chat.title, chat.turns);
}

/// A new chat is loaded again as it was.
pub proof fn law_new_chat_is_loaded_unchanged(
    root: LocationView,
    id: Seq<char>,
    model: Seq<char>,
    now: Timestamp,
)
    ensures
        ({
            let chat = new_chat(id, model, now);
            let save = save_of(root, chat);
            chat_from_parts(id, save.metadata, Some(save.conversation)) == chat
        }),
{
    let chat = new_chat(id, model, now);
    law_new_title_is_on_one_line(id, model, now);
    law_one_line_title_reads_as_nothing(chat.title);
    law_saved_chat_is_loaded(root, chat);
}

/// Chats that start at the same moment with different numbers have different names.
pub proof fn law_numbers_tell_names_apart(now: Timestamp, first: u32, second: u32)
    requires
        first != second,
    ensures
        chat_id(now, first) != chat_id(now, second),
{
    if chat_id(now, first) == chat_id(now, second) {
        let head = now.text(name_pattern()) + "_"@;
        let a = hex_digits(first as int, 8);
        let b = hex_digits(second as int, 8);
        assert(chat_id(now, first).skip(head.len() as int) =~= a);
        assert(chat_id(now, second).skip(head.len() as int) =~= b);
        reveal_with_fuel(hex_range, 9);
        law_hex_digits_differ(first as int, second as int, 8);
    }
}

proof fn lemma_ink_inked_lines(lines: Seq<Seq<char>>)
    ensures
        ink_all(inked_lines(lines)) == ink_all(lines),
        forall|i: int|
            0 <= i < inked_lines(lines).len() ==> (#[trigger] inked_lines(lines)[i]).len() > 0,
    decreases lines.len(),
{
    if lines.len() > 0 {
        lemma_ink_inked_lines(lines.drop_last());
        lemma_ink_of_blank(lines.last());
        let before = inked_lines(lines.drop_last());
        if trimmed(lines.last()).len() == 0 {
            assert(ink_all(lines.drop_last()) + ink(lines.last()) =~= ink_all(lines.drop_last()));
        } else {
            lemma_ink_push(before, trimmed(lines.last()));
        }
    }
}

proof fn lemma_ink_joined(parts: Seq<Seq<char>>)
    ensures
        ink(joined(parts, " "@)) == ink_all(parts),
    decreases parts.len(),
{
    reveal_strlit(" ");
    lemma_ink_empty();
    if parts.len() == 0 {
        assert(joined(parts, " "@) =~= seq![]);
    } else if parts.len() == 1 {
        assert(parts =~= seq![parts[0]]);
        lemma_ink_all_one(parts[0]);
    } else {
        let head = joined(parts.drop_last(), " "@);
        lemma_ink_joined(parts.drop_last());
        assert(" "@ =~= seq![' ']);
        lemma_ink_add(head, seq![' ']);
        lemma_ink_add(head + seq![' '], parts.last());
        lemma_ink_one(' ');
        assert(joined(parts, " "@) =~= head + seq![' '] + parts.last());
        assert(ink(head) + seq![] =~= ink(head));
    }
}

/// A collapsed content loses nothing: all characters of the content other than white space stand
/// in it, in their order. It is empty only where the content is blank.
pub proof fn law_collapsed_content_keeps_ink(content: Seq<char>)
    ensures
        ink(collapsed(content)) == ink(content),
        collapsed(content).len() == 0 <==> trimmed(content).len() == 0,
{
    let parts = inked_lines(line_seq(content));
    lemma_ink_inked_lines(line_seq(content));
    lemma_ink_lines(content);
    lemma_ink_joined(parts);
    lemma_ink_of_blank(content);
    if collapsed(content).len() == 0 {
        lemma_ink_empty();
        assert(collapsed(content) =~= seq![]);
    }
    if trimmed(content).len() == 0 && parts.len() > 0 {
        let last = parts.last();
        assert(parts[parts.len() - 1].len() > 0);
        lemma_inked_lines_are_tight(line_seq(content));
        lemma_ink_of_blank(last);
        assert(ink_all(parts) == ink_all(parts.drop_last()) + ink(last));
        assert(false);
    }
}

proof fn lemma_inked_lines_are_tight(lines: Seq<Seq<char>>)
    ensures
        forall|i: int|
            0 <= i < inked_lines(lines).len() ==> trimmed(#[trigger] inked_lines(lines)[i]).len()
                > 0,
    decreases lines.len(),
{
    if lines.len() > 0 {
        let last = lines.last();
        let before = inked_lines(lines.drop_last());
        lemma_inked_lines_are_tight(lines.drop_last());
        lemma_ink_of_blank(last);
        lemma_ink_of_blank(trimmed(last));
        assert forall|i: int| 0 <= i < inked_lines(lines).len() implies trimmed(
            #[trigger] inked_lines(lines)[i],
        ).len() > 0 by {
            if i < before.len() {
                assert(inked_lines(lines)[i] == before[i]);
            } else {
                assert(inked_lines(lines)[i] == trimmed(last));
            }
        }
    }
}

proof fn lemma_inked_lines_add(a: Seq<Seq<char>>, b: Seq<Seq<char>>)
    ensures
        inked_lines(a + b) == inked_lines(a) + inked_lines(b),
    decreases b.len(),
{
    if b.len() == 0 {
        assert(a + b =~= a);
        assert(inked_lines(a) + inked_lines(b) =~= inked_lines(a));
    } else {
        lemma_inked_lines_add(a, b.drop_last());
        assert((a + b).drop_last() =~= a + b.drop_last());
        assert(inked_lines(a + b) =~= inked_lines(a) + inked_lines(b));
    }
}

/// Collapsing puts lines one behind the other: a content on one line is only trimmed, and two
/// contents with a line feed between them are collapsed each on its own, with a space between
/// them where neither is blank.
pub proof fn law_collapsing_puts_lines_behind_each_other(a: Seq<char>, b: Seq<char>)
    requires
        a.len() > 0,
        a.last() != '\n',
        a.last() != '\r',
    ensures
        one_line(a) ==> collapsed(a) == trimmed(a),
        collapsed(a + seq!['\n'] + b) == if trimmed(a).len() == 0 {
            collapsed(b)
        } else if trimmed(b).len() == 0 {
            collapsed(a)
        } else {
            collapsed(a) + " "@ + collapsed(b)
        },
{
    lemma_lines_of_two(a, b);
    let first = inked_lines(line_seq(a));
    let second = inked_lines(line_seq(b));
    lemma_inked_lines_add(line_seq(a), line_seq(b));
    law_collapsed_content_keeps_ink(a);
    law_collapsed_content_keeps_ink(b);
    lemma_ink_inked_lines(line_seq(a));
    lemma_ink_inked_lines(line_seq(b));
    lemma_joined_add(first, second, " "@);
    if first.len() > 0 {
        assert(first[first.len() - 1].len() > 0);
    }
    if second.len() > 0 {
        assert(second[second.len() - 1].len() > 0);
    }
    if first.len() == 0 {
        assert(first + second =~= second);
    }
    if second.len() == 0 {
        assert(first + second =~= first);
    }
    if one_line(a) {
        lemma_first_index_is(a, '\n', a.len() as int);
        assert(line_seq(a) =~= seq![a]);
        assert(line_seq(a).drop_last() =~= seq![]);
        assert(inked_lines(line_seq(a).drop_last()) =~= seq![]);
    }
}

proof fn lemma_joined_add(a: Seq<Seq<char>>, b: Seq<Seq<char>>, sep: Seq<char>)
    ensures
        a.len() > 0 && b.len() > 0 ==> joined(a + b, sep) == joined(a, sep) + sep + joined(b, sep),
    decreases b.len(),
{
    if a.len() > 0 && b.len() > 0 {
        assert((a + b).drop_last() =~= a + b.drop_last());
        if b.len() == 1 {
            assert(a + b.drop_last() =~= a);
        } else {
            lemma_joined_add(a, b.drop_last(), sep);
            assert(joined(a + b, sep) =~= joined(a, sep) + sep + joined(b, sep));
        }
    }
}

proof fn lemma_first_user(turns: Seq<TurnView>, i: int)
    requires
        0 <= i < turns.len(),
        turns[i].role == "user"@,
        forall|j: int| 0 <= j < i ==> (#[trigger] turns[j]).role != "user"@,
    ensures
        first_user_content(turns) == Some(turns[i].content),
{
    let head = turns.take(i);
    assert forall|j: int| 0 <= j < head.len() implies (#[trigger] head[j]).role != "user"@ by {
        assert(head[j] == turns[j]);
    }
    lemma_no_user(head);
    assert(turns.take(i + 1).drop_last() =~= head);
    lemma_first_user_stays(turns, i + 1);
}

proof fn lemma_no_user(turns: Seq<TurnView>)
    requires
        forall|j: int| 0 <= j < turns.len() ==> (#[trigger] turns[j]).role != "user"@,
    ensures
        first_user_content(turns) is None,
    decreases turns.len(),
{
    if turns.len() > 0 {
        let head = turns.drop_last();
        assert forall|j: int| 0 <= j < head.len() implies (#[trigger] head[j]).role != "user"@ by {
            assert(head[j] == turns[j]);
        }
        lemma_no_user(head);
        assert(turns[turns.len() - 1].role != "user"@);
    }
}

/// A chat without a message of the user, or whose first one is blank, gives no title.
pub proof fn law_no_title_without_a_message(turns: Seq<TurnView>)
    ensures
        (forall|j: int| 0 <= j < turns.len() ==> (#[trigger] turns[j]).role != "user"@)
            ==> derived_title(turns) is None,
        forall|i: int|
            0 <= i < turns.len() && (#[trigger] turns[i]).role == "user"@ && (forall|j: int|
                0 <= j < i ==> (#[trigger] turns[j]).role != "user"@) ==> (derived_title(
                turns,
            ) is None <==> trimmed(turns[i].content).len() == 0),
{
    if forall|j: int| 0 <= j < turns.len() ==> (#[trigger] turns[j]).role != "user"@ {
        lemma_no_user(turns);
    }
    assert forall|i: int|
        0 <= i < turns.len() && (#[trigger] turns[i]).role == "user"@ && (forall|j: int|
            0 <= j < i ==> (#[trigger] turns[j]).role != "user"@) implies (derived_title(
        turns,
    ) is None <==> trimmed(turns[i].content).len() == 0) by {
        lemma_first_user(turns, i);
        law_collapsed_content_keeps_ink(turns[i].content);
    }
}

/// The title of a chat whose first message of the user is one short line, without white space
/// around it, is that message itself.
pub proof fn law_short_message_is_the_title(turns: Seq<TurnView>, i: int)
    requires
        0 <= i < turns.len(),
        turns[i].role == "user"@,
        forall|j: int| 0 <= j < i ==> (#[trigger] turns[j]).role != "user"@,
        one_line(turns[i].content),
        tight(turns[i].content),
        0 < turns[i].content.len() <= 60,
    ensures
        derived_title(turns) == Some(turns[i].content),
{
    let content = turns[i].content;
    lemma_first_user(turns, i);
    lemma_trimmed_is(seq![], content, seq![]);
    assert(seq![] + content + seq![] =~= content);
    assert(white_space('\n') && white_space('\r'));
    law_collapsing_puts_lines_behind_each_other(content, seq![]);
}

/// The title comes from the first message of the user, and from nothing else: before it is cut it
/// holds all characters of that message other than white space, in their order. A long one is cut
/// after sixty characters, with three dots behind them.
pub proof fn law_title_holds_the_message(turns: Seq<TurnView>, i: int)
    requires
        0 <= i < turns.len(),
        turns[i].role == "user"@,
        forall|j: int| 0 <= j < i ==> (#[trigger] turns[j]).role != "user"@,
        trimmed(turns[i].content).len() > 0,
    ensures
        derived_title(turns) is Some,
        ink(collapsed(turns[i].content)) == ink(turns[i].content),
        collapsed(turns[i].content).len() <= 60 ==> {
            &&& derived_title(turns) == Some(collapsed(turns[i].content))
            &&& ink(derived_title(turns)->0) == ink(turns[i].content)
        },
        collapsed(turns[i].content).len() > 60 ==> derived_title(turns) == Some(
            collapsed(turns[i].content).take(60) + seq!['.', '.', '.'],
        ),
{
    lemma_first_user(turns, i);
    law_collapsed_content_keeps_ink(turns[i].content);
    reveal_strlit("...");
    assert("..."@ =~= seq!['.', '.', '.']);
}

/// Noting a change sets the moment and, where no title was set yet, the derived one. Nothing else
/// of the chat changes.
pub proof fn law_change_touches_only_moment_and_title(chat: ChatView, now: Timestamp)
    ensures
        touched(chat, now).id == chat.id,
        touched(chat, now).created_at == chat.created_at,
        touched(chat, now).model == chat.model,
        touched(chat, now).turns == chat.turns,
        touched(chat, now).updated_at == now,
        chat.title == "New chat"@ ==> (match derived_title(chat.turns) {
            Some(title) => touched(chat, now).title == title,
            None => touched(chat, now).title == chat.title,
        }),
        chat.title != "New chat"@ ==> touched(chat, now).title == chat.title,
{
}

/// The summaries of chats are those of the readable ones, each once and in their order, and each
/// says of its chat what the chat says itself.
pub proof fn law_every_readable_chat_is_listed(
    first: Seq<Option<StoredChat>>,
    second: Seq<Option<StoredChat>>,
    chat: StoredChat,
)
    ensures
        summaries(first + second) == summaries(first) + summaries(second),
        summaries(seq![None]) == Seq::<ChatSummaryView>::empty(),
        summaries(seq![Some(chat)]).len() == 1,
        summaries(seq![Some(chat)])[0].id == chat.id@,
        summaries(seq![Some(chat)])[0].title == chat.title@,
        summaries(seq![Some(chat)])[0].created_at == chat.created_at,
        summaries(seq![Some(chat)])[0].updated_at == chat.updated_at,
        summaries(seq![Some(chat)])[0].model == chat.model@,
    decreases second.len(),
{
    reveal_with_fuel(summaries, 2);
    assert(seq![Some(chat)].drop_last() =~= seq![]);
    assert(seq![None::<StoredChat>].drop_last() =~= seq![]);
    if second.len() == 0 {
        assert(first + second =~= first);
        assert(summaries(first) + summaries(second) =~= summaries(first));
    } else {
        law_every_readable_chat_is_listed(first, second.drop_last(), chat);
        assert((first + second).drop_last() =~= first + second.drop_last());
        assert(summaries(first + second) =~= summaries(first) + summaries(second));
    }
}

/// A new chat has the given name and model, no turns, and was made and changed at the same
/// moment.
pub proof fn law_new_chat_is_empty(id: Seq<char>, model: Seq<char>, now: Timestamp)
    ensures
        new_chat(id, model, now).id == id,
        new_chat(id, model, now).model == model,
        new_chat(id, model, now).title == "New chat"@,
        new_chat(id, model, now).created_at == now,
        new_chat(id, model, now).updated_at == now,
        new_chat(id, model, now).turns.len() == 0,
{
}

/// Chats with different names are kept in different files, and no two files of a chat are the
/// same.
pub proof fn law_chats_do_not_share_files(root: LocationView, first: Seq<char>, second: Seq<char>)
    requires
        first != second,
    ensures
        files_of(root, first).directory != files_of(root, second).directory,
        files_of(root, first).metadata != files_of(root, second).metadata,
        files_of(root, first).conversation != files_of(root, second).conversation,
        files_of(root, first).metadata != files_of(root, first).conversation,
{
    let a = root.child(first);
    let b = root.child(second);
    assert(a.tail.last() != b.tail.last());
    assert(a.child(CHAT_TOML@).tail.drop_last() =~= a.tail);
    assert(b.child(CHAT_TOML@).tail.drop_last() =~= b.tail);
    assert(a.child(CONVERSATION_MD@).tail.drop_last() =~= a.tail);
    assert(b.child(CONVERSATION_MD@).tail.drop_last() =~= b.tail);
    reveal_strlit("chat.toml");
    reveal_strlit("conversation.md");
    assert(a.child(CHAT_TOML@).tail.last() == CHAT_TOML@);
    assert(a.child(CONVERSATION_MD@).tail.last() == CONVERSATION_MD@);
}

/// The list of chats has every readable chat, and no other, and of two of them the one that was
/// changed later stands first; chats that were changed at the same moment stay in their order.
pub proof fn law_list_is_complete_and_newest_first(
    listed: Seq<ChatSummaryView>,
    loaded: Seq<Option<StoredChat>>,
    chat: ChatSummaryView,
)
    requires
        sorted_from(listed, summaries(loaded)),
    ensures
        listed.len() == summaries(loaded).len(),
        listed.contains(chat) <==> summaries(loaded).contains(chat),
        forall|i: int, j: int|
            0 <= i < listed.len() && 0 <= j < listed.len() && (
            #[trigger] listed[i]).updated_at.after((#[trigger] listed[j]).updated_at) ==> i < j,
        listed.filter(|c: ChatSummaryView| same_moment(c.updated_at, chat.updated_at)) == summaries(
            loaded,
        ).filter(|c: ChatSummaryView| same_moment(c.updated_at, chat.updated_at)),
{
    let given = summaries(loaded);
    listed.to_multiset_ensures();
    given.to_multiset_ensures();
    assert(listed.contains(chat) <==> listed.to_multiset().count(chat) > 0);
    assert(given.contains(chat) <==> given.to_multiset().count(chat) > 0);
    assert forall|i: int, j: int|
        0 <= i < listed.len() && 0 <= j < listed.len() && (#[trigger] listed[i]).updated_at.after(
            (#[trigger] listed[j]).updated_at,
        ) implies i < j by {
        law_one_of_two_moments_is_later(
            listed[i].updated_at,
            listed[j].updated_at,
            listed[i].updated_at,
        );
    }
    let secs = chat.updated_at.seconds();
    let nanos = chat.updated_at.nanoseconds();
    assert(changed_at(listed, secs, nanos) == changed_at(given, secs, nanos));
    assert((|c: ChatSummaryView|
        c.updated_at.seconds() == secs && c.updated_at.nanoseconds() == nanos) =~= (
    |c: ChatSummaryView| same_moment(c.updated_at, chat.updated_at)));
}

/// Whether neither of two moments is later.
pub open spec fn same_moment(a: Timestamp, b: Timestamp) -> bool {
    a.seconds() == b.seconds() && a.nanoseconds() == b.nanoseconds()
}

/// A chat is saved in the files that it is loaded from: both lie in the directory that has its
/// name, below the place of all chats.
pub proof fn law_chat_is_saved_where_it_is_loaded_from(root: LocationView, chat: ChatView)
    ensures
        save_of(root, chat).files == files_of(root, chat.id),
        files_of(root, chat.id).directory == (LocationView {
            anchor: root.anchor,
            tail: root.tail + seq![chat.id],
        }),
        files_of(root, chat.id).metadata == (LocationView {
            anchor: root.anchor,
            tail: root.tail + seq![chat.id, "chat.toml"@],
        }),
        files_of(root, chat.id).conversation == (LocationView {
            anchor: root.anchor,
            tail: root.tail + seq![chat.id, "conversation.md"@],
        }),
        save_of(root, chat).metadata.title == chat.title,
        save_of(root, chat).metadata.created_at == chat.created_at,
        save_of(root, chat).metadata.updated_at == chat.updated_at,
        save_of(root, chat).metadata.model == chat.model,
        save_of(root, chat).conversation == conversation_text(chat.title, chat.turns),
{
    assert(root.tail.push(chat.id) =~= root.tail + seq![chat.id]);
    assert(root.tail.push(chat.id).push("chat.toml"@) =~= root.tail + seq![
        chat.id,
        "chat.toml"@,
    ]);
    assert(root.tail.push(chat.id).push("conversation.md"@) =~= root.tail + seq![
        chat.id,
        "conversation.md"@,
    ]);
}

/// A loaded chat says what its files say, under the name of its directory; without a file of the
/// conversation it has no turns.
pub proof fn law_loaded_chat_says_what_its_files_say(
    id: Seq<char>,
    metadata: MetadataView,
    raw: Seq<char>,
)
    ensures
        ({
            let chat = chat_from_parts(id, metadata, Some(raw));
            &&& chat.id == id
            &&& chat.title == metadata.title
            &&& chat.created_at == metadata.created_at
            &&& chat.updated_at == metadata.updated_at
            &&& chat.model == metadata.model
            &&& chat.turns == conversation_in(raw)
            &&& chat_from_parts(id, metadata, None) == (ChatView { turns: seq![], ..chat })
        }),
{
}

/// The name of a chat is the moment at which it was made and, behind a line, eight digits.
pub proof fn law_name_tells_the_moment(now: Timestamp, suffix: u32)
    ensures
        ({
            let moment = now.text("%Y-%m-%d_%H-%M-%S"@);
            let name = chat_id(now, suffix);
            &&& name.len() == moment.len() + 9
            &&& name.take(moment.len() as int) == moment
            &&& name[moment.len() as int] == '_'
            &&& name.skip(moment.len() as int + 1) == hex_digits(suffix as int, 8)
        }),
{
    reveal_strlit("_");
    law_hex_digits_fill_their_places(suffix as int, 8);
    let moment = now.text("%Y-%m-%d_%H-%M-%S"@);
    let name = chat_id(now, suffix);
    assert(name.take(moment.len() as int) =~= moment);
    assert(name.skip(moment.len() as int + 1) =~= hex_digits(suffix as int, 8));
}

} // verus!
