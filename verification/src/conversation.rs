//! Conversations as text that people can read and the program can read back.

use vstd::prelude::*;
use vstd::string::*;

use crate::lines::{
    lemma_joined_pieces, lemma_lines_add, lemma_lines_are_pieces, lemma_lines_hold_no_feed,
    lemma_lines_joined, lemma_lines_single, lemma_trim_parts, lemma_trimmed_is, lemma_trimmed_unix,
    lemma_trimmed_without_cr, lemma_trimming_brings_no_line, one_line, tight, unix_text,
};
use crate::openai::{turn_views, ChatTurn, TurnView};
use crate::text::{
    join, joined, lemma_texts_push, line_seq, lines, same_text, split_at_each, texts, trim,
    trim_end, trimmed, trimmed_end, white_space, without_cr,
};
use crate::wrap::{ink, lemma_ink_add, lemma_ink_of_blank, lemma_ink_one};

verus! {

pub const MESSAGE_END_MARKER: &'static str = "<!-- /message -->";

pub const USER_MARKER: &'static str = "<!-- role: user -->";

pub const ASSISTANT_MARKER: &'static str = "<!-- role: assistant -->";

/// The role that a line announces, if it does; white space around it does not count.
pub open spec fn role_in(line: Seq<char>) -> Option<Seq<char>> {
    if trimmed(line) == USER_MARKER@ {
        Some("user"@)
    } else if trimmed(line) == ASSISTANT_MARKER@ {
        Some("assistant"@)
    } else {
        None
    }
}

/// The role that a line announces.
pub fn parse_role_marker(line: &str) -> (r: Option<&'static str>)
    ensures
        (match r {
            Some(role) => Some(role@),
            None => None,
        }) == role_in(line@),
{
    let bare = trim(line);
    if same_text(bare, USER_MARKER) {
        Some("user")
    } else if same_text(bare, ASSISTANT_MARKER) {
        Some("assistant")
    } else {
        None
    }
}

/// Whether a line ends a message.
pub open spec fn ends_message(line: Seq<char>) -> bool {
    trimmed(line) == MESSAGE_END_MARKER@
}

/// What has been read of a conversation: the turns that are complete, and the role and the lines
/// of the one that is not.
#[verifier::ext_equal]
pub struct ReadingView {
    pub turns: Seq<TurnView>,
    pub role: Option<Seq<char>>,
    pub buffer: Seq<Seq<char>>,
}

/// The turns once the message under way has ended: an empty message does not count.
pub open spec fn with_message(reading: ReadingView) -> Seq<TurnView> {
    let content = trimmed(joined(reading.buffer, "\n"@));
    match reading.role {
        Some(role) => if content.len() > 0 {
            reading.turns.push(TurnView { role, content })
        } else {
            reading.turns
        },
        None => reading.turns,
    }
}

/// What has been read after one more line. A role starts a message anew; lines outside of a
/// message do not count.
pub open spec fn after_line(reading: ReadingView, line: Seq<char>) -> ReadingView {
    if role_in(line) is Some {
        ReadingView { role: role_in(line), buffer: seq![], ..reading }
    } else if ends_message(line) {
        ReadingView { turns: with_message(reading), role: None, buffer: seq![] }
    } else if reading.role is Some {
        ReadingView { buffer: reading.buffer.push(line), ..reading }
    } else {
        reading
    }
}

/// What has been read after more lines.
pub open spec fn after_lines(reading: ReadingView, lines: Seq<Seq<char>>) -> ReadingView
    decreases lines.len(),
{
    if lines.len() == 0 {
        reading
    } else {
        after_line(after_lines(reading, lines.drop_last()), lines.last())
    }
}

/// The state before the first line.
pub open spec fn nothing_read() -> ReadingView {
    ReadingView { turns: seq![], role: None, buffer: seq![] }
}

/// The turns in a text.
pub open spec fn conversation_in(raw: Seq<char>) -> Seq<TurnView> {
    after_lines(nothing_read(), line_seq(raw)).turns
}

/// The turns in a text.
pub fn parse_conversation_markdown(raw: &str) -> (r: Vec<ChatTurn>)
    ensures
        turn_views(r@) == conversation_in(raw@),
{
    let all = lines(raw);
    let ghost seen = texts(all@);
    let mut turns: Vec<ChatTurn> = Vec::new();
    let mut current: Option<&'static str> = None;
    let mut buffer: Vec<String> = Vec::new();
    let mut i: usize = 0;
    assert(turn_views(turns@) =~= seq![]);
    assert(texts(buffer@) =~= seq![]);
    while i < all.len()
        invariant
            i <= all@.len(),
            seen == texts(all@),
            after_lines(nothing_read(), seen.take(i as int)) == (ReadingView {
                turns: turn_views(turns@),
                role: match current {
                    Some(role) => Some(role@),
                    None => None,
                },
                buffer: texts(buffer@),
            }),
        decreases all@.len() - i,
    {
        assert(seen.take(i + 1).drop_last() =~= seen.take(i as int));
        assert(seen.take(i + 1).last() == seen[i as int]);
        let line = all[i].as_str();
        i += 1;
        if let Some(role) = parse_role_marker(line) {
            current = Some(role);
            buffer = Vec::new();
            assert(texts(buffer@) =~= seq![]);
            continue;
        }
        if same_text(trim(line), MESSAGE_END_MARKER) {
            if let Some(role) = current {
                let text = join(&buffer, "\n");
                let content = trim(text.as_str());
                if !content.is_empty() {
                    let turn = ChatTurn { role: role.to_string(), content: content.to_string() };
                    assert(turn_views(turns@.push(turn)) =~= turn_views(turns@).push(turn@));
                    turns.push(turn);
                }
            }
            current = None;
            buffer = Vec::new();
            assert(texts(buffer@) =~= seq![]);
            continue;
        }
        if current.is_some() {
            let copy = line.to_string();
            proof {
                lemma_texts_push(buffer@, copy);
            }
            buffer.push(copy);
        }
    }
    assert(seen.take(i as int) =~= seen);
    turns
}

/// The line that announces a role: everyone but the assistant counts as the user.
pub open spec fn role_line(role: Seq<char>) -> Seq<char> {
    if role == "assistant"@ {
        ASSISTANT_MARKER@
    } else {
        USER_MARKER@
    }
}

/// One turn as text: its role, its content without the white space at the end, the end mark, and
/// an empty line.
pub open spec fn turn_text(turn: TurnView) -> Seq<char> {
    role_line(turn.role) + "\n"@ + trimmed_end(turn.content) + "\n"@ + MESSAGE_END_MARKER@
        + "\n\n"@
}

/// Turns as text.
pub open spec fn turns_text(turns: Seq<TurnView>) -> Seq<char>
    decreases turns.len(),
{
    if turns.len() == 0 {
        seq![]
    } else {
        turns_text(turns.drop_last()) + turn_text(turns.last())
    }
}

/// The title as text.
pub open spec fn title_text(title: Seq<char>) -> Seq<char> {
    "# "@ + title + "\n\n"@
}

/// A conversation as text.
pub open spec fn conversation_text(title: Seq<char>, turns: Seq<TurnView>) -> Seq<char> {
    title_text(title) + turns_text(turns)
}

/// A conversation as text.
pub fn render_conversation_markdown(title: &str, turns: &Vec<ChatTurn>) -> (r: String)
    ensures
        r@ == conversation_text(title@, turn_views(turns@)),
{
    let mut output = "# ".to_string();
    output.append(title);
    output.append("\n\n");
    let ghost views = turn_views(turns@);
    let mut i: usize = 0;
    assert(views.take(0) =~= seq![]);
    assert(output@ =~= conversation_text(title@, views.take(0)));
    while i < turns.len()
        invariant
            i <= turns@.len(),
            views == turn_views(turns@),
            output@ == conversation_text(title@, views.take(i as int)),
        decreases turns@.len() - i,
    {
        let ghost before = output@;
        assert(views.take(i + 1).drop_last() =~= views.take(i as int));
        assert(views.take(i + 1).last() == turns@[i as int]@);
        let turn = &turns[i];
        if same_text(turn.role.as_str(), "assistant") {
            output.append(ASSISTANT_MARKER);
        } else {
            output.append(USER_MARKER);
        }
        output.append("\n");
        output.append(trim_end(turn.content.as_str()));
        output.append("\n");
        output.append(MESSAGE_END_MARKER);
        output.append("\n\n");
        assert(output@ =~= before + turn_text(turns@[i as int]@));
        assert(output@ =~= conversation_text(title@, views.take(i + 1)));
        i += 1;
    }
    assert(views.take(i as int) =~= views);
    output
}

proof fn lemma_after_lines_add(reading: ReadingView, a: Seq<Seq<char>>, b: Seq<Seq<char>>)
    ensures
        after_lines(reading, a + b) == after_lines(after_lines(reading, a), b),
    decreases b.len(),
{
    if b.len() == 0 {
        assert(a + b =~= a);
    } else {
        assert((a + b).drop_last() =~= a + b.drop_last());
        lemma_after_lines_add(reading, a, b.drop_last());
    }
}

/// What is written for a turn, apart from its role and the marks.
pub open spec fn content_lines(content: Seq<char>) -> Seq<Seq<char>> {
    line_seq(trimmed_end(content) + "\n"@)
}

/// Whether no line that is written for a content would be taken for a mark.
pub open spec fn free_of_marks(content: Seq<char>) -> bool {
    forall|i: int|
        0 <= i < content_lines(content).len() ==> role_in(#[trigger] content_lines(content)[i])
            is None && !ends_message(content_lines(content)[i])
}

/// The role as it is read back.
pub open spec fn kept_role(role: Seq<char>) -> Seq<char> {
    if role == "assistant"@ {
        "assistant"@
    } else {
        "user"@
    }
}

/// The content as it is read back: without white space around it, its lines ended by line feeds.
pub open spec fn kept_content(content: Seq<char>) -> Seq<char> {
    unix_text(trimmed(content))
}

/// Turns as they are read back; those without content are gone.
pub open spec fn kept_turns(turns: Seq<TurnView>) -> Seq<TurnView>
    decreases turns.len(),
{
    if turns.len() == 0 {
        seq![]
    } else {
        let before = kept_turns(turns.drop_last());
        let turn = turns.last();
        if trimmed(turn.content).len() == 0 {
            before
        } else {
            before.push(
                TurnView { role: kept_role(turn.role), content: kept_content(turn.content) },
            )
        }
    }
}

proof fn lemma_marks()
    ensures
        forall|role: Seq<char>|
            {
                &&& one_line(#[trigger] role_line(role))
                &&& without_cr(role_line(role)) == role_line(role)
                &&& role_in(role_line(role)) == Some(kept_role(role))
            },
        one_line(MESSAGE_END_MARKER@),
        without_cr(MESSAGE_END_MARKER@) == MESSAGE_END_MARKER@,
        role_in(MESSAGE_END_MARKER@) is None,
        ends_message(MESSAGE_END_MARKER@),
        role_in(seq![]) is None,
        !ends_message(seq![]),
{
    reveal_strlit("<!-- /message -->");
    reveal_strlit("<!-- role: user -->");
    reveal_strlit("<!-- role: assistant -->");
    let e = Seq::<char>::empty();
    lemma_trimmed_is(e, USER_MARKER@, e);
    assert(e + USER_MARKER@ + e =~= USER_MARKER@);
    lemma_trimmed_is(e, ASSISTANT_MARKER@, e);
    assert(e + ASSISTANT_MARKER@ + e =~= ASSISTANT_MARKER@);
    lemma_trimmed_is(e, MESSAGE_END_MARKER@, e);
    assert(e + MESSAGE_END_MARKER@ + e =~= MESSAGE_END_MARKER@);
    assert(USER_MARKER@.len() == 19);
    assert(ASSISTANT_MARKER@.len() == 24);
    assert(MESSAGE_END_MARKER@.len() == 17);
    assert(trimmed(e).len() == 0);
}

/// The lines of a turn's text.
proof fn lemma_turn_lines(turn: TurnView)
    ensures
        line_seq(turn_text(turn)) == seq![role_line(turn.role)] + content_lines(turn.content)
            + seq![MESSAGE_END_MARKER@, seq![]],
{
    reveal_strlit("\n");
    reveal_strlit("\n\n");
    lemma_marks();
    let nl = seq!['\n'];
    let e = Seq::<char>::empty();
    let role = role_line(turn.role);
    let c = trimmed_end(turn.content);
    assert("\n"@ =~= nl);
    assert("\n\n"@ =~= nl + nl);
    assert(turn_text(turn) =~= role + nl + (c + nl + (MESSAGE_END_MARKER@ + nl + (e + nl + e))));
    lemma_lines_add(role, c + nl + (MESSAGE_END_MARKER@ + nl + (e + nl + e)));
    lemma_lines_single(role);
    lemma_lines_add(c, MESSAGE_END_MARKER@ + nl + (e + nl + e));
    lemma_lines_add(MESSAGE_END_MARKER@, e + nl + e);
    lemma_lines_single(MESSAGE_END_MARKER@);
    lemma_lines_single(e);
    assert(e + nl + e =~= e + nl);
    assert(line_seq(e + nl) =~= seq![e]);
    assert(line_seq(turn_text(turn)) =~= seq![role] + content_lines(turn.content)
        + seq![MESSAGE_END_MARKER@, seq![]]);
}

/// Inside of a message, lines that are no marks are gathered.
proof fn lemma_gather(reading: ReadingView, lines: Seq<Seq<char>>)
    requires
        reading.role is Some,
        forall|i: int|
            0 <= i < lines.len() ==> role_in(#[trigger] lines[i]) is None && !ends_message(
                lines[i],
            ),
    ensures
        after_lines(reading, lines) == (ReadingView { buffer: reading.buffer + lines, ..reading }),
    decreases lines.len(),
{
    if lines.len() == 0 {
        assert(reading.buffer + lines =~= reading.buffer);
    } else {
        let head = lines.drop_last();
        assert forall|i: int| 0 <= i < head.len() implies role_in(#[trigger] head[i]) is None
            && !ends_message(head[i]) by {
            assert(head[i] == lines[i]);
        }
        lemma_gather(reading, head);
        assert(role_in(lines[lines.len() - 1]) is None);
        assert((reading.buffer + head).push(lines.last()) =~= reading.buffer + lines);
    }
}

/// One turn, read back.
proof fn lemma_read_turn(reading: ReadingView, turn: TurnView)
    requires
        free_of_marks(turn.content),
    ensures
        after_lines(reading, line_seq(turn_text(turn))).turns == if trimmed(turn.content).len()
            == 0 {
            reading.turns
        } else {
            reading.turns.push(
                TurnView { role: kept_role(turn.role), content: kept_content(turn.content) },
            )
        },
{
    reveal_strlit("\n");
    lemma_marks();
    lemma_turn_lines(turn);
    let role = seq![role_line(turn.role)];
    let content = content_lines(turn.content);
    let end = seq![MESSAGE_END_MARKER@, seq![]];
    lemma_after_lines_add(reading, role + content, end);
    lemma_after_lines_add(reading, role, content);
    assert(role.drop_last() =~= seq![]);
    let opened = after_lines(reading, role);
    assert(after_lines(reading, role.drop_last()) == reading);
    assert(opened == after_line(reading, role_line(turn.role)));
    lemma_gather(opened, content);
    assert(seq![] + content =~= content);
    let gathered = after_lines(opened, content);
    assert(gathered.buffer == content);
    assert(end.drop_last() =~= seq![MESSAGE_END_MARKER@]);
    assert(end.drop_last().drop_last() =~= seq![]);
    assert(after_lines(gathered, end.drop_last().drop_last()) == gathered);
    assert(after_lines(gathered, end.drop_last()) == after_line(gathered, MESSAGE_END_MARKER@));
    assert("\n"@ =~= seq!['\n']);
    lemma_trimmed_unix(turn.content);
    lemma_lines_joined(trimmed_end(turn.content));
}

/// The text of turns, read after other lines.
proof fn lemma_read_turns(title: Seq<char>, turns: Seq<TurnView>)
    requires
        conversation_in(title_text(title)) == Seq::<TurnView>::empty(),
        forall|i: int| 0 <= i < turns.len() ==> free_of_marks((#[trigger] turns[i]).content),
    ensures
        conversation_in(conversation_text(title, turns)) == kept_turns(turns),
    decreases turns.len(),
{
    let head = title_text(title);
    if turns.len() == 0 {
        assert(conversation_text(title, turns) =~= head);
    } else {
        let before = turns.drop_last();
        assert forall|i: int| 0 <= i < before.len() implies free_of_marks(
            (#[trigger] before[i]).content,
        ) by {
            assert(before[i] == turns[i]);
        }
        lemma_read_turns(title, before);
        let text = conversation_text(title, before);
        lemma_ends_line(title, before);
        let body = text.drop_last();
        assert(text =~= body + seq!['\n']);
        let last = turns[turns.len() - 1];
        assert(conversation_text(title, turns) =~= text + turn_text(last));
        lemma_lines_add(body, turn_text(last));
        lemma_after_lines_add(nothing_read(), line_seq(text), line_seq(turn_text(last)));
        lemma_read_turn(after_lines(nothing_read(), line_seq(text)), last);
    }
}

/// The text of a conversation ends its last line.
proof fn lemma_ends_line(title: Seq<char>, turns: Seq<TurnView>)
    ensures
        conversation_text(title, turns).len() > 0,
        conversation_text(title, turns).last() == '\n',
{
    reveal_strlit("\n\n");
    if turns.len() == 0 {
        assert(conversation_text(title, turns) =~= title_text(title));
    } else {
        assert(conversation_text(title, turns).last() == turn_text(turns.last()).last());
    }
}

/// A conversation that was written is read back: every turn with content, in order, with the role
/// of the assistant or the user, and with its content without the white space around it and with
/// plain line feeds. The title must not read as turns by itself, and no line of a content may
/// be a mark.
pub proof fn law_written_conversation_is_read_back(title: Seq<char>, turns: Seq<TurnView>)
    requires
        conversation_in(title_text(title)) == Seq::<TurnView>::empty(),
        forall|i: int| 0 <= i < turns.len() ==> free_of_marks((#[trigger] turns[i]).content),
    ensures
        conversation_in(conversation_text(title, turns)) == kept_turns(turns),
{
    lemma_read_turns(title, turns);
}

/// A title on one line does not read as turns.
pub proof fn law_one_line_title_reads_as_nothing(title: Seq<char>)
    requires
        one_line(title),
    ensures
        conversation_in(title_text(title)) == Seq::<TurnView>::empty(),
{
    reveal_strlit("# ");
    reveal_strlit("\n\n");
    lemma_marks();
    let nl = seq!['\n'];
    let e = Seq::<char>::empty();
    let line = "# "@ + title;
    assert forall|i: int| 0 <= i < line.len() implies #[trigger] line[i] != '\n' by {
        if i >= 2 {
            assert(line[i] == title[i - 2]);
        }
    }
    assert(title_text(title) =~= line + nl + (e + nl));
    lemma_lines_add(line, e + nl);
    lemma_lines_single(line);
    lemma_lines_single(e);
    let all = line_seq(title_text(title));
    assert(all =~= seq![without_cr(line), e]);
    assert(all.drop_last() =~= seq![without_cr(line)]);
    assert(all.drop_last().drop_last() =~= seq![]);
    assert(after_lines(nothing_read(), all.drop_last().drop_last()) == nothing_read());
    let first = after_lines(nothing_read(), all.drop_last());
    assert(first == after_line(nothing_read(), without_cr(line)));
    assert(first.turns =~= seq![]);
    assert(after_lines(nothing_read(), all) == after_line(first, e));
}

/// Whether a turn is as it is read: its role is known, and its content has no white space around
/// it and no mark in it.
pub open spec fn read_turn(turn: TurnView) -> bool {
    &&& turn.role == "user"@ || turn.role == "assistant"@
    &&& turn.content.len() > 0
    &&& tight(turn.content)
    &&& free_of_marks(turn.content)
}

/// Whether a turn is read back as it is: it is as turns are read, and its content has no carriage
/// return before a line feed.
pub open spec fn plain_turn(turn: TurnView) -> bool {
    read_turn(turn) && unix_text(turn.content) == turn.content
}

/// A conversation of plain turns is read back as it was, under a title that does not read as turns
/// by itself.
pub proof fn law_plain_conversation_is_read_back_unchanged(title: Seq<char>, turns: Seq<TurnView>)
    requires
        conversation_in(title_text(title)) == Seq::<TurnView>::empty(),
        forall|i: int| 0 <= i < turns.len() ==> plain_turn(#[trigger] turns[i]),
    ensures
        conversation_in(conversation_text(title, turns)) == turns,
{
    assert forall|i: int| 0 <= i < turns.len() implies free_of_marks(
        (#[trigger] turns[i]).content,
    ) by {
        assert(plain_turn(turns[i]));
    }
    lemma_read_turns(title, turns);
    lemma_plain_turns_are_kept(turns);
}

proof fn lemma_plain_turns_are_kept(turns: Seq<TurnView>)
    requires
        forall|i: int| 0 <= i < turns.len() ==> plain_turn(#[trigger] turns[i]),
    ensures
        kept_turns(turns) == turns,
    decreases turns.len(),
{
    if turns.len() > 0 {
        let before = turns.drop_last();
        assert forall|i: int| 0 <= i < before.len() implies plain_turn(#[trigger] before[i]) by {
            assert(before[i] == turns[i]);
        }
        lemma_plain_turns_are_kept(before);
        let last = turns[turns.len() - 1];
        assert(plain_turn(last));
        let e = Seq::<char>::empty();
        lemma_trimmed_is(e, last.content, e);
        assert(e + last.content + e =~= last.content);
        assert(before.push(last) =~= turns);
    } else {
        assert(kept_turns(turns) =~= turns);
    }
}

/// What holds of everything that has been read so far.
spec fn read_well(reading: ReadingView) -> bool {
    &&& forall|i: int| 0 <= i < reading.turns.len() ==> read_turn(#[trigger] reading.turns[i])
    &&& reading.role matches Some(role) ==> role == "user"@ || role == "assistant"@
    &&& forall|i: int|
        0 <= i < reading.buffer.len() ==> {
            &&& one_line(#[trigger] reading.buffer[i])
            &&& role_in(reading.buffer[i]) is None
            &&& !ends_message(reading.buffer[i])
        }
}

/// A content made of lines without marks has no mark.
proof fn lemma_gathered_content(buffer: Seq<Seq<char>>)
    requires
        forall|i: int|
            0 <= i < buffer.len() ==> {
                &&& one_line(#[trigger] buffer[i])
                &&& role_in(buffer[i]) is None
                &&& !ends_message(buffer[i])
            },
    ensures
        ({
            let content = trimmed(joined(buffer, "\n"@));
            content.len() > 0 ==> tight(content) && free_of_marks(content)
        }),
{
    reveal_strlit("\n");
    assert("\n"@ =~= seq!['\n']);
    let all = joined(buffer, "\n"@);
    let content = trimmed(all);
    if content.len() > 0 {
        if buffer.len() == 0 {
            assert(all =~= seq![]);
            assert(trimmed(all).len() == 0);
        }
        let (lead, trail) = lemma_trim_parts(all);
        let e = Seq::<char>::empty();
        lemma_trimmed_is(e, content, e);
        assert(e + content + e =~= content);
        assert(trimmed_end(content) =~= content);
        lemma_joined_pieces(buffer);
        lemma_trimming_brings_no_line(all, USER_MARKER@);
        lemma_trimming_brings_no_line(all, ASSISTANT_MARKER@);
        lemma_trimming_brings_no_line(all, MESSAGE_END_MARKER@);
        lemma_lines_are_pieces(content);
        assert forall|i: int| 0 <= i < content_lines(content).len() implies role_in(
            #[trigger] content_lines(content)[i],
        ) is None && !ends_message(content_lines(content)[i]) by {
            let piece = split_at_each(content, '\n')[i];
            lemma_trimmed_without_cr(piece);
            assert(line_seq(content + seq!['\n'])[i] == without_cr(piece));
            assert(trimmed(piece) != USER_MARKER@);
        }
    }
}

proof fn lemma_reading_stays_well(reading: ReadingView, lines: Seq<Seq<char>>)
    requires
        read_well(reading),
        forall|i: int| 0 <= i < lines.len() ==> one_line(#[trigger] lines[i]),
    ensures
        read_well(after_lines(reading, lines)),
    decreases lines.len(),
{
    if lines.len() > 0 {
        let head = lines.drop_last();
        assert forall|i: int| 0 <= i < head.len() implies one_line(#[trigger] head[i]) by {
            assert(head[i] == lines[i]);
        }
        lemma_reading_stays_well(reading, head);
        let before = after_lines(reading, head);
        let line = lines[lines.len() - 1];
        assert(one_line(line));
        lemma_gathered_content(before.buffer);
        let after = after_line(before, line);
        assert forall|i: int| 0 <= i < after.turns.len() implies read_turn(
            #[trigger] after.turns[i],
        ) by {
            if i < before.turns.len() {
                assert(after.turns[i] == before.turns[i]);
            }
        }
        assert forall|i: int| 0 <= i < after.buffer.len() implies {
            &&& one_line(#[trigger] after.buffer[i])
            &&& role_in(after.buffer[i]) is None
            &&& !ends_message(after.buffer[i])
        } by {
            if i < before.buffer.len() {
                assert(after.buffer[i] == before.buffer[i]);
            }
        }
    }
}

/// Whatever text a conversation is read from, its turns have known roles, and contents without
/// white space around them and without marks.
pub proof fn law_read_turns_are_clean(raw: Seq<char>)
    ensures
        forall|i: int|
            0 <= i < conversation_in(raw).len() ==> read_turn(#[trigger] conversation_in(raw)[i]),
{
    lemma_lines_hold_no_feed(raw);
    lemma_reading_stays_well(nothing_read(), line_seq(raw));
}

/// A conversation that was read can be written and read again as often as one likes: it stays
/// the same. The title must not read as turns by itself, and no content may hold a carriage return
/// before a line feed, which is written as a line end.
pub proof fn law_read_conversation_is_read_back(raw: Seq<char>, title: Seq<char>)
    requires
        conversation_in(title_text(title)) == Seq::<TurnView>::empty(),
        forall|i: int|
            0 <= i < conversation_in(raw).len() ==> unix_text(
                (#[trigger] conversation_in(raw)[i]).content,
            ) == conversation_in(raw)[i].content,
    ensures
        conversation_in(conversation_text(title, conversation_in(raw))) == conversation_in(raw),
{
    law_read_turns_are_clean(raw);
    let turns = conversation_in(raw);
    assert forall|i: int| 0 <= i < turns.len() implies plain_turn(#[trigger] turns[i]) by {
        assert(read_turn(turns[i]));
    }
    law_plain_conversation_is_read_back_unchanged(title, turns);
}

/// A message is what stands between the line that announces its role and the line that ends it,
/// without the white space around it; a blank one is none. What was open before it is given up.
pub proof fn law_message_stands_between_its_marks(
    reading: ReadingView,
    mark: Seq<char>,
    content: Seq<Seq<char>>,
    end: Seq<char>,
)
    requires
        trimmed(mark) == "<!-- role: user -->"@ || trimmed(mark) == "<!-- role: assistant -->"@,
        trimmed(end) == "<!-- /message -->"@,
        forall|i: int|
            0 <= i < content.len() ==> {
                &&& trimmed(#[trigger] content[i]) != "<!-- role: user -->"@
                &&& trimmed(content[i]) != "<!-- role: assistant -->"@
                &&& trimmed(content[i]) != "<!-- /message -->"@
            },
    ensures
        ({
            let after = after_lines(reading, seq![mark] + content + seq![end]);
            let text = trimmed(joined(content, "\n"@));
            let role = if trimmed(mark) == "<!-- role: user -->"@ {
                "user"@
            } else {
                "assistant"@
            };
            &&& text.len() > 0 ==> after.turns == reading.turns.push(
                TurnView { role, content: text },
            )
            &&& text.len() == 0 ==> after.turns == reading.turns
            &&& after.role is None
        }),
{
    reveal_strlit("<!-- role: user -->");
    reveal_strlit("<!-- role: assistant -->");
    reveal_strlit("<!-- /message -->");
    assert("<!-- role: user -->"@.len() != "<!-- role: assistant -->"@.len());
    assert("<!-- role: user -->"@.len() != "<!-- /message -->"@.len());
    assert("<!-- role: assistant -->"@.len() != "<!-- /message -->"@.len());
    let opening = seq![mark];
    assert(opening.drop_last() =~= seq![]);
    reveal_with_fuel(after_lines, 2);
    let opened = after_lines(reading, opening);
    assert(opened == after_line(reading, mark));
    lemma_after_lines_add(reading, opening, content);
    assert forall|i: int| 0 <= i < content.len() implies role_in(#[trigger] content[i]) is None
        && !ends_message(content[i]) by {
        assert(trimmed(content[i]) != USER_MARKER@);
    }
    lemma_gather(opened, content);
    let all = opening + content + seq![end];
    assert(all.drop_last() =~= opening + content);
    assert(all.last() == end);
    assert(opened.buffer + content =~= content);
}

/// Lines outside of messages do not count.
pub proof fn law_lines_outside_of_messages_are_ignored(
    reading: ReadingView,
    lines: Seq<Seq<char>>,
)
    requires
        reading.role is None,
        reading.buffer.len() == 0,
        forall|i: int|
            0 <= i < lines.len() ==> {
                &&& trimmed(#[trigger] lines[i]) != "<!-- role: user -->"@
                &&& trimmed(lines[i]) != "<!-- role: assistant -->"@
            },
    ensures
        after_lines(reading, lines) == reading,
    decreases lines.len(),
{
    if lines.len() > 0 {
        let head = lines.drop_last();
        assert forall|i: int| 0 <= i < head.len() implies {
            &&& trimmed(#[trigger] head[i]) != "<!-- role: user -->"@
            &&& trimmed(head[i]) != "<!-- role: assistant -->"@
        } by {
            assert(head[i] == lines[i]);
        }
        law_lines_outside_of_messages_are_ignored(reading, head);
        let line = lines[lines.len() - 1];
        assert(trimmed(line) != "<!-- role: user -->"@);
        assert(after_line(reading, line) =~= reading);
    }
}

/// A message that nothing ends is no turn: it counts from the line that ends it.
pub proof fn law_unfinished_message_does_not_count(reading: ReadingView, lines: Seq<Seq<char>>)
    requires
        forall|i: int|
            0 <= i < lines.len() ==> trimmed(#[trigger] lines[i]) != "<!-- /message -->"@,
    ensures
        after_lines(reading, lines).turns == reading.turns,
    decreases lines.len(),
{
    if lines.len() > 0 {
        let head = lines.drop_last();
        assert forall|i: int| 0 <= i < head.len() implies trimmed(#[trigger] head[i])
            != "<!-- /message -->"@ by {
            assert(head[i] == lines[i]);
        }
        law_unfinished_message_does_not_count(reading, head);
        assert(trimmed(lines[lines.len() - 1]) != "<!-- /message -->"@);
    }
}

proof fn lemma_ink_unix(s: Seq<char>)
    ensures
        ink(unix_text(s)) == ink(s),
    decreases s.len(),
{
    if s.len() > 0 {
        let first = seq![s[0]];
        let rest = s.skip(1);
        lemma_ink_unix(rest);
        assert(s =~= first + rest);
        lemma_ink_add(first, rest);
        lemma_ink_add(first, unix_text(rest));
        if s.len() > 1 && s[0] == '\r' && s[1] == '\n' {
            lemma_ink_one('\r');
            assert(white_space('\r'));
            assert(Seq::<char>::empty() + ink(rest) =~= ink(rest));
        }
    }
}

/// What a file keeps of turns: every one that is not blank, in its order, and of it all
/// characters other than white space, in their order. A turn of the assistant stays one, any
/// other is one of the user.
pub proof fn law_file_keeps_every_turn(
    first: Seq<TurnView>,
    second: Seq<TurnView>,
    turn: TurnView,
)
    ensures
        kept_turns(first + second) == kept_turns(first) + kept_turns(second),
        trimmed(turn.content).len() == 0 ==> kept_turns(seq![turn]).len() == 0,
        trimmed(turn.content).len() > 0 ==> {
            let kept = kept_turns(seq![turn]);
            &&& kept.len() == 1
            &&& ink(kept[0].content) == ink(turn.content)
            &&& turn.role == "assistant"@ ==> kept[0].role == "assistant"@
            &&& turn.role != "assistant"@ ==> kept[0].role == "user"@
            &&& unix_text(turn.content) == turn.content && tight(turn.content) ==> kept[0].content
                == turn.content
        },
    decreases second.len(),
{
    reveal_with_fuel(kept_turns, 2);
    assert(seq![turn].drop_last() =~= seq![]);
    lemma_ink_unix(trimmed(turn.content));
    lemma_ink_of_blank(turn.content);
    if tight(turn.content) {
        let e = Seq::<char>::empty();
        lemma_trimmed_is(e, turn.content, e);
        assert(e + turn.content + e =~= turn.content);
    }
    if second.len() == 0 {
        assert(first + second =~= first);
        assert(kept_turns(first) + kept_turns(second) =~= kept_turns(first));
    } else {
        law_file_keeps_every_turn(first, second.drop_last(), turn);
        assert((first + second).drop_last() =~= first + second.drop_last());
        assert(kept_turns(first + second) =~= kept_turns(first) + kept_turns(second));
    }
}

/// A file starts with the title, and each turn adds its mark, its content and the line that ends
/// it, with an empty line behind.
pub proof fn law_file_holds_title_and_turns(
    title: Seq<char>,
    turns: Seq<TurnView>,
    turn: TurnView,
)
    ensures
        conversation_text(title, seq![]) == "# "@ + title + "\n\n"@,
        conversation_text(title, turns.push(turn)) == conversation_text(title, turns) + (
        if turn.role == "assistant"@ {
            "<!-- role: assistant -->"@
        } else {
            "<!-- role: user -->"@
        }) + "\n"@ + trimmed_end(turn.content) + "\n"@ + "<!-- /message -->"@ + "\n\n"@,
{
    assert(turns.push(turn).drop_last() =~= turns);
    assert(conversation_text(title, seq![]) =~= title_text(title));
    let mark = if turn.role == "assistant"@ {
        "<!-- role: assistant -->"@
    } else {
        "<!-- role: user -->"@
    };
    assert(conversation_text(title, turns.push(turn)) =~= conversation_text(title, turns) + mark
        + "\n"@ + trimmed_end(turn.content) + "\n"@ + "<!-- /message -->"@ + "\n\n"@);
}

} // verus!
