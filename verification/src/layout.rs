//! Sizes and positions on the chat screen.

use vstd::prelude::*;
use vstd::string::*;

use crate::lines::{lemma_lines_of_two, lemma_trim_parts, one_line};
use crate::text::{joined, line_seq, lines, texts, trim, trimmed, word_len, word_seq};
use crate::wrap::{
    ink, ink_all, law_lines_are_wrapped_on_their_own, law_wrapped_lines_are_full,
    law_wrapped_text_keeps_words, lemma_ink_add, lemma_ink_all_one, lemma_ink_empty,
    lemma_ink_lines, lemma_ink_of_blank, lemma_ink_wrapped_all, lemma_wrapped_all_add,
    lemma_wrapped_all_fits, monus, wrap_each, wrap_text_preserving_lines, wrapped, wrapped_all,
    wrapped_lines,
};

verus! {

/// How many lines of input are shown at most.
pub const VISIBLE_INPUT_LINES: usize = 8;

pub open spec fn at_least(a: int, b: int) -> int {
    if a < b {
        b
    } else {
        a
    }
}

pub open spec fn at_most(a: int, b: int) -> int {
    if a > b {
        b
    } else {
        a
    }
}

/// The width for the text of a message in an area `width` cells wide.
pub fn inner_message_width(width: u16) -> (r: usize)
    ensures
        r == at_least(monus(width as int, 6), 8),
{
    if width >= 14 {
        (width - 6) as usize
    } else {
        8
    }
}

/// The width for the text of the input in an area `width` cells wide.
pub fn inner_input_width(width: u16) -> (r: usize)
    ensures
        r == at_least(monus(width as int, 3), 8),
{
    if width >= 11 {
        (width - 3) as usize
    } else {
        8
    }
}

/// The width for the text of the input on a terminal of the given columns and rows; a terminal
/// of unknown size counts as 80 columns wide.
pub fn current_input_width(size: Option<(u16, u16)>) -> (r: usize)
    ensures
        r == at_least(
            monus(
                match size {
                    Some(cells) => cells.0 as int,
                    None => 80,
                },
                3,
            ),
            8,
        ),
{
    match size {
        Some(cells) => inner_input_width(cells.0),
        None => inner_input_width(80),
    }
}

/// The height of the input box, its border counted, for that many lines of input.
pub fn input_box_height(line_count: usize) -> (r: u16)
    ensures
        r == at_most(at_least(line_count as int, 1), VISIBLE_INPUT_LINES as int) + 2,
        3 <= r <= 10,
{
    if line_count < 1 {
        3
    } else if line_count > VISIBLE_INPUT_LINES {
        VISIBLE_INPUT_LINES as u16 + 2
    } else {
        line_count as u16 + 2
    }
}

/// How far an input of that preview can be scrolled: by the lines that are not shown.
pub open spec fn scroll_limit(preview: Seq<char>, width: int) -> int {
    monus(wrapped_lines(preview, width).len() as int, VISIBLE_INPUT_LINES as int)
}

/// How far the input can be scrolled.
pub fn max_input_scroll(input_preview: &str, input_width: usize) -> (r: usize)
    ensures
        r == scroll_limit(input_preview@, input_width as int),
{
    let input_lines = wrap_text_preserving_lines(input_preview, input_width);
    assert(texts(input_lines@).len() == input_lines@.len());
    if input_lines.len() > VISIBLE_INPUT_LINES {
        input_lines.len() - VISIBLE_INPUT_LINES
    } else {
        0
    }
}

/// The lines of input that fit in a box of that height, border counted; at least one.
pub open spec fn visible_lines(height: int) -> int {
    at_least(monus(height, 2), 1)
}

/// The first line that is shown: as far down as `scroll`, but with the box full.
pub open spec fn first_visible(height: int, line_count: int, scroll: int) -> int {
    at_most(scroll, monus(line_count, visible_lines(height)))
}

/// Where the cursor stands, as column and row in the box: behind the last visible line. The
/// column is counted modulo the range of a terminal coordinate.
pub open spec fn cursor_position(height: int, input_lines: Seq<Seq<char>>, scroll: int) -> (
    int,
    int,
) {
    let first = first_visible(height, input_lines.len() as int, scroll);
    let shown = at_most(visible_lines(height), input_lines.len() - first);
    if shown <= 0 {
        (0, 0)
    } else {
        ((input_lines[first + shown - 1].len() % 65536) as int, shown - 1)
    }
}

/// Where the cursor stands, as column and row in a box of that height.
pub fn input_cursor_position(height: u16, input_lines: &Vec<String>, input_scroll: usize) -> (r: (
    u16,
    u16,
))
    ensures
        r.0 == cursor_position(height as int, texts(input_lines@), input_scroll as int).0,
        r.1 == cursor_position(height as int, texts(input_lines@), input_scroll as int).1,
        r.1 < visible_lines(height as int),
{
    let visible: usize = if height >= 3 {
        (height - 2) as usize
    } else {
        1
    };
    let count: usize = input_lines.len();
    let room: usize = if count >= visible {
        count - visible
    } else {
        0
    };
    let first: usize = if input_scroll > room {
        room
    } else {
        input_scroll
    };
    let shown: usize = if count - first > visible {
        visible
    } else {
        count - first
    };
    assert(texts(input_lines@).len() == count);
    if shown == 0 {
        return (0, 0);
    }
    let columns: usize = input_lines[first + shown - 1].as_str().unicode_len();
    assert(columns as u16 == columns % 65536) by (bit_vector);
    #[verifier::truncate]
    let column: u16 = columns as u16;
    (column, (shown - 1) as u16)
}

/// One row of a message on the screen: a label and the text behind it.
#[derive(Debug, Clone)]
pub struct MessageRow {
    pub label: String,
    pub text: String,
}

/// A row as its label and its text.
pub open spec fn row_view(row: MessageRow) -> (Seq<char>, Seq<char>) {
    (row.label@, row.text@)
}

/// That many spaces.
pub open spec fn spaces(n: int) -> Seq<char> {
    Seq::new(n as nat, |i: int| ' ')
}

/// The lines of a message; one empty line where it holds white space only.
pub open spec fn message_source(content: Seq<char>) -> Seq<Seq<char>> {
    if trimmed(content).len() == 0 {
        seq![seq![]]
    } else {
        line_seq(content)
    }
}

/// The rows of a message: its lines wrapped behind the label `role: `. The first row has the
/// label, the others are indented by as many spaces.
pub open spec fn message_rows(role: Seq<char>, content: Seq<char>, width: int) -> Seq<
    (Seq<char>, Seq<char>),
> {
    let prefix = role + seq![':', ' '];
    let segments = wrapped_all(message_source(content), monus(width, prefix.len() as int));
    Seq::new(
        segments.len(),
        |i: int|
            (
                if i == 0 {
                    prefix
                } else {
                    spaces(prefix.len() as int)
                },
                segments[i],
            ),
    )
}

/// That many spaces.
fn blanks(n: usize) -> (r: String)
    ensures
        r@ == spaces(n as int),
{
    let mut r = String::new();
    let mut i: usize = 0;
    while i < n
        invariant
            i <= n,
            r@ == spaces(i as int),
        decreases n - i,
    {
        r.push(' ');
        assert(spaces(i as int).push(' ') =~= spaces(i + 1));
        i += 1;
    }
    r
}

/// The rows of a message behind the label `role: `.
pub fn wrap_message_lines(role: &str, content: &str, width: usize) -> (r: Vec<MessageRow>)
    ensures
        r@.map_values(|row: MessageRow| row_view(row)) == message_rows(
            role@,
            content@,
            width as int,
        ),
{
    let mut prefix = role.to_string();
    prefix.push(':');
    prefix.push(' ');
    assert(prefix@ =~= role@ + seq![':', ' ']);
    let label_len: usize = prefix.as_str().unicode_len();
    let indent = blanks(label_len);
    let source = if trim(content).is_empty() {
        let mut one: Vec<String> = Vec::new();
        one.push(String::new());
        assert(texts(one@) =~= seq![seq![]]);
        one
    } else {
        lines(content)
    };
    let room: usize = if width >= label_len {
        width - label_len
    } else {
        0
    };
    let segments = wrap_each(&source, room);
    let mut r: Vec<MessageRow> = Vec::new();
    let mut i: usize = 0;
    let ghost all = message_rows(role@, content@, width as int);
    assert(all.take(0) =~= r@.map_values(|row: MessageRow| row_view(row)));
    assert(all.len() == segments@.len() && (forall|k: int|
        0 <= k < all.len() ==> (#[trigger] all[k]).1 == segments@[k]@)) by {
        assert(texts(segments@).len() == segments@.len());
    }
    while i < segments.len()
        invariant
            i <= segments@.len(),
            all == message_rows(role@, content@, width as int),
            all.len() == segments@.len(),
            forall|k: int| 0 <= k < all.len() ==> (#[trigger] all[k]).1 == segments@[k]@,
            prefix@ == role@ + seq![':', ' '],
            indent@ == spaces(prefix@.len() as int),
            r@.map_values(|row: MessageRow| row_view(row)) == all.take(i as int),
        decreases segments@.len() - i,
    {
        let label = if i == 0 {
            prefix.clone()
        } else {
            indent.clone()
        };
        let row = MessageRow { label, text: segments[i].clone() };
        proof {
            assert(row_view(row) == all[i as int]);
            assert(r@.push(row).map_values(|row: MessageRow| row_view(row)) =~= r@.map_values(
                |row: MessageRow| row_view(row),
            ).push(row_view(row)));
            assert(all.take(i + 1) =~= all.take(i as int).push(all[i as int]));
        }
        r.push(row);
        i += 1;
    }
    assert(all.take(i as int) == all);
    r
}

/// Where the label leaves room, no row is wider than the width asked for.
pub proof fn law_message_rows_fit(role: Seq<char>, content: Seq<char>, width: int)
    requires
        role.len() + 2 < width,
    ensures
        forall|i: int|
            0 <= i < message_rows(role, content, width).len() ==> (#[trigger] message_rows(
                role,
                content,
                width,
            )[i]).0.len() + message_rows(role, content, width)[i].1.len() <= width,
{
    lemma_wrapped_all_fits(message_source(content), width - (role.len() + 2));
}

/// The texts of rows, without their labels.
pub open spec fn row_texts(rows: Seq<(Seq<char>, Seq<char>)>) -> Seq<Seq<char>> {
    Seq::new(rows.len(), |i: int| rows[i].1)
}

/// A message is shown whole: the texts of its rows together hold all characters of its content
/// other than white space, in their order, and every line of a content that is not blank gives
/// at least one row. There is always a row.
pub proof fn law_message_rows_show_everything(role: Seq<char>, content: Seq<char>, width: int)
    ensures
        ink_all(row_texts(message_rows(role, content, width))) == ink(content),
        trimmed(content).len() > 0 ==> message_rows(role, content, width).len() >= line_seq(
            content,
        ).len(),
        message_rows(role, content, width).len() > 0,
{
    let rows = message_rows(role, content, width);
    let room = monus(width, role.len() as int + 2);
    let source = message_source(content);
    assert(row_texts(rows) =~= wrapped_all(source, room));
    lemma_ink_of_blank(content);
    lemma_ink_lines(content);
    lemma_ink_empty();
    lemma_ink_all_one(seq![]);
    assert(ink_all(source) =~= ink(content));
    lemma_ink_wrapped_all(source, room);
    lemma_wrapped_all_add(source, seq![], room);
    if trimmed(content).len() > 0 && line_seq(content).len() == 0 {
        assert(ink_all(line_seq(content)) =~= seq![]);
    }
}

/// The label stands in front of the first row only; the other rows start with as many spaces.
pub proof fn law_message_is_labelled_once(role: Seq<char>, content: Seq<char>, width: int)
    ensures
        message_rows(role, content, width).len() > 0,
        message_rows(role, content, width)[0].0 == role + ": "@,
        forall|i: int, j: int|
            0 < i < message_rows(role, content, width).len() && 0 <= j < role.len() + 2
                ==> #[trigger] message_rows(role, content, width)[i].0[j] == ' ',
        forall|i: int|
            0 < i < message_rows(role, content, width).len() ==> (#[trigger] message_rows(
                role,
                content,
                width,
            )[i]).0.len() == role.len() + 2,
{
    reveal_strlit(": ");
    law_message_rows_show_everything(role, content, width);
    assert(role + ": "@ =~= role + seq![':', ' ']);
}

/// Lines are shown one after the other: the rows of two texts with a line feed between them show
/// what those of the one and of the other do.
pub proof fn law_message_rows_follow_the_lines(
    role: Seq<char>,
    a: Seq<char>,
    b: Seq<char>,
    width: int,
)
    requires
        trimmed(a).len() > 0,
        trimmed(b).len() > 0,
        a.last() != '\n',
        a.last() != '\r',
    ensures
        row_texts(message_rows(role, a + seq!['\n'] + b, width)) == row_texts(
            message_rows(role, a, width),
        ) + row_texts(message_rows(role, b, width)),
{
    let both = a + seq!['\n'] + b;
    let room = monus(width, role.len() as int + 2);
    let (lead, trail) = lemma_trim_parts(a);
    assert(a.len() > 0);
    lemma_ink_of_blank(a);
    lemma_ink_of_blank(both);
    lemma_ink_add(a, seq!['\n']);
    lemma_ink_add(a + seq!['\n'], b);
    lemma_lines_of_two(a, b);
    lemma_wrapped_all_add(line_seq(a), line_seq(b), room);
    assert(row_texts(message_rows(role, both, width)) =~= wrapped_all(line_seq(both), room));
    assert(row_texts(message_rows(role, a, width)) =~= wrapped_all(line_seq(a), room));
    assert(row_texts(message_rows(role, b, width)) =~= wrapped_all(line_seq(b), room));
}

/// A line whose words all fit behind the label is shown with its words whole, one space between
/// them or a new row, and no row could take a word more.
pub proof fn law_message_rows_keep_words(role: Seq<char>, line: Seq<char>, width: int)
    requires
        trimmed(line).len() > 0,
        one_line(line),
        line.last() != '\r',
        role.len() + 2 < width,
        forall|i: int|
            0 <= i < word_seq(line).len() ==> role.len() + 2 + (#[trigger] word_seq(line)[i]).len()
                <= width,
    ensures
        joined(row_texts(message_rows(role, line, width)), seq![' ']) == joined(
            word_seq(line),
            seq![' '],
        ),
        forall|i: int|
            0 <= i < message_rows(role, line, width).len() - 1 ==> (#[trigger] message_rows(
                role,
                line,
                width,
            )[i]).0.len() + message_rows(role, line, width)[i].1.len() + 1 + word_len(
                message_rows(role, line, width)[i + 1].1,
            ) > width,
{
    let room = width - (role.len() + 2);
    let (lead, trail) = lemma_trim_parts(line);
    assert(line.len() > 0);
    law_lines_are_wrapped_on_their_own(line, seq!['x'], room);
    let rows = message_rows(role, line, width);
    assert(row_texts(rows) =~= wrapped(line, room));
    law_wrapped_text_keeps_words(line, room);
    law_wrapped_lines_are_full(line, room);
    assert forall|i: int| 0 <= i < rows.len() - 1 implies (#[trigger] rows[i]).0.len()
        + rows[i].1.len() + 1 + word_len(rows[i + 1].1) > width by {
        assert(wrapped(line, room)[i] == rows[i].1);
        assert(wrapped(line, room)[i + 1] == rows[i + 1].1);
    }
}

/// The input can be scrolled exactly until its last line is the last one shown.
pub proof fn law_scrolling_ends_at_the_last_line(preview: Seq<char>, width: int)
    ensures
        ({
            let count = wrapped_lines(preview, width).len() as int;
            let limit = scroll_limit(preview, width);
            &&& 0 <= limit <= count
            &&& count - limit <= VISIBLE_INPUT_LINES
            &&& limit > 0 ==> count - limit == VISIBLE_INPUT_LINES
        }),
{
}

/// The cursor stands behind the last line that is shown, and that line is shown: the part of the
/// input in the box starts no further down than asked for, and is as long as the box or the input.
pub proof fn law_cursor_stands_behind_a_shown_line(
    height: int,
    lines: Seq<Seq<char>>,
    scroll: int,
)
    requires
        height >= 3,
        lines.len() > 0,
        scroll >= 0,
    ensures
        ({
            let first = first_visible(height, lines.len() as int, scroll);
            let (column, row) = cursor_position(height, lines, scroll);
            &&& 0 <= first <= scroll
            &&& 0 <= row < height - 2
            &&& first + row < lines.len()
            &&& row == height - 3 || first + row == lines.len() - 1
            &&& lines[first + row].len() < 65536 ==> column == lines[first + row].len()
            &&& scroll + (height - 2) <= lines.len() ==> first == scroll
            &&& scroll + (height - 2) > lines.len() ==> first + row == lines.len() - 1
        }),
{
}

} // verus!
