//! The input line and the pasted pieces in it.

use vstd::prelude::*;
use vstd::string::*;

use crate::lines::blank;
use crate::number::{decimal, decimal_text};
use crate::offsets::{
    byte_len, byte_range, chars_before, count_before, is_boundary, lemma_byte_len_add,
    lemma_byte_len_push, lemma_byte_len_take, lemma_chars_before, lemma_chars_before_order,
    lemma_encode_add, lemma_ends, lemma_prefix_boundary, length_in_bytes, on_boundary,
};
use crate::text::{same_text, texts, white_space, word_seq, words};
use crate::wrap::law_white_space_parts_words;

verus! {

/// A pasted piece of the input: the byte offsets between which it stands, and the short form
/// in which it is shown.
#[derive(Debug)]
pub struct PastedSegment {
    pub start: usize,
    pub end: usize,
    pub preview: String,
}

/// A pasted piece, with its short form as characters.
pub struct SegmentView {
    pub start: int,
    pub end: int,
    pub preview: Seq<char>,
}

impl View for PastedSegment {
    type V = SegmentView;

    open spec fn view(&self) -> SegmentView {
        SegmentView { start: self.start as int, end: self.end as int, preview: self.preview@ }
    }
}

/// The views of a list of pasted pieces.
pub open spec fn segment_views(v: Seq<PastedSegment>) -> Seq<SegmentView> {
    Seq::new(v.len(), |i: int| v[i]@)
}

/// The short form of a pasted text: its first and its last word, once if they are the same,
/// around the number of its characters.
pub open spec fn paste_preview(text: Seq<char>) -> Seq<char> {
    let all = word_seq(text);
    let count = "<pasted text "@ + decimal(text.len() as int) + " chars>"@;
    if all.len() == 0 {
        "["@ + count + "]"@
    } else if all[0] == all.last() {
        "["@ + all[0] + " "@ + count + "]"@
    } else {
        "["@ + all[0] + " "@ + count + " "@ + all.last() + "]"@
    }
}

/// The short form of a pasted text.
pub fn make_paste_preview(text: &str) -> (r: String)
    ensures
        r@ == paste_preview(text@),
{
    let words = words(text);
    assert(texts(words@).len() == words@.len());
    let mut count = "<pasted text ".to_string();
    count.append(decimal_text(text.unicode_len()).as_str());
    count.append(" chars>");
    let mut r = "[".to_string();
    if words.len() > 0 {
        let first = words[0].as_str();
        let last = words[words.len() - 1].as_str();
        r.append(first);
        r.append(" ");
        r.append(count.as_str());
        if !same_text(first, last) {
            r.append(" ");
            r.append(last);
        }
    } else {
        r.append(count.as_str());
    }
    r.append("]");
    r
}

/// Whether a pasted piece is shown in its short form when the input is written out from byte
/// offset `cursor` on: it lies inside the input and does not start before `cursor`.
pub open spec fn is_shown(input: Seq<char>, segment: SegmentView, cursor: int) -> bool {
    &&& segment.start <= byte_len(input)
    &&& segment.end <= byte_len(input)
    &&& segment.start >= cursor
}

/// Whether every piece that is shown starts and ends between characters.
pub open spec fn renderable(input: Seq<char>, segments: Seq<SegmentView>, cursor: int) -> bool
    decreases segments.len(),
{
    if segments.len() == 0 {
        true
    } else if is_shown(input, segments[0], cursor) {
        &&& on_boundary(input, segments[0].start)
        &&& on_boundary(input, segments[0].end)
        &&& renderable(input, segments.skip(1), segments[0].end)
    } else {
        renderable(input, segments.skip(1), cursor)
    }
}

/// The input from byte offset `cursor` on, with the short form in place of each piece shown.
pub open spec fn preview_from(
    input: Seq<char>,
    segments: Seq<SegmentView>,
    cursor: int,
) -> Seq<char>
    decreases segments.len(),
{
    if segments.len() == 0 {
        input.skip(chars_before(input, cursor))
    } else if is_shown(input, segments[0], cursor) {
        byte_range(input, cursor, segments[0].start) + segments[0].preview + preview_from(
            input,
            segments.skip(1),
            segments[0].end,
        )
    } else {
        preview_from(input, segments.skip(1), cursor)
    }
}

/// The input as it is shown: pasted pieces in their short form, the rest as it is.
pub open spec fn input_preview(input: Seq<char>, segments: Seq<SegmentView>) -> Seq<char> {
    preview_from(input, segments, 0)
}

/// The input as it is shown.
pub fn render_input_preview(input: &str, segments: &Vec<PastedSegment>) -> (r: String)
    requires
        renderable(input@, segment_views(segments@), 0),
    ensures
        r@ == input_preview(input@, segment_views(segments@)),
{
    let mut preview = String::new();
    let mut cursor: usize = 0;
    let mut i: usize = 0;
    let len: usize = length_in_bytes(input);
    let chars: usize = input.unicode_len();
    let ghost all = segment_views(segments@);
    proof {
        lemma_ends(input@);
        assert(all.skip(0) =~= all);
        assert(preview@ + preview_from(input@, all, 0) =~= preview_from(input@, all, 0));
    }
    while i < segments.len()
        invariant
            i <= segments@.len(),
            all == segment_views(segments@),
            len == byte_len(input@),
            chars == input@.len(),
            on_boundary(input@, cursor as int),
            renderable(input@, all.skip(i as int), cursor as int),
            preview@ + preview_from(input@, all.skip(i as int), cursor as int) == preview_from(
                input@,
                all,
                0,
            ),
        decreases segments@.len() - i,
    {
        let segment = &segments[i];
        let ghost rest = all.skip(i as int);
        let ghost before = preview@;
        assert(rest[0] == segment@);
        assert(rest.skip(1) =~= all.skip(i + 1));
        if !(segment.start > len || segment.end > len || segment.start < cursor) {
            let from: usize = count_before(input, cursor);
            let to: usize = count_before(input, segment.start);
            proof {
                lemma_chars_before_order(input@, cursor as int, segment.start as int);
            }
            preview.append(input.substring_char(from, to));
            preview.append(segment.preview.as_str());
            assert(before + (byte_range(input@, cursor as int, segment.start as int)
                + segment.preview@ + preview_from(input@, all.skip(i + 1), segment.end as int))
                =~= preview@ + preview_from(input@, all.skip(i + 1), segment.end as int));
            cursor = segment.end;
        }
        i += 1;
    }
    let from: usize = count_before(input, cursor);
    proof {
        assert(all.skip(i as int) =~= seq![]);
        assert(input@.skip(from as int) =~= input@.subrange(from as int, chars as int));
    }
    preview.append(input.substring_char(from, chars));
    preview
}

/// The last pasted piece that ends at byte offset `at`, or -1.
pub open spec fn last_ending_at(segments: Seq<SegmentView>, at: int) -> int
    decreases segments.len(),
{
    if segments.len() == 0 {
        -1
    } else if segments.last().end == at {
        segments.len() - 1
    } else {
        last_ending_at(segments.drop_last(), at)
    }
}

/// The pieces that end at or before byte offset `input_len`.
pub open spec fn ending_within(segments: Seq<SegmentView>, input_len: int) -> Seq<SegmentView> {
    segments.filter(|s: SegmentView| s.end <= input_len)
}

/// `a - b` for offsets, or zero where `b` is larger.
pub open spec fn moved_back(at: int, by: int) -> int {
    if at >= by {
        at - by
    } else {
        0
    }
}

/// The pieces from `first` on moved towards the start by `by` bytes.
pub open spec fn shifted(segments: Seq<SegmentView>, first: int, by: int) -> Seq<SegmentView> {
    Seq::new(
        segments.len(),
        |i: int|
            if i < first {
                segments[i]
            } else {
                SegmentView {
                    start: moved_back(segments[i].start, by),
                    end: moved_back(segments[i].end, by),
                    preview: segments[i].preview,
                }
            },
    )
}

/// Drops the pieces that reach beyond the input.
pub fn trim_pasted_segments(segments: &mut Vec<PastedSegment>, input_len: usize)
    ensures
        segment_views(final(segments)@) == ending_within(
            segment_views(old(segments)@),
            input_len as int,
        ),
{
    let mut i: usize = 0;
    let ghost all = segment_views(segments@);
    let ghost keep = |s: SegmentView| s.end <= input_len as int;
    let ghost mut done: int = 0;
    proof {
        reveal_with_fuel(Seq::filter, 1);
        assert(all.take(0) =~= seq![]);
        assert(segment_views(segments@).take(0) =~= seq![]);
        assert(all.skip(0) =~= all);
        assert(segment_views(segments@).skip(0) =~= all);
    }
    while i < segments.len()
        invariant
            keep == (|s: SegmentView| s.end <= input_len as int),
            i <= segments@.len(),
            0 <= done <= all.len(),
            segments@.len() - i == all.len() - done,
            segment_views(segments@).skip(i as int) == all.skip(done),
            segment_views(segments@).take(i as int) == all.take(done).filter(keep),
        decreases segments@.len() - i,
    {
        let ghost views = segment_views(segments@);
        proof {
            assert(views.skip(i as int)[0] == all.skip(done)[0]);
            assert(all.take(done + 1).drop_last() =~= all.take(done));
            assert(all.take(done + 1).last() == all[done]);
            reveal_with_fuel(Seq::filter, 1);
            assert(all.skip(done).skip(1) =~= all.skip(done + 1));
            assert(views.skip(i as int).skip(1) =~= views.skip(i + 1));
        }
        if segments[i].end <= input_len {
            i += 1;
            assert(views.take(i as int) =~= views.take(i - 1).push(views[i - 1]));
        } else {
            segments.remove(i);
            assert(segment_views(segments@) =~= views.remove(i as int));
            assert(segment_views(segments@).take(i as int) =~= views.take(i as int));
            assert(segment_views(segments@).skip(i as int) =~= views.skip(i + 1));
        }
        proof {
            done = done + 1;
        }
    }
    assert(all.take(done) =~= all);
    assert(segment_views(segments@).take(i as int) =~= segment_views(segments@));
}

/// Moves the pieces from `start_index` on towards the start of the input.
pub fn shift_pasted_segments(
    segments: &mut Vec<PastedSegment>,
    start_index: usize,
    deleted_bytes: usize,
)
    ensures
        segment_views(final(segments)@) == shifted(
            segment_views(old(segments)@),
            start_index as int,
            deleted_bytes as int,
        ),
{
    let mut i: usize = start_index;
    let ghost all = segment_views(segments@);
    while i < segments.len()
        invariant
            start_index <= i,
            segments@.len() == all.len(),
            i <= segments@.len() || i == start_index,
            forall|k: int| 0 <= k < start_index && k < all.len() ==> segments@[k]@ == #[trigger] all[k],
            forall|k: int|
                start_index <= k < i && k < all.len() ==> segments@[k]@ == (SegmentView {
                    start: moved_back((#[trigger] all[k]).start, deleted_bytes as int),
                    end: moved_back(all[k].end, deleted_bytes as int),
                    preview: all[k].preview,
                }),
            forall|k: int| i <= k < all.len() ==> segments@[k]@ == #[trigger] all[k],
        decreases segments@.len() - i,
    {
        assert(segments@[i as int]@ == all[i as int]);
        let start: usize = if segments[i].start >= deleted_bytes {
            segments[i].start - deleted_bytes
        } else {
            0
        };
        let end: usize = if segments[i].end >= deleted_bytes {
            segments[i].end - deleted_bytes
        } else {
            0
        };
        let preview = segments[i].preview.clone();
        segments.set(i, PastedSegment { start, end, preview });
        i += 1;
    }
    assert(segment_views(segments@) =~= shifted(all, start_index as int, deleted_bytes as int));
}

/// An input line: its text, and the pasted pieces in it.
#[verifier::ext_equal]
pub struct InputView {
    pub text: Seq<char>,
    pub segments: Seq<SegmentView>,
}

/// Whether the pasted pieces lie in the input one after the other, none of them empty, each
/// between characters.
pub open spec fn tidy(input: InputView) -> bool {
    &&& forall|i: int|
        0 <= i < input.segments.len() ==> {
            let s = #[trigger] input.segments[i];
            &&& 0 <= s.start < s.end <= byte_len(input.text)
            &&& on_boundary(input.text, s.start)
            &&& on_boundary(input.text, s.end)
        }
    &&& forall|i: int, j: int|
        0 <= i < j < input.segments.len() ==> (#[trigger] input.segments[i]).end <= (
        #[trigger] input.segments[j]).start
}

/// Whether the pasted pieces lie in the input one after the other, none of them empty, each
/// between characters.
pub fn is_tidy(input: &str, segments: &Vec<PastedSegment>) -> (r: bool)
    ensures
        r == tidy(InputView { text: input@, segments: segment_views(segments@) }),
{
    let len: usize = length_in_bytes(input);
    let ghost view = InputView { text: input@, segments: segment_views(segments@) };
    let mut before: usize = 0;
    let mut i: usize = 0;
    while i < segments.len()
        invariant
            i <= segments@.len(),
            len == byte_len(input@),
            view == (InputView { text: input@, segments: segment_views(segments@) }),
            tidy(InputView { segments: view.segments.take(i as int), ..view }),
            i == 0 ==> before == 0,
            i > 0 ==> before == view.segments[i - 1].end,
        decreases segments@.len() - i,
    {
        let (start, stop) = (segments[i].start, segments[i].end);
        let ghost head = InputView { segments: view.segments.take(i as int), ..view };
        let ghost more = view.segments.take(i + 1);
        assert(view.segments[i as int] == segments@[i as int]@);
        if start < before || start >= stop || stop > len || !is_boundary(input, start)
            || !is_boundary(input, stop) {
            assert(i > 0 ==> view.segments[i - 1].end <= view.segments[i as int].start || start
                < before);
            return false;
        }
        proof {
            assert forall|k: int| 0 <= k < more.len() implies {
                let s = #[trigger] more[k];
                &&& 0 <= s.start < s.end <= byte_len(input@)
                &&& on_boundary(input@, s.start)
                &&& on_boundary(input@, s.end)
            } by {
                if k < i {
                    assert(more[k] == head.segments[k]);
                }
            }
            assert forall|j: int, k: int| 0 <= j < k < more.len() implies (
            #[trigger] more[j]).end <= (#[trigger] more[k]).start by {
                assert(more[j] == head.segments[j]);
                if k < i {
                    assert(more[k] == head.segments[k]);
                } else if j < i - 1 {
                    assert(head.segments[j].end <= head.segments[i - 1].start);
                    assert(head.segments[i - 1] == view.segments[i - 1]);
                }
            }
        }
        before = stop;
        i += 1;
    }
    assert(view.segments.take(i as int) =~= view.segments);
    true
}

/// The input after one more character was typed.
pub open spec fn typed(input: InputView, c: char) -> InputView {
    InputView { text: input.text.push(c), segments: input.segments }
}

/// The input after `text` was pasted at its end.
pub open spec fn pasted(input: InputView, text: Seq<char>) -> InputView {
    InputView {
        text: input.text + text,
        segments: input.segments.push(
            SegmentView {
                start: byte_len(input.text),
                end: byte_len(input.text + text),
                preview: paste_preview(text),
            },
        ),
    }
}

/// Whether the pasted piece at the end of the input, if there is one, starts between characters.
pub open spec fn erasable(input: InputView) -> bool {
    let i = last_ending_at(input.segments, byte_len(input.text));
    input.text.len() > 0 && i >= 0 ==> on_boundary(input.text, input.segments[i].start)
}

/// The input after backspace: a pasted piece at the end goes as a whole, else the last
/// character goes, and with it the pieces that then reach beyond the input.
pub open spec fn erased(input: InputView) -> InputView {
    let len = byte_len(input.text);
    let i = last_ending_at(input.segments, len);
    if input.text.len() == 0 {
        input
    } else if i >= 0 {
        InputView {
            text: input.text.take(chars_before(input.text, input.segments[i].start)),
            segments: shifted(input.segments.remove(i), i, len - input.segments[i].start),
        }
    } else {
        InputView {
            text: input.text.drop_last(),
            segments: ending_within(input.segments, byte_len(input.text.drop_last())),
        }
    }
}

pub proof fn lemma_last_ending_at(segments: Seq<SegmentView>, at: int)
    ensures
        ({
            let i = last_ending_at(segments, at);
            &&& -1 <= i < segments.len()
            &&& i >= 0 ==> segments[i].end == at
            &&& forall|j: int| i < j < segments.len() ==> (#[trigger] segments[j]).end != at
        }),
    decreases segments.len(),
{
    if segments.len() > 0 && segments.last().end != at {
        lemma_last_ending_at(segments.drop_last(), at);
        assert forall|j: int|
            last_ending_at(segments, at) < j < segments.len() implies (#[trigger] segments[j]).end
            != at by {
            if j < segments.len() - 1 {
                assert(segments.drop_last()[j] == segments[j]);
            }
        }
    }
}

/// Takes the last pasted piece, or else the last character, off the end of the input.
pub fn erase_last(input: &mut String, segments: &mut Vec<PastedSegment>)
    requires
        erasable(InputView { text: old(input)@, segments: segment_views(old(segments)@) }),
    ensures
        (InputView { text: final(input)@, segments: segment_views(final(segments)@) }) == erased(
            InputView { text: old(input)@, segments: segment_views(old(segments)@) },
        ),
{
    let ghost before = InputView { text: input@, segments: segment_views(segments@) };
    let ghost all = segment_views(segments@);
    let len: usize = length_in_bytes(input.as_str());
    let count: usize = input.as_str().unicode_len();
    if count == 0 {
        return;
    }
    proof {
        lemma_last_ending_at(all, len as int);
    }
    let mut i: usize = segments.len();
    while i > 0
        invariant
            i <= segments@.len(),
            segments@ == old(segments)@,
            input@ == old(input)@,
            all == segment_views(segments@),
            len == byte_len(input@),
            count == input@.len(),
            count > 0,
            before == (InputView { text: input@, segments: all }),
            erasable(before),
            last_ending_at(all, len as int) < i,
            last_ending_at(all, len as int) >= 0 ==> all[last_ending_at(all, len as int)].end
                == len,
            forall|j: int|
                last_ending_at(all, len as int) < j < all.len() ==> (#[trigger] all[j]).end != len,
        decreases i,
    {
        assert(segments@[i - 1]@ == all[i - 1]);
        if segments[i - 1].end == len {
            let segment = segments.remove(i - 1);
            assert(segment_views(segments@) =~= all.remove(i - 1));
            proof {
                let k = chars_before(input@, segment.start as int);
                assert(0 <= k <= input@.len() && byte_len(input@.take(k)) == segment.start);
                lemma_byte_len_take(input@, k, input@.len() as int);
                assert(input@.take(input@.len() as int) =~= input@);
            }
            let keep: usize = count_before(input.as_str(), segment.start);
            let rest = input.as_str().substring_char(0, keep).to_string();
            assert(input@.subrange(0, keep as int) =~= input@.take(keep as int));
            *input = rest;
            shift_pasted_segments(segments, i - 1, segment.end - segment.start);
            return;
        }
        i -= 1;
    }
    let rest = input.as_str().substring_char(0, count - 1).to_string();
    assert(input@.subrange(0, count - 1) =~= input@.drop_last());
    *input = rest;
    trim_pasted_segments(segments, length_in_bytes(input.as_str()));
}

proof fn lemma_tidy_renderable_from(input: InputView, from: int, cursor: int)
    requires
        tidy(input),
        0 <= from <= input.segments.len(),
        0 <= cursor,
        from < input.segments.len() ==> cursor <= input.segments[from].start,
    ensures
        renderable(input.text, input.segments.skip(from), cursor),
    decreases input.segments.len() - from,
{
    let rest = input.segments.skip(from);
    if from < input.segments.len() {
        assert(rest[0] == input.segments[from]);
        assert(rest.skip(1) =~= input.segments.skip(from + 1));
        lemma_tidy_renderable_from(input, from + 1, input.segments[from].end);
    }
}

/// A tidy input can be shown.
pub proof fn law_tidy_input_is_renderable(input: InputView)
    requires
        tidy(input),
    ensures
        renderable(input.text, input.segments, 0),
{
    assert(input.segments.skip(0) =~= input.segments);
    lemma_tidy_renderable_from(input, 0, 0);
}

/// A longer text keeps its boundaries.
proof fn lemma_longer_text(text: Seq<char>, more: Seq<char>, at: int)
    requires
        on_boundary(text, at),
    ensures
        on_boundary(text + more, at),
        chars_before(text + more, at) == chars_before(text, at),
        byte_len(text + more) == byte_len(text) + byte_len(more),
{
    let whole = text + more;
    assert(whole.take(text.len() as int) =~= text);
    lemma_prefix_boundary(whole, text.len() as int, at);
    lemma_byte_len_add(text, more);
}

/// Typing keeps an input tidy.
pub proof fn law_typing_keeps_input_tidy(input: InputView, c: char)
    requires
        tidy(input),
    ensures
        tidy(typed(input, c)),
{
    let after = typed(input, c);
    assert(after.text =~= input.text + seq![c]);
    assert forall|i: int| 0 <= i < after.segments.len() implies {
        let s = #[trigger] after.segments[i];
        &&& 0 <= s.start < s.end <= byte_len(after.text)
        &&& on_boundary(after.text, s.start)
        &&& on_boundary(after.text, s.end)
    } by {
        let s = input.segments[i];
        lemma_longer_text(input.text, seq![c], s.start);
        lemma_longer_text(input.text, seq![c], s.end);
    }
}

/// Pasting keeps an input tidy.
pub proof fn law_pasting_keeps_input_tidy(input: InputView, text: Seq<char>)
    requires
        tidy(input),
        text.len() > 0,
    ensures
        tidy(pasted(input, text)),
{
    let after = pasted(input, text);
    lemma_byte_len_add(input.text, text);
    lemma_ends(text);
    lemma_ends(input.text);
    lemma_ends(after.text);
    lemma_longer_text(input.text, text, byte_len(input.text));
    assert forall|i: int| 0 <= i < after.segments.len() implies {
        let s = #[trigger] after.segments[i];
        &&& 0 <= s.start < s.end <= byte_len(after.text)
        &&& on_boundary(after.text, s.start)
        &&& on_boundary(after.text, s.end)
    } by {
        if i < input.segments.len() {
            let s = input.segments[i];
            lemma_longer_text(input.text, text, s.start);
            lemma_longer_text(input.text, text, s.end);
        }
    }
}

/// In a tidy input only the last piece can end at the end of the text.
proof fn lemma_tidy_last_ending(input: InputView)
    requires
        tidy(input),
    ensures
        ({
            let i = last_ending_at(input.segments, byte_len(input.text));
            i == -1 || i == input.segments.len() - 1
        }),
{
    lemma_last_ending_at(input.segments, byte_len(input.text));
    let i = last_ending_at(input.segments, byte_len(input.text));
    if 0 <= i < input.segments.len() - 1 {
        assert(input.segments[i].end <= input.segments[input.segments.len() - 1].start);
    }
}

/// A tidy input can be erased, and stays tidy; erasing removes the last piece if it is at the
/// end of the text, and no piece otherwise.
pub proof fn law_erasing_keeps_input_tidy(input: InputView)
    requires
        tidy(input),
    ensures
        erasable(input),
        tidy(erased(input)),
        ({
            let n = input.segments.len() as int;
            erased(input).segments == if n > 0 && input.text.len() > 0 && input.segments[n - 1].end
                == byte_len(input.text) {
                input.segments.drop_last()
            } else {
                input.segments
            }
        }),
{
    lemma_tidy_last_ending(input);
    lemma_last_ending_at(input.segments, byte_len(input.text));
    let i = last_ending_at(input.segments, byte_len(input.text));
    let n = input.segments.len() as int;
    let after = erased(input);
    if input.text.len() > 0 {
        if i >= 0 {
            assert(input.segments.remove(i) =~= input.segments.drop_last());
            assert(after.segments =~= input.segments.drop_last());
            let cut = input.segments[i].start;
            let k = chars_before(input.text, cut);
            assert(0 <= k <= input.text.len() && byte_len(input.text.take(k)) == cut);
            assert forall|j: int| 0 <= j < after.segments.len() implies {
                let s = #[trigger] after.segments[j];
                &&& 0 <= s.start < s.end <= byte_len(after.text)
                &&& on_boundary(after.text, s.start)
                &&& on_boundary(after.text, s.end)
            } by {
                assert(input.segments[j].end <= input.segments[i].start);
                lemma_prefix_boundary(input.text, k, input.segments[j].start);
                lemma_prefix_boundary(input.text, k, input.segments[j].end);
            }
        } else {
            let m = input.text.len() - 1;
            let len = byte_len(input.text);
            let cut = byte_len(input.text.drop_last());
            assert(input.text.drop_last() =~= input.text.take(m));
            assert(input.text.take(input.text.len() as int) =~= input.text);
            assert forall|j: int| 0 <= j < n implies (#[trigger] input.segments[j]).end <= cut by {
                let s = input.segments[j];
                let k = chars_before(input.text, s.end);
                assert(0 <= k <= input.text.len() && byte_len(input.text.take(k)) == s.end);
                if k > m {
                    assert(s.end == len);
                }
                lemma_byte_len_take(input.text, k, m);
            }
            lemma_filter_all(input.segments, cut);
            assert forall|j: int| 0 <= j < after.segments.len() implies {
                let s = #[trigger] after.segments[j];
                &&& 0 <= s.start < s.end <= byte_len(after.text)
                &&& on_boundary(after.text, s.start)
                &&& on_boundary(after.text, s.end)
            } by {
                lemma_prefix_boundary(input.text, m, input.segments[j].start);
                lemma_prefix_boundary(input.text, m, input.segments[j].end);
            }
        }
    }
}

proof fn lemma_filter_all(segments: Seq<SegmentView>, cut: int)
    requires
        forall|j: int| 0 <= j < segments.len() ==> (#[trigger] segments[j]).end <= cut,
    ensures
        ending_within(segments, cut) == segments,
    decreases segments.len(),
{
    reveal_with_fuel(Seq::filter, 1);
    if segments.len() > 0 {
        assert forall|j: int| 0 <= j < segments.drop_last().len() implies (
        #[trigger] segments.drop_last()[j]).end <= cut by {
            assert(segments.drop_last()[j] == segments[j]);
        }
        lemma_filter_all(segments.drop_last(), cut);
        assert(segments.drop_last().push(segments.last()) =~= segments);
    } else {
        assert(ending_within(segments, cut) =~= segments);
    }
}

/// Backspace takes back what was pasted last, as a whole.
pub proof fn law_backspace_undoes_paste(input: InputView, text: Seq<char>)
    requires
        text.len() > 0,
    ensures
        erased(pasted(input, text)) == input,
{
    let after = pasted(input, text);
    let i = input.segments.len() as int;
    assert(last_ending_at(after.segments, byte_len(after.text)) == i);
    assert(after.text.take(input.text.len() as int) =~= input.text);
    lemma_chars_before(after.text, input.text.len() as int);
    assert(after.segments.remove(i) =~= input.segments);
    assert(erased(after) =~= input);
}

/// Backspace takes back the character that was typed last, unless a pasted piece reaches beyond
/// the input.
pub proof fn law_backspace_undoes_typing(input: InputView, c: char)
    requires
        forall|i: int|
            0 <= i < input.segments.len() ==> (#[trigger] input.segments[i]).end <= byte_len(
                input.text,
            ),
    ensures
        erased(typed(input, c)) == input,
{
    let after = typed(input, c);
    let len = byte_len(input.text);
    lemma_byte_len_push(input.text, c);
    lemma_last_ending_at(after.segments, byte_len(after.text));
    assert(after.text.drop_last() =~= input.text);
    lemma_filter_all(input.segments, len);
    assert(erased(after) =~= input);
}

/// Whether no piece reaches beyond the one length but not beyond the other, longer one.
pub open spec fn none_revealed(segments: Seq<SegmentView>, len: int, longer: int) -> bool {
    forall|i: int|
        0 <= i < segments.len() && (#[trigger] segments[i]).start <= longer && segments[i].end
            <= longer ==> segments[i].start <= len && segments[i].end <= len
}

/// What is appended to an input is appended to what is shown of it.
proof fn lemma_preview_longer(
    text: Seq<char>,
    more: Seq<char>,
    segments: Seq<SegmentView>,
    cursor: int,
)
    requires
        on_boundary(text, cursor),
        renderable(text, segments, cursor),
        none_revealed(segments, byte_len(text), byte_len(text + more)),
    ensures
        preview_from(text + more, segments, cursor) == preview_from(text, segments, cursor) + more,
    decreases segments.len(),
{
    lemma_longer_text(text, more, cursor);
    lemma_ends(more);
    let k = chars_before(text, cursor);
    assert(0 <= k <= text.len() && byte_len(text.take(k)) == cursor);
    if segments.len() == 0 {
        assert((text + more).skip(k) =~= text.skip(k) + more);
    } else {
        let s = segments[0];
        let rest = segments.skip(1);
        lemma_byte_len_add(text, more);
        assert(none_revealed(rest, byte_len(text), byte_len(text + more))) by {
            assert forall|i: int|
                0 <= i < rest.len() && (#[trigger] rest[i]).start <= byte_len(text + more)
                    && rest[i].end <= byte_len(text + more) implies rest[i].start <= byte_len(text)
                && rest[i].end <= byte_len(text) by {
                assert(rest[i] == segments[i + 1]);
            }
        }
        if is_shown(text, s, cursor) {
            lemma_longer_text(text, more, s.start);
            lemma_longer_text(text, more, s.end);
            lemma_preview_longer(text, more, rest, s.end);
            lemma_chars_before_order(text, cursor, s.start);
            assert(byte_range(text + more, cursor, s.start) =~= byte_range(text, cursor, s.start));
            let tail = preview_from(text, rest, s.end);
            assert(byte_range(text, cursor, s.start) + s.preview + (tail + more) =~= byte_range(
                text,
                cursor,
                s.start,
            ) + s.preview + tail + more);
        } else {
            lemma_preview_longer(text, more, rest, cursor);
        }
    }
}

/// A piece pasted at the end is shown by its short form behind what was shown before.
proof fn lemma_preview_new_piece(
    text: Seq<char>,
    more: Seq<char>,
    segments: Seq<SegmentView>,
    piece: SegmentView,
    cursor: int,
)
    requires
        on_boundary(text, cursor),
        piece.start == byte_len(text),
        piece.end == byte_len(text + more),
        renderable(text, segments, cursor),
        none_revealed(segments, byte_len(text), byte_len(text + more)),
    ensures
        preview_from(text + more, segments.push(piece), cursor) == preview_from(
            text,
            segments,
            cursor,
        ) + piece.preview,
    decreases segments.len(),
{
    let whole = text + more;
    let all = segments.push(piece);
    lemma_longer_text(text, more, cursor);
    lemma_ends(text);
    lemma_ends(whole);
    lemma_longer_text(text, more, byte_len(text));
    let k = chars_before(text, cursor);
    assert(0 <= k <= text.len() && byte_len(text.take(k)) == cursor);
    lemma_byte_len_take(text, k, text.len() as int);
    assert(text.take(text.len() as int) =~= text);
    lemma_ends(more);
    if segments.len() == 0 {
        assert(all[0] == piece);
        assert(all.skip(1) =~= seq![]);
        assert(whole.skip(whole.len() as int) =~= seq![]);
        assert(preview_from(whole, all.skip(1), piece.end) =~= seq![]);
        assert(byte_range(whole, cursor, piece.start) =~= text.skip(k));
        assert(text.skip(k) + piece.preview + seq![] =~= text.skip(k) + piece.preview);
    } else {
        let s = segments[0];
        let rest = segments.skip(1);
        assert(all[0] == s);
        assert(all.skip(1) =~= rest.push(piece));
        lemma_byte_len_add(text, more);
        assert(none_revealed(rest, byte_len(text), byte_len(text + more))) by {
            assert forall|i: int|
                0 <= i < rest.len() && (#[trigger] rest[i]).start <= byte_len(text + more)
                    && rest[i].end <= byte_len(text + more) implies rest[i].start <= byte_len(text)
                && rest[i].end <= byte_len(text) by {
                assert(rest[i] == segments[i + 1]);
            }
        }
        if is_shown(text, s, cursor) {
            lemma_longer_text(text, more, s.start);
            lemma_longer_text(text, more, s.end);
            lemma_preview_new_piece(text, more, rest, piece, s.end);
            lemma_chars_before_order(text, cursor, s.start);
            assert(byte_range(whole, cursor, s.start) =~= byte_range(text, cursor, s.start));
            let tail = preview_from(text, rest, s.end);
            assert(byte_range(text, cursor, s.start) + s.preview + (tail + piece.preview)
                =~= byte_range(text, cursor, s.start) + s.preview + tail + piece.preview);
        } else {
            lemma_preview_new_piece(text, more, rest, piece, cursor);
        }
    }
}

/// A typed character is shown as it is, behind what was shown before, in an input that can be shown
/// and where the character brings no piece into view.
pub proof fn law_typed_character_is_shown(input: InputView, c: char)
    requires
        renderable(input.text, input.segments, 0),
        none_revealed(
            input.segments,
            byte_len(input.text),
            byte_len(typed(input, c).text),
        ),
    ensures
        input_preview(typed(input, c).text, typed(input, c).segments) == input_preview(
            input.text,
            input.segments,
        ).push(c),
{
    lemma_ends(input.text);
    assert(input.text.push(c) =~= input.text + seq![c]);
    lemma_preview_longer(input.text, seq![c], input.segments, 0);
    let shown = input_preview(input.text, input.segments);
    assert(shown + seq![c] =~= shown.push(c));
}

/// A pasted text is shown by its short form, behind what was shown before, in an input that can be
/// shown and where the text brings no other piece into view.
pub proof fn law_pasted_text_is_shown_short(input: InputView, text: Seq<char>)
    requires
        renderable(input.text, input.segments, 0),
        none_revealed(
            input.segments,
            byte_len(input.text),
            byte_len(pasted(input, text).text),
        ),
    ensures
        input_preview(pasted(input, text).text, pasted(input, text).segments) == input_preview(
            input.text,
            input.segments,
        ) + paste_preview(text),
{
    lemma_ends(input.text);
    let piece = SegmentView {
        start: byte_len(input.text),
        end: byte_len(input.text + text),
        preview: paste_preview(text),
    };
    lemma_preview_new_piece(input.text, text, input.segments, piece, 0);
}

/// In a tidy input nothing that is added brings a piece into view.
pub proof fn law_tidy_input_reveals_nothing(input: InputView, longer: int)
    requires
        tidy(input),
    ensures
        none_revealed(input.segments, byte_len(input.text), longer),
{
}

/// Without pasted pieces the input is shown as it is.
pub proof fn law_plain_input_is_shown_as_it_is(text: Seq<char>)
    ensures
        input_preview(text, seq![]) == text,
{
    lemma_ends(text);
    assert(text.skip(0) =~= text);
}

/// A preview shows the first and the last word of the text and how long it is; where there is one
/// word, or the same at both ends, it is shown once.
pub proof fn law_preview_shows_both_ends(
    first: Seq<char>,
    c: char,
    between: Seq<char>,
    d: char,
    last: Seq<char>,
)
    requires
        first.len() > 0,
        last.len() > 0,
        forall|i: int| 0 <= i < first.len() ==> !white_space(#[trigger] first[i]),
        forall|i: int| 0 <= i < last.len() ==> !white_space(#[trigger] last[i]),
        white_space(c),
        white_space(d),
    ensures
        ({
            let text = first + seq![c] + between + seq![d] + last;
            let count = "<pasted text "@ + decimal(text.len() as int) + " chars>"@;
            &&& first != last ==> paste_preview(text) == "["@ + first + " "@ + count + " "@ + last
                + "]"@
            &&& first == last ==> paste_preview(text) == "["@ + first + " "@ + count + "]"@
        }),
        paste_preview(first) == "["@ + first + " "@ + ("<pasted text "@ + decimal(
            first.len() as int,
        ) + " chars>"@) + "]"@,
{
    let text = first + seq![c] + between + seq![d] + last;
    law_white_space_parts_words(first + seq![c] + between, d, last);
    law_white_space_parts_words(first, c, between);
    law_white_space_parts_words(last, d, seq![]);
    assert(word_seq(text) == seq![first] + word_seq(between) + seq![last]);
}

/// The preview of a text without a word only says how long it is.
pub proof fn law_preview_of_blank_text(text: Seq<char>)
    requires
        blank(text),
    ensures
        paste_preview(text) == "["@ + ("<pasted text "@ + decimal(text.len() as int) + " chars>"@)
            + "]"@,
    decreases text.len(),
{
    lemma_no_words(text);
}

proof fn lemma_no_words(text: Seq<char>)
    requires
        blank(text),
    ensures
        word_seq(text).len() == 0,
    decreases text.len(),
{
    if text.len() > 0 {
        let rest = text.skip(1);
        assert(white_space(text[0]));
        assert forall|i: int| 0 <= i < rest.len() implies white_space(#[trigger] rest[i]) by {
            assert(white_space(text[i + 1]));
        }
        lemma_no_words(rest);
    }
}

/// Typing and pasting append to the input exactly what was typed or pasted, and keep what was
/// marked as pasted before. A paste marks exactly the text that it brought.
pub proof fn law_input_grows_by_what_came(input: InputView, c: char, text: Seq<char>)
    ensures
        typed(input, c).text == input.text + seq![c],
        typed(input, c).segments == input.segments,
        pasted(input, text).text == input.text + text,
        pasted(input, text).segments.drop_last() == input.segments,
        pasted(input, text).segments.len() == input.segments.len() + 1,
        pasted(input, text).segments.last().start == byte_len(input.text),
        pasted(input, text).segments.last().end == byte_len(input.text) + byte_len(text),
{
    assert(typed(input, c).text =~= input.text + seq![c]);
    assert(pasted(input, text).segments.drop_last() =~= input.segments);
    lemma_encode_add(input.text, text);
}

/// Where the end of the input was not pasted, erasing takes away its last character and nothing
/// else of the text.
pub proof fn law_erasing_takes_the_last_character(input: InputView)
    requires
        forall|i: int|
            0 <= i < input.segments.len() ==> (#[trigger] input.segments[i]).end != byte_len(
                input.text,
            ),
    ensures
        erased(input).text == if input.text.len() == 0 {
            input.text
        } else {
            input.text.drop_last()
        },
{
    lemma_none_ending_at(input.segments, byte_len(input.text));
}

proof fn lemma_none_ending_at(segments: Seq<SegmentView>, at: int)
    requires
        forall|i: int| 0 <= i < segments.len() ==> (#[trigger] segments[i]).end != at,
    ensures
        last_ending_at(segments, at) == -1,
    decreases segments.len(),
{
    if segments.len() > 0 {
        let head = segments.drop_last();
        assert forall|i: int| 0 <= i < head.len() implies (#[trigger] head[i]).end != at by {
            assert(head[i] == segments[i]);
        }
        assert(segments[segments.len() - 1].end != at);
        lemma_none_ending_at(head, at);
    }
}

/// Where the end of the input was pasted, erasing takes away that paste as a whole and nothing
/// before it.
pub proof fn law_erasing_takes_the_whole_paste(input: InputView)
    requires
        tidy(input),
        input.segments.len() > 0,
        input.segments.last().end == byte_len(input.text),
    ensures
        byte_len(erased(input).text) == input.segments.last().start,
        erased(input).text == input.text.take(erased(input).text.len() as int),
{
    let n = input.segments.len() - 1;
    let last = input.segments[n];
    assert(on_boundary(input.text, last.start));
    let k = chars_before(input.text, last.start);
    assert(0 <= k <= input.text.len() && byte_len(input.text.take(k)) == last.start);
    assert(last_ending_at(input.segments, byte_len(input.text)) == n);
    assert(byte_len(input.text) > 0);
    if input.text.len() == 0 {
        assert(input.text =~= input.text.take(k));
    }
}

/// Of the pastes only those are kept that lie within the input, in their order and unchanged.
pub proof fn law_only_pastes_within_the_input_are_kept(
    segments: Seq<SegmentView>,
    segment: SegmentView,
    len: int,
)
    ensures
        ending_within(segments.push(segment), len) == if segment.end <= len {
            ending_within(segments, len).push(segment)
        } else {
            ending_within(segments, len)
        },
        ending_within(seq![], len).len() == 0,
{
    reveal(Seq::filter);
    assert(segments.push(segment).drop_last() =~= segments);
}

/// Pastes behind an erased part move back by its length, with their previews; those before it
/// stay.
pub proof fn law_later_pastes_move_back(segments: Seq<SegmentView>, first: int, by: int)
    requires
        0 <= first <= segments.len(),
        forall|i: int| first <= i < segments.len() ==> (#[trigger] segments[i]).start >= by,
        forall|i: int| first <= i < segments.len() ==> (#[trigger] segments[i]).end >= by,
    ensures
        shifted(segments, first, by).len() == segments.len(),
        shifted(segments, first, by).take(first) == segments.take(first),
        forall|i: int|
            first <= i < segments.len() ==> {
                let moved = #[trigger] shifted(segments, first, by)[i];
                &&& moved.start + by == segments[i].start
                &&& moved.end + by == segments[i].end
                &&& moved.preview == segments[i].preview
            },
{
    assert(shifted(segments, first, by).take(first) =~= segments.take(first));
}

} // verus!
