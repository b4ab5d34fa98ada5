//! Breaking text into lines of a given width, counted in characters.

use vstd::prelude::*;
use vstd::string::*;

use crate::lines::{blank, lemma_lines_of_two, lemma_trim_parts, one_line};
use crate::text::{
    chars_of, first_index, joined, lemma_first_index, lemma_first_index_is, lemma_texts_push,
    lemma_word_len, lemma_word_len_is, line_seq, lines, text_between, texts, trimmed, white_space,
    without_cr, word_len, word_seq, words,
};

verus! {

/// `a - b`, or zero where `b` is larger.
pub open spec fn monus(a: int, b: int) -> int {
    if a >= b {
        a - b
    } else {
        0
    }
}

/// A word cut into pieces of `size` characters; only the last piece may be shorter.
pub open spec fn chunks(word: Seq<char>, size: int) -> Seq<Seq<char>>
    decreases word.len(),
{
    if word.len() == 0 {
        seq![]
    } else if size <= 0 || word.len() <= size {
        seq![word]
    } else {
        seq![word.take(size)] + chunks(word.skip(size), size)
    }
}

/// Lines that are complete, and the line that is still being filled.
pub struct Filling {
    pub done: Seq<Seq<char>>,
    pub open: Seq<char>,
}

/// Puts a word on an empty line; a word wider than the line takes lines of its own.
pub open spec fn start_line(done: Seq<Seq<char>>, word: Seq<char>, width: int) -> Filling {
    if word.len() <= width {
        Filling { done, open: word }
    } else {
        Filling { done: done + chunks(word, width), open: seq![] }
    }
}

/// Adds a word to the open line where it fits behind a space, else to a new line.
pub open spec fn add_word(f: Filling, word: Seq<char>, width: int) -> Filling {
    if f.open.len() == 0 {
        start_line(f.done, word, width)
    } else if f.open.len() + 1 + word.len() <= width {
        Filling { done: f.done, open: f.open + seq![' '] + word }
    } else {
        start_line(f.done.push(f.open), word, width)
    }
}

/// The lines after `words` were added one by one.
pub open spec fn fill(words: Seq<Seq<char>>, width: int) -> Filling
    decreases words.len(),
{
    if words.len() == 0 {
        Filling { done: seq![], open: seq![] }
    } else {
        add_word(fill(words.drop_last(), width), words.last(), width)
    }
}

/// All lines of a filling, the open one last if anything is on it.
pub open spec fn finish(f: Filling) -> Seq<Seq<char>> {
    if f.open.len() > 0 {
        f.done.push(f.open)
    } else {
        f.done
    }
}

/// The lines of `text` at `width`. Each line takes as many words as fit. Width zero leaves the
/// text on one line, and a text without words is one empty line.
pub open spec fn wrapped(text: Seq<char>, width: int) -> Seq<Seq<char>> {
    if width == 0 {
        seq![text]
    } else {
        let all = finish(fill(word_seq(text), width));
        if all.len() == 0 {
            seq![seq![]]
        } else {
            all
        }
    }
}

/// The wrapped form of each of `source`, one after the other.
pub open spec fn wrapped_all(source: Seq<Seq<char>>, width: int) -> Seq<Seq<char>>
    decreases source.len(),
{
    if source.len() == 0 {
        seq![]
    } else {
        wrapped_all(source.drop_last(), width) + wrapped(source.last(), width)
    }
}

/// The lines of `text`, each wrapped on its own; an empty text is one empty line.
pub open spec fn wrapped_lines(text: Seq<char>, width: int) -> Seq<Seq<char>> {
    wrapped_all(
        if text.len() == 0 {
            seq![seq![]]
        } else {
            line_seq(text)
        },
        width,
    )
}

/// How many characters the chunks of a long word have.
pub open spec fn chunk_size(width: int) -> int {
    if width > 0 {
        width
    } else {
        1
    }
}

/// Appends the pieces of `word`, each as wide as `width`.
pub fn push_long_word(word: &str, width: usize, wrapped: &mut Vec<String>)
    ensures
        texts(final(wrapped)@) == texts(old(wrapped)@) + chunks(word@, chunk_size(width as int)),
{
    let size: usize = if width > 0 {
        width
    } else {
        1
    };
    let chars = chars_of(word);
    let mut from: usize = 0;
    assert(word@.skip(0) == word@);
    while from < chars.len()
        invariant
            size == chunk_size(width as int),
            chars@ == word@,
            from <= chars@.len(),
            texts(wrapped@) + chunks(word@.skip(from as int), size as int) == texts(
                old(wrapped)@,
            ) + chunks(word@, size as int),
        decreases chars@.len() - from,
    {
        let to: usize = if chars.len() - from <= size {
            chars.len()
        } else {
            from + size
        };
        let piece = text_between(&chars, from, to);
        proof {
            let rest = word@.skip(from as int);
            let before = texts(wrapped@);
            lemma_texts_push(wrapped@, piece);
            assert(piece@ == rest.take(to - from));
            let tail = chunks(word@.skip(to as int), size as int);
            if to == chars@.len() {
                assert(piece@ == rest);
                assert(word@.skip(to as int) =~= seq![]);
                assert(before.push(piece@) + tail =~= before + seq![rest]);
            } else {
                assert(rest.skip(size as int) == word@.skip(to as int));
                assert(before + (seq![piece@] + tail) =~= before.push(piece@) + tail);
            }
        }
        wrapped.push(piece);
        from = to;
    }
    assert(word@.skip(from as int) =~= seq![]);
    assert(texts(wrapped@) + chunks(word@.skip(from as int), size as int) =~= texts(wrapped@));
}

/// Breaks a text into lines of at most `width` characters, at white space where it can.
pub fn wrap_text(text: &str, width: usize) -> (r: Vec<String>)
    ensures
        texts(r@) == wrapped(text@, width as int),
{
    let mut wrapped: Vec<String> = Vec::new();
    if width == 0 {
        let whole = text.to_string();
        proof {
            lemma_texts_push(wrapped@, whole);
            assert(texts(wrapped@).push(text@) =~= seq![text@]);
        }
        wrapped.push(whole);
        return wrapped;
    }
    let words = words(text);
    let mut current = String::new();
    let mut i: usize = 0;
    assert(texts(wrapped@) =~= seq![]);
    assert(texts(words@).take(0) =~= seq![]);
    while i < words.len()
        invariant
            width > 0,
            i <= words@.len(),
            texts(words@) == word_seq(text@),
            texts(wrapped@) == fill(texts(words@).take(i as int), width as int).done,
            current@ == fill(texts(words@).take(i as int), width as int).open,
        decreases words@.len() - i,
    {
        let word = words[i].as_str();
        let len = word.unicode_len();
        let used = current.as_str().unicode_len();
        proof {
            let all = texts(words@);
            assert(all.take(i + 1).drop_last() == all.take(i as int));
            assert(all.take(i + 1).last() == word@);
            lemma_fill_fits(all.take(i as int), width as int);
        }
        if used > 0 && used < width && len <= width - used - 1 {
            current.push(' ');
            current.append(word);
            assert(current@ =~= fill(texts(words@).take(i as int), width as int).open + seq![' ']
                + word@);
        } else {
            if used > 0 {
                proof {
                    lemma_texts_push(wrapped@, current);
                }
                wrapped.push(current);
            }
            current = String::new();
            if len <= width {
                current.append(word);
                assert(current@ =~= word@);
            } else {
                push_long_word(word, width, &mut wrapped);
            }
        }
        i += 1;
    }
    assert(texts(words@).take(i as int) == texts(words@));
    if current.as_str().unicode_len() > 0 {
        proof {
            lemma_texts_push(wrapped@, current);
        }
        wrapped.push(current);
    }
    if wrapped.len() == 0 {
        let blank = String::new();
        proof {
            lemma_texts_push(wrapped@, blank);
            assert(texts(wrapped@).push(blank@) =~= seq![seq![]]);
        }
        wrapped.push(blank);
    }
    wrapped
}

/// Wraps each of `source` and puts the lines one after the other.
pub(crate) fn wrap_each(source: &Vec<String>, width: usize) -> (r: Vec<String>)
    ensures
        texts(r@) == wrapped_all(texts(source@), width as int),
{
    let mut r: Vec<String> = Vec::new();
    let mut i: usize = 0;
    assert(texts(r@) =~= seq![]);
    assert(texts(source@).take(0) =~= seq![]);
    while i < source.len()
        invariant
            i <= source@.len(),
            texts(r@) == wrapped_all(texts(source@).take(i as int), width as int),
        decreases source@.len() - i,
    {
        let mut part = wrap_text(source[i].as_str(), width);
        proof {
            let all = texts(source@);
            assert(all.take(i + 1).drop_last() == all.take(i as int));
            assert(texts(r@ + part@) =~= texts(r@) + texts(part@));
        }
        r.append(&mut part);
        i += 1;
    }
    assert(texts(source@).take(i as int) == texts(source@));
    r
}

/// Wraps each line of the text on its own.
pub fn wrap_text_preserving_lines(text: &str, width: usize) -> (r: Vec<String>)
    ensures
        texts(r@) == wrapped_lines(text@, width as int),
{
    let source = if text.is_empty() {
        let mut one: Vec<String> = Vec::new();
        one.push(String::new());
        assert(texts(one@) =~= seq![seq![]]);
        one
    } else {
        lines(text)
    };
    wrap_each(&source, width)
}

proof fn lemma_chunks_fit(word: Seq<char>, size: int)
    requires
        size > 0,
    ensures
        forall|i: int| 0 <= i < chunks(word, size).len() ==> (#[trigger] chunks(word, size)[i]).len()
            <= size,
    decreases word.len(),
{
    if word.len() > size {
        let tail = chunks(word.skip(size), size);
        lemma_chunks_fit(word.skip(size), size);
        assert forall|i: int| 0 <= i < chunks(word, size).len() implies (#[trigger] chunks(
            word,
            size,
        )[i]).len() <= size by {
            if i > 0 {
                assert(chunks(word, size)[i] == tail[i - 1]);
            }
        }
    }
}

proof fn lemma_fill_fits(words: Seq<Seq<char>>, width: int)
    requires
        width > 0,
    ensures
        fill(words, width).open.len() <= width,
        forall|i: int|
            0 <= i < fill(words, width).done.len() ==> (#[trigger] fill(words, width).done[i]).len()
                <= width,
    decreases words.len(),
{
    if words.len() > 0 {
        lemma_fill_fits(words.drop_last(), width);
        lemma_chunks_fit(words.last(), width);
    }
}

/// No line is wider than the width asked for.
pub proof fn law_wrapped_text_fits(text: Seq<char>, width: int)
    requires
        width > 0,
    ensures
        forall|i: int|
            0 <= i < wrapped(text, width).len() ==> (#[trigger] wrapped(text, width)[i]).len()
                <= width,
{
    lemma_fill_fits(word_seq(text), width);
}

pub proof fn lemma_wrapped_all_fits(source: Seq<Seq<char>>, width: int)
    requires
        width > 0,
    ensures
        forall|i: int|
            0 <= i < wrapped_all(source, width).len() ==> (#[trigger] wrapped_all(
                source,
                width,
            )[i]).len() <= width,
    decreases source.len(),
{
    if source.len() > 0 {
        let head = wrapped_all(source.drop_last(), width);
        let tail = wrapped(source.last(), width);
        lemma_wrapped_all_fits(source.drop_last(), width);
        law_wrapped_text_fits(source.last(), width);
        assert forall|i: int| 0 <= i < wrapped_all(source, width).len() implies (
        #[trigger] wrapped_all(source, width)[i]).len() <= width by {
            if i < head.len() {
                assert(wrapped_all(source, width)[i] == head[i]);
            } else {
                assert(wrapped_all(source, width)[i] == tail[i - head.len()]);
            }
        }
    }
}

/// No line of a text wrapped line by line is wider than the width asked for.
pub proof fn law_wrapped_lines_fit(text: Seq<char>, width: int)
    requires
        width > 0,
    ensures
        forall|i: int|
            0 <= i < wrapped_lines(text, width).len() ==> (#[trigger] wrapped_lines(
                text,
                width,
            )[i]).len() <= width,
{
    let source = if text.len() == 0 {
        seq![seq![]]
    } else {
        line_seq(text)
    };
    lemma_wrapped_all_fits(source, width);
}

/// The characters of `s` other than white space.
pub open spec fn ink(s: Seq<char>) -> Seq<char> {
    s.filter(|c: char| !white_space(c))
}

/// The characters of all `parts` other than white space.
pub open spec fn ink_all(parts: Seq<Seq<char>>) -> Seq<char>
    decreases parts.len(),
{
    if parts.len() == 0 {
        seq![]
    } else {
        ink_all(parts.drop_last()) + ink(parts.last())
    }
}

pub proof fn lemma_ink_add(a: Seq<char>, b: Seq<char>)
    ensures
        ink(a + b) == ink(a) + ink(b),
{
    Seq::filter_distributes_over_add(a, b, |c: char| !white_space(c));
}

pub proof fn lemma_ink_one(c: char)
    ensures
        ink(seq![c]) == if white_space(c) {
            seq![]
        } else {
            seq![c]
        },
{
    reveal_with_fuel(Seq::filter, 2);
    assert(seq![c].drop_last() =~= Seq::<char>::empty());
    assert(ink(seq![c]) =~= if white_space(c) {
        seq![]
    } else {
        seq![c]
    });
}

pub proof fn lemma_ink_empty()
    ensures
        ink(seq![]) == Seq::<char>::empty(),
{
    reveal_with_fuel(Seq::filter, 1);
}

proof fn lemma_ink_all_add(a: Seq<Seq<char>>, b: Seq<Seq<char>>)
    ensures
        ink_all(a + b) == ink_all(a) + ink_all(b),
    decreases b.len(),
{
    if b.len() == 0 {
        assert(a + b =~= a);
        assert(ink_all(a) + ink_all(b) =~= ink_all(a));
    } else {
        lemma_ink_all_add(a, b.drop_last());
        assert((a + b).drop_last() =~= a + b.drop_last());
        assert(ink_all(a + b) =~= ink_all(a) + ink_all(b));
    }
}

pub proof fn lemma_ink_all_one(s: Seq<char>)
    ensures
        ink_all(seq![s]) == ink(s),
{
    assert(seq![s].drop_last() =~= Seq::<Seq<char>>::empty());
    assert(ink_all(seq![s]) =~= ink(s)) by {
        reveal_with_fuel(ink_all, 2);
    }
}

proof fn lemma_ink_chunks(word: Seq<char>, size: int)
    requires
        size > 0,
    ensures
        ink_all(chunks(word, size)) == ink(word),
    decreases word.len(),
{
    if word.len() == 0 {
        lemma_ink_empty();
        assert(word =~= seq![]);
    } else if word.len() <= size {
        lemma_ink_all_one(word);
    } else {
        lemma_ink_chunks(word.skip(size), size);
        lemma_ink_all_add(seq![word.take(size)], chunks(word.skip(size), size));
        lemma_ink_all_one(word.take(size));
        lemma_ink_add(word.take(size), word.skip(size));
        assert(word =~= word.take(size) + word.skip(size));
    }
}

proof fn lemma_ink_start(done: Seq<Seq<char>>, word: Seq<char>, width: int)
    requires
        width > 0,
    ensures
        ({
            let g = start_line(done, word, width);
            ink_all(g.done) + ink(g.open) == ink_all(done) + ink(word)
        }),
{
    if word.len() > width {
        lemma_ink_chunks(word, width);
        lemma_ink_all_add(done, chunks(word, width));
        lemma_ink_empty();
        let g = start_line(done, word, width);
        assert(ink_all(g.done) + ink(g.open) =~= ink_all(done) + ink(word));
    }
}

pub proof fn lemma_ink_push(done: Seq<Seq<char>>, s: Seq<char>)
    ensures
        ink_all(done.push(s)) == ink_all(done) + ink(s),
{
    assert(done.push(s).drop_last() =~= done);
}

proof fn lemma_ink_fill(words: Seq<Seq<char>>, width: int)
    requires
        width > 0,
    ensures
        ink_all(fill(words, width).done) + ink(fill(words, width).open) == ink_all(words),
    decreases words.len(),
{
    if words.len() == 0 {
        lemma_ink_empty();
        assert(ink_all(fill(words, width).done) + ink(fill(words, width).open) =~= ink_all(words));
    } else {
        let f = fill(words.drop_last(), width);
        let word = words.last();
        lemma_ink_fill(words.drop_last(), width);
        if f.open.len() == 0 {
            lemma_ink_start(f.done, word, width);
            lemma_ink_empty();
            assert(f.open =~= seq![]);
            assert(ink_all(f.done) + ink(f.open) =~= ink_all(f.done));
        } else if f.open.len() + 1 + word.len() <= width {
            lemma_ink_add(f.open + seq![' '], word);
            lemma_ink_add(f.open, seq![' ']);
            lemma_ink_one(' ');
            assert(ink(f.open) + seq![] =~= ink(f.open));
            assert(ink_all(f.done) + (ink(f.open) + ink(word)) =~= (ink_all(f.done) + ink(f.open))
                + ink(word));
        } else {
            lemma_ink_start(f.done.push(f.open), word, width);
            lemma_ink_push(f.done, f.open);
        }
    }
}

proof fn lemma_ink_words(s: Seq<char>)
    ensures
        ink_all(word_seq(s)) == ink(s),
    decreases s.len(),
{
    if s.len() == 0 {
        lemma_ink_empty();
        assert(s =~= seq![]);
    } else if white_space(s[0]) {
        lemma_ink_words(s.skip(1));
        assert(s =~= seq![s[0]] + s.skip(1));
        lemma_ink_add(seq![s[0]], s.skip(1));
        lemma_ink_one(s[0]);
        assert(seq![] + ink(s.skip(1)) =~= ink(s.skip(1)));
    } else {
        lemma_word_len(s);
        let n = word_len(s);
        lemma_ink_words(s.skip(n));
        assert(s =~= s.take(n) + s.skip(n));
        lemma_ink_add(s.take(n), s.skip(n));
        lemma_ink_all_add(seq![s.take(n)], word_seq(s.skip(n)));
        lemma_ink_all_one(s.take(n));
    }
}

/// Wrapping moves white space only: all other characters stay, in their order.
pub proof fn law_wrapped_text_keeps_ink(text: Seq<char>, width: int)
    requires
        width >= 0,
    ensures
        ink_all(wrapped(text, width)) == ink(text),
{
    if width == 0 {
        lemma_ink_all_one(text);
    } else {
        let f = fill(word_seq(text), width);
        lemma_ink_fill(word_seq(text), width);
        lemma_ink_words(text);
        lemma_ink_empty();
        if f.open.len() > 0 {
            lemma_ink_push(f.done, f.open);
        } else {
            assert(f.open =~= seq![]);
            assert(ink_all(f.done) + ink(f.open) =~= ink_all(f.done));
        }
        if finish(f).len() == 0 {
            lemma_ink_all_one(seq![]);
        }
    }
}

pub proof fn lemma_ink_wrapped_all(source: Seq<Seq<char>>, width: int)
    requires
        width >= 0,
    ensures
        ink_all(wrapped_all(source, width)) == ink_all(source),
    decreases source.len(),
{
    if source.len() > 0 {
        lemma_ink_wrapped_all(source.drop_last(), width);
        law_wrapped_text_keeps_ink(source.last(), width);
        lemma_ink_all_add(
            wrapped_all(source.drop_last(), width),
            wrapped(source.last(), width),
        );
    }
}

proof fn lemma_ink_without_cr(s: Seq<char>)
    ensures
        ink(without_cr(s)) == ink(s),
{
    if s.len() > 0 && s.last() == '\r' {
        assert(s =~= s.drop_last() + seq!['\r']);
        lemma_ink_add(s.drop_last(), seq!['\r']);
        lemma_ink_one('\r');
        assert(ink(s.drop_last()) + seq![] =~= ink(s.drop_last()));
    }
}

pub proof fn lemma_ink_lines(s: Seq<char>)
    ensures
        ink_all(line_seq(s)) == ink(s),
    decreases s.len(),
{
    lemma_first_index(s, '\n');
    let n = first_index(s, '\n');
    if s.len() == 0 {
        lemma_ink_empty();
        assert(s =~= seq![]);
    } else if n == s.len() {
        lemma_ink_all_one(s);
    } else {
        let head = s.take(n);
        let tail = s.skip(n + 1);
        lemma_ink_lines(tail);
        lemma_ink_all_add(seq![without_cr(head)], line_seq(tail));
        lemma_ink_all_one(without_cr(head));
        lemma_ink_without_cr(head);
        assert(s =~= head + seq!['\n'] + tail);
        lemma_ink_add(head + seq!['\n'], tail);
        lemma_ink_add(head, seq!['\n']);
        lemma_ink_one('\n');
        assert(ink(head) + seq![] =~= ink(head));
    }
}

/// Wrapping line by line moves white space only, too.
pub proof fn law_wrapped_lines_keep_ink(text: Seq<char>, width: int)
    requires
        width >= 0,
    ensures
        ink_all(wrapped_lines(text, width)) == ink(text),
{
    if text.len() == 0 {
        assert(text =~= seq![]);
        lemma_ink_wrapped_all(seq![seq![]], width);
        lemma_ink_all_one(seq![]);
    } else {
        lemma_ink_wrapped_all(line_seq(text), width);
        lemma_ink_lines(text);
    }
}

proof fn lemma_wrapped_all_not_empty(source: Seq<Seq<char>>, width: int)
    requires
        source.len() > 0,
    ensures
        wrapped_all(source, width).len() > 0,
{
    assert(wrapped(source.last(), width).len() >= 1);
}

/// Every text is shown on at least one line.
pub proof fn law_wrapped_lines_are_not_empty(text: Seq<char>, width: int)
    ensures
        wrapped_lines(text, width).len() > 0,
{
    if text.len() == 0 {
        lemma_wrapped_all_not_empty(seq![seq![]], width);
    } else {
        lemma_wrapped_all_not_empty(line_seq(text), width);
    }
}

proof fn lemma_words_not_empty(s: Seq<char>)
    ensures
        forall|i: int| 0 <= i < word_seq(s).len() ==> (#[trigger] word_seq(s)[i]).len() > 0,
    decreases s.len(),
{
    if s.len() > 0 {
        lemma_word_len(s);
        if white_space(s[0]) {
            lemma_words_not_empty(s.skip(1));
            assert(word_seq(s) == word_seq(s.skip(1)));
        } else {
            let rest = s.skip(word_len(s));
            lemma_word_len(s.skip(1));
            assert(word_len(s) == 1 + word_len(s.skip(1)));
            lemma_words_not_empty(rest);
            assert forall|i: int| 0 <= i < word_seq(s).len() implies (
            #[trigger] word_seq(s)[i]).len() > 0 by {
                if i > 0 {
                    assert(word_seq(s)[i] == word_seq(rest)[i - 1]);
                }
            }
        }
    }
}

proof fn lemma_joined_push(parts: Seq<Seq<char>>, part: Seq<char>, sep: Seq<char>)
    ensures
        joined(parts.push(part), sep) == if parts.len() == 0 {
            part
        } else {
            joined(parts, sep) + sep + part
        },
{
    assert(parts.push(part).drop_last() =~= parts);
}

proof fn lemma_fill_keeps_words(words: Seq<Seq<char>>, width: int)
    requires
        words.len() > 0,
        forall|i: int| 0 <= i < words.len() ==> 0 < (#[trigger] words[i]).len() <= width,
    ensures
        fill(words, width).open.len() > 0,
        joined(finish(fill(words, width)), seq![' ']) == joined(words, seq![' ']),
    decreases words.len(),
{
    let sp = seq![' '];
    let head = words.drop_last();
    let word = words[words.len() - 1];
    assert(0 < word.len() <= width);
    assert(words =~= head.push(word));
    lemma_joined_push(head, word, sp);
    let f = fill(head, width);
    let g = fill(words, width);
    if head.len() == 0 {
        assert(f.done =~= seq![]);
        lemma_joined_push(g.done, g.open, sp);
    } else {
        assert forall|i: int| 0 <= i < head.len() implies 0 < (#[trigger] head[i]).len()
            <= width by {
            assert(head[i] == words[i]);
        }
        lemma_fill_keeps_words(head, width);
        lemma_joined_push(f.done, f.open, sp);
        lemma_joined_push(g.done, g.open, sp);
        lemma_joined_push(f.done.push(f.open), word, sp);
        assert(joined(finish(g), sp) =~= joined(words, sp));
    }
}

/// Where every word fits on a line, the lines hold the words in their order: joined by spaces,
/// both are the same.
pub proof fn law_wrapped_text_keeps_words(text: Seq<char>, width: int)
    requires
        width > 0,
        forall|i: int|
            0 <= i < word_seq(text).len() ==> (#[trigger] word_seq(text)[i]).len() <= width,
    ensures
        joined(wrapped(text, width), seq![' ']) == joined(word_seq(text), seq![' ']),
{
    if word_seq(text).len() > 0 {
        lemma_words_not_empty(text);
        lemma_fill_keeps_words(word_seq(text), width);
    }
}

/// A text has ink exactly if it is not blank.
pub proof fn lemma_ink_of_blank(s: Seq<char>)
    ensures
        trimmed(s).len() == 0 <==> ink(s).len() == 0,
        ink(trimmed(s)) == ink(s),
{
    let (lead, trail) = lemma_trim_parts(s);
    let core = trimmed(s);
    lemma_ink_add(lead + core, trail);
    lemma_ink_add(lead, core);
    lemma_no_ink(lead);
    lemma_no_ink(trail);
    assert(seq![] + ink(core) + seq![] =~= ink(core));
    if core.len() > 0 {
        assert(core =~= seq![core[0]] + core.skip(1));
        lemma_ink_add(seq![core[0]], core.skip(1));
        lemma_ink_one(core[0]);
    } else {
        lemma_ink_empty();
        assert(core =~= seq![]);
    }
}

proof fn lemma_no_ink(s: Seq<char>)
    requires
        blank(s),
    ensures
        ink(s) == Seq::<char>::empty(),
    decreases s.len(),
{
    if s.len() == 0 {
        lemma_ink_empty();
        assert(s =~= seq![]);
    } else {
        let rest = s.skip(1);
        assert(white_space(s[0]));
        assert forall|i: int| 0 <= i < rest.len() implies white_space(#[trigger] rest[i]) by {
            assert(white_space(s[i + 1]));
        }
        lemma_no_ink(rest);
        assert(s =~= seq![s[0]] + rest);
        lemma_ink_add(seq![s[0]], rest);
        lemma_ink_one(s[0]);
    }
}

/// The words of a text are runs without white space, none of them empty, that hold all of its
/// other characters in their order.
pub proof fn law_words_are_runs(s: Seq<char>)
    ensures
        forall|i: int| 0 <= i < word_seq(s).len() ==> (#[trigger] word_seq(s)[i]).len() > 0,
        forall|i: int, j: int|
            0 <= i < word_seq(s).len() && 0 <= j < word_seq(s)[i].len() ==> !white_space(
                #[trigger] word_seq(s)[i][j],
            ),
        ink_all(word_seq(s)) == ink(s),
    decreases s.len(),
{
    lemma_words_not_empty(s);
    lemma_ink_words(s);
    if s.len() > 0 {
        lemma_word_len(s);
        if white_space(s[0]) {
            law_words_are_runs(s.skip(1));
            assert(word_seq(s) == word_seq(s.skip(1)));
        } else {
            let n = word_len(s);
            let rest = s.skip(n);
            lemma_word_len(s.skip(1));
            law_words_are_runs(rest);
            assert forall|i: int, j: int|
                0 <= i < word_seq(s).len() && 0 <= j < word_seq(s)[i].len() implies !white_space(
                #[trigger] word_seq(s)[i][j],
            ) by {
                if i == 0 {
                    assert(word_seq(s)[0] == s.take(n));
                } else {
                    assert(word_seq(s)[i] == word_seq(rest)[i - 1]);
                }
            }
        }
    }
}

/// White space parts words: the words of two texts with white space between them are those of the
/// one and of the other. A text without white space is one word.
pub proof fn law_white_space_parts_words(a: Seq<char>, c: char, b: Seq<char>)
    requires
        white_space(c),
    ensures
        word_seq(a + seq![c] + b) == word_seq(a) + word_seq(b),
        a.len() > 0 && (forall|i: int| 0 <= i < a.len() ==> !white_space(#[trigger] a[i]))
            ==> word_seq(a) == seq![a],
    decreases a.len(),
{
    let whole = a + seq![c] + b;
    if a.len() == 0 {
        assert(whole[0] == c);
        assert(whole.skip(1) =~= b);
        assert(word_seq(a) + word_seq(b) =~= word_seq(b));
    } else if white_space(a[0]) {
        assert(whole[0] == a[0]);
        assert(whole.skip(1) =~= a.skip(1) + seq![c] + b);
        law_white_space_parts_words(a.skip(1), c, b);
    } else {
        lemma_word_len(a);
        lemma_word_len(a.skip(1));
        let n = word_len(a);
        assert(n >= 1);
        assert(whole[0] == a[0]);
        assert forall|i: int| 0 <= i < n implies !white_space(whole[i]) by {
            assert(whole[i] == a[i]);
        }
        assert(white_space(whole[n]));
        lemma_word_len_is(whole, n);
        assert(whole.take(n) =~= a.take(n));
        assert(whole.skip(n) =~= a.skip(n) + seq![c] + b);
        law_white_space_parts_words(a.skip(n), c, b);
        assert(seq![a.take(n)] + (word_seq(a.skip(n)) + word_seq(b)) =~= (seq![a.take(n)]
            + word_seq(a.skip(n))) + word_seq(b));
        if forall|i: int| 0 <= i < a.len() ==> !white_space(#[trigger] a[i]) {
            assert(n == a.len());
            assert(a.take(n) =~= a);
            assert(word_seq(a.skip(n)) =~= seq![]);
        }
    }
}

proof fn lemma_word_len_behind(a: Seq<char>, b: Seq<char>)
    ensures
        word_len(a + seq![' '] + b) == word_len(a),
{
    lemma_word_len(a);
    let whole = a + seq![' '] + b;
    let n = word_len(a);
    assert forall|i: int| 0 <= i < n implies !white_space(whole[i]) by {
        assert(whole[i] == a[i]);
    }
    assert(n < a.len() ==> whole[n] == a[n]);
    assert(n == a.len() ==> whole[n] == ' ');
    lemma_word_len_is(whole, n);
}

spec fn filled_greedily(f: Filling, width: int) -> bool {
    &&& forall|i: int|
        0 <= i < f.done.len() - 1 ==> (#[trigger] f.done[i]).len() + 1 + word_len(f.done[i + 1])
            > width
    &&& f.done.len() > 0 && f.open.len() > 0 ==> f.done.last().len() + 1 + word_len(f.open) > width
}

proof fn lemma_fill_is_greedy(words: Seq<Seq<char>>, width: int)
    requires
        forall|i: int| 0 <= i < words.len() ==> 0 < (#[trigger] words[i]).len() <= width,
        forall|i: int, j: int|
            0 <= i < words.len() && 0 <= j < words[i].len() ==> !white_space(
                #[trigger] words[i][j],
            ),
    ensures
        filled_greedily(fill(words, width), width),
        words.len() > 0 ==> fill(words, width).open.len() > 0,
    decreases words.len(),
{
    if words.len() > 0 {
        let head = words.drop_last();
        let n = words.len() - 1;
        let word = words[n];
        assert forall|i: int| 0 <= i < head.len() implies 0 < (#[trigger] head[i]).len()
            <= width by {
            assert(head[i] == words[i]);
        }
        assert forall|i: int, j: int|
            0 <= i < head.len() && 0 <= j < head[i].len() implies !white_space(
            #[trigger] head[i][j],
        ) by {
            assert(words[i][j] == head[i][j]);
        }
        lemma_fill_is_greedy(head, width);
        assert(0 < word.len() <= width);
        assert forall|j: int| 0 <= j < word.len() implies !white_space(word[j]) by {
            assert(words[n][j] == word[j]);
        }
        lemma_word_len_is(word, word.len() as int);
        let f = fill(head, width);
        let g = fill(words, width);
        lemma_word_len_behind(f.open, word);
        if f.open.len() > 0 && f.open.len() + 1 + word.len() > width {
            assert(g.done == f.done.push(f.open));
            assert forall|i: int| 0 <= i < g.done.len() - 1 implies (#[trigger] g.done[i]).len() + 1
                + word_len(g.done[i + 1]) > width by {
                if i < f.done.len() - 1 {
                    assert(g.done[i] == f.done[i]);
                }
            }
        }
    }
}

/// Where every word fits on a line, no line could take a word more: behind each line the first
/// word of the next would not fit.
pub proof fn law_wrapped_lines_are_full(text: Seq<char>, width: int)
    requires
        width > 0,
        forall|i: int|
            0 <= i < word_seq(text).len() ==> (#[trigger] word_seq(text)[i]).len() <= width,
    ensures
        forall|i: int|
            0 <= i < wrapped(text, width).len() - 1 ==> (#[trigger] wrapped(text, width)[i]).len()
                + 1 + word_len(wrapped(text, width)[i + 1]) > width,
{
    law_words_are_runs(text);
    lemma_fill_is_greedy(word_seq(text), width);
    let f = fill(word_seq(text), width);
    let all = wrapped(text, width);
    assert forall|i: int| 0 <= i < all.len() - 1 implies (#[trigger] all[i]).len() + 1 + word_len(
        all[i + 1],
    ) > width by {
        if i < f.done.len() - 1 {
            assert(all[i] == f.done[i]);
            assert(all[i + 1] == f.done[i + 1]);
        }
    }
}

/// A word that is cut loses nothing, and all its pieces but the last have exactly the size.
pub proof fn law_cut_word_is_whole(word: Seq<char>, size: int)
    requires
        size > 0,
    ensures
        chunks(word, size).flatten() == word,
        forall|i: int|
            0 <= i < chunks(word, size).len() ==> 0 < (#[trigger] chunks(word, size)[i]).len()
                <= size,
        forall|i: int|
            0 <= i < chunks(word, size).len() - 1 ==> (#[trigger] chunks(word, size)[i]).len()
                == size,
    decreases word.len(),
{
    let all = chunks(word, size);
    if word.len() == 0 {
        assert(all.flatten() =~= word);
    } else if word.len() <= size {
        assert(all.drop_first() =~= seq![]);
        assert(all.drop_first().flatten() =~= seq![]);
        assert(all.flatten() =~= word);
    } else {
        let rest = chunks(word.skip(size), size);
        law_cut_word_is_whole(word.skip(size), size);
        assert(all.drop_first() =~= rest);
        assert(all.flatten() =~= word.take(size) + word.skip(size));
        assert(word.take(size) + word.skip(size) =~= word);
        assert forall|i: int| 0 <= i < all.len() implies 0 < (#[trigger] all[i]).len() <= size by {
            if i > 0 {
                assert(all[i] == rest[i - 1]);
            }
        }
        assert forall|i: int| 0 <= i < all.len() - 1 implies (#[trigger] all[i]).len() == size by {
            if i > 0 {
                assert(all[i] == rest[i - 1]);
            }
        }
    }
}

/// Texts that were wrapped one by one stand one after the other.
pub proof fn lemma_wrapped_all_add(a: Seq<Seq<char>>, b: Seq<Seq<char>>, width: int)
    ensures
        wrapped_all(a + b, width) == wrapped_all(a, width) + wrapped_all(b, width),
        wrapped_all(a, width).len() >= a.len(),
    decreases b.len(), a.len(),
{
    if a.len() > 0 {
        lemma_wrapped_all_add(a.drop_last(), seq![], width);
        assert(wrapped(a.last(), width).len() >= 1);
    }
    if b.len() == 0 {
        assert(a + b =~= a);
        assert(wrapped_all(a, width) + wrapped_all(b, width) =~= wrapped_all(a, width));
    } else {
        lemma_wrapped_all_add(a, b.drop_last(), width);
        assert((a + b).drop_last() =~= a + b.drop_last());
        assert(wrapped_all(a + b, width) =~= wrapped_all(a, width) + wrapped_all(b, width));
    }
}

/// Lines are wrapped each on its own: those of two texts with a line feed between them are those
/// of the one and of the other. One line is wrapped as it is.
pub proof fn law_lines_are_wrapped_on_their_own(a: Seq<char>, b: Seq<char>, width: int)
    requires
        a.len() > 0,
        a.last() != '\n',
        a.last() != '\r',
        b.len() > 0,
    ensures
        wrapped_lines(a + seq!['\n'] + b, width) == wrapped_lines(a, width) + wrapped_lines(
            b,
            width,
        ),
        one_line(a) ==> wrapped_lines(a, width) == wrapped(a, width),
{
    lemma_lines_of_two(a, b);
    lemma_wrapped_all_add(line_seq(a), line_seq(b), width);
    if one_line(a) {
        lemma_first_index_is(a, '\n', a.len() as int);
        assert(line_seq(a) =~= seq![a]);
        assert(seq![a].drop_last() =~= seq![]);
        assert(wrapped_all(seq![a].drop_last(), width) =~= seq![]);
        assert(wrapped_all(seq![a], width) =~= wrapped(a, width));
    }
}

proof fn lemma_fill_holds_words(words: Seq<Seq<char>>, width: int)
    requires
        width > 0,
        forall|i: int| 0 <= i < words.len() ==> (#[trigger] words[i]).len() > 0,
    ensures
        words.len() > 0 ==> finish(fill(words, width)).len() > 0,
    decreases words.len(),
{
    if words.len() > 0 {
        let head = words.drop_last();
        assert forall|i: int| 0 <= i < head.len() implies (#[trigger] head[i]).len() > 0 by {
            assert(head[i] == words[i]);
        }
        lemma_fill_holds_words(head, width);
        assert(words[words.len() - 1].len() > 0);
        lemma_chunks_fit(words.last(), width);
        assert(chunks(words.last(), width).len() > 0);
    }
}

proof fn lemma_fill_starts_over(before: Seq<Seq<char>>, words: Seq<Seq<char>>, width: int)
    requires
        fill(before, width).open.len() == 0,
    ensures
        fill(before + words, width).done == fill(before, width).done + fill(words, width).done,
        fill(before + words, width).open == fill(words, width).open,
    decreases words.len(),
{
    if words.len() == 0 {
        assert(before + words =~= before);
        assert(fill(before, width).open =~= seq![]);
        assert(fill(before, width).done + fill(words, width).done =~= fill(before, width).done);
    } else {
        assert((before + words).drop_last() =~= before + words.drop_last());
        lemma_fill_starts_over(before, words.drop_last(), width);
        assert(fill(before + words, width).done =~= fill(before, width).done + fill(
            words,
            width,
        ).done);
    }
}

/// The lines of a text that has words.
pub open spec fn lines_with_words(text: Seq<char>, width: int) -> Seq<Seq<char>> {
    if word_seq(text).len() == 0 {
        seq![]
    } else {
        wrapped(text, width)
    }
}

/// A word that is too long for a line takes lines of its own: what stands before it and what
/// stands behind it are wrapped as if they were alone.
pub proof fn law_long_word_takes_lines_of_its_own(
    before: Seq<char>,
    c: char,
    word: Seq<char>,
    d: char,
    after: Seq<char>,
    width: int,
)
    requires
        0 < width < word.len(),
        forall|i: int| 0 <= i < word.len() ==> !white_space(#[trigger] word[i]),
        white_space(c),
        white_space(d),
    ensures
        wrapped(before + seq![c] + word + seq![d] + after, width) == lines_with_words(before, width)
            + chunks(word, width) + lines_with_words(after, width),
{
    let text = before + seq![c] + word + seq![d] + after;
    law_white_space_parts_words(before + seq![c] + word, d, after);
    law_white_space_parts_words(before, c, word);
    law_white_space_parts_words(word, d, seq![]);
    law_words_are_runs(before);
    law_words_are_runs(after);
    let first = word_seq(before);
    let second = word_seq(after);
    let middle = first + seq![word];
    assert(word_seq(text) == middle + second);
    assert(middle.drop_last() =~= first);
    lemma_chunks_fit(word, width);
    assert(chunks(word, width).len() > 0);
    lemma_fill_holds_words(first, width);
    lemma_fill_holds_words(second, width);
    assert(fill(middle, width).done =~= finish(fill(first, width)) + chunks(word, width));
    lemma_fill_starts_over(middle, second, width);
    if first.len() == 0 {
        assert(finish(fill(first, width)) =~= seq![]);
    }
    if second.len() == 0 {
        assert(finish(fill(second, width)) =~= seq![]);
    }
    assert(finish(fill(middle + second, width)) =~= fill(middle, width).done + finish(
        fill(second, width),
    ));
}

/// Without any width a text stays on one line as it is, and a text without words is one empty
/// line.
pub proof fn law_text_without_width_or_words(text: Seq<char>, width: int)
    ensures
        wrapped(text, 0) == seq![text],
        width > 0 && word_seq(text).len() == 0 ==> wrapped(text, width) == seq![
            Seq::<char>::empty(),
        ],
        wrapped_lines(seq![], width) == seq![Seq::<char>::empty()],
{
    let e = Seq::<char>::empty();
    assert(seq![e].drop_last() =~= seq![]);
    assert(wrapped_all(seq![e].drop_last(), width) =~= seq![]);
    assert(word_seq(e) =~= seq![]);
    assert(wrapped(e, width) =~= seq![e]);
    assert(wrapped_all(seq![e], width) =~= wrapped(e, width));
}

} // verus!
