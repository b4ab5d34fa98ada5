//! Text primitives over the characters of a string.

use vstd::prelude::*;
use vstd::string::*;

verus! {

/// Appends one character (`String::push`): the text grows by that character.
pub assume_specification[ String::push ](s: &mut String, c: char)
    ensures
        final(s)@ == old(s)@.push(c),
;

/// The contents of a list of strings.
pub open spec fn texts(v: Seq<String>) -> Seq<Seq<char>> {
    Seq::new(v.len(), |i: int| v[i]@)
}

/// The characters with the Unicode property `White_Space`.
pub open spec fn white_space(c: char) -> bool {
    ||| '\u{9}' <= c <= '\u{d}'
    ||| c == '\u{20}'
    ||| c == '\u{85}'
    ||| c == '\u{a0}'
    ||| c == '\u{1680}'
    ||| '\u{2000}' <= c <= '\u{200a}'
    ||| c == '\u{2028}'
    ||| c == '\u{2029}'
    ||| c == '\u{202f}'
    ||| c == '\u{205f}'
    ||| c == '\u{3000}'
}

/// Whether `c` counts as white space.
pub fn is_white_space(c: char) -> (r: bool)
    ensures
        r == white_space(c),
{
    ('\u{9}' <= c && c <= '\u{d}') || c == '\u{20}' || c == '\u{85}' || c == '\u{a0}' || c
        == '\u{1680}' || ('\u{2000}' <= c && c <= '\u{200a}') || c == '\u{2028}' || c == '\u{2029}'
        || c == '\u{202f}' || c == '\u{205f}' || c == '\u{3000}'
}

/// The characters of `s`, in order.
pub fn chars_of(s: &str) -> (r: Vec<char>)
    ensures
        r@ == s@,
{
    let mut r: Vec<char> = Vec::new();
    for c in it: s.chars()
        invariant
            it.seq() == s@,
            r@ == s@.take(it.index()),
    {
        r.push(c);
    }
    assert(s@.take(s@.len() as int) == s@);
    r
}

/// The text of the characters from `from` up to `to`.
pub fn text_between(chars: &Vec<char>, from: usize, to: usize) -> (r: String)
    requires
        from <= to <= chars@.len(),
    ensures
        r@ == chars@.subrange(from as int, to as int),
{
    let mut r = String::new();
    let mut i: usize = from;
    while i < to
        invariant
            from <= i <= to <= chars@.len(),
            r@ == chars@.subrange(from as int, i as int),
        decreases to - i,
    {
        r.push(chars[i]);
        i += 1;
    }
    r
}

/// Whether two strings hold the same characters.
pub fn same_text(a: &str, b: &str) -> (r: bool)
    ensures
        r == (a@ == b@),
{
    let x = chars_of(a);
    let y = chars_of(b);
    if x.len() != y.len() {
        return false;
    }
    let mut i: usize = 0;
    while i < x.len()
        invariant
            i <= x@.len(),
            x@.len() == y@.len(),
            forall|j: int| 0 <= j < i ==> x@[j] == y@[j],
            x@ == a@,
            y@ == b@,
        decreases x@.len() - i,
    {
        if x[i] != y[i] {
            return false;
        }
        i += 1;
    }
    assert(x@ =~= y@);
    true
}

/// `s` without the white space it starts with.
pub open spec fn trimmed_start(s: Seq<char>) -> Seq<char>
    decreases s.len(),
{
    if s.len() > 0 && white_space(s[0]) {
        trimmed_start(s.skip(1))
    } else {
        s
    }
}

/// `s` without the white space it ends with.
pub open spec fn trimmed_end(s: Seq<char>) -> Seq<char>
    decreases s.len(),
{
    if s.len() > 0 && white_space(s.last()) {
        trimmed_end(s.drop_last())
    } else {
        s
    }
}

/// `s` without the white space around it.
pub open spec fn trimmed(s: Seq<char>) -> Seq<char> {
    trimmed_end(trimmed_start(s))
}

/// The text without the white space at its end.
pub fn trim_end(s: &str) -> (r: &str)
    ensures
        r@ == trimmed_end(s@),
{
    let chars = chars_of(s);
    let mut to: usize = chars.len();
    assert(s@.take(to as int) == s@);
    while to > 0 && is_white_space(chars[to - 1])
        invariant
            to <= chars@.len(),
            chars@ == s@,
            trimmed_end(s@) == trimmed_end(s@.take(to as int)),
        decreases to,
    {
        assert(s@.take(to as int).drop_last() == s@.take(to - 1));
        to -= 1;
    }
    assert(s@.subrange(0, to as int) == s@.take(to as int));
    s.substring_char(0, to)
}

/// The text without the white space around it.
pub fn trim(s: &str) -> (r: &str)
    ensures
        r@ == trimmed(s@),
{
    let chars = chars_of(s);
    let mut from: usize = 0;
    assert(s@.skip(0) == s@);
    while from < chars.len() && is_white_space(chars[from])
        invariant
            from <= chars@.len(),
            chars@ == s@,
            trimmed_start(s@) == trimmed_start(s@.skip(from as int)),
        decreases chars@.len() - from,
    {
        assert(s@.skip(from as int).skip(1) == s@.skip(from + 1));
        from += 1;
    }
    assert(s@.subrange(from as int, chars@.len() as int) == s@.skip(from as int));
    trim_end(s.substring_char(from, chars.len()))
}

/// The position of the first `c` in `s`, or the length of `s` where there is none.
pub open spec fn first_index(s: Seq<char>, c: char) -> int
    decreases s.len(),
{
    if s.len() == 0 || s[0] == c {
        0
    } else {
        1 + first_index(s.skip(1), c)
    }
}

pub proof fn lemma_first_index(s: Seq<char>, c: char)
    ensures
        0 <= first_index(s, c) <= s.len(),
        first_index(s, c) < s.len() ==> s[first_index(s, c)] == c,
        forall|i: int| 0 <= i < first_index(s, c) ==> s[i] != c,
    decreases s.len(),
{
    if s.len() > 0 && s[0] != c {
        lemma_first_index(s.skip(1), c);
        assert forall|i: int| 0 <= i < first_index(s, c) implies s[i] != c by {
            if i > 0 {
                assert(s.skip(1)[i - 1] == s[i]);
            }
        }
    }
}

/// The first index is the only position before which there is no `c`.
pub proof fn lemma_first_index_is(s: Seq<char>, c: char, n: int)
    requires
        0 <= n <= s.len(),
        n < s.len() ==> s[n] == c,
        forall|i: int| 0 <= i < n ==> s[i] != c,
    ensures
        first_index(s, c) == n,
{
    lemma_first_index(s, c);
    let k = first_index(s, c);
    if k < n {
        assert(s[k] == c);
    } else if n < k {
        assert(s[n] != c);
    }
}

/// The pieces of `s` between the occurrences of `c`.
pub open spec fn split_at_each(s: Seq<char>, c: char) -> Seq<Seq<char>>
    decreases s.len(),
    via split_at_each_decreases
{
    let n = first_index(s, c);
    if n == s.len() {
        seq![s]
    } else {
        seq![s.take(n)] + split_at_each(s.skip(n + 1), c)
    }
}

#[via_fn]
proof fn split_at_each_decreases(s: Seq<char>, c: char) {
    lemma_first_index(s, c);
}

/// A line without the carriage return before its line feed.
pub open spec fn without_cr(s: Seq<char>) -> Seq<char> {
    if s.len() > 0 && s.last() == '\r' {
        s.drop_last()
    } else {
        s
    }
}

/// The lines of a text: each ends at a line feed, or at a carriage return and a line feed;
/// the ending of the last line may be missing.
pub open spec fn line_seq(s: Seq<char>) -> Seq<Seq<char>>
    decreases s.len(),
    via line_seq_decreases
{
    let n = first_index(s, '\n');
    if s.len() == 0 {
        seq![]
    } else if n == s.len() {
        seq![s]
    } else {
        seq![without_cr(s.take(n))] + line_seq(s.skip(n + 1))
    }
}

#[via_fn]
proof fn line_seq_decreases(s: Seq<char>) {
    lemma_first_index(s, '\n');
}

/// How many characters stand before the first white space.
pub open spec fn word_len(s: Seq<char>) -> int
    decreases s.len(),
{
    if s.len() == 0 || white_space(s[0]) {
        0
    } else {
        1 + word_len(s.skip(1))
    }
}

pub proof fn lemma_word_len(s: Seq<char>)
    ensures
        0 <= word_len(s) <= s.len(),
        word_len(s) < s.len() ==> white_space(s[word_len(s)]),
        forall|i: int| 0 <= i < word_len(s) ==> !white_space(s[i]),
    decreases s.len(),
{
    if s.len() > 0 && !white_space(s[0]) {
        lemma_word_len(s.skip(1));
        assert forall|i: int| 0 <= i < word_len(s) implies !white_space(s[i]) by {
            if i > 0 {
                assert(s.skip(1)[i - 1] == s[i]);
            }
        }
    }
}

/// The words of a text: its longest runs without white space.
pub open spec fn word_seq(s: Seq<char>) -> Seq<Seq<char>>
    decreases s.len(),
    via word_seq_decreases
{
    if s.len() == 0 {
        seq![]
    } else if white_space(s[0]) {
        word_seq(s.skip(1))
    } else {
        seq![s.take(word_len(s))] + word_seq(s.skip(word_len(s)))
    }
}

#[via_fn]
proof fn word_seq_decreases(s: Seq<char>) {
    lemma_word_len(s);
}

/// `parts` one after the other, with `sep` between them.
pub open spec fn joined(parts: Seq<Seq<char>>, sep: Seq<char>) -> Seq<char>
    decreases parts.len(),
{
    if parts.len() == 0 {
        seq![]
    } else if parts.len() == 1 {
        parts[0]
    } else {
        joined(parts.drop_last(), sep) + sep + parts.last()
    }
}

/// Whether `s` starts with `prefix`.
pub open spec fn has_prefix(s: Seq<char>, prefix: Seq<char>) -> bool {
    prefix.len() <= s.len() && s.take(prefix.len() as int) == prefix
}

/// `s` without the occurrences of `prefix` it starts with.
pub open spec fn without_prefixes(s: Seq<char>, prefix: Seq<char>) -> Seq<char>
    decreases s.len(),
{
    if prefix.len() > 0 && has_prefix(s, prefix) {
        without_prefixes(s.skip(prefix.len() as int), prefix)
    } else {
        s
    }
}

pub proof fn lemma_texts_push(v: Seq<String>, s: String)
    ensures
        texts(v.push(s)) == texts(v).push(s@),
{
    assert(texts(v.push(s)) =~= texts(v).push(s@));
}

/// The position of the first `c` at or after `from`, or the number of characters.
fn find_from(chars: &Vec<char>, from: usize, c: char) -> (r: usize)
    requires
        from <= chars@.len(),
    ensures
        from <= r <= chars@.len(),
        r - from == first_index(chars@.skip(from as int), c),
{
    let mut i: usize = from;
    while i < chars.len() && chars[i] != c
        invariant
            from <= i <= chars@.len(),
            forall|j: int| from <= j < i ==> chars@[j] != c,
        decreases chars@.len() - i,
    {
        i += 1;
    }
    proof {
        lemma_first_index_is(chars@.skip(from as int), c, i - from);
    }
    i
}

/// The pieces of `s` between the occurrences of `c`.
pub fn split_on(s: &str, c: char) -> (r: Vec<String>)
    ensures
        texts(r@) == split_at_each(s@, c),
{
    let chars = chars_of(s);
    let mut r: Vec<String> = Vec::new();
    let mut from: usize = 0;
    assert(s@.skip(0) == s@);
    assert(texts(r@) + split_at_each(s@, c) =~= split_at_each(s@, c));
    loop
        invariant
            chars@ == s@,
            from <= chars@.len(),
            texts(r@) + split_at_each(s@.skip(from as int), c) == split_at_each(s@, c),
        decreases chars@.len() - from,
    {
        let to = find_from(&chars, from, c);
        let piece = text_between(&chars, from, to);
        let ghost rest = s@.skip(from as int);
        let ghost before = texts(r@);
        proof {
            lemma_texts_push(r@, piece);
            assert(piece@ == rest.take(to - from));
        }
        r.push(piece);
        if to == chars.len() {
            proof {
                assert(rest.take(to - from) == rest);
                assert(before + seq![rest] =~= before.push(rest));
            }
            return r;
        }
        proof {
            let tail = split_at_each(rest.skip(to - from + 1), c);
            assert(rest.skip(to - from + 1) == s@.skip(to + 1));
            assert(before + (seq![rest.take(to - from)] + tail) =~= before.push(
                rest.take(to - from),
            ) + tail);
        }
        from = to + 1;
    }
}

/// The lines of a text.
pub fn lines(s: &str) -> (r: Vec<String>)
    ensures
        texts(r@) == line_seq(s@),
{
    let chars = chars_of(s);
    let mut r: Vec<String> = Vec::new();
    let mut from: usize = 0;
    assert(s@.skip(0) == s@);
    assert(texts(r@) + line_seq(s@) =~= line_seq(s@));
    while from < chars.len()
        invariant
            chars@ == s@,
            from <= chars@.len(),
            texts(r@) + line_seq(s@.skip(from as int)) == line_seq(s@),
        decreases chars@.len() - from,
    {
        let to = find_from(&chars, from, '\n');
        let ghost rest = s@.skip(from as int);
        let ghost before = texts(r@);
        if to == chars.len() {
            let piece = text_between(&chars, from, to);
            proof {
                lemma_texts_push(r@, piece);
                assert(piece@ == rest);
                assert(before + seq![rest] =~= before.push(rest));
                assert(s@.skip(to as int) =~= seq![]);
                assert(before.push(rest) + line_seq(s@.skip(to as int)) =~= before.push(rest));
            }
            r.push(piece);
            from = to;
        } else {
            let stop = if to > from && chars[to - 1] == '\r' {
                to - 1
            } else {
                to
            };
            let piece = text_between(&chars, from, stop);
            proof {
                lemma_texts_push(r@, piece);
                assert(piece@ == without_cr(rest.take(to - from)));
                let tail = line_seq(rest.skip(to - from + 1));
                assert(rest.skip(to - from + 1) == s@.skip(to + 1));
                assert(before + (seq![piece@] + tail) =~= before.push(piece@) + tail);
            }
            r.push(piece);
            from = to + 1;
        }
    }
    assert(s@.skip(from as int) =~= seq![]);
    assert(texts(r@) + line_seq(s@.skip(from as int)) =~= texts(r@));
    r
}

/// The words of a text.
pub fn words(s: &str) -> (r: Vec<String>)
    ensures
        texts(r@) == word_seq(s@),
{
    let chars = chars_of(s);
    let mut r: Vec<String> = Vec::new();
    let mut from: usize = 0;
    assert(s@.skip(0) == s@);
    assert(texts(r@) + word_seq(s@) =~= word_seq(s@));
    while from < chars.len()
        invariant
            chars@ == s@,
            from <= chars@.len(),
            texts(r@) + word_seq(s@.skip(from as int)) == word_seq(s@),
        decreases chars@.len() - from,
    {
        let ghost rest = s@.skip(from as int);
        let ghost before = texts(r@);
        if is_white_space(chars[from]) {
            assert(rest.skip(1) == s@.skip(from + 1));
            from += 1;
        } else {
            let mut to: usize = from;
            while to < chars.len() && !is_white_space(chars[to])
                invariant
                    from <= to <= chars@.len(),
                    forall|j: int| from <= j < to ==> !white_space(#[trigger] chars@[j]),
                decreases chars@.len() - to,
            {
                to += 1;
            }
            let piece = text_between(&chars, from, to);
            proof {
                lemma_word_len_is(rest, to - from);
                lemma_texts_push(r@, piece);
                assert(piece@ == rest.take(to - from));
                assert(rest.skip(to - from) == s@.skip(to as int));
                let tail = word_seq(s@.skip(to as int));
                assert(before + (seq![piece@] + tail) =~= before.push(piece@) + tail);
            }
            r.push(piece);
            from = to;
        }
    }
    assert(s@.skip(from as int) =~= seq![]);
    assert(texts(r@) + word_seq(s@.skip(from as int)) =~= texts(r@));
    r
}

/// The word length is the only position before which there is no white space.
pub proof fn lemma_word_len_is(s: Seq<char>, n: int)
    requires
        0 <= n <= s.len(),
        n < s.len() ==> white_space(s[n]),
        forall|i: int| 0 <= i < n ==> !white_space(s[i]),
    ensures
        word_len(s) == n,
{
    lemma_word_len(s);
    let k = word_len(s);
    if k < n {
        assert(white_space(s[k]));
    } else if n < k {
        assert(!white_space(s[n]));
    }
}

/// `parts` one after the other, with `sep` between them.
pub fn join(parts: &Vec<String>, sep: &str) -> (r: String)
    ensures
        r@ == joined(texts(parts@), sep@),
{
    let mut r = String::new();
    let mut i: usize = 0;
    while i < parts.len()
        invariant
            i <= parts@.len(),
            r@ == joined(texts(parts@).take(i as int), sep@),
        decreases parts@.len() - i,
    {
        let ghost all = texts(parts@);
        assert(all.take(i + 1).drop_last() == all.take(i as int));
        if i > 0 {
            r.append(sep);
        }
        r.append(parts[i].as_str());
        assert(i == 0 ==> r@ == all.take(i + 1)[0]);
        i += 1;
    }
    assert(texts(parts@).take(i as int) == texts(parts@));
    r
}

/// Whether `s` starts with `prefix`.
pub fn starts_with(s: &str, prefix: &str) -> (r: bool)
    ensures
        r == has_prefix(s@, prefix@),
{
    let n = prefix.unicode_len();
    if n > s.unicode_len() {
        return false;
    }
    assert(s@.subrange(0, n as int) == s@.take(n as int));
    same_text(s.substring_char(0, n), prefix)
}

/// What follows `prefix` in `s`, where `s` starts with it.
pub fn strip_prefix<'a>(s: &'a str, prefix: &str) -> (r: Option<&'a str>)
    ensures
        r is Some <==> has_prefix(s@, prefix@),
        r matches Some(rest) ==> rest@ == s@.skip(prefix@.len() as int),
{
    if starts_with(s, prefix) {
        let n = s.unicode_len();
        let k = prefix.unicode_len();
        assert(s@.subrange(k as int, n as int) == s@.skip(k as int));
        Some(s.substring_char(k, n))
    } else {
        None
    }
}

/// `s` without the occurrences of `prefix` it starts with.
pub fn trim_start_matches<'a>(s: &'a str, prefix: &str) -> (r: &'a str)
    ensures
        r@ == without_prefixes(s@, prefix@),
{
    let mut rest = s;
    if prefix.unicode_len() == 0 {
        return rest;
    }
    loop
        invariant
            prefix@.len() > 0,
            without_prefixes(rest@, prefix@) == without_prefixes(s@, prefix@),
        decreases rest@.len(),
    {
        match strip_prefix(rest, prefix) {
            Some(tail) => {
                rest = tail;
            },
            None => {
                return rest;
            },
        }
    }
}

/// A text without `c` is one piece.
pub proof fn lemma_split_none(s: Seq<char>, c: char)
    requires
        forall|i: int| 0 <= i < s.len() ==> s[i] != c,
    ensures
        split_at_each(s, c) == seq![s],
{
    lemma_first_index_is(s, c, s.len() as int);
}

/// Two texts with `c` between them fall apart into the pieces of each.
pub proof fn lemma_split_add(a: Seq<char>, b: Seq<char>, c: char)
    ensures
        split_at_each(a + seq![c] + b, c) == split_at_each(a, c) + split_at_each(b, c),
    decreases a.len(),
{
    let whole = a + seq![c] + b;
    lemma_first_index(a, c);
    let n = first_index(a, c);
    assert forall|i: int| 0 <= i < n implies whole[i] != c by {
        assert(whole[i] == a[i]);
    }
    lemma_first_index_is(whole, c, n);
    assert(whole.take(n) =~= a.take(n));
    if n == a.len() {
        assert(whole.skip(n + 1) =~= b);
        assert(a.take(n) =~= a);
    } else {
        let rest = a.skip(n + 1);
        assert(whole.skip(n + 1) =~= rest + seq![c] + b);
        lemma_split_add(rest, b, c);
        assert(seq![a.take(n)] + (split_at_each(rest, c) + split_at_each(b, c)) =~= (
        seq![a.take(n)] + split_at_each(rest, c)) + split_at_each(b, c));
    }
}

/// The characters that count as white space, by their numbers: these and no others.
pub proof fn law_white_space_characters(c: char)
    ensures
        white_space(c) <==> {
            let n = c as int;
            ||| 9 <= n <= 13
            ||| n == 32
            ||| n == 133
            ||| n == 160
            ||| n == 5760
            ||| 8192 <= n <= 8202
            ||| n == 8232
            ||| n == 8233
            ||| n == 8239
            ||| n == 8287
            ||| n == 12288
        },
{
}

} // verus!
