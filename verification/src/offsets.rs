//! Byte offsets into the UTF-8 form of a text.

use vstd::prelude::*;
use vstd::string::*;
use vstd::utf8::{encode_scalar, encode_utf8};

use crate::text::chars_of;

verus! {

/// The length of a text in UTF-8, in bytes.
pub open spec fn byte_len(s: Seq<char>) -> int {
    encode_utf8(s).len() as int
}

/// The length of one character in UTF-8, in bytes.
pub open spec fn char_width(c: char) -> int {
    if c as int <= 0x7f {
        1
    } else if c as int <= 0x7ff {
        2
    } else if c as int <= 0xffff {
        3
    } else {
        4
    }
}

/// Whether byte offset `at` of `s` stands between two characters, or at an end.
pub open spec fn on_boundary(s: Seq<char>, at: int) -> bool {
    exists|k: int| 0 <= k <= s.len() && byte_len(#[trigger] s.take(k)) == at
}

/// The number of characters of `s` before byte offset `at`.
pub open spec fn chars_before(s: Seq<char>, at: int) -> int {
    choose|k: int| 0 <= k <= s.len() && byte_len(#[trigger] s.take(k)) == at
}

/// The text of `s` between two byte offsets.
pub open spec fn byte_range(s: Seq<char>, from: int, to: int) -> Seq<char> {
    s.subrange(chars_before(s, from), chars_before(s, to))
}

pub proof fn lemma_encode_add(a: Seq<char>, b: Seq<char>)
    ensures
        encode_utf8(a + b) == encode_utf8(a) + encode_utf8(b),
    decreases a.len(),
{
    if a.len() == 0 {
        assert(a + b =~= b);
        assert(encode_utf8(a) + encode_utf8(b) =~= encode_utf8(b));
    } else {
        lemma_encode_add(a.drop_first(), b);
        assert((a + b).drop_first() =~= a.drop_first() + b);
        assert(encode_utf8(a + b) =~= encode_utf8(a) + encode_utf8(b));
    }
}

pub proof fn lemma_byte_len_add(a: Seq<char>, b: Seq<char>)
    ensures
        byte_len(a + b) == byte_len(a) + byte_len(b),
{
    lemma_encode_add(a, b);
}

pub proof fn lemma_byte_len_push(s: Seq<char>, c: char)
    ensures
        byte_len(s.push(c)) == byte_len(s) + char_width(c),
        1 <= char_width(c) <= 4,
{
    lemma_encode_add(s, seq![c]);
    assert(s.push(c) =~= s + seq![c]);
    assert(encode_utf8(seq![c]) =~= encode_scalar(c as u32)) by {
        assert(seq![c].drop_first() =~= seq![]);
        reveal_with_fuel(encode_utf8, 2);
    }
}

pub proof fn lemma_byte_len_take(s: Seq<char>, j: int, k: int)
    requires
        0 <= j <= k <= s.len(),
    ensures
        byte_len(s.take(j)) + (k - j) <= byte_len(s.take(k)),
    decreases k - j,
{
    if j < k {
        lemma_byte_len_take(s, j, k - 1);
        lemma_byte_len_push(s.take(k - 1), s[k - 1]);
        assert(s.take(k - 1).push(s[k - 1]) =~= s.take(k));
    }
}

/// The number of characters before an offset is the only one with that byte length.
pub proof fn lemma_chars_before(s: Seq<char>, k: int)
    requires
        0 <= k <= s.len(),
    ensures
        on_boundary(s, byte_len(s.take(k))),
        chars_before(s, byte_len(s.take(k))) == k,
{
    let at = byte_len(s.take(k));
    assert(on_boundary(s, at));
    let j = chars_before(s, at);
    assert(0 <= j <= s.len() && byte_len(s.take(j)) == at);
    if j < k {
        lemma_byte_len_take(s, j, k);
    } else if k < j {
        lemma_byte_len_take(s, k, j);
    }
}

/// Both ends of a text are boundaries.
pub proof fn lemma_ends(s: Seq<char>)
    ensures
        byte_len(s) >= s.len(),
        on_boundary(s, 0),
        on_boundary(s, byte_len(s)),
        chars_before(s, 0) == 0,
        chars_before(s, byte_len(s)) == s.len(),
{
    assert(s.take(0) =~= seq![]);
    assert(s.take(s.len() as int) =~= s);
    lemma_chars_before(s, 0);
    lemma_chars_before(s, s.len() as int);
    lemma_byte_len_take(s, 0, s.len() as int);
}

/// A later boundary has more characters before it.
pub proof fn lemma_chars_before_order(s: Seq<char>, a: int, b: int)
    requires
        on_boundary(s, a),
        on_boundary(s, b),
        a <= b,
    ensures
        0 <= chars_before(s, a) <= chars_before(s, b) <= s.len(),
{
    let j = chars_before(s, a);
    let k = chars_before(s, b);
    if k < j {
        lemma_byte_len_take(s, k, j);
    }
}

/// Boundaries inside a prefix are the boundaries of the whole up to there.
pub proof fn lemma_prefix_boundary(s: Seq<char>, n: int, at: int)
    requires
        0 <= n <= s.len(),
    ensures
        on_boundary(s.take(n), at) <==> on_boundary(s, at) && at <= byte_len(s.take(n)),
        on_boundary(s.take(n), at) ==> chars_before(s.take(n), at) == chars_before(s, at)
            && chars_before(s, at) <= n,
{
    let p = s.take(n);
    if on_boundary(p, at) {
        let k = chars_before(p, at);
        assert(p.take(k) =~= s.take(k));
        lemma_chars_before(s, k);
        lemma_chars_before(p, k);
        lemma_byte_len_take(s, k, n);
    }
    if on_boundary(s, at) && at <= byte_len(p) {
        let k = chars_before(s, at);
        if k > n {
            lemma_byte_len_take(s, n, k);
        }
        assert(p.take(k) =~= s.take(k));
        lemma_chars_before(p, k);
    }
}

/// The length of `s` in UTF-8, in bytes.
pub fn length_in_bytes(s: &str) -> (r: usize)
    ensures
        r == byte_len(s@),
{
    s.as_bytes().len()
}

fn width_of(c: char) -> (r: usize)
    ensures
        r == char_width(c),
{
    if c as u32 <= 0x7f {
        1
    } else if c as u32 <= 0x7ff {
        2
    } else if c as u32 <= 0xffff {
        3
    } else {
        4
    }
}

/// The number of characters of `s` before byte offset `at`.
pub fn count_before(s: &str, at: usize) -> (r: usize)
    requires
        on_boundary(s@, at as int),
    ensures
        r == chars_before(s@, at as int),
        r <= s@.len(),
        byte_len(s@.take(r as int)) == at,
{
    let chars = chars_of(s);
    let mut k: usize = 0;
    let mut seen: usize = 0;
    let ghost goal = chars_before(s@, at as int);
    assert(s@.take(0) =~= seq![]);
    while seen < at
        invariant
            chars@ == s@,
            0 <= goal <= s@.len(),
            byte_len(s@.take(goal)) == at,
            0 <= k <= goal,
            seen == byte_len(s@.take(k as int)),
        decreases goal - k,
    {
        proof {
            if k == goal {
                assert(seen == at);
            }
            lemma_byte_len_push(s@.take(k as int), s@[k as int]);
            assert(s@.take(k as int).push(s@[k as int]) =~= s@.take(k + 1));
            lemma_byte_len_take(s@, k + 1, goal);
        }
        assert(k < chars.len());
        seen += width_of(chars[k]);
        k += 1;
    }
    proof {
        lemma_byte_len_take(s@, k as int, goal);
    }
    k
}

/// Whether byte offset `at` of `s` stands between two characters, or at an end.
pub fn is_boundary(s: &str, at: usize) -> (r: bool)
    ensures
        r == on_boundary(s@, at as int),
{
    let chars = chars_of(s);
    let mut k: usize = 0;
    let mut seen: usize = 0;
    assert(s@.take(0) =~= seq![]);
    assert(s@.take(s@.len() as int) =~= s@);
    let len: usize = length_in_bytes(s);
    while k < chars.len() && seen < at
        invariant
            chars@ == s@,
            k <= s@.len(),
            len == byte_len(s@),
            s@.take(s@.len() as int) == s@,
            seen == byte_len(s@.take(k as int)),
            k > 0 ==> byte_len(s@.take(k - 1)) < at,
        decreases s@.len() - k,
    {
        proof {
            lemma_byte_len_push(s@.take(k as int), s@[k as int]);
            assert(s@.take(k as int).push(s@[k as int]) =~= s@.take(k + 1));
            lemma_byte_len_take(s@, k + 1, s@.len() as int);
        }
        seen += width_of(chars[k]);
        k += 1;
    }
    proof {
        if on_boundary(s@, at as int) {
            let j = chars_before(s@, at as int);
            if j < k {
                lemma_byte_len_take(s@, j, k - 1);
            } else {
                lemma_byte_len_take(s@, k as int, j);
            }
        }
    }
    seen == at
}

} // verus!
