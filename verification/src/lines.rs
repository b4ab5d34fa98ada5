//! How lines and white space behave when texts are put together.

use vstd::prelude::*;

use crate::text::{
    first_index, has_prefix, joined, lemma_first_index, lemma_first_index_is, lemma_split_add,
    lemma_split_none, line_seq, split_at_each, trimmed, trimmed_end, trimmed_start, white_space,
    without_cr, without_prefixes,
};

verus! {

/// Whether there is nothing but white space.
pub open spec fn blank(s: Seq<char>) -> bool {
    forall|i: int| 0 <= i < s.len() ==> white_space(#[trigger] s[i])
}

/// Whether the text is all on one line.
pub open spec fn one_line(s: Seq<char>) -> bool {
    forall|i: int| 0 <= i < s.len() ==> #[trigger] s[i] != '\n'
}

/// The text with a line feed for each carriage return and line feed.
pub open spec fn unix_text(s: Seq<char>) -> Seq<char>
    decreases s.len(),
{
    if s.len() == 0 {
        s
    } else if s.len() > 1 && s[0] == '\r' && s[1] == '\n' {
        unix_text(s.skip(1))
    } else {
        seq![s[0]] + unix_text(s.skip(1))
    }
}

/// A text that ends its last line has the lines of what follows after its own.
pub proof fn lemma_lines_add(a: Seq<char>, b: Seq<char>)
    ensures
        line_seq(a + seq!['\n'] + b) == line_seq(a + seq!['\n']) + line_seq(b),
    decreases a.len(),
{
    let nl = seq!['\n'];
    lemma_first_index(a, '\n');
    let n = first_index(a, '\n');
    lemma_first_index_is(a + nl + b, '\n', n);
    lemma_first_index_is(a + nl, '\n', n);
    assert((a + nl + b).take(n) =~= a.take(n));
    assert((a + nl).take(n) =~= a.take(n));
    if n == a.len() {
        assert((a + nl + b).skip(n + 1) =~= b);
        assert((a + nl).skip(n + 1) =~= Seq::<char>::empty());
        assert(line_seq((a + nl).skip(n + 1)) =~= Seq::<Seq<char>>::empty());
        assert(line_seq(a + nl) =~= seq![without_cr(a.take(n))]);
    } else {
        let rest = a.skip(n + 1);
        assert((a + nl + b).skip(n + 1) =~= rest + nl + b);
        assert((a + nl).skip(n + 1) =~= rest + nl);
        lemma_lines_add(rest, b);
        assert(seq![without_cr(a.take(n))] + (line_seq(rest + nl) + line_seq(b)) =~= (
        seq![without_cr(a.take(n))] + line_seq(rest + nl)) + line_seq(b));
    }
}

/// One line and its end are one line.
pub proof fn lemma_lines_single(a: Seq<char>)
    requires
        one_line(a),
    ensures
        line_seq(a + seq!['\n']) == seq![without_cr(a)],
{
    let nl = seq!['\n'];
    lemma_first_index_is(a + nl, '\n', a.len() as int);
    assert((a + nl).take(a.len() as int) =~= a);
    assert((a + nl).skip(a.len() as int + 1) =~= Seq::<char>::empty());
    assert(line_seq((a + nl).skip(a.len() as int + 1)) =~= Seq::<Seq<char>>::empty());
    assert(line_seq(a + nl) =~= seq![without_cr(a)]);
}

/// No line holds a line feed.
pub proof fn lemma_lines_hold_no_feed(s: Seq<char>)
    ensures
        forall|i: int| 0 <= i < line_seq(s).len() ==> one_line(#[trigger] line_seq(s)[i]),
    decreases s.len(),
{
    lemma_first_index(s, '\n');
    let n = first_index(s, '\n');
    if 0 < s.len() && n < s.len() {
        let rest = s.skip(n + 1);
        lemma_lines_hold_no_feed(rest);
        assert(one_line(s.take(n)));
        assert(one_line(without_cr(s.take(n))));
        assert forall|i: int| 0 <= i < line_seq(s).len() implies one_line(
            #[trigger] line_seq(s)[i],
        ) by {
            if i > 0 {
                assert(line_seq(s)[i] == line_seq(rest)[i - 1]);
            }
        }
    }
}

/// What comes first in a joined text.
pub proof fn lemma_joined_front(first: Seq<char>, rest: Seq<Seq<char>>, sep: Seq<char>)
    requires
        rest.len() > 0,
    ensures
        joined(seq![first] + rest, sep) == first + sep + joined(rest, sep),
    decreases rest.len(),
{
    let all = seq![first] + rest;
    assert(all.drop_last() =~= seq![first] + rest.drop_last());
    if rest.len() > 1 {
        lemma_joined_front(first, rest.drop_last(), sep);
        assert(joined(all, sep) =~= first + sep + joined(rest, sep));
    } else {
        assert(all.drop_last() =~= seq![first]);
        assert(joined(seq![first], sep) == first);
        assert(joined(rest, sep) == rest[0]);
        assert(joined(all, sep) == first + sep + rest[0]);
    }
}

proof fn lemma_unix_one_line(a: Seq<char>)
    requires
        one_line(a),
    ensures
        unix_text(a) == a,
    decreases a.len(),
{
    if a.len() > 0 {
        assert(one_line(a.skip(1))) by {
            assert forall|i: int| 0 <= i < a.skip(1).len() implies #[trigger] a.skip(1)[i]
                != '\n' by {
                assert(a[i + 1] != '\n');
            }
        }
        lemma_unix_one_line(a.skip(1));
        assert(seq![a[0]] + a.skip(1) =~= a);
    }
}

/// Line ends can be rewritten part by part, unless the parts cut one apart.
pub proof fn lemma_unix_add(a: Seq<char>, b: Seq<char>)
    requires
        !(a.len() > 0 && a.last() == '\r' && b.len() > 0 && b[0] == '\n'),
    ensures
        unix_text(a + b) == unix_text(a) + unix_text(b),
    decreases a.len(),
{
    if a.len() == 0 {
        assert(a + b =~= b);
        assert(unix_text(a) + unix_text(b) =~= unix_text(b));
    } else {
        assert((a + b).skip(1) =~= a.skip(1) + b);
        if a.len() > 1 {
            assert(a.skip(1).last() == a.last());
            assert((a + b)[1] == a[1]);
        }
        lemma_unix_add(a.skip(1), b);
        assert(unix_text(a + b) =~= unix_text(a) + unix_text(b));
    }
}

proof fn lemma_unix_line(a: Seq<char>)
    requires
        one_line(a),
    ensures
        unix_text(a + seq!['\n']) == without_cr(a) + seq!['\n'],
{
    let nl = seq!['\n'];
    assert(unix_text(nl) =~= nl) by {
        assert(nl.skip(1) =~= Seq::<char>::empty());
        assert(unix_text(nl.skip(1)) =~= Seq::<char>::empty());
    }
    if a.len() > 0 && a.last() == '\r' {
        let head = a.drop_last();
        let end = seq!['\r', '\n'];
        assert(a + nl =~= head + end);
        lemma_unix_add(head, end);
        lemma_unix_one_line(head);
        assert(end.skip(1) =~= nl);
        assert(unix_text(end) == nl);
    } else {
        lemma_unix_add(a, nl);
        lemma_unix_one_line(a);
    }
}

/// The lines of a text, joined again.
pub proof fn lemma_lines_joined(s: Seq<char>)
    requires
        s.len() == 0 || s.last() != '\r',
    ensures
        joined(line_seq(s + seq!['\n']), seq!['\n']) == unix_text(s),
        line_seq(s + seq!['\n']).len() > 0,
    decreases s.len(),
{
    let nl = seq!['\n'];
    lemma_first_index(s, '\n');
    let n = first_index(s, '\n');
    if n == s.len() {
        assert(one_line(s));
        lemma_lines_single(s);
        lemma_unix_one_line(s);
    } else {
        let a = s.take(n);
        let r = s.skip(n + 1);
        assert(one_line(a));
        assert(s =~= a + nl + r);
        if r.len() > 0 {
            assert(r.last() == s.last());
        }
        assert(s + nl =~= a + nl + (r + nl));
        lemma_lines_add(a, r + nl);
        lemma_lines_single(a);
        lemma_lines_joined(r);
        lemma_joined_front(without_cr(a), line_seq(r + nl), nl);
        lemma_unix_line(a);
        lemma_unix_add(a + nl, r);
        assert(joined(line_seq(s + nl), nl) =~= without_cr(a) + nl + unix_text(r));
    }
}

proof fn lemma_unix_ends(s: Seq<char>)
    requires
        s.len() > 0,
    ensures
        unix_text(s).len() > 0,
        unix_text(s).last() == s.last(),
        s[0] != '\r' ==> unix_text(s)[0] == s[0],
    decreases s.len(),
{
    if s.len() > 1 {
        lemma_unix_ends(s.skip(1));
        assert(s.skip(1).last() == s.last());
        assert(unix_text(s).last() == unix_text(s.skip(1)).last());
    } else {
        assert(unix_text(s.skip(1)) =~= Seq::<char>::empty());
        assert(unix_text(s) =~= s);
    }
}

proof fn lemma_unix_blank(s: Seq<char>)
    requires
        blank(s),
    ensures
        blank(unix_text(s)),
    decreases s.len(),
{
    if s.len() > 0 {
        assert forall|i: int| 0 <= i < s.skip(1).len() implies white_space(
            #[trigger] s.skip(1)[i],
        ) by {
            assert(white_space(s[i + 1]));
        }
        lemma_unix_blank(s.skip(1));
        assert(white_space(s[0]));
    }
}

proof fn lemma_blank_trimmed_start(s: Seq<char>, rest: Seq<char>)
    requires
        blank(s),
    ensures
        trimmed_start(s + rest) == trimmed_start(rest),
    decreases s.len(),
{
    if s.len() == 0 {
        assert(s + rest =~= rest);
    } else {
        assert(white_space(s[0]));
        assert forall|i: int| 0 <= i < s.skip(1).len() implies white_space(
            #[trigger] s.skip(1)[i],
        ) by {
            assert(white_space(s[i + 1]));
        }
        assert((s + rest).skip(1) =~= s.skip(1) + rest);
        lemma_blank_trimmed_start(s.skip(1), rest);
    }
}

proof fn lemma_blank_trimmed_end(rest: Seq<char>, s: Seq<char>)
    requires
        blank(s),
    ensures
        trimmed_end(rest + s) == trimmed_end(rest),
    decreases s.len(),
{
    if s.len() == 0 {
        assert(rest + s =~= rest);
    } else {
        assert(white_space(s.last()));
        assert forall|i: int| 0 <= i < s.drop_last().len() implies white_space(
            #[trigger] s.drop_last()[i],
        ) by {
            assert(white_space(s[i]));
        }
        assert((rest + s).drop_last() =~= rest + s.drop_last());
        lemma_blank_trimmed_end(rest, s.drop_last());
    }
}

/// Whether a text has no white space at either end.
pub open spec fn tight(s: Seq<char>) -> bool {
    s.len() > 0 ==> !white_space(s[0]) && !white_space(s.last())
}

/// A text is the white space before, the rest, and the white space after.
pub proof fn lemma_trim_parts(s: Seq<char>) -> (parts: (Seq<char>, Seq<char>))
    ensures
        s == parts.0 + trimmed(s) + parts.1,
        blank(parts.0),
        blank(parts.1),
        tight(trimmed(s)),
    decreases s.len(),
{
    if s.len() > 0 && white_space(s[0]) {
        let (lead, trail) = lemma_trim_parts(s.skip(1));
        let more = seq![s[0]] + lead;
        assert(s =~= seq![s[0]] + s.skip(1));
        assert(s =~= more + trimmed(s) + trail);
        (more, trail)
    } else {
        let trail = lemma_trim_end_parts(s);
        assert(s =~= Seq::<char>::empty() + trimmed(s) + trail);
        if trimmed(s).len() > 0 {
            assert(trimmed(s)[0] == s[0]);
        }
        (Seq::empty(), trail)
    }
}

proof fn lemma_trim_end_parts(s: Seq<char>) -> (trail: Seq<char>)
    ensures
        s == trimmed_end(s) + trail,
        blank(trail),
        trimmed_end(s).len() > 0 ==> !white_space(trimmed_end(s).last()),
    decreases s.len(),
{
    if s.len() > 0 && white_space(s.last()) {
        let trail = lemma_trim_end_parts(s.drop_last());
        let more = trail.push(s.last());
        assert(s =~= s.drop_last().push(s.last()));
        assert(s =~= trimmed_end(s) + more);
        more
    } else {
        assert(s =~= trimmed_end(s) + Seq::<char>::empty());
        Seq::empty()
    }
}

/// White space around a text without any at its ends is what trimming takes away.
pub proof fn lemma_trimmed_is(lead: Seq<char>, core: Seq<char>, trail: Seq<char>)
    requires
        blank(lead),
        blank(trail),
        tight(core),
    ensures
        trimmed(lead + core + trail) == core,
        core.len() > 0 ==> trimmed_end(lead + core + trail) == lead + core,
        core.len() == 0 ==> trimmed_end(lead + core + trail).len() == 0,
{
    assert(lead + core + trail =~= lead + (core + trail));
    lemma_blank_trimmed_start(lead, core + trail);
    lemma_blank_trimmed_end(lead + core, trail);
    if core.len() > 0 {
        assert((core + trail)[0] == core[0]);
        lemma_blank_trimmed_end(core, trail);
        assert((lead + core).last() == core.last());
    } else {
        assert(core + trail =~= trail);
        lemma_blank_trimmed_start(trail, Seq::empty());
        assert(trail + Seq::<char>::empty() =~= trail);
        let e = Seq::<char>::empty();
        lemma_blank_trimmed_end(e, lead + core);
        assert(lead + core =~= lead);
        lemma_blank_trimmed_end(e, lead);
        assert(e + lead =~= lead);
        assert(trimmed(lead + core + trail) =~= core);
    }
}

/// Trimming and rewriting the line ends go together.
pub proof fn lemma_trimmed_unix(s: Seq<char>)
    ensures
        trimmed(unix_text(trimmed_end(s))) == unix_text(trimmed(s)),
        trimmed_end(s).len() > 0 ==> trimmed_end(s).last() != '\r',
        trimmed(s).len() == 0 <==> unix_text(trimmed(s)).len() == 0,
{
    let (lead, trail) = lemma_trim_parts(s);
    let core = trimmed(s);
    lemma_trimmed_is(lead, core, trail);
    if core.len() > 0 {
        lemma_unix_ends(core);
        lemma_unix_blank(lead);
        lemma_unix_add(lead, core);
        let e = Seq::<char>::empty();
        lemma_trimmed_is(unix_text(lead), unix_text(core), e);
        assert(unix_text(lead) + unix_text(core) + e =~= unix_text(lead) + unix_text(core));
        assert(trimmed_end(s).last() == core.last());
    } else {
        assert(trimmed_end(s) =~= Seq::<char>::empty());
        assert(unix_text(trimmed_end(s)) =~= Seq::<char>::empty());
        assert(core =~= Seq::<char>::empty());
        assert(trimmed(unix_text(trimmed_end(s))) =~= unix_text(core));
    }
}

/// The carriage return that is not part of a line does not matter once it is trimmed.
pub proof fn lemma_trimmed_without_cr(s: Seq<char>)
    ensures
        trimmed(without_cr(s)) == trimmed(s),
{
    if s.len() > 0 && s.last() == '\r' {
        lemma_trimmed_pad(s.drop_last(), seq![], seq!['\r']);
        assert(seq![] + s.drop_last() + seq!['\r'] =~= s);
    }
}

/// White space around a text does not matter once it is trimmed.
pub proof fn lemma_trimmed_pad(s: Seq<char>, before: Seq<char>, after: Seq<char>)
    requires
        blank(before),
        blank(after),
    ensures
        trimmed(before + s + after) == trimmed(s),
{
    let (lead, trail) = lemma_trim_parts(s);
    lemma_trimmed_is(before + lead, trimmed(s), trail + after);
    assert(before + s + after =~= (before + lead) + trimmed(s) + (trail + after));
}

/// The lines of a text are its pieces between line feeds, each without its carriage return.
pub proof fn lemma_lines_are_pieces(s: Seq<char>)
    ensures
        line_seq(s + seq!['\n']).len() == split_at_each(s, '\n').len(),
        forall|i: int|
            0 <= i < split_at_each(s, '\n').len() ==> #[trigger] line_seq(s + seq!['\n'])[i]
                == without_cr(split_at_each(s, '\n')[i]),
    decreases s.len(),
{
    let nl = seq!['\n'];
    lemma_first_index(s, '\n');
    let n = first_index(s, '\n');
    if n == s.len() {
        assert(one_line(s));
        lemma_lines_single(s);
    } else {
        let a = s.take(n);
        let rest = s.skip(n + 1);
        assert(one_line(a));
        assert(s + nl =~= a + nl + (rest + nl));
        lemma_lines_add(a, rest + nl);
        lemma_lines_single(a);
        lemma_lines_are_pieces(rest);
        assert forall|i: int| 0 <= i < split_at_each(s, '\n').len() implies #[trigger] line_seq(
            s + nl,
        )[i] == without_cr(split_at_each(s, '\n')[i]) by {
            if i > 0 {
                assert(split_at_each(s, '\n')[i] == split_at_each(rest, '\n')[i - 1]);
                assert(line_seq(s + nl)[i] == line_seq(rest + nl)[i - 1]);
            }
        }
    }
}

/// Lines that were joined fall apart again.
pub proof fn lemma_joined_pieces(parts: Seq<Seq<char>>)
    requires
        parts.len() > 0,
        forall|i: int| 0 <= i < parts.len() ==> one_line(#[trigger] parts[i]),
    ensures
        split_at_each(joined(parts, seq!['\n']), '\n') == parts,
    decreases parts.len(),
{
    let nl = seq!['\n'];
    let last = parts[parts.len() - 1];
    assert(one_line(last));
    lemma_split_none(last, '\n');
    if parts.len() == 1 {
        assert(split_at_each(joined(parts, nl), '\n') =~= parts);
    } else {
        let head = parts.drop_last();
        assert forall|i: int| 0 <= i < head.len() implies one_line(#[trigger] head[i]) by {
            assert(head[i] == parts[i]);
        }
        lemma_joined_pieces(head);
        lemma_split_add(joined(head, nl), last, '\n');
        assert(head + seq![last] =~= parts);
    }
}

/// Whether no piece between line feeds is `mark` but for white space.
pub open spec fn without_line(s: Seq<char>, mark: Seq<char>) -> bool {
    forall|i: int|
        0 <= i < split_at_each(s, '\n').len() ==> trimmed(#[trigger] split_at_each(s, '\n')[i])
            != mark
}

proof fn lemma_without_line_lead(c: char, s: Seq<char>, mark: Seq<char>)
    requires
        white_space(c),
        without_line(seq![c] + s, mark),
    ensures
        without_line(s, mark),
{
    let whole = seq![c] + s;
    let e = Seq::<char>::empty();
    if c == '\n' {
        lemma_split_add(e, s, '\n');
        lemma_split_none(e, '\n');
        assert(e + seq!['\n'] + s =~= whole);
        assert forall|i: int| 0 <= i < split_at_each(s, '\n').len() implies trimmed(
            #[trigger] split_at_each(s, '\n')[i],
        ) != mark by {
            assert(split_at_each(whole, '\n')[i + 1] == split_at_each(s, '\n')[i]);
        }
    } else {
        lemma_first_index(s, '\n');
        let n = first_index(s, '\n');
        assert(whole.skip(1) =~= s);
        assert(first_index(whole, '\n') == n + 1);
        let first = s.take(n);
        assert(whole.take(n + 1) =~= seq![c] + first);
        lemma_trimmed_pad(first, seq![c], e);
        assert(seq![c] + first + e =~= seq![c] + first);
        assert forall|i: int| 0 <= i < split_at_each(s, '\n').len() implies trimmed(
            #[trigger] split_at_each(s, '\n')[i],
        ) != mark by {
            if n == s.len() {
                assert(s.take(n) =~= s);
                assert(split_at_each(whole, '\n')[0] == whole);
                assert(whole.take(n + 1) =~= whole);
            } else {
                assert(whole.skip(n + 2) =~= s.skip(n + 1));
                if i == 0 {
                    assert(split_at_each(whole, '\n')[0] == whole.take(n + 1));
                } else {
                    assert(split_at_each(whole, '\n')[i] == split_at_each(s, '\n')[i]);
                }
            }
        }
    }
}

proof fn lemma_without_line_trail(s: Seq<char>, c: char, mark: Seq<char>)
    requires
        white_space(c),
        without_line(s + seq![c], mark),
    ensures
        without_line(s, mark),
    decreases s.len(),
{
    let whole = s + seq![c];
    let e = Seq::<char>::empty();
    lemma_first_index(s, '\n');
    let n = first_index(s, '\n');
    if n < s.len() {
        lemma_first_index_is(whole, '\n', n);
        let rest = s.skip(n + 1);
        assert(whole.skip(n + 1) =~= rest + seq![c]);
        assert(whole.take(n) =~= s.take(n));
        assert(without_line(rest + seq![c], mark)) by {
            assert forall|i: int|
                0 <= i < split_at_each(rest + seq![c], '\n').len() implies trimmed(
                #[trigger] split_at_each(rest + seq![c], '\n')[i],
            ) != mark by {
                assert(split_at_each(whole, '\n')[i + 1] == split_at_each(
                    rest + seq![c],
                    '\n',
                )[i]);
            }
        }
        lemma_without_line_trail(rest, c, mark);
        assert forall|i: int| 0 <= i < split_at_each(s, '\n').len() implies trimmed(
            #[trigger] split_at_each(s, '\n')[i],
        ) != mark by {
            if i == 0 {
                assert(split_at_each(whole, '\n')[0] == s.take(n));
            } else {
                assert(split_at_each(s, '\n')[i] == split_at_each(rest, '\n')[i - 1]);
            }
        }
    } else {
        lemma_split_none(s, '\n');
        lemma_trimmed_pad(s, e, seq![c]);
        assert(e + s + seq![c] =~= whole);
        if c == '\n' {
            lemma_split_add(s, e, '\n');
            assert(s + seq!['\n'] + e =~= whole);
            assert(split_at_each(whole, '\n')[0] == s);
        } else {
            lemma_split_none(whole, '\n');
            assert(split_at_each(whole, '\n')[0] == whole);
        }
    }
}

proof fn lemma_without_line_part(lead: Seq<char>, s: Seq<char>, trail: Seq<char>, mark: Seq<char>)
    requires
        blank(lead),
        blank(trail),
        without_line(lead + s + trail, mark),
    ensures
        without_line(s, mark),
    decreases lead.len() + trail.len(),
{
    if lead.len() > 0 {
        let fewer = lead.skip(1);
        assert(white_space(lead[0]));
        assert forall|i: int| 0 <= i < fewer.len() implies white_space(#[trigger] fewer[i]) by {
            assert(white_space(lead[i + 1]));
        }
        assert(lead + s + trail =~= seq![lead[0]] + (fewer + s + trail));
        lemma_without_line_lead(lead[0], fewer + s + trail, mark);
        lemma_without_line_part(fewer, s, trail, mark);
    } else if trail.len() > 0 {
        let fewer = trail.drop_last();
        let c = trail[trail.len() - 1];
        assert(white_space(c));
        assert forall|i: int| 0 <= i < fewer.len() implies white_space(#[trigger] fewer[i]) by {
            assert(white_space(trail[i]));
        }
        assert(lead + s + trail =~= (lead + s + fewer) + seq![c]);
        lemma_without_line_trail(lead + s + fewer, c, mark);
        lemma_without_line_part(lead, s, fewer, mark);
    } else {
        assert(lead + s + trail =~= s);
    }
}

/// Trimming a text brings up no line that was not there.
pub proof fn lemma_trimming_brings_no_line(s: Seq<char>, mark: Seq<char>)
    requires
        without_line(s, mark),
    ensures
        without_line(trimmed(s), mark),
{
    let (lead, trail) = lemma_trim_parts(s);
    lemma_without_line_part(lead, trimmed(s), trail, mark);
}

/// The lines of two texts with a line feed between them, where the first does not itself end in
/// the middle of a line end.
pub proof fn lemma_lines_of_two(a: Seq<char>, b: Seq<char>)
    requires
        a.len() > 0,
        a.last() != '\n',
        a.last() != '\r',
    ensures
        line_seq(a + seq!['\n']) == line_seq(a),
        line_seq(a + seq!['\n'] + b) == line_seq(a) + line_seq(b),
    decreases a.len(),
{
    let nl = seq!['\n'];
    lemma_lines_add(a, b);
    lemma_first_index(a, '\n');
    let n = first_index(a, '\n');
    if n == a.len() {
        lemma_lines_single(a);
    } else {
        let head = a.take(n);
        let rest = a.skip(n + 1);
        assert(rest.len() > 0);
        assert(rest.last() == a.last());
        assert(a + nl =~= head + nl + (rest + nl));
        assert(one_line(head));
        lemma_lines_add(head, rest + nl);
        lemma_lines_single(head);
        lemma_lines_of_two(rest, b);
    }
}

/// Trimming takes away white space at both ends and nothing else, and leaves none there.
pub proof fn law_trimming_takes_only_white_space(lead: Seq<char>, core: Seq<char>, trail: Seq<char>)
    requires
        blank(lead),
        blank(trail),
        tight(core),
    ensures
        trimmed(lead + core + trail) == core,
        trimmed(trimmed(lead + core + trail)) == trimmed(lead + core + trail),
{
    let e = Seq::<char>::empty();
    lemma_trimmed_is(lead, core, trail);
    lemma_trimmed_is(e, core, e);
    assert(e + core + e =~= core);
}

/// Cutting a text at a character loses nothing: joined again with that character, the pieces are
/// the text, and none of them holds it.
pub proof fn law_cut_text_can_be_joined(s: Seq<char>, c: char)
    ensures
        joined(split_at_each(s, c), seq![c]) == s,
        split_at_each(s, c).len() > 0,
        forall|i: int, k: int|
            0 <= i < split_at_each(s, c).len() && 0 <= k < split_at_each(s, c)[i].len()
                ==> #[trigger] split_at_each(s, c)[i][k] != c,
    decreases s.len(),
{
    lemma_first_index(s, c);
    let n = first_index(s, c);
    if n == s.len() {
        lemma_split_none(s, c);
    } else {
        let head = s.take(n);
        let rest = s.skip(n + 1);
        law_cut_text_can_be_joined(rest, c);
        lemma_joined_front(head, split_at_each(rest, c), seq![c]);
        assert(split_at_each(s, c) == seq![head] + split_at_each(rest, c));
        assert(s =~= head + seq![c] + rest);
        assert forall|i: int, k: int|
            0 <= i < split_at_each(s, c).len() && 0 <= k < split_at_each(s, c)[i].len() implies
            #[trigger] split_at_each(s, c)[i][k] != c by {
            if i > 0 {
                assert(split_at_each(s, c)[i] == split_at_each(rest, c)[i - 1]);
            }
        }
    }
}

/// A prefix is taken off as often as it stands there, and what does not start with it stays.
pub proof fn law_prefixes_are_taken_off(prefix: Seq<char>, rest: Seq<char>)
    requires
        prefix.len() > 0,
    ensures
        without_prefixes(prefix + rest, prefix) == without_prefixes(rest, prefix),
        !has_prefix(rest, prefix) ==> without_prefixes(rest, prefix) == rest,
        has_prefix(prefix + rest, prefix),
{
    let whole = prefix + rest;
    assert(whole.take(prefix.len() as int) =~= prefix);
    assert(whole.skip(prefix.len() as int) =~= rest);
}

/// Joining puts the separator between the parts and nowhere else.
pub proof fn law_joining_separates_the_parts(
    first: Seq<Seq<char>>,
    second: Seq<Seq<char>>,
    sep: Seq<char>,
)
    requires
        first.len() > 0,
        second.len() > 0,
    ensures
        joined(first + second, sep) == joined(first, sep) + sep + joined(second, sep),
        joined(seq![first[0]], sep) == first[0],
    decreases second.len(),
{
    assert((first + second).drop_last() =~= first + second.drop_last());
    if second.len() == 1 {
        assert(first + second.drop_last() =~= first);
    } else {
        law_joining_separates_the_parts(first, second.drop_last(), sep);
        assert(joined(first + second, sep) =~= joined(first, sep) + sep + joined(second, sep));
    }
}

/// A text ends a line at each line feed, with a carriage return before it or not, and the last
/// line needs none.
pub proof fn law_line_feeds_end_lines(line: Seq<char>, rest: Seq<char>)
    requires
        one_line(line),
    ensures
        line.len() == 0 || line.last() != '\r' ==> line_seq(line + seq!['\n'] + rest) == seq![line]
            + line_seq(rest),
        line_seq(line + seq!['\r', '\n'] + rest) == seq![line] + line_seq(rest),
        line.len() > 0 ==> line_seq(line) == seq![line],
        line_seq(Seq::empty()).len() == 0,
{
    let plain = line + seq!['\n'] + rest;
    assert(plain[line.len() as int] == '\n');
    lemma_first_index_is(plain, '\n', line.len() as int);
    assert(plain.take(line.len() as int) =~= line);
    assert(plain.skip(line.len() as int + 1) =~= rest);
    let returned = line + seq!['\r'];
    let dos = line + seq!['\r', '\n'] + rest;
    assert(dos =~= returned + seq!['\n'] + rest);
    lemma_first_index_is(dos, '\n', returned.len() as int);
    assert(dos.take(returned.len() as int) =~= returned);
    assert(dos.skip(returned.len() as int + 1) =~= rest);
    assert(returned.drop_last() =~= line);
    if line.len() > 0 {
        lemma_first_index_is(line, '\n', line.len() as int);
    }
}

} // verus!
