//! Encodings and digests for the login, and its random values.

use vstd::prelude::*;
use vstd::string::*;
use vstd::utf8::{encode_utf8, is_ascii_chars, is_ascii_chars_encode_utf8};

use crate::text::{joined, lemma_split_add, lemma_split_none, split_at_each};
use crate::views::result_view;

verus! {

/// The bytes that stand for themselves in a percent-encoded text.
pub open spec fn unreserved(b: u8) -> bool {
    ||| 48 <= b <= 57
    ||| 65 <= b <= 90
    ||| 97 <= b <= 122
    ||| b == 45
    ||| b == 46
    ||| b == 95
    ||| b == 126
}

/// A hexadecimal digit in upper case.
pub open spec fn upper_hex(d: int) -> char {
    if d < 10 {
        (48 + d) as char
    } else {
        (55 + d) as char
    }
}

/// One byte, percent-encoded.
pub open spec fn percent_byte(b: u8) -> Seq<char> {
    if unreserved(b) {
        seq![b as char]
    } else {
        seq!['%', upper_hex(b as int / 16), upper_hex(b as int % 16)]
    }
}

/// Bytes percent-encoded: all but letters, digits and `-`, `.`, `_`, `~` as `%` and two
/// hexadecimal digits.
pub open spec fn percent_encoded(bytes: Seq<u8>) -> Seq<char>
    decreases bytes.len(),
{
    if bytes.len() == 0 {
        seq![]
    } else {
        percent_byte(bytes[0]) + percent_encoded(bytes.skip(1))
    }
}

/// The percent-encoded form of a text in UTF-8.
pub open spec fn url_form(text: Seq<char>) -> Seq<char> {
    percent_encoded(encode_utf8(text))
}

/// `urlencoding::encode`: percent-encodes every byte of the text in UTF-8 except alphanumerics
/// and `-`, `_`, `.`, `~`, with upper-case digits.
#[verifier::external_body]
pub(crate) fn url_encode(text: &str) -> (r: String)
    ensures
        r@ == url_form(text@),
{
    urlencoding::encode(text).into_owned()
}

/// Bytes in the URL-safe base64 alphabet without padding.
pub uninterp spec fn base64_url(bytes: Seq<u8>) -> Seq<char>;

/// The bytes that a text in URL-safe base64 without padding stands for, or what is said about it if
/// it is no such text.
pub uninterp spec fn base64_url_bytes(text: Seq<char>) -> Result<Seq<u8>, Seq<char>>;

/// The characters of the URL-safe base64 alphabet.
pub open spec fn base64_url_char(c: char) -> bool {
    ||| 'A' <= c <= 'Z'
    ||| 'a' <= c <= 'z'
    ||| '0' <= c <= '9'
    ||| c == '-'
    ||| c == '_'
}

/// `encode` of the base64 engine `URL_SAFE_NO_PAD`. The text depends on the bytes alone, is
/// written in the URL-safe alphabet, takes four characters for three bytes with no padding, and
/// decodes to the same bytes.
#[verifier::external_body]
pub(crate) fn base64_encode(bytes: &[u8]) -> (r: String)
    requires
        bytes@.len() * 2 <= usize::MAX,
    ensures
        r@ == base64_url(bytes@),
        r@.len() == (bytes@.len() * 4 + 2) / 3,
        forall|i: int| 0 <= i < r@.len() ==> base64_url_char(#[trigger] r@[i]),
        base64_url_bytes(r@) is Ok,
        base64_url_bytes(r@)->Ok_0 == bytes@,
{
    base64::Engine::encode(&base64::engine::general_purpose::URL_SAFE_NO_PAD, bytes)
}

/// `decode` of the base64 engine `URL_SAFE_NO_PAD`, an error as its text: whether the text decodes,
/// to which bytes, and what the error says depends on the text alone.
#[verifier::external_body]
pub(crate) fn base64_decode(text: &str) -> (r: Result<Vec<u8>, String>)
    ensures
        result_view(r) == base64_url_bytes(text@),
{
    match base64::Engine::decode(&base64::engine::general_purpose::URL_SAFE_NO_PAD, text) {
        Ok(bytes) => Ok(bytes),
        Err(error) => Err(error.to_string()),
    }
}

/// The SHA-256 digest of bytes.
pub uninterp spec fn sha256(bytes: Seq<u8>) -> Seq<u8>;

/// `sha2::Sha256::digest`: 32 bytes that depend on the given bytes alone.
#[verifier::external_body]
pub(crate) fn sha256_digest(bytes: &[u8]) -> (r: Vec<u8>)
    ensures
        r@ == sha256(bytes@),
        r@.len() == 32,
{
    <sha2::Sha256 as sha2::Digest>::digest(bytes).to_vec()
}

/// `fill_bytes` of the generator of `rand::rng`, on that many bytes, no more than a vector can
/// hold. Which bytes come is left open.
#[verifier::external_body]
pub(crate) fn random_bytes(len: usize) -> (r: Vec<u8>)
    requires
        len <= isize::MAX,
    ensures
        r@.len() == len,
{
    let mut bytes = vec![0_u8; len];
    rand::RngCore::fill_bytes(&mut rand::rng(), &mut bytes);
    bytes
}

/// `random` of the generator of `rand::rng`. Which number comes is left open.
#[verifier::external_body]
pub(crate) fn random_u32() -> (r: u32) {
    rand::Rng::random(&mut rand::rng())
}

/// The path of a URL, and the pairs of its query, as `url::Url` reads them, or what is said about a
/// text that it does not read.
pub uninterp spec fn url_parts(text: Seq<char>) -> Result<
    (Seq<char>, Seq<(Seq<char>, Seq<char>)>),
    Seq<char>,
>;

/// The contents of a list of pairs.
pub open spec fn pair_texts(v: Seq<(String, String)>) -> Seq<(Seq<char>, Seq<char>)> {
    Seq::new(v.len(), |i: int| (v[i].0@, v[i].1@))
}

/// The contents of a path and of the pairs of a query, or the text of the error.
pub open spec fn parts_view(parts: Result<(String, Vec<(String, String)>), String>) -> Result<
    (Seq<char>, Seq<(Seq<char>, Seq<char>)>),
    Seq<char>,
> {
    match parts {
        Ok((path, pairs)) => Ok((path@, pair_texts(pairs@))),
        Err(cause) => Err(cause@),
    }
}

/// `url::Url::parse`, and of a URL that it reads `path` and `query_pairs`, in their order; an error
/// as its text. All of it depends on the text alone.
#[verifier::external_body]
pub(crate) fn read_url(text: &str) -> (r: Result<(String, Vec<(String, String)>), String>)
    ensures
        parts_view(r) == url_parts(text@),
{
    match url::Url::parse(text) {
        Ok(url) => Ok((url.path().to_string(), url.query_pairs().into_owned().collect())),
        Err(error) => Err(error.to_string()),
    }
}

/// One pair of a form: the key, `=`, and the value percent-encoded.
pub open spec fn form_pair(pair: (Seq<char>, Seq<char>)) -> Seq<char> {
    pair.0 + "="@ + url_form(pair.1)
}

/// The pairs of a form, one by one.
pub open spec fn form_pairs(pairs: Seq<(Seq<char>, Seq<char>)>) -> Seq<Seq<char>> {
    Seq::new(pairs.len(), |i: int| form_pair(pairs[i]))
}

/// A form: its pairs with `&` between them.
pub open spec fn form_text(pairs: Seq<(Seq<char>, Seq<char>)>) -> Seq<char> {
    joined(form_pairs(pairs), "&"@)
}

/// Writes a form: its pairs with `&` between them, each value percent-encoded.
pub fn write_form(pairs: &Vec<(&str, &str)>) -> (r: String)
    ensures
        r@ == form_text(Seq::new(pairs@.len(), |i: int| (pairs@[i].0@, pairs@[i].1@))),
{
    let ghost all = Seq::new(pairs@.len(), |i: int| (pairs@[i].0@, pairs@[i].1@));
    let mut r = String::new();
    let mut i: usize = 0;
    while i < pairs.len()
        invariant
            i <= pairs@.len(),
            all == Seq::new(pairs@.len(), |i: int| (pairs@[i].0@, pairs@[i].1@)),
            r@ == joined(form_pairs(all).take(i as int), "&"@),
        decreases pairs@.len() - i,
    {
        let ghost parts = form_pairs(all);
        let ghost before = r@;
        assert(parts.take(i + 1).drop_last() =~= parts.take(i as int));
        if i > 0 {
            r.append("&");
        }
        r.append(pairs[i].0);
        r.append("=");
        r.append(url_encode(pairs[i].1).as_str());
        proof {
            let sep = if i > 0 {
                "&"@
            } else {
                seq![]
            };
            assert(r@ =~= before + sep + parts[i as int]);
            assert(parts.take(i + 1).last() == parts[i as int]);
        }
        i += 1;
    }
    assert(form_pairs(all).take(i as int) =~= form_pairs(all));
    r
}

/// The value of a hexadecimal digit in upper case.
pub open spec fn upper_hex_value(c: char) -> int {
    if c <= '9' {
        c as int - 48
    } else {
        c as int - 55
    }
}

/// The bytes of a percent-encoded text.
pub open spec fn percent_decoded(s: Seq<char>) -> Seq<u8>
    decreases s.len(),
{
    if s.len() == 0 {
        seq![]
    } else if s[0] == '%' && s.len() >= 3 {
        seq![(16 * upper_hex_value(s[1]) + upper_hex_value(s[2])) as u8] + percent_decoded(s.skip(3))
    } else {
        seq![s[0] as u8] + percent_decoded(s.skip(1))
    }
}

/// Percent-encoding loses nothing: decoding gives the bytes back.
pub proof fn law_percent_encoding_is_reversible(bytes: Seq<u8>)
    ensures
        percent_decoded(percent_encoded(bytes)) == bytes,
    decreases bytes.len(),
{
    if bytes.len() > 0 {
        let b = bytes[0];
        let tail = percent_encoded(bytes.skip(1));
        let all = percent_encoded(bytes);
        law_percent_encoding_is_reversible(bytes.skip(1));
        assert(bytes =~= seq![b] + bytes.skip(1));
        if unreserved(b) {
            assert(all.skip(1) =~= tail);
            assert(all[0] == b as char);
        } else {
            assert(all.skip(3) =~= tail);
            assert(all[0] == '%' && all[1] == upper_hex(b as int / 16) && all[2] == upper_hex(
                b as int % 16,
            ));
        }
    }
}

/// The characters of a percent-encoded text.
pub open spec fn percent_char(c: char) -> bool {
    ||| 'A' <= c <= 'Z'
    ||| 'a' <= c <= 'z'
    ||| '0' <= c <= '9'
    ||| c == '-'
    ||| c == '.'
    ||| c == '_'
    ||| c == '~'
    ||| c == '%'
}

/// A percent-encoded text holds letters, digits and `-`, `.`, `_`, `~`, `%` only: nothing that
/// separates the parts of a URL.
pub proof fn law_percent_encoded_characters(bytes: Seq<u8>)
    ensures
        forall|i: int|
            0 <= i < percent_encoded(bytes).len() ==> percent_char(
                #[trigger] percent_encoded(bytes)[i],
            ),
    decreases bytes.len(),
{
    if bytes.len() > 0 {
        let head = percent_byte(bytes[0]);
        let tail = percent_encoded(bytes.skip(1));
        law_percent_encoded_characters(bytes.skip(1));
        assert forall|i: int| 0 <= i < percent_encoded(bytes).len() implies percent_char(
            #[trigger] percent_encoded(bytes)[i],
        ) by {
            if i >= head.len() {
                assert(percent_encoded(bytes)[i] == tail[i - head.len()]);
            }
        }
    }
}

/// Texts in URL-safe base64 are percent-encoded as they are.
pub proof fn law_base64_needs_no_escape(text: Seq<char>)
    requires
        forall|i: int| 0 <= i < text.len() ==> base64_url_char(#[trigger] text[i]),
    ensures
        url_form(text) == text,
{
    assert(is_ascii_chars(text));
    is_ascii_chars_encode_utf8(text);
    lemma_percent_plain(text, encode_utf8(text));
}

proof fn lemma_percent_plain(text: Seq<char>, bytes: Seq<u8>)
    requires
        text.len() == bytes.len(),
        forall|i: int| 0 <= i < text.len() ==> base64_url_char(#[trigger] text[i]),
        forall|i: int| 0 <= i < text.len() ==> #[trigger] bytes[i] == text[i] as u8,
    ensures
        percent_encoded(bytes) == text,
    decreases text.len(),
{
    if text.len() > 0 {
        assert forall|i: int| 0 <= i < text.skip(1).len() implies base64_url_char(
            #[trigger] text.skip(1)[i],
        ) by {
            assert(text.skip(1)[i] == text[i + 1]);
        }
        lemma_percent_plain(text.skip(1), bytes.skip(1));
        assert(bytes[0] == text[0] as u8);
        assert(bytes[0] as char == text[0]);
        assert(text =~= seq![text[0]] + text.skip(1));
    } else {
        assert(percent_encoded(bytes) =~= text);
    }
}

/// A form can be taken apart again: cut at `&` it gives its pairs, as long as no key holds `&`.
pub proof fn law_form_is_cut_at_ampersands(pairs: Seq<(Seq<char>, Seq<char>)>)
    requires
        pairs.len() > 0,
        forall|i: int, k: int|
            0 <= i < pairs.len() && 0 <= k < pairs[i].0.len() ==> #[trigger] pairs[i].0[k] != '&',
    ensures
        split_at_each(form_text(pairs), '&') == form_pairs(pairs),
    decreases pairs.len(),
{
    reveal_strlit("=");
    reveal_strlit("&");
    let parts = form_pairs(pairs);
    let last = pairs.last();
    let value = url_form(last.1);
    law_percent_encoded_characters(encode_utf8(last.1));
    let piece = form_pair(last);
    assert forall|k: int| 0 <= k < piece.len() implies piece[k] != '&' by {
        if k < last.0.len() {
            assert(piece[k] == pairs[pairs.len() - 1].0[k]);
        } else if k == last.0.len() {
            assert(piece[k] == '=');
        } else {
            assert(piece[k] == value[k - last.0.len() - 1]);
        }
    }
    lemma_split_none(piece, '&');
    if pairs.len() == 1 {
        assert(parts =~= seq![piece]);
    } else {
        let init = pairs.drop_last();
        assert forall|i: int, k: int| 0 <= i < init.len() && 0 <= k < init[i].0.len() implies
            #[trigger] init[i].0[k] != '&' by {
            assert(init[i].0[k] == pairs[i].0[k]);
        }
        law_form_is_cut_at_ampersands(init);
        assert(form_pairs(init) =~= parts.drop_last());
        lemma_split_add(form_text(init), piece, '&');
        assert("&"@ =~= seq!['&']);
        assert(parts =~= form_pairs(init) + seq![piece]);
    }
}

/// A form holds each pair once and in its order, and gives its value back: cut at the ampersands,
/// the piece of a pair is its key, an equals sign, and what the bytes of the value are read from.
pub proof fn law_form_gives_values_back(pairs: Seq<(Seq<char>, Seq<char>)>, i: int)
    requires
        0 <= i < pairs.len(),
        forall|i: int, k: int|
            0 <= i < pairs.len() && 0 <= k < pairs[i].0.len() ==> #[trigger] pairs[i].0[k] != '&',
    ensures
        split_at_each(form_text(pairs), '&').len() == pairs.len(),
        ({
            let piece = split_at_each(form_text(pairs), '&')[i];
            let front = pairs[i].0 + seq!['='];
            &&& piece.len() >= front.len()
            &&& piece.take(front.len() as int) == front
            &&& percent_decoded(piece.skip(front.len() as int)) == encode_utf8(pairs[i].1)
        }),
{
    reveal_strlit("=");
    law_form_is_cut_at_ampersands(pairs);
    law_percent_encoding_is_reversible(encode_utf8(pairs[i].1));
    let front = pairs[i].0 + seq!['='];
    let piece = form_pair(pairs[i]);
    assert(piece =~= front + url_form(pairs[i].1));
    assert(piece.take(front.len() as int) =~= front);
    assert(piece.skip(front.len() as int) =~= url_form(pairs[i].1));
}

} // verus!
