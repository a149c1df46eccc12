//! Ordering of catalogue names and URL-safe encoding of path segments.

use crate::collate::{
    code, injective_rank, is_ascii_char, lemma_lex_total, lex_leq, lex_order, order_of,
    sort_strings, Collation,
};
use base64::Engine;
use std::cmp::Ordering;
use vstd::prelude::*;
use vstd::std_specs::iter::IteratorSpec;
use vstd::relations::{sorted_by, total_ordering};

verus! {

broadcast use vstd::string::group_string_axioms;

/// A letter of the Russian alphabet, capital or small: А..Я, а..я, Ё and ё.
pub open spec fn is_cyrillic_char(c: char) -> bool {
    (0x410 <= code(c) <= 0x44F) || code(c) == 0x401 || code(c) == 0x451
}

/// Place of a character in the catalogue order: Cyrillic letters come first,
/// then the other non-ASCII characters, then ASCII; within a group the code decides.
pub open spec fn fb2_rank(c: char) -> int {
    let group: int = if is_ascii_char(c) {
        2
    } else if is_cyrillic_char(c) {
        0
    } else {
        1
    };
    group * 0x110000 + code(c)
}

/// The catalogue ranking of characters as a function value.
pub open spec fn fb2_ranking() -> spec_fn(char) -> int {
    |c: char| fb2_rank(c)
}

/// Catalogue order of two names: lexicographic by `fb2_rank`, a prefix first.
pub open spec fn fb2_order(a: Seq<char>, b: Seq<char>) -> Ordering {
    lex_order(a, b, fb2_ranking())
}

/// "Not after" in the catalogue order.
pub open spec fn fb2_leq() -> spec_fn(Seq<char>, Seq<char>) -> bool {
    lex_leq(fb2_ranking())
}

/// The catalogue ranking tells different characters apart.
pub proof fn lemma_fb2_ranking_injective()
    ensures
        injective_rank(fb2_ranking()),
{
    assert forall|x: char, y: char| #[trigger] fb2_ranking()(x) == #[trigger] fb2_ranking()(
        y,
    ) implies x == y by {
        vstd::utf8::char_is_scalar(x);
        vstd::utf8::char_is_scalar(y);
        assert(code(x) == code(y));
        vstd::utf8::char_u32_cast(x, x as u32);
        vstd::utf8::char_u32_cast(y, y as u32);
    }
}

/// The catalogue order of names is a total order: every two names compare,
/// the comparison is transitive, and only equal names compare equal.
pub proof fn lemma_fb2_total()
    ensures
        total_ordering(fb2_leq()),
{
    lemma_fb2_ranking_injective();
    lemma_lex_total(fb2_ranking());
}

/// Comparing two names the other way round gives the reversed result.
pub proof fn lemma_fb2_order_reversed(a: Seq<char>, b: Seq<char>)
    ensures
        fb2_order(b, a) == crate::collate::reversed(fb2_order(a, b)),
{
    crate::collate::lemma_lex_reversed(a, b, fb2_ranking());
}

/// Two names compare equal exactly when they are the same name.
pub proof fn lemma_fb2_order_equal(a: Seq<char>, b: Seq<char>)
    ensures
        (fb2_order(a, b) == Ordering::Equal) <==> (a == b),
{
    lemma_fb2_ranking_injective();
    crate::collate::lemma_lex_equal(a, b, fb2_ranking());
}

/// A letter of the Russian alphabet by its code: А (U+0410) to я (U+044F),
/// Ё (U+0401) and ё (U+0451).
pub open spec fn russian_letter(c: char) -> bool {
    (0x410 <= code(c) && code(c) <= 0x44F) || code(c) == 0x401 || code(c) == 0x451
}

/// Two lexicographic orders agree on strings on whose characters the two
/// rankings agree.
proof fn lemma_lex_same_ranks(
    a: Seq<char>,
    b: Seq<char>,
    r1: spec_fn(char) -> int,
    r2: spec_fn(char) -> int,
)
    requires
        forall|i: int| 0 <= i < a.len() ==> r1(#[trigger] a[i]) == r2(a[i]),
        forall|i: int| 0 <= i < b.len() ==> r1(#[trigger] b[i]) == r2(b[i]),
    ensures
        lex_order(a, b, r1) == lex_order(a, b, r2),
    decreases a.len(),
{
    if a.len() > 0 && b.len() > 0 {
        assert(r1(a[0]) == r2(a[0]));
        assert(r1(b[0]) == r2(b[0]));
        let (a1, b1) = (a.drop_first(), b.drop_first());
        assert forall|i: int| 0 <= i < a1.len() implies r1(#[trigger] a1[i]) == r2(a1[i]) by {
            assert(a1[i] == a[i + 1]);
        }
        assert forall|i: int| 0 <= i < b1.len() implies r1(#[trigger] b1[i]) == r2(b1[i]) by {
            assert(b1[i] == b[i + 1]);
        }
        lemma_lex_same_ranks(a1, b1, r1, r2);
    }
}

/// Every letter of the Russian alphabet, capital or small, Ъ, Ь, Ё and their
/// small forms included, is in the first group of the catalogue order: it
/// comes before every other character, and among Russian letters the codes
/// decide. So two names made only of Russian letters compare as `String`s do.
pub proof fn lemma_russian_letters_first(a: Seq<char>, b: Seq<char>, x: char, y: char)
    requires
        forall|i: int| 0 <= i < a.len() ==> russian_letter(#[trigger] a[i]),
        forall|i: int| 0 <= i < b.len() ==> russian_letter(#[trigger] b[i]),
        russian_letter(x),
    ensures
        is_cyrillic_char(x),
        fb2_order(a, b) == crate::collate::text_order(a, b),
        !russian_letter(y) ==> fb2_order(seq![x], seq![y]) == Ordering::Less,
        russian_letter(y) ==> fb2_order(seq![x], seq![y]) == order_of(code(x), code(y)),
{
    assert forall|i: int| 0 <= i < a.len() implies fb2_ranking()(#[trigger] a[i])
        == crate::collate::code_ranking()(a[i]) by {
        assert(russian_letter(a[i]));
    }
    assert forall|i: int| 0 <= i < b.len() implies fb2_ranking()(#[trigger] b[i])
        == crate::collate::code_ranking()(b[i]) by {
        assert(russian_letter(b[i]));
    }
    lemma_lex_same_ranks(a, b, fb2_ranking(), crate::collate::code_ranking());
    let (sx, sy) = (seq![x], seq![y]);
    assert(sx.drop_first().len() == 0 && sy.drop_first().len() == 0);
    assert(sx[0] == x && sy[0] == y);
    assert(lex_order(sx.drop_first(), sy.drop_first(), fb2_ranking()) == Ordering::Equal);
}

/// Sorting names depends only on which names there are, not on the order they
/// come in; and sorting sorted names changes nothing.
pub proof fn lemma_sorted_order_independent(a: Seq<Seq<char>>, b: Seq<Seq<char>>)
    requires
        a.to_multiset() == b.to_multiset(),
    ensures
        a.sort_by(fb2_leq()) == b.sort_by(fb2_leq()),
        a.sort_by(fb2_leq()).sort_by(fb2_leq()) == a.sort_by(fb2_leq()),
{
    lemma_fb2_total();
    a.lemma_sort_by_ensures(fb2_leq());
    b.lemma_sort_by_ensures(fb2_leq());
    vstd::seq_lib::lemma_sorted_unique(a.sort_by(fb2_leq()), b.sort_by(fb2_leq()), fb2_leq());
    let s = a.sort_by(fb2_leq());
    s.lemma_sort_by_ensures(fb2_leq());
    vstd::seq_lib::lemma_sorted_unique(s.sort_by(fb2_leq()), s, fb2_leq());
}

/// Whether `c` is a character of the ASCII range.
pub(crate) fn char_is_ascii(c: char) -> (r: bool)
    ensures
        r == is_ascii_char(c),
{
    (c as u32) < 0x80
}

/// The code of `c`.
pub(crate) fn char_code(c: char) -> (r: u32)
    ensures
        r == code(c),
{
    c as u32
}

/// Whether `ch` is a letter of the Russian alphabet.
pub fn is_cyrillic(ch: &char) -> (r: bool)
    ensures
        r == is_cyrillic_char(*ch),
        r == russian_letter(*ch),
{
    let c = *ch as u32;
    (0x410 <= c && c <= 0x44F) || c == 0x401 || c == 0x451
}

/// Compares two characters in the catalogue order: a non-ASCII character comes
/// before an ASCII one, a Cyrillic letter before another non-ASCII character,
/// and otherwise the codes decide.
pub fn fb2cmp(a: &char, b: &char) -> (r: Ordering)
    ensures
        r == order_of(fb2_rank(*a), fb2_rank(*b)),
{
    let a_ascii = char_is_ascii(*a);
    let b_ascii = char_is_ascii(*b);
    if a_ascii && !b_ascii {
        return Ordering::Greater;
    } else if !a_ascii && b_ascii {
        return Ordering::Less;
    } else if !a_ascii && !b_ascii {
        let a_cyr = is_cyrillic(a);
        let b_cyr = is_cyrillic(b);
        if a_cyr && !b_cyr {
            return Ordering::Less;
        } else if !a_cyr && b_cyr {
            return Ordering::Greater;
        }
    }
    let ca = char_code(*a);
    let cb = char_code(*b);
    if ca < cb {
        Ordering::Less
    } else if ca == cb {
        Ordering::Equal
    } else {
        Ordering::Greater
    }
}

/// Compares two names in the catalogue order, character by character; when one
/// name is a prefix of the other, the shorter comes first.
pub fn fb2sort(lhv: &String, rhv: &String) -> (r: Ordering)
    ensures
        r == fb2_order(lhv@, rhv@),
{
    let mut ac = lhv.as_str().chars();
    let mut bc = rhv.as_str().chars();
    loop
        invariant
            fb2_order(lhv@, rhv@) == fb2_order(ac.remaining(), bc.remaining()),
            ac.obeys_prophetic_iter_laws(),
            bc.obeys_prophetic_iter_laws(),
            ac.decrease() is Some,
        decreases ac.decrease()->0,
    {
        if let Some(a) = ac.next() {
            if let Some(b) = bc.next() {
                let res = fb2cmp(&a, &b);
                match res {
                    Ordering::Equal => {},
                    _ => {
                        return res;
                    },
                }
            } else {
                return Ordering::Greater;
            }
        } else {
            if let Some(_) = bc.next() {
                return Ordering::Less;
            } else {
                return Ordering::Equal;
            }
        }
    }
}

/// Whether `a` does not come after `b` in the catalogue order.
pub fn fb2_not_after(a: &String, b: &String) -> (r: bool)
    ensures
        r == fb2_leq()(a@, b@),
{
    match fb2sort(a, b) {
        Ordering::Greater => false,
        _ => true,
    }
}

/// The names sorted in the catalogue order.
pub fn sorted(patterns: Vec<String>) -> (r: Vec<String>)
    ensures
        r.deep_view() == patterns.deep_view().sort_by(fb2_leq()),
        sorted_by(r.deep_view(), fb2_leq()),
        r.deep_view().to_multiset() == patterns.deep_view().to_multiset(),
{
    sort_strings(Collation::Fb2, patterns)
}

/// The character of the URL-safe base64 alphabet for the 6-bit value `v`:
/// `A`-`Z`, `a`-`z`, `0`-`9`, `-` and `_`.
pub open spec fn base64_digit(v: int) -> char {
    if v < 26 {
        (65 + v) as char
    } else if v < 52 {
        (97 + v - 26) as char
    } else if v < 62 {
        (48 + v - 52) as char
    } else if v == 62 {
        '-'
    } else {
        '_'
    }
}

/// The `i`-th byte of `b` as an integer, 0 past the end.
pub open spec fn byte_at(b: Seq<u8>, i: int) -> int {
    if i < b.len() {
        b[i] as int
    } else {
        0
    }
}

/// Padded URL-safe base64 text of `b` (RFC 4648, section 5): every three bytes
/// become four characters; a last group of one or two bytes is padded with `=`.
pub open spec fn base64_url(b: Seq<u8>) -> Seq<char>
    decreases b.len(),
{
    if b.len() == 0 {
        Seq::empty()
    } else {
        let x = byte_at(b, 0);
        let y = byte_at(b, 1);
        let z = byte_at(b, 2);
        let group = seq![
            base64_digit(x / 4),
            base64_digit((x % 4) * 16 + y / 16),
            if b.len() >= 2 { base64_digit((y % 16) * 4 + z / 64) } else { '=' },
            if b.len() >= 3 { base64_digit(z % 64) } else { '=' },
        ];
        if b.len() >= 3 {
            group + base64_url(b.skip(3))
        } else {
            group
        }
    }
}

/// Different 6-bit values have different base64 digits, and no digit is the
/// padding character.
proof fn lemma_base64_digit(v: int, w: int)
    requires
        0 <= v < 64,
        0 <= w < 64,
    ensures
        base64_digit(v) != '=',
        base64_digit(v) == base64_digit(w) ==> v == w,
{
    if v < 26 {
        assert(((65 + v) as char) as u32 == 65 + v);
    } else if v < 52 {
        assert(((97 + v - 26) as char) as u32 == 97 + v - 26);
    } else if v < 62 {
        assert(((48 + v - 52) as char) as u32 == 48 + v - 52);
    }
    if w < 26 {
        assert(((65 + w) as char) as u32 == 65 + w);
    } else if w < 52 {
        assert(((97 + w - 26) as char) as u32 == 97 + w - 26);
    } else if w < 62 {
        assert(((48 + w - 52) as char) as u32 == 48 + w - 52);
    }
}

/// The four 6-bit values of a group of three bytes determine the bytes.
proof fn lemma_group_values(x: int, y: int, z: int, a: int, b: int, c: int)
    by (nonlinear_arith)
    requires
        0 <= x < 256,
        0 <= y < 256,
        0 <= z < 256,
        0 <= a < 256,
        0 <= b < 256,
        0 <= c < 256,
        x / 4 == a / 4,
        (x % 4) * 16 + y / 16 == (a % 4) * 16 + b / 16,
    ensures
        x == a,
        (y % 16) * 4 + z / 64 == (b % 16) * 4 + c / 64 ==> y == b,
        (y % 16) * 4 + z / 64 == (b % 16) * 4 + c / 64 && z % 64 == c % 64 ==> z == c,
{
}

/// The ranges of the 6-bit values of a group.
proof fn lemma_group_ranges(x: int, y: int, z: int)
    by (nonlinear_arith)
    requires
        0 <= x < 256,
        0 <= y < 256,
        0 <= z < 256,
    ensures
        0 <= x / 4 < 64,
        0 <= (x % 4) * 16 + y / 16 < 64,
        0 <= (y % 16) * 4 + z / 64 < 64,
        0 <= z % 64 < 64,
{
}

/// Different byte strings have different base64 texts.
pub proof fn lemma_base64_url_injective(a: Seq<u8>, b: Seq<u8>)
    requires
        base64_url(a) == base64_url(b),
    ensures
        a == b,
    decreases a.len(),
{
    if a.len() == 0 || b.len() == 0 {
        if a.len() != 0 {
            assert(base64_url(a).len() >= 4);
        }
        if b.len() != 0 {
            assert(base64_url(b).len() >= 4);
        }
        assert(a =~= b);
    } else {
        let (x, y, z) = (byte_at(a, 0), byte_at(a, 1), byte_at(a, 2));
        let (p, q, r) = (byte_at(b, 0), byte_at(b, 1), byte_at(b, 2));
        let ta = base64_url(a);
        let tb = base64_url(b);
        assert(ta[0] == tb[0] && ta[1] == tb[1] && ta[2] == tb[2] && ta[3] == tb[3]);
        lemma_group_ranges(x, y, z);
        lemma_group_ranges(p, q, r);
        lemma_base64_digit(x / 4, p / 4);
        lemma_base64_digit((x % 4) * 16 + y / 16, (p % 4) * 16 + q / 16);
        lemma_base64_digit((y % 16) * 4 + z / 64, (q % 16) * 4 + r / 64);
        lemma_base64_digit(z % 64, r % 64);
        assert((a.len() >= 2) == (b.len() >= 2));
        assert((a.len() >= 3) == (b.len() >= 3));
        lemma_group_values(x, y, z, p, q, r);
        if a.len() >= 3 {
            assert(ta.skip(4) =~= base64_url(a.skip(3)));
            assert(tb.skip(4) =~= base64_url(b.skip(3)));
            lemma_base64_url_injective(a.skip(3), b.skip(3));
            assert(a =~= b) by {
                assert forall|k: int| 0 <= k < a.len() implies a[k] == b[k] by {
                    if k >= 3 {
                        assert(a[k] == a.skip(3)[k - 3]);
                        assert(b[k] == b.skip(3)[k - 3]);
                    }
                }
            }
        } else {
            assert(a =~= b);
        }
    }
}

/// The message of the error that base64 decoding of `text` reports.
pub uninterp spec fn base64_decode_message(text: Seq<char>) -> Seq<char>;

/// The message of the error that UTF-8 decoding of `bytes` reports.
pub uninterp spec fn utf8_decode_message(bytes: Seq<u8>) -> Seq<char>;

/// base64 `Engine::encode` with `general_purpose::URL_SAFE`: the URL-safe
/// alphabet with `=` padding.
#[verifier::external_body]
fn base64_url_encode(bytes: &[u8]) -> (r: String)
    ensures
        r@ == base64_url(bytes@),
{
    base64::engine::general_purpose::URL_SAFE.encode(bytes)
}

/// base64 `Engine::decode` with `general_purpose::URL_SAFE`, which requires
/// canonical padding and no trailing bits: it succeeds exactly on the texts
/// that `encode` produces, giving back the encoded bytes; otherwise its error
/// is rendered with `Display`.
#[verifier::external_body]
fn base64_url_decode(text: &str) -> (r: Result<Vec<u8>, String>)
    ensures
        r matches Ok(bytes) ==> base64_url(bytes@) == text@,
        r matches Ok(bytes) ==> forall|b: Seq<u8>| #[trigger] base64_url(b) == text@ ==> bytes@ == b,
        r is Ok <==> exists|b: Seq<u8>| #[trigger] base64_url(b) == text@,
        r matches Err(m) ==> m@ == base64_decode_message(text@),
{
    match base64::engine::general_purpose::URL_SAFE.decode(text) {
        Ok(v) => Ok(v),
        Err(e) => Err(format!("{}", e)),
    }
}

/// `String::from_utf8`: succeeds exactly on valid UTF-8 and then holds the
/// decoded characters; otherwise its error is rendered with `Display`.
#[verifier::external_body]
fn string_from_utf8(bytes: Vec<u8>) -> (r: Result<String, String>)
    ensures
        r is Ok <==> vstd::utf8::valid_utf8(bytes@),
        r matches Ok(s) ==> s@ == vstd::utf8::decode_utf8(bytes@),
        r matches Err(m) ==> m@ == utf8_decode_message(bytes@),
{
    match String::from_utf8(bytes) {
        Ok(s) => Ok(s),
        Err(e) => Err(format!("{}", e)),
    }
}

/// Why a path segment could not be decoded.
pub enum DecodeError {
    /// The segment is not URL-safe base64; the message says where.
    Base64(String),
    /// The decoded bytes are not UTF-8; the message says where.
    Utf8(String),
}

impl DecodeError {
    /// The error's message.
    pub fn message(&self) -> (r: String)
        ensures
            r@ == match self {
                DecodeError::Base64(m) => m@,
                DecodeError::Utf8(m) => m@,
            },
    {
        match self {
            DecodeError::Base64(m) => m.clone(),
            DecodeError::Utf8(m) => m.clone(),
        }
    }
}

/// The text that encodes `s`: URL-safe base64 of its UTF-8 bytes.
pub open spec fn encoded(s: Seq<char>) -> Seq<char> {
    base64_url(vstd::utf8::encode_utf8(s))
}

/// What decoding `text` gives: the characters of the UTF-8 bytes it encodes,
/// or the message of the first check that fails.
pub open spec fn decoded(text: Seq<char>) -> Result<Seq<char>, Seq<char>> {
    if exists|b: Seq<u8>| #[trigger] base64_url(b) == text {
        let b = choose|b: Seq<u8>| #[trigger] base64_url(b) == text;
        if vstd::utf8::valid_utf8(b) {
            Ok(vstd::utf8::decode_utf8(b))
        } else {
            Err(utf8_decode_message(b))
        }
    } else {
        Err(base64_decode_message(text))
    }
}

/// Decoding gives back what encoding encoded: for every string `s`,
/// `decode(encode(s))` is `Ok(s)`.
pub proof fn lemma_decode_encoded(s: Seq<char>)
    ensures
        decoded(encoded(s)) == Ok::<Seq<char>, Seq<char>>(s),
{
    let bytes = vstd::utf8::encode_utf8(s);
    let text = encoded(s);
    assert(base64_url(bytes) == text);
    let b = choose|b: Seq<u8>| #[trigger] base64_url(b) == text;
    lemma_base64_url_injective(b, bytes);
    vstd::utf8::encode_utf8_valid_utf8(s);
    vstd::utf8::encode_utf8_decode_utf8(s);
}

/// Encoding gives back what decoding decoded: a text that decodes to `s` is
/// exactly the encoding of `s`.
pub proof fn lemma_encoded_decoded(text: Seq<char>, s: Seq<char>)
    requires
        decoded(text) == Ok::<Seq<char>, Seq<char>>(s),
    ensures
        encoded(s) == text,
{
    let b = choose|b: Seq<u8>| #[trigger] base64_url(b) == text;
    vstd::utf8::decode_utf8_encode_utf8(b);
}

/// The URL-safe base64 text of the UTF-8 bytes of `msg`.
pub fn encode(msg: String) -> (r: String)
    ensures
        r@ == encoded(msg@),
{
    base64_url_encode(msg.as_str().as_bytes())
}

/// The string whose UTF-8 bytes `msg` encodes in URL-safe base64.
pub fn decode(msg: String) -> (r: Result<String, DecodeError>)
    ensures
        match r {
            Ok(s) => decoded(msg@) == Ok::<Seq<char>, Seq<char>>(s@),
            Err(e) => decoded(msg@) == Err::<Seq<char>, Seq<char>>(match e {
                DecodeError::Base64(m) => m@,
                DecodeError::Utf8(m) => m@,
            }),
        },
        r matches Err(DecodeError::Base64(_)) <==> !exists|b: Seq<u8>| #[trigger] base64_url(b) == msg@,
{
    match base64_url_decode(msg.as_str()) {
        Ok(bytes) => {
            let ghost b = bytes@;
            let ghost c = choose|c: Seq<u8>| #[trigger] base64_url(c) == msg@;
            assert(base64_url(b) == msg@);
            assert(c == b);
            match string_from_utf8(bytes) {
                Ok(s) => Ok(s),
                Err(m) => Err(DecodeError::Utf8(m)),
            }
        },
        Err(m) => Err(DecodeError::Base64(m)),
    }
}

/// The decoded string, or the message of the error when `msg` does not decode.
pub fn decode_with_lossy(msg: String) -> (r: String)
    ensures
        r@ == match decoded(msg@) {
            Ok(s) => s,
            Err(m) => m,
        },
{
    match decode(msg) {
        Ok(decoded) => decoded,
        Err(err) => err.message(),
    }
}

} // verus!
