//! Which archive of the library holds a book. The books are stored in zip
//! archives named after the range of book ids they hold, such as
//! `fb2-749200-750279.zip`; a book is stored in its archive as `ID.fb2`.

use crate::text::{decimal, push_decimal};
use vstd::prelude::*;

verus! {

#[verifier::external_type_specification]
#[verifier::external_body]
pub struct ExRegex(regex::Regex);

/// The pattern of archive names: the first and the last book id it holds.
pub const ARCHIVE_PATTERN: &'static str = "fb2-([0-9]+)-([0-9]+)";

/// An ASCII decimal digit.
pub open spec fn is_digit(c: char) -> bool {
    '0' <= c && c <= '9'
}

/// The number of digits in the run of digits of `s` that starts at `i`.
pub open spec fn digit_run(s: Seq<char>, i: int) -> nat
    decreases s.len() - i,
{
    if 0 <= i < s.len() && is_digit(s[i]) {
        1 + digit_run(s, i + 1)
    } else {
        0
    }
}

/// `ARCHIVE_PATTERN` matches `s` at position `i`: "fb2-", digits, "-", digits.
/// The digit groups take all the digits they can; a shorter first group would
/// be followed by a digit, not by "-", so only the longest one can match.
pub open spec fn matches_at(s: Seq<char>, i: int) -> bool {
    &&& 0 <= i
    &&& i + 4 <= s.len()
    &&& s.subrange(i, i + 4) == "fb2-"@
    &&& digit_run(s, i + 4) > 0
    &&& i + 4 + digit_run(s, i + 4) < s.len()
    &&& s[i + 4 + digit_run(s, i + 4)] == '-'
    &&& digit_run(s, i + 5 + digit_run(s, i + 4)) > 0
}

/// The two digit groups of the leftmost match of `ARCHIVE_PATTERN` in `s`.
pub open spec fn archive_match(s: Seq<char>) -> Option<(Seq<char>, Seq<char>)> {
    if exists|i: int| matches_at(s, i) {
        let i = choose|i: int| matches_at(s, i) && forall|j: int| 0 <= j < i ==> !matches_at(s, j);
        let a = digit_run(s, i + 4);
        let b = digit_run(s, i + 5 + a);
        Some((s.subrange(i + 4, i + 4 + a), s.subrange(i + 5 + a, i + 5 + a + b)))
    } else {
        None
    }
}

/// The value of a string of decimal digits.
pub open spec fn digits_value(s: Seq<char>) -> nat
    decreases s.len(),
{
    if s.len() == 0 {
        0
    } else {
        digits_value(s.drop_last()) * 10 + ((s.last() as u32) - 48) as nat
    }
}

/// A non-empty string of decimal digits.
pub open spec fn all_digits(s: Seq<char>) -> bool {
    s.len() > 0 && forall|i: int| 0 <= i < s.len() ==> is_digit(#[trigger] s[i])
}

/// The message of the error that parsing `s` as a `u32` reports.
pub uninterp spec fn parse_error_message(s: Seq<char>) -> Seq<char>;

/// The compiled pattern of archive names. It is only made by `compile`, from
/// `ARCHIVE_PATTERN`.
pub struct ArchiveNamePattern {
    rx: regex::Regex,
}

/// `regex::Regex::new(ARCHIVE_PATTERN)`, its error rendered with `Display`.
/// `Regex::new` fails only on a pattern that is not valid syntax or whose
/// compiled form exceeds the size limit; `ARCHIVE_PATTERN` is valid and tiny,
/// so compiling succeeds.
#[verifier::external_body]
fn compile_archive_pattern() -> (r: Result<ArchiveNamePattern, String>)
    ensures
        r is Ok,
{
    match regex::Regex::new(ARCHIVE_PATTERN) {
        Ok(rx) => Ok(ArchiveNamePattern { rx }),
        Err(e) => Err(format!("{e}")),
    }
}

/// `Regex::captures` of the compiled `ARCHIVE_PATTERN` on `name`, with the text
/// of groups 1 and 2: the leftmost match, each group as long as it can be.
#[verifier::external_body]
fn archive_captures(p: &ArchiveNamePattern, name: &str) -> (r: Option<(String, String)>)
    ensures
        r is None <==> archive_match(name@) is None,
        r matches Some(groups) ==> archive_match(name@) == Some((groups.0@, groups.1@)),
{
    match p.rx.captures(name) {
        None => None,
        Some(c) => Some((c[1].to_string(), c[2].to_string())),
    }
}

/// `str::parse::<u32>` of a non-empty string of decimal digits: its value
/// when it fits in a `u32`, otherwise the error rendered with `Display`.
#[verifier::external_body]
fn parse_u32(s: &str) -> (r: Result<u32, String>)
    requires
        all_digits(s@),
    ensures
        r is Ok <==> digits_value(s@) <= u32::MAX,
        r matches Ok(v) ==> v == digits_value(s@),
        r matches Err(m) ==> m@ == parse_error_message(s@),
{
    match s.parse::<u32>() {
        Ok(v) => Ok(v),
        Err(e) => Err(format!("{e}")),
    }
}

/// The archive-name pattern, compiled; compiling it always succeeds.
pub fn archive_name_pattern() -> (r: Result<ArchiveNamePattern, String>)
    ensures
        r is Ok,
{
    compile_archive_pattern()
}

/// What the name of a file says of whether it holds book `id`: not an archive
/// name, an archive name whose range holds the id or not, or an id in the name
/// too large for a `u32` (the message of the parse error).
pub open spec fn archive_verdict(name: Seq<char>, id: u32) -> Result<bool, Seq<char>> {
    match archive_match(name) {
        None => Ok(false),
        Some((first, last)) => if digits_value(first) > u32::MAX {
            Err(parse_error_message(first))
        } else if digits_value(last) > u32::MAX {
            Err(parse_error_message(last))
        } else {
            Ok(digits_value(first) <= id && id <= digits_value(last))
        },
    }
}

/// Whether the file named `name` is the archive that holds book `id`.
pub fn archive_holds(p: &ArchiveNamePattern, name: &str, id: u32) -> (r: Result<bool, String>)
    ensures
        match (r, archive_verdict(name@, id)) {
            (Ok(b), Ok(v)) => b == v,
            (Err(m), Err(v)) => m@ == v,
            _ => false,
        },
{
    match archive_captures(p, name) {
        None => Ok(false),
        Some((first, last)) => {
            proof {
                lemma_archive_groups_digits(name@);
            }
            let min = match parse_u32(first.as_str()) {
                Ok(v) => v,
                Err(m) => {
                    return Err(m);
                },
            };
            let max = match parse_u32(last.as_str()) {
                Ok(v) => v,
                Err(m) => {
                    return Err(m);
                },
            };
            Ok(min <= id && id <= max)
        },
    }
}

/// The groups of an archive-name match are non-empty strings of digits.
proof fn lemma_archive_groups_digits(s: Seq<char>)
    requires
        archive_match(s) is Some,
    ensures
        all_digits(archive_match(s).unwrap().0),
        all_digits(archive_match(s).unwrap().1),
{
    let i = choose|i: int| matches_at(s, i) && forall|j: int| 0 <= j < i ==> !matches_at(s, j);
    assert(exists|i: int| matches_at(s, i));
    lemma_least_match(s);
    lemma_digit_run_digits(s, i + 4);
    lemma_digit_run_digits(s, i + 5 + digit_run(s, i + 4));
}

/// When the pattern matches somewhere, it matches at a least position.
proof fn lemma_least_match(s: Seq<char>)
    requires
        exists|i: int| matches_at(s, i),
    ensures
        exists|i: int| matches_at(s, i) && forall|j: int| 0 <= j < i ==> !matches_at(s, j),
{
    let k = choose|i: int| matches_at(s, i);
    lemma_least_match_below(s, k);
}

/// Searching down from a match finds a least one.
proof fn lemma_least_match_below(s: Seq<char>, k: int)
    requires
        matches_at(s, k),
    ensures
        exists|i: int| matches_at(s, i) && forall|j: int| 0 <= j < i ==> !matches_at(s, j),
    decreases k,
{
    if exists|j: int| 0 <= j < k && matches_at(s, j) {
        let j = choose|j: int| 0 <= j < k && matches_at(s, j);
        lemma_least_match_below(s, j);
    } else {
        assert(forall|j: int| 0 <= j < k ==> !matches_at(s, j));
    }
}

/// A run of digits is made of digits.
proof fn lemma_digit_run_digits(s: Seq<char>, i: int)
    requires
        digit_run(s, i) > 0,
    ensures
        all_digits(s.subrange(i, i + digit_run(s, i))),
        i + digit_run(s, i) <= s.len(),
    decreases s.len() - i,
{
    if digit_run(s, i + 1) > 0 {
        lemma_digit_run_digits(s, i + 1);
        assert forall|k: int| 0 <= k < digit_run(s, i) implies is_digit(
            #[trigger] s.subrange(i, i + digit_run(s, i))[k],
        ) by {
            if k > 0 {
                assert(s.subrange(i, i + digit_run(s, i))[k] == s.subrange(
                    i + 1,
                    i + 1 + digit_run(s, i + 1),
                )[k - 1]);
            }
        }
    }
}

/// The name of book `id` inside its archive: "ID.fb2".
pub fn book_file_name(id: u32) -> (r: String)
    ensures
        r@ == decimal(id as nat) + ".fb2"@,
{
    let mut s = String::new();
    push_decimal(&mut s, id);
    s.append(".fb2");
    s
}

} // verus!
