//! Reading version numbers and version ranges out of dependency
//! specifications.

use vstd::prelude::*;
use crate::chars;
use crate::text;
use crate::types::option_view;

verus! {

/// The canonical text of the version that `semver::Version::parse` reads
/// from `text`; `None` where it refuses the text.
pub uninterp spec fn semver_version(text: Seq<char>) -> Option<Seq<char>>;

/// Whether the requirement that `semver::VersionReq::parse` reads from
/// `range` matches the version that `semver::Version::parse` reads from
/// `version`; `None` where either text is refused.
pub uninterp spec fn semver_matches(range: Seq<char>, version: Seq<char>) -> Option<bool>;

/// Calls `semver::Version::parse` and renders the version it returns with
/// its `Display` impl. Trusted: the result is the named `semver_version`.
#[verifier::external_body]
fn parse_version_text(text: &str) -> (r: Option<String>)
    ensures
        option_view(r) == semver_version(text@),
{
    match semver::Version::parse(text) {
        Ok(version) => Some(version.to_string()),
        Err(_) => None,
    }
}

/// Calls `semver::VersionReq::parse` on `range`, `semver::Version::parse` on
/// `version` and, where both succeed, `semver::VersionReq::matches`.
/// Trusted: the result is the named `semver_matches`.
#[verifier::external_body]
fn range_matches(range: &str, version: &str) -> (r: Option<bool>)
    ensures
        r == semver_matches(range@, version@),
{
    match (semver::VersionReq::parse(range), semver::Version::parse(version)) {
        (Ok(requirement), Ok(version)) => Some(requirement.matches(&version)),
        _ => None,
    }
}

/// A version's text without the letter `v` in front of it.
pub open spec fn normalized_version(version: Seq<char>) -> Seq<char> {
    text::trim_start_pat(version, "v"@)
}

/// A version's text without the letter `v` in front of it.
pub fn normalize_version_str(version: &str) -> (r: String)
    ensures
        r@ == normalized_version(version@),
{
    let all = chars::chars_of(version);
    let v = chars::chars_of("v");
    chars::string_of(&chars::trim_start_pat(&all, &v))
}

/// `s` from its first digit on; empty where it holds none.
pub open spec fn from_first_digit(s: Seq<char>) -> Seq<char>
    decreases s.len(),
{
    if s.len() > 0 && !text::is_digit(s[0]) {
        from_first_digit(s.skip(1))
    } else {
        s
    }
}

/// The digits that `s` begins with.
pub open spec fn leading_digits(s: Seq<char>) -> Seq<char>
    decreases s.len(),
{
    if s.len() > 0 && text::is_digit(s[0]) {
        seq![s[0]] + leading_digits(s.skip(1))
    } else {
        seq![]
    }
}

/// The number that a run of digits writes in base ten.
pub open spec fn decimal_value(digits: Seq<char>) -> nat
    decreases digits.len(),
{
    if digits.len() == 0 {
        0
    } else {
        decimal_value(digits.drop_last()) * 10 + ((digits.last() as u32) - ('0' as u32)) as nat
    }
}

/// The first run of digits in a version's text.
pub open spec fn major_digits(version: Seq<char>) -> Seq<char> {
    leading_digits(from_first_digit(normalized_version(version)))
}

/// The number written by the first run of digits in a version's text, where
/// there is one and it fits in 64 bits.
pub open spec fn major_of(version: Seq<char>) -> Option<u64> {
    let digits = major_digits(version);
    if digits.len() == 0 || decimal_value(digits) > u64::MAX {
        None
    } else {
        Some(decimal_value(digits) as u64)
    }
}

/// A run of digits writes at least what any of its beginnings writes.
pub proof fn lemma_decimal_value_grows(digits: Seq<char>, k: int)
    requires
        0 <= k <= digits.len(),
        forall|i: int| 0 <= i < digits.len() ==> text::is_digit(digits[i]),
    ensures
        decimal_value(digits.take(k)) <= decimal_value(digits),
    decreases digits.len() - k,
{
    if k < digits.len() {
        lemma_decimal_value_grows(digits, k + 1);
        assert(digits.take(k + 1).drop_last() == digits.take(k));
    } else {
        assert(digits.take(k) == digits);
    }
}

/// The digits that `s` begins with are digits, and stand at its head.
pub proof fn lemma_leading_digits(s: Seq<char>)
    ensures
        leading_digits(s).len() <= s.len(),
        leading_digits(s) == s.take(leading_digits(s).len() as int),
        forall|i: int| 0 <= i < leading_digits(s).len() ==> text::is_digit(leading_digits(s)[i]),
        leading_digits(s).len() < s.len() ==> !text::is_digit(s[leading_digits(s).len() as int]),
    decreases s.len(),
{
    if s.len() > 0 && text::is_digit(s[0]) {
        lemma_leading_digits(s.skip(1));
        let rest = leading_digits(s.skip(1));
        assert(leading_digits(s) =~= s.take(rest.len() as int + 1));
    } else {
        assert(leading_digits(s) =~= s.take(0));
    }
}

/// The position of the first digit of `s`, or its length.
fn first_digit_position(s: &Vec<char>) -> (i: usize)
    ensures
        i <= s.len(),
        from_first_digit(s@) == s@.skip(i as int),
        i < s.len() ==> text::is_digit(s@[i as int]),
        forall|j: int| 0 <= j < i ==> !text::is_digit(s@[j]),
{
    let mut i: usize = 0;
    assert(s@.skip(0) == s@);
    while i < s.len() && !chars::is_digit(s[i])
        invariant
            i <= s.len(),
            from_first_digit(s@) == from_first_digit(s@.skip(i as int)),
            forall|j: int| 0 <= j < i ==> !text::is_digit(s@[j]),
        decreases s.len() - i,
    {
        assert(s@.skip(i as int).skip(1) == s@.skip(i + 1));
        i += 1;
    }
    i
}

/// The end of the run of digits that starts at `from`.
fn digits_end(s: &Vec<char>, from: usize) -> (j: usize)
    requires
        from <= s.len(),
    ensures
        from <= j <= s.len(),
        leading_digits(s@.skip(from as int)) == s@.subrange(from as int, j as int),
{
    let mut j: usize = from;
    proof {
        lemma_leading_digits(s@.skip(from as int));
    }
    while j < s.len() && chars::is_digit(s[j])
        invariant
            from <= j <= s.len(),
            j - from <= leading_digits(s@.skip(from as int)).len(),
            leading_digits(s@.skip(from as int)) == s@.skip(from as int).take(
                leading_digits(s@.skip(from as int)).len() as int,
            ),
            leading_digits(s@.skip(from as int)).len() <= s@.len() - from,
            leading_digits(s@.skip(from as int)).len() < s@.len() - from ==> !text::is_digit(
                s@.skip(from as int)[leading_digits(s@.skip(from as int)).len() as int],
            ),
            forall|i: int| from <= i < j ==> text::is_digit(s@[i]),
        decreases s.len() - j,
    {
        proof {
            let run = leading_digits(s@.skip(from as int));
            if j - from == run.len() {
                assert(s@.skip(from as int)[run.len() as int] == s@[j as int]);
            }
        }
        j += 1;
    }
    proof {
        let tail = s@.skip(from as int);
        let run = leading_digits(tail);
        if j - from < run.len() {
            assert(run[j - from] == tail[j - from]);
            assert(tail[j - from] == s@[j as int]);
        }
        assert(run =~= s@.subrange(from as int, j as int));
    }
    j
}

/// The number written by the first run of digits of `s`.
fn number_at_first_digit(s: &Vec<char>) -> (r: Option<u64>)
    ensures
        r == ({
            let digits = leading_digits(from_first_digit(s@));
            if digits.len() == 0 || decimal_value(digits) > u64::MAX {
                None
            } else {
                Some(decimal_value(digits) as u64)
            }
        }),
{
    let start = first_digit_position(s);
    let end = digits_end(s, start);
    let ghost digits = s@.subrange(start as int, end as int);
    proof {
        lemma_leading_digits(s@.skip(start as int));
    }
    if start == end {
        return None;
    }
    let mut value: u64 = 0;
    let mut k: usize = start;
    assert(digits.take(0) =~= Seq::<char>::empty());
    while k < end
        invariant
            start <= k <= end <= s.len(),
            digits == s@.subrange(start as int, end as int),
            forall|i: int| 0 <= i < digits.len() ==> text::is_digit(digits[i]),
            value == decimal_value(digits.take(k - start)),
            digits == leading_digits(from_first_digit(s@)),
            digits.len() > 0,
        decreases end - k,
    {
        let c = s[k];
        assert(digits[k - start] == c);
        assert(text::is_digit(c));
        let d: u64 = ((c as u32) - ('0' as u32)) as u64;
        proof {
            assert(digits.take(k - start + 1).drop_last() == digits.take(k - start));
            assert(digits.take(k - start + 1).last() == c);
            lemma_decimal_value_grows(digits, k - start + 1);
        }
        if value > (u64::MAX - d) / 10 {
            return None;
        }
        value = value * 10 + d;
        k += 1;
    }
    assert(digits.take(end - start) == digits);
    Some(value)
}

/// The number written by the first run of digits in a version's text.
pub fn extract_major(version: &str) -> (r: Option<u64>)
    ensures
        r == major_of(version@),
{
    let all = chars::chars_of(version);
    let v = chars::chars_of("v");
    let s = chars::trim_start_pat(&all, &v);
    number_at_first_digit(&s)
}

/// The number written by the first run of digits of a text, where there
/// is one and it fits in 64 bits.
pub fn first_number(text: &str) -> (r: Option<u64>)
    ensures
        r == ({
            let digits = leading_digits(from_first_digit(text@));
            if digits.len() == 0 || decimal_value(digits) > u64::MAX {
                None
            } else {
                Some(decimal_value(digits) as u64)
            }
        }),
{
    let s = chars::chars_of(text);
    number_at_first_digit(&s)
}

/// A character that may stand in the version part of a specification.
pub open spec fn is_version_char(c: char) -> bool {
    text::is_digit(c) || c == '.' || c == '-' || c == '+'
}

/// The version characters that `s` begins with.
pub open spec fn leading_version_chars(s: Seq<char>) -> Seq<char>
    decreases s.len(),
{
    if s.len() > 0 && is_version_char(s[0]) {
        seq![s[0]] + leading_version_chars(s.skip(1))
    } else {
        seq![]
    }
}

/// The part of a specification that may be a version: from its first digit,
/// as far as digits, dots, hyphens and plus signs go. `None` without a digit.
pub open spec fn version_candidate(spec: Seq<char>) -> Option<Seq<char>> {
    let tail = from_first_digit(spec);
    if tail.len() == 0 {
        None
    } else {
        Some(leading_version_chars(tail))
    }
}

/// The part of a specification that may be a version.
pub fn version_candidate_of(spec: &str) -> (r: Option<String>)
    ensures
        option_view(r) == version_candidate(spec@),
{
    let s = chars::chars_of(spec);
    let start = first_digit_position(&s);
    if start == s.len() {
        return None;
    }
    let mut j: usize = start;
    let ghost tail = s@.skip(start as int);
    assert(tail.skip(0) == tail);
    assert(s@.subrange(start as int, start as int) =~= Seq::<char>::empty());
    loop
        invariant
            start <= j <= s.len(),
            tail == s@.skip(start as int),
            leading_version_chars(tail) == s@.subrange(start as int, j as int)
                + leading_version_chars(tail.skip(j - start)),
        ensures
            start <= j <= s.len(),
            leading_version_chars(tail) == s@.subrange(start as int, j as int),
        decreases s.len() - j,
    {
        if j >= s.len() {
            break ;
        }
        let c = s[j];
        let go = chars::is_digit(c) || c == '.' || c == '-' || c == '+';
        if !go {
            assert(tail.skip(j - start)[0] == c);
            break ;
        }
        proof {
            let here = tail.skip(j - start);
            assert(here[0] == c);
            assert(here.skip(1) == tail.skip(j + 1 - start));
            assert(s@.subrange(start as int, j + 1) == s@.subrange(start as int, j as int) + seq![
                c,
            ]);
        }
        j += 1;
    }
    Some(chars::string_of(&chars::slice(&s, start, j)))
}

/// The canonical text of the version that a specification holds: that of
/// its candidate part, where that part is a version.
pub open spec fn version_in_spec(spec: Seq<char>) -> Option<Seq<char>> {
    match version_candidate(spec) {
        Some(candidate) => semver_version(candidate),
        None => None,
    }
}

/// The canonical text of the version that a specification holds.
pub fn extract_version_from_spec(spec: &str) -> (r: Option<String>)
    ensures
        option_view(r) == version_in_spec(spec@),
{
    match version_candidate_of(spec) {
        Some(candidate) => parse_version_text(candidate.as_str()),
        None => None,
    }
}

/// The canonical text of the version that `version` writes, a leading `v`
/// set aside.
pub open spec fn parsed_version(version: Seq<char>) -> Option<Seq<char>> {
    semver_version(normalized_version(version))
}

/// The canonical text of the version that `version` writes.
pub fn parse_version(version: &str) -> (r: Option<String>)
    ensures
        option_view(r) == parsed_version(version@),
{
    let normalized = normalize_version_str(version);
    parse_version_text(normalized.as_str())
}

/// Whether `range` is a version range that the version `version` meets.
pub open spec fn range_accepts(range: Seq<char>, version: Seq<char>) -> bool {
    semver_matches(range, version) == Some(true)
}

/// Whether `range` is a version range that the version `version` meets.
pub fn range_accepts_version(range: &str, version: &str) -> (r: bool)
    ensures
        r == range_accepts(range@, version@),
{
    match range_matches(range, version) {
        Some(true) => true,
        _ => false,
    }
}

} // verus!
