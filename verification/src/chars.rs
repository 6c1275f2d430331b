//! Executable text operations on vectors of characters, each proved against
//! its meaning in `text`.

use vstd::prelude::*;
use crate::text;

verus! {

/// Specification of `String::push`: the character is appended to the view.
pub assume_specification[ String::push ](s: &mut String, c: char)
    ensures
        final(s)@ == old(s)@.push(c),
;

/// Calls `str::to_lowercase`. Trusted: the result is the named
/// `text::lowercase` of the argument.
#[verifier::external_body]
pub(crate) fn to_lowercase(s: &str) -> (r: String)
    ensures
        r@ == text::lowercase(s@),
{
    s.to_lowercase()
}

/// The views of the items of `v`, in order.
pub open spec fn views<T: View>(v: Seq<T>) -> Seq<T::V> {
    Seq::new(v.len(), |i: int| v[i]@)
}

/// The characters of `s`, in order.
pub fn chars_of(s: &str) -> (v: Vec<char>)
    ensures
        v@ == s@,
{
    let mut v: Vec<char> = Vec::new();
    for c in it: s.chars()
        invariant
            it.seq() == s@,
            v@ == s@.take(it.index() as int),
    {
        v.push(c);
    }
    v
}

/// The string whose characters are `v`.
pub fn string_of(v: &Vec<char>) -> (s: String)
    ensures
        s@ == v@,
{
    let mut s = String::new();
    let mut i: usize = 0;
    while i < v.len()
        invariant
            i <= v.len(),
            s@ == v@.take(i as int),
        decreases v.len() - i,
    {
        s.push(v[i]);
        i += 1;
    }
    s
}

/// The characters of `v` from `from` up to `to`.
pub fn slice(v: &Vec<char>, from: usize, to: usize) -> (r: Vec<char>)
    requires
        from <= to <= v.len(),
    ensures
        r@ == v@.subrange(from as int, to as int),
{
    let mut r: Vec<char> = Vec::new();
    let mut i: usize = from;
    while i < to
        invariant
            from <= i <= to <= v.len(),
            r@ == v@.subrange(from as int, i as int),
        decreases to - i,
    {
        r.push(v[i]);
        i += 1;
    }
    r
}

/// `a` followed by `b`.
pub fn concat(a: &Vec<char>, b: &Vec<char>) -> (r: Vec<char>)
    ensures
        r@ == a@ + b@,
{
    let mut r: Vec<char> = a.clone();
    let mut i: usize = 0;
    while i < b.len()
        invariant
            i <= b.len(),
            r@ == a@ + b@.take(i as int),
        decreases b.len() - i,
    {
        r.push(b[i]);
        i += 1;
    }
    r
}

/// Appends `b` to `a`.
pub fn append(a: &mut Vec<char>, b: &Vec<char>)
    ensures
        final(a)@ == old(a)@ + b@,
{
    let mut i: usize = 0;
    while i < b.len()
        invariant
            i <= b.len(),
            a@ == old(a)@ + b@.take(i as int),
        decreases b.len() - i,
    {
        a.push(b[i]);
        i += 1;
    }
}

/// Whether `a` and `b` hold the same characters.
pub fn equal(a: &Vec<char>, b: &Vec<char>) -> (r: bool)
    ensures
        r == (a@ == b@),
{
    if a.len() != b.len() {
        return false;
    }
    let mut i: usize = 0;
    while i < a.len()
        invariant
            i <= a.len(),
            a.len() == b.len(),
            a@.take(i as int) == b@.take(i as int),
        decreases a.len() - i,
    {
        if a[i] != b[i] {
            return false;
        }
        assert(a@.take(i + 1) == a@.take(i as int).push(a@[i as int]));
        assert(b@.take(i + 1) == b@.take(i as int).push(b@[i as int]));
        i += 1;
    }
    assert(a@.take(a.len() as int) == a@);
    assert(b@.take(b.len() as int) == b@);
    true
}

/// Whether `p` occurs in `s` at position `i`.
pub fn occurs_at(s: &Vec<char>, p: &Vec<char>, i: usize) -> (r: bool)
    ensures
        r == text::matches_at(s@, p@, i as int),
{
    if i > s.len() || p.len() > s.len() - i {
        return false;
    }
    let mut k: usize = 0;
    while k < p.len()
        invariant
            k <= p.len(),
            i + p.len() <= s.len(),
            forall|j: int| 0 <= j < k ==> s@[i + j] == p@[j],
        decreases p.len() - k,
    {
        if s[i + k] != p[k] {
            assert(s@.subrange(i as int, i + p.len())[k as int] != p@[k as int]);
            return false;
        }
        k += 1;
    }
    assert(s@.subrange(i as int, i + p.len()) =~= p@);
    true
}

/// Whether `s` begins with `p`.
pub fn starts_with(s: &Vec<char>, p: &Vec<char>) -> (r: bool)
    ensures
        r == text::starts_with(s@, p@),
{
    occurs_at(s, p, 0)
}

/// Whether `s` ends with `p`.
pub fn ends_with(s: &Vec<char>, p: &Vec<char>) -> (r: bool)
    ensures
        r == text::ends_with(s@, p@),
{
    if p.len() > s.len() {
        return false;
    }
    occurs_at(s, p, s.len() - p.len())
}

/// `s` without one leading `p`, if it begins with `p`.
pub fn strip_prefix(s: &Vec<char>, p: &Vec<char>) -> (r: Option<Vec<char>>)
    ensures
        r is Some == text::strip_prefix(s@, p@) is Some,
        r matches Some(v) ==> text::strip_prefix(s@, p@) == Some(v@),
{
    if occurs_at(s, p, 0) {
        Some(slice(s, p.len(), s.len()))
    } else {
        None
    }
}

/// `s` without one trailing `p`, if it ends with `p`.
pub fn strip_suffix(s: &Vec<char>, p: &Vec<char>) -> (r: Option<Vec<char>>)
    ensures
        r is Some == text::strip_suffix(s@, p@) is Some,
        r matches Some(v) ==> text::strip_suffix(s@, p@) == Some(v@),
{
    if ends_with(s, p) {
        Some(slice(s, 0, s.len() - p.len()))
    } else {
        None
    }
}

/// `s` with every leading repetition of `p` removed.
pub fn trim_start_pat(s: &Vec<char>, p: &Vec<char>) -> (r: Vec<char>)
    ensures
        r@ == text::trim_start_pat(s@, p@),
{
    let mut i: usize = 0;
    assert(s@.skip(0) == s@);
    if p.len() > 0 {
        while occurs_at(s, p, i)
            invariant
                p.len() > 0,
                i <= s.len(),
                text::trim_start_pat(s@, p@) == text::trim_start_pat(s@.skip(i as int), p@),
            decreases s.len() - i,
        {
            proof {
                let rest = s@.skip(i as int);
                assert(rest.subrange(0, p@.len() as int) == s@.subrange(i as int, i + p@.len()));
                assert(rest.skip(p@.len() as int) == s@.skip(i + p@.len()));
            }
            i += p.len();
        }
        proof {
            let rest = s@.skip(i as int);
            if i + p@.len() <= s@.len() {
                assert(rest.subrange(0, p@.len() as int) == s@.subrange(i as int, i + p@.len()));
            }
        }
    }
    slice(s, i, s.len())
}

/// `s` with every trailing `c` removed.
pub fn trim_end_char(s: &Vec<char>, c: char) -> (r: Vec<char>)
    ensures
        r@ == text::trim_end_char(s@, c),
{
    let mut n: usize = s.len();
    assert(s@.take(n as int) == s@);
    while n > 0 && s[n - 1] == c
        invariant
            n <= s.len(),
            text::trim_end_char(s@, c) == text::trim_end_char(s@.take(n as int), c),
        decreases n,
    {
        assert(s@.take(n as int).drop_last() == s@.take(n - 1));
        n -= 1;
    }
    slice(s, 0, n)
}

/// Whether `c` is white space.
pub fn is_whitespace(c: char) -> (r: bool)
    ensures
        r == text::is_whitespace(c),
{
    let n: u32 = c as u32;
    (0x09 <= n && n <= 0x0D) || n == 0x20 || n == 0x85 || n == 0xA0 || n == 0x1680 || (0x2000 <= n
        && n <= 0x200A) || n == 0x2028 || n == 0x2029 || n == 0x202F || n == 0x205F || n == 0x3000
}

/// `s` without leading and trailing white space.
pub fn trim(s: &Vec<char>) -> (r: Vec<char>)
    ensures
        r@ == text::trim(s@),
{
    let mut i: usize = 0;
    assert(s@.skip(0) == s@);
    while i < s.len() && is_whitespace(s[i])
        invariant
            i <= s.len(),
            text::trim_start(s@) == text::trim_start(s@.skip(i as int)),
        decreases s.len() - i,
    {
        assert(s@.skip(i as int).skip(1) == s@.skip(i + 1));
        i += 1;
    }
    let ghost front = s@.skip(i as int);
    assert(text::trim_start(s@) == front);
    let mut n: usize = s.len();
    assert(front.take(n - i) == front);
    while n > i && is_whitespace(s[n - 1])
        invariant
            i <= n <= s.len(),
            front == s@.skip(i as int),
            text::trim_end(front) == text::trim_end(front.take(n - i)),
        decreases n,
    {
        assert(front.take(n - i).drop_last() == front.take(n - i - 1));
        assert(front.take(n - i).last() == s@[n - 1]);
        n -= 1;
    }
    proof {
        if n > i {
            assert(front.take(n - i).last() == s@[n - 1]);
        }
        assert(front.take(n - i) == s@.subrange(i as int, n as int));
    }
    slice(s, i, n)
}

/// The first position at or after `from` where `p` occurs in `s`.
pub fn find_from(s: &Vec<char>, p: &Vec<char>, from: usize) -> (r: Option<usize>)
    ensures
        r is Some == text::find_from(s@, p@, from as int) is Some,
        r matches Some(i) ==> text::find_from(s@, p@, from as int) == Some(i as int) && from <= i
            && i + p.len() <= s.len() && text::matches_at(s@, p@, i as int),
{
    let mut i: usize = from;
    while i <= s.len() && p.len() <= s.len() - i
        invariant
            from <= i,
            text::find_from(s@, p@, from as int) == text::find_from(s@, p@, i as int),
        decreases s.len() + 1 - i,
    {
        if occurs_at(s, p, i) {
            return Some(i);
        }
        if i == s.len() {
            return None;
        }
        i += 1;
    }
    None
}

/// The first position where `p` occurs in `s`.
pub fn find(s: &Vec<char>, p: &Vec<char>) -> (r: Option<usize>)
    ensures
        r is Some == text::find(s@, p@) is Some,
        r matches Some(i) ==> text::find(s@, p@) == Some(i as int) && i + p.len() <= s.len()
            && text::matches_at(s@, p@, i as int),
{
    find_from(s, p, 0)
}

/// Whether `p` occurs somewhere in `s`.
pub fn contains(s: &Vec<char>, p: &Vec<char>) -> (r: bool)
    ensures
        r == text::contains(s@, p@),
{
    find_from(s, p, 0).is_some()
}

/// The first position at or after `from` that holds `c`.
pub fn find_char_from(s: &Vec<char>, c: char, from: usize) -> (r: Option<usize>)
    ensures
        r is Some == text::find_char_from(s@, c, from as int) is Some,
        r matches Some(i) ==> text::find_char_from(s@, c, from as int) == Some(i as int) && from
            <= i < s.len() && s@[i as int] == c,
{
    let mut i: usize = from;
    while i < s.len()
        invariant
            from <= i,
            text::find_char_from(s@, c, from as int) == text::find_char_from(s@, c, i as int),
        decreases s.len() - i,
    {
        if s[i] == c {
            return Some(i);
        }
        i += 1;
    }
    None
}

/// The first position that holds `c`.
pub fn find_char(s: &Vec<char>, c: char) -> (r: Option<usize>)
    ensures
        r is Some == text::find_char(s@, c) is Some,
        r matches Some(i) ==> text::find_char(s@, c) == Some(i as int) && i < s.len() && s@[i as int]
            == c,
{
    find_char_from(s, c, 0)
}

/// `s` with every `from` replaced by `to`.
pub fn replace_char(s: &Vec<char>, from: char, to: char) -> (r: Vec<char>)
    ensures
        r@ == text::replace_char(s@, from, to),
{
    let mut r: Vec<char> = Vec::new();
    let mut i: usize = 0;
    while i < s.len()
        invariant
            i <= s.len(),
            r@ == text::replace_char(s@, from, to).take(i as int),
        decreases s.len() - i,
    {
        let c = s[i];
        r.push(if c == from { to } else { c });
        assert(r@ == text::replace_char(s@, from, to).take(i + 1));
        i += 1;
    }
    assert(text::replace_char(s@, from, to).take(s.len() as int) == text::replace_char(
        s@,
        from,
        to,
    ));
    r
}

/// The lower-case form of an ASCII upper-case letter; other characters stay.
pub fn ascii_lower_char(c: char) -> (r: char)
    ensures
        r == text::ascii_lower_char(c),
{
    if 'A' <= c && c <= 'Z' {
        ((c as u8) + 32) as char
    } else {
        c
    }
}

/// `s` with its ASCII upper-case letters in lower case.
pub fn ascii_lower(s: &Vec<char>) -> (r: Vec<char>)
    ensures
        r@ == text::ascii_lower(s@),
{
    let mut r: Vec<char> = Vec::new();
    let mut i: usize = 0;
    while i < s.len()
        invariant
            i <= s.len(),
            r@ == text::ascii_lower(s@).take(i as int),
        decreases s.len() - i,
    {
        r.push(ascii_lower_char(s[i]));
        assert(r@ == text::ascii_lower(s@).take(i + 1));
        i += 1;
    }
    assert(text::ascii_lower(s@).take(s.len() as int) == text::ascii_lower(s@));
    r
}

/// Whether `c` is an ASCII digit.
pub fn is_digit(c: char) -> (r: bool)
    ensures
        r == text::is_digit(c),
{
    '0' <= c && c <= '9'
}

/// Whether `a` comes strictly before `b`.
pub fn lex_lt(a: &Vec<char>, b: &Vec<char>) -> (r: bool)
    ensures
        r == text::lex_lt(a@, b@),
{
    let mut i: usize = 0;
    assert(a@.skip(0) == a@ && b@.skip(0) == b@);
    while i < a.len() && i < b.len()
        invariant
            i <= a.len(),
            i <= b.len(),
            text::lex_lt(a@, b@) == text::lex_lt(a@.skip(i as int), b@.skip(i as int)),
        decreases a.len() - i,
    {
        if a[i] != b[i] {
            return a[i] < b[i];
        }
        assert(a@.skip(i as int).skip(1) == a@.skip(i + 1));
        assert(b@.skip(i as int).skip(1) == b@.skip(i + 1));
        i += 1;
    }
    i < b.len()
}

/// The pieces of `s` between occurrences of `c`.
pub fn split_char(s: &Vec<char>, c: char) -> (r: Vec<Vec<char>>)
    ensures
        views(r@) == text::split_char(s@, c),
{
    let mut r: Vec<Vec<char>> = Vec::new();
    let mut start: usize = 0;
    assert(s@.skip(0) == s@);
    loop
        invariant
            start <= s.len(),
            text::split_char(s@, c) == views(r@) + text::split_char(s@.skip(start as int), c),
        decreases s.len() - start,
    {
        let ghost rest = s@.skip(start as int);
        proof {
            text::lemma_find_char_skip(s@, c, start as int);
        }
        match find_char_from(s, c, start) {
            Some(i) => {
                let piece = slice(s, start, i);
                proof {
                    assert(rest.take(i - start) == piece@);
                    assert(rest.skip(i - start + 1) == s@.skip(i + 1));
                    assert(views(r@).push(piece@) == views(r@) + seq![piece@]);
                }
                let ghost before = views(r@);
                r.push(piece);
                assert(views(r@) == before.push(piece@));
                start = i + 1;
            },
            None => {
                let piece = slice(s, start, s.len());
                let ghost before = views(r@);
                assert(rest == piece@);
                r.push(piece);
                assert(views(r@) == before.push(piece@));
                assert(before.push(piece@) == before + seq![piece@]);
                return r;
            },
        }
    }
}

/// The lines of `s`, each without its line ending.
pub fn lines(s: &Vec<char>) -> (r: Vec<Vec<char>>)
    ensures
        views(r@) == text::lines(s@),
{
    let mut r: Vec<Vec<char>> = Vec::new();
    let mut start: usize = 0;
    assert(s@.skip(0) == s@);
    while start < s.len()
        invariant
            start <= s.len(),
            text::lines(s@) == views(r@) + text::lines(s@.skip(start as int)),
        decreases s.len() - start,
    {
        let ghost rest = s@.skip(start as int);
        proof {
            text::lemma_find_char_skip(s@, '\n', start as int);
        }
        let end: usize = match find_char_from(s, '\n', start) {
            Some(i) => i,
            None => s.len(),
        };
        let stop: usize = if end < s.len() && end > start && s[end - 1] == '\r' {
            end - 1
        } else {
            end
        };
        let piece = slice(s, start, stop);
        let ghost before = views(r@);
        proof {
            assert(rest.take(end - start) == s@.subrange(start as int, end as int));
            if end < s.len() {
                assert(text::strip_carriage_return(s@.subrange(start as int, end as int))
                    == piece@);
                assert(rest.skip(end - start + 1) == s@.skip(end + 1));
            } else {
                assert(rest.take(end - start) == rest);
                assert(text::lines(s@.skip(s.len() as int)) == Seq::<Seq<char>>::empty());
            }
            assert(before.push(piece@) == before + seq![piece@]);
        }
        r.push(piece);
        assert(views(r@) == before.push(piece@));
        start = if end < s.len() {
            end + 1
        } else {
            end
        };
    }
    r
}

/// `parts` joined with `sep` between neighbours.
pub fn join(parts: &Vec<Vec<char>>, sep: &Vec<char>) -> (r: Vec<char>)
    ensures
        r@ == text::join(views(parts@), sep@),
{
    let mut r: Vec<char> = Vec::new();
    let mut i: usize = 0;
    while i < parts.len()
        invariant
            i <= parts.len(),
            r@ == text::join(views(parts@).take(i as int), sep@),
        decreases parts.len() - i,
    {
        proof {
            let next = views(parts@).take(i + 1);
            assert(next.drop_last() == views(parts@).take(i as int));
            assert(next.last() == parts@[i as int]@);
            assert(views(parts@).take(0).len() == 0);
        }
        if i > 0 {
            append(&mut r, sep);
        }
        append(&mut r, &parts[i]);
        i += 1;
    }
    assert(views(parts@).take(parts.len() as int) == views(parts@));
    r
}

/// Whether `c` is a single or a double quote.
pub fn is_quote(c: char) -> (r: bool)
    ensures
        r == text::is_quote(c),
{
    c == '"' || c == '\''
}

/// `s` without leading and trailing quotes.
pub fn trim_quotes(s: &Vec<char>) -> (r: Vec<char>)
    ensures
        r@ == text::trim_quotes(s@),
{
    let mut i: usize = 0;
    assert(s@.skip(0) == s@);
    while i < s.len() && is_quote(s[i])
        invariant
            i <= s.len(),
            text::trim_start_quotes(s@) == text::trim_start_quotes(s@.skip(i as int)),
        decreases s.len() - i,
    {
        assert(s@.skip(i as int).skip(1) == s@.skip(i + 1));
        i += 1;
    }
    let ghost front = s@.skip(i as int);
    assert(text::trim_start_quotes(s@) == front);
    let mut n: usize = s.len();
    assert(front.take(n - i) == front);
    while n > i && is_quote(s[n - 1])
        invariant
            i <= n <= s.len(),
            front == s@.skip(i as int),
            text::trim_end_quotes(front) == text::trim_end_quotes(front.take(n - i)),
        decreases n,
    {
        assert(front.take(n - i).drop_last() == front.take(n - i - 1));
        assert(front.take(n - i).last() == s@[n - 1]);
        n -= 1;
    }
    proof {
        if n > i {
            assert(front.take(n - i).last() == s@[n - 1]);
        }
        assert(front.take(n - i) == s@.subrange(i as int, n as int));
    }
    slice(s, i, n)
}

/// `s` up to its first `c`.
pub fn before_char(s: &Vec<char>, c: char) -> (r: Vec<char>)
    ensures
        r@ == text::before_char(s@, c),
{
    match find_char(s, c) {
        Some(i) => slice(s, 0, i),
        None => slice(s, 0, s.len()),
    }
}

/// `s` cut in two at its first `c`.
pub fn split_once(s: &Vec<char>, c: char) -> (r: Option<(Vec<char>, Vec<char>)>)
    ensures
        r is Some == text::split_once(s@, c) is Some,
        r matches Some(parts) ==> text::split_once(s@, c) == Some((parts.0@, parts.1@)),
{
    match find_char(s, c) {
        Some(i) => Some((slice(s, 0, i), slice(s, i + 1, s.len()))),
        None => None,
    }
}

/// `s` without its leading white space.
pub fn trim_start(s: &Vec<char>) -> (r: Vec<char>)
    ensures
        r@ == text::trim_start(s@),
{
    let mut i: usize = 0;
    assert(s@.skip(0) == s@);
    while i < s.len() && is_whitespace(s[i])
        invariant
            i <= s.len(),
            text::trim_start(s@) == text::trim_start(s@.skip(i as int)),
        decreases s.len() - i,
    {
        assert(s@.skip(i as int).skip(1) == s@.skip(i + 1));
        i += 1;
    }
    slice(s, i, s.len())
}

/// `n` written in base ten.
pub fn decimal(n: usize) -> (r: Vec<char>)
    ensures
        r@ == text::decimal(n as nat),
    decreases n,
{
    if n < 10 {
        let mut r: Vec<char> = Vec::new();
        r.push(((n as u8) + 48) as char);
        assert(r@ =~= seq![text::digit_char(n as nat)]);
        r
    } else {
        let mut r = decimal(n / 10);
        r.push((((n % 10) as u8) + 48) as char);
        r
    }
}

/// The last position that holds `c`.
pub fn rfind_char(s: &Vec<char>, c: char) -> (r: Option<usize>)
    ensures
        r is Some == text::rfind_char(s@, c) is Some,
        r matches Some(i) ==> text::rfind_char(s@, c) == Some(i as int) && i < s.len() && s@[i as int]
            == c,
{
    let mut end: usize = s.len();
    while end > 0
        invariant
            end <= s.len(),
            text::rfind_char(s@, c) == text::rfind_char_before(s@, c, end as int),
        decreases end,
    {
        if s[end - 1] == c {
            return Some(end - 1);
        }
        end -= 1;
    }
    None
}

} // verus!
