//! Where cached registry data lives and when a cached entry may be used.

use vstd::prelude::*;
use crate::chars;
use crate::paths::{join_path, joined_path, parts_of, path_parts};
use crate::text;
use crate::versions::{decimal_value, lemma_decimal_value_grows};

verus! {

/// The directory of the cache below the user's cache directory.
pub const DEFAULT_CACHE_DIR_NAME: &'static str = "nocta-ui";

/// The age, in seconds, beyond which a cached entry is thrown away.
pub const MAX_CACHE_AGE_SECS: u64 = 2592000;

/// What is appended to an entry's file name for its metadata.
pub const METADATA_SUFFIX: &'static str = ".meta";

/// How long the registry manifest stays fresh, in milliseconds.
pub const DEFAULT_CACHE_TTL_MS: u64 = 600000;

/// How long an asset stays fresh, in milliseconds.
pub const DEFAULT_ASSET_CACHE_TTL_MS: u64 = 86400000;

/// The cache of one run: the directory that holds it.
#[derive(Clone, Debug, PartialEq, Eq)]
pub struct CacheContext {
    pub base_dir: String,
}

/// Where the cache goes: the directory asked for, unless it is blank; else
/// below the user's cache directory; else below the temporary directory.
pub open spec fn cache_base(
    explicit: Option<Seq<char>>,
    user_cache: Option<Seq<char>>,
    temp: Seq<char>,
) -> Seq<char> {
    match explicit {
        Some(dir) => if text::trim(dir).len() > 0 {
            dir
        } else {
            default_cache_base(user_cache, temp)
        },
        None => default_cache_base(user_cache, temp),
    }
}

/// Where the cache goes when no directory is asked for.
pub open spec fn default_cache_base(user_cache: Option<Seq<char>>, temp: Seq<char>) -> Seq<char> {
    match user_cache {
        Some(dir) => joined_path(dir, DEFAULT_CACHE_DIR_NAME@),
        None => joined_path(temp, DEFAULT_CACHE_DIR_NAME@),
    }
}

impl CacheContext {
    /// The cache of a run, given the directory asked for, the user's cache
    /// directory and the temporary directory.
    pub fn new(explicit: Option<&str>, user_cache: Option<&str>, temp: &str) -> (r: Self)
        ensures
            r.base_dir@ == cache_base(
                match explicit {
                    Some(d) => Some(d@),
                    None => None,
                },
                match user_cache {
                    Some(d) => Some(d@),
                    None => None,
                },
                temp@,
            ),
    {
        if let Some(dir) = explicit {
            if chars::trim(&chars::chars_of(dir)).len() > 0 {
                return CacheContext { base_dir: dir.to_owned() };
            }
        }
        let base_dir = match user_cache {
            Some(dir) => join_path(dir, DEFAULT_CACHE_DIR_NAME),
            None => join_path(temp, DEFAULT_CACHE_DIR_NAME),
        };
        CacheContext { base_dir }
    }
}

/// The directory of the cache.
pub fn cache_dir(context: &CacheContext) -> (r: String)
    ensures
        r@ == context.base_dir@,
{
    context.base_dir.clone()
}

/// The parts among the first `n` that may stand in a cache path: all but
/// the double dot.
pub open spec fn plain_parts(parts: Seq<Seq<char>>, n: int) -> Seq<Seq<char>>
    decreases n,
{
    if n <= 0 {
        seq![]
    } else {
        let before = plain_parts(parts, n - 1);
        if parts[n - 1] == ".."@ {
            before
        } else {
            before.push(parts[n - 1])
        }
    }
}

/// The path of an entry inside the cache: the plain parts of the relative
/// path, and `entry` where there are none.
pub open spec fn normalized_rel(rel_path: Seq<char>) -> Seq<char> {
    let parts = path_parts(rel_path);
    let plain = plain_parts(parts, parts.len() as int);
    if plain.len() == 0 {
        "entry"@
    } else {
        text::join(plain, "/"@)
    }
}

/// The path of an entry inside the cache.
pub fn normalized_rel_path(rel_path: &str) -> (r: String)
    ensures
        r@ == normalized_rel(rel_path@),
{
    let parts = parts_of(&chars::chars_of(rel_path));
    let dots = chars::chars_of("..");
    let mut plain: Vec<Vec<char>> = Vec::new();
    let mut n: usize = 0;
    assert(chars::views(plain@) =~= plain_parts(chars::views(parts@), 0));
    while n < parts.len()
        invariant
            n <= parts.len(),
            dots@ == ".."@,
            chars::views(plain@) == plain_parts(chars::views(parts@), n as int),
        decreases parts.len() - n,
    {
        let ghost before = chars::views(plain@);
        if !chars::equal(&parts[n], &dots) {
            plain.push(parts[n].clone());
            assert(chars::views(plain@) =~= before.push(parts@[n as int]@));
        }
        n += 1;
    }
    if plain.len() == 0 {
        return "entry".to_owned();
    }
    chars::string_of(&chars::join(&plain, &chars::chars_of("/")))
}

/// The file of an entry.
pub fn resolve_cache_path(context: &CacheContext, rel_path: &str) -> (r: String)
    ensures
        r@ == joined_path(context.base_dir@, normalized_rel(rel_path@)),
{
    join_path(context.base_dir.as_str(), normalized_rel_path(rel_path).as_str())
}

/// The file that goes with an entry, its name marked by `suffix`.
pub fn resolve_sidecar_path(context: &CacheContext, rel_path: &str, suffix: &str) -> (r: String)
    ensures
        r@ == joined_path(context.base_dir@, normalized_rel(rel_path@) + suffix@),
{
    let mut name = chars::chars_of(normalized_rel_path(rel_path).as_str());
    chars::append(&mut name, &chars::chars_of(suffix));
    join_path(context.base_dir.as_str(), chars::string_of(&name).as_str())
}

/// The file that holds the metadata of an entry.
pub fn metadata_path(context: &CacheContext, rel_path: &str) -> (r: String)
    ensures
        r@ == joined_path(context.base_dir@, normalized_rel(rel_path@) + METADATA_SUFFIX@),
{
    resolve_sidecar_path(context, rel_path, METADATA_SUFFIX)
}

/// The age, in nanoseconds, beyond which a cached entry is thrown away.
pub fn max_cache_age() -> (r: u128)
    ensures
        r == MAX_CACHE_AGE_SECS * 1000000000,
{
    2592000000000000
}

/// What to do with a cached entry.
#[derive(Clone, Copy, Debug, PartialEq, Eq, Structural)]
pub enum CacheRead {
    /// There is no entry.
    Missing,
    /// The entry is too old to keep: remove it and its metadata.
    Purge,
    /// The entry is older than allowed for this read.
    Stale,
    /// Read the entry.
    Use,
}

/// What to do with a cached entry of the given age, `None` where the age
/// is not known. An entry beyond the greatest age is purged; one beyond
/// the time to live is used only where a stale copy is accepted.
pub open spec fn cache_read(
    exists: bool,
    age_nanos: Option<u128>,
    ttl_nanos: Option<u128>,
    accept_stale: bool,
) -> CacheRead {
    if !exists {
        CacheRead::Missing
    } else {
        match age_nanos {
            None => CacheRead::Use,
            Some(age) => if age > MAX_CACHE_AGE_SECS * 1000000000 {
                CacheRead::Purge
            } else if !accept_stale && (ttl_nanos matches Some(ttl) && age > ttl) {
                CacheRead::Stale
            } else {
                CacheRead::Use
            },
        }
    }
}

/// Decides what to do with a cached entry.
pub fn read_cache_text(
    exists: bool,
    age_nanos: Option<u128>,
    ttl_nanos: Option<u128>,
    accept_stale: bool,
) -> (r: CacheRead)
    ensures
        r == cache_read(exists, age_nanos, ttl_nanos, accept_stale),
{
    if !exists {
        return CacheRead::Missing;
    }
    match age_nanos {
        None => CacheRead::Use,
        Some(age) => {
            if age > max_cache_age() {
                return CacheRead::Purge;
            }
            if !accept_stale {
                if let Some(ttl) = ttl_nanos {
                    if age > ttl {
                        return CacheRead::Stale;
                    }
                }
            }
            CacheRead::Use
        },
    }
}

/// Every character of `s` is a digit.
pub open spec fn all_digits(s: Seq<char>) -> bool {
    forall|i: int| 0 <= i < s.len() ==> text::is_digit(#[trigger] s[i])
}

/// The number that a text writes in base ten, in the form that a time to
/// live is configured: digits only, with an optional plus sign in front,
/// and no more than 64 bits hold.
pub open spec fn parsed_number(value: Seq<char>) -> Option<u64> {
    let digits = if value.len() > 0 && value[0] == '+' {
        value.skip(1)
    } else {
        value
    };
    if digits.len() == 0 || !all_digits(digits) || decimal_value(digits) > u64::MAX {
        None
    } else {
        Some(decimal_value(digits) as u64)
    }
}

/// Reads a number written in base ten.
#[verifier::loop_isolation(false)]
pub fn parse_number(value: &str) -> (r: Option<u64>)
    ensures
        r == parsed_number(value@),
{
    let all = chars::chars_of(value);
    let start: usize = if all.len() > 0 && all[0] == '+' {
        1
    } else {
        0
    };
    let ghost digits = all@.skip(start as int);
    assert(all@.skip(0) =~= all@);
    if all.len() == start {
        return None;
    }
    let mut number: u64 = 0;
    let mut k: usize = start;
    assert(digits.take(0) =~= Seq::<char>::empty());
    while k < all.len()
        invariant
            start <= k <= all.len(),
            digits == all@.skip(start as int),
            forall|i: int| 0 <= i < k - start ==> text::is_digit(digits[i]),
            number == decimal_value(digits.take(k - start)),
        decreases all.len() - k,
    {
        let c = all[k];
        assert(digits[k - start] == c);
        if !chars::is_digit(c) {
            assert(!text::is_digit(digits[k - start]));
            assert(!all_digits(digits));
            return None;
        }
        let d: u64 = ((c as u32) - ('0' as u32)) as u64;
        proof {
            assert(digits.take(k - start + 1).drop_last() == digits.take(k - start));
            assert(digits.take(k - start + 1).last() == c);
        }
        if number > (u64::MAX - d) / 10 {
            proof {
                assert(decimal_value(digits.take(k - start + 1)) == number * 10 + d);
                if all_digits(digits) {
                    lemma_decimal_value_grows(digits, k - start + 1);
                }
            }
            return None;
        }
        number = number * 10 + d;
        k += 1;
    }
    assert(digits.take(all.len() - start) == digits);
    assert(all_digits(digits));
    Some(number)
}

/// The time to live, in milliseconds: the configured number where it is
/// one, else the default.
pub fn cache_ttl_millis(configured: Option<&str>, default_millis: u64) -> (r: u64)
    ensures
        r == match configured {
            Some(value) => match parsed_number(value@) {
                Some(number) => number,
                None => default_millis,
            },
            None => default_millis,
        },
{
    match configured {
        Some(value) => match parse_number(value) {
            Some(number) => number,
            None => default_millis,
        },
        None => default_millis,
    }
}

} // verus!
