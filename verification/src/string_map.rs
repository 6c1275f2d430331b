//! An insertion-ordered map from names to values, kept as a list of pairs
//! in which no name occurs twice.

use vstd::prelude::*;
use crate::chars;
use crate::ordered::{
    lemma_lex_asymmetric,
    lemma_lex_total,
    lemma_lex_transitive,
    lemma_strictly_sorted_unique,
    strictly_sorted,
};
use crate::text::lex_lt;

verus! {

/// The first position at or after `from` whose name is `key`.
pub open spec fn position_from(keys: Seq<Seq<char>>, key: Seq<char>, from: int) -> Option<int>
    decreases keys.len() - from,
{
    if from < 0 || from >= keys.len() {
        None
    } else if keys[from] == key {
        Some(from)
    } else {
        position_from(keys, key, from + 1)
    }
}

/// The first position whose name is `key`.
pub open spec fn position(keys: Seq<Seq<char>>, key: Seq<char>) -> Option<int> {
    position_from(keys, key, 0)
}

/// No name occurs twice in `keys`.
pub open spec fn distinct(keys: Seq<Seq<char>>) -> bool {
    forall|i: int, j: int| 0 <= i < j < keys.len() ==> keys[i] != keys[j]
}

/// The names of a list of pairs, in order.
pub open spec fn names(entries: Seq<(Seq<char>, Seq<char>)>) -> Seq<Seq<char>> {
    Seq::new(entries.len(), |i: int| entries[i].0)
}

/// The value that the list of pairs holds for `key`.
pub open spec fn lookup(entries: Seq<(Seq<char>, Seq<char>)>, key: Seq<char>) -> Option<
    Seq<char>,
> {
    match position(names(entries), key) {
        Some(i) => Some(entries[i].1),
        None => None,
    }
}

/// What a search from `from` finds: the first match, and none before it.
pub proof fn lemma_position_from(keys: Seq<Seq<char>>, key: Seq<char>, from: int)
    requires
        0 <= from,
    ensures
        position_from(keys, key, from) matches Some(i) ==> from <= i < keys.len() && keys[i] == key
            && forall|j: int| from <= j < i ==> keys[j] != key,
        position_from(keys, key, from) is None ==> forall|j: int|
            from <= j < keys.len() ==> keys[j] != key,
    decreases keys.len() - from,
{
    if from < keys.len() && keys[from] != key {
        lemma_position_from(keys, key, from + 1);
    }
}

/// What a search finds: the first match, and none before it.
pub proof fn lemma_position(keys: Seq<Seq<char>>, key: Seq<char>)
    ensures
        position(keys, key) matches Some(i) ==> 0 <= i < keys.len() && keys[i] == key && forall|
            j: int,
        |
            0 <= j < i ==> keys[j] != key,
        position(keys, key) is None ==> forall|j: int| 0 <= j < keys.len() ==> keys[j] != key,
{
    lemma_position_from(keys, key, 0);
}

/// A name that stands at `i`, with no earlier occurrence, is found at `i`.
pub proof fn lemma_position_is(keys: Seq<Seq<char>>, key: Seq<char>, i: int)
    requires
        0 <= i < keys.len(),
        keys[i] == key,
        forall|j: int| 0 <= j < i ==> keys[j] != key,
    ensures
        position(keys, key) == Some(i),
{
    lemma_position_from(keys, key, 0);
}

/// The position of `key` among `keys`.
pub fn position_of(keys: &Vec<String>, key: &str) -> (r: Option<usize>)
    ensures
        r is Some == position(chars::views(keys@), key@) is Some,
        r matches Some(i) ==> position(chars::views(keys@), key@) == Some(i as int) && i
            < keys.len() && keys@[i as int]@ == key@,
{
    let wanted = chars::chars_of(key);
    let mut i: usize = 0;
    while i < keys.len()
        invariant
            i <= keys.len(),
            wanted@ == key@,
            position(chars::views(keys@), key@) == position_from(
                chars::views(keys@),
                key@,
                i as int,
            ),
        decreases keys.len() - i,
    {
        let here = chars::chars_of(keys[i].as_str());
        if chars::equal(&here, &wanted) {
            return Some(i);
        }
        i += 1;
    }
    None
}

/// Whether `a` and `b` are the same text.
pub fn same_text(a: &str, b: &str) -> (r: bool)
    ensures
        r == (a@ == b@),
{
    let x = chars::chars_of(a);
    let y = chars::chars_of(b);
    chars::equal(&x, &y)
}

/// A map from names to values that remembers the order of insertion.
#[derive(Clone, Debug, PartialEq, Eq, Default)]
pub struct StringMap {
    pub entries: Vec<(String, String)>,
}

impl View for StringMap {
    type V = Seq<(Seq<char>, Seq<char>)>;

    open spec fn view(&self) -> Seq<(Seq<char>, Seq<char>)> {
        Seq::new(self.entries@.len(), |i: int| (self.entries@[i].0@, self.entries@[i].1@))
    }
}

impl StringMap {
    /// No name occurs twice.
    pub open spec fn wf(&self) -> bool {
        distinct(names(self@))
    }

    /// The empty map.
    pub fn new() -> (r: Self)
        ensures
            r@ == Seq::<(Seq<char>, Seq<char>)>::empty(),
            r.wf(),
    {
        let r = StringMap { entries: Vec::new() };
        assert(r@ =~= Seq::<(Seq<char>, Seq<char>)>::empty());
        r
    }

    /// The number of names.
    pub fn len(&self) -> (r: usize)
        ensures
            r == self@.len(),
    {
        self.entries.len()
    }

    /// Whether the map holds no name.
    pub fn is_empty(&self) -> (r: bool)
        ensures
            r == (self@.len() == 0),
    {
        self.entries.len() == 0
    }

    /// The position of `key`.
    pub fn index_of(&self, key: &str) -> (r: Option<usize>)
        ensures
            r is Some == position(names(self@), key@) is Some,
            r matches Some(i) ==> position(names(self@), key@) == Some(i as int) && i
                < self.entries.len() && self.entries@[i as int].0@ == key@,
    {
        let wanted = chars::chars_of(key);
        let mut i: usize = 0;
        while i < self.entries.len()
            invariant
                i <= self.entries.len(),
                wanted@ == key@,
                position(names(self@), key@) == position_from(names(self@), key@, i as int),
            decreases self.entries.len() - i,
        {
            let here = chars::chars_of(self.entries[i].0.as_str());
            if chars::equal(&here, &wanted) {
                return Some(i);
            }
            i += 1;
        }
        None
    }

    /// The value held for `key`.
    pub fn get(&self, key: &str) -> (r: Option<&String>)
        ensures
            r is Some == lookup(self@, key@) is Some,
            r matches Some(v) ==> lookup(self@, key@) == Some(v@),
    {
        match self.index_of(key) {
            Some(i) => Some(&self.entries[i].1),
            None => None,
        }
    }

    /// Whether a value is held for `key`.
    pub fn contains_key(&self, key: &str) -> (r: bool)
        ensures
            r == lookup(self@, key@) is Some,
    {
        self.index_of(key).is_some()
    }

    /// Sets the value of `key`: in place where the name is present, at the
    /// end where it is new.
    pub fn insert(&mut self, key: String, value: String)
        requires
            old(self).wf(),
        ensures
            final(self).wf(),
            final(self)@ == match position(names(old(self)@), key@) {
                Some(i) => old(self)@.update(i, (key@, value@)),
                None => old(self)@.push((key@, value@)),
            },
            lookup(final(self)@, key@) == Some(value@),
    {
        proof {
            lemma_position(names(self@), key@);
        }
        match self.index_of(key.as_str()) {
            Some(i) => {
                self.entries.set(i, (key, value));
                proof {
                    assert(self@ =~= old(self)@.update(i as int, (key@, value@)));
                    assert(names(self@) =~= names(old(self)@));
                    lemma_position_is(names(self@), key@, i as int);
                }
            },
            None => {
                self.entries.push((key, value));
                proof {
                    assert(self@ =~= old(self)@.push((key@, value@)));
                    assert(names(self@) =~= names(old(self)@).push(key@));
                    lemma_position_is(names(self@), key@, self@.len() - 1);
                }
            },
        }
    }

    /// Sets the value of `key` only where the name is new.
    pub fn insert_if_absent(&mut self, key: String, value: String)
        requires
            old(self).wf(),
        ensures
            final(self).wf(),
            final(self)@ == if lookup(old(self)@, key@) is Some {
                old(self)@
            } else {
                old(self)@.push((key@, value@))
            },
    {
        proof {
            lemma_position(names(self@), key@);
        }
        if self.index_of(key.as_str()).is_none() {
            self.entries.push((key, value));
            proof {
                assert(self@ =~= old(self)@.push((key@, value@)));
                assert(names(self@) =~= names(old(self)@).push(key@));
            }
        }
    }

    /// A copy with the same entries.
    pub fn duplicate(&self) -> (r: Self)
        ensures
            r@ == self@,
    {
        let mut entries: Vec<(String, String)> = Vec::new();
        let mut i: usize = 0;
        while i < self.entries.len()
            invariant
                i <= self.entries.len(),
                entries@.len() == i,
                forall|j: int|
                    0 <= j < i ==> entries@[j].0@ == self.entries@[j].0@ && entries@[j].1@
                        == self.entries@[j].1@,
            decreases self.entries.len() - i,
        {
            entries.push((self.entries[i].0.clone(), self.entries[i].1.clone()));
            i += 1;
        }
        let r = StringMap { entries };
        assert(r@ =~= self@);
        r
    }
}

/// The entries rise by name: no entry's name comes before that of an
/// earlier entry.
pub open spec fn names_rise(entries: Seq<(Seq<char>, Seq<char>)>) -> bool {
    forall|i: int, j: int| 0 <= i < j < entries.len() ==> !lex_lt(entries[j].0, entries[i].0)
}

/// `sorted` holds the entries of `entries`, each as often, in rising order
/// of their names.
pub open spec fn is_sorting_of(
    sorted: Seq<(Seq<char>, Seq<char>)>,
    entries: Seq<(Seq<char>, Seq<char>)>,
) -> bool {
    names_rise(sorted) && sorted.to_multiset() == entries.to_multiset()
}

/// Entries without a name twice have one order by name only.
pub proof fn lemma_sorting_unique(
    a: Seq<(Seq<char>, Seq<char>)>,
    b: Seq<(Seq<char>, Seq<char>)>,
    entries: Seq<(Seq<char>, Seq<char>)>,
)
    requires
        distinct(names(entries)),
        is_sorting_of(a, entries),
        is_sorting_of(b, entries),
    ensures
        a == b,
{
    lemma_sorted_names(a, entries);
    lemma_sorted_names(b, entries);
    vstd::seq_lib::to_multiset_len(a);
    vstd::seq_lib::to_multiset_len(b);
    assert forall|x: Seq<char>| names(a).contains(x) <==> names(b).contains(x) by {
        if names(a).contains(x) {
            let i = choose|i: int| 0 <= i < names(a).len() && names(a)[i] == x;
            vstd::seq_lib::to_multiset_contains(a, a[i]);
            vstd::seq_lib::to_multiset_contains(b, a[i]);
            assert(a.contains(a[i]));
            let j = choose|j: int| 0 <= j < b.len() && b[j] == a[i];
            assert(names(b)[j] == x);
        }
        if names(b).contains(x) {
            let i = choose|i: int| 0 <= i < names(b).len() && names(b)[i] == x;
            vstd::seq_lib::to_multiset_contains(b, b[i]);
            vstd::seq_lib::to_multiset_contains(a, b[i]);
            assert(b.contains(b[i]));
            let j = choose|j: int| 0 <= j < a.len() && a[j] == b[i];
            assert(names(a)[j] == x);
        }
    }
    lemma_strictly_sorted_unique(names(a), names(b));
    assert forall|i: int| 0 <= i < a.len() implies a[i] == b[i] by {
        vstd::seq_lib::to_multiset_contains(a, a[i]);
        vstd::seq_lib::to_multiset_contains(b, a[i]);
        assert(a.contains(a[i]));
        let j = choose|j: int| 0 <= j < b.len() && b[j] == a[i];
        assert(names(b)[j] == names(a)[i]);
        assert(names(b)[i] == names(a)[i]);
        if j != i {
            crate::ordered::lemma_strictly_sorted(names(b));
        }
    }
    assert(a =~= b);
}

/// A sorting of entries without a name twice rises strictly by name.
proof fn lemma_sorted_names(a: Seq<(Seq<char>, Seq<char>)>, entries: Seq<(Seq<char>, Seq<char>)>)
    requires
        distinct(names(entries)),
        is_sorting_of(a, entries),
    ensures
        strictly_sorted(names(a)),
{
    assert(entries.no_duplicates()) by {
        assert forall|i: int, j: int|
            0 <= i < entries.len() && 0 <= j < entries.len() && i != j implies entries[i]
            != entries[j] by {
            assert(names(entries)[i] == entries[i].0 && names(entries)[j] == entries[j].0);
            if i < j {
                assert(names(entries)[i] != names(entries)[j]);
            } else {
                assert(names(entries)[j] != names(entries)[i]);
            }
        }
    }
    entries.lemma_multiset_has_no_duplicates();
    a.lemma_multiset_has_no_duplicates_conv();
    assert forall|i: int, j: int| 0 <= i < j < names(a).len() implies lex_lt(
        names(a)[i],
        names(a)[j],
    ) by {
        if !lex_lt(a[i].0, a[j].0) {
            lemma_lex_total(a[i].0, a[j].0);
            // the same name twice: both entries are entries of `entries`
            vstd::seq_lib::to_multiset_contains(a, a[i]);
            vstd::seq_lib::to_multiset_contains(entries, a[i]);
            vstd::seq_lib::to_multiset_contains(a, a[j]);
            vstd::seq_lib::to_multiset_contains(entries, a[j]);
            assert(a.contains(a[i]) && a.contains(a[j]));
            let p = choose|p: int| 0 <= p < entries.len() && entries[p] == a[i];
            let q = choose|q: int| 0 <= q < entries.len() && entries[q] == a[j];
            assert(names(entries)[p] == names(entries)[q]);
            if p < q {
                assert(names(entries)[p] != names(entries)[q]);
            } else if q < p {
                assert(names(entries)[q] != names(entries)[p]);
            }
            assert(a[i] == a[j]);
        }
    }
}

impl StringMap {
    /// Whether no name occurs twice.
    pub fn has_distinct_names(&self) -> (r: bool)
        ensures
            r == self.wf(),
    {
        let mut j: usize = 0;
        while j < self.entries.len()
            invariant
                j <= self.entries.len(),
                forall|a: int, b: int| 0 <= a < b < j ==> names(self@)[a] != names(self@)[b],
            decreases self.entries.len() - j,
        {
            let mut i: usize = 0;
            while i < j
                invariant
                    i <= j < self.entries.len(),
                    forall|a: int| 0 <= a < i ==> names(self@)[a] != names(self@)[j as int],
                decreases j - i,
            {
                if same_text(self.entries[i].0.as_str(), self.entries[j].0.as_str()) {
                    assert(names(self@)[i as int] == names(self@)[j as int]);
                    return false;
                }
                i += 1;
            }
            j += 1;
        }
        true
    }

    /// The entries in rising order of their names.
    pub fn sorted_by_name(&self) -> (r: StringMap)
        ensures
            is_sorting_of(r@, self@),
            r@.len() == self@.len(),
    {
        let mut sorted: Vec<(String, String)> = Vec::new();
        let ghost all = self@;
        let mut n: usize = 0;
        proof {
            assert(all.take(0) =~= Seq::<(Seq<char>, Seq<char>)>::empty());
            assert((StringMap { entries: sorted })@ =~= Seq::<(Seq<char>, Seq<char>)>::empty());
        }
        while n < self.entries.len()
            invariant
                n <= self.entries.len(),
                all == self@,
                names_rise((StringMap { entries: sorted })@),
                (StringMap { entries: sorted })@.to_multiset() == all.take(n as int).to_multiset(),
                sorted@.len() == n,
            decreases self.entries.len() - n,
        {
            let ghost before = (StringMap { entries: sorted })@;
            let wanted = chars::chars_of(self.entries[n].0.as_str());
            let mut k: usize = 0;
            while k < sorted.len()
                invariant
                    k <= sorted.len(),
                    before == (StringMap { entries: sorted })@,
                    wanted@ == all[n as int].0,
                    n < self.entries.len(),
                    forall|i: int| 0 <= i < k ==> !lex_lt(all[n as int].0, #[trigger] before[i].0),
                ensures
                    k <= sorted.len(),
                    k < sorted.len() ==> lex_lt(all[n as int].0, before[k as int].0),
                decreases sorted.len() - k,
            {
                let here = chars::chars_of(sorted[k].0.as_str());
                assert(here@ == before[k as int].0);
                if chars::lex_lt(&wanted, &here) {
                    break ;
                }
                k += 1;
            }
            sorted.insert(k, (self.entries[n].0.clone(), self.entries[n].1.clone()));
            proof {
                let entry = all[n as int];
                let after = (StringMap { entries: sorted })@;
                assert(after =~= before.insert(k as int, entry));
                assert forall|i: int, j: int| 0 <= i < j < after.len() implies !lex_lt(
                    after[j].0,
                    after[i].0,
                ) by {
                    if j == k {
                        assert(after[i] == before[i]);
                    } else if i == k {
                        assert(after[j] == before[j - 1]);
                        if j - 1 > k {
                            if lex_lt(before[j - 1].0, entry.0) {
                                lemma_lex_transitive(before[j - 1].0, entry.0, before[k as int].0);
                            }
                        } else {
                            lemma_lex_asymmetric(entry.0, before[k as int].0);
                        }
                    } else {
                        let i0 = if i < k { i } else { i - 1 };
                        let j0 = if j < k { j } else { j - 1 };
                        assert(after[i] == before[i0] && after[j] == before[j0]);
                    }
                }
                vstd::seq_lib::to_multiset_insert(before, k as int, entry);
                assert(all.take(n + 1) =~= all.take(n as int).push(entry));
                vstd::seq_lib::to_multiset_build(all.take(n as int), entry);
            }
            n += 1;
        }
        assert(all.take(self@.len() as int) =~= all);
        StringMap { entries: sorted }
    }
}

} // verus!
