//! Lists of texts kept in order: the order of texts, its laws, and
//! insertion into a sorted list.

use vstd::prelude::*;
use crate::chars;
use crate::text::lex_lt;

verus! {

/// No text comes before itself.
pub proof fn lemma_lex_irreflexive(a: Seq<char>)
    ensures
        !lex_lt(a, a),
    decreases a.len(),
{
    if a.len() > 0 {
        lemma_lex_irreflexive(a.skip(1));
    }
}

/// Of two texts, neither of which comes before the other, both are the same.
pub proof fn lemma_lex_total(a: Seq<char>, b: Seq<char>)
    requires
        !lex_lt(a, b),
        !lex_lt(b, a),
    ensures
        a == b,
    decreases a.len(),
{
    if a.len() > 0 && b.len() > 0 {
        lemma_lex_total(a.skip(1), b.skip(1));
        assert(a =~= seq![a[0]] + a.skip(1));
        assert(b =~= seq![b[0]] + b.skip(1));
    } else {
        assert(a =~= b);
    }
}

/// A text that comes before a second does not come after it.
pub proof fn lemma_lex_asymmetric(a: Seq<char>, b: Seq<char>)
    requires
        lex_lt(a, b),
    ensures
        !lex_lt(b, a),
    decreases a.len(),
{
    if a.len() > 0 && b.len() > 0 && a[0] == b[0] {
        lemma_lex_asymmetric(a.skip(1), b.skip(1));
    }
}

/// The order of texts is transitive.
pub proof fn lemma_lex_transitive(a: Seq<char>, b: Seq<char>, c: Seq<char>)
    requires
        lex_lt(a, b),
        lex_lt(b, c),
    ensures
        lex_lt(a, c),
    decreases a.len(),
{
    if a.len() > 0 && b.len() > 0 && c.len() > 0 && a[0] == b[0] && b[0] == c[0] {
        lemma_lex_transitive(a.skip(1), b.skip(1), c.skip(1));
    }
}

/// The list rises: no item comes before an earlier one.
pub open spec fn sorted(items: Seq<Seq<char>>) -> bool {
    forall|i: int, j: int| 0 <= i < j < items.len() ==> !lex_lt(items[j], items[i])
}

/// The list rises strictly: every item comes after the earlier ones.
pub open spec fn strictly_sorted(items: Seq<Seq<char>>) -> bool {
    forall|i: int, j: int| 0 <= i < j < items.len() ==> lex_lt(items[i], items[j])
}

/// A strictly rising list rises, and holds no text twice.
pub proof fn lemma_strictly_sorted(items: Seq<Seq<char>>)
    requires
        strictly_sorted(items),
    ensures
        sorted(items),
        forall|i: int, j: int| 0 <= i < j < items.len() ==> items[i] != items[j],
{
    assert forall|i: int, j: int| 0 <= i < j < items.len() implies !lex_lt(
        items[j],
        items[i],
    ) by {
        lemma_lex_asymmetric(items[i], items[j]);
    }
    assert forall|i: int, j: int| 0 <= i < j < items.len() implies items[i] != items[j] by {
        lemma_lex_irreflexive(items[i]);
    }
}

/// Two strictly rising lists with the same members are the same list.
pub proof fn lemma_strictly_sorted_unique(a: Seq<Seq<char>>, b: Seq<Seq<char>>)
    requires
        strictly_sorted(a),
        strictly_sorted(b),
        forall|x: Seq<char>| a.contains(x) <==> b.contains(x),
    ensures
        a == b,
    decreases a.len(),
{
    if a.len() == 0 {
        if b.len() > 0 {
            assert(b.contains(b[0]));
            assert(a.contains(b[0]));
        }
        assert(a =~= b);
    } else if b.len() == 0 {
        assert(a.contains(a[0]));
        assert(b.contains(a[0]));
    } else {
        // the least members agree
        assert(a.contains(a[0]));
        assert(b.contains(b[0]));
        let i = choose|i: int| 0 <= i < b.len() && b[i] == a[0];
        let j = choose|j: int| 0 <= j < a.len() && a[j] == b[0];
        if i > 0 {
            // b[0] < b[i] == a[0] <= a[j] == b[0]
            if j > 0 {
                lemma_lex_transitive(b[0], a[0], a[j]);
            }
            lemma_lex_irreflexive(b[0]);
        }
        assert(a[0] == b[0]);
        let a1 = a.skip(1);
        let b1 = b.skip(1);
        assert forall|x: Seq<char>| a1.contains(x) <==> b1.contains(x) by {
            if a1.contains(x) {
                let k = choose|k: int| 0 <= k < a1.len() && a1[k] == x;
                assert(a.contains(a[k + 1]));
                let m = choose|m: int| 0 <= m < b.len() && b[m] == x;
                if m == 0 {
                    lemma_lex_irreflexive(x);
                }
                assert(b1[m - 1] == x);
            }
            if b1.contains(x) {
                let k = choose|k: int| 0 <= k < b1.len() && b1[k] == x;
                assert(b.contains(b[k + 1]));
                let m = choose|m: int| 0 <= m < a.len() && a[m] == x;
                if m == 0 {
                    lemma_lex_irreflexive(x);
                }
                assert(a1[m - 1] == x);
            }
        }
        lemma_strictly_sorted_unique(a1, b1);
        assert(a =~= seq![a[0]] + a1);
        assert(b =~= seq![b[0]] + b1);
    }
}

/// Puts `item` into the rising list `items`, after the items that do not
/// come after it.
pub fn insert_sorted(items: &mut Vec<String>, item: String)
    requires
        sorted(chars::views(old(items)@)),
    ensures
        sorted(chars::views(final(items)@)),
        chars::views(final(items)@).to_multiset() == chars::views(old(items)@).to_multiset().insert(
            item@,
        ),
        final(items)@.len() == old(items)@.len() + 1,
{
    let wanted = chars::chars_of(item.as_str());
    let mut k: usize = 0;
    while k < items.len()
        invariant
            k <= items.len(),
            items@ == old(items)@,
            wanted@ == item@,
            forall|i: int| 0 <= i < k ==> !lex_lt(item@, #[trigger] items@[i]@),
        ensures
            k <= items.len(),
            k < items.len() ==> lex_lt(item@, items@[k as int]@),
        decreases items.len() - k,
    {
        let here = chars::chars_of(items[k].as_str());
        if chars::lex_lt(&wanted, &here) {
            break ;
        }
        k += 1;
    }
    let ghost before = chars::views(items@);
    items.insert(k, item);
    proof {
        let after = chars::views(items@);
        assert(after =~= before.insert(k as int, item@));
        assert forall|i: int, j: int| 0 <= i < j < after.len() implies !lex_lt(
            after[j],
            after[i],
        ) by {
            if j == k {
                assert(after[i] == before[i]);
            } else if i == k {
                assert(after[j] == before[j - 1]);
                assert(lex_lt(item@, before[k as int]));
                if j - 1 > k {
                    if lex_lt(before[j - 1], item@) {
                        lemma_lex_transitive(before[j - 1], item@, before[k as int]);
                    }
                } else {
                    lemma_lex_asymmetric(item@, before[k as int]);
                }
            } else {
                let i0 = if i < k { i } else { i - 1 };
                let j0 = if j < k { j } else { j - 1 };
                assert(after[i] == before[i0] && after[j] == before[j0]);
            }
        }
        vstd::seq_lib::to_multiset_insert(before, k as int, item@);
    }
}

/// The texts sorted into rising order.
pub fn sort_strings(items: Vec<String>) -> (r: Vec<String>)
    ensures
        sorted(chars::views(r@)),
        chars::views(r@).to_multiset() == chars::views(items@).to_multiset(),
        r@.len() == items@.len(),
{
    let mut r: Vec<String> = Vec::new();
    let mut i: usize = 0;
    let ghost all = chars::views(items@);
    proof {
        assert(all.take(0) =~= Seq::<Seq<char>>::empty());
        assert(chars::views(r@) =~= Seq::<Seq<char>>::empty());
    }
    while i < items.len()
        invariant
            i <= items.len(),
            all == chars::views(items@),
            sorted(chars::views(r@)),
            chars::views(r@).to_multiset() == all.take(i as int).to_multiset(),
            r@.len() == i,
        decreases items.len() - i,
    {
        proof {
            assert(all.take(i + 1) =~= all.take(i as int).push(all[i as int]));
            vstd::seq_lib::to_multiset_build(all.take(i as int), all[i as int]);
        }
        insert_sorted(&mut r, items[i].clone());
        i += 1;
    }
    assert(all.take(items.len() as int) =~= all);
    r
}

/// The place of `item` in the strictly rising list `items`: where it
/// stands, or where it would have to go.
pub fn search_sorted(items: &Vec<String>, item: &str) -> (r: (usize, bool))
    requires
        strictly_sorted(chars::views(items@)),
    ensures
        r.0 <= items@.len(),
        forall|i: int| 0 <= i < r.0 ==> lex_lt(#[trigger] items@[i]@, item@),
        forall|i: int| r.0 < i < items@.len() ==> lex_lt(item@, #[trigger] items@[i]@),
        r.1 ==> r.0 < items@.len() && items@[r.0 as int]@ == item@,
        !r.1 ==> (r.0 < items@.len() ==> lex_lt(item@, items@[r.0 as int]@)),
        r.1 == chars::views(items@).contains(item@),
{
    let wanted = chars::chars_of(item);
    let ghost all = chars::views(items@);
    let mut k: usize = 0;
    let mut found = false;
    while k < items.len()
        invariant_except_break
            !found,
        invariant
            k <= items.len(),
            wanted@ == item@,
            forall|i: int| 0 <= i < k ==> lex_lt(#[trigger] items@[i]@, item@),
        ensures
            k <= items.len(),
            forall|i: int| 0 <= i < k ==> lex_lt(#[trigger] items@[i]@, item@),
            found ==> k < items.len() && items@[k as int]@ == item@,
            !found ==> (k < items.len() ==> lex_lt(item@, items@[k as int]@)),
        decreases items.len() - k,
    {
        let here = chars::chars_of(items[k].as_str());
        if !chars::lex_lt(&here, &wanted) {
            found = chars::equal(&here, &wanted);
            proof {
                if !found {
                    if !lex_lt(item@, here@) {
                        lemma_lex_total(item@, here@);
                    }
                }
            }
            break ;
        }
        k += 1;
    }
    proof {
        assert forall|i: int| k < i < items@.len() implies lex_lt(item@, #[trigger] items@[i]@) by {
            assert(lex_lt(all[k as int], all[i]));
            if found {
            } else {
                lemma_lex_transitive(item@, items@[k as int]@, items@[i]@);
            }
        }
        if found {
            assert(all[k as int] == item@);
        } else {
            assert forall|i: int| 0 <= i < all.len() implies all[i] != item@ by {
                lemma_lex_irreflexive(item@);
            }
        }
    }
    (k, found)
}

/// Puts `item` into the strictly rising list `items` unless it is there.
pub fn insert_unique(items: &mut Vec<String>, item: &str)
    requires
        strictly_sorted(chars::views(old(items)@)),
    ensures
        strictly_sorted(chars::views(final(items)@)),
        chars::views(final(items)@).to_set() == chars::views(old(items)@).to_set().insert(item@),
{
    let (k, found) = search_sorted(items, item);
    let ghost before = chars::views(items@);
    if found {
        assert(before.to_set().insert(item@) =~= before.to_set());
        return ;
    }
    items.insert(k, item.to_owned());
    proof {
        let after = chars::views(items@);
        assert(after =~= before.insert(k as int, item@));
        assert forall|i: int, j: int| 0 <= i < j < after.len() implies lex_lt(after[i], after[j]) by {
            if j == k {
                assert(after[i] == before[i]);
            } else if i == k {
                assert(after[j] == before[j - 1]);
            } else {
                let i0 = if i < k { i } else { i - 1 };
                let j0 = if j < k { j } else { j - 1 };
                assert(after[i] == before[i0] && after[j] == before[j0]);
            }
        }
        assert forall|x: Seq<char>| after.to_set().contains(x) == before.to_set().insert(
            item@,
        ).contains(x) by {
            if after.contains(x) {
                let m = choose|m: int| 0 <= m < after.len() && after[m] == x;
                if m < k {
                    assert(before[m] == x);
                } else if m > k {
                    assert(before[m - 1] == x);
                }
            }
            if before.contains(x) {
                let m = choose|m: int| 0 <= m < before.len() && before[m] == x;
                if m < k {
                    assert(after[m] == x);
                } else {
                    assert(after[m + 1] == x);
                }
            }
            if x == item@ {
                assert(after[k as int] == x);
            }
        }
        assert(after.to_set() =~= before.to_set().insert(item@));
    }
}

} // verus!
