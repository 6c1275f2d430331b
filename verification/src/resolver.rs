//! Resolving a component and the components it depends on into the order
//! in which they are installed: dependencies before dependents.

use vstd::prelude::*;
use crate::chars;
use crate::string_map::{lemma_position, position, position_from, same_text};
use crate::registry::{RegistryComponent, RegistryError};
use crate::string_map::{lookup, StringMap};
use crate::text;
use crate::types::{Component, Registry};

verus! {

/// The dependency graph of a registry: each slug with the slugs it names as
/// internal dependencies, in the registry's order.
pub type Graph = Seq<(Seq<char>, Seq<Seq<char>>)>;

/// The slugs of a graph, in order.
pub open spec fn slugs(g: Graph) -> Seq<Seq<char>> {
    Seq::new(g.len(), |i: int| g[i].0)
}

/// The dependency graph of a list of components by slug.
pub open spec fn graph_of(components: Seq<(String, Component)>) -> Graph {
    Seq::new(
        components.len(),
        |i: int| (components[i].0@, chars::views(components[i].1.internal_dependencies@)),
    )
}

/// The place of a slug in the graph: that of its first entry.
pub open spec fn place(g: Graph, slug: Seq<char>) -> Option<int> {
    position(slugs(g), slug)
}

/// The places on the stack of a traversal are places of the graph, each
/// there once.
pub open spec fn stack_ok(g: Graph, visiting: Seq<int>) -> bool {
    &&& visiting.no_duplicates()
    &&& forall|k: int| 0 <= k < visiting.len() ==> 0 <= #[trigger] visiting[k] < g.len()
}

/// As many places as the graph has cannot all stand on a stack with room
/// for one more.
pub proof fn lemma_stack_bound(g: Graph, visiting: Seq<int>, next: int)
    requires
        stack_ok(g, visiting),
        0 <= next < g.len(),
        !visiting.contains(next),
    ensures
        visiting.len() < g.len(),
        stack_ok(g, visiting.push(next)),
{
    let longer = visiting.push(next);
    assert forall|a: int, b: int| 0 <= a < longer.len() && 0 <= b < longer.len() && a
        != b implies longer[a] != longer[b] by {
        if a < visiting.len() && b < visiting.len() {
        } else if a < visiting.len() {
            assert(visiting.contains(visiting[a]));
        } else {
            assert(visiting.contains(visiting[b]));
        }
    }
    assert forall|k: int| 0 <= k < longer.len() implies 0 <= #[trigger] longer[k] < g.len() by {
        if k < visiting.len() {
            assert(longer[k] == visiting[k]);
        }
    }
    longer.unique_seq_to_set();
    vstd::set_lib::lemma_int_range(0, g.len() as int);
    let range = vstd::set_lib::set_int_range(0, g.len() as int);
    assert(longer.to_set().subset_of(range)) by {
        assert forall|x: int| longer.to_set().contains(x) implies range.contains(x) by {
            let k = choose|k: int| 0 <= k < longer.len() && longer[k] == x;
            assert(0 <= longer[k] < g.len());
        }
    }
    vstd::set_lib::lemma_len_subset(longer.to_set(), range);
}

/// Visits `slug` depth first: its dependencies first, then the slug itself,
/// each appended to `ordered` where it is not there yet. `visiting` holds
/// the places on the way from the root; a slug met again on that way is
/// passed over. A slug that the graph lacks ends the traversal with that
/// slug as the error.
pub open spec fn visit(g: Graph, slug: Seq<char>, visiting: Seq<int>, ordered: Seq<int>) -> Result<
    Seq<int>,
    Seq<char>,
>
    decreases g.len() - visiting.len(), 0int, 0int,
    when stack_ok(g, visiting)
{
    match place(g, slug) {
        None => Err(slug),
        Some(i) => if ordered.contains(i) || visiting.contains(i) {
            Ok(ordered)
        } else {
            proof {
                lemma_position(slugs(g), slug);
                lemma_stack_bound(g, visiting, i);
            }
            match visit_all(g, g[i].1, 0, visiting.push(i), ordered) {
                Ok(done) => Ok(done.push(i)),
                Err(missing) => Err(missing),
            }
        },
    }
}

/// Visits the slugs `deps[k..]` in turn.
pub open spec fn visit_all(
    g: Graph,
    deps: Seq<Seq<char>>,
    k: int,
    visiting: Seq<int>,
    ordered: Seq<int>,
) -> Result<Seq<int>, Seq<char>>
    decreases g.len() - visiting.len(), 1int, deps.len() - k,
    when stack_ok(g, visiting)
{
    if k < 0 || k >= deps.len() {
        Ok(ordered)
    } else {
        match visit(g, deps[k], visiting, ordered) {
            Ok(next) => visit_all(g, deps, k + 1, visiting, next),
            Err(missing) => Err(missing),
        }
    }
}

/// The places of `slug` and of all it depends on, dependencies first; or
/// the first slug met that the graph lacks.
pub open spec fn resolve(g: Graph, slug: Seq<char>) -> Result<Seq<int>, Seq<char>> {
    visit(g, slug, seq![], seq![])
}

/// The places that a list of indices holds.
pub open spec fn places_of(v: Seq<usize>) -> Seq<int> {
    Seq::new(v.len(), |i: int| v[i] as int)
}

/// Whether `v` holds `x`.
fn holds(v: &Vec<usize>, x: usize) -> (r: bool)
    ensures
        r == places_of(v@).contains(x as int),
{
    let mut i: usize = 0;
    while i < v.len()
        invariant
            i <= v.len(),
            forall|j: int| 0 <= j < i ==> places_of(v@)[j] != x as int,
        decreases v.len() - i,
    {
        if v[i] == x {
            assert(places_of(v@)[i as int] == x as int);
            return true;
        }
        i += 1;
    }
    false
}

/// The place of `slug` among the components.
fn place_of(components: &Vec<(String, Component)>, slug: &str) -> (r: Option<usize>)
    ensures
        (match r {
            Some(i) => Some(i as int),
            None => None,
        }) == place(graph_of(components@), slug@),
        r matches Some(i) ==> i < components.len() && components@[i as int].0@ == slug@,
{
    let ghost keys = slugs(graph_of(components@));
    let mut i: usize = 0;
    while i < components.len()
        invariant
            i <= components.len(),
            keys == slugs(graph_of(components@)),
            position(keys, slug@) == position_from(keys, slug@, i as int),
        decreases components.len() - i,
    {
        if same_text(components[i].0.as_str(), slug) {
            return Some(i);
        }
        i += 1;
    }
    None
}

/// Visits `component` depth first and appends to `ordered` the places of
/// what is new, dependencies first. On success `visiting` is as before.
#[verifier::loop_isolation(false)]
pub fn collect_component_with_dependencies(
    components: &Vec<(String, Component)>,
    component: &str,
    visiting: &mut Vec<usize>,
    ordered: &mut Vec<usize>,
) -> (r: Result<(), RegistryError>)
    requires
        stack_ok(graph_of(components@), places_of(old(visiting)@)),
    ensures
        match r {
            Ok(()) => visit(
                graph_of(components@),
                component@,
                places_of(old(visiting)@),
                places_of(old(ordered)@),
            ) == Ok::<Seq<int>, Seq<char>>(places_of(final(ordered)@)) && final(visiting)@ == old(
                visiting,
            )@,
            Err(error) => error matches RegistryError::ComponentNotFound(missing) && visit(
                graph_of(components@),
                component@,
                places_of(old(visiting)@),
                places_of(old(ordered)@),
            ) == Err::<Seq<int>, Seq<char>>(missing@),
        },
    decreases components.len() - old(visiting).len(), 0int, 0int,
{
    let ghost g = graph_of(components@);
    let ghost stack = places_of(visiting@);
    let ghost start = places_of(ordered@);
    let i = match place_of(components, component) {
        Some(i) => i,
        None => {
            return Err(RegistryError::ComponentNotFound(component.to_owned()));
        },
    };
    if holds(ordered, i) || holds(visiting, i) {
        return Ok(());
    }
    proof {
        lemma_stack_bound(g, stack, i as int);
    }
    visiting.push(i);
    let ghost deeper = places_of(visiting@);
    assert(deeper =~= stack.push(i as int));
    let deps = &components[i].1.internal_dependencies;
    assert(chars::views(deps@) == g[i as int].1);
    let mut k: usize = 0;
    while k < deps.len()
        invariant
            k <= deps.len(),
            g == graph_of(components@),
            deeper == places_of(visiting@),
            stack_ok(g, deeper),
            deeper.len() == stack.len() + 1,
            stack.len() < components.len(),
            visiting@ == old(visiting)@.push(i),
            visit_all(g, chars::views(deps@), 0, deeper, start) == visit_all(
                g,
                chars::views(deps@),
                k as int,
                deeper,
                places_of(ordered@),
            ),
        decreases deps.len() - k,
    {
        let ghost before = places_of(ordered@);
        match collect_component_with_dependencies(
            components,
            deps[k].as_str(),
            visiting,
            ordered,
        ) {
            Ok(()) => {},
            Err(error) => {
                return Err(error);
            },
        }
        k += 1;
    }
    let ghost done = places_of(ordered@);
    visiting.pop();
    ordered.push(i);
    proof {
        assert(visiting@ =~= old(visiting)@);
        assert(places_of(ordered@) =~= done.push(i as int));
    }
    Ok(())
}

// ---------------------------------------------------------------------------
// Laws of the traversal
// ---------------------------------------------------------------------------

/// The entry at place `a` names a dependency that is kept at place `b`.
pub open spec fn edge(g: Graph, a: int, b: int) -> bool {
    &&& 0 <= a < g.len()
    &&& exists|k: int| 0 <= k < g[a].1.len() && place(g, #[trigger] g[a].1[k]) == Some(b)
}

/// Each place of `walk` depends on the next.
pub open spec fn is_walk(g: Graph, walk: Seq<int>) -> bool {
    forall|m: int| 0 <= m < walk.len() - 1 ==> edge(g, #[trigger] walk[m], walk[m + 1])
}

/// Some component depends, directly or through others, on itself.
pub open spec fn has_cycle(g: Graph) -> bool {
    exists|walk: Seq<int>| walk.len() >= 2 && walk[0] == walk.last() && #[trigger] is_walk(g, walk)
}

/// Every dependency of the entry at `ordered[p]` is kept in the graph, at a
/// place that is in `ordered` or on the stack.
pub open spec fn dependencies_known(g: Graph, visiting: Seq<int>, ordered: Seq<int>, p: int) -> bool {
    forall|k: int|
        0 <= k < g[ordered[p]].1.len() ==> (match place(g, #[trigger] g[ordered[p]].1[k]) {
            Some(j) => ordered.contains(j) || visiting.contains(j),
            None => false,
        })
}

/// Every dependency of the entry at `ordered[p]` is kept in the graph, at a
/// place that stands in `ordered` before `p`.
pub open spec fn dependencies_first(g: Graph, ordered: Seq<int>, p: int) -> bool {
    forall|k: int|
        0 <= k < g[ordered[p]].1.len() ==> (match place(g, #[trigger] g[ordered[p]].1[k]) {
            Some(j) => ordered.take(p).contains(j),
            None => false,
        })
}

/// What holds of the places resolved so far, at every step of a traversal.
pub open spec fn resolved_ok(g: Graph, visiting: Seq<int>, ordered: Seq<int>) -> bool {
    &&& ordered.no_duplicates()
    &&& forall|p: int|
        0 <= p < ordered.len() ==> 0 <= #[trigger] ordered[p] < g.len() && !visiting.contains(
            ordered[p],
        ) && place(g, g[ordered[p]].0) == Some(ordered[p])
    &&& forall|p: int| 0 <= p < ordered.len() ==> #[trigger] dependencies_known(g, visiting, ordered, p)
}

/// The places resolved so far stand in an order in which dependencies come
/// first.
pub open spec fn topological(g: Graph, ordered: Seq<int>) -> bool {
    forall|p: int| 0 <= p < ordered.len() ==> #[trigger] dependencies_first(g, ordered, p)
}

/// A stack that is a walk, with a dependency of its top that is on it,
/// closes a cycle.
proof fn lemma_back_edge_is_cycle(g: Graph, stack: Seq<int>, j: int)
    requires
        stack.len() > 0,
        is_walk(g, stack),
        edge(g, stack.last(), j),
        stack.contains(j),
    ensures
        has_cycle(g),
{
    let m = choose|m: int| 0 <= m < stack.len() && stack[m] == j;
    let walk = stack.skip(m).push(j);
    assert forall|n: int| 0 <= n < walk.len() - 1 implies edge(g, #[trigger] walk[n], walk[n + 1]) by {
        if n < walk.len() - 2 {
            assert(walk[n] == stack[m + n]);
            assert(walk[n + 1] == stack[m + n + 1]);
        } else {
            assert(walk[n] == stack.last());
            assert(walk[n + 1] == j);
        }
    }
    assert(walk[0] == j);
    assert(is_walk(g, walk));
}

/// What a visit keeps and adds: the places resolved before stay at the
/// front, the slug is resolved or on the stack afterwards, and the order
/// stays sound; without cycles dependencies come first.
proof fn lemma_visit(g: Graph, slug: Seq<char>, visiting: Seq<int>, ordered: Seq<int>)
    requires
        stack_ok(g, visiting),
        resolved_ok(g, visiting, ordered),
        is_walk(g, visiting),
        visiting.len() > 0 ==> (place(g, slug) matches Some(i) ==> edge(g, visiting.last(), i)),
    ensures
        visit(g, slug, visiting, ordered) matches Ok(out) ==> {
            &&& resolved_ok(g, visiting, out)
            &&& ordered.len() <= out.len()
            &&& out.take(ordered.len() as int) == ordered
            &&& place(g, slug) matches Some(i) && (out.contains(i) || visiting.contains(i))
            &&& (visiting.len() == 0 ==> out.len() > 0 && place(g, slug) == Some(out.last())
                || ordered.contains(place(g, slug)->0))
            &&& (!has_cycle(g) && topological(g, ordered) ==> topological(g, out))
        },
    decreases g.len() - visiting.len(), 0int, 0int,
{
    match place(g, slug) {
        None => {},
        Some(i) => {
            lemma_position(slugs(g), slug);
            if ordered.contains(i) || visiting.contains(i) {
                assert(ordered.take(ordered.len() as int) == ordered);
            } else {
                lemma_stack_bound(g, visiting, i);
                let deeper = visiting.push(i);
                assert(is_walk(g, deeper)) by {
                    assert forall|m: int| 0 <= m < deeper.len() - 1 implies edge(
                        g,
                        #[trigger] deeper[m],
                        deeper[m + 1],
                    ) by {
                        if m < visiting.len() - 1 {
                            assert(deeper[m] == visiting[m]);
                            assert(deeper[m + 1] == visiting[m + 1]);
                        } else {
                            assert(deeper[m] == visiting.last());
                        }
                    }
                }
                assert(resolved_ok(g, deeper, ordered)) by {
                    assert forall|p: int| 0 <= p < ordered.len() implies 0 <= #[trigger] ordered[p]
                        < g.len() && !deeper.contains(ordered[p]) && place(g, g[ordered[p]].0)
                        == Some(ordered[p]) by {
                        assert(ordered.contains(ordered[p]));
                        if deeper.contains(ordered[p]) {
                            let m = choose|m: int| 0 <= m < deeper.len() && deeper[m] == ordered[p];
                            if m < visiting.len() {
                                assert(visiting.contains(visiting[m]));
                            }
                        }
                    }
                    assert forall|p: int| 0 <= p < ordered.len() implies #[trigger] dependencies_known(
                        g,
                        deeper,
                        ordered,
                        p,
                    ) by {
                        assert(dependencies_known(g, visiting, ordered, p));
                        assert forall|k: int| 0 <= k < g[ordered[p]].1.len() implies (match place(
                            g,
                            #[trigger] g[ordered[p]].1[k],
                        ) {
                            Some(j) => ordered.contains(j) || deeper.contains(j),
                            None => false,
                        }) by {
                            let j = place(g, g[ordered[p]].1[k])->0;
                            if visiting.contains(j) {
                                let m = choose|m: int| 0 <= m < visiting.len() && visiting[m] == j;
                                assert(deeper[m] == j);
                            }
                        }
                    }
                }
                lemma_visit_all(g, i, 0, deeper, ordered);
                match visit_all(g, g[i].1, 0, deeper, ordered) {
                    Err(_) => {},
                    Ok(done) => {
                        let out = done.push(i);
                        assert(deeper.contains(i)) by {
                            assert(deeper[visiting.len() as int] == i);
                        }
                        assert(!done.contains(i)) by {
                            if done.contains(i) {
                                let p = choose|p: int| 0 <= p < done.len() && done[p] == i;
                                assert(!deeper.contains(done[p]));
                            }
                        }
                        assert(out.no_duplicates()) by {
                            assert forall|a: int, b: int|
                                0 <= a < out.len() && 0 <= b < out.len() && a != b implies out[a]
                                != out[b] by {
                                if a < done.len() && b < done.len() {
                                } else if a < done.len() {
                                    assert(done.contains(done[a]));
                                } else {
                                    assert(done.contains(done[b]));
                                }
                            }
                        }
                        assert forall|p: int| 0 <= p < out.len() implies 0 <= #[trigger] out[p]
                            < g.len() && !visiting.contains(out[p]) && place(g, g[out[p]].0)
                            == Some(out[p]) by {
                            if p < done.len() {
                                assert(out[p] == done[p]);
                                assert(!deeper.contains(done[p]));
                                if visiting.contains(done[p]) {
                                    let m = choose|m: int|
                                        0 <= m < visiting.len() && visiting[m] == done[p];
                                    assert(deeper[m] == done[p]);
                                }
                            }
                        }
                        assert forall|p: int| 0 <= p < out.len() implies #[trigger] dependencies_known(
                            g,
                            visiting,
                            out,
                            p,
                        ) by {
                            assert forall|k: int| 0 <= k < g[out[p]].1.len() implies (match place(
                                g,
                                #[trigger] g[out[p]].1[k],
                            ) {
                                Some(j) => out.contains(j) || visiting.contains(j),
                                None => false,
                            }) by {
                                if p < done.len() {
                                    assert(out[p] == done[p]);
                                    assert(dependencies_known(g, deeper, done, p));
                                }
                                let j = place(g, g[out[p]].1[k])->0;
                                assert(done.contains(j) || deeper.contains(j));
                                if done.contains(j) {
                                    let q = choose|q: int| 0 <= q < done.len() && done[q] == j;
                                    assert(out[q] == j);
                                } else {
                                    let m = choose|m: int| 0 <= m < deeper.len() && deeper[m] == j;
                                    if m < visiting.len() {
                                        assert(visiting[m] == j);
                                    } else {
                                        assert(out[done.len() as int] == j);
                                    }
                                }
                            }
                        }
                        assert(out.take(ordered.len() as int) == ordered) by {
                            assert(out.take(ordered.len() as int) =~= done.take(ordered.len() as int));
                        }
                        assert(out[done.len() as int] == i);
                        if !has_cycle(g) && topological(g, ordered) {
                            assert forall|p: int| 0 <= p < out.len() implies #[trigger] dependencies_first(
                                g,
                                out,
                                p,
                            ) by {
                                assert forall|k: int| 0 <= k < g[out[p]].1.len() implies (match place(
                                    g,
                                    #[trigger] g[out[p]].1[k],
                                ) {
                                    Some(j) => out.take(p).contains(j),
                                    None => false,
                                }) by {
                                    if p < done.len() {
                                        assert(out[p] == done[p]);
                                        assert(dependencies_first(g, done, p));
                                        assert(out.take(p) =~= done.take(p));
                                    } else {
                                        let j = place(g, g[i].1[k])->0;
                                        assert(out.take(p) =~= done);
                                        if deeper.contains(j) {
                                            assert(edge(g, i, j));
                                            assert(deeper.last() == i);
                                            lemma_back_edge_is_cycle(g, deeper, j);
                                        }
                                    }
                                }
                            }
                        }
                    },
                }
            }
        },
    }
}

/// What visiting the dependencies of the entry at `i`, from the `k`th on,
/// keeps and adds.
proof fn lemma_visit_all(g: Graph, i: int, k: int, visiting: Seq<int>, ordered: Seq<int>)
    requires
        stack_ok(g, visiting),
        resolved_ok(g, visiting, ordered),
        is_walk(g, visiting),
        visiting.len() > 0,
        visiting.last() == i,
        0 <= i < g.len(),
        0 <= k <= g[i].1.len(),
        forall|n: int|
            0 <= n < k ==> (match place(g, #[trigger] g[i].1[n]) {
                Some(j) => ordered.contains(j) || visiting.contains(j),
                None => false,
            }),
    ensures
        visit_all(g, g[i].1, k, visiting, ordered) matches Ok(out) ==> {
            &&& resolved_ok(g, visiting, out)
            &&& ordered.len() <= out.len()
            &&& out.take(ordered.len() as int) == ordered
            &&& forall|n: int|
                0 <= n < g[i].1.len() ==> (match place(g, #[trigger] g[i].1[n]) {
                    Some(j) => out.contains(j) || visiting.contains(j),
                    None => false,
                })
            &&& (!has_cycle(g) && topological(g, ordered) ==> topological(g, out))
        },
    decreases g.len() - visiting.len(), 1int, g[i].1.len() - k,
{
    let deps = g[i].1;
    if k >= deps.len() {
        assert(ordered.take(ordered.len() as int) == ordered);
    } else {
        assert(place(g, deps[k]) matches Some(j) ==> edge(g, i, j));
        lemma_visit(g, deps[k], visiting, ordered);
        match visit(g, deps[k], visiting, ordered) {
            Err(_) => {},
            Ok(next) => {
                assert forall|n: int| 0 <= n < k + 1 implies (match place(g, #[trigger] deps[n]) {
                    Some(j) => next.contains(j) || visiting.contains(j),
                    None => false,
                }) by {
                    if n < k {
                        let j = place(g, deps[n])->0;
                        if ordered.contains(j) {
                            let q = choose|q: int| 0 <= q < ordered.len() && ordered[q] == j;
                            assert(next.take(ordered.len() as int)[q] == j);
                            assert(next[q] == j);
                        }
                    }
                }
                lemma_visit_all(g, i, k + 1, visiting, next);
                match visit_all(g, deps, k + 1, visiting, next) {
                    Err(_) => {},
                    Ok(out) => {
                        assert(out.take(ordered.len() as int) == ordered) by {
                            assert(out.take(ordered.len() as int) =~= out.take(
                                next.len() as int,
                            ).take(ordered.len() as int));
                        }
                    },
                }
            },
        }
    }
}

/// Resolution is sound whether or not the registry has cycles: no place
/// is resolved twice, no two resolved places hold the same slug, the
/// requested slug comes last, and every dependency of a resolved component
/// is resolved too.
pub proof fn lemma_resolve_each_once(g: Graph, slug: Seq<char>)
    ensures
        resolve(g, slug) matches Ok(order) ==> {
            &&& order.no_duplicates()
            &&& order.len() > 0
            &&& place(g, slug) == Some(order.last())
            &&& forall|p: int| 0 <= p < order.len() ==> 0 <= #[trigger] order[p] < g.len()
            &&& forall|p: int, q: int|
                0 <= p < q < order.len() ==> g[#[trigger] order[p]].0 != g[#[trigger] order[q]].0
            &&& forall|p: int, k: int|
                0 <= p < order.len() && 0 <= k < g[order[p]].1.len() ==> (match place(
                    g,
                    #[trigger] g[order[p]].1[k],
                ) {
                    Some(j) => order.contains(j),
                    None => false,
                })
        },
{
    let none = Seq::<int>::empty();
    lemma_visit(g, slug, none, none);
    match resolve(g, slug) {
        Err(_) => {},
        Ok(order) => {
            assert forall|p: int, k: int|
                0 <= p < order.len() && 0 <= k < g[order[p]].1.len() implies (match place(
                g,
                #[trigger] g[order[p]].1[k],
            ) {
                Some(j) => order.contains(j),
                None => false,
            }) by {
                assert(dependencies_known(g, none, order, p));
            }
            assert forall|p: int, q: int| 0 <= p < q < order.len() implies g[#[trigger] order[p]].0
                != g[#[trigger] order[q]].0 by {
                assert(place(g, g[order[p]].0) == Some(order[p]));
                assert(place(g, g[order[q]].0) == Some(order[q]));
            }
        },
    }
}

/// In a registry without cycles every dependency is resolved before the
/// components that name it.
pub proof fn lemma_resolve_topological(g: Graph, slug: Seq<char>)
    requires
        !has_cycle(g),
    ensures
        resolve(g, slug) matches Ok(order) ==> forall|p: int, k: int|
            0 <= p < order.len() && 0 <= k < g[order[p]].1.len() ==> exists|q: int|
                0 <= q < p && place(g, #[trigger] g[order[p]].1[k]) == Some(#[trigger] order[q]),
{
    let none = Seq::<int>::empty();
    lemma_visit(g, slug, none, none);
    match resolve(g, slug) {
        Err(_) => {},
        Ok(order) => {
            assert forall|p: int, k: int|
                0 <= p < order.len() && 0 <= k < g[order[p]].1.len() implies exists|q: int|
                0 <= q < p && place(g, #[trigger] g[order[p]].1[k]) == Some(
                    #[trigger] order[q],
                ) by {
                assert(dependencies_first(g, order, p));
                let j = place(g, g[order[p]].1[k])->0;
                assert(order.take(p).contains(j));
                let q = choose|q: int| 0 <= q < order.take(p).len() && order.take(p)[q] == j;
                assert(order[q] == j);
            }
        },
    }
}

/// Every slug that any component names as a dependency is kept in the graph.
pub open spec fn dependencies_present(g: Graph) -> bool {
    forall|i: int, k: int|
        0 <= i < g.len() && 0 <= k < g[i].1.len() ==> place(g, #[trigger] g[i].1[k]) is Some
}

/// Visiting a slug of a graph that lacks no dependency succeeds.
proof fn lemma_visit_succeeds(g: Graph, slug: Seq<char>, visiting: Seq<int>, ordered: Seq<int>)
    requires
        stack_ok(g, visiting),
        dependencies_present(g),
        place(g, slug) is Some,
    ensures
        visit(g, slug, visiting, ordered) is Ok,
    decreases g.len() - visiting.len(), 0int, 0int,
{
    let i = place(g, slug)->0;
    lemma_position(slugs(g), slug);
    if !(ordered.contains(i) || visiting.contains(i)) {
        lemma_stack_bound(g, visiting, i);
        lemma_visit_all_succeeds(g, i, 0, visiting.push(i), ordered);
    }
}

/// Visiting the dependencies of an entry of a graph that lacks none succeeds.
proof fn lemma_visit_all_succeeds(g: Graph, i: int, k: int, visiting: Seq<int>, ordered: Seq<int>)
    requires
        stack_ok(g, visiting),
        dependencies_present(g),
        0 <= i < g.len(),
        0 <= k <= g[i].1.len(),
    ensures
        visit_all(g, g[i].1, k, visiting, ordered) is Ok,
    decreases g.len() - visiting.len(), 1int, g[i].1.len() - k,
{
    if k < g[i].1.len() {
        assert(place(g, g[i].1[k]) is Some);
        lemma_visit_succeeds(g, g[i].1[k], visiting, ordered);
        lemma_visit_all_succeeds(g, i, k + 1, visiting, visit(g, g[i].1[k], visiting, ordered)->Ok_0);
    }
}

/// Resolution succeeds for every slug of a registry in which every named
/// dependency is present, and fails for a slug that the registry lacks.
pub proof fn lemma_resolve_succeeds(g: Graph, slug: Seq<char>)
    ensures
        dependencies_present(g) && place(g, slug) is Some ==> resolve(g, slug) is Ok,
        place(g, slug) is None ==> resolve(g, slug) == Err::<Seq<int>, Seq<char>>(slug),
{
    if dependencies_present(g) && place(g, slug) is Some {
        lemma_visit_succeeds(g, slug, seq![], seq![]);
    }
}

// ---------------------------------------------------------------------------
// Resolving against a registry
// ---------------------------------------------------------------------------

/// The components at the places `order`, each with its slug.
pub open spec fn components_at(
    components: Seq<(String, Component)>,
    order: Seq<int>,
    list: Seq<RegistryComponent>,
) -> bool {
    &&& list.len() == order.len()
    &&& forall|p: int|
        0 <= p < order.len() ==> 0 <= order[p] < components.len() && (#[trigger] list[p]).slug@
            == components[order[p]].0@ && list[p].component@ == components[order[p]].1@
}

/// Copies of the components at the places `order`.
fn components_of(components: &Vec<(String, Component)>, order: &Vec<usize>) -> (r: Vec<
    RegistryComponent,
>)
    requires
        forall|p: int| 0 <= p < order@.len() ==> order@[p] < components@.len(),
    ensures
        components_at(components@, places_of(order@), r@),
{
    let mut list: Vec<RegistryComponent> = Vec::new();
    let mut p: usize = 0;
    while p < order.len()
        invariant
            p <= order.len(),
            forall|q: int| 0 <= q < order@.len() ==> order@[q] < components@.len(),
            components_at(components@, places_of(order@).take(p as int), list@),
        decreases order.len() - p,
    {
        let entry = &components[order[p]];
        list.push(RegistryComponent { slug: entry.0.clone(), component: entry.1.duplicate() });
        p += 1;
    }
    assert(places_of(order@).take(order@.len() as int) =~= places_of(order@));
    list
}

/// The component `component` of the registry with all that it depends on,
/// each once, dependencies before dependents. Fails with the first slug met
/// that the registry lacks.
pub fn fetch_component_with_dependencies(registry: &Registry, component: &str) -> (r: Result<
    Vec<RegistryComponent>,
    RegistryError,
>)
    ensures
        match r {
            Ok(list) => resolve(graph_of(registry.components@), component@) matches Ok(order)
                && components_at(registry.components@, order, list@),
            Err(error) => error matches RegistryError::ComponentNotFound(missing) && resolve(
                graph_of(registry.components@),
                component@,
            ) == Err::<Seq<int>, Seq<char>>(missing@),
        },
{
    let mut visiting: Vec<usize> = Vec::new();
    let mut ordered: Vec<usize> = Vec::new();
    proof {
        assert(places_of(visiting@) =~= Seq::<int>::empty());
        assert(places_of(ordered@) =~= Seq::<int>::empty());
    }
    match collect_component_with_dependencies(
        &registry.components,
        component,
        &mut visiting,
        &mut ordered,
    ) {
        Ok(()) => {
            proof {
                lemma_resolve_each_once(graph_of(registry.components@), component@);
                assert forall|p: int| 0 <= p < ordered@.len() implies ordered@[p]
                    < registry.components@.len() by {
                    assert(places_of(ordered@)[p] == ordered@[p] as int);
                }
            }
            Ok(components_of(&registry.components, &ordered))
        },
        Err(error) => Err(error),
    }
}

/// `acc` followed by the places of `order[..n]` that are not in it yet.
pub open spec fn with_new(acc: Seq<int>, order: Seq<int>, n: int) -> Seq<int>
    decreases n,
{
    if n <= 0 {
        acc
    } else {
        let before = with_new(acc, order, n - 1);
        if before.contains(order[n - 1]) {
            before
        } else {
            before.push(order[n - 1])
        }
    }
}

/// The places of the first `n` requested slugs and of all they depend on:
/// each slug resolved by itself, the results put together in the order of
/// the requests, a place kept only where it is first seen.
pub open spec fn collected(g: Graph, requested: Seq<Seq<char>>, n: int) -> Result<
    Seq<int>,
    Seq<char>,
>
    decreases n,
{
    if n <= 0 {
        Ok(seq![])
    } else {
        match collected(g, requested, n - 1) {
            Err(missing) => Err(missing),
            Ok(acc) => match resolve(g, requested[n - 1]) {
                Err(missing) => Err(missing),
                Ok(order) => Ok(with_new(acc, order, order.len() as int)),
            },
        }
    }
}

/// A failure at one request is the failure of all the requests.
pub proof fn lemma_collected_failure(g: Graph, requested: Seq<Seq<char>>, m: int, n: int)
    requires
        0 <= m <= n,
        collected(g, requested, m) is Err,
    ensures
        collected(g, requested, n) == collected(g, requested, m),
    decreases n - m,
{
    if m < n {
        lemma_collected_failure(g, requested, m, n - 1);
    }
}

/// The requested components of the registry with all that they depend on,
/// each once, in the order in which they are first needed.
pub fn collect_components(registry: &Registry, requested_slugs: &Vec<String>) -> (r: Result<
    Vec<RegistryComponent>,
    RegistryError,
>)
    ensures
        match r {
            Ok(list) => collected(
                graph_of(registry.components@),
                chars::views(requested_slugs@),
                requested_slugs@.len() as int,
            ) matches Ok(order) && components_at(registry.components@, order, list@),
            Err(error) => error matches RegistryError::ComponentNotFound(missing) && collected(
                graph_of(registry.components@),
                chars::views(requested_slugs@),
                requested_slugs@.len() as int,
            ) == Err::<Seq<int>, Seq<char>>(missing@),
        },
{
    let ghost g = graph_of(registry.components@);
    let ghost requested = chars::views(requested_slugs@);
    let mut all: Vec<usize> = Vec::new();
    let mut n: usize = 0;
    assert(places_of(all@) =~= Seq::<int>::empty());
    while n < requested_slugs.len()
        invariant
            n <= requested_slugs.len(),
            g == graph_of(registry.components@),
            requested == chars::views(requested_slugs@),
            collected(g, requested, n as int) == Ok::<Seq<int>, Seq<char>>(places_of(all@)),
            forall|p: int| 0 <= p < all@.len() ==> all@[p] < registry.components@.len(),
        decreases requested_slugs.len() - n,
    {
        let mut visiting: Vec<usize> = Vec::new();
        let mut ordered: Vec<usize> = Vec::new();
        proof {
            assert(places_of(visiting@) =~= Seq::<int>::empty());
            assert(places_of(ordered@) =~= Seq::<int>::empty());
        }
        match collect_component_with_dependencies(
            &registry.components,
            requested_slugs[n].as_str(),
            &mut visiting,
            &mut ordered,
        ) {
            Ok(()) => {},
            Err(error) => {
                proof {
                    lemma_collected_failure(g, requested, n + 1, requested.len() as int);
                }
                return Err(error);
            },
        }
        let ghost acc = places_of(all@);
        let ghost order = places_of(ordered@);
        proof {
            lemma_resolve_each_once(g, requested[n as int]);
        }
        let mut k: usize = 0;
        while k < ordered.len()
            invariant
                k <= ordered.len(),
                order == places_of(ordered@),
                places_of(all@) == with_new(acc, order, k as int),
                forall|p: int| 0 <= p < all@.len() ==> all@[p] < registry.components@.len(),
                forall|p: int| 0 <= p < order.len() ==> 0 <= #[trigger] order[p] < g.len(),
                g.len() == registry.components@.len(),
            decreases ordered.len() - k,
        {
            let ghost before = places_of(all@);
            assert(order[k as int] == ordered@[k as int] as int);
            if !holds(&all, ordered[k]) {
                all.push(ordered[k]);
                assert(places_of(all@) =~= before.push(order[k as int]));
            }
            k += 1;
        }
        n += 1;
    }
    Ok(components_of(&registry.components, &all))
}

/// The entries of `entries[..n]` whose slug is requested, or those whose
/// slug is not, in their order.
pub open spec fn chosen(
    entries: Seq<RegistryComponent>,
    requested: Seq<Seq<char>>,
    wanted: bool,
    n: int,
) -> Seq<RegistryComponent>
    decreases n,
{
    if n <= 0 {
        seq![]
    } else {
        let before = chosen(entries, requested, wanted, n - 1);
        if requested.contains(entries[n - 1].slug@) == wanted {
            before.push(entries[n - 1])
        } else {
            before
        }
    }
}

/// Whether `items` holds the text `wanted`.
pub fn contains_text(items: &Vec<String>, wanted: &str) -> (r: bool)
    ensures
        r == chars::views(items@).contains(wanted@),
{
    let mut i: usize = 0;
    while i < items.len()
        invariant
            i <= items.len(),
            forall|j: int| 0 <= j < i ==> chars::views(items@)[j] != wanted@,
        decreases items.len() - i,
    {
        if same_text(items[i].as_str(), wanted) {
            assert(chars::views(items@)[i as int] == wanted@);
            return true;
        }
        i += 1;
    }
    false
}

/// Parts the resolved components into those that were requested and those
/// that are there only as dependencies, each part in the resolved order.
pub fn partition_requested(entries: Vec<RegistryComponent>, requested_slugs: &Vec<String>) -> (r: (
    Vec<RegistryComponent>,
    Vec<RegistryComponent>,
))
    ensures
        r.0@ == chosen(entries@, chars::views(requested_slugs@), true, entries@.len() as int),
        r.1@ == chosen(entries@, chars::views(requested_slugs@), false, entries@.len() as int),
{
    let ghost all = entries@;
    let ghost requested = chars::views(requested_slugs@);
    let mut requested_entries: Vec<RegistryComponent> = Vec::new();
    let mut dependency_entries: Vec<RegistryComponent> = Vec::new();
    assert(requested_entries@ =~= chosen(all, requested, true, 0));
    assert(dependency_entries@ =~= chosen(all, requested, false, 0));
    for entry in it: entries
        invariant
            it.seq() == all,
            requested == chars::views(requested_slugs@),
            requested_entries@ == chosen(all, requested, true, it.index() as int),
            dependency_entries@ == chosen(all, requested, false, it.index() as int),
    {
        if contains_text(requested_slugs, entry.slug.as_str()) {
            requested_entries.push(entry);
        } else {
            dependency_entries.push(entry);
        }
    }
    (requested_entries, dependency_entries)
}

/// The names under which the first `n` components are found: each slug and
/// each component's name, in lower case, with the slug they lead to.
pub open spec fn lookup_up_to(components: Seq<(String, Component)>, n: int) -> Seq<
    (Seq<char>, Seq<char>),
>
    decreases n,
{
    if n <= 0 {
        seq![]
    } else {
        let slug = components[n - 1].0@;
        let name = components[n - 1].1.name@;
        set_entry(
            set_entry(lookup_up_to(components, n - 1), text::lowercase(slug), slug),
            text::lowercase(name),
            slug,
        )
    }
}

/// `entries` with `key` set to `value`: in place where the key is present,
/// at the end where it is new.
pub open spec fn set_entry(
    entries: Seq<(Seq<char>, Seq<char>)>,
    key: Seq<char>,
    value: Seq<char>,
) -> Seq<(Seq<char>, Seq<char>)> {
    match position(crate::string_map::names(entries), key) {
        Some(i) => entries.update(i, (key, value)),
        None => entries.push((key, value)),
    }
}

/// The names under which the components of a registry are found.
pub fn build_component_lookup(components: &Vec<(String, Component)>) -> (r: StringMap)
    ensures
        r.wf(),
        r@ == lookup_up_to(components@, components@.len() as int),
{
    let mut found = StringMap::new();
    let mut n: usize = 0;
    while n < components.len()
        invariant
            n <= components.len(),
            found.wf(),
            found@ == lookup_up_to(components@, n as int),
        decreases components.len() - n,
    {
        let slug = &components[n].0;
        found.insert(chars::to_lowercase(slug.as_str()), slug.clone());
        found.insert(chars::to_lowercase(components[n].1.name.as_str()), slug.clone());
        n += 1;
    }
    found
}

/// The slugs that the first `n` names lead to, or the first name that
/// leads to none.
pub open spec fn requested_up_to(
    found: Seq<(Seq<char>, Seq<char>)>,
    names: Seq<Seq<char>>,
    n: int,
) -> Result<Seq<Seq<char>>, Seq<char>>
    decreases n,
{
    if n <= 0 {
        Ok(seq![])
    } else {
        match requested_up_to(found, names, n - 1) {
            Err(unknown) => Err(unknown),
            Ok(before) => match lookup(found, text::lowercase(names[n - 1])) {
                Some(slug) => Ok(before.push(slug)),
                None => Err(names[n - 1]),
            },
        }
    }
}

/// The first name that leads to no slug is the failure of all the names.
pub proof fn lemma_requested_failure(
    found: Seq<(Seq<char>, Seq<char>)>,
    names: Seq<Seq<char>>,
    m: int,
    n: int,
)
    requires
        0 <= m <= n,
        requested_up_to(found, names, m) is Err,
    ensures
        requested_up_to(found, names, n) == requested_up_to(found, names, m),
    decreases n - m,
{
    if m < n {
        lemma_requested_failure(found, names, m, n - 1);
    }
}

/// The slugs of the components that the user named, whatever the case of
/// the letters; or the first name that no component goes by.
pub fn resolve_requested_components(found: &StringMap, names: &Vec<String>) -> (r: Result<
    Vec<String>,
    String,
>)
    ensures
        match r {
            Ok(slugs) => requested_up_to(found@, chars::views(names@), names@.len() as int) == Ok::<
                Seq<Seq<char>>,
                Seq<char>,
            >(chars::views(slugs@)),
            Err(unknown) => requested_up_to(found@, chars::views(names@), names@.len() as int)
                == Err::<Seq<Seq<char>>, Seq<char>>(unknown@),
        },
{
    let mut slugs: Vec<String> = Vec::new();
    let mut n: usize = 0;
    assert(chars::views(slugs@) =~= Seq::<Seq<char>>::empty());
    while n < names.len()
        invariant
            n <= names.len(),
            requested_up_to(found@, chars::views(names@), n as int) == Ok::<
                Seq<Seq<char>>,
                Seq<char>,
            >(chars::views(slugs@)),
        decreases names.len() - n,
    {
        let lowered = chars::to_lowercase(names[n].as_str());
        let ghost before = chars::views(slugs@);
        match found.get(lowered.as_str()) {
            Some(slug) => {
                slugs.push(slug.clone());
                assert(chars::views(slugs@) =~= before.push(slug@));
            },
            None => {
                proof {
                    lemma_requested_failure(
                        found@,
                        chars::views(names@),
                        n + 1,
                        names@.len() as int,
                    );
                }
                return Err(names[n].clone());
            },
        }
        n += 1;
    }
    Ok(slugs)
}

} // verus!
