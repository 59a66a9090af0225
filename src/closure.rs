//! Transitive dependency closures over the unit graph, which feed the
//! `-L dependency=...` search paths of each unit. Units that run build
//! scripts are not followed.
//!
//! Sets of units are kept as marks indexed by unit position, and each
//! closure is handed out in ascending order: the emitted text states the
//! order of its search paths, which a hash set's walk would leave open.
use vstd::prelude::*;
use vstd::set_lib::{lemma_int_range, lemma_len_subset, set_int_range};
use crate::text::str_eq;
use crate::unit_graph::{is_run_spec, UnitGraph};

verus! {

/// Whether unit `i` depends directly on unit `j`, and `j` is a unit that
/// does not run a build script.
pub open spec fn edge(g: UnitGraph, i: int, j: int) -> bool {
    &&& 0 <= i < g.units@.len()
    &&& 0 <= j < g.units@.len()
    &&& !is_run_spec(g.units@[j])
    &&& edge_among(g, i, j, g.units@[i].dependencies@.len() as int)
}

/// Whether `p` is a path of at least one edge.
pub open spec fn is_path(g: UnitGraph, p: Seq<int>) -> bool {
    p.len() >= 2 && forall|k: int| 0 <= k < p.len() - 1 ==> #[trigger] edge(g, p[k], p[k + 1])
}

/// Whether `j` is in the transitive dependency closure of `i`: some path of
/// at least one edge leads from `i` to `j`.
pub open spec fn in_closure(g: UnitGraph, i: int, j: int) -> bool {
    exists|p: Seq<int>| #[trigger] is_path(g, p) && p[0] == i && p.last() == j
}

/// A path extended by one edge at its end.
proof fn lemma_extend(g: UnitGraph, p: Seq<int>, j: int)
    requires
        is_path(g, p),
        edge(g, p.last(), j),
    ensures
        is_path(g, p.push(j)),
        p.push(j)[0] == p[0],
        p.push(j).last() == j,
{
    let q = p.push(j);
    assert forall|k: int| 0 <= k < q.len() - 1 implies #[trigger] edge(g, q[k], q[k + 1]) by {
        if k < p.len() - 1 {
            assert(q[k] == p[k] && q[k + 1] == p[k + 1]);
        } else {
            assert(q[k] == p.last());
        }
    }
}

/// A single edge is a path.
proof fn lemma_edge_path(g: UnitGraph, i: int, j: int)
    requires
        edge(g, i, j),
    ensures
        in_closure(g, i, j),
{
    let p = seq![i, j];
    assert(is_path(g, p)) by {
        assert forall|k: int| 0 <= k < p.len() - 1 implies #[trigger] edge(g, p[k], p[k + 1]) by {
            assert(k == 0);
        }
    }
}

/// A closed set of marks holds the end of every path from a marked unit.
proof fn lemma_closed(g: UnitGraph, marked: Seq<bool>, p: Seq<int>)
    requires
        marked.len() == g.units@.len(),
        is_path(g, p),
        0 <= p[0] < marked.len(),
        marked[p[0]],
        forall|a: int, b: int| 0 <= a < marked.len() && marked[a] && #[trigger] edge(g, a, b) ==> marked[b],
    ensures
        0 <= p.last() < marked.len() && marked[p.last()],
    decreases p.len(),
{
    let n = p.len();
    let m = n - 2;
    assert(edge(g, p[m], p[m + 1]));
    if n == 2 {
    } else {
        let q = p.drop_last();
        assert forall|k: int| 0 <= k < q.len() - 1 implies #[trigger] edge(g, q[k], q[k + 1]) by {
            assert(edge(g, p[k], p[k + 1]));
        }
        lemma_closed(g, marked, q);
        assert(q.last() == p[m]);
    }
}

fn is_run_unit(g: &UnitGraph, j: usize) -> (r: bool)
    requires
        j < g.units@.len(),
    ensures
        r == is_run_spec(g.units@[j as int]),
{
    str_eq(g.units[j].mode.as_str(), "run-custom-build")
}

/// Whether `j` follows from the first dependencies of `i`.
pub open spec fn edge_among(g: UnitGraph, i: int, j: int, upto: int) -> bool {
    exists|k: int| 0 <= k < upto && #[trigger] g.units@[i].dependencies@[k].index == j
}

/// The marked units.
pub open spec fn marked_set(marked: Seq<bool>) -> Set<int> {
    Set::new(|x: int| 0 <= x < marked.len() && marked[x])
}

/// Marks `j` as reached, and pushes it, when it is a unit not yet marked
/// that runs no build script.
#[verifier::rlimit(100)]
fn visit(
    g: &UnitGraph,
    i: usize,
    from_unit: usize,
    j: usize,
    marked: &mut Vec<bool>,
    stack: &mut Vec<usize>,
    count: &mut usize,
)
    requires
        i < g.units@.len(),
        from_unit < g.units@.len(),
        from_unit == i || (old(marked)@[from_unit as int] && in_closure(*g, i as int, from_unit as int)),
        exists|q: int| 0 <= q < g.units@[from_unit as int].dependencies@.len() && #[trigger] g.units@[from_unit as int].dependencies@[q].index == j,
        old(marked)@.len() == g.units@.len(),
        marked_set(old(marked)@).finite(),
        marked_set(old(marked)@).len() == *old(count),
        forall|x: int| marked_set(old(marked)@).contains(x) <==> (0 <= x < g.units@.len() && old(marked)@[x]),
        forall|x: int| 0 <= x < g.units@.len() && old(marked)@[x] ==> in_closure(*g, i as int, x),
        forall|s: int| 0 <= s < old(stack)@.len() ==> old(stack)@[s] < g.units@.len() && old(marked)@[old(stack)@[s] as int],
        forall|s: int, t: int| 0 <= s < t < old(stack)@.len() ==> old(stack)@[s] != old(stack)@[t],
    ensures
        final(marked)@.len() == g.units@.len(),
        marked_set(final(marked)@).finite(),
        marked_set(final(marked)@).len() == *final(count),
        *final(count) <= g.units@.len(),
        *final(count) >= *old(count),
        final(stack)@.len() == old(stack)@.len() + (*final(count) - *old(count)),
        final(stack)@.subrange(0, old(stack)@.len() as int) == old(stack)@,
        forall|x: int| marked_set(final(marked)@).contains(x) <==> (0 <= x < g.units@.len() && final(marked)@[x]),
        forall|x: int| 0 <= x < g.units@.len() && final(marked)@[x] ==> in_closure(*g, i as int, x),
        forall|x: int| 0 <= x < g.units@.len() && old(marked)@[x] ==> final(marked)@[x],
        forall|s: int| 0 <= s < final(stack)@.len() ==> final(stack)@[s] < g.units@.len() && final(marked)@[final(stack)@[s] as int],
        forall|s: int, t: int| 0 <= s < t < final(stack)@.len() ==> final(stack)@[s] != final(stack)@[t],
        forall|x: int| old(marked)@[x] == false && final(marked)@[x] && 0 <= x < g.units@.len() ==> final(stack)@.contains(x as usize),
        edge(*g, from_unit as int, j as int) ==> final(marked)@[j as int],
        forall|s: int| old(stack)@.len() <= s < final(stack)@.len() ==> !old(marked)@[final(stack)@[s] as int],
{
    let n = g.units.len();
    proof {
        lemma_int_range(0, n as int);
        if *old(count) > n {
            lemma_len_subset(marked_set(marked@), set_int_range(0, n as int));
        }
        lemma_len_subset(marked_set(marked@), set_int_range(0, n as int));
    }
    if j < n && !is_run_unit(g, j) && !marked[j] {
        proof {
            assert(edge(*g, from_unit as int, j as int));
            if from_unit == i {
                lemma_edge_path(*g, i as int, j as int);
            } else {
                let w = choose|w: Seq<int>| #[trigger] is_path(*g, w) && w[0] == i as int && w.last() == from_unit as int;
                lemma_extend(*g, w, j as int);
                assert(is_path(*g, w.push(j as int)));
            }
            assert(!marked_set(marked@).contains(j as int));
            lemma_len_subset(marked_set(marked@).insert(j as int), set_int_range(0, n as int));
            assert(marked_set(marked@).insert(j as int).len() == marked_set(marked@).len() + 1);
            assert forall|s: int| 0 <= s < stack@.len() implies stack@[s] != j by {
                assert(marked@[stack@[s] as int]);
            }
        }
        let ghost before = marked@;
        marked.set(j, true);
        assert(marked_set(marked@) =~= marked_set(before).insert(j as int));
        stack.push(j);
        assert(stack@[stack@.len() - 1] == j);
        assert(stack@.contains(j));
        *count = *count + 1;
        assert(stack@.subrange(0, old(stack)@.len() as int) =~= old(stack)@);
    } else {
        assert(stack@.subrange(0, old(stack)@.len() as int) =~= old(stack)@);
    }
}

/// Whether `s` lists the units of the closure of `i` in ascending order.
pub open spec fn lists_closure(g: UnitGraph, i: int, s: Seq<usize>) -> bool {
    &&& forall|a: int, b: int| 0 <= a < b < s.len() ==> s[a] < s[b]
    &&& forall|j: usize| #[trigger] s.contains(j) <==> in_closure(g, i, j as int)
}

/// The units of the transitive dependency closure of `i`, ascending.
pub open spec fn closure_list(g: UnitGraph, i: int) -> Seq<usize> {
    choose|s: Seq<usize>| lists_closure(g, i, s)
}

/// Ascending sequences with the same elements are equal.
proof fn lemma_ascending_unique(a: Seq<usize>, b: Seq<usize>)
    requires
        forall|x: int, y: int| 0 <= x < y < a.len() ==> a[x] < a[y],
        forall|x: int, y: int| 0 <= x < y < b.len() ==> b[x] < b[y],
        forall|j: usize| #[trigger] a.contains(j) <==> b.contains(j),
    ensures
        a == b,
    decreases a.len(),
{
    if a.len() == 0 {
        if b.len() > 0 {
            assert(b.contains(b[0]));
            assert(a.contains(b[0]));
        }
        assert(a =~= b);
    } else if b.len() == 0 {
        assert(a.contains(a[0]));
    } else {
        assert(a.contains(a[0]));
        assert(b.contains(a[0]));
        assert(b.contains(b[0]));
        assert(a.contains(b[0]));
        let ka = choose|k: int| 0 <= k < a.len() && a[k] == b[0];
        let kb = choose|k: int| 0 <= k < b.len() && b[k] == a[0];
        if ka > 0 {
            assert(a[0] < a[ka]);
        }
        if kb > 0 {
            assert(b[0] < b[kb]);
        }
        assert(a[0] == b[0]);
        let ta = a.drop_first();
        let tb = b.drop_first();
        assert forall|j: usize| #[trigger] ta.contains(j) <==> tb.contains(j) by {
            if ta.contains(j) {
                let k = choose|k: int| 0 <= k < ta.len() && ta[k] == j;
                assert(a[k + 1] == j);
                assert(a.contains(j));
                assert(b.contains(j));
                let m = choose|m: int| 0 <= m < b.len() && b[m] == j;
                assert(j > a[0]);
                assert(m > 0);
                assert(tb[m - 1] == j);
            }
            if tb.contains(j) {
                let k = choose|k: int| 0 <= k < tb.len() && tb[k] == j;
                assert(b[k + 1] == j);
                assert(b.contains(j));
                assert(a.contains(j));
                let m = choose|m: int| 0 <= m < a.len() && a[m] == j;
                assert(j > b[0]);
                assert(m > 0);
                assert(ta[m - 1] == j);
            }
        }
        lemma_ascending_unique(ta, tb);
        assert(a =~= seq![a[0]] + ta);
        assert(b =~= seq![b[0]] + tb);
    }
}

/// The units in the transitive dependency closure of unit `i`, ascending
/// and without repetition.
#[verifier::rlimit(100)]
pub fn closure_of(g: &UnitGraph, i: usize) -> (r: Vec<usize>)
    requires
        i < g.units@.len(),
    ensures
        r@ == closure_list(*g, i as int),
        forall|a: int, b: int| 0 <= a < b < r@.len() ==> r@[a] < r@[b],
        forall|j: usize| #[trigger] r@.contains(j) <==> in_closure(*g, i as int, j as int),
        forall|j: int| in_closure(*g, i as int, j) ==> 0 <= j < g.units@.len(),
        forall|k: int| 0 <= k < r@.len() ==> r@[k] < g.units@.len(),
{
    let n = g.units.len();
    let mut marked: Vec<bool> = Vec::new();
    let mut z: usize = 0;
    while z < n
        invariant
            z <= n,
            n == g.units@.len(),
            marked@.len() == z,
            forall|x: int| 0 <= x < z ==> !marked@[x],
        decreases n - z,
    {
        marked.push(false);
        z = z + 1;
    }
    let mut stack: Vec<usize> = Vec::new();
    let mut count: usize = 0;
    assert(marked_set(marked@) =~= Set::<int>::empty());
    // The direct dependencies of `i` start the search.
    let ndeps = g.units[i].dependencies.len();
    let mut d: usize = 0;
    while d < ndeps
        invariant
            n == g.units@.len(),
            i < n,
            ndeps == g.units@[i as int].dependencies@.len(),
            d <= ndeps,
            marked@.len() == n,
            marked_set(marked@).finite(),
            marked_set(marked@).len() == count,
            count <= n,
            forall|x: int| marked_set(marked@).contains(x) <==> (0 <= x < n && marked@[x]),
            forall|x: int| 0 <= x < n && marked@[x] ==> in_closure(*g, i as int, x),
            forall|x: int| 0 <= x < n && marked@[x] ==> stack@.contains(x as usize),
            forall|s: int| 0 <= s < stack@.len() ==> stack@[s] < n && marked@[stack@[s] as int],
            forall|s: int, t: int| 0 <= s < t < stack@.len() ==> stack@[s] != stack@[t],
            forall|x: int| #[trigger] edge(*g, i as int, x) && edge_among(*g, i as int, x, d as int) ==> marked@[x],
        decreases ndeps - d,
    {
        let j = g.units[i].dependencies[d].index;
        let ghost old_marked = marked@;
        let ghost old_stack = stack@;
        visit(g, i, i, j, &mut marked, &mut stack, &mut count);
        proof {
            assert forall|x: int| 0 <= x < n && marked@[x] implies stack@.contains(x as usize) by {
                if old_marked[x] {
                    let s = choose|s: int| 0 <= s < old_stack.len() && old_stack[s] == x as usize;
                    assert(stack@[s] == old_stack[s]);
                }
            }
            assert forall|x: int| #[trigger] edge(*g, i as int, x) && edge_among(*g, i as int, x, d + 1) implies marked@[x] by {
                let q = choose|q: int| 0 <= q < d + 1 && #[trigger] g.units@[i as int].dependencies@[q].index == x;
                if q < d {
                    assert(edge_among(*g, i as int, x, d as int));
                }
            }
        }
        d = d + 1;
    }
    proof {
        assert forall|x: int| #[trigger] edge(*g, i as int, x) implies marked@[x] by {
            let q = choose|q: int| 0 <= q < g.units@[i as int].dependencies@.len() && #[trigger] g.units@[i as int].dependencies@[q].index == x;
            assert(edge_among(*g, i as int, x, ndeps as int));
        }
    }
    // Depth-first search; a unit is pushed once, when it is first marked.
    while stack.len() > 0
        invariant
            n == g.units@.len(),
            i < n,
            marked@.len() == n,
            marked_set(marked@).finite(),
            marked_set(marked@).len() == count,
            count <= n,
            forall|x: int| marked_set(marked@).contains(x) <==> (0 <= x < n && marked@[x]),
            forall|x: int| 0 <= x < n && marked@[x] ==> in_closure(*g, i as int, x),
            forall|s: int| 0 <= s < stack@.len() ==> stack@[s] < n && marked@[stack@[s] as int],
            forall|x: int| #[trigger] edge(*g, i as int, x) ==> marked@[x],
            forall|a: int, b: int|
                0 <= a < n && marked@[a] && !stack@.contains(a as usize) && #[trigger] edge(*g, a, b) ==> marked@[b],
            forall|s: int, t: int| 0 <= s < t < stack@.len() ==> stack@[s] != stack@[t],
        decreases n - count, stack@.len(),
    {
        let ghost full = stack@;
        let k = stack.pop().unwrap();
        let ghost popped = stack@;
        let ghost count0 = count;
        proof {
            assert(full == popped.push(k));
            assert(!popped.contains(k)) by {
                if popped.contains(k) {
                    let s = choose|s: int| 0 <= s < popped.len() && popped[s] == k;
                    assert(full[popped.len() as int] == k);
                    assert(full[s] == popped[s]);
                    assert(full[s] != full[popped.len() as int]);
                }
            }
            assert(marked@[k as int]);
        }
        let nk = g.units[k].dependencies.len();
        let mut d: usize = 0;
        while d < nk
            invariant
                n == g.units@.len(),
                i < n,
                k < n,
                marked@[k as int],
                in_closure(*g, i as int, k as int),
                nk == g.units@[k as int].dependencies@.len(),
                d <= nk,
                marked@.len() == n,
                marked_set(marked@).finite(),
                marked_set(marked@).len() == count,
                count <= n,
                count >= count0,
                stack@.len() == popped.len() + (count - count0),
                stack@.subrange(0, popped.len() as int) == popped,
                !popped.contains(k),
                forall|x: int| marked_set(marked@).contains(x) <==> (0 <= x < n && marked@[x]),
                forall|x: int| 0 <= x < n && marked@[x] ==> in_closure(*g, i as int, x),
                forall|s: int| 0 <= s < stack@.len() ==> stack@[s] < n && marked@[stack@[s] as int],
                forall|x: int| #[trigger] edge(*g, i as int, x) ==> marked@[x],
                forall|a: int, b: int|
                    0 <= a < n && marked@[a] && !stack@.contains(a as usize) && a != k && #[trigger] edge(*g, a, b) ==> marked@[b],
                forall|x: int| #[trigger] edge(*g, k as int, x) && edge_among(*g, k as int, x, d as int) ==> marked@[x],
                forall|s: int, t: int| 0 <= s < t < stack@.len() ==> stack@[s] != stack@[t],
                !stack@.contains(k),
            decreases nk - d,
        {
            let j = g.units[k].dependencies[d].index;
            let ghost old_marked = marked@;
            let ghost old_stack = stack@;
            visit(g, i, k, j, &mut marked, &mut stack, &mut count);
            proof {
                assert forall|a: int, b: int|
                    0 <= a < n && marked@[a] && !stack@.contains(a as usize) && a != k && #[trigger] edge(*g, a, b) implies marked@[b] by {
                    if old_marked[a] {
                        if old_stack.contains(a as usize) {
                            let s = choose|s: int| 0 <= s < old_stack.len() && old_stack[s] == a as usize;
                            assert(stack@[s] == old_stack[s]);
                        }
                    }
                }
                assert(!stack@.contains(k)) by {
                    if stack@.contains(k) {
                        let s = choose|s: int| 0 <= s < stack@.len() && stack@[s] == k;
                        if s < old_stack.len() {
                            assert(stack@[s] == old_stack[s]);
                        } else {
                            assert(!old_marked[k as int]);
                        }
                    }
                }
                assert(stack@.subrange(0, popped.len() as int) =~= popped) by {
                    assert(stack@.subrange(0, old_stack.len() as int) == old_stack);
                    assert forall|s: int| 0 <= s < popped.len() implies stack@[s] == popped[s] by {
                        assert(stack@[s] == old_stack[s]);
                        assert(old_stack.subrange(0, popped.len() as int)[s] == popped[s]);
                    }
                }
                assert forall|x: int| #[trigger] edge(*g, k as int, x) && edge_among(*g, k as int, x, d + 1) implies marked@[x] by {
                    let q = choose|q: int| 0 <= q < d + 1 && #[trigger] g.units@[k as int].dependencies@[q].index == x;
                    if q < d {
                        assert(edge_among(*g, k as int, x, d as int));
                    }
                }
            }
            d = d + 1;
        }
        proof {
            assert forall|b: int| #[trigger] edge(*g, k as int, b) implies marked@[b] by {
                let q = choose|q: int| 0 <= q < g.units@[k as int].dependencies@.len() && #[trigger] g.units@[k as int].dependencies@[q].index == b;
                assert(edge_among(*g, k as int, b, nk as int));
            }
        }
    }
    proof {
        assert forall|j: int| in_closure(*g, i as int, j) implies 0 <= j < n && marked@[j] by {
            let w = choose|w: Seq<int>| #[trigger] is_path(*g, w) && w[0] == i as int && w.last() == j;
            let z0: int = 0;
            assert(edge(*g, w[z0], w[z0 + 1]));
            if w.len() > 2 {
                let q = w.subrange(1, w.len() as int);
                assert forall|k: int| 0 <= k < q.len() - 1 implies #[trigger] edge(*g, q[k], q[k + 1]) by {
                    let kk = k + 1;
                    assert(edge(*g, w[kk], w[kk + 1]));
                }
                lemma_closed(*g, marked@, q);
            }
        }
    }
    let mut out: Vec<usize> = Vec::new();
    let mut x: usize = 0;
    while x < n
        invariant
            x <= n,
            n == g.units@.len(),
            marked@.len() == n,
            forall|a: int, b: int| 0 <= a < b < out@.len() ==> out@[a] < out@[b],
            forall|k: int| 0 <= k < out@.len() ==> out@[k] < x,
            forall|y: int| 0 <= y < x ==> (out@.contains(y as usize) <==> marked@[y]),
            forall|y: usize| x <= y ==> !#[trigger] out@.contains(y),
        decreases n - x,
    {
        let ghost before = out@;
        if marked[x] {
            out.push(x);
        }
        proof {
            assert forall|y: int| 0 <= y < x + 1 implies (out@.contains(y as usize) <==> marked@[y]) by {
                if out@.contains(y as usize) {
                    let k = choose|k: int| 0 <= k < out@.len() && out@[k] == y as usize;
                    if k < before.len() {
                        assert(before[k] == out@[k]);
                        assert(before.contains(y as usize));
                    }
                }
                if marked@[y] && y < x {
                    assert(before.contains(y as usize));
                    let k = choose|k: int| 0 <= k < before.len() && before[k] == y as usize;
                    assert(out@[k] == y as usize);
                    assert(out@.contains(y as usize));
                }
                if marked@[y] && y == x {
                    assert(out@[out@.len() - 1] == x);
                    assert(out@.contains(y as usize));
                }
                if out@.contains(y as usize) && y < x {
                    let k = choose|k: int| 0 <= k < out@.len() && out@[k] == y as usize;
                    if k < before.len() {
                        assert(before[k] == out@[k]);
                        assert(before.contains(y as usize));
                        assert(marked@[y]);
                    } else {
                        assert(out@[k] == x);
                    }
                }
            }
            assert forall|y: usize| x + 1 <= y implies !#[trigger] out@.contains(y) by {
                if out@.contains(y) {
                    let k = choose|k: int| 0 <= k < out@.len() && out@[k] == y;
                    if k < before.len() {
                        assert(before[k] == out@[k]);
                        assert(before.contains(y));
                    }
                }
            }
        }
        x = x + 1;
    }
    proof {
        assert forall|j: usize| #[trigger] out@.contains(j) <==> in_closure(*g, i as int, j as int) by {
            if out@.contains(j) {
                if j >= n {
                    assert(!out@.contains(j));
                }
            }
            if in_closure(*g, i as int, j as int) {
                assert(marked@[j as int]);
            }
        }
        assert forall|k: int| 0 <= k < out@.len() implies out@[k] < g.units@.len() by {
            assert(out@[k] < x);
        }
        assert(lists_closure(*g, i as int, out@));
        let c = closure_list(*g, i as int);
        assert(lists_closure(*g, i as int, c));
        assert forall|j: usize| #[trigger] out@.contains(j) <==> c.contains(j) by {
            assert(out@.contains(j) <==> in_closure(*g, i as int, j as int));
            assert(c.contains(j) <==> in_closure(*g, i as int, j as int));
        }
        lemma_ascending_unique(out@, c);
    }
    out
}

} // verus!
