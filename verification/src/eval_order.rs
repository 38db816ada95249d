//! The order in which the parameters of a model are evaluated.
//!
//! Parameters are visited in declaration order; before a parameter is
//! placed, every parameter it depends on is placed (depth first, in the
//! order the dependencies are listed). Dependencies that are not parameters
//! of the model (builtin values) are skipped.
use vstd::prelude::*;

verus! {

/// A parameter of a model as the evaluation order sees it: its name and the
/// names of the parameters and builtin values its value depends on.
#[derive(Debug)]
pub struct ParamDeps {
    pub name: String,
    pub dependencies: Vec<String>,
}

/// The parameters of a model, in declaration order.
pub type ParamTable = Vec<ParamDeps>;

/// No two parameters of a model share a name (a model's parameters are
/// keyed by name).
pub open spec fn distinct_names(t: Seq<ParamDeps>) -> bool {
    forall|a: int, b: int| 0 <= a < b < t.len() ==> t[a].name@ != t[b].name@
}

/// The first index at or after `i` whose parameter is named `name`, or -1.
pub open spec fn find_from(t: Seq<ParamDeps>, name: Seq<char>, i: int) -> int
    decreases t.len() - i,
{
    if 0 <= i < t.len() {
        if t[i].name@ == name {
            i
        } else {
            find_from(t, name, i + 1)
        }
    } else {
        -1
    }
}

/// The index of the parameter named `name`, or -1 when there is none.
pub open spec fn find_param(t: Seq<ParamDeps>, name: Seq<char>) -> int {
    find_from(t, name, 0)
}

/// The number of dependencies of parameter `p`.
pub open spec fn dep_count(t: Seq<ParamDeps>, p: int) -> int {
    t[p].dependencies@.len() as int
}

/// The index of the `j`-th dependency of parameter `p`, or -1 when it is not
/// a parameter.
pub open spec fn dep_at(t: Seq<ParamDeps>, p: int, j: int) -> int {
    find_param(t, t[p].dependencies@[j]@)
}

/// `rank` decreases along every dependency between parameters.
pub open spec fn valid_rank(t: Seq<ParamDeps>, rank: Seq<nat>) -> bool {
    &&& rank.len() == t.len()
    &&& forall|p: int, j: int|
        0 <= p < t.len() && 0 <= j < dep_count(t, p) && dep_at(t, p, j) >= 0 ==> #[trigger] rank[dep_at(
            t,
            p,
            j,
        )] < rank[p]
}

/// The dependencies between parameters have no cycle.
pub open spec fn acyclic(t: Seq<ParamDeps>) -> bool {
    exists|rank: Seq<nat>| valid_rank(t, rank)
}

/// Places parameter `p` after `order`: its unplaced dependencies first, then
/// `p` itself.
pub open spec fn visit(t: Seq<ParamDeps>, rank: Seq<nat>, p: int, order: Seq<int>) -> Seq<int>
    decreases rank[p], dep_count(t, p) + 1,
{
    if 0 <= p < t.len() {
        visit_deps(t, rank, p, 0, order).push(p)
    } else {
        order
    }
}

/// Places the unplaced dependencies `j..` of parameter `p` after `order`.
pub open spec fn visit_deps(t: Seq<ParamDeps>, rank: Seq<nat>, p: int, j: int, order: Seq<int>) -> Seq<int>
    decreases rank[p], dep_count(t, p) - j,
{
    if 0 <= p < t.len() && 0 <= j < dep_count(t, p) {
        let d = dep_at(t, p, j);
        let o2 = if 0 <= d < t.len() && !order.contains(d) && rank[d] < rank[p] {
            visit(t, rank, d, order)
        } else {
            order
        };
        visit_deps(t, rank, p, j + 1, o2)
    } else {
        order
    }
}

/// Places the unplaced parameters `i..` after `order`.
pub open spec fn order_from(t: Seq<ParamDeps>, rank: Seq<nat>, i: int, order: Seq<int>) -> Seq<int>
    decreases t.len() - i,
{
    if 0 <= i < t.len() {
        let o2 = if order.contains(i) {
            order
        } else {
            visit(t, rank, i, order)
        };
        order_from(t, rank, i + 1, o2)
    } else {
        order
    }
}

/// The evaluation order, as indices into the table.
pub open spec fn evaluation_order(t: Seq<ParamDeps>, rank: Seq<nat>) -> Seq<int> {
    order_from(t, rank, 0, seq![])
}

/// The names of the parameters at the given indices.
pub open spec fn names_at(t: Seq<ParamDeps>, order: Seq<int>) -> Seq<Seq<char>> {
    order.map_values(|i: int| t[i].name@)
}

// ------------------------------------------------------------------------
// Properties of placement
// ------------------------------------------------------------------------

/// Every element of `order` is a parameter, no parameter occurs twice, and
/// each parameter's dependencies occur before it.
pub open spec fn closed(t: Seq<ParamDeps>, order: Seq<int>) -> bool {
    &&& forall|k: int| 0 <= k < order.len() ==> 0 <= #[trigger] order[k] < t.len()
    &&& forall|a: int, b: int| 0 <= a < b < order.len() ==> order[a] != order[b]
    &&& forall|k: int, j: int|
        0 <= k < order.len() && 0 <= j < dep_count(t, order[k]) && dep_at(t, order[k], j) >= 0
            ==> #[trigger] order.take(k).contains(dep_at(t, order[k], j))
}

pub proof fn lemma_find_from(t: Seq<ParamDeps>, name: Seq<char>, i: int)
    requires
        0 <= i,
    ensures
        -1 <= find_from(t, name, i) < t.len(),
        find_from(t, name, i) >= 0 ==> t[find_from(t, name, i)].name@ == name,
    decreases t.len() - i,
{
    if 0 <= i < t.len() && t[i].name@ != name {
        lemma_find_from(t, name, i + 1);
    }
}

pub proof fn lemma_dep_at(t: Seq<ParamDeps>, p: int, j: int)
    ensures
        -1 <= dep_at(t, p, j) < t.len(),
{
    lemma_find_from(t, t[p].dependencies@[j]@, 0);
}

/// Extending `order` keeps it as a prefix.
pub open spec fn extends(order: Seq<int>, r: Seq<int>) -> bool {
    order.len() <= r.len() && r.take(order.len() as int) == order
}

pub proof fn lemma_closed_push(t: Seq<ParamDeps>, order: Seq<int>, p: int)
    requires
        closed(t, order),
        0 <= p < t.len(),
        !order.contains(p),
        forall|j: int| 0 <= j < dep_count(t, p) && dep_at(t, p, j) >= 0 ==> order.contains(#[trigger] dep_at(t, p, j)),
    ensures
        closed(t, order.push(p)),
{
    let o = order.push(p);
    assert(o.take(order.len() as int) =~= order);
    assert forall|k: int, j: int|
        0 <= k < o.len() && 0 <= j < dep_count(t, o[k]) && dep_at(t, o[k], j) >= 0 implies #[trigger] o.take(
        k,
    ).contains(dep_at(t, o[k], j)) by {
        if k < order.len() {
            assert(o.take(k) =~= order.take(k));
        } else {
            assert(order.contains(dep_at(t, p, j)));
        }
    }
    assert forall|a: int, b: int| 0 <= a < b < o.len() implies o[a] != o[b] by {
        if b == order.len() {
            assert(o[a] == order[a]);
        }
    }
}

/// Visiting `p` places it after `order`, keeps `order` as a prefix, keeps the
/// order closed, and adds only parameters whose rank is at most `p`'s.
pub proof fn lemma_visit(t: Seq<ParamDeps>, rank: Seq<nat>, p: int, order: Seq<int>)
    requires
        valid_rank(t, rank),
        closed(t, order),
        0 <= p < t.len(),
        !order.contains(p),
    ensures
        closed(t, visit(t, rank, p, order)),
        extends(order, visit(t, rank, p, order)),
        visit(t, rank, p, order).contains(p),
        forall|k: int|
            order.len() <= k < visit(t, rank, p, order).len() ==> rank[#[trigger] visit(t, rank, p, order)[k]]
                <= rank[p],
    decreases rank[p], dep_count(t, p) + 1,
{
    lemma_visit_deps(t, rank, p, 0, order);
    let r0 = visit_deps(t, rank, p, 0, order);
    assert(!r0.contains(p)) by {
        if r0.contains(p) {
            let k = choose|k: int| 0 <= k < r0.len() && r0[k] == p;
            if k < order.len() {
                assert(r0.take(order.len() as int)[k] == p);
            } else {
                assert(rank[r0[k]] < rank[p]);
            }
        }
    }
    lemma_closed_push(t, r0, p);
    let r = r0.push(p);
    assert(r.take(order.len() as int) =~= r0.take(order.len() as int));
    assert(r[r0.len() as int] == p);
}

/// Visiting dependencies `j..` of `p` keeps `order` as a prefix and closed,
/// adds only parameters whose rank is below `p`'s, and places every one of
/// `p`'s dependencies that was placed before or is among `j..`.
pub proof fn lemma_visit_deps(t: Seq<ParamDeps>, rank: Seq<nat>, p: int, j: int, order: Seq<int>)
    requires
        valid_rank(t, rank),
        closed(t, order),
        0 <= p < t.len(),
        0 <= j <= dep_count(t, p),
        forall|jj: int| 0 <= jj < j && dep_at(t, p, jj) >= 0 ==> order.contains(#[trigger] dep_at(t, p, jj)),
    ensures
        closed(t, visit_deps(t, rank, p, j, order)),
        extends(order, visit_deps(t, rank, p, j, order)),
        forall|k: int|
            order.len() <= k < visit_deps(t, rank, p, j, order).len() ==> rank[#[trigger] visit_deps(
                t,
                rank,
                p,
                j,
                order,
            )[k]] < rank[p],
        forall|jj: int|
            0 <= jj < dep_count(t, p) && dep_at(t, p, jj) >= 0 ==> visit_deps(t, rank, p, j, order).contains(
                #[trigger] dep_at(t, p, jj),
            ),
    decreases rank[p], dep_count(t, p) - j,
{
    let r = visit_deps(t, rank, p, j, order);
    if j < dep_count(t, p) {
        let d = dep_at(t, p, j);
        lemma_dep_at(t, p, j);
        let o2 = if 0 <= d < t.len() && !order.contains(d) && rank[d] < rank[p] {
            visit(t, rank, d, order)
        } else {
            order
        };
        if 0 <= d < t.len() && !order.contains(d) && rank[d] < rank[p] {
            lemma_visit(t, rank, d, order);
        }
        assert(d >= 0 ==> rank[d] < rank[p]);
        assert forall|jj: int| 0 <= jj < j + 1 && dep_at(t, p, jj) >= 0 implies o2.contains(
            #[trigger] dep_at(t, p, jj),
        ) by {
            if jj < j {
                let x = dep_at(t, p, jj);
                assert(order.contains(x));
                let m = choose|m: int| 0 <= m < order.len() && order[m] == x;
                assert(o2.take(order.len() as int)[m] == x);
                assert(o2[m] == x);
            }
        }
        lemma_visit_deps(t, rank, p, j + 1, o2);
        assert(r.take(order.len() as int) =~= r.take(o2.len() as int).take(order.len() as int));
        assert forall|k: int| order.len() <= k < r.len() implies rank[#[trigger] r[k]] < rank[p] by {
            if k < o2.len() {
                assert(r[k] == r.take(o2.len() as int)[k]);
                assert(r[k] == o2[k]);
            }
        }
    } else {
        assert(r.take(order.len() as int) =~= order);
        assert forall|jj: int| 0 <= jj < dep_count(t, p) && dep_at(t, p, jj) >= 0 implies r.contains(
            #[trigger] dep_at(t, p, jj),
        ) by {
        }
    }
}

/// Placing the parameters `i..` keeps `order` as a prefix and closed, and
/// places every parameter.
pub proof fn lemma_order_from(t: Seq<ParamDeps>, rank: Seq<nat>, i: int, order: Seq<int>)
    requires
        valid_rank(t, rank),
        closed(t, order),
        0 <= i <= t.len(),
        forall|q: int| 0 <= q < i ==> order.contains(q),
    ensures
        closed(t, order_from(t, rank, i, order)),
        forall|q: int| 0 <= q < t.len() ==> order_from(t, rank, i, order).contains(q),
    decreases t.len() - i,
{
    if i < t.len() {
        let o2 = if order.contains(i) {
            order
        } else {
            visit(t, rank, i, order)
        };
        if !order.contains(i) {
            lemma_visit(t, rank, i, order);
            assert forall|q: int| 0 <= q < i + 1 implies o2.contains(q) by {
                if q < i {
                    assert(order.contains(q));
                    let m = choose|m: int| 0 <= m < order.len() && order[m] == q;
                    assert(o2.take(order.len() as int)[m] == q);
                    assert(o2[m] == q);
                }
            }
        }
        lemma_order_from(t, rank, i + 1, o2);
    }
}

/// The evaluation order places every parameter exactly once, and places
/// each parameter after every parameter it depends on.
pub proof fn law_evaluation_order(t: Seq<ParamDeps>, rank: Seq<nat>)
    requires
        valid_rank(t, rank),
    ensures
        closed(t, evaluation_order(t, rank)),
        evaluation_order(t, rank).len() == t.len(),
        forall|q: int| 0 <= q < t.len() ==> evaluation_order(t, rank).contains(q),
{
    let e: Seq<int> = seq![];
    lemma_order_from(t, rank, 0, e);
    let o = evaluation_order(t, rank);
    // a duplicate-free sequence of indices below `t.len()` that contains all
    // of them has exactly `t.len()` elements
    let s = o.to_set();
    assert(s =~= vstd::set_lib::set_int_range(0, t.len() as int)) by {
        assert forall|q: int| s.contains(q) implies 0 <= q < t.len() by {
            let m = choose|m: int| 0 <= m < o.len() && o[m] == q;
        }
    }
    assert(o.no_duplicates());
    o.unique_seq_to_set();
    vstd::set_lib::lemma_int_range(0, t.len() as int);
}


/// With distinct parameter names, the evaluation order names every
/// parameter exactly once.
pub proof fn law_each_name_once(t: Seq<ParamDeps>, rank: Seq<nat>)
    requires
        valid_rank(t, rank),
        distinct_names(t),
    ensures
        names_at(t, evaluation_order(t, rank)).no_duplicates(),
        names_at(t, evaluation_order(t, rank)).len() == t.len(),
        forall|q: int| 0 <= q < t.len() ==> names_at(t, evaluation_order(t, rank)).contains(#[trigger] t[q].name@),
{
    law_evaluation_order(t, rank);
    let o = evaluation_order(t, rank);
    let ns = names_at(t, o);
    assert forall|a: int, b: int| 0 <= a < ns.len() && 0 <= b < ns.len() && a != b implies ns[a] != ns[b] by {
        if a < b {
            assert(o[a] != o[b]);
        } else {
            assert(o[b] != o[a]);
        }
    }
    assert forall|q: int| 0 <= q < t.len() implies ns.contains(#[trigger] t[q].name@) by {
        assert(o.contains(q));
        let m = choose|m: int| 0 <= m < o.len() && o[m] == q;
        assert(ns[m] == t[q].name@);
    }
}

// ------------------------------------------------------------------------
// Computation
// ------------------------------------------------------------------------

/// The indices in `order` as integers.
pub open spec fn as_ints(order: Seq<usize>) -> Seq<int> {
    order.map_values(|x: usize| x as int)
}

/// A rank that witnesses that the dependencies have no cycle.
pub open spec fn some_rank(t: Seq<ParamDeps>) -> Seq<nat> {
    choose|rank: Seq<nat>| valid_rank(t, rank)
}

/// The index of the parameter named `name`.
fn find_param_index(t: &[ParamDeps], name: &String) -> (r: Option<usize>)
    ensures
        match r {
            Some(i) => i as int == find_param(t@, name@) && i < t@.len(),
            None => find_param(t@, name@) == -1,
        },
{
    let mut i: usize = 0;
    while i < t.len()
        invariant
            i <= t@.len(),
            find_from(t@, name@, i as int) == find_param(t@, name@),
        decreases t@.len() - i,
    {
        if t[i].name == *name {
            return Some(i);
        }
        i = i + 1;
    }
    None
}

/// `visited` records exactly the parameters placed in `order`.
pub open spec fn tracks(visited: Seq<bool>, order: Seq<usize>, n: int) -> bool {
    &&& visited.len() == n
    &&& forall|x: int| 0 <= x < n ==> visited[x] == as_ints(order).contains(x)
}

proof fn lemma_tracks_push(visited: Seq<bool>, order: Seq<usize>, n: int, p: usize)
    requires
        tracks(visited, order, n),
        0 <= p < n,
    ensures
        tracks(visited.update(p as int, true), order.push(p), n),
        as_ints(order.push(p)) == as_ints(order).push(p as int),
{
    assert(as_ints(order.push(p)) =~= as_ints(order).push(p as int));
    let v2 = visited.update(p as int, true);
    assert forall|x: int| 0 <= x < n implies v2[x] == as_ints(order.push(p)).contains(x) by {
        if x == p {
            assert(as_ints(order.push(p))[order.len() as int] == x);
        } else {
            if as_ints(order.push(p)).contains(x) {
                let m = choose|m: int| 0 <= m < order.len() + 1 && as_ints(order.push(p))[m] == x;
                assert(as_ints(order)[m] == x);
            }
            if as_ints(order).contains(x) {
                let m = choose|m: int| 0 <= m < order.len() && as_ints(order)[m] == x;
                assert(as_ints(order.push(p))[m] == x);
            }
        }
    }
}

/// Places parameter `p`: its unplaced dependencies first, then `p`.
fn process_parameter_dependencies(
    t: &[ParamDeps],
    p: usize,
    visited: &mut Vec<bool>,
    order: &mut Vec<usize>,
    Ghost(rank): Ghost<Seq<nat>>,
)
    requires
        valid_rank(t@, rank),
        p < t@.len(),
        tracks(old(visited)@, old(order)@, t@.len() as int),
        !as_ints(old(order)@).contains(p as int),
    ensures
        tracks(final(visited)@, final(order)@, t@.len() as int),
        as_ints(final(order)@) == visit(t@, rank, p as int, as_ints(old(order)@)),
    decreases rank[p as int],
{
    let ghost order0 = as_ints(order@);
    let deps = &t[p].dependencies;
    let mut j: usize = 0;
    while j < deps.len()
        invariant
            valid_rank(t@, rank),
            p < t@.len(),
            deps == t@[p as int].dependencies,
            j <= deps@.len(),
            tracks(visited@, order@, t@.len() as int),
            visit_deps(t@, rank, p as int, 0, order0) == visit_deps(t@, rank, p as int, j as int, as_ints(order@)),
        decreases deps@.len() - j,
    {
        let ghost cur = as_ints(order@);
        proof {
            lemma_dep_at(t@, p as int, j as int);
        }
        match find_param_index(t, &deps[j]) {
            Some(d) => {
                if !visited[d] {
                    assert(rank[d as int] < rank[p as int]);
                    process_parameter_dependencies(t, d, visited, order, Ghost(rank));
                }
            },
            None => {},
        }
        j = j + 1;
    }
    let ghost before = order@;
    let ghost vbefore = visited@;
    order.push(p);
    visited.set(p, true);
    proof {
        lemma_tracks_push(vbefore, before, t@.len() as int, p);
    }
}

/// The order in which the parameters are evaluated: every parameter after
/// the parameters it depends on.
///
/// The dependencies must have no cycle.
pub fn get_evaluation_order(parameters: &ParamTable) -> (r: Vec<String>)
    requires
        acyclic(parameters@),
        distinct_names(parameters@),
    ensures
        r@.map_values(|s: String| s@) == names_at(parameters@, evaluation_order(parameters@, some_rank(parameters@))),
        r@.map_values(|s: String| s@).no_duplicates(),
        closed(parameters@, evaluation_order(parameters@, some_rank(parameters@))),
        evaluation_order(parameters@, some_rank(parameters@)).len() == parameters@.len(),
        forall|q: int|
            0 <= q < parameters@.len() ==> evaluation_order(parameters@, some_rank(parameters@)).contains(q),
{
    let ghost rank = some_rank(parameters@);
    proof {
        law_evaluation_order(parameters@, rank);
        law_each_name_once(parameters@, rank);
    }
    let t = parameters.as_slice();
    let n = t.len();
    let mut visited: Vec<bool> = Vec::new();
    let mut k: usize = 0;
    while k < n
        invariant
            n == t@.len(),
            k <= n,
            visited@.len() == k,
            forall|x: int| 0 <= x < k ==> !visited@[x],
        decreases n - k,
    {
        visited.push(false);
        k = k + 1;
    }
    let mut order: Vec<usize> = Vec::new();
    proof {
        assert(as_ints(order@) =~= Seq::<int>::empty());
    }
    let mut i: usize = 0;
    while i < n
        invariant
            n == t@.len(),
            t@ == parameters@,
            valid_rank(t@, rank),
            i <= n,
            tracks(visited@, order@, n as int),
            evaluation_order(t@, rank) == order_from(t@, rank, i as int, as_ints(order@)),
        decreases n - i,
    {
        if !visited[i] {
            process_parameter_dependencies(t, i, &mut visited, &mut order, Ghost(rank));
        }
        i = i + 1;
    }
    proof {
        assert(as_ints(order@) == evaluation_order(t@, rank));
        assert forall|x: int| 0 <= x < order@.len() implies order@[x] < t@.len() by {
            assert(as_ints(order@)[x] == order@[x] as int);
        }
    }
    let mut names: Vec<String> = Vec::new();
    let mut m: usize = 0;
    while m < order.len()
        invariant
            m <= order@.len(),
            t@ == parameters@,
            forall|x: int| 0 <= x < order@.len() ==> order@[x] < t@.len(),
            names@.len() == m,
            forall|x: int| 0 <= x < m ==> #[trigger] names@[x]@ == t@[order@[x] as int].name@,
        decreases order@.len() - m,
    {
        names.push(t[order[m]].name.clone());
        m = m + 1;
    }
    proof {
        assert(names@.map_values(|s: String| s@) =~= names_at(parameters@, as_ints(order@)));
    }
    names
}

} // verus!
