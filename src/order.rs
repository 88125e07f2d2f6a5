//! Dependency-respecting ordering of graph nodes: a topological order that
//! breaks ties by declaration order, or proof that none exists.
//!
//! A graph is given by its dependency lists: `deps[i]` holds the nodes that
//! node `i` depends on, which must come before it.

use vstd::prelude::*;

verus! {

/// Every dependency names a node of the graph.
pub open spec fn deps_wf(deps: Seq<Seq<usize>>) -> bool {
    forall|i: int, k: int|
        0 <= i < deps.len() && 0 <= k < deps[i].len() ==> (#[trigger] deps[i][k]) < deps.len()
}

/// Node `j` can be placed after `prefix`: it is not in it yet, and all its
/// dependencies are.
pub open spec fn ready(deps: Seq<Seq<usize>>, prefix: Seq<usize>, j: usize) -> bool {
    &&& !prefix.contains(j)
    &&& forall|k: int| 0 <= k < deps[j as int].len() ==> prefix.contains(#[trigger] deps[j as int][k])
}

/// Position `p` of `order` holds the first node, in declaration order, that
/// can be placed after the nodes before it.
pub open spec fn stable_step(deps: Seq<Seq<usize>>, order: Seq<usize>, p: int) -> bool {
    &&& order[p] < deps.len()
    &&& ready(deps, order.take(p), order[p])
    &&& forall|j: usize| j < order[p] ==> !ready(deps, order.take(p), j)
}

/// The order the linearizer produces: at each step the first ready node in
/// declaration order, until every node is placed.
pub open spec fn is_stable_order(deps: Seq<Seq<usize>>, order: Seq<usize>) -> bool {
    &&& forall|p: int| 0 <= p < order.len() ==> #[trigger] stable_step(deps, order, p)
    &&& forall|j: usize| j < deps.len() ==> order.contains(j)
}

/// Position `p` holds a node of the graph, and each of that node's
/// dependencies stands somewhere before it.
pub open spec fn deps_before(deps: Seq<Seq<usize>>, order: Seq<usize>, p: int) -> bool {
    &&& order[p] < deps.len()
    &&& forall|k: int|
        0 <= k < deps[order[p] as int].len() ==> order.take(p).contains(#[trigger] deps[order[p] as int][k])
}

/// A valid topological order: it lists every node, and for every
/// dependency edge `a -> b`, `b` appears before `a`.
pub open spec fn is_topological(deps: Seq<Seq<usize>>, order: Seq<usize>) -> bool {
    &&& forall|j: usize| j < deps.len() ==> order.contains(j)
    &&& forall|p: int| 0 <= p < order.len() ==> #[trigger] deps_before(deps, order, p)
}

/// What the linearizer returns: the stable order when there is a valid
/// order at all, and an error exactly when there is none.
pub open spec fn order_outcome(deps: Seq<Seq<usize>>, r: Result<Vec<usize>, Vec<usize>>) -> bool {
    match r {
        Ok(order) => is_stable_order(deps, order@),
        Err(stuck) => (forall|o: Seq<usize>| !#[trigger] is_topological(deps, o)) && stuck@.len() > 0
            && forall|i: int| 0 <= i < stuck@.len() ==> #[trigger] stuck@[i] < deps.len(),
    }
}

pub open spec fn count_false(s: Seq<bool>) -> nat
    decreases s.len(),
{
    if s.len() == 0 {
        0
    } else {
        count_false(s.drop_last()) + if s.last() {
            0nat
        } else {
            1nat
        }
    }
}

proof fn lemma_count_false_update(s: Seq<bool>, j: int)
    requires
        0 <= j < s.len(),
        !s[j],
    ensures
        count_false(s.update(j, true)) + 1 == count_false(s),
    decreases s.len(),
{
    let t = s.update(j, true);
    if j < s.len() - 1 {
        assert(t.drop_last() =~= s.drop_last().update(j, true));
        lemma_count_false_update(s.drop_last(), j);
    } else {
        assert(t.drop_last() =~= s.drop_last());
    }
}

proof fn lemma_first_position(order: Seq<usize>, s: spec_fn(usize) -> bool, p: int) -> (r: int)
    requires
        0 <= p < order.len(),
        s(order[p]),
    ensures
        0 <= r <= p,
        s(order[r]),
        forall|q: int| 0 <= q < r ==> !s(#[trigger] order[q]),
    decreases p,
{
    if exists|q: int| 0 <= q < p && s(#[trigger] order[q]) {
        let q = choose|q: int| 0 <= q < p && s(#[trigger] order[q]);
        lemma_first_position(order, s, q)
    } else {
        p
    }
}

/// A nonempty set of nodes each of which depends on a member of the set
/// admits no topological order.
pub proof fn lemma_closed_set_has_no_order(
    deps: Seq<Seq<usize>>,
    order: Seq<usize>,
    s: spec_fn(usize) -> bool,
    j0: usize,
)
    requires
        j0 < deps.len(),
        s(j0),
        forall|j: usize|
            j < deps.len() && #[trigger] s(j) ==> exists|k: int| 0 <= k < deps[j as int].len() && s(#[trigger] deps[j as int][k]),
    ensures
        !is_topological(deps, order),
{
    if !is_topological(deps, order) {
        return;
    }
    assert(order.contains(j0));
    let p0 = choose|p: int| 0 <= p < order.len() && order[p] == j0;
    let r = lemma_first_position(order, s, p0);
    let j = order[r];
    assert(deps_before(deps, order, r));
    let k = choose|k: int| 0 <= k < deps[j as int].len() && s(#[trigger] deps[j as int][k]);
    let d = deps[order[r] as int][k];
    assert(order.take(r).contains(d));
    let q = choose|q: int| 0 <= q < order.take(r).len() && order.take(r)[q] == d;
    assert(order[q] == d);
    assert(s(order[q]));
}

/// A stable order is a valid topological order.
pub proof fn lemma_stable_is_topological(deps: Seq<Seq<usize>>, order: Seq<usize>)
    requires
        is_stable_order(deps, order),
    ensures
        is_topological(deps, order),
{
    assert forall|p: int| 0 <= p < order.len() implies #[trigger] deps_before(deps, order, p) by {
        assert(stable_step(deps, order, p));
        lemma_stable_step_deps_before(deps, order, p);
    }

}

proof fn lemma_stable_step_deps_before(deps: Seq<Seq<usize>>, order: Seq<usize>, p: int)
    requires
        0 <= p < order.len(),
        stable_step(deps, order, p),
    ensures
        deps_before(deps, order, p),
{
}

/// Two stable orders of the same graph are the same sequence.
pub proof fn lemma_stable_order_unique(deps: Seq<Seq<usize>>, o1: Seq<usize>, o2: Seq<usize>)
    requires
        is_stable_order(deps, o1),
        is_stable_order(deps, o2),
    ensures
        o1 == o2,
{
    let m = if o1.len() < o2.len() {
        o1.len()
    } else {
        o2.len()
    };
    assert forall|p: int| 0 <= p < m implies o1[p] == o2[p] by {
        lemma_stable_prefix_agree(deps, o1, o2, p);
    }
    assert(o1.take(m as int) =~= o2.take(m as int));
    if o1.len() < o2.len() {
        assert(stable_step(deps, o2, m as int));
        let j = o2[m as int];
        assert(o1.contains(j));
        assert(o1 =~= o1.take(m as int));
        assert(o2.take(m as int).contains(j));
    } else if o2.len() < o1.len() {
        assert(stable_step(deps, o1, m as int));
        let j = o1[m as int];
        assert(o2.contains(j));
        assert(o2 =~= o2.take(m as int));
        assert(o1.take(m as int).contains(j));
    }
    assert(o1 =~= o2);
}

proof fn lemma_stable_prefix_agree(deps: Seq<Seq<usize>>, o1: Seq<usize>, o2: Seq<usize>, p: int)
    requires
        is_stable_order(deps, o1),
        is_stable_order(deps, o2),
        0 <= p < o1.len(),
        p < o2.len(),
    ensures
        o1[p] == o2[p],
        o1.take(p + 1) == o2.take(p + 1),
    decreases p,
{
    if p > 0 {
        lemma_stable_prefix_agree(deps, o1, o2, p - 1);
    }
    assert(o1.take(p) =~= o2.take(p));
    assert(stable_step(deps, o1, p));
    assert(stable_step(deps, o2, p));
    if o1[p] < o2[p] {
        assert(!ready(deps, o2.take(p), o1[p]));
    } else if o2[p] < o1[p] {
        assert(!ready(deps, o1.take(p), o2[p]));
    }
    assert(o1.take(p + 1) =~= o2.take(p + 1));
}

fn all_deps_placed(deps_j: &Vec<usize>, placed: &Vec<bool>) -> (r: bool)
    requires
        forall|k: int| 0 <= k < deps_j@.len() ==> (#[trigger] deps_j@[k]) < placed@.len(),
    ensures
        r == forall|k: int| 0 <= k < deps_j@.len() ==> placed@[#[trigger] deps_j@[k] as int],
{
    let mut k: usize = 0;
    while k < deps_j.len()
        invariant
            k <= deps_j@.len(),
            forall|k: int| 0 <= k < deps_j@.len() ==> (#[trigger] deps_j@[k]) < placed@.len(),
            forall|k2: int| 0 <= k2 < k ==> placed@[#[trigger] deps_j@[k2] as int],
        decreases deps_j.len() - k,
    {
        if !placed[deps_j[k]] {
            return false;
        }
        k = k + 1;
    }
    true
}

/// Orders the nodes so that each comes after all its dependencies, taking
/// at every step the first ready node in declaration order. Fails, with the
/// nodes that could not be placed, exactly when no such order exists.
pub fn stable_topological_order(deps: &Vec<Vec<usize>>) -> (r: Result<Vec<usize>, Vec<usize>>)
    requires
        deps_wf(deps@.map_values(|d: Vec<usize>| d@)),
    ensures
        order_outcome(deps@.map_values(|d: Vec<usize>| d@), r),
{
    let ghost g = deps@.map_values(|d: Vec<usize>| d@);
    let n = deps.len();
    let mut placed: Vec<bool> = Vec::new();
    let mut i: usize = 0;
    while i < n
        invariant
            i <= n,
            placed@.len() == i,
            forall|j: int| 0 <= j < i ==> !placed@[j],
        decreases n - i,
    {
        placed.push(false);
        i = i + 1;
    }
    let mut order: Vec<usize> = Vec::new();
    loop
        invariant
            n == deps@.len(),
            g == deps@.map_values(|d: Vec<usize>| d@),
            g.len() == n,
            deps_wf(g),
            placed@.len() == n,
            forall|j: usize| j < n ==> (placed@[j as int] <==> order@.contains(j)),
            forall|p: int| 0 <= p < order@.len() ==> #[trigger] stable_step(g, order@, p),
        decreases count_false(placed@),
    {
        let mut found: Option<usize> = None;
        let mut any_unplaced = false;
        let mut j: usize = 0;
        while j < n && found.is_none()
            invariant
                n == deps@.len(),
                g == deps@.map_values(|d: Vec<usize>| d@),
                g.len() == n,
                deps_wf(g),
                placed@.len() == n,
                forall|j: usize| j < n ==> (placed@[j as int] <==> order@.contains(j)),
                j <= n,
                found matches Some(f) ==> f < n && ready(g, order@, f) && forall|j2: usize| j2 < f ==> !ready(g, order@, j2),
                found is None ==> forall|j2: usize| j2 < j ==> !ready(g, order@, j2),
                found is None ==> (any_unplaced <==> exists|j2: usize| j2 < j && !placed@[j2 as int]),
                found is Some ==> any_unplaced,
            decreases n - j,
        {
            assert(g[j as int] == deps@[j as int]@);
            if !placed[j] {
                any_unplaced = true;
                if all_deps_placed(&deps[j], &placed) {
                    found = Some(j);
                    assert(ready(g, order@, j));
                } else {
                    assert(!ready(g, order@, j)) by {
                        let k = choose|k: int| 0 <= k < deps@[j as int]@.len() && !placed@[#[trigger] deps@[j as int]@[k] as int];
                        assert(g[j as int][k] == deps@[j as int]@[k]);
                    }
                }
            }
            j = j + 1;
        }
        match found {
            Some(j) => {
                let ghost old_order = order@;
                let ghost old_placed = placed@;
                order.push(j);
                placed.set(j, true);
                proof {
                    lemma_count_false_update(old_placed, j as int);
                    assert(order@.take(old_order.len() as int) =~= old_order);
                    assert forall|p: int| 0 <= p < order@.len() implies #[trigger] stable_step(g, order@, p) by {
                        if p < old_order.len() {
                            assert(order@.take(p) =~= old_order.take(p));
                            assert(stable_step(g, old_order, p));
                        }
                    }
                    assert forall|j2: usize| j2 < n implies (placed@[j2 as int] <==> order@.contains(j2)) by {
                        if j2 == j {
                            assert(order@[old_order.len() as int] == j);
                        } else if old_order.contains(j2) {
                            let q = choose|q: int| 0 <= q < old_order.len() && old_order[q] == j2;
                            assert(order@[q] == j2);
                        } else if order@.contains(j2) {
                            let q = choose|q: int| 0 <= q < order@.len() && order@[q] == j2;
                            assert(old_order[q] == j2);
                        }
                    }
                }
            },
            None => {
                if !any_unplaced {
                    assert forall|j2: usize| j2 < g.len() implies order@.contains(j2) by {
                        assert(placed@[j2 as int]);
                    }
                    return Ok(order);
                }
                proof {
                    let s = |x: usize| !order@.contains(x);
                    let j0 = choose|j2: usize| j2 < n && !placed@[j2 as int];
                    assert forall|x: usize| x < g.len() && #[trigger] s(x) implies exists|k: int|
                        0 <= k < g[x as int].len() && s(#[trigger] g[x as int][k]) by {
                        assert(!ready(g, order@, x));
                    }
                    assert forall|o: Seq<usize>| !#[trigger] is_topological(g, o) by {
                        lemma_closed_set_has_no_order(g, o, s, j0);
                    }
                }
                let mut stuck: Vec<usize> = Vec::new();
                let mut j: usize = 0;
                while j < n
                    invariant
                        j <= n,
                        placed@.len() == n,
                        forall|i: int| 0 <= i < stuck@.len() ==> #[trigger] stuck@[i] < n,
                        stuck@.len() > 0 <==> exists|j2: usize| j2 < j && !placed@[j2 as int],
                    decreases n - j,
                {
                    if !placed[j] {
                        stuck.push(j);
                    }
                    j = j + 1;
                }
                return Err(stuck);
            },
        }
    }
}

} // verus!
