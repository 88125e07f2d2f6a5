//! The entity graph: functions and composite types of one build, with an
//! edge from each entity to every composite type it references.

use vstd::prelude::*;
use crate::order::{
    deps_before, deps_wf, is_stable_order, is_topological, lemma_closed_set_has_no_order,
    lemma_stable_is_topological, lemma_stable_order_unique, stable_topological_order,
};
use crate::returning::{ItemView, Returning, ReturningIteratedItem, ReturningView};
use crate::text::{str_eq, strings_view};
use crate::used_type::{Leaf, LeafView, UsedType, UsedTypeView};

verus! {

/// A named parameter of a function, or a named attribute of a composite type.
#[derive(Debug, Clone, PartialEq, Eq)]
pub struct Parameter {
    pub name: String,
    pub used_ty: UsedType,
}

/// A database-visible function.
#[derive(Debug, Clone, PartialEq, Eq)]
pub struct FunctionEntity {
    pub name: String,
    pub schema: String,
    pub params: Vec<Parameter>,
    pub returning: Returning,
}

/// A composite record type: a name and its ordered attributes.
#[derive(Debug, Clone, PartialEq, Eq)]
pub struct CompositeEntity {
    pub name: String,
    pub attributes: Vec<Parameter>,
}

/// A unit placed in the dependency graph.
#[derive(Debug, Clone, PartialEq, Eq)]
pub enum EntityNode {
    Function(FunctionEntity),
    CompositeType(CompositeEntity),
}

/// The entities of one build and their dependencies: `deps[i]` holds the
/// positions of the composite types that entity `i` references, in the
/// order the references occur.
#[derive(Debug, Clone, PartialEq, Eq)]
pub struct EntityGraph {
    pub nodes: Vec<EntityNode>,
    pub deps: Vec<Vec<usize>>,
}

/// Why a graph could not be built or ordered.
#[derive(Debug, Clone, PartialEq, Eq)]
pub enum GraphError {
    /// A composite type is referenced but declared nowhere.
    UnresolvedType(String),
    /// Composite types reference each other in a cycle; the names are those
    /// of the entities that could not be ordered: the members of the cycle
    /// and everything that depends on one.
    CompositeCycle(Vec<String>),
}

/// The composite type names a used type references: its leaf, if composite.
pub open spec fn used_refs(u: UsedTypeView) -> Seq<Seq<char>> {
    match u.leaf {
        LeafView::Composite(n) => seq![n],
        LeafView::Scalar(_) => Seq::empty(),
    }
}

pub open spec fn params_refs(ps: Seq<Parameter>) -> Seq<Seq<char>>
    decreases ps.len(),
{
    if ps.len() == 0 {
        Seq::empty()
    } else {
        params_refs(ps.drop_last()) + used_refs(ps.last().used_ty@)
    }
}

pub open spec fn items_refs(items: Seq<ItemView>) -> Seq<Seq<char>>
    decreases items.len(),
{
    if items.len() == 0 {
        Seq::empty()
    } else {
        items_refs(items.drop_last()) + used_refs(items.last().used_ty)
    }
}

pub open spec fn returning_refs(r: ReturningView) -> Seq<Seq<char>> {
    match r {
        ReturningView::Type(u) => used_refs(u),
        ReturningView::SetOf(u) => used_refs(u),
        ReturningView::Iterated(items) => items_refs(items),
        _ => Seq::empty(),
    }
}

/// The composite type names an entity references, in order: a function's
/// parameters then its result; a composite type's attributes.
pub open spec fn node_refs(n: EntityNode) -> Seq<Seq<char>> {
    match n {
        EntityNode::Function(f) => params_refs(f.params@) + returning_refs(f.returning@),
        EntityNode::CompositeType(c) => params_refs(c.attributes@),
    }
}

pub open spec fn is_composite_named(n: EntityNode, name: Seq<char>) -> bool {
    match n {
        EntityNode::CompositeType(c) => c.name@ == name,
        _ => false,
    }
}

/// Position `i` holds the first composite type called `name`.
pub open spec fn resolves_to(nodes: Seq<EntityNode>, name: Seq<char>, i: int) -> bool {
    &&& 0 <= i < nodes.len()
    &&& is_composite_named(nodes[i], name)
    &&& forall|j: int| 0 <= j < i ==> !is_composite_named(#[trigger] nodes[j], name)
}

pub open spec fn declared(nodes: Seq<EntityNode>, name: Seq<char>) -> bool {
    exists|i: int| 0 <= i < nodes.len() && is_composite_named(#[trigger] nodes[i], name)
}

pub open spec fn deps_view(deps: Seq<Vec<usize>>) -> Seq<Seq<usize>> {
    deps.map_values(|d: Vec<usize>| d@)
}

impl EntityGraph {
    /// Each dependency list belongs to an entity and names an entity.
    pub open spec fn wf(&self) -> bool {
        &&& self.deps@.len() == self.nodes@.len()
        &&& deps_wf(deps_view(self.deps@))
    }

    /// The dependency lists are exactly the resolved references of the
    /// entities.
    pub open spec fn built_from(&self, nodes: Seq<EntityNode>) -> bool {
        &&& self.nodes@ == nodes
        &&& self.deps@.len() == nodes.len()
        &&& forall|i: int|
            0 <= i < nodes.len() ==> (#[trigger] self.deps@[i])@.len() == node_refs(nodes[i]).len()
                && forall|k: int|
                0 <= k < node_refs(nodes[i]).len() ==> resolves_to(
                    nodes,
                    node_refs(nodes[i])[k],
                    #[trigger] self.deps@[i]@[k] as int,
                )
    }
}

/// What `linearize` returns: the stable order when a valid order exists,
/// and a cycle error exactly when none does.
pub open spec fn linearize_outcome(g: EntityGraph, r: Result<Vec<usize>, GraphError>) -> bool {
    match r {
        Ok(order) => is_stable_order(deps_view(g.deps@), order@),
        Err(GraphError::CompositeCycle(_)) => forall|o: Seq<usize>| !#[trigger] is_topological(deps_view(g.deps@), o),
        Err(GraphError::UnresolvedType(_)) => false,
    }
}

/// Entity `b` stands before entity `a` in `order`.
pub open spec fn placed_before(order: Seq<usize>, b: usize, a: usize) -> bool {
    exists|pb: int, pa: int| 0 <= pb < pa < order.len() && order[pb] == b && order[pa] == a
}

fn push_used_ref(out: &mut Vec<String>, u: &UsedType)
    ensures
        strings_view(final(out)@) == strings_view(old(out)@) + used_refs(u@),
{
    match &u.leaf {
        Leaf::Composite(n) => {
            let ghost before = out@;
            out.push(n.clone());
            assert(strings_view(out@) =~= strings_view(before) + used_refs(u@));
        },
        Leaf::Scalar(_) => {
            assert(strings_view(out@) =~= strings_view(out@) + used_refs(u@));
        },
    }
}

fn push_params_refs(out: &mut Vec<String>, ps: &Vec<Parameter>)
    ensures
        strings_view(final(out)@) == strings_view(old(out)@) + params_refs(ps@),
{
    let ghost start = strings_view(out@);
    let mut i: usize = 0;
    assert(ps@.take(0) =~= Seq::<Parameter>::empty());
    assert(start + params_refs(ps@.take(0)) =~= start);
    while i < ps.len()
        invariant
            i <= ps@.len(),
            strings_view(out@) == start + params_refs(ps@.take(i as int)),
        decreases ps.len() - i,
    {
        push_used_ref(out, &ps[i].used_ty);
        assert(ps@.take(i + 1).drop_last() =~= ps@.take(i as int));
        assert(start + params_refs(ps@.take(i + 1)) =~= start + params_refs(ps@.take(i as int)) + used_refs(ps@[i as int].used_ty@));
        i = i + 1;
    }
    assert(ps@.take(ps@.len() as int) =~= ps@);
}

fn push_items_refs(out: &mut Vec<String>, items: &Vec<ReturningIteratedItem>)
    ensures
        strings_view(final(out)@) == strings_view(old(out)@) + items_refs(crate::returning::items_view(items@)),
{
    let ghost start = strings_view(out@);
    let ghost iv = crate::returning::items_view(items@);
    let mut i: usize = 0;
    assert(iv.take(0) =~= Seq::<ItemView>::empty());
    assert(start + items_refs(iv.take(0)) =~= start);
    while i < items.len()
        invariant
            i <= items@.len(),
            iv == crate::returning::items_view(items@),
            strings_view(out@) == start + items_refs(iv.take(i as int)),
        decreases items.len() - i,
    {
        push_used_ref(out, &items[i].used_ty);
        assert(iv.take(i + 1).drop_last() =~= iv.take(i as int));
        assert(start + items_refs(iv.take(i + 1)) =~= start + items_refs(iv.take(i as int)) + used_refs(iv[i as int].used_ty));
        i = i + 1;
    }
    assert(iv.take(items@.len() as int) =~= iv);
}

/// The composite type names an entity references, in order.
pub fn node_references(n: &EntityNode) -> (r: Vec<String>)
    ensures
        strings_view(r@) == node_refs(*n),
{
    let mut out: Vec<String> = Vec::new();
    assert(strings_view(out@) =~= Seq::<Seq<char>>::empty());
    match n {
        EntityNode::Function(f) => {
            push_params_refs(&mut out, &f.params);
            match &f.returning {
                Returning::Type(u) => push_used_ref(&mut out, u),
                Returning::SetOf(u) => push_used_ref(&mut out, u),
                Returning::Iterated(items) => push_items_refs(&mut out, items),
                _ => {},
            }
            assert(strings_view(out@) =~= node_refs(*n));
        },
        EntityNode::CompositeType(c) => {
            push_params_refs(&mut out, &c.attributes);
            assert(strings_view(out@) =~= node_refs(*n));
        },
    }
    out
}

/// The position of the first composite type called `name`, if any.
pub fn find_composite(nodes: &Vec<EntityNode>, name: &str) -> (r: Option<usize>)
    ensures
        match r {
            Some(i) => resolves_to(nodes@, name@, i as int),
            None => !declared(nodes@, name@),
        },
{
    let mut i: usize = 0;
    while i < nodes.len()
        invariant
            i <= nodes@.len(),
            forall|j: int| 0 <= j < i ==> !is_composite_named(#[trigger] nodes@[j], name@),
        decreases nodes.len() - i,
    {
        if let EntityNode::CompositeType(c) = &nodes[i] {
            if str_eq(c.name.as_str(), name) {
                return Some(i);
            }
        }
        i = i + 1;
    }
    None
}

impl EntityGraph {
    /// Builds the graph of the given entities: each reference to a composite
    /// type becomes an edge to the first composite type of that name. Fails
    /// with the name of a referenced composite type that is declared
    /// nowhere, exactly when there is one.
    pub fn build(nodes: Vec<EntityNode>) -> (r: Result<EntityGraph, GraphError>)
        ensures
            match r {
                Ok(g) => g.built_from(nodes@) && g.wf(),
                Err(GraphError::UnresolvedType(name)) => exists|i: int, k: int|
                    0 <= i < nodes@.len() && 0 <= k < node_refs(nodes@[i]).len()
                        && #[trigger] node_refs(nodes@[i])[k] == name@ && !declared(nodes@, name@),
                Err(GraphError::CompositeCycle(_)) => false,
            },
    {
        let mut deps: Vec<Vec<usize>> = Vec::new();
        let mut i: usize = 0;
        while i < nodes.len()
            invariant
                i <= nodes@.len(),
                deps@.len() == i,
                forall|i2: int|
                    0 <= i2 < i ==> (#[trigger] deps@[i2])@.len() == node_refs(nodes@[i2]).len()
                        && forall|k: int|
                        0 <= k < node_refs(nodes@[i2]).len() ==> resolves_to(
                            nodes@,
                            node_refs(nodes@[i2])[k],
                            #[trigger] deps@[i2]@[k] as int,
                        ),
            decreases nodes.len() - i,
        {
            let refs = node_references(&nodes[i]);
            let mut d: Vec<usize> = Vec::new();
            let mut k: usize = 0;
            while k < refs.len()
                invariant
                    i < nodes@.len(),
                    k <= refs@.len(),
                    strings_view(refs@) == node_refs(nodes@[i as int]),
                    d@.len() == k,
                    forall|k2: int|
                        0 <= k2 < k ==> resolves_to(
                            nodes@,
                            node_refs(nodes@[i as int])[k2],
                            #[trigger] d@[k2] as int,
                        ),
                decreases refs.len() - k,
            {
                assert(strings_view(refs@)[k as int] == refs@[k as int]@);
                match find_composite(&nodes, refs[k].as_str()) {
                    Some(j) => d.push(j),
                    None => {
                        return Err(GraphError::UnresolvedType(refs[k].clone()));
                    },
                }
                k = k + 1;
            }
            deps.push(d);
            i = i + 1;
        }
        let g = EntityGraph { nodes, deps };
        assert(g.wf()) by {
            assert forall|a: int, b: int|
                0 <= a < deps_view(g.deps@).len() && 0 <= b < deps_view(g.deps@)[a].len()
                    implies (#[trigger] deps_view(g.deps@)[a][b]) < deps_view(g.deps@).len() by {
                assert(deps_view(g.deps@)[a] == g.deps@[a]@);
                assert(resolves_to(g.nodes@, node_refs(g.nodes@[a])[b], g.deps@[a]@[b] as int));
            }
        }
        Ok(g)
    }

    /// Orders the entities so that every composite type comes before each
    /// entity that references it, breaking ties by declaration order. Fails
    /// exactly when no such order exists, which is when composite types
    /// reference each other in a cycle.
    pub fn linearize(&self) -> (r: Result<Vec<usize>, GraphError>)
        requires
            self.wf(),
        ensures
            linearize_outcome(*self, r),
    {
        match stable_topological_order(&self.deps) {
            Ok(order) => Ok(order),
            Err(stuck) => {
                let mut names: Vec<String> = Vec::new();
                let mut i: usize = 0;
                while i < stuck.len()
                    invariant
                        i <= stuck@.len(),
                        self.deps@.len() == self.nodes@.len(),
                        forall|j: int| 0 <= j < stuck@.len() ==> #[trigger] stuck@[j] < deps_view(self.deps@).len(),
                    decreases stuck.len() - i,
                {
                    assert(stuck@[i as int] < deps_view(self.deps@).len());
                    match &self.nodes[stuck[i]] {
                        EntityNode::Function(f) => names.push(f.name.clone()),
                        EntityNode::CompositeType(c) => names.push(c.name.clone()),
                    }
                    i = i + 1;
                }
                Err(GraphError::CompositeCycle(names))
            },
        }
    }
}

/// Linearization yields a valid topological order: for every dependency
/// edge `a -> b` of the graph, `b` stands before `a`. Two runs on the same
/// graph yield the same order, or both fail.
pub proof fn lemma_linearize_respects_edges_and_is_deterministic(
    g: EntityGraph,
    r1: Result<Vec<usize>, GraphError>,
    r2: Result<Vec<usize>, GraphError>,
)
    requires
        g.wf(),
        linearize_outcome(g, r1),
        linearize_outcome(g, r2),
    ensures
        r1 matches Ok(order) ==> forall|a: usize, k: int|
            a < g.deps@.len() && 0 <= k < g.deps@[a as int]@.len() ==> placed_before(
                order@,
                #[trigger] g.deps@[a as int]@[k],
                a,
            ),
        r1 is Ok <==> r2 is Ok,
        r1 matches Ok(o1) ==> (r2 matches Ok(o2) && o1@ == o2@),
{
    let d = deps_view(g.deps@);
    if let Ok(o1) = r1 {
        lemma_stable_is_topological(d, o1@);
        assert forall|a: usize, k: int| a < g.deps@.len() && 0 <= k < g.deps@[a as int]@.len() implies placed_before(
            o1@,
            #[trigger] g.deps@[a as int]@[k],
            a,
        ) by {
            assert(d[a as int] == g.deps@[a as int]@);
            assert(o1@.contains(a));
            let pa = choose|pa: int| 0 <= pa < o1@.len() && o1@[pa] == a;
            assert(deps_before(d, o1@, pa));
            assert(o1@.take(pa).contains(d[o1@[pa] as int][k]));
            let pb = choose|pb: int| 0 <= pb < o1@.take(pa).len() && o1@.take(pa)[pb] == d[a as int][k];
            assert(o1@[pb] == g.deps@[a as int]@[k]);
        }
        if let Ok(o2) = r2 {
            lemma_stable_order_unique(d, o1@, o2@);
        }
    } else if let Ok(o2) = r2 {
        lemma_stable_is_topological(d, o2@);
    }
}

/// The graph holds the dependency cycle `c[0] -> c[1] -> .. -> c[0]`.
pub open spec fn has_cycle(g: EntityGraph, cycle: Seq<usize>) -> bool {
    &&& cycle.len() > 0
    &&& forall|i: int| 0 <= i < cycle.len() ==> (#[trigger] cycle[i]) < g.deps@.len()
    &&& forall|i: int|
        0 <= i < cycle.len() ==> g.deps@[cycle[i] as int]@.contains(
            #[trigger] cycle[(i + 1) % (cycle.len() as int)],
        )
}

/// A graph with a dependency cycle has no topological order.
pub proof fn lemma_cycle_has_no_order(g: EntityGraph, cycle: Seq<usize>, o: Seq<usize>)
    requires
        g.wf(),
        has_cycle(g, cycle),
    ensures
        !is_topological(deps_view(g.deps@), o),
{
    let d = deps_view(g.deps@);
    let s = |x: usize| cycle.contains(x);
    assert forall|x: usize| x < d.len() && #[trigger] s(x) implies exists|k: int|
        0 <= k < d[x as int].len() && s(#[trigger] d[x as int][k]) by {
        let i = choose|i: int| 0 <= i < cycle.len() && cycle[i] == x;
        let nx = cycle[(i + 1) % (cycle.len() as int)];
        assert(d[x as int] == g.deps@[x as int]@);
        assert(g.deps@[cycle[i] as int]@.contains(nx));
        let k = choose|k: int| 0 <= k < d[x as int].len() && d[x as int][k] == nx;
        assert(s(nx));
    }
    assert(s(cycle[0]));
    lemma_closed_set_has_no_order(d, o, s, cycle[0]);
}

/// A composite type that references itself, directly or through other
/// composite types, makes linearization fail with a cycle error.
pub proof fn lemma_self_reference_is_rejected(g: EntityGraph, cycle: Seq<usize>, r: Result<Vec<usize>, GraphError>)
    requires
        g.wf(),
        has_cycle(g, cycle),
        linearize_outcome(g, r),
    ensures
        r matches Err(GraphError::CompositeCycle(_)),
{
    if let Ok(order) = r {
        lemma_stable_is_topological(deps_view(g.deps@), order@);
        lemma_cycle_has_no_order(g, cycle, order@);
    }
}

} // verus!
