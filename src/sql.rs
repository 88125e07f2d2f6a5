//! Rendering of entities to DDL, and of a whole graph in dependency order.

use vstd::prelude::*;
use crate::graph::{deps_view, CompositeEntity, EntityGraph, EntityNode, FunctionEntity, GraphError, Parameter};
use crate::order::{is_stable_order, is_topological};
use crate::returning::{items_view, ItemView, Returning, ReturningIteratedItem, ReturningView};
use crate::used_type::{Leaf, LeafView, UsedType, UsedTypeView, Wrapper};

verus! {

/// `n` written in decimal digits.
pub open spec fn decimal(n: nat) -> Seq<char>
    decreases n,
{
    if n < 10 {
        seq![digit(n)]
    } else {
        decimal(n / 10).push(digit(n % 10))
    }
}

pub open spec fn digit(d: nat) -> char {
    if d == 0 { '0' } else if d == 1 { '1' } else if d == 2 { '2' } else if d == 3 { '3' }
    else if d == 4 { '4' } else if d == 5 { '5' } else if d == 6 { '6' } else if d == 7 { '7' }
    else if d == 8 { '8' } else { '9' }
}

/// The parts, separated by `sep`.
pub open spec fn join(parts: Seq<Seq<char>>, sep: Seq<char>) -> Seq<char>
    decreases parts.len(),
{
    if parts.len() == 0 {
        Seq::empty()
    } else if parts.len() == 1 {
        parts[0]
    } else {
        join(parts.drop_last(), sep) + sep + parts.last()
    }
}

pub open spec fn is_array_like(w: Wrapper) -> bool {
    w == Wrapper::Array || w == Wrapper::List || w == Wrapper::VariadicArray
}

/// One `[]` for each array-like wrapper.
pub open spec fn array_suffix(ws: Seq<Wrapper>) -> Seq<char>
    decreases ws.len(),
{
    if ws.len() == 0 {
        Seq::empty()
    } else {
        array_suffix(ws.drop_last()) + if is_array_like(ws.last()) {
            "[]"@
        } else {
            Seq::empty()
        }
    }
}

pub open spec fn leaf_name(l: LeafView) -> Seq<char> {
    match l {
        LeafView::Scalar(s) => s,
        LeafView::Composite(s) => s,
    }
}

/// The SQL type of a used type: optional and boxed layers are transparent,
/// each array-like layer adds `[]`.
pub open spec fn sql_type(u: UsedTypeView) -> Seq<char> {
    leaf_name(u.leaf) + array_suffix(u.wrappers)
}

pub open spec fn is_variadic(u: UsedTypeView) -> bool {
    u.wrappers.len() > 0 && u.wrappers[0] == Wrapper::VariadicArray
}

/// A parameter declaration: `[VARIADIC ]name type[ DEFAULT expr]`.
pub open spec fn param_sql(p: Parameter) -> Seq<char> {
    variadic_sql(p.used_ty@) + p.name@ + " "@ + sql_type(p.used_ty@) + default_sql(p.used_ty@)
}

pub open spec fn variadic_sql(u: UsedTypeView) -> Seq<char> {
    if is_variadic(u) {
        "VARIADIC "@
    } else {
        Seq::empty()
    }
}

pub open spec fn default_sql(u: UsedTypeView) -> Seq<char> {
    match u.default {
        Some(d) => " DEFAULT "@ + d,
        None => Seq::empty(),
    }
}

pub open spec fn params_sql(ps: Seq<Parameter>) -> Seq<char> {
    join(ps.map_values(|p: Parameter| param_sql(p)), ", "@)
}

/// An output column: its name, or `column<position>` for an anonymous
/// one, then its type.
pub open spec fn column_name_sql(item: ItemView, pos: nat) -> Seq<char> {
    match item.name {
        Some(n) => n,
        None => "column"@ + decimal(pos + 1),
    }
}

pub open spec fn column_sql(item: ItemView, pos: nat) -> Seq<char> {
    column_name_sql(item, pos) + " "@ + sql_type(item.used_ty)
}

pub open spec fn columns_sql(items: Seq<ItemView>) -> Seq<char> {
    join(Seq::new(items.len(), |i: int| column_sql(items[i], i as nat)), ", "@)
}

/// What follows `RETURNS` for a result shape.
pub open spec fn returning_sql(r: ReturningView) -> Seq<char> {
    match r {
        ReturningView::Nothing => "void"@,
        ReturningView::Type(u) => sql_type(u),
        ReturningView::SetOf(u) => "SETOF "@ + sql_type(u),
        ReturningView::Iterated(items) => "TABLE ("@ + columns_sql(items) + ")"@,
        ReturningView::Trigger => "trigger"@,
    }
}

pub open spec fn function_sql(f: FunctionEntity) -> Seq<char> {
    "CREATE FUNCTION "@ + f.schema@ + "."@ + f.name@ + "("@ + params_sql(f.params@) + ") RETURNS "@
        + returning_sql(f.returning@) + " LANGUAGE c AS 'MODULE_PATHNAME', '"@ + f.name@ + "_wrapper';\n"@
}

pub open spec fn composite_sql(c: CompositeEntity) -> Seq<char> {
    "CREATE TYPE "@ + c.name@ + " AS ("@ + params_sql(c.attributes@) + ");\n"@
}

/// The DDL statement of one entity.
pub open spec fn node_sql(n: EntityNode) -> Seq<char> {
    match n {
        EntityNode::Function(f) => function_sql(f),
        EntityNode::CompositeType(c) => composite_sql(c),
    }
}

/// The DDL of the entities at the given positions, in that order.
pub open spec fn nodes_sql(nodes: Seq<EntityNode>, order: Seq<usize>) -> Seq<char>
    decreases order.len(),
{
    if order.len() == 0 {
        Seq::empty()
    } else {
        nodes_sql(nodes, order.drop_last()) + node_sql(nodes[order.last() as int])
    }
}

/// What `to_sql` returns: the DDL of all entities in the stable
/// dependency order, or a cycle error exactly when no valid order exists.
pub open spec fn sql_outcome(g: EntityGraph, r: Result<String, GraphError>) -> bool {
    match r {
        Ok(s) => exists|order: Seq<usize>|
            is_stable_order(deps_view(g.deps@), order) && s@ == #[trigger] nodes_sql(g.nodes@, order),
        Err(GraphError::CompositeCycle(_)) => forall|o: Seq<usize>| !#[trigger] is_topological(deps_view(g.deps@), o),
        Err(GraphError::UnresolvedType(_)) => false,
    }
}

fn digit_str(d: usize) -> (r: &'static str)
    requires
        d < 10,
    ensures
        r@ == seq![digit(d as nat)],
{
    let r = if d == 0 { "0" } else if d == 1 { "1" } else if d == 2 { "2" } else if d == 3 { "3" }
    else if d == 4 { "4" } else if d == 5 { "5" } else if d == 6 { "6" } else if d == 7 { "7" }
    else if d == 8 { "8" } else { "9" };
    proof {
        reveal_strlit("0"); reveal_strlit("1"); reveal_strlit("2"); reveal_strlit("3");
        reveal_strlit("4"); reveal_strlit("5"); reveal_strlit("6"); reveal_strlit("7");
        reveal_strlit("8"); reveal_strlit("9");
        assert(r@ =~= seq![digit(d as nat)]);
    }
    r
}

fn push_decimal(out: &mut String, n: usize)
    ensures
        final(out)@ == old(out)@ + decimal(n as nat),
    decreases n,
{
    if n >= 10 {
        push_decimal(out, n / 10);
    }
    out.append(digit_str(n % 10));
    assert(final(out)@ =~= old(out)@ + decimal(n as nat));
}

fn push_array_suffix(out: &mut String, ws: &Vec<Wrapper>)
    ensures
        final(out)@ == old(out)@ + array_suffix(ws@),
{
    let ghost start = out@;
    let mut i: usize = 0;
    assert(ws@.take(0) =~= Seq::<Wrapper>::empty());
    assert(start + array_suffix(ws@.take(0)) =~= start);
    while i < ws.len()
        invariant
            i <= ws@.len(),
            out@ == start + array_suffix(ws@.take(i as int)),
        decreases ws.len() - i,
    {
        assert(ws@.take(i + 1).drop_last() =~= ws@.take(i as int));
        let w = ws[i];
        if w == Wrapper::Array || w == Wrapper::List || w == Wrapper::VariadicArray {
            out.append("[]");
            assert(out@ =~= start + array_suffix(ws@.take(i + 1)));
        } else {
            assert(out@ =~= start + array_suffix(ws@.take(i + 1)));
        }
        i = i + 1;
    }
    assert(ws@.take(ws@.len() as int) =~= ws@);
}

/// Appends the SQL type of a used type.
pub fn push_sql_type(out: &mut String, u: &UsedType)
    ensures
        final(out)@ == old(out)@ + sql_type(u@),
{
    match &u.leaf {
        Leaf::Scalar(s) => out.append(s.as_str()),
        Leaf::Composite(s) => out.append(s.as_str()),
    }
    push_array_suffix(out, &u.wrappers);
    assert(final(out)@ =~= old(out)@ + sql_type(u@));
}

fn push_param(out: &mut String, p: &Parameter)
    ensures
        final(out)@ == old(out)@ + param_sql(*p),
{
    if p.used_ty.wrappers.len() > 0 && p.used_ty.wrappers[0] == Wrapper::VariadicArray {
        out.append("VARIADIC ");
    }
    out.append(p.name.as_str());
    out.append(" ");
    push_sql_type(out, &p.used_ty);
    if let Some(d) = &p.used_ty.default {
        out.append(" DEFAULT ");
        out.append(d.as_str());
    }
    assert(final(out)@ =~= old(out)@ + param_sql(*p));
}

proof fn lemma_join_step(parts: Seq<Seq<char>>, sep: Seq<char>, i: int)
    requires
        0 <= i < parts.len(),
    ensures
        join(parts.take(i + 1), sep) == if i == 0 {
            parts[0]
        } else {
            join(parts.take(i), sep) + sep + parts[i]
        },
{
    assert(parts.take(i + 1).drop_last() =~= parts.take(i));
}

fn push_params(out: &mut String, ps: &Vec<Parameter>)
    ensures
        final(out)@ == old(out)@ + params_sql(ps@),
{
    let ghost start = out@;
    let ghost parts = ps@.map_values(|p: Parameter| param_sql(p));
    let mut i: usize = 0;
    assert(start + join(parts.take(0), ", "@) =~= start);
    while i < ps.len()
        invariant
            i <= ps@.len(),
            parts == ps@.map_values(|p: Parameter| param_sql(p)),
            out@ == start + join(parts.take(i as int), ", "@),
        decreases ps.len() - i,
    {
        proof {
            lemma_join_step(parts, ", "@, i as int);
        }
        if i > 0 {
            out.append(", ");
        }
        push_param(out, &ps[i]);
        assert(out@ =~= start + join(parts.take(i + 1), ", "@));
        i = i + 1;
    }
    assert(parts.take(ps@.len() as int) =~= parts);
}

fn push_column(out: &mut String, item: &ReturningIteratedItem, pos: usize)
    requires
        pos < usize::MAX,
    ensures
        final(out)@ == old(out)@ + column_sql(item@, pos as nat),
{
    match &item.name {
        Some(n) => out.append(n.as_str()),
        None => {
            out.append("column");
            push_decimal(out, pos + 1);
        },
    }
    out.append(" ");
    push_sql_type(out, &item.used_ty);
    assert(final(out)@ =~= old(out)@ + column_sql(item@, pos as nat));
}

fn push_columns(out: &mut String, items: &Vec<ReturningIteratedItem>)
    ensures
        final(out)@ == old(out)@ + columns_sql(items_view(items@)),
{
    let ghost start = out@;
    let ghost iv = items_view(items@);
    let ghost parts = Seq::new(iv.len(), |i: int| column_sql(iv[i], i as nat));
    let mut i: usize = 0;
    assert(start + join(parts.take(0), ", "@) =~= start);
    while i < items.len()
        invariant
            i <= items@.len(),
            iv == items_view(items@),
            parts == Seq::new(iv.len(), |i: int| column_sql(iv[i], i as nat)),
            out@ == start + join(parts.take(i as int), ", "@),
        decreases items.len() - i,
    {
        proof {
            lemma_join_step(parts, ", "@, i as int);
        }
        if i > 0 {
            out.append(", ");
        }
        push_column(out, &items[i], i);
        assert(out@ =~= start + join(parts.take(i + 1), ", "@));
        i = i + 1;
    }
    assert(parts.take(items@.len() as int) =~= parts);
}

/// Appends what follows `RETURNS` for a result shape.
pub fn push_returning(out: &mut String, r: &Returning)
    ensures
        final(out)@ == old(out)@ + returning_sql(r@),
{
    match r {
        Returning::Nothing => out.append("void"),
        Returning::Type(u) => push_sql_type(out, u),
        Returning::SetOf(u) => {
            out.append("SETOF ");
            push_sql_type(out, u);
        },
        Returning::Iterated(items) => {
            out.append("TABLE (");
            push_columns(out, items);
            out.append(")");
        },
        Returning::Trigger => out.append("trigger"),
    }
    assert(final(out)@ =~= old(out)@ + returning_sql(r@));
}

/// Appends the DDL statement of one entity.
pub fn push_node(out: &mut String, n: &EntityNode)
    ensures
        final(out)@ == old(out)@ + node_sql(*n),
{
    match n {
        EntityNode::Function(f) => {
            out.append("CREATE FUNCTION ");
            out.append(f.schema.as_str());
            out.append(".");
            out.append(f.name.as_str());
            out.append("(");
            push_params(out, &f.params);
            out.append(") RETURNS ");
            push_returning(out, &f.returning);
            out.append(" LANGUAGE c AS 'MODULE_PATHNAME', '");
            out.append(f.name.as_str());
            out.append("_wrapper';\n");
        },
        EntityNode::CompositeType(c) => {
            out.append("CREATE TYPE ");
            out.append(c.name.as_str());
            out.append(" AS (");
            push_params(out, &c.attributes);
            out.append(");\n");
        },
    }
    assert(final(out)@ =~= old(out)@ + node_sql(*n));
}

impl EntityGraph {
    /// The DDL of the graph: every entity's statement, in the stable
    /// dependency order. Nothing is rendered when composite types form a
    /// cycle.
    pub fn to_sql(&self) -> (r: Result<String, GraphError>)
        requires
            self.wf(),
        ensures
            sql_outcome(*self, r),
    {
        let order = match self.linearize() {
            Ok(order) => order,
            Err(e) => return Err(e),
        };
        let mut out = String::new();
        let mut i: usize = 0;
        assert(order@.take(0) =~= Seq::<usize>::empty());
        while i < order.len()
            invariant
                i <= order@.len(),
                self.wf(),
                is_stable_order(deps_view(self.deps@), order@),
                out@ == nodes_sql(self.nodes@, order@.take(i as int)),
            decreases order.len() - i,
        {
            assert(crate::order::stable_step(deps_view(self.deps@), order@, i as int));
            assert(order@.take(i + 1).drop_last() =~= order@.take(i as int));
            push_node(&mut out, &self.nodes[order[i]]);
            i = i + 1;
        }
        assert(order@.take(order@.len() as int) =~= order@);
        Ok(out)
    }
}

/// Rendering is deterministic: two runs of `to_sql` on the same graph
/// both fail or yield the same text.
pub proof fn lemma_to_sql_is_deterministic(g: EntityGraph, r1: Result<String, GraphError>, r2: Result<String, GraphError>)
    requires
        g.wf(),
        sql_outcome(g, r1),
        sql_outcome(g, r2),
    ensures
        r1 is Ok <==> r2 is Ok,
        r1 matches Ok(s1) ==> (r2 matches Ok(s2) && s1@ == s2@),
{
    let d = deps_view(g.deps@);
    if let Ok(s1) = r1 {
        let o1 = choose|order: Seq<usize>| is_stable_order(d, order) && s1@ == #[trigger] nodes_sql(g.nodes@, order);
        crate::order::lemma_stable_is_topological(d, o1);
        if let Ok(s2) = r2 {
            let o2 = choose|order: Seq<usize>| is_stable_order(d, order) && s2@ == #[trigger] nodes_sql(g.nodes@, order);
            crate::order::lemma_stable_order_unique(d, o1, o2);
        }
    } else if let Ok(s2) = r2 {
        let o2 = choose|order: Seq<usize>| is_stable_order(d, order) && s2@ == #[trigger] nodes_sql(g.nodes@, order);
        crate::order::lemma_stable_is_topological(d, o2);
    }
}

/// A composite type that references itself, directly or through other
/// composite types, is rejected before any DDL is rendered.
pub proof fn lemma_self_reference_renders_nothing(g: EntityGraph, cycle: Seq<usize>, r: Result<String, GraphError>)
    requires
        g.wf(),
        crate::graph::has_cycle(g, cycle),
        sql_outcome(g, r),
    ensures
        r matches Err(GraphError::CompositeCycle(_)),
{
    let d = deps_view(g.deps@);
    if let Ok(s1) = r {
        let o1 = choose|order: Seq<usize>| is_stable_order(d, order) && s1@ == #[trigger] nodes_sql(g.nodes@, order);
        crate::order::lemma_stable_is_topological(d, o1);
        crate::graph::lemma_cycle_has_no_order(g, cycle, o1);
    }
}

} // verus!
