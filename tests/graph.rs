use pgx_schema::graph::{CompositeEntity, EntityGraph, EntityNode, FunctionEntity, GraphError, Parameter};
use pgx_schema::returning::{Returning, ReturningIteratedItem};
use pgx_schema::sql::push_returning;
use pgx_schema::used_type::{Leaf, UsedType, Wrapper};

fn scalar(sql: &str) -> UsedType {
    UsedType { wrappers: vec![], leaf: Leaf::Scalar(sql.to_string()), default: None }
}

fn composite(name: &str, wrappers: Vec<Wrapper>) -> UsedType {
    UsedType { wrappers, leaf: Leaf::Composite(name.to_string()), default: None }
}

fn param(name: &str, used_ty: UsedType) -> Parameter {
    Parameter { name: name.to_string(), used_ty }
}

fn dog() -> EntityNode {
    EntityNode::CompositeType(CompositeEntity {
        name: "Dog".to_string(),
        attributes: vec![param("name", scalar("text")), param("scritches", scalar("integer"))],
    })
}

fn sum_scritches() -> EntityNode {
    EntityNode::Function(FunctionEntity {
        name: "sum_scritches".to_string(),
        schema: "public".to_string(),
        params: vec![param("dogs", composite("Dog", vec![Wrapper::List]))],
        returning: Returning::Type(scalar("integer")),
    })
}

#[test]
fn composite_is_emitted_before_its_user() {
    let g = EntityGraph::build(vec![sum_scritches(), dog()]).unwrap();
    assert_eq!(g.deps, vec![vec![1], vec![]]);
    assert_eq!(g.linearize().unwrap(), vec![1, 0]);
    let sql = g.to_sql().unwrap();
    assert_eq!(
        sql,
        "CREATE TYPE Dog AS (name text, scritches integer);\n\
         CREATE FUNCTION public.sum_scritches(dogs Dog[]) RETURNS integer LANGUAGE c AS 'MODULE_PATHNAME', 'sum_scritches_wrapper';\n"
    );
}

#[test]
fn independent_nodes_keep_declaration_order() {
    let cat = EntityNode::CompositeType(CompositeEntity {
        name: "Cat".to_string(),
        attributes: vec![param("boops", scalar("integer"))],
    });
    let g = EntityGraph::build(vec![cat, dog()]).unwrap();
    assert_eq!(g.linearize().unwrap(), vec![0, 1]);
}

#[test]
fn every_edge_points_backwards_in_the_order() {
    let friendship = EntityNode::CompositeType(CompositeEntity {
        name: "Friendship".to_string(),
        attributes: vec![param("a", composite("Dog", vec![])), param("b", composite("Cat", vec![]))],
    });
    let cat = EntityNode::CompositeType(CompositeEntity {
        name: "Cat".to_string(),
        attributes: vec![param("boops", scalar("integer"))],
    });
    let g = EntityGraph::build(vec![sum_scritches(), friendship, dog(), cat]).unwrap();
    let order = g.linearize().unwrap();
    assert_eq!(order, vec![2, 0, 3, 1]);
    for (a, deps) in g.deps.iter().enumerate() {
        let pa = order.iter().position(|&x| x == a).unwrap();
        for &b in deps {
            let pb = order.iter().position(|&x| x == b).unwrap();
            assert!(pb < pa);
        }
    }
}

#[test]
fn linearizing_twice_gives_identical_output() {
    let g = EntityGraph::build(vec![sum_scritches(), dog()]).unwrap();
    assert_eq!(g.to_sql().unwrap(), g.to_sql().unwrap());
    assert_eq!(g.linearize().unwrap(), g.linearize().unwrap());
}

#[test]
fn unresolved_composite_is_reported() {
    let err = EntityGraph::build(vec![sum_scritches()]).unwrap_err();
    assert_eq!(err, GraphError::UnresolvedType("Dog".to_string()));
}

#[test]
fn self_referencing_composite_is_rejected() {
    let node = EntityNode::CompositeType(CompositeEntity {
        name: "Node".to_string(),
        attributes: vec![param("next", composite("Node", vec![Wrapper::Optional]))],
    });
    let g = EntityGraph::build(vec![node]).unwrap();
    assert_eq!(g.to_sql().unwrap_err(), GraphError::CompositeCycle(vec!["Node".to_string()]));
}

#[test]
fn transitive_cycle_is_rejected_with_its_dependents() {
    let a = EntityNode::CompositeType(CompositeEntity {
        name: "A".to_string(),
        attributes: vec![param("b", composite("B", vec![]))],
    });
    let b = EntityNode::CompositeType(CompositeEntity {
        name: "B".to_string(),
        attributes: vec![param("a", composite("A", vec![Wrapper::Array]))],
    });
    let user = EntityNode::Function(FunctionEntity {
        name: "use_a".to_string(),
        schema: "public".to_string(),
        params: vec![param("a", composite("A", vec![]))],
        returning: Returning::Nothing,
    });
    let g = EntityGraph::build(vec![a, b, user, dog()]).unwrap();
    assert_eq!(
        g.linearize().unwrap_err(),
        GraphError::CompositeCycle(vec!["A".to_string(), "B".to_string(), "use_a".to_string()])
    );
}

#[test]
fn parameters_render_variadic_and_default() {
    let f = EntityNode::Function(FunctionEntity {
        name: "names".to_string(),
        schema: "tests".to_string(),
        params: vec![
            Parameter {
                name: "dogs".to_string(),
                used_ty: UsedType {
                    wrappers: vec![Wrapper::VariadicArray],
                    leaf: Leaf::Composite("Dog".to_string()),
                    default: Some("ARRAY[ROW('Nami', 0)]::Dog[]".to_string()),
                },
            },
        ],
        returning: Returning::Type(UsedType {
            wrappers: vec![Wrapper::List],
            leaf: Leaf::Scalar("text".to_string()),
            default: None,
        }),
    });
    let g = EntityGraph::build(vec![dog(), f]).unwrap();
    let sql = g.to_sql().unwrap();
    assert!(sql.ends_with(
        "CREATE FUNCTION tests.names(VARIADIC dogs Dog[] DEFAULT ARRAY[ROW('Nami', 0)]::Dog[]) RETURNS text[] LANGUAGE c AS 'MODULE_PATHNAME', 'names_wrapper';\n"
    ));
}

#[test]
fn table_columns_render_names_and_positions() {
    let r = Returning::Iterated(vec![
        ReturningIteratedItem { used_ty: scalar("text"), name: Some("dog".to_string()) },
        ReturningIteratedItem { used_ty: scalar("integer"), name: None },
    ]);
    let mut out = String::new();
    push_returning(&mut out, &r);
    assert_eq!(out, "TABLE (dog text, column2 integer)");
}

#[test]
fn other_shapes_render() {
    let mut out = String::new();
    push_returning(&mut out, &Returning::SetOf(scalar("bigint")));
    assert_eq!(out, "SETOF bigint");
    let mut out = String::new();
    push_returning(&mut out, &Returning::Trigger);
    assert_eq!(out, "trigger");
    let mut out = String::new();
    push_returning(&mut out, &Returning::Nothing);
    assert_eq!(out, "void");
}

#[test]
fn column_numbers_past_nine_are_decimal() {
    let mut items = Vec::new();
    for _ in 0..12 {
        items.push(ReturningIteratedItem { used_ty: scalar("integer"), name: None });
    }
    let mut out = String::new();
    push_returning(&mut out, &Returning::Iterated(items));
    assert!(out.ends_with("column11 integer, column12 integer)"));
}
