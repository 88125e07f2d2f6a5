use pgx_schema::returning::{NameMacro, ReturnType, Returning, ReturningIteratedItem};
use pgx_schema::type_expr::{GenericArgument, MacroArg, PathArguments, PathSegment, TypeBound, TypeExpr, TypeMacro};
use pgx_schema::used_type::{ClassifyErrorKind, Leaf, UsedType, Wrapper};

fn seg(ident: &str) -> PathSegment {
    PathSegment { ident: ident.to_string(), args: PathArguments::Bare }
}

fn path(idents: &[&str]) -> TypeExpr {
    TypeExpr::Path(idents.iter().map(|i| seg(i)).collect())
}

fn generic(ident: &str, inner: TypeExpr) -> TypeExpr {
    TypeExpr::Path(vec![PathSegment {
        ident: ident.to_string(),
        args: PathArguments::AngleBracketed(vec![GenericArgument::Type(inner)]),
    }])
}

fn mac(name: &str, args: Vec<MacroArg>) -> TypeExpr {
    TypeExpr::Macro(TypeMacro { path: vec![name.to_string()], args })
}

fn name_marker(col: &str, ty: TypeExpr) -> TypeExpr {
    mac("name", vec![MacroArg::Ident(col.to_string()), MacroArg::Type(ty)])
}

fn iterator_of(item: TypeExpr) -> TypeExpr {
    TypeExpr::ImplTrait(vec![TypeBound::Trait(vec![PathSegment {
        ident: "Iterator".to_string(),
        args: PathArguments::AngleBracketed(vec![GenericArgument::Binding("Item".to_string(), item)]),
    }])])
}

fn scalar(sql: &str) -> UsedType {
    UsedType { wrappers: vec![], leaf: Leaf::Scalar(sql.to_string()), default: None }
}

fn classify(ty: TypeExpr) -> Result<Returning, ClassifyErrorKind> {
    Returning::try_from(&ReturnType::Type(ty)).map_err(|e| e.kind)
}

#[test]
fn no_return_type_is_nothing() {
    assert_eq!(Returning::try_from(&ReturnType::Default).unwrap(), Returning::Nothing);
}

#[test]
fn unit_tuple_is_nothing() {
    assert_eq!(classify(TypeExpr::Tuple(vec![])).unwrap(), Returning::Nothing);
}

#[test]
fn scalar_return_is_type() {
    assert_eq!(classify(path(&["i32"])).unwrap(), Returning::Type(scalar("integer")));
}

#[test]
fn optional_vec_return_keeps_wrapper_order() {
    let ty = generic("Option", generic("Vec", path(&["String"])));
    let expected = UsedType {
        wrappers: vec![Wrapper::Optional, Wrapper::List],
        leaf: Leaf::Scalar("text".to_string()),
        default: None,
    };
    assert_eq!(classify(ty).unwrap(), Returning::Type(expected));
}

#[test]
fn reference_to_str_is_text() {
    assert_eq!(classify(TypeExpr::Reference(Box::new(path(&["str"])))).unwrap(), Returning::Type(scalar("text")));
}

#[test]
fn single_anonymous_stream_column_is_set_of() {
    let ty = iterator_of(TypeExpr::Tuple(vec![path(&["i32"])]));
    assert_eq!(classify(ty).unwrap(), Returning::SetOf(scalar("integer")));
}

#[test]
fn single_anonymous_tuple_is_set_of() {
    assert_eq!(classify(TypeExpr::Tuple(vec![path(&["i64"])])).unwrap(), Returning::SetOf(scalar("bigint")));
}

#[test]
fn stream_of_path_is_set_of() {
    assert_eq!(classify(iterator_of(path(&["bool"]))).unwrap(), Returning::SetOf(scalar("boolean")));
}

#[test]
fn named_columns_keep_declaration_order() {
    let ty = iterator_of(TypeExpr::Tuple(vec![
        path(&["String"]),
        name_marker("count", path(&["i64"])),
        path(&["bool"]),
    ]));
    let expected = Returning::Iterated(vec![
        ReturningIteratedItem { used_ty: scalar("text"), name: None },
        ReturningIteratedItem { used_ty: scalar("bigint"), name: Some("count".to_string()) },
        ReturningIteratedItem { used_ty: scalar("boolean"), name: None },
    ]);
    assert_eq!(classify(ty).unwrap(), expected);
}

#[test]
fn single_named_column_stays_iterated() {
    let ty = TypeExpr::Tuple(vec![name_marker("id", path(&["i32"]))]);
    let expected = Returning::Iterated(vec![ReturningIteratedItem {
        used_ty: scalar("integer"),
        name: Some("id".to_string()),
    }]);
    assert_eq!(classify(ty).unwrap(), expected);
}

#[test]
fn bare_name_marker_is_one_named_column() {
    let expected = Returning::Iterated(vec![ReturningIteratedItem {
        used_ty: scalar("text"),
        name: Some("label".to_string()),
    }]);
    assert_eq!(classify(name_marker("label", path(&["String"]))).unwrap(), expected);
}

#[test]
fn name_marker_accepts_listed_keywords() {
    let args = vec![MacroArg::Keyword("type".to_string()), MacroArg::Ident("i32".to_string())];
    let m = NameMacro::parse(&args).unwrap();
    assert_eq!(m.ident, "type");
    assert_eq!(m.used_ty, scalar("integer"));
}

#[test]
fn name_marker_rejects_other_keywords() {
    let args = vec![MacroArg::Keyword("fn".to_string()), MacroArg::Ident("i32".to_string())];
    assert_eq!(NameMacro::parse(&args).unwrap_err().kind, ClassifyErrorKind::MalformedMacro);
}

#[test]
fn nested_name_marker_is_malformed() {
    let ty = TypeExpr::Tuple(vec![name_marker("a", name_marker("b", path(&["i32"]))), path(&["i32"])]);
    assert_eq!(classify(ty).unwrap_err(), ClassifyErrorKind::MalformedMacro);
}

#[test]
fn trigger_marker_alone_is_trigger() {
    assert_eq!(classify(path(&["Datum"])).unwrap(), Returning::Trigger);
    assert_eq!(classify(path(&["pg_sys", "Datum"])).unwrap(), Returning::Trigger);
    assert_eq!(classify(path(&["pgx", "pg_sys", "Datum"])).unwrap(), Returning::Trigger);
}

#[test]
fn datum_under_other_path_is_not_trigger() {
    assert_eq!(classify(path(&["other", "Datum"])).unwrap_err(), ClassifyErrorKind::UnsupportedType);
}

#[test]
fn composite_marker_return_is_type() {
    let ty = mac("composite_type", vec![MacroArg::Literal("Dog".to_string())]);
    let expected = UsedType { wrappers: vec![], leaf: Leaf::Composite("Dog".to_string()), default: None };
    assert_eq!(classify(ty).unwrap(), Returning::Type(expected));
}

#[test]
fn parenthesized_marker_is_read() {
    let ty = TypeExpr::Paren(Box::new(mac("composite_type", vec![MacroArg::Ident("DOG".to_string())])));
    let expected = UsedType { wrappers: vec![], leaf: Leaf::Composite("DOG".to_string()), default: None };
    assert_eq!(classify(ty).unwrap(), Returning::Type(expected));
}

#[test]
fn parenthesized_plain_type_is_rejected() {
    let ty = TypeExpr::Paren(Box::new(path(&["i32"])));
    assert_eq!(classify(ty).unwrap_err(), ClassifyErrorKind::UnsupportedReturn);
}

#[test]
fn optional_stream_is_read_through() {
    let ty = generic("Option", iterator_of(path(&["i16"])));
    assert_eq!(classify(ty).unwrap(), Returning::SetOf(scalar("smallint")));
}

#[test]
fn other_trait_bound_is_rejected() {
    let ty = TypeExpr::ImplTrait(vec![TypeBound::Trait(vec![seg("Display")])]);
    assert_eq!(classify(ty).unwrap_err(), ClassifyErrorKind::UnsupportedReturn);
}

#[test]
fn lifetime_bound_is_nothing() {
    assert_eq!(classify(TypeExpr::TraitObject(vec![TypeBound::Lifetime])).unwrap(), Returning::Nothing);
}

#[test]
fn unknown_form_is_rejected() {
    assert_eq!(classify(TypeExpr::Other("[i32; 3]".to_string())).unwrap_err(), ClassifyErrorKind::UnsupportedReturn);
}

#[test]
fn unknown_macro_is_rejected() {
    assert_eq!(classify(mac("sql", vec![])).unwrap_err(), ClassifyErrorKind::UnsupportedMacro);
}

#[test]
fn unknown_scalar_is_rejected() {
    let err = Returning::try_from(&ReturnType::Type(path(&["HashMap"]))).unwrap_err();
    assert_eq!(err.kind, ClassifyErrorKind::UnsupportedType);
    assert_eq!(err.construct, "HashMap");
}

#[test]
fn default_marker_records_sql_text() {
    let ty = mac(
        "default",
        vec![
            MacroArg::Type(generic("Vec", mac("composite_type", vec![MacroArg::Literal("Dog".to_string())]))),
            MacroArg::Literal("ARRAY[ROW('Nami', 0)]::Dog[]".to_string()),
        ],
    );
    let expected = UsedType {
        wrappers: vec![Wrapper::List],
        leaf: Leaf::Composite("Dog".to_string()),
        default: Some("ARRAY[ROW('Nami', 0)]::Dog[]".to_string()),
    };
    assert_eq!(UsedType::new(&ty).unwrap(), expected);
}

#[test]
fn default_marker_below_a_wrapper_is_malformed() {
    let inner = mac("default", vec![MacroArg::Ident("i32".to_string()), MacroArg::Literal("0".to_string())]);
    let ty = generic("Option", inner);
    assert_eq!(UsedType::new(&ty).unwrap_err().kind, ClassifyErrorKind::MalformedMacro);
}

#[test]
fn variadic_array_wrapper_is_recorded() {
    let ty = generic("VariadicArray", path(&["i32"]));
    let u = UsedType::new(&ty).unwrap();
    assert_eq!(u.wrappers, vec![Wrapper::VariadicArray]);
    assert_eq!(u.leaf, Leaf::Scalar("integer".to_string()));
}
