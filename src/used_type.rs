//! Resolution of a type in parameter or return position to a `UsedType`:
//! container wrappers peeled from the outside in, down to a scalar or a
//! named composite type.

use vstd::prelude::*;
use crate::text::str_eq;
use crate::type_expr::{GenericArgument, MacroArg, PathArguments, PathSegment, TypeExpr, TypeMacro};

verus! {

/// A container layer around a used type.
#[derive(Debug, Clone, Copy, PartialEq, Eq, Structural)]
pub enum Wrapper {
    /// `Option<T>`: the value may be SQL `NULL`.
    Optional,
    /// `Vec<T>`
    List,
    /// `Array<T>`
    Array,
    /// `VariadicArray<T>`
    VariadicArray,
    /// `Box<T>`
    Boxed,
}

/// What a used type resolves to once its wrappers are peeled.
#[derive(Debug, Clone, PartialEq, Eq)]
pub enum Leaf {
    /// A scalar, by its SQL type name.
    Scalar(String),
    /// A composite type, by the literal or symbolic name its marker carries.
    Composite(String),
}

/// A resolved reference to a type used by a parameter or a result.
#[derive(Debug, Clone, PartialEq, Eq)]
pub struct UsedType {
    /// Wrapper layers, outermost first.
    pub wrappers: Vec<Wrapper>,
    pub leaf: Leaf,
    /// The SQL default expression of a `default!` parameter.
    pub default: Option<String>,
}

/// Why a type or return type could not be classified.
#[derive(Debug, Clone, Copy, PartialEq, Eq, Structural)]
pub enum ClassifyErrorKind {
    /// A leaf that is neither a known scalar nor a composite marker.
    UnsupportedType,
    /// A type macro other than the recognized markers.
    UnsupportedMacro,
    /// A recognized marker with arguments of the wrong shape or place.
    MalformedMacro,
    /// A return type form that no classification rule covers.
    UnsupportedReturn,
}

/// A classification failure, with a description of the offending construct.
#[derive(Debug, Clone, PartialEq, Eq)]
pub struct ClassifyError {
    pub kind: ClassifyErrorKind,
    pub construct: String,
}

pub enum LeafView {
    Scalar(Seq<char>),
    Composite(Seq<char>),
}

pub struct UsedTypeView {
    pub wrappers: Seq<Wrapper>,
    pub leaf: LeafView,
    pub default: Option<Seq<char>>,
}

impl View for Leaf {
    type V = LeafView;

    open spec fn view(&self) -> LeafView {
        match self {
            Leaf::Scalar(s) => LeafView::Scalar(s@),
            Leaf::Composite(s) => LeafView::Composite(s@),
        }
    }
}

impl View for UsedType {
    type V = UsedTypeView;

    open spec fn view(&self) -> UsedTypeView {
        UsedTypeView {
            wrappers: self.wrappers@,
            leaf: self.leaf@,
            default: match self.default {
                Some(d) => Some(d@),
                None => None,
            },
        }
    }
}

/// The SQL type name of a known scalar, by its Rust type identifier.
pub open spec fn sql_scalar(name: Seq<char>) -> Option<Seq<char>> {
    if name == "bool"@ {
        Some("boolean"@)
    } else if name == "i16"@ {
        Some("smallint"@)
    } else if name == "i32"@ {
        Some("integer"@)
    } else if name == "i64"@ {
        Some("bigint"@)
    } else if name == "f32"@ {
        Some("real"@)
    } else if name == "f64"@ {
        Some("double precision"@)
    } else if name == "String"@ || name == "str"@ {
        Some("text"@)
    } else if name == "char"@ {
        Some("varchar"@)
    } else if name == "Numeric"@ {
        Some("numeric"@)
    } else if name == "Date"@ {
        Some("date"@)
    } else if name == "Time"@ {
        Some("time"@)
    } else if name == "Timestamp"@ {
        Some("timestamp"@)
    } else if name == "TimestampWithTimeZone"@ {
        Some("timestamp with time zone"@)
    } else if name == "Json"@ {
        Some("json"@)
    } else if name == "JsonB"@ {
        Some("jsonb"@)
    } else if name == "Uuid"@ {
        Some("uuid"@)
    } else if name == "Internal"@ {
        Some("internal"@)
    } else if name == "Oid"@ {
        Some("oid"@)
    } else {
        None
    }
}

/// The wrapper that a container identifier stands for.
pub open spec fn wrapper_of(ident: Seq<char>) -> Option<Wrapper> {
    if ident == "Option"@ {
        Some(Wrapper::Optional)
    } else if ident == "Vec"@ {
        Some(Wrapper::List)
    } else if ident == "Array"@ {
        Some(Wrapper::Array)
    } else if ident == "VariadicArray"@ {
        Some(Wrapper::VariadicArray)
    } else if ident == "Box"@ {
        Some(Wrapper::Boxed)
    } else {
        None
    }
}

/// The identifier that names a type macro: the last segment of its path.
pub open spec fn macro_name(m: TypeMacro) -> Seq<char> {
    if m.path@.len() == 0 {
        Seq::empty()
    } else {
        m.path@.last()@
    }
}

/// The first type argument of a path segment, if its first generic
/// argument is a type.
pub open spec fn first_type_arg(seg: PathSegment) -> Option<TypeExpr> {
    match seg.args {
        PathArguments::AngleBracketed(args) => {
            if args@.len() > 0 {
                match args@[0] {
                    GenericArgument::Type(t) => Some(t),
                    _ => None,
                }
            } else {
                None
            }
        },
        _ => None,
    }
}

/// A bare identifier read as a type: a known scalar or nothing.
pub open spec fn leaf_of_ident(name: Seq<char>) -> Result<(Seq<Wrapper>, LeafView), ClassifyErrorKind> {
    match sql_scalar(name) {
        Some(sql) => Ok((Seq::empty(), LeafView::Scalar(sql))),
        None => Err(ClassifyErrorKind::UnsupportedType),
    }
}

/// The composite marker `composite_type!(name)`, read as a leaf.
pub open spec fn composite_leaf(m: TypeMacro) -> Result<(Seq<Wrapper>, LeafView), ClassifyErrorKind> {
    if m.args@.len() == 1 {
        match m.args@[0] {
            MacroArg::Literal(n) => Ok((Seq::empty(), LeafView::Composite(n@))),
            MacroArg::Ident(n) => Ok((Seq::empty(), LeafView::Composite(n@))),
            _ => Err(ClassifyErrorKind::MalformedMacro),
        }
    } else {
        Err(ClassifyErrorKind::MalformedMacro)
    }
}

/// The wrapper stack (outermost first) and leaf of a type without a default.
pub open spec fn resolve_layers(ty: TypeExpr) -> Result<(Seq<Wrapper>, LeafView), ClassifyErrorKind>
    decreases ty,
{
    match ty {
        TypeExpr::Path(segs) => {
            if segs@.len() == 0 {
                Err(ClassifyErrorKind::UnsupportedType)
            } else {
                let last = segs@.last();
                match wrapper_of(last.ident@) {
                    Some(w) => match last.args {
                        PathArguments::AngleBracketed(args) => {
                            if args@.len() > 0 {
                                match args@[0] {
                                    GenericArgument::Type(inner) => match resolve_layers(inner) {
                                        Ok(r) => Ok((seq![w] + r.0, r.1)),
                                        Err(e) => Err(e),
                                    },
                                    _ => Err(ClassifyErrorKind::UnsupportedType),
                                }
                            } else {
                                Err(ClassifyErrorKind::UnsupportedType)
                            }
                        },
                        _ => Err(ClassifyErrorKind::UnsupportedType),
                    },
                    None => leaf_of_ident(last.ident@),
                }
            }
        },
        TypeExpr::Reference(inner) => resolve_layers(*inner),
        TypeExpr::Paren(inner) => resolve_layers(*inner),
        TypeExpr::Macro(m) => {
            if macro_name(m) == "composite_type"@ {
                composite_leaf(m)
            } else if macro_name(m) == "default"@ || macro_name(m) == "name"@ {
                Err(ClassifyErrorKind::MalformedMacro)
            } else {
                Err(ClassifyErrorKind::UnsupportedMacro)
            }
        },
        _ => Err(ClassifyErrorKind::UnsupportedType),
    }
}

pub open spec fn with_default(
    r: Result<(Seq<Wrapper>, LeafView), ClassifyErrorKind>,
    default: Option<Seq<char>>,
) -> Result<UsedTypeView, ClassifyErrorKind> {
    match r {
        Ok(p) => Ok(UsedTypeView { wrappers: p.0, leaf: p.1, default }),
        Err(e) => Err(e),
    }
}

/// The used type that a type expression resolves to. A `default!(T, "sql")`
/// marker is only read at the outermost position.
pub open spec fn spec_used_type(ty: TypeExpr) -> Result<UsedTypeView, ClassifyErrorKind> {
    match ty {
        TypeExpr::Macro(m) => {
            if macro_name(m) == "default"@ {
                if m.args@.len() == 2 {
                    match m.args@[1] {
                        MacroArg::Literal(d) => match m.args@[0] {
                            MacroArg::Type(t) => with_default(resolve_layers(t), Some(d@)),
                            MacroArg::Ident(n) => with_default(leaf_of_ident(n@), Some(d@)),
                            _ => Err(ClassifyErrorKind::MalformedMacro),
                        },
                        _ => Err(ClassifyErrorKind::MalformedMacro),
                    }
                } else {
                    Err(ClassifyErrorKind::MalformedMacro)
                }
            } else {
                with_default(resolve_layers(ty), None)
            }
        },
        _ => with_default(resolve_layers(ty), None),
    }
}

/// The result of a resolution, taken apart: the view of the type on success,
/// the error kind on failure.
pub open spec fn used_type_result(r: Result<UsedType, ClassifyError>) -> Result<UsedTypeView, ClassifyErrorKind> {
    match r {
        Ok(u) => Ok(u@),
        Err(e) => Err(e.kind),
    }
}

pub fn classify_error(kind: ClassifyErrorKind, construct: &str) -> (e: ClassifyError)
    ensures
        e.kind == kind,
        e.construct@ == construct@,
{
    ClassifyError { kind, construct: String::from_str(construct) }
}

/// The SQL type name of a known scalar identifier.
pub fn sql_scalar_name(name: &str) -> (r: Option<String>)
    ensures
        match r {
            Some(s) => sql_scalar(name@) == Some(s@),
            None => sql_scalar(name@) is None,
        },
{
    let sql = if str_eq(name, "bool") {
        "boolean"
    } else if str_eq(name, "i16") {
        "smallint"
    } else if str_eq(name, "i32") {
        "integer"
    } else if str_eq(name, "i64") {
        "bigint"
    } else if str_eq(name, "f32") {
        "real"
    } else if str_eq(name, "f64") {
        "double precision"
    } else if str_eq(name, "String") || str_eq(name, "str") {
        "text"
    } else if str_eq(name, "char") {
        "varchar"
    } else if str_eq(name, "Numeric") {
        "numeric"
    } else if str_eq(name, "Date") {
        "date"
    } else if str_eq(name, "Time") {
        "time"
    } else if str_eq(name, "Timestamp") {
        "timestamp"
    } else if str_eq(name, "TimestampWithTimeZone") {
        "timestamp with time zone"
    } else if str_eq(name, "Json") {
        "json"
    } else if str_eq(name, "JsonB") {
        "jsonb"
    } else if str_eq(name, "Uuid") {
        "uuid"
    } else if str_eq(name, "Internal") {
        "internal"
    } else if str_eq(name, "Oid") {
        "oid"
    } else {
        return None;
    };
    Some(String::from_str(sql))
}

fn wrapper_from_ident(ident: &str) -> (r: Option<Wrapper>)
    ensures
        r == wrapper_of(ident@),
{
    if str_eq(ident, "Option") {
        Some(Wrapper::Optional)
    } else if str_eq(ident, "Vec") {
        Some(Wrapper::List)
    } else if str_eq(ident, "Array") {
        Some(Wrapper::Array)
    } else if str_eq(ident, "VariadicArray") {
        Some(Wrapper::VariadicArray)
    } else if str_eq(ident, "Box") {
        Some(Wrapper::Boxed)
    } else {
        None
    }
}

/// The identifier that names a type macro.
pub fn macro_name_of(m: &TypeMacro) -> (r: &str)
    ensures
        r@ == macro_name(*m),
{
    if m.path.len() == 0 {
        proof {
            reveal_strlit("");
        }
        ""
    } else {
        m.path[m.path.len() - 1].as_str()
    }
}

fn ident_leaf(name: &String) -> (r: Result<(Vec<Wrapper>, Leaf), ClassifyError>)
    ensures
        match r {
            Ok(p) => leaf_of_ident(name@) == Ok::<(Seq<Wrapper>, LeafView), ClassifyErrorKind>((p.0@, p.1@)),
            Err(e) => leaf_of_ident(name@) == Err::<(Seq<Wrapper>, LeafView), ClassifyErrorKind>(e.kind),
        },
{
    match sql_scalar_name(name.as_str()) {
        Some(sql) => Ok((Vec::new(), Leaf::Scalar(sql))),
        None => Err(ClassifyError { kind: ClassifyErrorKind::UnsupportedType, construct: name.clone() }),
    }
}

fn composite_marker_leaf(m: &TypeMacro) -> (r: Result<(Vec<Wrapper>, Leaf), ClassifyError>)
    ensures
        match r {
            Ok(p) => composite_leaf(*m) == Ok::<(Seq<Wrapper>, LeafView), ClassifyErrorKind>((p.0@, p.1@)),
            Err(e) => composite_leaf(*m) == Err::<(Seq<Wrapper>, LeafView), ClassifyErrorKind>(e.kind),
        },
{
    if m.args.len() == 1 {
        match &m.args[0] {
            MacroArg::Literal(n) => Ok((Vec::new(), Leaf::Composite(n.clone()))),
            MacroArg::Ident(n) => Ok((Vec::new(), Leaf::Composite(n.clone()))),
            _ => Err(classify_error(ClassifyErrorKind::MalformedMacro, "composite_type!")),
        }
    } else {
        Err(classify_error(ClassifyErrorKind::MalformedMacro, "composite_type!"))
    }
}

fn resolve_layers_exec(ty: &TypeExpr) -> (r: Result<(Vec<Wrapper>, Leaf), ClassifyError>)
    ensures
        match r {
            Ok(p) => resolve_layers(*ty) == Ok::<(Seq<Wrapper>, LeafView), ClassifyErrorKind>((p.0@, p.1@)),
            Err(e) => resolve_layers(*ty) == Err::<(Seq<Wrapper>, LeafView), ClassifyErrorKind>(e.kind),
        },
    decreases ty,
{
    match ty {
        TypeExpr::Path(segs) => {
            if segs.len() == 0 {
                return Err(classify_error(ClassifyErrorKind::UnsupportedType, "empty path"));
            }
            let last = &segs[segs.len() - 1];
            match wrapper_from_ident(last.ident.as_str()) {
                Some(w) => match &last.args {
                    PathArguments::AngleBracketed(args) => {
                        if args.len() > 0 {
                            match &args[0] {
                                GenericArgument::Type(inner) => {
                                    assert(decreases_to!(segs@ => segs@[segs@.len() - 1]));
                                    match resolve_layers_exec(inner) {
                                        Ok(p) => {
                                            let (mut ws, leaf) = p;
                                            ws.insert(0, w);
                                            assert(ws@ =~= seq![w] + p.0@);
                                            Ok((ws, leaf))
                                        },
                                        Err(e) => Err(e),
                                    }
                                },
                                _ => Err(classify_error(ClassifyErrorKind::UnsupportedType, last.ident.as_str())),
                            }
                        } else {
                            Err(classify_error(ClassifyErrorKind::UnsupportedType, last.ident.as_str()))
                        }
                    },
                    _ => Err(classify_error(ClassifyErrorKind::UnsupportedType, last.ident.as_str())),
                },
                None => ident_leaf(&last.ident),
            }
        },
        TypeExpr::Reference(inner) => resolve_layers_exec(inner),
        TypeExpr::Paren(inner) => resolve_layers_exec(inner),
        TypeExpr::Macro(m) => {
            let name = macro_name_of(m);
            if str_eq(name, "composite_type") {
                composite_marker_leaf(m)
            } else if str_eq(name, "default") || str_eq(name, "name") {
                Err(classify_error(ClassifyErrorKind::MalformedMacro, name))
            } else {
                Err(classify_error(ClassifyErrorKind::UnsupportedMacro, name))
            }
        },
        TypeExpr::Tuple(_) => Err(classify_error(ClassifyErrorKind::UnsupportedType, "tuple")),
        TypeExpr::ImplTrait(_) => Err(classify_error(ClassifyErrorKind::UnsupportedType, "impl trait")),
        TypeExpr::TraitObject(_) => Err(classify_error(ClassifyErrorKind::UnsupportedType, "trait object")),
        TypeExpr::Other(text) => Err(ClassifyError { kind: ClassifyErrorKind::UnsupportedType, construct: text.clone() }),
    }
}

fn attach_default(
    r: Result<(Vec<Wrapper>, Leaf), ClassifyError>,
    default: Option<String>,
) -> (u: Result<UsedType, ClassifyError>)
    ensures
        match r {
            Ok(p) => u matches Ok(t) && t@ == (UsedTypeView {
                wrappers: p.0@,
                leaf: p.1@,
                default: match default {
                    Some(d) => Some(d@),
                    None => None,
                },
            }),
            Err(e) => u matches Err(e2) && e2.kind == e.kind,
        },
{
    match r {
        Ok(p) => {
            let (wrappers, leaf) = p;
            Ok(UsedType { wrappers, leaf, default })
        },
        Err(e) => Err(e),
    }
}

impl UsedType {
    /// Resolves a type expression, peeling container wrappers outermost
    /// first; a `default!(T, "sql")` marker is only read at the outermost
    /// position and records its SQL text.
    pub fn new(ty: &TypeExpr) -> (r: Result<UsedType, ClassifyError>)
        ensures
            used_type_result(r) == spec_used_type(*ty),
    {
        if let TypeExpr::Macro(m) = ty {
            if str_eq(macro_name_of(m), "default") {
                if m.args.len() != 2 {
                    return Err(classify_error(ClassifyErrorKind::MalformedMacro, "default!"));
                }
                return match &m.args[1] {
                    MacroArg::Literal(d) => match &m.args[0] {
                        MacroArg::Type(t) => attach_default(resolve_layers_exec(t), Some(d.clone())),
                        MacroArg::Ident(n) => attach_default(ident_leaf(n), Some(d.clone())),
                        _ => Err(classify_error(ClassifyErrorKind::MalformedMacro, "default!")),
                    },
                    _ => Err(classify_error(ClassifyErrorKind::MalformedMacro, "default!")),
                };
            }
        }
        attach_default(resolve_layers_exec(ty), None)
    }
}

} // verus!
