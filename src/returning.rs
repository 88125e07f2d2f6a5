//! The return-shape classifier: what kind of result a declared function
//! produces, read from its declared return type.

use vstd::prelude::*;
use crate::text::str_eq;
use crate::type_expr::{GenericArgument, MacroArg, PathArguments, PathSegment, TypeBound, TypeExpr, TypeMacro};
use crate::used_type::{
    classify_error, leaf_of_ident, macro_name, macro_name_of, spec_used_type, used_type_result,
    with_default, ClassifyError, ClassifyErrorKind, Leaf, UsedType, UsedTypeView,
};

verus! {

/// A declared return type: absent, or a type.
#[derive(Debug, PartialEq, Eq)]
pub enum ReturnType {
    Default,
    Type(TypeExpr),
}

/// One output column of a table-shaped result.
#[derive(Debug, Clone, PartialEq, Eq)]
pub struct ReturningIteratedItem {
    pub used_ty: UsedType,
    /// The column name given by a `name!` marker.
    pub name: Option<String>,
}

/// The shape of a function's result.
#[derive(Debug, Clone, PartialEq, Eq)]
pub enum Returning {
    /// No value.
    Nothing,
    /// One value of a type.
    Type(UsedType),
    /// A stream of values of one column.
    SetOf(UsedType),
    /// A table: ordered output columns, each named or anonymous.
    Iterated(Vec<ReturningIteratedItem>),
    /// A trigger response.
    Trigger,
}

/// The `name!(ident, Type)` marker: a column name and its type.
#[derive(Debug, Clone, PartialEq, Eq)]
pub struct NameMacro {
    pub ident: String,
    pub used_ty: UsedType,
}

pub struct ItemView {
    pub used_ty: UsedTypeView,
    pub name: Option<Seq<char>>,
}

pub enum ReturningView {
    Nothing,
    Type(UsedTypeView),
    SetOf(UsedTypeView),
    Iterated(Seq<ItemView>),
    Trigger,
}

impl View for ReturningIteratedItem {
    type V = ItemView;

    open spec fn view(&self) -> ItemView {
        ItemView {
            used_ty: self.used_ty@,
            name: match self.name {
                Some(n) => Some(n@),
                None => None,
            },
        }
    }
}

pub open spec fn items_view(items: Seq<ReturningIteratedItem>) -> Seq<ItemView> {
    items.map_values(|i: ReturningIteratedItem| i@)
}

impl View for Returning {
    type V = ReturningView;

    open spec fn view(&self) -> ReturningView {
        match self {
            Returning::Nothing => ReturningView::Nothing,
            Returning::Type(u) => ReturningView::Type(u@),
            Returning::SetOf(u) => ReturningView::SetOf(u@),
            Returning::Iterated(items) => ReturningView::Iterated(items_view(items@)),
            Returning::Trigger => ReturningView::Trigger,
        }
    }
}

/// Keywords that a `name!` marker accepts as a column name.
pub open spec fn name_keyword(k: Seq<char>) -> bool {
    k == "type"@ || k == "mod"@ || k == "extern"@ || k == "async"@ || k == "crate"@ || k == "use"@
}

/// The column name that the first argument of a `name!` marker gives.
pub open spec fn column_name(a: MacroArg) -> Option<Seq<char>> {
    match a {
        MacroArg::Ident(n) => Some(n@),
        MacroArg::Keyword(k) => if name_keyword(k@) {
            Some(k@)
        } else {
            None
        },
        _ => None,
    }
}

/// The type that the second argument of a `name!` marker gives.
pub open spec fn column_type(a: MacroArg) -> Result<UsedTypeView, ClassifyErrorKind> {
    match a {
        MacroArg::Type(t) => spec_used_type(t),
        MacroArg::Ident(n) => with_default(leaf_of_ident(n@), None),
        _ => Err(ClassifyErrorKind::MalformedMacro),
    }
}

/// The named column that a `name!(ident, Type)` marker declares.
pub open spec fn spec_name_macro(args: Seq<MacroArg>) -> Result<ItemView, ClassifyErrorKind> {
    if args.len() != 2 {
        Err(ClassifyErrorKind::MalformedMacro)
    } else {
        match column_name(args[0]) {
            None => Err(ClassifyErrorKind::MalformedMacro),
            Some(n) => match column_type(args[1]) {
                Ok(u) => Ok(ItemView { used_ty: u, name: Some(n) }),
                Err(e) => Err(e),
            },
        }
    }
}

pub open spec fn anonymous(r: Result<UsedTypeView, ClassifyErrorKind>) -> Result<ItemView, ClassifyErrorKind> {
    match r {
        Ok(u) => Ok(ItemView { used_ty: u, name: None }),
        Err(e) => Err(e),
    }
}

/// The column that one element of a tuple return type declares.
pub open spec fn tuple_item(elem: TypeExpr) -> Result<ItemView, ClassifyErrorKind> {
    match elem {
        TypeExpr::Macro(m) => {
            if macro_name(m) == "name"@ {
                spec_name_macro(m.args@)
            } else if macro_name(m) == "composite_type"@ {
                anonymous(spec_used_type(elem))
            } else {
                Err(ClassifyErrorKind::UnsupportedMacro)
            }
        },
        _ => anonymous(spec_used_type(elem)),
    }
}

/// The columns of the elements, in declaration order; the first element
/// that fails gives the error.
pub open spec fn tuple_items(elems: Seq<TypeExpr>) -> Result<Seq<ItemView>, ClassifyErrorKind>
    decreases elems.len(),
{
    if elems.len() == 0 {
        Ok(Seq::empty())
    } else {
        match tuple_items(elems.drop_last()) {
            Err(e) => Err(e),
            Ok(pre) => match tuple_item(elems.last()) {
                Ok(i) => Ok(pre.push(i)),
                Err(e) => Err(e),
            },
        }
    }
}

/// The shape of a tuple: nothing for the unit type, one set-returning
/// column for a single anonymous element, a table otherwise.
pub open spec fn spec_tuple(elems: Seq<TypeExpr>) -> Result<ReturningView, ClassifyErrorKind> {
    if elems.len() == 0 {
        Ok(ReturningView::Nothing)
    } else {
        match tuple_items(elems) {
            Err(e) => Err(e),
            Ok(items) => if items.len() == 1 && items[0].name is None {
                Ok(ReturningView::SetOf(items[0].used_ty))
            } else {
                Ok(ReturningView::Iterated(items))
            },
        }
    }
}

pub open spec fn as_type(r: Result<UsedTypeView, ClassifyErrorKind>) -> Result<ReturningView, ClassifyErrorKind> {
    match r {
        Ok(u) => Ok(ReturningView::Type(u)),
        Err(e) => Err(e),
    }
}

pub open spec fn as_set_of(r: Result<UsedTypeView, ClassifyErrorKind>) -> Result<ReturningView, ClassifyErrorKind> {
    match r {
        Ok(u) => Ok(ReturningView::SetOf(u)),
        Err(e) => Err(e),
    }
}

/// The shape of a stream whose items have the given type.
pub open spec fn spec_stream_item(ty: TypeExpr) -> Result<ReturningView, ClassifyErrorKind> {
    match ty {
        TypeExpr::Tuple(elems) => spec_tuple(elems@),
        _ => as_set_of(spec_used_type(ty)),
    }
}

/// The shape of a result given by a trait bound: only `Iterator<Item = T>`
/// has one.
pub open spec fn spec_trait_bound(path: Seq<PathSegment>) -> Result<ReturningView, ClassifyErrorKind> {
    if path.len() == 0 || path.last().ident@ != "Iterator"@ {
        Err(ClassifyErrorKind::UnsupportedReturn)
    } else {
        match path.last().args {
            PathArguments::AngleBracketed(args) => {
                if args@.len() == 0 {
                    Err(ClassifyErrorKind::UnsupportedReturn)
                } else {
                    match args@[0] {
                        GenericArgument::Binding(_, ty) => spec_stream_item(ty),
                        _ => Err(ClassifyErrorKind::UnsupportedReturn),
                    }
                }
            },
            _ => Err(ClassifyErrorKind::UnsupportedReturn),
        }
    }
}

/// The shape of an `impl` or `dyn` type: read from its first bound.
pub open spec fn spec_bounds(bounds: Seq<TypeBound>) -> Result<ReturningView, ClassifyErrorKind> {
    if bounds.len() == 0 {
        Err(ClassifyErrorKind::UnsupportedReturn)
    } else {
        match bounds[0] {
            TypeBound::Trait(path) => spec_trait_bound(path@),
            TypeBound::Lifetime => Ok(ReturningView::Nothing),
        }
    }
}

/// The shape of a marker macro in return position.
pub open spec fn spec_type_macro(m: TypeMacro) -> Result<ReturningView, ClassifyErrorKind> {
    if macro_name(m) == "name"@ {
        match spec_name_macro(m.args@) {
            Ok(i) => Ok(ReturningView::Iterated(seq![i])),
            Err(e) => Err(e),
        }
    } else if macro_name(m) == "composite_type"@ {
        as_type(spec_used_type(TypeExpr::Macro(m)))
    } else {
        Err(ClassifyErrorKind::UnsupportedMacro)
    }
}

/// The trigger-response marker: `Datum` alone, or a path ending in
/// `pg_sys::Datum`.
pub open spec fn is_trigger_path(segs: Seq<PathSegment>) -> bool {
    segs.len() > 0 && segs.last().ident@ == "Datum"@ && (segs.len() == 1 || segs[segs.len()
        - 2].ident@ == "pg_sys"@)
}

/// The bounds of a stream behind one `Option` or `Box` layer, if the path is one.
pub open spec fn wrapped_stream(segs: Seq<PathSegment>) -> Option<Seq<TypeBound>> {
    if segs.len() > 0 && (segs.last().ident@ == "Option"@ || segs.last().ident@ == "Box"@) {
        match crate::used_type::first_type_arg(segs.last()) {
            Some(TypeExpr::ImplTrait(b)) => Some(b@),
            Some(TypeExpr::TraitObject(b)) => Some(b@),
            _ => None,
        }
    } else {
        None
    }
}

/// The shape of a function's result, read from its declared return type.
pub open spec fn spec_returning(ret: ReturnType) -> Result<ReturningView, ClassifyErrorKind> {
    match ret {
        ReturnType::Default => Ok(ReturningView::Nothing),
        ReturnType::Type(ty) => match ty {
            TypeExpr::ImplTrait(b) => spec_bounds(b@),
            TypeExpr::TraitObject(b) => spec_bounds(b@),
            TypeExpr::Path(segs) => {
                if is_trigger_path(segs@) {
                    Ok(ReturningView::Trigger)
                } else {
                    match wrapped_stream(segs@) {
                        Some(b) => spec_bounds(b),
                        None => as_type(spec_used_type(ty)),
                    }
                }
            },
            TypeExpr::Reference(_) => as_type(spec_used_type(ty)),
            TypeExpr::Tuple(elems) => spec_tuple(elems@),
            TypeExpr::Macro(m) => spec_type_macro(m),
            TypeExpr::Paren(inner) => match *inner {
                TypeExpr::Macro(m) => spec_type_macro(m),
                _ => Err(ClassifyErrorKind::UnsupportedReturn),
            },
            TypeExpr::Other(_) => Err(ClassifyErrorKind::UnsupportedReturn),
        },
    }
}

pub open spec fn returning_result(r: Result<Returning, ClassifyError>) -> Result<ReturningView, ClassifyErrorKind> {
    match r {
        Ok(x) => Ok(x@),
        Err(e) => Err(e.kind),
    }
}

pub open spec fn item_result(r: Result<ReturningIteratedItem, ClassifyError>) -> Result<ItemView, ClassifyErrorKind> {
    match r {
        Ok(x) => Ok(x@),
        Err(e) => Err(e.kind),
    }
}

pub open spec fn name_macro_result(r: Result<NameMacro, ClassifyError>) -> Result<ItemView, ClassifyErrorKind> {
    match r {
        Ok(x) => Ok(ItemView { used_ty: x.used_ty@, name: Some(x.ident@) }),
        Err(e) => Err(e.kind),
    }
}

fn is_name_keyword(k: &str) -> (r: bool)
    ensures
        r == name_keyword(k@),
{
    str_eq(k, "type") || str_eq(k, "mod") || str_eq(k, "extern") || str_eq(k, "async")
        || str_eq(k, "crate") || str_eq(k, "use")
}

fn ident_type(n: &String) -> (r: Result<UsedType, ClassifyError>)
    ensures
        used_type_result(r) == with_default(leaf_of_ident(n@), None),
{
    match crate::used_type::sql_scalar_name(n.as_str()) {
        Some(sql) => Ok(UsedType { wrappers: Vec::new(), leaf: Leaf::Scalar(sql), default: None }),
        None => Err(ClassifyError { kind: ClassifyErrorKind::UnsupportedType, construct: n.clone() }),
    }
}

impl NameMacro {
    /// Reads the arguments of `name!(ident, Type)`: a column name, which may
    /// be an identifier or one of the keywords `type`, `mod`, `extern`,
    /// `async`, `crate` and `use`, then its type.
    pub fn parse(args: &Vec<MacroArg>) -> (r: Result<NameMacro, ClassifyError>)
        ensures
            name_macro_result(r) == spec_name_macro(args@),
    {
        if args.len() != 2 {
            return Err(classify_error(ClassifyErrorKind::MalformedMacro, "name!"));
        }
        let ident = match &args[0] {
            MacroArg::Ident(n) => n.clone(),
            MacroArg::Keyword(k) => {
                if is_name_keyword(k.as_str()) {
                    k.clone()
                } else {
                    return Err(ClassifyError { kind: ClassifyErrorKind::MalformedMacro, construct: k.clone() });
                }
            },
            _ => return Err(classify_error(ClassifyErrorKind::MalformedMacro, "name!")),
        };
        let used_ty = match &args[1] {
            MacroArg::Type(t) => UsedType::new(t),
            MacroArg::Ident(n) => ident_type(n),
            _ => Err(classify_error(ClassifyErrorKind::MalformedMacro, "name!")),
        };
        match used_ty {
            Ok(used_ty) => Ok(NameMacro { ident, used_ty }),
            Err(e) => Err(e),
        }
    }
}

fn anonymous_item(r: Result<UsedType, ClassifyError>) -> (i: Result<ReturningIteratedItem, ClassifyError>)
    ensures
        item_result(i) == anonymous(used_type_result(r)),
{
    match r {
        Ok(used_ty) => Ok(ReturningIteratedItem { used_ty, name: None }),
        Err(e) => Err(e),
    }
}

fn parse_tuple_item(elem: &TypeExpr) -> (r: Result<ReturningIteratedItem, ClassifyError>)
    ensures
        item_result(r) == tuple_item(*elem),
{
    match elem {
        TypeExpr::Macro(m) => {
            let name = macro_name_of(m);
            if str_eq(name, "name") {
                match NameMacro::parse(&m.args) {
                    Ok(out) => Ok(ReturningIteratedItem { used_ty: out.used_ty, name: Some(out.ident) }),
                    Err(e) => Err(e),
                }
            } else if str_eq(name, "composite_type") {
                anonymous_item(UsedType::new(elem))
            } else {
                Err(classify_error(ClassifyErrorKind::UnsupportedMacro, name))
            }
        },
        _ => anonymous_item(UsedType::new(elem)),
    }
}

fn as_type_exec(r: Result<UsedType, ClassifyError>) -> (x: Result<Returning, ClassifyError>)
    ensures
        returning_result(x) == as_type(used_type_result(r)),
{
    match r {
        Ok(u) => Ok(Returning::Type(u)),
        Err(e) => Err(e),
    }
}

fn as_set_of_exec(r: Result<UsedType, ClassifyError>) -> (x: Result<Returning, ClassifyError>)
    ensures
        returning_result(x) == as_set_of(used_type_result(r)),
{
    match r {
        Ok(u) => Ok(Returning::SetOf(u)),
        Err(e) => Err(e),
    }
}

impl Returning {
    /// Classifies a tuple: the unit type gives `Nothing`, a single anonymous
    /// element a `SetOf` of its type, anything else the columns in
    /// declaration order.
    fn parse_type_tuple(elems: &Vec<TypeExpr>) -> (r: Result<Returning, ClassifyError>)
        ensures
            returning_result(r) == spec_tuple(elems@),
    {
        if elems.len() == 0 {
            return Ok(Returning::Nothing);
        }
        let mut columns: Vec<ReturningIteratedItem> = Vec::new();
        let mut i: usize = 0;
        assert(elems@.take(0) =~= Seq::<TypeExpr>::empty());
        assert(items_view(columns@) =~= Seq::<ItemView>::empty());
        while i < elems.len()
            invariant
                i <= elems@.len(),
                tuple_items(elems@.take(i as int)) == Ok::<Seq<ItemView>, ClassifyErrorKind>(items_view(columns@)),
            decreases elems.len() - i,
        {
            assert(elems@.take(i + 1).drop_last() =~= elems@.take(i as int));
            assert(elems@.take(i + 1).last() == elems@[i as int]);
            let ghost before = columns@;
            match parse_tuple_item(&elems[i]) {
                Ok(item) => {
                    columns.push(item);
                    assert(items_view(columns@) =~= items_view(before).push(item@));
                },
                Err(e) => {
                    proof {
                        lemma_tuple_items_err(elems@, i as int + 1, e.kind);
                    }
                    return Err(e);
                },
            }
            i = i + 1;
        }
        assert(elems@.take(elems@.len() as int) =~= elems@);
        if columns.len() == 1 && columns[0].name.is_none() {
            let item = columns.pop().unwrap();
            return Ok(Returning::SetOf(item.used_ty));
        }
        Ok(Returning::Iterated(columns))
    }

    fn parse_trait_bound(path: &Vec<PathSegment>) -> (r: Result<Returning, ClassifyError>)
        ensures
            returning_result(r) == spec_trait_bound(path@),
    {
        if path.len() == 0 {
            return Err(classify_error(ClassifyErrorKind::UnsupportedReturn, "empty trait path"));
        }
        let last = &path[path.len() - 1];
        if !str_eq(last.ident.as_str(), "Iterator") {
            return Err(ClassifyError { kind: ClassifyErrorKind::UnsupportedReturn, construct: last.ident.clone() });
        }
        match &last.args {
            PathArguments::AngleBracketed(args) => {
                if args.len() == 0 {
                    return Err(classify_error(ClassifyErrorKind::UnsupportedReturn, "Iterator"));
                }
                match &args[0] {
                    GenericArgument::Binding(_, ty) => match ty {
                        TypeExpr::Tuple(elems) => Self::parse_type_tuple(elems),
                        _ => as_set_of_exec(UsedType::new(ty)),
                    },
                    _ => Err(classify_error(ClassifyErrorKind::UnsupportedReturn, "Iterator")),
                }
            },
            _ => Err(classify_error(ClassifyErrorKind::UnsupportedReturn, "Iterator")),
        }
    }

    /// Classifies `impl Bound + ..` by its first bound.
    fn parse_impl_trait(bounds: &Vec<TypeBound>) -> (r: Result<Returning, ClassifyError>)
        ensures
            returning_result(r) == spec_bounds(bounds@),
    {
        if bounds.len() == 0 {
            return Err(classify_error(ClassifyErrorKind::UnsupportedReturn, "impl without bounds"));
        }
        match &bounds[0] {
            TypeBound::Trait(path) => Self::parse_trait_bound(path),
            TypeBound::Lifetime => Ok(Returning::Nothing),
        }
    }

    /// Classifies `dyn Bound + ..` by its first bound.
    fn parse_dyn_trait(bounds: &Vec<TypeBound>) -> (r: Result<Returning, ClassifyError>)
        ensures
            returning_result(r) == spec_bounds(bounds@),
    {
        if bounds.len() == 0 {
            return Err(classify_error(ClassifyErrorKind::UnsupportedReturn, "dyn without bounds"));
        }
        match &bounds[0] {
            TypeBound::Trait(path) => Self::parse_trait_bound(path),
            TypeBound::Lifetime => Ok(Returning::Nothing),
        }
    }

    fn parse_type_macro(ty: &TypeExpr, m: &TypeMacro) -> (r: Result<Returning, ClassifyError>)
        requires
            *ty == TypeExpr::Macro(*m),
        ensures
            returning_result(r) == spec_type_macro(*m),
    {
        let name = macro_name_of(m);
        if str_eq(name, "name") {
            match NameMacro::parse(&m.args) {
                Ok(out) => {
                    let mut items: Vec<ReturningIteratedItem> = Vec::new();
                    let item = ReturningIteratedItem { used_ty: out.used_ty, name: Some(out.ident) };
                    items.push(item);
                    assert(items_view(items@) =~= seq![item@]);
                    Ok(Returning::Iterated(items))
                },
                Err(e) => Err(e),
            }
        } else if str_eq(name, "composite_type") {
            as_type_exec(UsedType::new(ty))
        } else {
            Err(classify_error(ClassifyErrorKind::UnsupportedMacro, name))
        }
    }

    fn is_trigger(segs: &Vec<PathSegment>) -> (r: bool)
        ensures
            r == is_trigger_path(segs@),
    {
        let n = segs.len();
        n > 0 && str_eq(segs[n - 1].ident.as_str(), "Datum") && (n == 1 || str_eq(
            segs[n - 2].ident.as_str(),
            "pg_sys",
        ))
    }

    /// Classifies a declared return type.
    pub fn try_from(value: &ReturnType) -> (r: Result<Returning, ClassifyError>)
        ensures
            returning_result(r) == spec_returning(*value),
    {
        match value {
            ReturnType::Default => Ok(Returning::Nothing),
            ReturnType::Type(ty) => match ty {
                TypeExpr::ImplTrait(b) => Self::parse_impl_trait(b),
                TypeExpr::TraitObject(b) => Self::parse_dyn_trait(b),
                TypeExpr::Path(segs) => {
                    if Self::is_trigger(segs) {
                        return Ok(Returning::Trigger);
                    }
                    let n = segs.len();
                    if n > 0 && (str_eq(segs[n - 1].ident.as_str(), "Option") || str_eq(
                        segs[n - 1].ident.as_str(),
                        "Box",
                    )) {
                        if let PathArguments::AngleBracketed(args) = &segs[n - 1].args {
                            if args.len() > 0 {
                                if let GenericArgument::Type(inner) = &args[0] {
                                    match inner {
                                        TypeExpr::ImplTrait(b) => return Self::parse_impl_trait(b),
                                        TypeExpr::TraitObject(b) => return Self::parse_dyn_trait(b),
                                        _ => {},
                                    }
                                }
                            }
                        }
                    }
                    as_type_exec(UsedType::new(ty))
                },
                TypeExpr::Reference(_) => as_type_exec(UsedType::new(ty)),
                TypeExpr::Tuple(elems) => Self::parse_type_tuple(elems),
                TypeExpr::Macro(m) => Self::parse_type_macro(ty, m),
                TypeExpr::Paren(inner) => match &**inner {
                    TypeExpr::Macro(m) => Self::parse_type_macro(inner, m),
                    _ => Err(classify_error(ClassifyErrorKind::UnsupportedReturn, "parenthesized type")),
                },
                TypeExpr::Other(text) => Err(ClassifyError { kind: ClassifyErrorKind::UnsupportedReturn, construct: text.clone() }),
            },
        }
    }
}

proof fn lemma_tuple_items_err(elems: Seq<TypeExpr>, k: int, e: ClassifyErrorKind)
    requires
        0 < k <= elems.len(),
        tuple_items(elems.take(k)) == Err::<Seq<ItemView>, ClassifyErrorKind>(e),
    ensures
        tuple_items(elems) == Err::<Seq<ItemView>, ClassifyErrorKind>(e),
    decreases elems.len() - k,
{
    if k < elems.len() {
        assert(elems.take(k + 1).drop_last() =~= elems.take(k));
        lemma_tuple_items_err(elems, k + 1, e);
    } else {
        assert(elems.take(k) =~= elems);
    }
}

/// A function declared without a return type produces nothing.
pub proof fn lemma_no_return_type_is_nothing()
    ensures
        spec_returning(ReturnType::Default) == Ok::<ReturningView, ClassifyErrorKind>(ReturningView::Nothing),
{
}

/// A tuple element without a column-name marker: a plain type or a
/// composite marker.
pub open spec fn is_anonymous_element(e: TypeExpr) -> bool {
    match e {
        TypeExpr::Macro(m) => macro_name(m) == "composite_type"@,
        _ => true,
    }
}

/// A tuple of exactly one anonymous element, returned directly or as the
/// items of a stream, is classified as a set of that element's resolved
/// type, not as a one-column table.
pub proof fn lemma_single_anonymous_column_is_set_of(elems: Vec<TypeExpr>)
    requires
        elems@.len() == 1,
        is_anonymous_element(elems@[0]),
    ensures
        spec_returning(ReturnType::Type(TypeExpr::Tuple(elems))) == as_set_of(spec_used_type(elems@[0])),
        spec_stream_item(TypeExpr::Tuple(elems)) == as_set_of(spec_used_type(elems@[0])),
{
    let e = elems@[0];
    reveal_strlit("name");
    reveal_strlit("composite_type");
    assert(elems@.drop_last() =~= Seq::<TypeExpr>::empty());
    assert(elems@.last() == e);
    match e {
        TypeExpr::Macro(m) => {
            assert(macro_name(m) == "composite_type"@);
            assert(macro_name(m) != "name"@);
            assert(tuple_item(e) == anonymous(spec_used_type(e)));
        },
        _ => {
            assert(tuple_item(e) == anonymous(spec_used_type(e)));
        },
    }
    assert(tuple_items(elems@.drop_last()) == Ok::<Seq<ItemView>, ClassifyErrorKind>(Seq::empty()));
    match spec_used_type(e) {
        Ok(u) => {
            assert(Seq::<ItemView>::empty().push(ItemView { used_ty: u, name: None }) =~= seq![ItemView { used_ty: u, name: None }]);
            assert(tuple_items(elems@) == Ok::<Seq<ItemView>, ClassifyErrorKind>(seq![ItemView { used_ty: u, name: None }]));
        },
        Err(k) => {
            assert(tuple_items(elems@) == Err::<Seq<ItemView>, ClassifyErrorKind>(k));
        },
    }
}

/// Element-wise reading of `tuple_items`: it succeeds exactly when every
/// element does, and then holds one column per element, in order.
pub proof fn lemma_tuple_items_pointwise(elems: Seq<TypeExpr>)
    ensures
        (tuple_items(elems) is Ok) <==> (forall|i: int| 0 <= i < elems.len() ==> (#[trigger] tuple_item(elems[i])) is Ok),
        tuple_items(elems) matches Ok(items) ==> items.len() == elems.len() && forall|i: int|
            0 <= i < elems.len() ==> Ok::<ItemView, ClassifyErrorKind>(#[trigger] items[i]) == tuple_item(elems[i]),
    decreases elems.len(),
{
    if elems.len() > 0 {
        let pre = elems.drop_last();
        lemma_tuple_items_pointwise(pre);
        assert forall|i: int| 0 <= i < pre.len() implies pre[i] == elems[i] by {}
        if tuple_items(pre) is Err {
            let i = choose|i: int| 0 <= i < pre.len() && !(#[trigger] tuple_item(pre[i]) is Ok);
            assert(pre[i] == elems[i]);
        }
    }
}

/// A tuple return type of two or more elements that classifies at all is a
/// table with one column per element, in declaration order: the column at
/// each position is the one its own element declares, named exactly when
/// that element carries a name marker, whatever the other elements are.
pub proof fn lemma_tuple_columns_keep_order(elems: Vec<TypeExpr>)
    requires
        elems@.len() >= 2,
    ensures
        (spec_returning(ReturnType::Type(TypeExpr::Tuple(elems))) is Ok) <==> (forall|i: int|
            0 <= i < elems@.len() ==> (#[trigger] tuple_item(elems@[i])) is Ok),
        spec_returning(ReturnType::Type(TypeExpr::Tuple(elems))) matches Ok(r) ==> (r matches ReturningView::Iterated(items) && items.len() == elems@.len()
            && forall|i: int|
            0 <= i < elems@.len() ==> Ok::<ItemView, ClassifyErrorKind>(#[trigger] items[i]) == tuple_item(elems@[i])),
        forall|i: int|
            0 <= i < elems@.len() && (#[trigger] elems@[i]) is Macro && macro_name(elems@[i]->Macro_0)
                == "name"@ ==> tuple_item(elems@[i]) == spec_name_macro((elems@[i]->Macro_0).args@),
{
    lemma_tuple_items_pointwise(elems@);
}

} // verus!
