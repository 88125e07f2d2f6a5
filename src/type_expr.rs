//! The declaration model: a type expression as the declaration scanner hands
//! it over, reduced to the forms that the classifiers read.

use vstd::prelude::*;

verus! {

/// A declared type in parameter or return position.
#[derive(Debug, PartialEq, Eq)]
pub enum TypeExpr {
    /// A path such as `Option<i32>` or `pg_sys::Datum`.
    Path(Vec<PathSegment>),
    /// A reference `&T`.
    Reference(Box<TypeExpr>),
    /// A tuple `(A, B, ..)`; the unit type is the empty tuple.
    Tuple(Vec<TypeExpr>),
    /// A marker macro in type position, such as `name!(..)`.
    Macro(TypeMacro),
    /// `impl Bound + ..`
    ImplTrait(Vec<TypeBound>),
    /// `dyn Bound + ..`
    TraitObject(Vec<TypeBound>),
    /// A parenthesized type `(T)`.
    Paren(Box<TypeExpr>),
    /// Any other form (array, slice, function pointer, ..), with its source text.
    Other(String),
}

/// One segment of a path: its identifier and generic arguments.
#[derive(Debug, PartialEq, Eq)]
pub struct PathSegment {
    pub ident: String,
    pub args: PathArguments,
}

/// The generic arguments of a path segment.
#[derive(Debug, PartialEq, Eq)]
pub enum PathArguments {
    Bare,
    /// `<A, B = C, ..>`
    AngleBracketed(Vec<GenericArgument>),
    /// `(A, B) -> C`
    Parenthesized,
}

/// One generic argument.
#[derive(Debug, PartialEq, Eq)]
pub enum GenericArgument {
    /// A type argument `T`.
    Type(TypeExpr),
    /// An associated type binding `Name = T`.
    Binding(String, TypeExpr),
    /// A lifetime, const or constraint argument.
    Other,
}

/// One bound of an `impl` or `dyn` type.
#[derive(Debug, PartialEq, Eq)]
pub enum TypeBound {
    /// A trait bound, given by its path.
    Trait(Vec<PathSegment>),
    /// A lifetime bound.
    Lifetime,
}

/// A macro in type position: the identifiers of its path and its arguments,
/// split at top-level commas.
#[derive(Debug, PartialEq, Eq)]
pub struct TypeMacro {
    pub path: Vec<String>,
    pub args: Vec<MacroArg>,
}

/// One comma-separated argument of a type macro.
#[derive(Debug, PartialEq, Eq)]
pub enum MacroArg {
    /// A lone identifier that is not a keyword.
    Ident(String),
    /// A lone keyword, such as `type` or `mod`.
    Keyword(String),
    /// A string literal, without its quotes.
    Literal(String),
    /// Any other argument, read as a type.
    Type(TypeExpr),
}

} // verus!
