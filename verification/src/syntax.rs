//! A plain-data picture of the parts of an `impl` block that handler
//! registration looks at: attributes, argument types and return types.

use vstd::prelude::*;

verus! {

/// One segment of a path, such as `Ctx<Self>` in `speare::Ctx<Self>`.
#[derive(Debug, PartialEq, Eq)]
pub struct PathSegment {
    pub ident: String,
    pub arguments: PathArguments,
}

/// What follows the identifier of a path segment.
#[derive(Debug, PartialEq, Eq)]
pub enum PathArguments {
    /// Nothing, as in `Reply`.
    Absent,
    /// Arguments in angle brackets, as in `Reply<A, B>`.
    AngleBracketed(Vec<GenericArgument>),
    /// Arguments in round brackets, as in `Fn(A) -> B`.
    Parenthesized,
}

/// One argument between angle brackets.
#[derive(Debug, PartialEq, Eq)]
pub enum GenericArgument {
    /// A type argument.
    Type(Type),
    /// A lifetime, a constant, a binding or a constraint.
    Other,
}

/// A path with its segments in source order.
#[derive(Debug, PartialEq, Eq)]
pub struct Path {
    /// Whether the path starts with `::`.
    pub leading_colon: bool,
    pub segments: Vec<PathSegment>,
}

/// A type as written in a signature.
#[derive(Debug, PartialEq, Eq)]
pub enum Type {
    /// A path type, as in `Reply<A, B>`.
    Path(Path),
    /// A reference, as in `&Ctx<Self>`, with the type referred to.
    Reference(Box<Type>),
    /// Any other form of type.
    Other,
}

/// An argument of a method.
#[derive(Debug, PartialEq, Eq)]
pub enum FnArg {
    /// The receiver: `self`, `&self` or `&mut self`.
    Receiver,
    /// A pattern with its type.
    Typed(Type),
}

/// The return type of a method.
#[derive(Debug, PartialEq, Eq)]
pub enum ReturnType {
    /// No return type is written.
    Default,
    /// The type after `->`.
    Type(Type),
}

/// A method of an `impl` block.
#[derive(Debug, PartialEq, Eq)]
pub struct Method {
    pub ident: String,
    /// The paths of the attributes on the method, in source order.
    pub attrs: Vec<Path>,
    pub inputs: Vec<FnArg>,
    pub output: ReturnType,
}

/// An item of an `impl` block.
#[derive(Debug, PartialEq, Eq)]
pub enum ImplItem {
    Fn(Method),
    /// A constant, an associated type or a macro call.
    Other,
}

/// An `impl` block.
#[derive(Debug, PartialEq, Eq)]
pub struct ItemImpl {
    pub items: Vec<ImplItem>,
}

/// Whether `path` is the single identifier `name`: no leading `::`, one
/// segment, no arguments.
pub open spec fn path_is_ident(path: &Path, name: Seq<char>) -> bool {
    &&& !path.leading_colon
    &&& path.segments@.len() == 1
    &&& path.segments@[0].arguments is Absent
    &&& path.segments@[0].ident@ == name
}

/// Compares an identifier with a name.
pub fn ident_is(ident: &String, name: &str) -> (same: bool)
    ensures
        same == (ident@ == name@),
{
    let owned: String = name.to_owned();
    *ident == owned
}

impl Path {
    /// Tells whether the path is the single identifier `name`.
    pub fn is_ident(&self, name: &str) -> (found: bool)
        ensures
            found == path_is_ident(self, name@),
    {
        if self.leading_colon || self.segments.len() != 1 {
            return false;
        }
        match &self.segments[0].arguments {
            PathArguments::Absent => ident_is(&self.segments[0].ident, name),
            _ => false,
        }
    }
}

} // verus!
