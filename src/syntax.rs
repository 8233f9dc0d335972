use vstd::prelude::*;

verus! {

/// The visibility written on a declaration.
#[derive(Clone, Copy, Debug, PartialEq, Eq, Hash)]
pub enum SourceVisibility {
    /// `pub`
    Public,
    /// `crate`
    Crate,
    /// `pub(crate)`, `pub(super)`, `pub(in path)`
    Restricted,
    /// nothing written
    Inherited,
}

/// One field of a struct: its identifier (none in a tuple struct), its
/// visibility and its type expression as source text.
#[derive(Clone, Debug, PartialEq, Eq, Hash)]
pub struct FieldDecl {
    pub ident: Option<String>,
    pub vis: SourceVisibility,
    pub ty: String,
}

/// The field list of a struct.
#[derive(Clone, Debug, PartialEq, Eq, Hash)]
pub enum FieldList {
    /// `struct S { a: A, b: B }`
    Named(Vec<FieldDecl>),
    /// `struct S(A, B);`
    Unnamed(Vec<FieldDecl>),
    /// `struct S;`
    Unit,
}

/// A struct declaration.
#[derive(Clone, Debug, PartialEq, Eq, Hash)]
pub struct StructDecl {
    pub ident: String,
    pub vis: SourceVisibility,
    pub fields: FieldList,
}

/// The binding pattern of a function argument.
#[derive(Clone, Debug, PartialEq, Eq, Hash)]
pub enum Binding {
    /// A plain identifier, possibly `mut` or `ref`.
    Ident(String),
    /// Any other pattern (a tuple, a struct, `_`, ...).
    Other,
}

/// One argument of a function signature.
#[derive(Clone, Debug, PartialEq, Eq, Hash)]
pub enum FnArg {
    /// `self`, `&self`, `&mut self`, ...
    Receiver,
    /// A typed argument: its binding and its type expression as source text.
    Typed(Binding, String),
}

/// An associated function of an impl block.
#[derive(Clone, Debug, PartialEq, Eq, Hash)]
pub struct MethodDecl {
    pub ident: String,
    pub vis: SourceVisibility,
    pub inputs: Vec<FnArg>,
}

/// One item of an impl block.
#[derive(Clone, Debug, PartialEq, Eq, Hash)]
pub enum ImplMember {
    Method(MethodDecl),
    /// An associated constant, type or macro.
    Other,
}

/// One segment of a path: its identifier, and whether it carries
/// generic arguments.
#[derive(Clone, Debug, PartialEq, Eq, Hash)]
pub struct PathSegment {
    pub ident: String,
    pub has_arguments: bool,
}

/// The type that an impl block is for.
#[derive(Clone, Debug, PartialEq, Eq, Hash)]
pub enum SelfType {
    /// A path type without a qualified self: its segments.
    Path(Vec<PathSegment>),
    /// Any other type (a reference, a tuple, `<T as Trait>::Assoc`, ...).
    Other,
}

/// An impl block.
#[derive(Clone, Debug, PartialEq, Eq, Hash)]
pub struct ImplDecl {
    pub is_trait_impl: bool,
    pub self_ty: SelfType,
    pub items: Vec<ImplMember>,
}

/// A top-level declaration.
#[derive(Clone, Debug, PartialEq, Eq, Hash)]
pub enum Item {
    Struct(StructDecl),
    Impl(ImplDecl),
    Enum,
    Other,
}

/// One parsed source file: its top-level declarations in order.
#[derive(Clone, Debug, PartialEq, Eq, Hash)]
pub struct SourceFile {
    pub items: Vec<Item>,
}

} // verus!
