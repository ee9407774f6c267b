//! The declarations of a source file, as plain values.
//!
//! A syntax parser fills these; the library reads nothing else of the source.

use vstd::prelude::*;

verus! {

/// A literal expression.
pub enum Literal {
    /// A string literal, holding its value (escapes resolved).
    Str(String),
    /// An integer literal, holding its base-10 digits without suffix.
    Int(String),
    /// Any other literal (float, char, bool, byte string, ...).
    Other,
}

/// An expression, as far as the extraction reads it.
pub enum Expr {
    Lit(Literal),
    /// Any expression that is not a literal (a path, a call, an operation, ...).
    Other,
}

/// The form of an attribute after its path.
pub enum AttrMeta {
    /// `#[name]`
    Path,
    /// `#[name(...)]`
    List,
    /// `#[name = value]`
    NameValue(Expr),
}

/// An attribute of a declaration. A doc comment `/// text` is the attribute
/// `#[doc = "text"]`.
pub struct Attribute {
    /// The attribute's path when it is one plain identifier, `None` otherwise.
    pub path_ident: Option<String>,
    pub meta: AttrMeta,
}

/// The type that an implementation block is for.
pub enum SelfType {
    /// A path of one plain identifier, such as `Color`.
    Ident(String),
    /// Any other type (a qualified path, generics, a reference, a tuple, ...).
    Unsupported,
}

/// An associated constant: `const NAME: T = expr;`.
pub struct ConstDecl {
    pub ident: String,
    pub attrs: Vec<Attribute>,
    pub expr: Expr,
}

/// A method or associated function: `fn name(...)`.
pub struct FnDecl {
    pub ident: String,
    pub attrs: Vec<Attribute>,
}

/// A member of an implementation block.
pub enum ImplMember {
    Const(ConstDecl),
    Fn(FnDecl),
    /// Any other member (an associated type, a macro call, ...).
    Other,
}

/// A struct declaration.
pub struct StructDecl {
    pub ident: String,
    pub attrs: Vec<Attribute>,
}

/// An implementation block: `impl [Trait for] Type { members }`.
pub struct ImplDecl {
    /// Whether the block implements a trait.
    pub has_trait: bool,
    pub self_ty: SelfType,
    pub members: Vec<ImplMember>,
}

/// A top-level declaration of the source file.
pub enum SourceItem {
    Struct(StructDecl),
    Impl(ImplDecl),
    /// Any other declaration (a function, an enum, a module, a `use`, ...).
    Other,
}

} // verus!
