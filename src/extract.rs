//! The records extracted from declarations: enum constants, enum-like types
//! and methods.

use vstd::prelude::*;
use crate::comment::{comment_of, get_comment};
use crate::source::{ConstDecl, Expr, FnDecl, Literal};

verus! {

/// What an enum constant record says.
pub struct ConstInfo {
    pub name: Seq<char>,
    pub comment: Seq<char>,
    pub value: Seq<char>,
}

/// What an enum-like type record says.
pub struct EnumInfo {
    pub name: Seq<char>,
    pub comment: Seq<char>,
    pub constants: Seq<ConstInfo>,
}

/// What a method record says.
pub struct FnInfo {
    pub name: Seq<char>,
    pub struct_name: Seq<char>,
    pub comment: Seq<char>,
}

/// A constant of an enum-like type.
pub struct MskEnumConst {
    pub name: String,
    pub comment: String,
    /// The base-10 digits of an integer initializer; empty for any other initializer.
    pub value: String,
}

/// An enum-like type with its constants in declaration order.
pub struct MskEnum {
    pub name: String,
    pub comment: String,
    pub enum_consts: Vec<MskEnumConst>,
}

/// A method of a type that is not enum-like.
pub struct MskFunction {
    pub name: String,
    /// The type whose implementation block declares the method.
    pub struct_name: String,
    pub comment: String,
}

impl View for MskEnumConst {
    type V = ConstInfo;

    open spec fn view(&self) -> ConstInfo {
        ConstInfo { name: self.name@, comment: self.comment@, value: self.value@ }
    }
}

impl View for MskEnum {
    type V = EnumInfo;

    open spec fn view(&self) -> EnumInfo {
        EnumInfo {
            name: self.name@,
            comment: self.comment@,
            constants: self.enum_consts@.map_values(|c: MskEnumConst| c@),
        }
    }
}

impl View for MskFunction {
    type V = FnInfo;

    open spec fn view(&self) -> FnInfo {
        FnInfo { name: self.name@, struct_name: self.struct_name@, comment: self.comment@ }
    }
}

/// The value of a constant with initializer `e`: the digits of an integer
/// literal, and empty for anything else.
pub open spec fn const_value(e: Expr) -> Seq<char> {
    match e {
        Expr::Lit(Literal::Int(d)) => d@,
        _ => Seq::empty(),
    }
}

/// The record of an associated constant.
pub open spec fn const_info(c: ConstDecl) -> ConstInfo {
    ConstInfo { name: c.ident@, comment: comment_of(c.attrs@), value: const_value(c.expr) }
}

/// The record of a method declared for the type named `owner`.
pub open spec fn fn_info(f: FnDecl, owner: Seq<char>) -> FnInfo {
    FnInfo { name: f.ident@, struct_name: owner, comment: comment_of(f.attrs@) }
}

/// Extracts an associated constant's name, comment and integer value.
pub fn extract_constant(c: &ConstDecl) -> (r: MskEnumConst)
    ensures
        r@ == const_info(*c),
{
    let value = match &c.expr {
        Expr::Lit(Literal::Int(d)) => d.clone(),
        _ => String::new(),
    };
    MskEnumConst { name: c.ident.clone(), comment: get_comment(c.attrs.as_slice()), value }
}

/// Extracts a method's name and comment, with the type that declares it.
pub fn extract_function(f: &FnDecl, owner: &str) -> (r: MskFunction)
    ensures
        r@ == fn_info(*f, owner@),
{
    MskFunction {
        name: f.ident.clone(),
        struct_name: owner.to_owned(),
        comment: get_comment(f.attrs.as_slice()),
    }
}

} // verus!
