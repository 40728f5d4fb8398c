//! A plain model of the host-language declarations the extractor reads.
//!
//! The front end reduces the parsed syntax tree to these types; everything
//! the extraction rules look at — names, type shapes, discriminants,
//! attribute texts — is held here as plain values.

use vstd::prelude::*;

verus! {

/// A host type as the type mapping reads it: a path type reduced to its last
/// segment's name and that segment's generic arguments. Every other shape
/// (tuples, references, pointers, slices, arrays, trait objects) is
/// `Unsupported` and resolves to the `any` fallback.
#[derive(Debug, PartialEq)]
pub enum HostType {
    Named { name: String, args: Vec<HostArg> },
    Unsupported,
}

/// One generic argument of a path segment: a type, or anything else
/// (a lifetime, a const argument, a binding, a constraint).
#[derive(Debug, PartialEq)]
pub enum HostArg {
    Ty(HostType),
    Other,
}

/// One attribute, reduced to what the extraction rules inspect.
#[derive(Debug, PartialEq)]
pub struct HostAttr {
    /// The attribute's path, when it is a single plain identifier.
    pub name: Option<String>,
    /// The string literal of a `name = "..."` attribute, as doc comments are.
    pub str_value: Option<String>,
    /// A textual dump of the attribute's syntax tree, for the substring
    /// heuristics.
    pub text: String,
}

/// One field of a record declaration. Tuple fields carry no name.
#[derive(Debug, PartialEq)]
pub struct HostField {
    pub name: Option<String>,
    pub ty: HostType,
    pub attrs: Vec<HostAttr>,
}

/// An enum variant's discriminant expression, by shape.
#[derive(Debug, PartialEq)]
pub enum HostDiscriminant {
    /// No discriminant is present.
    Absent,
    /// A string literal, carrying its value.
    Str(String),
    /// An integer literal, carrying its base-10 digits.
    Int(String),
    /// A plain-identifier path, carrying the identifier.
    Ident(String),
    /// Any other expression shape.
    Other,
}

/// One variant of an enumeration declaration.
#[derive(Debug, PartialEq)]
pub struct HostVariant {
    pub name: String,
    pub value: HostDiscriminant,
    pub attrs: Vec<HostAttr>,
}

/// One parameter of a trait method: the receiver, or a typed parameter.
#[derive(Debug, PartialEq)]
pub enum HostParam {
    Receiver,
    Typed(HostType),
}

/// One function-shaped member of a behavioral interface.
#[derive(Debug, PartialEq)]
pub struct HostMethod {
    pub name: String,
    pub params: Vec<HostParam>,
    /// `None` when the signature declares no return type.
    pub ret: Option<HostType>,
    pub attrs: Vec<HostAttr>,
}

/// One member of a trait declaration; members that are not functions are
/// skipped by extraction.
#[derive(Debug, PartialEq)]
pub enum HostMember {
    Method(HostMethod),
    Other,
}

/// A record declaration.
#[derive(Debug, PartialEq)]
pub struct HostStruct {
    pub name: String,
    pub fields: Vec<HostField>,
    pub attrs: Vec<HostAttr>,
}

/// An enumeration declaration.
#[derive(Debug, PartialEq)]
pub struct HostEnum {
    pub name: String,
    pub variants: Vec<HostVariant>,
    pub attrs: Vec<HostAttr>,
}

/// A behavioral-interface declaration.
#[derive(Debug, PartialEq)]
pub struct HostTrait {
    pub name: String,
    pub members: Vec<HostMember>,
    pub attrs: Vec<HostAttr>,
}

/// One top-level item of the parsed file; items that are not declarations
/// the pipeline handles are kept only as placeholders.
#[derive(Debug, PartialEq)]
pub enum HostDecl {
    Struct(HostStruct),
    Enum(HostEnum),
    Trait(HostTrait),
    Other,
}

} // verus!
