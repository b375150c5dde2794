//! Plain-data model of a parsed source unit.
//!
//! The external parser yields a typed syntax tree; this module holds the
//! shape of that tree as plain values (strings, flags, nested item lists),
//! which the classifier and the module-path resolver then walk. Only facts
//! that the catalog reads are kept: identifier texts, token renderings,
//! raw visibility, attribute shapes, and the name-token line number.

use vstd::prelude::*;

verus! {

/// Raw visibility syntax of a declaration, before normalization.
#[derive(Debug, Clone, Copy, PartialEq, Eq)]
pub enum RawVis {
    /// `pub`
    Public,
    /// `pub(crate)`
    Crate,
    /// `pub(super)`
    Super,
    /// `pub(self)`
    SelfOnly,
    /// `pub(in path)` with some other path
    Restricted,
    /// no visibility keyword
    Inherited,
}

/// One attribute attached to a declaration, reduced to the shapes the
/// catalog distinguishes.
#[derive(Debug, Clone, PartialEq, Eq)]
pub enum RawAttr {
    /// A doc attribute carrying a string literal value (the untrimmed text).
    DocStr(String),
    /// A doc attribute of any other shape.
    DocOther,
    /// A derive attribute with its parsed list of trait path texts.
    Derive(Vec<String>),
    /// A derive attribute whose argument list could not be parsed.
    DeriveBad,
    /// Any other attribute, as its token text.
    Other(String),
}

/// One function parameter as written.
#[derive(Debug, Clone, PartialEq, Eq)]
pub struct RawParam {
    /// True for a `self` receiver.
    pub is_receiver: bool,
    /// For a receiver: written with `mut`.
    pub recv_mut: bool,
    /// For a receiver: written with `&`.
    pub recv_ref: bool,
    /// For a non-receiver: the pattern text.
    pub name: String,
    /// For a non-receiver: the type text.
    pub ty: String,
}

/// The signature of a free function or method.
#[derive(Debug, Clone, PartialEq, Eq)]
pub struct RawFnSig {
    pub name: String,
    /// The whole signature as token text.
    pub sig_text: String,
    pub is_async: bool,
    pub is_const: bool,
    pub is_unsafe: bool,
    /// Generic parameter texts.
    pub generics: Vec<String>,
    pub params: Vec<RawParam>,
    /// Return type text, absent for the default return.
    pub ret: Option<String>,
    /// Where-clause text, if any.
    pub where_clause: Option<String>,
}

/// A free function or an impl method.
#[derive(Debug, Clone, PartialEq, Eq)]
pub struct RawFn {
    pub vis: RawVis,
    pub sig: RawFnSig,
    pub attrs: Vec<RawAttr>,
    /// 1-based line of the name token (0 when unknown).
    pub line: usize,
}

/// One struct or enum field.
#[derive(Debug, Clone, PartialEq, Eq)]
pub struct RawField {
    /// The field name; absent for tuple fields.
    pub name: Option<String>,
    pub ty: String,
    pub vis: RawVis,
    pub attrs: Vec<RawAttr>,
}

/// The field list shape of a struct or enum variant.
#[derive(Debug, Clone, PartialEq, Eq)]
pub enum RawFields {
    Named(Vec<RawField>),
    Unnamed(Vec<RawField>),
    Unit,
}

#[derive(Debug, Clone, PartialEq, Eq)]
pub struct RawStruct {
    pub name: String,
    pub vis: RawVis,
    pub generics: Vec<String>,
    pub where_clause: Option<String>,
    pub fields: RawFields,
    pub attrs: Vec<RawAttr>,
    pub line: usize,
}

#[derive(Debug, Clone, PartialEq, Eq)]
pub struct RawVariant {
    pub name: String,
    pub fields: RawFields,
    /// Discriminant expression text, if written.
    pub discriminant: Option<String>,
    pub attrs: Vec<RawAttr>,
}

#[derive(Debug, Clone, PartialEq, Eq)]
pub struct RawEnum {
    pub name: String,
    pub vis: RawVis,
    pub generics: Vec<String>,
    pub where_clause: Option<String>,
    pub variants: Vec<RawVariant>,
    pub attrs: Vec<RawAttr>,
    pub line: usize,
}

#[derive(Debug, Clone, PartialEq, Eq)]
pub struct RawTraitMethod {
    pub name: String,
    pub sig_text: String,
    pub has_default: bool,
    pub is_async: bool,
    pub attrs: Vec<RawAttr>,
}

#[derive(Debug, Clone, PartialEq, Eq)]
pub struct RawAssocType {
    pub name: String,
    pub bounds: Vec<String>,
    pub default: Option<String>,
}

#[derive(Debug, Clone, PartialEq, Eq)]
pub struct RawAssocConst {
    pub name: String,
    pub ty: String,
    pub default: Option<String>,
}

#[derive(Debug, Clone, PartialEq, Eq)]
pub enum RawTraitItem {
    Method(RawTraitMethod),
    Type(RawAssocType),
    Const(RawAssocConst),
    Skipped,
}

#[derive(Debug, Clone, PartialEq, Eq)]
pub struct RawTrait {
    pub name: String,
    pub vis: RawVis,
    pub is_unsafe: bool,
    pub is_auto: bool,
    pub generics: Vec<String>,
    pub where_clause: Option<String>,
    pub supertraits: Vec<String>,
    pub items: Vec<RawTraitItem>,
    pub attrs: Vec<RawAttr>,
    pub line: usize,
}

#[derive(Debug, Clone, PartialEq, Eq)]
pub enum RawImplItem {
    Method(RawFn),
    Skipped,
}

#[derive(Debug, Clone, PartialEq, Eq)]
pub struct RawImpl {
    /// The implementing type as token text.
    pub self_ty: String,
    /// The trait path text, for trait impls.
    pub trait_name: Option<String>,
    pub is_unsafe: bool,
    pub is_negative: bool,
    pub generics: Vec<String>,
    pub where_clause: Option<String>,
    pub items: Vec<RawImplItem>,
    pub line: usize,
}

#[derive(Debug, Clone, PartialEq, Eq)]
pub struct RawTypeAlias {
    pub name: String,
    pub vis: RawVis,
    pub generics: Vec<String>,
    pub where_clause: Option<String>,
    pub ty: String,
    pub attrs: Vec<RawAttr>,
    pub line: usize,
}

#[derive(Debug, Clone, PartialEq, Eq)]
pub struct RawConst {
    pub name: String,
    pub vis: RawVis,
    pub ty: String,
    pub value: String,
    pub attrs: Vec<RawAttr>,
    pub line: usize,
}

#[derive(Debug, Clone, PartialEq, Eq)]
pub struct RawStatic {
    pub name: String,
    pub vis: RawVis,
    pub ty: String,
    pub is_mut: bool,
    pub attrs: Vec<RawAttr>,
    pub line: usize,
}

/// An inline or out-of-line module declaration.
#[derive(Debug)]
pub struct RawMod {
    pub name: String,
    pub vis: RawVis,
    /// True when the module body is written inline in this unit.
    pub has_body: bool,
    /// The items of an inline body; empty otherwise.
    pub content: Vec<RawItem>,
    pub attrs: Vec<RawAttr>,
    pub line: usize,
}

/// One top-level or module-nested item of a source unit.
#[derive(Debug)]
pub enum RawItem {
    Fn(RawFn),
    Struct(RawStruct),
    Enum(RawEnum),
    Trait(RawTrait),
    Impl(RawImpl),
    Mod(RawMod),
    TypeAlias(RawTypeAlias),
    Const(RawConst),
    Static(RawStatic),
    /// An item kind the catalog does not track.
    Skipped,
}

} // verus!
