//! Trusted boundary to the external source parser.
//!
//! The catalog's input is a parsed syntax tree. Parsing is done by the
//! `syn` crate; this module declares the parser's node types, converts each
//! node shape for shape into the crate's plain-data model, and exposes one
//! contracted entry point, [`parse_source`]. Every function here is trusted:
//! each body only tells a parser node's variants apart and moves its fields,
//! rendered through `syn`'s own accessors, into the raw model.

use vstd::prelude::*;
use crate::analyzer::syntax::{
    RawAssocConst, RawAssocType, RawAttr, RawConst, RawEnum, RawField, RawFields, RawFn,
    RawFnSig, RawImpl, RawImplItem, RawItem, RawMod, RawParam, RawStatic, RawStruct, RawTrait,
    RawTraitItem, RawTraitMethod, RawTypeAlias, RawVariant, RawVis,
};
use quote::ToTokens;
use syn::Field as SynField;
use syn::Variant as SynVariant;
use syn::Visibility as SynVisibility;

verus! {

#[verifier::external_type_specification]
#[verifier::external_body]
pub struct ExSynItem(syn::Item);

#[verifier::external_type_specification]
#[verifier::external_body]
pub struct ExSynItemFn(syn::ItemFn);

#[verifier::external_type_specification]
#[verifier::external_body]
pub struct ExSynItemStruct(syn::ItemStruct);

#[verifier::external_type_specification]
#[verifier::external_body]
pub struct ExSynItemEnum(syn::ItemEnum);

#[verifier::external_type_specification]
#[verifier::external_body]
pub struct ExSynItemTrait(syn::ItemTrait);

#[verifier::external_type_specification]
#[verifier::external_body]
pub struct ExSynItemImpl(syn::ItemImpl);

#[verifier::external_type_specification]
#[verifier::external_body]
pub struct ExSynItemMod(syn::ItemMod);

#[verifier::external_type_specification]
#[verifier::external_body]
pub struct ExSynItemType(syn::ItemType);

#[verifier::external_type_specification]
#[verifier::external_body]
pub struct ExSynItemConst(syn::ItemConst);

#[verifier::external_type_specification]
#[verifier::external_body]
pub struct ExSynItemStatic(syn::ItemStatic);

#[verifier::external_type_specification]
#[verifier::external_body]
pub struct ExSynAttribute(syn::Attribute);

#[verifier::external_type_specification]
#[verifier::external_body]
pub struct ExSynVisibility(SynVisibility);

#[verifier::external_type_specification]
#[verifier::external_body]
pub struct ExSynSignature(syn::Signature);

#[verifier::external_type_specification]
#[verifier::external_body]
pub struct ExSynFnArg(syn::FnArg);

#[verifier::external_type_specification]
#[verifier::external_body]
pub struct ExSynPatType(syn::PatType);

#[verifier::external_type_specification]
#[verifier::external_body]
pub struct ExSynGenerics(syn::Generics);

#[verifier::external_type_specification]
#[verifier::external_body]
pub struct ExSynFields(syn::Fields);

#[verifier::external_type_specification]
#[verifier::external_body]
pub struct ExSynField(SynField);

#[verifier::external_type_specification]
#[verifier::external_body]
pub struct ExSynVariant(SynVariant);

#[verifier::external_type_specification]
#[verifier::external_body]
pub struct ExSynTraitItem(syn::TraitItem);

#[verifier::external_type_specification]
#[verifier::external_body]
pub struct ExSynTraitItemFn(syn::TraitItemFn);

#[verifier::external_type_specification]
#[verifier::external_body]
pub struct ExSynTraitItemType(syn::TraitItemType);

#[verifier::external_type_specification]
#[verifier::external_body]
pub struct ExSynTraitItemConst(syn::TraitItemConst);

#[verifier::external_type_specification]
#[verifier::external_body]
pub struct ExSynImplItem(syn::ImplItem);

#[verifier::external_type_specification]
#[verifier::external_body]
pub struct ExSynImplItemFn(syn::ImplItemFn);

/// What the external parser yields for a source text: `Some` with the raw
/// item tree when `syn::parse_str::<syn::File>` accepts the text, `None`
/// when it rejects it. `syn` computes this from the text alone, so the
/// result is a function of the characters.
pub uninterp spec fn parse_of(s: Seq<char>) -> Option<Seq<RawItem>>;

/// Relies on syn::parse_str::<syn::File>: parses a source text into its
/// top-level items, deterministically; fails exactly on malformed source,
/// with a message from the parser.
#[verifier::external_body]
pub fn parse_source(source: &str) -> (r: Result<Vec<RawItem>, String>)
    ensures
        match r {
            Ok(v) => parse_of(source@) == Some(v@),
            Err(_) => parse_of(source@) is None,
        },
{
    match syn::parse_str::<syn::File>(source) {
        Ok(f) => Ok(convert_items(&f.items)),
        Err(e) => Err(e.to_string()),
    }
}

/// Relies on syn::Item: converts each top-level item in order.
#[verifier::external_body]
fn convert_items(items: &Vec<syn::Item>) -> Vec<RawItem> {
    items.iter().map(convert_item).collect()
}

/// Relies on syn::Item: tells the tracked item kinds apart.
#[verifier::external_body]
fn convert_item(it: &syn::Item) -> RawItem {
    match it {
        syn::Item::Fn(f) => RawItem::Fn(convert_fn(f)),
        syn::Item::Struct(s) => RawItem::Struct(convert_struct(s)),
        syn::Item::Enum(e) => RawItem::Enum(convert_enum(e)),
        syn::Item::Trait(t) => RawItem::Trait(convert_trait(t)),
        syn::Item::Impl(i) => RawItem::Impl(convert_impl(i)),
        syn::Item::Mod(m) => RawItem::Mod(convert_mod(m)),
        syn::Item::Type(t) => RawItem::TypeAlias(convert_type_alias(t)),
        syn::Item::Const(c) => RawItem::Const(convert_const(c)),
        syn::Item::Static(s) => RawItem::Static(convert_static(s)),
        _ => RawItem::Skipped,
    }
}

/// Relies on syn::ItemFn: moves the signature, visibility, attributes and
/// the name token's line.
#[verifier::external_body]
fn convert_fn(f: &syn::ItemFn) -> RawFn {
    RawFn {
        vis: convert_vis(&f.vis),
        sig: convert_sig(&f.sig),
        attrs: convert_attrs(&f.attrs),
        line: f.sig.ident.span().start().line,
    }
}

/// Relies on syn::Signature: renders the signature parts as token text.
#[verifier::external_body]
fn convert_sig(s: &syn::Signature) -> RawFnSig {
    RawFnSig {
        name: s.ident.to_string(),
        sig_text: s.to_token_stream().to_string(),
        is_async: s.asyncness.is_some(),
        is_const: s.constness.is_some(),
        is_unsafe: s.unsafety.is_some(),
        generics: convert_generics(&s.generics),
        params: s.inputs.iter().map(convert_arg).collect(),
        ret: convert_ret(s),
        where_clause: s.generics.where_clause.as_ref().map(|w| w.to_token_stream().to_string()),
    }
}

/// Relies on syn::ReturnType: the return type text, absent for the default.
#[verifier::external_body]
fn convert_ret(s: &syn::Signature) -> Option<String> {
    match &s.output {
        syn::ReturnType::Default => None,
        syn::ReturnType::Type(_, t) => Some(t.to_token_stream().to_string()),
    }
}

/// Relies on syn::FnArg: tells a receiver from a typed parameter.
#[verifier::external_body]
fn convert_arg(a: &syn::FnArg) -> RawParam {
    match a {
        syn::FnArg::Receiver(r) => RawParam {
            is_receiver: true,
            recv_mut: r.mutability.is_some(),
            recv_ref: r.reference.is_some(),
            name: String::new(),
            ty: String::new(),
        },
        syn::FnArg::Typed(p) => convert_typed_arg(p),
    }
}

/// Relies on syn::PatType: moves the pattern and type texts of a typed
/// parameter.
#[verifier::external_body]
fn convert_typed_arg(p: &syn::PatType) -> RawParam {
    RawParam {
        is_receiver: false,
        recv_mut: false,
        recv_ref: false,
        name: p.pat.to_token_stream().to_string(),
        ty: p.ty.to_token_stream().to_string(),
    }
}

/// Relies on syn::Generics: renders each generic parameter as token text.
#[verifier::external_body]
fn convert_generics(g: &syn::Generics) -> Vec<String> {
    g.params.iter().map(|p| p.to_token_stream().to_string()).collect()
}

/// Relies on syn::Generics: renders the where-clause as token text.
#[verifier::external_body]
fn convert_where(g: &syn::Generics) -> Option<String> {
    g.where_clause.as_ref().map(|w| w.to_token_stream().to_string())
}

/// Relies on syn::Attribute: converts each attribute in order.
#[verifier::external_body]
fn convert_attrs(attrs: &Vec<syn::Attribute>) -> Vec<RawAttr> {
    attrs.iter().map(convert_attr).collect()
}

/// Relies on syn::Attribute: tells doc and derive attributes from the rest;
/// a doc attribute keeps its string literal value, a derive its parsed
/// trait path list.
#[verifier::external_body]
fn convert_attr(a: &syn::Attribute) -> RawAttr {
    if a.path().is_ident("doc") {
        if let Ok(nv) = a.meta.require_name_value() {
            if let syn::Expr::Lit(l) = &nv.value {
                if let syn::Lit::Str(s) = &l.lit {
                    return RawAttr::DocStr(s.value());
                }
            }
        }
        RawAttr::DocOther
    } else if a.path().is_ident("derive") {
        convert_derive(a)
    } else {
        RawAttr::Other(a.to_token_stream().to_string())
    }
}

/// Relies on syn::Attribute::parse_args_with: parses a derive argument
/// list into trait path texts.
#[verifier::external_body]
fn convert_derive(a: &syn::Attribute) -> RawAttr {
    let parsed = a.parse_args_with(
        syn::punctuated::Punctuated::<syn::Path, syn::token::Comma>::parse_terminated,
    );
    match parsed {
        Ok(paths) => RawAttr::Derive(
            paths.iter().map(|p| p.to_token_stream().to_string()).collect(),
        ),
        Err(_) => RawAttr::DeriveBad,
    }
}

/// Relies on syn::Visibility: tells the visibility syntax shapes apart.
#[verifier::external_body]
fn convert_vis(v: &SynVisibility) -> RawVis {
    match v {
        syn::Visibility::Public(_) => RawVis::Public,
        syn::Visibility::Restricted(r) => {
            if r.path.is_ident("crate") {
                RawVis::Crate
            } else if r.path.is_ident("super") {
                RawVis::Super
            } else if r.path.is_ident("self") {
                RawVis::SelfOnly
            } else {
                RawVis::Restricted
            }
        }
        syn::Visibility::Inherited => RawVis::Inherited,
    }
}

/// Relies on syn::ItemStruct: moves name, visibility, generics, fields,
/// attributes and the name token's line.
#[verifier::external_body]
fn convert_struct(s: &syn::ItemStruct) -> RawStruct {
    RawStruct {
        name: s.ident.to_string(),
        vis: convert_vis(&s.vis),
        generics: convert_generics(&s.generics),
        where_clause: convert_where(&s.generics),
        fields: convert_fields(&s.fields),
        attrs: convert_attrs(&s.attrs),
        line: s.ident.span().start().line,
    }
}

/// Relies on syn::Fields: tells named, tuple and unit field lists apart.
#[verifier::external_body]
fn convert_fields(f: &syn::Fields) -> RawFields {
    match f {
        syn::Fields::Named(n) => RawFields::Named(n.named.iter().map(convert_field).collect()),
        syn::Fields::Unnamed(u) => {
            RawFields::Unnamed(u.unnamed.iter().map(convert_field).collect())
        }
        syn::Fields::Unit => RawFields::Unit,
    }
}

/// Relies on syn::Field: moves the field name, type text, visibility and
/// attributes.
#[verifier::external_body]
fn convert_field(f: &SynField) -> RawField {
    RawField {
        name: f.ident.as_ref().map(|i| i.to_string()),
        ty: f.ty.to_token_stream().to_string(),
        vis: convert_vis(&f.vis),
        attrs: convert_attrs(&f.attrs),
    }
}

/// Relies on syn::ItemEnum: moves name, visibility, generics, variants,
/// attributes and the name token's line.
#[verifier::external_body]
fn convert_enum(e: &syn::ItemEnum) -> RawEnum {
    RawEnum {
        name: e.ident.to_string(),
        vis: convert_vis(&e.vis),
        generics: convert_generics(&e.generics),
        where_clause: convert_where(&e.generics),
        variants: e.variants.iter().map(convert_variant).collect(),
        attrs: convert_attrs(&e.attrs),
        line: e.ident.span().start().line,
    }
}

/// Relies on syn::Variant: moves the variant name, fields, discriminant
/// text and attributes.
#[verifier::external_body]
fn convert_variant(v: &SynVariant) -> RawVariant {
    RawVariant {
        name: v.ident.to_string(),
        fields: convert_fields(&v.fields),
        discriminant: v.discriminant.as_ref().map(|(_, e)| e.to_token_stream().to_string()),
        attrs: convert_attrs(&v.attrs),
    }
}

/// Relies on syn::ItemTrait: moves name, flags, generics, supertraits,
/// trait items, attributes and the name token's line.
#[verifier::external_body]
fn convert_trait(t: &syn::ItemTrait) -> RawTrait {
    RawTrait {
        name: t.ident.to_string(),
        vis: convert_vis(&t.vis),
        is_unsafe: t.unsafety.is_some(),
        is_auto: t.auto_token.is_some(),
        generics: convert_generics(&t.generics),
        where_clause: convert_where(&t.generics),
        supertraits: t.supertraits.iter().map(|s| s.to_token_stream().to_string()).collect(),
        items: t.items.iter().map(convert_trait_item).collect(),
        attrs: convert_attrs(&t.attrs),
        line: t.ident.span().start().line,
    }
}

/// Relies on syn::TraitItem: tells methods, associated types and
/// associated consts apart.
#[verifier::external_body]
fn convert_trait_item(i: &syn::TraitItem) -> RawTraitItem {
    match i {
        syn::TraitItem::Fn(m) => RawTraitItem::Method(convert_trait_method(m)),
        syn::TraitItem::Type(t) => RawTraitItem::Type(convert_assoc_type(t)),
        syn::TraitItem::Const(c) => RawTraitItem::Const(convert_assoc_const(c)),
        _ => RawTraitItem::Skipped,
    }
}

/// Relies on syn::TraitItemFn: moves the method signature parts.
#[verifier::external_body]
fn convert_trait_method(m: &syn::TraitItemFn) -> RawTraitMethod {
    RawTraitMethod {
        name: m.sig.ident.to_string(),
        sig_text: m.sig.to_token_stream().to_string(),
        has_default: m.default.is_some(),
        is_async: m.sig.asyncness.is_some(),
        attrs: convert_attrs(&m.attrs),
    }
}

/// Relies on syn::TraitItemType: moves the name, bound texts and default.
#[verifier::external_body]
fn convert_assoc_type(t: &syn::TraitItemType) -> RawAssocType {
    RawAssocType {
        name: t.ident.to_string(),
        bounds: t.bounds.iter().map(|b| b.to_token_stream().to_string()).collect(),
        default: t.default.as_ref().map(|(_, ty)| ty.to_token_stream().to_string()),
    }
}

/// Relies on syn::TraitItemConst: moves the name, type text and default.
#[verifier::external_body]
fn convert_assoc_const(c: &syn::TraitItemConst) -> RawAssocConst {
    RawAssocConst {
        name: c.ident.to_string(),
        ty: c.ty.to_token_stream().to_string(),
        default: c.default.as_ref().map(|(_, e)| e.to_token_stream().to_string()),
    }
}

/// Relies on syn::ItemImpl: moves the implementing type text, trait path,
/// flags, items and the impl token's line.
#[verifier::external_body]
fn convert_impl(i: &syn::ItemImpl) -> RawImpl {
    RawImpl {
        self_ty: i.self_ty.to_token_stream().to_string(),
        trait_name: i.trait_.as_ref().map(|(_, p, _)| p.to_token_stream().to_string()),
        is_unsafe: i.unsafety.is_some(),
        is_negative: i.trait_.as_ref().is_some_and(|(b, _, _)| b.is_some()),
        generics: convert_generics(&i.generics),
        where_clause: convert_where(&i.generics),
        items: i.items.iter().map(convert_impl_item).collect(),
        line: i.impl_token.span.start().line,
    }
}

/// Relies on syn::ImplItem: keeps methods and skips the rest.
#[verifier::external_body]
fn convert_impl_item(i: &syn::ImplItem) -> RawImplItem {
    match i {
        syn::ImplItem::Fn(m) => RawImplItem::Method(convert_method(m)),
        _ => RawImplItem::Skipped,
    }
}

/// Relies on syn::ImplItemFn: moves the method's visibility, signature and
/// attributes.
#[verifier::external_body]
fn convert_method(m: &syn::ImplItemFn) -> RawFn {
    RawFn {
        vis: convert_vis(&m.vis),
        sig: convert_sig(&m.sig),
        attrs: convert_attrs(&m.attrs),
        line: m.sig.ident.span().start().line,
    }
}

/// Relies on syn::ItemMod: moves the name, visibility, inline body items,
/// attributes and the name token's line.
#[verifier::external_body]
fn convert_mod(m: &syn::ItemMod) -> RawMod {
    RawMod {
        name: m.ident.to_string(),
        vis: convert_vis(&m.vis),
        has_body: m.content.is_some(),
        content: match &m.content {
            Some((_, items)) => items.iter().map(convert_item).collect(),
            None => Vec::new(),
        },
        attrs: convert_attrs(&m.attrs),
        line: m.ident.span().start().line,
    }
}

/// Relies on syn::ItemType: moves the name, visibility, generics, aliased
/// type text, attributes and the name token's line.
#[verifier::external_body]
fn convert_type_alias(t: &syn::ItemType) -> RawTypeAlias {
    RawTypeAlias {
        name: t.ident.to_string(),
        vis: convert_vis(&t.vis),
        generics: convert_generics(&t.generics),
        where_clause: convert_where(&t.generics),
        ty: t.ty.to_token_stream().to_string(),
        attrs: convert_attrs(&t.attrs),
        line: t.ident.span().start().line,
    }
}

/// Relies on syn::ItemConst: moves the name, visibility, type and value
/// texts, attributes and the name token's line.
#[verifier::external_body]
fn convert_const(c: &syn::ItemConst) -> RawConst {
    RawConst {
        name: c.ident.to_string(),
        vis: convert_vis(&c.vis),
        ty: c.ty.to_token_stream().to_string(),
        value: c.expr.to_token_stream().to_string(),
        attrs: convert_attrs(&c.attrs),
        line: c.ident.span().start().line,
    }
}

/// Relies on syn::ItemStatic: moves the name, visibility, mutability flag,
/// type text, attributes and the name token's line.
#[verifier::external_body]
fn convert_static(s: &syn::ItemStatic) -> RawStatic {
    RawStatic {
        name: s.ident.to_string(),
        vis: convert_vis(&s.vis),
        ty: s.ty.to_token_stream().to_string(),
        is_mut: matches!(s.mutability, syn::StaticMutability::Mut(_)),
        attrs: convert_attrs(&s.attrs),
        line: s.ident.span().start().line,
    }
}

} // verus!
