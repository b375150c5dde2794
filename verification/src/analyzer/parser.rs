//! Source model extraction: walks the raw syntax tree of one source unit
//! and produces the flat, classified, path-qualified record list.

use vstd::prelude::*;
use crate::analyzer::syn_bridge::{parse_of, parse_source};
use crate::analyzer::syntax::{
    RawAttr, RawConst, RawEnum, RawField, RawFields, RawFn, RawImpl, RawImplItem, RawItem,
    RawMod, RawParam, RawStatic, RawStruct, RawTrait, RawTraitItem, RawTypeAlias, RawVariant,
    RawVis,
};
use crate::analyzer::types::{
    opt_view, AnalyzedItem, AnalyzedItemV, AssociatedConst, AssociatedConstV, AssociatedType,
    AssociatedTypeV, ConstInfo, ConstInfoV, EnumInfo, EnumInfoV, Field, FieldV, FunctionInfo,
    FunctionInfoV, ImplInfo, ImplInfoV, ModuleInfo, ModuleInfoV, Parameter, ParameterV,
    SourceLocation, SourceLocationV, StaticInfo, StaticInfoV, StructInfo, StructInfoV,
    StructKind, TraitInfo, TraitInfoV, TraitMethod, TraitMethodV, TypeAliasInfo, TypeAliasInfoV,
    Variant, VariantFields, VariantFieldsV, VariantV, Visibility,
};
use crate::error::OracleError;
use crate::strings::{
    chars_to_string, dec_rep, join_strings, join_with, split_chars, split_spec, str_eq,
    str_to_chars,
    strip_all_suffix, strip_suffix_chars, trim_spec, trim_str, u64_to_dec, views_of,
};

verus! {

/// Maps the raw visibility syntax into the closed normalized vocabulary:
/// a restriction to an unrecognized path counts as private, as does the
/// absence of a visibility keyword.
pub open spec fn norm_vis(v: RawVis) -> Visibility {
    match v {
        RawVis::Public => Visibility::Public,
        RawVis::Crate => Visibility::Crate,
        RawVis::Super => Visibility::Super,
        RawVis::SelfOnly => Visibility::SelfOnly,
        RawVis::Restricted => Visibility::Private,
        RawVis::Inherited => Visibility::Private,
    }
}

/// Executable visibility normalizer.
pub fn normalize_visibility(v: RawVis) -> (r: Visibility)
    ensures
        r == norm_vis(v),
{
    match v {
        RawVis::Public => Visibility::Public,
        RawVis::Crate => Visibility::Crate,
        RawVis::Super => Visibility::Super,
        RawVis::SelfOnly => Visibility::SelfOnly,
        RawVis::Restricted => Visibility::Private,
        RawVis::Inherited => Visibility::Private,
    }
}

/// The trimmed text of each doc attribute, in order.
pub open spec fn doc_lines(attrs: Seq<RawAttr>) -> Seq<Seq<char>>
    decreases attrs.len(),
{
    if attrs.len() == 0 {
        Seq::empty()
    } else {
        (match attrs[0] {
            RawAttr::DocStr(t) => seq![trim_spec(t@)],
            _ => Seq::empty(),
        }) + doc_lines(attrs.drop_first())
    }
}

/// The documentation of a declaration: its doc lines joined with a
/// newline, absent when there are none.
pub open spec fn docs_of(attrs: Seq<RawAttr>) -> Option<Seq<char>> {
    if doc_lines(attrs).len() == 0 {
        None
    } else {
        Some(join_with(doc_lines(attrs), "\n"@))
    }
}

proof fn lemma_doc_lines_take(attrs: Seq<RawAttr>, i: int)
    requires
        0 <= i < attrs.len(),
    ensures
        doc_lines(attrs.take(i + 1)) == doc_lines(attrs.take(i)) + (match attrs[i] {
            RawAttr::DocStr(t) => seq![trim_spec(t@)],
            _ => Seq::empty(),
        }),
    decreases i,
{
    let a = attrs.take(i + 1);
    let b = attrs.take(i);
    if i == 0 {
        assert(a.drop_first() =~= Seq::<RawAttr>::empty());
        assert(b =~= Seq::<RawAttr>::empty());
        assert(doc_lines(a) =~= doc_lines(b) + (match attrs[0] {
            RawAttr::DocStr(t) => seq![trim_spec(t@)],
            _ => Seq::empty(),
        }));
    } else {
        lemma_doc_lines_take(attrs.drop_first(), i - 1);
        assert(a.drop_first() =~= attrs.drop_first().take(i as int));
        assert(b.drop_first() =~= attrs.drop_first().take(i - 1));
        assert(attrs.drop_first()[i - 1] == attrs[i]);
        assert(doc_lines(a) == (match a[0] {
            RawAttr::DocStr(t) => seq![trim_spec(t@)],
            _ => Seq::empty(),
        }) + doc_lines(a.drop_first()));
        assert(doc_lines(b) == (match b[0] {
            RawAttr::DocStr(t) => seq![trim_spec(t@)],
            _ => Seq::empty(),
        }) + doc_lines(b.drop_first()));
        assert(doc_lines(a) =~= doc_lines(b) + (match attrs[i] {
            RawAttr::DocStr(t) => seq![trim_spec(t@)],
            _ => Seq::empty(),
        }));
    }
}

/// Extracts the documentation attached to a declaration: one trimmed
/// string per doc line, newline-joined; absent when there is none.
pub fn extract_docs(attrs: &Vec<RawAttr>) -> (r: Option<String>)
    ensures
        opt_view(r) == docs_of(attrs@),
{
    let mut lines: Vec<String> = Vec::new();
    let mut i: usize = 0;
    proof {
        assert(attrs@.take(0) =~= Seq::<RawAttr>::empty());
        assert(views_of(lines@) =~= doc_lines(attrs@.take(0)));
    }
    while i < attrs.len()
        invariant
            i <= attrs@.len(),
            views_of(lines@) == doc_lines(attrs@.take(i as int)),
        decreases attrs@.len() - i,
    {
        proof {
            lemma_doc_lines_take(attrs@, i as int);
        }
        match &attrs[i] {
            RawAttr::DocStr(t) => {
                let line = trim_str(t.as_str());
                lines.push(line);
                proof {
                    assert(views_of(lines@) =~= doc_lines(attrs@.take(i + 1)));
                }
            },
            _ => {
                proof {
                    assert(views_of(lines@) =~= doc_lines(attrs@.take(i + 1)));
                }
            },
        }
        i = i + 1;
    }
    proof {
        assert(attrs@.take(attrs@.len() as int) =~= attrs@);
    }
    if lines.len() == 0 {
        None
    } else {
        Some(join_strings(&lines, "\n"))
    }
}

/// The trait names of every well-formed derive attribute, flattened in
/// order; a derive whose argument list failed to parse contributes none.
pub open spec fn derive_names(attrs: Seq<RawAttr>) -> Seq<Seq<char>>
    decreases attrs.len(),
{
    if attrs.len() == 0 {
        Seq::empty()
    } else {
        (match attrs[0] {
            RawAttr::Derive(ps) => views_of(ps@),
            _ => Seq::empty(),
        }) + derive_names(attrs.drop_first())
    }
}

proof fn lemma_derive_names_take(attrs: Seq<RawAttr>, i: int)
    requires
        0 <= i < attrs.len(),
    ensures
        derive_names(attrs.take(i + 1)) == derive_names(attrs.take(i)) + (match attrs[i] {
            RawAttr::Derive(ps) => views_of(ps@),
            _ => Seq::empty(),
        }),
    decreases i,
{
    let a = attrs.take(i + 1);
    let b = attrs.take(i);
    if i == 0 {
        assert(a.drop_first() =~= Seq::<RawAttr>::empty());
        assert(b =~= Seq::<RawAttr>::empty());
        assert(derive_names(a) =~= derive_names(b) + (match attrs[0] {
            RawAttr::Derive(ps) => views_of(ps@),
            _ => Seq::empty(),
        }));
    } else {
        lemma_derive_names_take(attrs.drop_first(), i - 1);
        assert(a.drop_first() =~= attrs.drop_first().take(i as int));
        assert(b.drop_first() =~= attrs.drop_first().take(i - 1));
        assert(attrs.drop_first()[i - 1] == attrs[i]);
        assert(derive_names(a) =~= derive_names(b) + (match attrs[i] {
            RawAttr::Derive(ps) => views_of(ps@),
            _ => Seq::empty(),
        }));
    }
}

/// Extracts the derived trait names of a declaration.
pub fn extract_derives(attrs: &Vec<RawAttr>) -> (r: Vec<String>)
    ensures
        views_of(r@) == derive_names(attrs@),
{
    let mut names: Vec<String> = Vec::new();
    let mut i: usize = 0;
    proof {
        assert(attrs@.take(0) =~= Seq::<RawAttr>::empty());
        assert(views_of(names@) =~= derive_names(attrs@.take(0)));
    }
    while i < attrs.len()
        invariant
            i <= attrs@.len(),
            views_of(names@) == derive_names(attrs@.take(i as int)),
        decreases attrs@.len() - i,
    {
        proof {
            lemma_derive_names_take(attrs@, i as int);
        }
        match &attrs[i] {
            RawAttr::Derive(ps) => {
                let mut j: usize = 0;
                while j < ps.len()
                    invariant
                        j <= ps@.len(),
                        views_of(names@) == derive_names(attrs@.take(i as int)) + views_of(
                            ps@.take(j as int),
                        ),
                    decreases ps@.len() - j,
                {
                    let ghost prev = names@;
                    names.push(ps[j].clone());
                    proof {
                        assert(names@ =~= prev.push(names@[prev.len() as int]));
                        assert(names@[prev.len() as int]@ == ps@[j as int]@);
                        assert(views_of(names@) =~= views_of(prev).push(ps@[j as int]@));
                        assert(views_of(ps@.take(j + 1)) =~= views_of(ps@.take(j as int)).push(
                            ps@[j as int]@,
                        ));
                        assert(views_of(names@) =~= derive_names(attrs@.take(i as int))
                            + views_of(ps@.take(j + 1)));
                    }
                    j = j + 1;
                }
                proof {
                    assert(ps@.take(ps@.len() as int) =~= ps@);
                }
            },
            _ => {
                proof {
                    assert(views_of(names@) =~= derive_names(attrs@.take(i + 1)));
                }
            },
        }
        i = i + 1;
    }
    proof {
        assert(attrs@.take(attrs@.len() as int) =~= attrs@);
    }
    names
}

/// The token text of every attribute that is neither a doc nor a derive.
pub open spec fn other_attr_texts(attrs: Seq<RawAttr>) -> Seq<Seq<char>>
    decreases attrs.len(),
{
    if attrs.len() == 0 {
        Seq::empty()
    } else {
        (match attrs[0] {
            RawAttr::Other(t) => seq![t@],
            _ => Seq::empty(),
        }) + other_attr_texts(attrs.drop_first())
    }
}

proof fn lemma_other_attr_texts_take(attrs: Seq<RawAttr>, i: int)
    requires
        0 <= i < attrs.len(),
    ensures
        other_attr_texts(attrs.take(i + 1)) == other_attr_texts(attrs.take(i)) + (match attrs[i] {
            RawAttr::Other(t) => seq![t@],
            _ => Seq::empty(),
        }),
    decreases i,
{
    let a = attrs.take(i + 1);
    let b = attrs.take(i);
    if i == 0 {
        assert(a.drop_first() =~= Seq::<RawAttr>::empty());
        assert(b =~= Seq::<RawAttr>::empty());
        assert(other_attr_texts(a) =~= other_attr_texts(b) + (match attrs[0] {
            RawAttr::Other(t) => seq![t@],
            _ => Seq::empty(),
        }));
    } else {
        lemma_other_attr_texts_take(attrs.drop_first(), i - 1);
        assert(a.drop_first() =~= attrs.drop_first().take(i as int));
        assert(b.drop_first() =~= attrs.drop_first().take(i - 1));
        assert(attrs.drop_first()[i - 1] == attrs[i]);
        assert(other_attr_texts(a) =~= other_attr_texts(b) + (match attrs[i] {
            RawAttr::Other(t) => seq![t@],
            _ => Seq::empty(),
        }));
    }
}

/// Extracts the non-doc, non-derive attribute texts of a declaration.
pub fn extract_attributes(attrs: &Vec<RawAttr>) -> (r: Vec<String>)
    ensures
        views_of(r@) == other_attr_texts(attrs@),
{
    let mut texts: Vec<String> = Vec::new();
    let mut i: usize = 0;
    proof {
        assert(attrs@.take(0) =~= Seq::<RawAttr>::empty());
        assert(views_of(texts@) =~= other_attr_texts(attrs@.take(0)));
    }
    while i < attrs.len()
        invariant
            i <= attrs@.len(),
            views_of(texts@) == other_attr_texts(attrs@.take(i as int)),
        decreases attrs@.len() - i,
    {
        proof {
            lemma_other_attr_texts_take(attrs@, i as int);
        }
        match &attrs[i] {
            RawAttr::Other(t) => {
                texts.push(t.clone());
                proof {
                    assert(views_of(texts@) =~= other_attr_texts(attrs@.take(i + 1)));
                }
            },
            _ => {
                proof {
                    assert(views_of(texts@) =~= other_attr_texts(attrs@.take(i + 1)));
                }
            },
        }
        i = i + 1;
    }
    proof {
        assert(attrs@.take(attrs@.len() as int) =~= attrs@);
    }
    texts
}

/// One parameter record from its raw form: a receiver becomes the
/// conventional `self: Self` entry with its flags.
pub open spec fn param_of(p: RawParam) -> ParameterV {
    if p.is_receiver {
        ParameterV {
            name: "self"@,
            ty: "Self"@,
            is_self: true,
            is_mut: p.recv_mut,
            is_ref: p.recv_ref,
        }
    } else {
        ParameterV { name: p.name@, ty: p.ty@, is_self: false, is_mut: false, is_ref: false }
    }
}

/// The parameter records of a raw parameter list.
pub open spec fn params_of(ps: Seq<RawParam>) -> Seq<ParameterV> {
    ps.map_values(|p: RawParam| param_of(p))
}

/// Extracts the ordered parameter list.
pub fn extract_parameters(ps: &Vec<RawParam>) -> (r: Vec<Parameter>)
    ensures
        r@.map_values(|p: Parameter| p@) == params_of(ps@),
{
    let mut out: Vec<Parameter> = Vec::new();
    let mut i: usize = 0;
    while i < ps.len()
        invariant
            i <= ps@.len(),
            out@.len() == i,
            forall|k: int| 0 <= k < i ==> out@[k]@ == param_of(#[trigger] ps@[k]),
        decreases ps@.len() - i,
    {
        let p = &ps[i];
        if p.is_receiver {
            let mut name = String::new();
            name.append("self");
            let mut ty = String::new();
            ty.append("Self");
            out.push(Parameter {
                name,
                ty,
                is_self: true,
                is_mut: p.recv_mut,
                is_ref: p.recv_ref,
            });
        } else {
            out.push(Parameter {
                name: p.name.clone(),
                ty: p.ty.clone(),
                is_self: false,
                is_mut: false,
                is_ref: false,
            });
        }
        proof {
            assert(out@[i as int]@ == param_of(ps@[i as int]));
        }
        i = i + 1;
    }
    proof {
        assert(out@.map_values(|p: Parameter| p@) =~= params_of(ps@));
    }
    out
}

/// Copies a string list.
pub fn clone_strings(v: &Vec<String>) -> (r: Vec<String>)
    ensures
        r@ == v@,
{
    let mut out: Vec<String> = Vec::new();
    let mut i: usize = 0;
    while i < v.len()
        invariant
            i <= v@.len(),
            out@ == v@.take(i as int),
        decreases v@.len() - i,
    {
        out.push(v[i].clone());
        proof {
            assert(out@ =~= v@.take(i + 1));
        }
        i = i + 1;
    }
    proof {
        assert(v@.take(v@.len() as int) =~= v@);
    }
    out
}

/// Copies an optional string.
pub fn clone_opt_string(o: &Option<String>) -> (r: Option<String>)
    ensures
        r == *o,
{
    match o {
        Some(s) => Some(s.clone()),
        None => None,
    }
}

/// One named field record; a missing name degrades to the empty string.
pub open spec fn named_field_v(f: RawField) -> FieldV {
    FieldV {
        name: match f.name {
            Some(n) => n@,
            None => Seq::empty(),
        },
        ty: f.ty@,
        visibility: norm_vis(f.vis),
        documentation: docs_of(f.attrs@),
    }
}

/// The records of a named field list.
pub open spec fn named_fields_v(fs: Seq<RawField>) -> Seq<FieldV> {
    fs.map_values(|f: RawField| named_field_v(f))
}

/// One tuple field record: its position number serves as its name.
pub open spec fn tuple_field_v(f: RawField, i: int) -> FieldV {
    FieldV {
        name: dec_rep(i as nat),
        ty: f.ty@,
        visibility: norm_vis(f.vis),
        documentation: docs_of(f.attrs@),
    }
}

/// The records of a tuple field list.
pub open spec fn tuple_fields_v(fs: Seq<RawField>) -> Seq<FieldV> {
    Seq::new(fs.len(), |i: int| tuple_field_v(fs[i], i))
}

/// Builds the records of a named field list.
fn build_named_fields(fs: &Vec<RawField>) -> (r: Vec<Field>)
    ensures
        r@.map_values(|f: Field| f@) == named_fields_v(fs@),
{
    let mut out: Vec<Field> = Vec::new();
    let mut i: usize = 0;
    while i < fs.len()
        invariant
            i <= fs@.len(),
            out@.len() == i,
            forall|k: int| 0 <= k < i ==> out@[k]@ == named_field_v(#[trigger] fs@[k]),
        decreases fs@.len() - i,
    {
        let f = &fs[i];
        let name = match &f.name {
            Some(n) => n.clone(),
            None => String::new(),
        };
        let doc = extract_docs(&f.attrs);
        out.push(Field {
            name,
            ty: f.ty.clone(),
            visibility: normalize_visibility(f.vis),
            documentation: doc,
        });
        proof {
            assert(out@[i as int]@ =~= named_field_v(fs@[i as int]));
        }
        i = i + 1;
    }
    proof {
        assert(out@.map_values(|f: Field| f@) =~= named_fields_v(fs@));
    }
    out
}

/// Builds the records of a tuple field list, numbering the fields.
fn build_tuple_fields(fs: &Vec<RawField>) -> (r: Vec<Field>)
    ensures
        r@.map_values(|f: Field| f@) == tuple_fields_v(fs@),
{
    let mut out: Vec<Field> = Vec::new();
    let mut i: usize = 0;
    while i < fs.len()
        invariant
            i <= fs@.len(),
            out@.len() == i,
            forall|k: int| 0 <= k < i ==> out@[k]@ == tuple_field_v(#[trigger] fs@[k], k),
        decreases fs@.len() - i,
    {
        let f = &fs[i];
        let name = u64_to_dec(i as u64);
        let doc = extract_docs(&f.attrs);
        out.push(Field {
            name,
            ty: f.ty.clone(),
            visibility: normalize_visibility(f.vis),
            documentation: doc,
        });
        proof {
            assert(out@[i as int]@ =~= tuple_field_v(fs@[i as int], i as int));
        }
        i = i + 1;
    }
    proof {
        assert(out@.map_values(|f: Field| f@) =~= tuple_fields_v(fs@));
    }
    out
}

/// The field records and shape of a struct's raw field list.
pub open spec fn struct_fields_v(rf: RawFields) -> Seq<FieldV> {
    match rf {
        RawFields::Named(fs) => named_fields_v(fs@),
        RawFields::Unnamed(fs) => tuple_fields_v(fs@),
        RawFields::Unit => Seq::empty(),
    }
}

/// The shape tag of a struct's raw field list.
pub open spec fn struct_kind_v(rf: RawFields) -> StructKind {
    match rf {
        RawFields::Named(_) => StructKind::Named,
        RawFields::Unnamed(_) => StructKind::Tuple,
        RawFields::Unit => StructKind::Unit,
    }
}

/// A variant's field shape record.
pub open spec fn variant_fields_v(rf: RawFields) -> VariantFieldsV {
    match rf {
        RawFields::Named(fs) => VariantFieldsV::Named(named_fields_v(fs@)),
        RawFields::Unnamed(fs) => VariantFieldsV::Unnamed(
            fs@.map_values(|f: RawField| f.ty@),
        ),
        RawFields::Unit => VariantFieldsV::Unit,
    }
}

/// One variant record.
pub open spec fn variant_v(v: RawVariant) -> VariantV {
    VariantV {
        name: v.name@,
        fields: variant_fields_v(v.fields),
        discriminant: opt_view(v.discriminant),
        documentation: docs_of(v.attrs@),
    }
}

/// Builds a variant's field shape.
fn build_variant_fields(rf: &RawFields) -> (r: VariantFields)
    ensures
        r@ == variant_fields_v(*rf),
{
    match rf {
        RawFields::Named(fs) => {
            let out = build_named_fields(fs);
            let r = VariantFields::Named(out);
            proof {
                assert(r@ =~= variant_fields_v(*rf));
            }
            r
        },
        RawFields::Unnamed(fs) => {
            let mut tys: Vec<String> = Vec::new();
            let mut i: usize = 0;
            while i < fs.len()
                invariant
                    i <= fs@.len(),
                    tys@.len() == i,
                    forall|k: int| 0 <= k < i ==> tys@[k]@ == #[trigger] fs@[k].ty@,
                decreases fs@.len() - i,
            {
                tys.push(fs[i].ty.clone());
                i = i + 1;
            }
            let r = VariantFields::Unnamed(tys);
            proof {
                assert(views_of(tys@) =~= fs@.map_values(|f: RawField| f.ty@));
                assert(r@ =~= variant_fields_v(*rf));
            }
            r
        },
        RawFields::Unit => VariantFields::Unit,
    }
}

/// Builds the variant records of an enum.
fn build_variants(vs: &Vec<RawVariant>) -> (r: Vec<Variant>)
    ensures
        r@.map_values(|v: Variant| v@) == vs@.map_values(|v: RawVariant| variant_v(v)),
{
    let mut out: Vec<Variant> = Vec::new();
    let mut i: usize = 0;
    while i < vs.len()
        invariant
            i <= vs@.len(),
            out@.len() == i,
            forall|k: int| 0 <= k < i ==> out@[k]@ == variant_v(#[trigger] vs@[k]),
        decreases vs@.len() - i,
    {
        let v = &vs[i];
        let fields = build_variant_fields(&v.fields);
        let doc = extract_docs(&v.attrs);
        out.push(Variant {
            name: v.name.clone(),
            fields,
            discriminant: clone_opt_string(&v.discriminant),
            documentation: doc,
        });
        proof {
            assert(out@[i as int]@ =~= variant_v(vs@[i as int]));
        }
        i = i + 1;
    }
    proof {
        assert(out@.map_values(|v: Variant| v@) =~= vs@.map_values(|v: RawVariant| variant_v(v)));
    }
    out
}

/// The method records declared in a trait body, in order.
pub open spec fn trait_methods_v(items: Seq<RawTraitItem>) -> Seq<TraitMethodV>
    decreases items.len(),
{
    if items.len() == 0 {
        Seq::empty()
    } else {
        (match items[0] {
            RawTraitItem::Method(m) => seq![
                TraitMethodV {
                    name: m.name@,
                    signature: m.sig_text@,
                    has_default: m.has_default,
                    is_async: m.is_async,
                    documentation: docs_of(m.attrs@),
                },
            ],
            _ => Seq::empty(),
        }) + trait_methods_v(items.drop_first())
    }
}

/// The associated type records declared in a trait body, in order.
pub open spec fn trait_types_v(items: Seq<RawTraitItem>) -> Seq<AssociatedTypeV>
    decreases items.len(),
{
    if items.len() == 0 {
        Seq::empty()
    } else {
        (match items[0] {
            RawTraitItem::Type(t) => seq![
                AssociatedTypeV {
                    name: t.name@,
                    bounds: views_of(t.bounds@),
                    default: opt_view(t.default),
                },
            ],
            _ => Seq::empty(),
        }) + trait_types_v(items.drop_first())
    }
}

/// The associated const records declared in a trait body, in order.
pub open spec fn trait_consts_v(items: Seq<RawTraitItem>) -> Seq<AssociatedConstV>
    decreases items.len(),
{
    if items.len() == 0 {
        Seq::empty()
    } else {
        (match items[0] {
            RawTraitItem::Const(c) => seq![
                AssociatedConstV { name: c.name@, ty: c.ty@, default: opt_view(c.default) },
            ],
            _ => Seq::empty(),
        }) + trait_consts_v(items.drop_first())
    }
}

proof fn lemma_trait_items_take(items: Seq<RawTraitItem>, i: int)
    requires
        0 <= i < items.len(),
    ensures
        trait_methods_v(items.take(i + 1)) == trait_methods_v(items.take(i)) + (match items[i] {
            RawTraitItem::Method(m) => seq![
                TraitMethodV {
                    name: m.name@,
                    signature: m.sig_text@,
                    has_default: m.has_default,
                    is_async: m.is_async,
                    documentation: docs_of(m.attrs@),
                },
            ],
            _ => Seq::empty(),
        }),
        trait_types_v(items.take(i + 1)) == trait_types_v(items.take(i)) + (match items[i] {
            RawTraitItem::Type(t) => seq![
                AssociatedTypeV {
                    name: t.name@,
                    bounds: views_of(t.bounds@),
                    default: opt_view(t.default),
                },
            ],
            _ => Seq::empty(),
        }),
        trait_consts_v(items.take(i + 1)) == trait_consts_v(items.take(i)) + (match items[i] {
            RawTraitItem::Const(c) => seq![
                AssociatedConstV { name: c.name@, ty: c.ty@, default: opt_view(c.default) },
            ],
            _ => Seq::empty(),
        }),
    decreases i,
{
    let a = items.take(i + 1);
    let b = items.take(i);
    if i == 0 {
        assert(a.drop_first() =~= Seq::<RawTraitItem>::empty());
        assert(b =~= Seq::<RawTraitItem>::empty());
        assert(trait_methods_v(a) =~= trait_methods_v(b) + trait_methods_v(a));
        assert(trait_types_v(a) =~= trait_types_v(b) + trait_types_v(a));
        assert(trait_consts_v(a) =~= trait_consts_v(b) + trait_consts_v(a));
    } else {
        lemma_trait_items_take(items.drop_first(), i - 1);
        assert(a.drop_first() =~= items.drop_first().take(i as int));
        assert(b.drop_first() =~= items.drop_first().take(i - 1));
        assert(items.drop_first()[i - 1] == items[i]);
        assert(trait_methods_v(a) =~= trait_methods_v(b) + (match items[i] {
            RawTraitItem::Method(m) => seq![
                TraitMethodV {
                    name: m.name@,
                    signature: m.sig_text@,
                    has_default: m.has_default,
                    is_async: m.is_async,
                    documentation: docs_of(m.attrs@),
                },
            ],
            _ => Seq::empty(),
        }));
        assert(trait_types_v(a) =~= trait_types_v(b) + (match items[i] {
            RawTraitItem::Type(t) => seq![
                AssociatedTypeV {
                    name: t.name@,
                    bounds: views_of(t.bounds@),
                    default: opt_view(t.default),
                },
            ],
            _ => Seq::empty(),
        }));
        assert(trait_consts_v(a) =~= trait_consts_v(b) + (match items[i] {
            RawTraitItem::Const(c) => seq![
                AssociatedConstV { name: c.name@, ty: c.ty@, default: opt_view(c.default) },
            ],
            _ => Seq::empty(),
        }));
    }
}

/// The method records of an impl body, in order.
pub open spec fn impl_methods_v(items: Seq<RawImplItem>) -> Seq<FunctionInfoV>
    decreases items.len(),
{
    if items.len() == 0 {
        Seq::empty()
    } else {
        (match items[0] {
            RawImplItem::Method(f) => seq![fn_v(f)],
            _ => Seq::empty(),
        }) + impl_methods_v(items.drop_first())
    }
}

proof fn lemma_impl_methods_take(items: Seq<RawImplItem>, i: int)
    requires
        0 <= i < items.len(),
    ensures
        impl_methods_v(items.take(i + 1)) == impl_methods_v(items.take(i)) + (match items[i] {
            RawImplItem::Method(f) => seq![fn_v(f)],
            _ => Seq::empty(),
        }),
    decreases i,
{
    let a = items.take(i + 1);
    let b = items.take(i);
    if i == 0 {
        assert(a.drop_first() =~= Seq::<RawImplItem>::empty());
        assert(b =~= Seq::<RawImplItem>::empty());
        assert(impl_methods_v(a) =~= impl_methods_v(b) + impl_methods_v(a));
    } else {
        lemma_impl_methods_take(items.drop_first(), i - 1);
        assert(a.drop_first() =~= items.drop_first().take(i as int));
        assert(b.drop_first() =~= items.drop_first().take(i - 1));
        assert(items.drop_first()[i - 1] == items[i]);
        assert(impl_methods_v(a) =~= impl_methods_v(b) + (match items[i] {
            RawImplItem::Method(f) => seq![fn_v(f)],
            _ => Seq::empty(),
        }));
    }
}

/// A function or method record from its raw form; location and path are
/// stamped later.
pub open spec fn fn_v(f: RawFn) -> FunctionInfoV {
    FunctionInfoV {
        name: f.sig.name@,
        signature: f.sig.sig_text@,
        visibility: norm_vis(f.vis),
        is_async: f.sig.is_async,
        is_const: f.sig.is_const,
        is_unsafe: f.sig.is_unsafe,
        generics: views_of(f.sig.generics@),
        parameters: params_of(f.sig.params@),
        return_type: opt_view(f.sig.ret),
        documentation: docs_of(f.attrs@),
        attributes: other_attr_texts(f.attrs@),
        where_clause: opt_view(f.sig.where_clause),
        source_location: SourceLocationV { file: None, line: None, column: None },
        mod_path: Seq::empty(),
    }
}

/// Builds a function or method record.
fn build_function_record(f: &RawFn) -> (r: FunctionInfo)
    ensures
        r@ == fn_v(*f),
{
    let doc = extract_docs(&f.attrs);
    let attrs = extract_attributes(&f.attrs);
    let r = FunctionInfo {
        name: f.sig.name.clone(),
        signature: f.sig.sig_text.clone(),
        visibility: normalize_visibility(f.vis),
        is_async: f.sig.is_async,
        is_const: f.sig.is_const,
        is_unsafe: f.sig.is_unsafe,
        generics: clone_strings(&f.sig.generics),
        parameters: extract_parameters(&f.sig.params),
        return_type: clone_opt_string(&f.sig.ret),
        documentation: doc,
        attributes: attrs,
        where_clause: clone_opt_string(&f.sig.where_clause),
        source_location: SourceLocation::default(),
        mod_path: Vec::new(),
    };
    proof {
        assert(r@ =~= fn_v(*f));
    }
    r
}

/// A struct record from its raw form.
pub open spec fn struct_v(s: RawStruct) -> StructInfoV {
    StructInfoV {
        name: s.name@,
        visibility: norm_vis(s.vis),
        generics: views_of(s.generics@),
        fields: struct_fields_v(s.fields),
        kind: struct_kind_v(s.fields),
        documentation: docs_of(s.attrs@),
        derives: derive_names(s.attrs@),
        attributes: other_attr_texts(s.attrs@),
        where_clause: opt_view(s.where_clause),
        source_location: SourceLocationV { file: None, line: None, column: None },
        mod_path: Seq::empty(),
    }
}

/// An enum record from its raw form.
pub open spec fn enum_v(e: RawEnum) -> EnumInfoV {
    EnumInfoV {
        name: e.name@,
        visibility: norm_vis(e.vis),
        generics: views_of(e.generics@),
        variants: e.variants@.map_values(|v: RawVariant| variant_v(v)),
        documentation: docs_of(e.attrs@),
        derives: derive_names(e.attrs@),
        attributes: other_attr_texts(e.attrs@),
        where_clause: opt_view(e.where_clause),
        source_location: SourceLocationV { file: None, line: None, column: None },
        mod_path: Seq::empty(),
    }
}

/// A trait record from its raw form.
pub open spec fn trait_v(t: RawTrait) -> TraitInfoV {
    TraitInfoV {
        name: t.name@,
        visibility: norm_vis(t.vis),
        generics: views_of(t.generics@),
        supertraits: views_of(t.supertraits@),
        methods: trait_methods_v(t.items@),
        associated_types: trait_types_v(t.items@),
        associated_consts: trait_consts_v(t.items@),
        documentation: docs_of(t.attrs@),
        is_unsafe: t.is_unsafe,
        is_auto: t.is_auto,
        where_clause: opt_view(t.where_clause),
        source_location: SourceLocationV { file: None, line: None, column: None },
        mod_path: Seq::empty(),
    }
}

/// An impl record from its raw form.
pub open spec fn impl_v(i: RawImpl) -> ImplInfoV {
    ImplInfoV {
        self_ty: i.self_ty@,
        trait_name: opt_view(i.trait_name),
        generics: views_of(i.generics@),
        methods: impl_methods_v(i.items@),
        is_unsafe: i.is_unsafe,
        is_negative: i.is_negative,
        where_clause: opt_view(i.where_clause),
        source_location: SourceLocationV { file: None, line: None, column: None },
        mod_path: Seq::empty(),
    }
}

/// The one-line summary a module record keeps for a non-module child item.
pub open spec fn item_summary(it: RawItem) -> Seq<Seq<char>> {
    match it {
        RawItem::Fn(f) => seq!["fn "@ + f.sig.name@],
        RawItem::Struct(s) => seq!["struct "@ + s.name@],
        RawItem::Enum(e) => seq!["enum "@ + e.name@],
        RawItem::Trait(t) => seq!["trait "@ + t.name@],
        RawItem::Impl(i) => match i.trait_name {
            Some(t) => seq!["impl "@ + t@ + " for "@ + i.self_ty@],
            None => seq!["impl "@ + i.self_ty@],
        },
        RawItem::TypeAlias(t) => seq!["type "@ + t.name@],
        RawItem::Const(c) => seq!["const "@ + c.name@],
        RawItem::Static(s) => seq!["static "@ + s.name@],
        _ => Seq::empty(),
    }
}

/// The child item summaries of an inline module body, in order.
pub open spec fn mod_item_summaries(content: Seq<RawItem>) -> Seq<Seq<char>>
    decreases content.len(),
{
    if content.len() == 0 {
        Seq::empty()
    } else {
        item_summary(content[0]) + mod_item_summaries(content.drop_first())
    }
}

/// The names of the submodules declared in an inline module body.
pub open spec fn submodule_names(content: Seq<RawItem>) -> Seq<Seq<char>>
    decreases content.len(),
{
    if content.len() == 0 {
        Seq::empty()
    } else {
        (match content[0] {
            RawItem::Mod(m) => seq![m.name@],
            _ => Seq::empty(),
        }) + submodule_names(content.drop_first())
    }
}

proof fn lemma_mod_summary_take(content: Seq<RawItem>, i: int)
    requires
        0 <= i < content.len(),
    ensures
        mod_item_summaries(content.take(i + 1)) == mod_item_summaries(content.take(i))
            + item_summary(content[i]),
        submodule_names(content.take(i + 1)) == submodule_names(content.take(i)) + (
        match content[i] {
            RawItem::Mod(m) => seq![m.name@],
            _ => Seq::empty(),
        }),
    decreases i,
{
    let a = content.take(i + 1);
    let b = content.take(i);
    if i == 0 {
        assert(a.drop_first() =~= Seq::<RawItem>::empty());
        assert(b =~= Seq::<RawItem>::empty());
        assert(mod_item_summaries(a) =~= mod_item_summaries(b) + item_summary(content[0]));
        assert(submodule_names(a) =~= submodule_names(b) + (match content[0] {
            RawItem::Mod(m) => seq![m.name@],
            _ => Seq::empty(),
        }));
    } else {
        lemma_mod_summary_take(content.drop_first(), i - 1);
        assert(a.drop_first() =~= content.drop_first().take(i as int));
        assert(b.drop_first() =~= content.drop_first().take(i - 1));
        assert(content.drop_first()[i - 1] == content[i]);
        assert(mod_item_summaries(a) =~= mod_item_summaries(b) + item_summary(content[i]));
        assert(submodule_names(a) =~= submodule_names(b) + (match content[i] {
            RawItem::Mod(m) => seq![m.name@],
            _ => Seq::empty(),
        }));
    }
}

/// Builds the item summary and submodule name lists of a module body.
fn summarize_module_content(content: &Vec<RawItem>) -> (r: (Vec<String>, Vec<String>))
    ensures
        views_of(r.0@) == mod_item_summaries(content@),
        views_of(r.1@) == submodule_names(content@),
{
    let mut items: Vec<String> = Vec::new();
    let mut subs: Vec<String> = Vec::new();
    let mut i: usize = 0;
    proof {
        assert(content@.take(0) =~= Seq::<RawItem>::empty());
        assert(views_of(items@) =~= mod_item_summaries(content@.take(0)));
        assert(views_of(subs@) =~= submodule_names(content@.take(0)));
    }
    while i < content.len()
        invariant
            i <= content@.len(),
            views_of(items@) == mod_item_summaries(content@.take(i as int)),
            views_of(subs@) == submodule_names(content@.take(i as int)),
        decreases content@.len() - i,
    {
        proof {
            lemma_mod_summary_take(content@, i as int);
        }
        match &content[i] {
            RawItem::Mod(m) => {
                subs.push(m.name.clone());
            },
            RawItem::Fn(f) => {
                let mut s = String::new();
                s.append("fn ");
                s.append(f.sig.name.as_str());
                proof {
                    assert(s@ =~= "fn "@ + f.sig.name@);
                }
                items.push(s);
            },
            RawItem::Struct(st) => {
                let mut s = String::new();
                s.append("struct ");
                s.append(st.name.as_str());
                proof {
                    assert(s@ =~= "struct "@ + st.name@);
                }
                items.push(s);
            },
            RawItem::Enum(e) => {
                let mut s = String::new();
                s.append("enum ");
                s.append(e.name.as_str());
                proof {
                    assert(s@ =~= "enum "@ + e.name@);
                }
                items.push(s);
            },
            RawItem::Trait(t) => {
                let mut s = String::new();
                s.append("trait ");
                s.append(t.name.as_str());
                proof {
                    assert(s@ =~= "trait "@ + t.name@);
                }
                items.push(s);
            },
            RawItem::Impl(im) => {
                let mut s = String::new();
                match &im.trait_name {
                    Some(t) => {
                        s.append("impl ");
                        s.append(t.as_str());
                        s.append(" for ");
                        s.append(im.self_ty.as_str());
                        proof {
                            assert(s@ =~= "impl "@ + t@ + " for "@ + im.self_ty@);
                        }
                    },
                    None => {
                        s.append("impl ");
                        s.append(im.self_ty.as_str());
                        proof {
                            assert(s@ =~= "impl "@ + im.self_ty@);
                        }
                    },
                }
                items.push(s);
            },
            RawItem::TypeAlias(t) => {
                let mut s = String::new();
                s.append("type ");
                s.append(t.name.as_str());
                proof {
                    assert(s@ =~= "type "@ + t.name@);
                }
                items.push(s);
            },
            RawItem::Const(c) => {
                let mut s = String::new();
                s.append("const ");
                s.append(c.name.as_str());
                proof {
                    assert(s@ =~= "const "@ + c.name@);
                }
                items.push(s);
            },
            RawItem::Static(st) => {
                let mut s = String::new();
                s.append("static ");
                s.append(st.name.as_str());
                proof {
                    assert(s@ =~= "static "@ + st.name@);
                }
                items.push(s);
            },
            RawItem::Skipped => {},
        }
        proof {
            assert(views_of(items@) =~= mod_item_summaries(content@.take(i + 1)));
            assert(views_of(subs@) =~= submodule_names(content@.take(i + 1)));
        }
        i = i + 1;
    }
    proof {
        assert(content@.take(content@.len() as int) =~= content@);
    }
    (items, subs)
}

/// A module record from its raw form: child summaries come from an inline
/// body; a body kept in another file leaves them empty.
pub open spec fn module_v(m: RawMod) -> ModuleInfoV {
    ModuleInfoV {
        name: m.name@,
        path: Seq::empty(),
        visibility: norm_vis(m.vis),
        items: mod_item_summaries(m.content@),
        submodules: submodule_names(m.content@),
        documentation: docs_of(m.attrs@),
        is_inline: m.has_body,
        source_location: SourceLocationV { file: None, line: None, column: None },
        mod_path: Seq::empty(),
    }
}

/// A type alias record from its raw form.
pub open spec fn type_alias_v(t: RawTypeAlias) -> TypeAliasInfoV {
    TypeAliasInfoV {
        name: t.name@,
        visibility: norm_vis(t.vis),
        generics: views_of(t.generics@),
        ty: t.ty@,
        documentation: docs_of(t.attrs@),
        where_clause: opt_view(t.where_clause),
        source_location: SourceLocationV { file: None, line: None, column: None },
        mod_path: Seq::empty(),
    }
}

/// A const record from its raw form.
pub open spec fn const_v(c: RawConst) -> ConstInfoV {
    ConstInfoV {
        name: c.name@,
        visibility: norm_vis(c.vis),
        ty: c.ty@,
        value: Some(c.value@),
        documentation: docs_of(c.attrs@),
        source_location: SourceLocationV { file: None, line: None, column: None },
        mod_path: Seq::empty(),
    }
}

/// A static record from its raw form.
pub open spec fn static_v(s: RawStatic) -> StaticInfoV {
    StaticInfoV {
        name: s.name@,
        visibility: norm_vis(s.vis),
        ty: s.ty@,
        is_mut: s.is_mut,
        documentation: docs_of(s.attrs@),
        source_location: SourceLocationV { file: None, line: None, column: None },
        mod_path: Seq::empty(),
    }
}

/// Classifies one raw item: the record for a tracked declaration kind,
/// nothing for a kind the catalog does not track.
pub open spec fn classify_spec(it: RawItem) -> Option<AnalyzedItemV> {
    match it {
        RawItem::Fn(f) => Some(AnalyzedItemV::Function(fn_v(f))),
        RawItem::Struct(s) => Some(AnalyzedItemV::Struct(struct_v(s))),
        RawItem::Enum(e) => Some(AnalyzedItemV::Enum(enum_v(e))),
        RawItem::Trait(t) => Some(AnalyzedItemV::Trait(trait_v(t))),
        RawItem::Impl(i) => Some(AnalyzedItemV::Impl(impl_v(i))),
        RawItem::Mod(m) => Some(AnalyzedItemV::Module(module_v(m))),
        RawItem::TypeAlias(t) => Some(AnalyzedItemV::TypeAlias(type_alias_v(t))),
        RawItem::Const(c) => Some(AnalyzedItemV::Const(const_v(c))),
        RawItem::Static(s) => Some(AnalyzedItemV::Static(static_v(s))),
        RawItem::Skipped => None,
    }
}

/// The 1-based line of an item's name token.
pub open spec fn line_of(it: RawItem) -> usize {
    match it {
        RawItem::Fn(f) => f.line,
        RawItem::Struct(s) => s.line,
        RawItem::Enum(e) => e.line,
        RawItem::Trait(t) => t.line,
        RawItem::Impl(i) => i.line,
        RawItem::Mod(m) => m.line,
        RawItem::TypeAlias(t) => t.line,
        RawItem::Const(c) => c.line,
        RawItem::Static(s) => s.line,
        RawItem::Skipped => 0,
    }
}

/// Reads the 1-based line of an item's name token.
fn line_of_item(it: &RawItem) -> (r: usize)
    ensures
        r == line_of(*it),
{
    match it {
        RawItem::Fn(f) => f.line,
        RawItem::Struct(s) => s.line,
        RawItem::Enum(e) => e.line,
        RawItem::Trait(t) => t.line,
        RawItem::Impl(i) => i.line,
        RawItem::Mod(m) => m.line,
        RawItem::TypeAlias(t) => t.line,
        RawItem::Const(c) => c.line,
        RawItem::Static(s) => s.line,
        RawItem::Skipped => 0,
    }
}

/// The record with its module path replaced.
pub open spec fn with_path(v: AnalyzedItemV, path: Seq<Seq<char>>) -> AnalyzedItemV {
    match v {
        AnalyzedItemV::Function(f) => AnalyzedItemV::Function(FunctionInfoV { mod_path: path, ..f }),
        AnalyzedItemV::Struct(s) => AnalyzedItemV::Struct(StructInfoV { mod_path: path, ..s }),
        AnalyzedItemV::Enum(e) => AnalyzedItemV::Enum(EnumInfoV { mod_path: path, ..e }),
        AnalyzedItemV::Trait(t) => AnalyzedItemV::Trait(TraitInfoV { mod_path: path, ..t }),
        AnalyzedItemV::Impl(i) => AnalyzedItemV::Impl(ImplInfoV { mod_path: path, ..i }),
        AnalyzedItemV::Module(m) => AnalyzedItemV::Module(ModuleInfoV { mod_path: path, ..m }),
        AnalyzedItemV::TypeAlias(t) => AnalyzedItemV::TypeAlias(
            TypeAliasInfoV { mod_path: path, ..t },
        ),
        AnalyzedItemV::Const(c) => AnalyzedItemV::Const(ConstInfoV { mod_path: path, ..c }),
        AnalyzedItemV::Static(s) => AnalyzedItemV::Static(StaticInfoV { mod_path: path, ..s }),
    }
}

/// The record with its source location set to a file and line.
pub open spec fn with_loc(v: AnalyzedItemV, file: Seq<char>, line: usize) -> AnalyzedItemV {
    let loc = SourceLocationV { file: Some(file), line: Some(line), column: None };
    match v {
        AnalyzedItemV::Function(f) => AnalyzedItemV::Function(
            FunctionInfoV { source_location: loc, ..f },
        ),
        AnalyzedItemV::Struct(s) => AnalyzedItemV::Struct(StructInfoV { source_location: loc, ..s }),
        AnalyzedItemV::Enum(e) => AnalyzedItemV::Enum(EnumInfoV { source_location: loc, ..e }),
        AnalyzedItemV::Trait(t) => AnalyzedItemV::Trait(TraitInfoV { source_location: loc, ..t }),
        AnalyzedItemV::Impl(i) => AnalyzedItemV::Impl(ImplInfoV { source_location: loc, ..i }),
        AnalyzedItemV::Module(m) => AnalyzedItemV::Module(ModuleInfoV { source_location: loc, ..m }),
        AnalyzedItemV::TypeAlias(t) => AnalyzedItemV::TypeAlias(
            TypeAliasInfoV { source_location: loc, ..t },
        ),
        AnalyzedItemV::Const(c) => AnalyzedItemV::Const(ConstInfoV { source_location: loc, ..c }),
        AnalyzedItemV::Static(s) => AnalyzedItemV::Static(StaticInfoV { source_location: loc, ..s }),
    }
}

/// The normalized visibility of a record; impls have none.
pub open spec fn vis_of_v(v: AnalyzedItemV) -> Option<Visibility> {
    match v {
        AnalyzedItemV::Function(f) => Some(f.visibility),
        AnalyzedItemV::Struct(s) => Some(s.visibility),
        AnalyzedItemV::Enum(e) => Some(e.visibility),
        AnalyzedItemV::Trait(t) => Some(t.visibility),
        AnalyzedItemV::Impl(_) => None,
        AnalyzedItemV::Module(m) => Some(m.visibility),
        AnalyzedItemV::TypeAlias(t) => Some(t.visibility),
        AnalyzedItemV::Const(c) => Some(c.visibility),
        AnalyzedItemV::Static(s) => Some(s.visibility),
    }
}

/// Whether a record is public.
pub open spec fn is_public_v(v: AnalyzedItemV) -> bool {
    vis_of_v(v) == Some(Visibility::Public)
}

/// The records one item contributes: for an inline module, its recursively
/// expanded children first, then the item's own record (stamped with path
/// and location, and kept subject to the visibility filter).
pub open spec fn expand_item_spec(
    it: RawItem,
    path: Seq<Seq<char>>,
    file: Option<Seq<char>>,
    include_private: bool,
) -> Seq<AnalyzedItemV>
    decreases it,
{
    let sub = match it {
        RawItem::Mod(m) => expand_items_spec(m.content@, path.push(m.name@), file, include_private),
        _ => Seq::empty(),
    };
    let own = match classify_spec(it) {
        Some(v) => {
            let v1 = with_path(v, path);
            let v2 = match file {
                Some(fp) => with_loc(v1, fp, line_of(it)),
                None => v1,
            };
            if include_private || is_public_v(v2) {
                seq![v2]
            } else {
                Seq::empty()
            }
        },
        None => Seq::empty(),
    };
    sub + own
}

/// The records of a whole item list, in order.
pub open spec fn expand_items_spec(
    items: Seq<RawItem>,
    path: Seq<Seq<char>>,
    file: Option<Seq<char>>,
    include_private: bool,
) -> Seq<AnalyzedItemV>
    decreases items,
{
    if items.len() == 0 {
        Seq::empty()
    } else {
        expand_item_spec(items[0], path, file, include_private) + expand_items_spec(
            items.drop_first(),
            path,
            file,
            include_private,
        )
    }
}

/// Expanding one more item appends that item's records.
pub proof fn lemma_expand_items_take(
    items: Seq<RawItem>,
    path: Seq<Seq<char>>,
    file: Option<Seq<char>>,
    include_private: bool,
    i: int,
)
    requires
        0 <= i < items.len(),
    ensures
        expand_items_spec(items.take(i + 1), path, file, include_private) == expand_items_spec(
            items.take(i),
            path,
            file,
            include_private,
        ) + expand_item_spec(items[i], path, file, include_private),
    decreases i,
{
    let a = items.take(i + 1);
    let b = items.take(i);
    if i == 0 {
        assert(a.drop_first() =~= Seq::<RawItem>::empty());
        assert(b =~= Seq::<RawItem>::empty());
        assert(expand_items_spec(a, path, file, include_private) =~= expand_items_spec(
            b,
            path,
            file,
            include_private,
        ) + expand_item_spec(items[0], path, file, include_private));
    } else {
        lemma_expand_items_take(items.drop_first(), path, file, include_private, i - 1);
        assert(a.drop_first() =~= items.drop_first().take(i as int));
        assert(b.drop_first() =~= items.drop_first().take(i - 1));
        assert(items.drop_first()[i - 1] == items[i]);
        assert(expand_items_spec(a, path, file, include_private) =~= expand_items_spec(
            b,
            path,
            file,
            include_private,
        ) + expand_item_spec(items[i], path, file, include_private));
    }
}

/// Analysis is a function of the source tree, the module path, the file
/// path and the configuration: two runs over the same inputs yield the
/// same record list, order included.
pub proof fn lemma_analysis_deterministic(
    v1: Seq<AnalyzedItemV>,
    v2: Seq<AnalyzedItemV>,
    items: Seq<RawItem>,
    path: Seq<Seq<char>>,
    file: Option<Seq<char>>,
    include_private: bool,
)
    requires
        v1 == expand_items_spec(items, path, file, include_private),
        v2 == expand_items_spec(items, path, file, include_private),
    ensures
        v1 == v2,
{
}

/// Path composition: a function declared inside an inline module is
/// recorded under the enclosing path extended by the module's name.
pub proof fn lemma_path_composition(
    md: RawMod,
    f: RawFn,
    path: Seq<Seq<char>>,
    file: Option<Seq<char>>,
    include_private: bool,
)
    requires
        md.content@ == seq![RawItem::Fn(f)],
        include_private || norm_vis(f.vis) == Visibility::Public,
    ensures
        ({
            let recs = expand_item_spec(RawItem::Mod(md), path, file, include_private);
            &&& recs.len() >= 1
            &&& recs[0] matches AnalyzedItemV::Function(fv) && fv.mod_path == path.push(md.name@)
                && fv.name == f.sig.name@
        }),
{
    let child = path.push(md.name@);
    let inner = expand_items_spec(md.content@, child, file, include_private);
    assert(md.content@.drop_first() =~= Seq::<RawItem>::empty());
    assert(expand_items_spec(Seq::<RawItem>::empty(), child, file, include_private)
        == Seq::<AnalyzedItemV>::empty());
    assert(inner =~= expand_item_spec(RawItem::Fn(f), child, file, include_private));
    let own = expand_item_spec(RawItem::Fn(f), child, file, include_private);
    assert(own.len() == 1);
    assert(own[0] matches AnalyzedItemV::Function(fv) && fv.mod_path == child && fv.name
        == f.sig.name@);
    let recs = expand_item_spec(RawItem::Mod(md), path, file, include_private);
    assert(recs[0] == inner[0]);
}

/// An inline module is itself emitted: after its expanded children, the
/// module's own record appears, one path level shallower than they are.
pub proof fn lemma_inline_module_emitted(
    md: RawMod,
    path: Seq<Seq<char>>,
    file: Option<Seq<char>>,
    include_private: bool,
)
    requires
        include_private || norm_vis(md.vis) == Visibility::Public,
    ensures
        ({
            let recs = expand_item_spec(RawItem::Mod(md), path, file, include_private);
            &&& recs.len() >= 1
            &&& recs.last() matches AnalyzedItemV::Module(mv) && mv.mod_path == path && mv.name
                == md.name@
        }),
{
    let recs = expand_item_spec(RawItem::Mod(md), path, file, include_private);
    let sub = expand_items_spec(md.content@, path.push(md.name@), file, include_private);
    assert(recs.last() == (recs + Seq::<AnalyzedItemV>::empty())[sub.len() as int]);
}

/// The records that pass the visibility filter, in order.
pub open spec fn keep_public(s: Seq<AnalyzedItemV>) -> Seq<AnalyzedItemV>
    decreases s.len(),
{
    if s.len() == 0 {
        Seq::empty()
    } else {
        (if is_public_v(s[0]) {
            seq![s[0]]
        } else {
            Seq::empty()
        }) + keep_public(s.drop_first())
    }
}

proof fn lemma_keep_public_append(a: Seq<AnalyzedItemV>, b: Seq<AnalyzedItemV>)
    ensures
        keep_public(a + b) == keep_public(a) + keep_public(b),
    decreases a.len(),
{
    if a.len() == 0 {
        assert(a + b =~= b);
        assert(keep_public(a) + keep_public(b) =~= keep_public(b));
    } else {
        lemma_keep_public_append(a.drop_first(), b);
        assert((a + b).drop_first() =~= a.drop_first() + b);
        assert((a + b)[0] == a[0]);
        assert(keep_public(a + b) =~= keep_public(a) + keep_public(b));
    }
}

proof fn lemma_keep_public_subset(s: Seq<AnalyzedItemV>)
    ensures
        forall|k: int| 0 <= k < keep_public(s).len() ==> s.contains(#[trigger] keep_public(s)[k]),
        keep_public(s).len() == 0 <==> (forall|k: int|
            0 <= k < s.len() ==> !is_public_v(#[trigger] s[k])),
    decreases s.len(),
{
    if s.len() > 0 {
        lemma_keep_public_subset(s.drop_first());
        assert forall|k: int| 0 <= k < keep_public(s).len() implies s.contains(
            #[trigger] keep_public(s)[k],
        ) by {
            let head: Seq<AnalyzedItemV> = if is_public_v(s[0]) {
                seq![s[0]]
            } else {
                Seq::empty()
            };
            if k < head.len() {
                assert(keep_public(s)[k] == s[0]);
            } else {
                let e = keep_public(s.drop_first())[k - head.len()];
                assert(keep_public(s)[k] == e);
                assert(s.drop_first().contains(e));
                let w = choose|w: int| 0 <= w < s.drop_first().len() && s.drop_first()[w] == e;
                assert(s[w + 1] == e);
            }
        }
        if keep_public(s).len() == 0 {
            assert(!is_public_v(s[0]));
            assert forall|k: int| 0 <= k < s.len() implies !is_public_v(#[trigger] s[k]) by {
                if k > 0 {
                    assert(s.drop_first()[k - 1] == s[k]);
                }
            }
        }
        if forall|k: int| 0 <= k < s.len() ==> !is_public_v(#[trigger] s[k]) {
            assert(!is_public_v(s[0]));
            assert forall|k: int|
                0 <= k < s.drop_first().len() implies !is_public_v(
                #[trigger] s.drop_first()[k],
            ) by {
                assert(s.drop_first()[k] == s[k + 1]);
            }
            assert(keep_public(s).len() == 0);
        }
    }
}

proof fn lemma_expand_filter_item(
    it: RawItem,
    path: Seq<Seq<char>>,
    file: Option<Seq<char>>,
)
    ensures
        expand_item_spec(it, path, file, false) == keep_public(
            expand_item_spec(it, path, file, true),
        ),
    decreases it,
{
    let sub_t = match it {
        RawItem::Mod(m) => expand_items_spec(m.content@, path.push(m.name@), file, true),
        _ => Seq::<AnalyzedItemV>::empty(),
    };
    let sub_f = match it {
        RawItem::Mod(m) => expand_items_spec(m.content@, path.push(m.name@), file, false),
        _ => Seq::<AnalyzedItemV>::empty(),
    };
    match it {
        RawItem::Mod(m) => {
            lemma_expand_filter_items(m.content@, path.push(m.name@), file);
        },
        _ => {
            assert(keep_public(sub_t) =~= sub_f);
        },
    }
    let own_t = match classify_spec(it) {
        Some(v) => {
            let v1 = with_path(v, path);
            let v2 = match file {
                Some(fp) => with_loc(v1, fp, line_of(it)),
                None => v1,
            };
            seq![v2]
        },
        None => Seq::<AnalyzedItemV>::empty(),
    };
    let own_f = match classify_spec(it) {
        Some(v) => {
            let v1 = with_path(v, path);
            let v2 = match file {
                Some(fp) => with_loc(v1, fp, line_of(it)),
                None => v1,
            };
            if is_public_v(v2) {
                seq![v2]
            } else {
                Seq::<AnalyzedItemV>::empty()
            }
        },
        None => Seq::<AnalyzedItemV>::empty(),
    };
    assert(keep_public(Seq::<AnalyzedItemV>::empty()) == Seq::<AnalyzedItemV>::empty());
    match classify_spec(it) {
        Some(v) => {
            assert(own_t.len() == 1);
            assert(own_t.drop_first() =~= Seq::<AnalyzedItemV>::empty());
            assert(keep_public(own_t) =~= own_f);
        },
        None => {
            assert(keep_public(own_t) =~= own_f);
        },
    }
    lemma_keep_public_append(sub_t, own_t);
    assert(expand_item_spec(it, path, file, true) == sub_t + own_t);
    assert(expand_item_spec(it, path, file, false) == sub_f + own_f);
}

proof fn lemma_expand_filter_items(
    items: Seq<RawItem>,
    path: Seq<Seq<char>>,
    file: Option<Seq<char>>,
)
    ensures
        expand_items_spec(items, path, file, false) == keep_public(
            expand_items_spec(items, path, file, true),
        ),
    decreases items,
{
    if items.len() == 0 {
    } else {
        lemma_expand_filter_item(items[0], path, file);
        lemma_expand_filter_items(items.drop_first(), path, file);
        lemma_keep_public_append(
            expand_item_spec(items[0], path, file, true),
            expand_items_spec(items.drop_first(), path, file, true),
        );
    }
}

/// Visibility filter monotonicity: the public-only output is the
/// retain-all output with the non-public records dropped; hence it is a
/// subset of the retain-all output, and it is empty exactly when no
/// expanded record is public.
pub proof fn lemma_visibility_filter_monotone(
    items: Seq<RawItem>,
    path: Seq<Seq<char>>,
    file: Option<Seq<char>>,
)
    ensures
        expand_items_spec(items, path, file, false) == keep_public(
            expand_items_spec(items, path, file, true),
        ),
        forall|k: int|
            0 <= k < expand_items_spec(items, path, file, false).len() ==> expand_items_spec(
                items,
                path,
                file,
                true,
            ).contains(#[trigger] expand_items_spec(items, path, file, false)[k]),
        expand_items_spec(items, path, file, false).len() == 0 <==> (forall|k: int|
            0 <= k < expand_items_spec(items, path, file, true).len() ==> !is_public_v(
                #[trigger] expand_items_spec(items, path, file, true)[k],
            )),
{
    lemma_expand_filter_items(items, path, file);
    lemma_keep_public_subset(expand_items_spec(items, path, file, true));
}

/// A path segment that the module path keeps: nonempty and not the
/// current-directory marker.
pub open spec fn is_kept_segment(s: Seq<char>) -> bool {
    s.len() > 0 && s != "."@
}

/// The kept segments of a raw split, in order.
pub open spec fn clean_segments(segs: Seq<Seq<char>>) -> Seq<Seq<char>>
    decreases segs.len(),
{
    if segs.len() == 0 {
        Seq::empty()
    } else {
        (if is_kept_segment(segs[0]) {
            seq![segs[0]]
        } else {
            Seq::empty()
        }) + clean_segments(segs.drop_first())
    }
}

proof fn lemma_clean_segments_take(segs: Seq<Seq<char>>, i: int)
    requires
        0 <= i < segs.len(),
    ensures
        clean_segments(segs.take(i + 1)) == clean_segments(segs.take(i)) + (if is_kept_segment(
            segs[i],
        ) {
            seq![segs[i]]
        } else {
            Seq::empty()
        }),
    decreases i,
{
    let a = segs.take(i + 1);
    let b = segs.take(i);
    if i == 0 {
        assert(a.drop_first() =~= Seq::<Seq<char>>::empty());
        assert(b =~= Seq::<Seq<char>>::empty());
        assert(clean_segments(a) =~= clean_segments(b) + (if is_kept_segment(segs[0]) {
            seq![segs[0]]
        } else {
            Seq::empty()
        }));
    } else {
        lemma_clean_segments_take(segs.drop_first(), i - 1);
        assert(a.drop_first() =~= segs.drop_first().take(i as int));
        assert(b.drop_first() =~= segs.drop_first().take(i - 1));
        assert(segs.drop_first()[i - 1] == segs[i]);
        assert(clean_segments(a) =~= clean_segments(b) + (if is_kept_segment(segs[i]) {
            seq![segs[i]]
        } else {
            Seq::empty()
        }));
    }
}

/// The position of the first `src` segment, if any.
pub open spec fn src_index(segs: Seq<Seq<char>>) -> Option<int>
    decreases segs.len(),
{
    if segs.len() == 0 {
        None
    } else if segs[0] == "src"@ {
        Some(0int)
    } else {
        match src_index(segs.drop_first()) {
            Some(i) => Some(i + 1),
            None => None,
        }
    }
}

proof fn lemma_src_index_none(segs: Seq<Seq<char>>)
    requires
        forall|k: int| 0 <= k < segs.len() ==> #[trigger] segs[k] != "src"@,
    ensures
        src_index(segs) is None,
    decreases segs.len(),
{
    if segs.len() > 0 {
        lemma_src_index_none(segs.drop_first());
    }
}

proof fn lemma_src_index_found(segs: Seq<Seq<char>>, j: int)
    requires
        0 <= j < segs.len(),
        segs[j] == "src"@,
        forall|k: int| 0 <= k < j ==> #[trigger] segs[k] != "src"@,
    ensures
        src_index(segs) == Some(j),
    decreases j,
{
    if j > 0 {
        lemma_src_index_found(segs.drop_first(), j - 1);
    }
}

/// A special module file segment that path derivation drops.
pub open spec fn is_special_segment(s: Seq<char>) -> bool {
    s == "lib"@ || s == "main"@ || s == "mod"@
}

/// The segments that remain after the special module file names are
/// dropped.
pub open spec fn drop_special(segs: Seq<Seq<char>>) -> Seq<Seq<char>>
    decreases segs.len(),
{
    if segs.len() == 0 {
        Seq::empty()
    } else {
        (if is_special_segment(segs[0]) {
            Seq::empty()
        } else {
            seq![segs[0]]
        }) + drop_special(segs.drop_first())
    }
}

proof fn lemma_drop_special_take(segs: Seq<Seq<char>>, i: int)
    requires
        0 <= i < segs.len(),
    ensures
        drop_special(segs.take(i + 1)) == drop_special(segs.take(i)) + (if is_special_segment(
            segs[i],
        ) {
            Seq::empty()
        } else {
            seq![segs[i]]
        }),
    decreases i,
{
    let a = segs.take(i + 1);
    let b = segs.take(i);
    if i == 0 {
        assert(a.drop_first() =~= Seq::<Seq<char>>::empty());
        assert(b =~= Seq::<Seq<char>>::empty());
        assert(drop_special(a) =~= drop_special(b) + (if is_special_segment(segs[0]) {
            Seq::empty()
        } else {
            seq![segs[0]]
        }));
    } else {
        lemma_drop_special_take(segs.drop_first(), i - 1);
        assert(a.drop_first() =~= segs.drop_first().take(i as int));
        assert(b.drop_first() =~= segs.drop_first().take(i - 1));
        assert(segs.drop_first()[i - 1] == segs[i]);
        assert(drop_special(a) =~= drop_special(b) + (if is_special_segment(segs[i]) {
            Seq::empty()
        } else {
            seq![segs[i]]
        }));
    }
}

/// `.rs` stripped from a segment, repeatedly.
pub open spec fn strip_rs(s: Seq<char>) -> Seq<char> {
    strip_all_suffix(s, ".rs"@)
}

/// The segments after the first `src` segment; all of them when there is
/// none.
pub open spec fn after_src(segs: Seq<Seq<char>>) -> Seq<Seq<char>> {
    match src_index(segs) {
        Some(i) => segs.skip(i + 1),
        None => segs,
    }
}

/// The module path derived from a file path: its slash-separated
/// segments, cleaned, with the source-file extension stripped from the
/// last one, cut down to what follows the conventional `src` root, and
/// with the module-root file names dropped.
pub open spec fn derive_mod_path_spec(p: Seq<char>) -> Seq<Seq<char>> {
    let segs = clean_segments(split_spec(p, '/'));
    let stripped = if segs.len() > 0 {
        segs.update(segs.len() - 1, strip_rs(segs.last()))
    } else {
        segs
    };
    drop_special(after_src(stripped))
}

/// Finds the first `src` segment.
fn find_src(segs: &Vec<String>) -> (r: Option<usize>)
    ensures
        match r {
            Some(j) => j < segs@.len() && src_index(views_of(segs@)) == Some(j as int),
            None => src_index(views_of(segs@)) is None,
        },
{
    let mut j: usize = 0;
    while j < segs.len()
        invariant
            j <= segs@.len(),
            forall|k: int| 0 <= k < j ==> #[trigger] views_of(segs@)[k] != "src"@,
        decreases segs@.len() - j,
    {
        if str_eq(segs[j].as_str(), "src") {
            proof {
                lemma_src_index_found(views_of(segs@), j as int);
            }
            return Some(j);
        }
        j = j + 1;
    }
    proof {
        lemma_src_index_none(views_of(segs@));
    }
    None
}

/// Analyzer for parsed source units: walks the syntax tree and produces
/// the classified record list, with a flag that keeps or drops non-public
/// declarations.
#[derive(Debug, Clone, Copy, PartialEq, Eq, Structural)]
pub struct RustAnalyzer {
    pub include_private: bool,
}

impl Default for RustAnalyzer {
    /// The default analyzer retains non-public declarations.
    fn default() -> (r: Self)
        ensures
            r.include_private == true,
    {
        RustAnalyzer { include_private: true }
    }
}

impl RustAnalyzer {
    /// An analyzer that retains non-public declarations.
    pub fn new() -> (r: RustAnalyzer)
        ensures
            r.include_private == true,
    {
        RustAnalyzer { include_private: true }
    }

    /// The analyzer with the retain-non-public flag set as given.
    pub fn with_private(self, keep: bool) -> (r: RustAnalyzer)
        ensures
            r.include_private == keep,
    {
        RustAnalyzer { include_private: keep }
    }

    /// Derives the module path from a file path, such as
    /// `src/analyzer/parser.rs` into `analyzer`, `parser`.
    pub fn derive_module_path(path: &str) -> (r: Vec<String>)
        ensures
            views_of(r@) == derive_mod_path_spec(path@),
    {
        let chars = str_to_chars(path);
        let raw_segs = split_chars(&chars, '/');
        let mut segs: Vec<String> = Vec::new();
        let mut i: usize = 0;
        proof {
            assert(views_of(raw_segs@).take(0) =~= Seq::<Seq<char>>::empty());
            assert(views_of(segs@) =~= clean_segments(views_of(raw_segs@).take(0)));
        }
        while i < raw_segs.len()
            invariant
                i <= raw_segs@.len(),
                views_of(segs@) == clean_segments(views_of(raw_segs@).take(i as int)),
            decreases raw_segs@.len() - i,
        {
            proof {
                lemma_clean_segments_take(views_of(raw_segs@), i as int);
            }
            let keep = !raw_segs[i].as_str().is_empty() && !str_eq(raw_segs[i].as_str(), ".");
            if keep {
                segs.push(raw_segs[i].clone());
            }
            proof {
                assert(views_of(segs@) =~= clean_segments(views_of(raw_segs@).take(i + 1)));
            }
            i = i + 1;
        }
        proof {
            assert(views_of(raw_segs@).take(raw_segs@.len() as int) =~= views_of(raw_segs@));
        }
        let ghost cleaned = views_of(segs@);
        if segs.len() > 0 {
            let n = segs.len() - 1;
            let lc = str_to_chars(segs[n].as_str());
            let rs = str_to_chars(".rs");
            proof {
                reveal_strlit(".rs");
            }
            let sc = strip_suffix_chars(lc, &rs);
            let snew = chars_to_string(&sc);
            segs.set(n, snew);
            proof {
                assert(views_of(segs@) =~= cleaned.update(
                    cleaned.len() - 1,
                    strip_rs(cleaned.last()),
                ));
            }
        }
        let ghost stripped = views_of(segs@);
        let rest_start: usize = match find_src(&segs) {
            Some(j) => j + 1,
            None => 0,
        };
        proof {
            if src_index(stripped) is Some {
                assert(after_src(stripped) == stripped.skip(rest_start as int));
            } else {
                assert(stripped.skip(0) =~= stripped);
                assert(after_src(stripped) == stripped.skip(rest_start as int));
            }
        }
        let ghost tail = stripped.skip(rest_start as int);
        let mut out: Vec<String> = Vec::new();
        let mut k: usize = rest_start;
        proof {
            assert(tail.take(0) =~= Seq::<Seq<char>>::empty());
            assert(views_of(out@) =~= drop_special(tail.take(0)));
        }
        while k < segs.len()
            invariant
                rest_start <= k <= segs@.len(),
                stripped == views_of(segs@),
                tail == stripped.skip(rest_start as int),
                views_of(out@) == drop_special(tail.take(k - rest_start)),
            decreases segs@.len() - k,
        {
            proof {
                lemma_drop_special_take(tail, k - rest_start);
                assert(tail[k - rest_start] == views_of(segs@)[k as int]);
            }
            let special = str_eq(segs[k].as_str(), "lib") || str_eq(segs[k].as_str(), "main")
                || str_eq(segs[k].as_str(), "mod");
            if !special {
                out.push(segs[k].clone());
            }
            proof {
                assert(views_of(out@) =~= drop_special(tail.take(k - rest_start + 1)));
            }
            k = k + 1;
        }
        proof {
            assert(tail.take(segs@.len() - rest_start) =~= tail);
        }
        out
    }

    /// Builds a function record.
    pub fn analyze_function(&self, f: &RawFn) -> (r: FunctionInfo)
        ensures
            r@ == fn_v(*f),
    {
        build_function_record(f)
    }

    /// Builds an impl method record.
    fn extract_impl_method(&self, f: &RawFn) -> (r: FunctionInfo)
        ensures
            r@ == fn_v(*f),
    {
        build_function_record(f)
    }

    /// Builds a struct record.
    pub fn analyze_struct(&self, s: &RawStruct) -> (r: StructInfo)
        ensures
            r@ == struct_v(*s),
    {
        let fields: Vec<Field>;
        let kind: StructKind;
        match &s.fields {
            RawFields::Named(fs) => {
                fields = build_named_fields(fs);
                kind = StructKind::Named;
            },
            RawFields::Unnamed(fs) => {
                fields = build_tuple_fields(fs);
                kind = StructKind::Tuple;
            },
            RawFields::Unit => {
                fields = Vec::new();
                kind = StructKind::Unit;
            },
        }
        let doc = extract_docs(&s.attrs);
        let derives = extract_derives(&s.attrs);
        let attrs = extract_attributes(&s.attrs);
        let r = StructInfo {
            name: s.name.clone(),
            visibility: normalize_visibility(s.vis),
            generics: clone_strings(&s.generics),
            fields,
            kind,
            documentation: doc,
            derives,
            attributes: attrs,
            where_clause: clone_opt_string(&s.where_clause),
            source_location: SourceLocation::default(),
            mod_path: Vec::new(),
        };
        proof {
            assert(r@ =~= struct_v(*s));
        }
        r
    }

    /// Builds an enum record.
    pub fn analyze_enum(&self, e: &RawEnum) -> (r: EnumInfo)
        ensures
            r@ == enum_v(*e),
    {
        let variants = build_variants(&e.variants);
        let doc = extract_docs(&e.attrs);
        let derives = extract_derives(&e.attrs);
        let attrs = extract_attributes(&e.attrs);
        let r = EnumInfo {
            name: e.name.clone(),
            visibility: normalize_visibility(e.vis),
            generics: clone_strings(&e.generics),
            variants,
            documentation: doc,
            derives,
            attributes: attrs,
            where_clause: clone_opt_string(&e.where_clause),
            source_location: SourceLocation::default(),
            mod_path: Vec::new(),
        };
        proof {
            assert(r@ =~= enum_v(*e));
        }
        r
    }

    /// Builds a trait record: methods, associated types and associated
    /// consts are gathered from the trait body in order.
    pub fn analyze_trait(&self, t: &RawTrait) -> (r: TraitInfo)
        ensures
            r@ == trait_v(*t),
    {
        let mut methods: Vec<TraitMethod> = Vec::new();
        let mut assoc_types: Vec<AssociatedType> = Vec::new();
        let mut assoc_consts: Vec<AssociatedConst> = Vec::new();
        let mut i: usize = 0;
        proof {
            assert(t.items@.take(0) =~= Seq::<RawTraitItem>::empty());
            assert(methods@.map_values(|m: TraitMethod| m@) =~= trait_methods_v(t.items@.take(0)));
            assert(assoc_types@.map_values(|a: AssociatedType| a@) =~= trait_types_v(
                t.items@.take(0),
            ));
            assert(assoc_consts@.map_values(|a: AssociatedConst| a@) =~= trait_consts_v(
                t.items@.take(0),
            ));
        }
        while i < t.items.len()
            invariant
                i <= t.items@.len(),
                methods@.map_values(|m: TraitMethod| m@) == trait_methods_v(
                    t.items@.take(i as int),
                ),
                assoc_types@.map_values(|a: AssociatedType| a@) == trait_types_v(
                    t.items@.take(i as int),
                ),
                assoc_consts@.map_values(|a: AssociatedConst| a@) == trait_consts_v(
                    t.items@.take(i as int),
                ),
            decreases t.items@.len() - i,
        {
            proof {
                lemma_trait_items_take(t.items@, i as int);
            }
            match &t.items[i] {
                RawTraitItem::Method(m) => {
                    let doc = extract_docs(&m.attrs);
                    methods.push(TraitMethod {
                        name: m.name.clone(),
                        signature: m.sig_text.clone(),
                        has_default: m.has_default,
                        is_async: m.is_async,
                        documentation: doc,
                    });
                    proof {
                        assert(methods@.map_values(|m: TraitMethod| m@) =~= trait_methods_v(
                            t.items@.take(i + 1),
                        ));
                        assert(assoc_types@.map_values(|a: AssociatedType| a@) =~= trait_types_v(
                            t.items@.take(i + 1),
                        ));
                        assert(assoc_consts@.map_values(|a: AssociatedConst| a@)
                            =~= trait_consts_v(t.items@.take(i + 1)));
                    }
                },
                RawTraitItem::Type(at) => {
                    assoc_types.push(AssociatedType {
                        name: at.name.clone(),
                        bounds: clone_strings(&at.bounds),
                        default: clone_opt_string(&at.default),
                    });
                    proof {
                        assert(methods@.map_values(|m: TraitMethod| m@) =~= trait_methods_v(
                            t.items@.take(i + 1),
                        ));
                        assert(assoc_types@.map_values(|a: AssociatedType| a@) =~= trait_types_v(
                            t.items@.take(i + 1),
                        ));
                        assert(assoc_consts@.map_values(|a: AssociatedConst| a@)
                            =~= trait_consts_v(t.items@.take(i + 1)));
                    }
                },
                RawTraitItem::Const(c) => {
                    assoc_consts.push(AssociatedConst {
                        name: c.name.clone(),
                        ty: c.ty.clone(),
                        default: clone_opt_string(&c.default),
                    });
                    proof {
                        assert(methods@.map_values(|m: TraitMethod| m@) =~= trait_methods_v(
                            t.items@.take(i + 1),
                        ));
                        assert(assoc_types@.map_values(|a: AssociatedType| a@) =~= trait_types_v(
                            t.items@.take(i + 1),
                        ));
                        assert(assoc_consts@.map_values(|a: AssociatedConst| a@)
                            =~= trait_consts_v(t.items@.take(i + 1)));
                    }
                },
                RawTraitItem::Skipped => {
                    proof {
                        assert(methods@.map_values(|m: TraitMethod| m@) =~= trait_methods_v(
                            t.items@.take(i + 1),
                        ));
                        assert(assoc_types@.map_values(|a: AssociatedType| a@) =~= trait_types_v(
                            t.items@.take(i + 1),
                        ));
                        assert(assoc_consts@.map_values(|a: AssociatedConst| a@)
                            =~= trait_consts_v(t.items@.take(i + 1)));
                    }
                },
            }
            i = i + 1;
        }
        proof {
            assert(t.items@.take(t.items@.len() as int) =~= t.items@);
        }
        let doc = extract_docs(&t.attrs);
        let r = TraitInfo {
            name: t.name.clone(),
            visibility: normalize_visibility(t.vis),
            generics: clone_strings(&t.generics),
            supertraits: clone_strings(&t.supertraits),
            methods,
            associated_types: assoc_types,
            associated_consts: assoc_consts,
            documentation: doc,
            is_unsafe: t.is_unsafe,
            is_auto: t.is_auto,
            where_clause: clone_opt_string(&t.where_clause),
            source_location: SourceLocation::default(),
            mod_path: Vec::new(),
        };
        proof {
            assert(r@ =~= trait_v(*t));
        }
        r
    }

    /// Builds an impl record with its method list.
    pub fn analyze_impl(&self, im: &RawImpl) -> (r: ImplInfo)
        ensures
            r@ == impl_v(*im),
    {
        let mut methods: Vec<FunctionInfo> = Vec::new();
        let mut i: usize = 0;
        proof {
            assert(im.items@.take(0) =~= Seq::<RawImplItem>::empty());
            assert(methods@.map_values(|m: FunctionInfo| m@) =~= impl_methods_v(
                im.items@.take(0),
            ));
        }
        while i < im.items.len()
            invariant
                i <= im.items@.len(),
                methods@.map_values(|m: FunctionInfo| m@) == impl_methods_v(
                    im.items@.take(i as int),
                ),
            decreases im.items@.len() - i,
        {
            proof {
                lemma_impl_methods_take(im.items@, i as int);
            }
            match &im.items[i] {
                RawImplItem::Method(f) => {
                    let rec = self.extract_impl_method(f);
                    methods.push(rec);
                    proof {
                        assert(methods@.map_values(|m: FunctionInfo| m@) =~= impl_methods_v(
                            im.items@.take(i + 1),
                        ));
                    }
                },
                RawImplItem::Skipped => {
                    proof {
                        assert(methods@.map_values(|m: FunctionInfo| m@) =~= impl_methods_v(
                            im.items@.take(i + 1),
                        ));
                    }
                },
            }
            i = i + 1;
        }
        proof {
            assert(im.items@.take(im.items@.len() as int) =~= im.items@);
        }
        let r = ImplInfo {
            self_ty: im.self_ty.clone(),
            trait_name: clone_opt_string(&im.trait_name),
            generics: clone_strings(&im.generics),
            methods,
            is_unsafe: im.is_unsafe,
            is_negative: im.is_negative,
            where_clause: clone_opt_string(&im.where_clause),
            source_location: SourceLocation::default(),
            mod_path: Vec::new(),
        };
        proof {
            assert(r@ =~= impl_v(*im));
        }
        r
    }

    /// Builds a module record with its child summaries.
    pub fn analyze_module(&self, m: &RawMod) -> (r: ModuleInfo)
        ensures
            r@ == module_v(*m),
    {
        let (items, submodules) = summarize_module_content(&m.content);
        let doc = extract_docs(&m.attrs);
        let r = ModuleInfo {
            name: m.name.clone(),
            path: String::new(),
            visibility: normalize_visibility(m.vis),
            items,
            submodules,
            documentation: doc,
            is_inline: m.has_body,
            source_location: SourceLocation::default(),
            mod_path: Vec::new(),
        };
        proof {
            assert(r@ =~= module_v(*m));
        }
        r
    }

    /// Builds a type alias record.
    pub fn analyze_type_alias(&self, t: &RawTypeAlias) -> (r: TypeAliasInfo)
        ensures
            r@ == type_alias_v(*t),
    {
        let doc = extract_docs(&t.attrs);
        let r = TypeAliasInfo {
            name: t.name.clone(),
            visibility: normalize_visibility(t.vis),
            generics: clone_strings(&t.generics),
            ty: t.ty.clone(),
            documentation: doc,
            where_clause: clone_opt_string(&t.where_clause),
            source_location: SourceLocation::default(),
            mod_path: Vec::new(),
        };
        proof {
            assert(r@ =~= type_alias_v(*t));
        }
        r
    }

    /// Builds a const record.
    pub fn analyze_const(&self, c: &RawConst) -> (r: ConstInfo)
        ensures
            r@ == const_v(*c),
    {
        let doc = extract_docs(&c.attrs);
        let r = ConstInfo {
            name: c.name.clone(),
            visibility: normalize_visibility(c.vis),
            ty: c.ty.clone(),
            value: Some(c.value.clone()),
            documentation: doc,
            source_location: SourceLocation::default(),
            mod_path: Vec::new(),
        };
        proof {
            assert(r@ =~= const_v(*c));
        }
        r
    }

    /// Builds a static record.
    pub fn analyze_static(&self, s: &RawStatic) -> (r: StaticInfo)
        ensures
            r@ == static_v(*s),
    {
        let doc = extract_docs(&s.attrs);
        let r = StaticInfo {
            name: s.name.clone(),
            visibility: normalize_visibility(s.vis),
            ty: s.ty.clone(),
            is_mut: s.is_mut,
            documentation: doc,
            source_location: SourceLocation::default(),
            mod_path: Vec::new(),
        };
        proof {
            assert(r@ =~= static_v(*s));
        }
        r
    }

    /// Classifies one raw item into a record, or skips an untracked kind.
    pub fn analyze_item(&self, it: &RawItem) -> (r: Option<AnalyzedItem>)
        ensures
            match r {
                Some(x) => classify_spec(*it) == Some(x@),
                None => classify_spec(*it) is None,
            },
    {
        match it {
            RawItem::Fn(f) => Some(AnalyzedItem::Function(self.analyze_function(f))),
            RawItem::Struct(s) => Some(AnalyzedItem::Struct(self.analyze_struct(s))),
            RawItem::Enum(e) => Some(AnalyzedItem::Enum(self.analyze_enum(e))),
            RawItem::Trait(t) => Some(AnalyzedItem::Trait(self.analyze_trait(t))),
            RawItem::Impl(i) => Some(AnalyzedItem::Impl(self.analyze_impl(i))),
            RawItem::Mod(m) => Some(AnalyzedItem::Module(self.analyze_module(m))),
            RawItem::TypeAlias(t) => Some(AnalyzedItem::TypeAlias(self.analyze_type_alias(t))),
            RawItem::Const(c) => Some(AnalyzedItem::Const(self.analyze_const(c))),
            RawItem::Static(s) => Some(AnalyzedItem::Static(self.analyze_static(s))),
            RawItem::Skipped => None,
        }
    }

    /// Replaces a record's module path.
    pub fn set_module_path(item: &mut AnalyzedItem, path: Vec<String>)
        ensures
            final(item)@ == with_path(old(item)@, views_of(path@)),
    {
        match item {
            AnalyzedItem::Function(f) => f.mod_path = path,
            AnalyzedItem::Struct(s) => s.mod_path = path,
            AnalyzedItem::Enum(e) => e.mod_path = path,
            AnalyzedItem::Trait(t) => t.mod_path = path,
            AnalyzedItem::Impl(i) => i.mod_path = path,
            AnalyzedItem::Module(m) => m.mod_path = path,
            AnalyzedItem::TypeAlias(t) => t.mod_path = path,
            AnalyzedItem::Const(c) => c.mod_path = path,
            AnalyzedItem::Static(s) => s.mod_path = path,
        }
        proof {
            assert(final(item)@ =~= with_path(old(item)@, views_of(path@)));
        }
    }

    /// Stamps a record's source location with a file and line.
    pub fn set_source_location(item: &mut AnalyzedItem, file: String, line: usize)
        ensures
            final(item)@ == with_loc(old(item)@, file@, line),
    {
        let loc = SourceLocation::new(file, line);
        match item {
            AnalyzedItem::Function(f) => f.source_location = loc,
            AnalyzedItem::Struct(s) => s.source_location = loc,
            AnalyzedItem::Enum(e) => e.source_location = loc,
            AnalyzedItem::Trait(t) => t.source_location = loc,
            AnalyzedItem::Impl(i) => i.source_location = loc,
            AnalyzedItem::Module(m) => m.source_location = loc,
            AnalyzedItem::TypeAlias(t) => t.source_location = loc,
            AnalyzedItem::Const(c) => c.source_location = loc,
            AnalyzedItem::Static(s) => s.source_location = loc,
        }
        proof {
            assert(final(item)@ =~= with_loc(old(item)@, file@, line));
        }
    }

    /// Whether a record is public.
    pub fn is_public(&self, item: &AnalyzedItem) -> (r: bool)
        ensures
            r == is_public_v(item@),
    {
        match item.visibility() {
            Some(v) => matches!(v, Visibility::Public),
            None => false,
        }
    }

    /// Recursively collects the records of an inline module body: nested
    /// expansions come first, then each item's own record.
    fn collect_inline_module_items(
        &self,
        content: &Vec<RawItem>,
        path: &Option<String>,
        mod_path: Vec<String>,
    ) -> (r: Vec<AnalyzedItem>)
        ensures
            r@.map_values(|x: AnalyzedItem| x@) == expand_items_spec(
                content@,
                views_of(mod_path@),
                opt_view(*path),
                self.include_private,
            ),
        decreases content@,
    {
        let mut items: Vec<AnalyzedItem> = Vec::new();
        let mut i: usize = 0;
        proof {
            assert(content@.take(0) =~= Seq::<RawItem>::empty());
            assert(items@.map_values(|x: AnalyzedItem| x@) =~= expand_items_spec(
                content@.take(0),
                views_of(mod_path@),
                opt_view(*path),
                self.include_private,
            ));
        }
        while i < content.len()
            invariant
                i <= content@.len(),
                items@.map_values(|x: AnalyzedItem| x@) == expand_items_spec(
                    content@.take(i as int),
                    views_of(mod_path@),
                    opt_view(*path),
                    self.include_private,
                ),
            decreases content@.len() - i,
        {
            proof {
                lemma_expand_items_take(
                    content@,
                    views_of(mod_path@),
                    opt_view(*path),
                    self.include_private,
                    i as int,
                );
            }
            let ghost items_before = items@;
            match &content[i] {
                RawItem::Mod(m) => {
                    let mut child = clone_strings(&mod_path);
                    child.push(m.name.clone());
                    proof {
                        assert(decreases_to!(content@ => content@[i as int]));
                        assert(views_of(child@) =~= views_of(mod_path@).push(m.name@));
                    }
                    let mut inner = self.collect_inline_module_items(&m.content, path, child);
                    items.append(&mut inner);
                },
                _ => {},
            }
            let ghost after_sub = items@;
            match self.analyze_item(&content[i]) {
                Some(analyzed) => {
                    let mut analyzed = analyzed;
                    RustAnalyzer::set_module_path(&mut analyzed, clone_strings(&mod_path));
                    match path {
                        Some(fp) => {
                            let line = line_of_item(&content[i]);
                            RustAnalyzer::set_source_location(&mut analyzed, fp.clone(), line);
                        },
                        None => {},
                    }
                    if self.include_private || self.is_public(&analyzed) {
                        items.push(analyzed);
                    }
                },
                None => {},
            }
            proof {
                assert(items@.map_values(|x: AnalyzedItem| x@) =~= expand_items_spec(
                    content@.take(i + 1),
                    views_of(mod_path@),
                    opt_view(*path),
                    self.include_private,
                ));
            }
            i = i + 1;
        }
        proof {
            assert(content@.take(content@.len() as int) =~= content@);
        }
        items
    }

    /// Analyzes a source text with an explicit module path: parses it,
    /// expands inline modules, classifies and stamps every tracked item,
    /// and applies the visibility filter. Fails exactly when the parser
    /// rejects the text.
    pub fn analyze_source_with_module(
        &self,
        source: &str,
        path: Option<String>,
        mod_path: Vec<String>,
    ) -> (r: Result<Vec<AnalyzedItem>, OracleError>)
        ensures
            match r {
                Ok(v) => parse_of(source@) matches Some(raw) && v@.map_values(
                    |x: AnalyzedItem| x@,
                ) == expand_items_spec(
                    raw,
                    views_of(mod_path@),
                    opt_view(path),
                    self.include_private,
                ),
                Err(e) => parse_of(source@) is None && e is Parse,
            },
    {
        match parse_source(source) {
            Ok(raw) => Ok(self.collect_inline_module_items(&raw, &path, mod_path)),
            Err(msg) => Err(OracleError::Parse(msg)),
        }
    }

    /// Analyzes a source text with an optional file path; the module path
    /// is derived from the file path when one is given.
    pub fn analyze_source_with_path(&self, source: &str, path: Option<String>) -> (r: Result<
        Vec<AnalyzedItem>,
        OracleError,
    >)
        ensures
            match r {
                Ok(v) => parse_of(source@) matches Some(raw) && v@.map_values(
                    |x: AnalyzedItem| x@,
                ) == expand_items_spec(
                    raw,
                    match opt_view(path) {
                        Some(p) => derive_mod_path_spec(p),
                        None => Seq::empty(),
                    },
                    opt_view(path),
                    self.include_private,
                ),
                Err(e) => parse_of(source@) is None && e is Parse,
            },
    {
        let mod_path = match &path {
            Some(p) => RustAnalyzer::derive_module_path(p.as_str()),
            None => Vec::new(),
        };
        proof {
            assert(views_of(mod_path@) =~= (match opt_view(path) {
                Some(p) => derive_mod_path_spec(p),
                None => Seq::empty(),
            }));
        }
        self.analyze_source_with_module(source, path, mod_path)
    }

    /// Analyzes an in-memory source text: the records carry no source
    /// location and an empty module path.
    pub fn analyze_source(&self, source: &str) -> (r: Result<Vec<AnalyzedItem>, OracleError>)
        ensures
            match r {
                Ok(v) => parse_of(source@) matches Some(raw) && v@.map_values(
                    |x: AnalyzedItem| x@,
                ) == expand_items_spec(raw, Seq::empty(), None, self.include_private),
                Err(e) => parse_of(source@) is None && e is Parse,
            },
    {
        let r = self.analyze_source_with_path(source, None);
        proof {
            assert(views_of(Seq::<String>::empty()) =~= Seq::<Seq<char>>::empty());
        }
        r
    }
}

} // verus!
