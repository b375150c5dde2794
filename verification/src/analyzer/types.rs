//! The declaration catalog: one record per analyzed item.

use vstd::prelude::*;
use crate::strings::{join_strings, join_with, views_of};

verus! {

/// Where a declaration was found: file path and 1-based line.
#[derive(Debug, Clone, PartialEq, Eq)]
pub struct SourceLocation {
    pub file: Option<String>,
    pub line: Option<usize>,
    pub column: Option<usize>,
}

impl SourceLocation {
    /// A location with a known file and line and no column.
    pub fn new(file: String, line: usize) -> (r: SourceLocation)
        ensures
            r.file == Some(file),
            r.line == Some(line),
            r.column is None,
    {
        SourceLocation { file: Some(file), line: Some(line), column: None }
    }
}

impl Default for SourceLocation {
    /// The unknown location.
    fn default() -> (r: Self)
        ensures
            r.file is None && r.line is None && r.column is None,
    {
        SourceLocation { file: None, line: None, column: None }
    }
}

/// Normalized visibility of a declaration.
#[derive(Debug, Clone, Copy, PartialEq, Eq, Structural)]
pub enum Visibility {
    Public,
    Crate,
    Super,
    SelfOnly,
    Private,
}

impl Default for Visibility {
    fn default() -> (r: Self)
        ensures
            r == Visibility::Private,
    {
        Visibility::Private
    }
}

/// One analyzed declaration.
#[derive(Debug, Clone, PartialEq, Eq)]
pub enum AnalyzedItem {
    Function(FunctionInfo),
    Struct(StructInfo),
    Enum(EnumInfo),
    Trait(TraitInfo),
    Impl(ImplInfo),
    Module(ModuleInfo),
    TypeAlias(TypeAliasInfo),
    Const(ConstInfo),
    Static(StaticInfo),
}

/// Information about a function or method.
#[derive(Debug, Clone, PartialEq, Eq)]
pub struct FunctionInfo {
    pub name: String,
    pub signature: String,
    pub visibility: Visibility,
    pub is_async: bool,
    pub is_const: bool,
    pub is_unsafe: bool,
    pub generics: Vec<String>,
    pub parameters: Vec<Parameter>,
    pub return_type: Option<String>,
    pub documentation: Option<String>,
    pub attributes: Vec<String>,
    pub where_clause: Option<String>,
    pub source_location: SourceLocation,
    /// Module path for fully qualified naming.
    pub mod_path: Vec<String>,
}

/// One function parameter.
#[derive(Debug, Clone, PartialEq, Eq)]
pub struct Parameter {
    pub name: String,
    pub ty: String,
    pub is_self: bool,
    pub is_mut: bool,
    pub is_ref: bool,
}

/// Information about a struct.
#[derive(Debug, Clone, PartialEq, Eq)]
pub struct StructInfo {
    pub name: String,
    pub visibility: Visibility,
    pub generics: Vec<String>,
    pub fields: Vec<Field>,
    pub kind: StructKind,
    pub documentation: Option<String>,
    pub derives: Vec<String>,
    pub attributes: Vec<String>,
    pub where_clause: Option<String>,
    pub source_location: SourceLocation,
    pub mod_path: Vec<String>,
}

/// The field shape of a struct.
#[derive(Debug, Clone, Copy, PartialEq, Eq, Structural)]
pub enum StructKind {
    Named,
    Tuple,
    Unit,
}

/// One struct or enum field.
#[derive(Debug, Clone, PartialEq, Eq)]
pub struct Field {
    pub name: String,
    pub ty: String,
    pub visibility: Visibility,
    pub documentation: Option<String>,
}

/// Information about an enum.
#[derive(Debug, Clone, PartialEq, Eq)]
pub struct EnumInfo {
    pub name: String,
    pub visibility: Visibility,
    pub generics: Vec<String>,
    pub variants: Vec<Variant>,
    pub documentation: Option<String>,
    pub derives: Vec<String>,
    pub attributes: Vec<String>,
    pub where_clause: Option<String>,
    pub source_location: SourceLocation,
    pub mod_path: Vec<String>,
}

/// One enum variant.
#[derive(Debug, Clone, PartialEq, Eq)]
pub struct Variant {
    pub name: String,
    pub fields: VariantFields,
    pub discriminant: Option<String>,
    pub documentation: Option<String>,
}

/// The field shape of an enum variant.
#[derive(Debug, Clone, PartialEq, Eq)]
pub enum VariantFields {
    Named(Vec<Field>),
    Unnamed(Vec<String>),
    Unit,
}

/// Information about a trait.
#[derive(Debug, Clone, PartialEq, Eq)]
pub struct TraitInfo {
    pub name: String,
    pub visibility: Visibility,
    pub generics: Vec<String>,
    pub supertraits: Vec<String>,
    pub methods: Vec<TraitMethod>,
    pub associated_types: Vec<AssociatedType>,
    pub associated_consts: Vec<AssociatedConst>,
    pub documentation: Option<String>,
    pub is_unsafe: bool,
    pub is_auto: bool,
    pub where_clause: Option<String>,
    pub source_location: SourceLocation,
    pub mod_path: Vec<String>,
}

/// One trait method signature.
#[derive(Debug, Clone, PartialEq, Eq)]
pub struct TraitMethod {
    pub name: String,
    pub signature: String,
    pub has_default: bool,
    pub is_async: bool,
    pub documentation: Option<String>,
}

/// An associated type declared in a trait.
#[derive(Debug, Clone, PartialEq, Eq)]
pub struct AssociatedType {
    pub name: String,
    pub bounds: Vec<String>,
    pub default: Option<String>,
}

/// An associated const declared in a trait.
#[derive(Debug, Clone, PartialEq, Eq)]
pub struct AssociatedConst {
    pub name: String,
    pub ty: String,
    pub default: Option<String>,
}

/// Information about an impl block.
#[derive(Debug, Clone, PartialEq, Eq)]
pub struct ImplInfo {
    pub self_ty: String,
    pub trait_name: Option<String>,
    pub generics: Vec<String>,
    pub methods: Vec<FunctionInfo>,
    pub is_unsafe: bool,
    pub is_negative: bool,
    pub where_clause: Option<String>,
    pub source_location: SourceLocation,
    pub mod_path: Vec<String>,
}

/// Information about a module declaration.
#[derive(Debug, Clone, PartialEq, Eq)]
pub struct ModuleInfo {
    pub name: String,
    pub path: String,
    pub visibility: Visibility,
    pub items: Vec<String>,
    pub submodules: Vec<String>,
    pub documentation: Option<String>,
    pub is_inline: bool,
    pub source_location: SourceLocation,
    pub mod_path: Vec<String>,
}

/// Information about a type alias.
#[derive(Debug, Clone, PartialEq, Eq)]
pub struct TypeAliasInfo {
    pub name: String,
    pub visibility: Visibility,
    pub generics: Vec<String>,
    pub ty: String,
    pub documentation: Option<String>,
    pub where_clause: Option<String>,
    pub source_location: SourceLocation,
    pub mod_path: Vec<String>,
}

/// Information about a const item.
#[derive(Debug, Clone, PartialEq, Eq)]
pub struct ConstInfo {
    pub name: String,
    pub visibility: Visibility,
    pub ty: String,
    pub value: Option<String>,
    pub documentation: Option<String>,
    pub source_location: SourceLocation,
    pub mod_path: Vec<String>,
}

/// Information about a static item.
#[derive(Debug, Clone, PartialEq, Eq)]
pub struct StaticInfo {
    pub name: String,
    pub visibility: Visibility,
    pub ty: String,
    pub is_mut: bool,
    pub documentation: Option<String>,
    pub source_location: SourceLocation,
    pub mod_path: Vec<String>,
}

/// The view of an optional string.
pub open spec fn opt_view(o: Option<String>) -> Option<Seq<char>> {
    match o {
        Some(s) => Some(s@),
        None => None,
    }
}

/// Mathematical model of a source location.
#[verifier::ext_equal]
pub struct SourceLocationV {
    pub file: Option<Seq<char>>,
    pub line: Option<usize>,
    pub column: Option<usize>,
}

impl View for SourceLocation {
    type V = SourceLocationV;

    open spec fn view(&self) -> SourceLocationV {
        SourceLocationV { file: opt_view(self.file), line: self.line, column: self.column }
    }
}

/// Mathematical model of a parameter.
#[verifier::ext_equal]
pub struct ParameterV {
    pub name: Seq<char>,
    pub ty: Seq<char>,
    pub is_self: bool,
    pub is_mut: bool,
    pub is_ref: bool,
}

impl View for Parameter {
    type V = ParameterV;

    open spec fn view(&self) -> ParameterV {
        ParameterV {
            name: self.name@,
            ty: self.ty@,
            is_self: self.is_self,
            is_mut: self.is_mut,
            is_ref: self.is_ref,
        }
    }
}

/// Mathematical model of a function record.
#[verifier::ext_equal]
pub struct FunctionInfoV {
    pub name: Seq<char>,
    pub signature: Seq<char>,
    pub visibility: Visibility,
    pub is_async: bool,
    pub is_const: bool,
    pub is_unsafe: bool,
    pub generics: Seq<Seq<char>>,
    pub parameters: Seq<ParameterV>,
    pub return_type: Option<Seq<char>>,
    pub documentation: Option<Seq<char>>,
    pub attributes: Seq<Seq<char>>,
    pub where_clause: Option<Seq<char>>,
    pub source_location: SourceLocationV,
    pub mod_path: Seq<Seq<char>>,
}

impl View for FunctionInfo {
    type V = FunctionInfoV;

    open spec fn view(&self) -> FunctionInfoV {
        FunctionInfoV {
            name: self.name@,
            signature: self.signature@,
            visibility: self.visibility,
            is_async: self.is_async,
            is_const: self.is_const,
            is_unsafe: self.is_unsafe,
            generics: views_of(self.generics@),
            parameters: self.parameters@.map_values(|p: Parameter| p@),
            return_type: opt_view(self.return_type),
            documentation: opt_view(self.documentation),
            attributes: views_of(self.attributes@),
            where_clause: opt_view(self.where_clause),
            source_location: self.source_location@,
            mod_path: views_of(self.mod_path@),
        }
    }
}

/// Mathematical model of a field.
#[verifier::ext_equal]
pub struct FieldV {
    pub name: Seq<char>,
    pub ty: Seq<char>,
    pub visibility: Visibility,
    pub documentation: Option<Seq<char>>,
}

impl View for Field {
    type V = FieldV;

    open spec fn view(&self) -> FieldV {
        FieldV {
            name: self.name@,
            ty: self.ty@,
            visibility: self.visibility,
            documentation: opt_view(self.documentation),
        }
    }
}

/// Mathematical model of a struct record.
#[verifier::ext_equal]
pub struct StructInfoV {
    pub name: Seq<char>,
    pub visibility: Visibility,
    pub generics: Seq<Seq<char>>,
    pub fields: Seq<FieldV>,
    pub kind: StructKind,
    pub documentation: Option<Seq<char>>,
    pub derives: Seq<Seq<char>>,
    pub attributes: Seq<Seq<char>>,
    pub where_clause: Option<Seq<char>>,
    pub source_location: SourceLocationV,
    pub mod_path: Seq<Seq<char>>,
}

impl View for StructInfo {
    type V = StructInfoV;

    open spec fn view(&self) -> StructInfoV {
        StructInfoV {
            name: self.name@,
            visibility: self.visibility,
            generics: views_of(self.generics@),
            fields: self.fields@.map_values(|f: Field| f@),
            kind: self.kind,
            documentation: opt_view(self.documentation),
            derives: views_of(self.derives@),
            attributes: views_of(self.attributes@),
            where_clause: opt_view(self.where_clause),
            source_location: self.source_location@,
            mod_path: views_of(self.mod_path@),
        }
    }
}

/// Mathematical model of a variant's field shape.
#[verifier::ext_equal]
pub enum VariantFieldsV {
    Named(Seq<FieldV>),
    Unnamed(Seq<Seq<char>>),
    Unit,
}

impl View for VariantFields {
    type V = VariantFieldsV;

    open spec fn view(&self) -> VariantFieldsV {
        match self {
            VariantFields::Named(fs) => VariantFieldsV::Named(fs@.map_values(|f: Field| f@)),
            VariantFields::Unnamed(ts) => VariantFieldsV::Unnamed(views_of(ts@)),
            VariantFields::Unit => VariantFieldsV::Unit,
        }
    }
}

/// Mathematical model of an enum variant.
#[verifier::ext_equal]
pub struct VariantV {
    pub name: Seq<char>,
    pub fields: VariantFieldsV,
    pub discriminant: Option<Seq<char>>,
    pub documentation: Option<Seq<char>>,
}

impl View for Variant {
    type V = VariantV;

    open spec fn view(&self) -> VariantV {
        VariantV {
            name: self.name@,
            fields: self.fields@,
            discriminant: opt_view(self.discriminant),
            documentation: opt_view(self.documentation),
        }
    }
}

/// Mathematical model of an enum record.
#[verifier::ext_equal]
pub struct EnumInfoV {
    pub name: Seq<char>,
    pub visibility: Visibility,
    pub generics: Seq<Seq<char>>,
    pub variants: Seq<VariantV>,
    pub documentation: Option<Seq<char>>,
    pub derives: Seq<Seq<char>>,
    pub attributes: Seq<Seq<char>>,
    pub where_clause: Option<Seq<char>>,
    pub source_location: SourceLocationV,
    pub mod_path: Seq<Seq<char>>,
}

impl View for EnumInfo {
    type V = EnumInfoV;

    open spec fn view(&self) -> EnumInfoV {
        EnumInfoV {
            name: self.name@,
            visibility: self.visibility,
            generics: views_of(self.generics@),
            variants: self.variants@.map_values(|v: Variant| v@),
            documentation: opt_view(self.documentation),
            derives: views_of(self.derives@),
            attributes: views_of(self.attributes@),
            where_clause: opt_view(self.where_clause),
            source_location: self.source_location@,
            mod_path: views_of(self.mod_path@),
        }
    }
}

/// Mathematical model of a trait method.
#[verifier::ext_equal]
pub struct TraitMethodV {
    pub name: Seq<char>,
    pub signature: Seq<char>,
    pub has_default: bool,
    pub is_async: bool,
    pub documentation: Option<Seq<char>>,
}

impl View for TraitMethod {
    type V = TraitMethodV;

    open spec fn view(&self) -> TraitMethodV {
        TraitMethodV {
            name: self.name@,
            signature: self.signature@,
            has_default: self.has_default,
            is_async: self.is_async,
            documentation: opt_view(self.documentation),
        }
    }
}

/// Mathematical model of an associated type.
#[verifier::ext_equal]
pub struct AssociatedTypeV {
    pub name: Seq<char>,
    pub bounds: Seq<Seq<char>>,
    pub default: Option<Seq<char>>,
}

impl View for AssociatedType {
    type V = AssociatedTypeV;

    open spec fn view(&self) -> AssociatedTypeV {
        AssociatedTypeV {
            name: self.name@,
            bounds: views_of(self.bounds@),
            default: opt_view(self.default),
        }
    }
}

/// Mathematical model of an associated const.
#[verifier::ext_equal]
pub struct AssociatedConstV {
    pub name: Seq<char>,
    pub ty: Seq<char>,
    pub default: Option<Seq<char>>,
}

impl View for AssociatedConst {
    type V = AssociatedConstV;

    open spec fn view(&self) -> AssociatedConstV {
        AssociatedConstV { name: self.name@, ty: self.ty@, default: opt_view(self.default) }
    }
}

/// Mathematical model of a trait record.
#[verifier::ext_equal]
pub struct TraitInfoV {
    pub name: Seq<char>,
    pub visibility: Visibility,
    pub generics: Seq<Seq<char>>,
    pub supertraits: Seq<Seq<char>>,
    pub methods: Seq<TraitMethodV>,
    pub associated_types: Seq<AssociatedTypeV>,
    pub associated_consts: Seq<AssociatedConstV>,
    pub documentation: Option<Seq<char>>,
    pub is_unsafe: bool,
    pub is_auto: bool,
    pub where_clause: Option<Seq<char>>,
    pub source_location: SourceLocationV,
    pub mod_path: Seq<Seq<char>>,
}

impl View for TraitInfo {
    type V = TraitInfoV;

    open spec fn view(&self) -> TraitInfoV {
        TraitInfoV {
            name: self.name@,
            visibility: self.visibility,
            generics: views_of(self.generics@),
            supertraits: views_of(self.supertraits@),
            methods: self.methods@.map_values(|m: TraitMethod| m@),
            associated_types: self.associated_types@.map_values(|a: AssociatedType| a@),
            associated_consts: self.associated_consts@.map_values(|a: AssociatedConst| a@),
            documentation: opt_view(self.documentation),
            is_unsafe: self.is_unsafe,
            is_auto: self.is_auto,
            where_clause: opt_view(self.where_clause),
            source_location: self.source_location@,
            mod_path: views_of(self.mod_path@),
        }
    }
}

/// Mathematical model of an impl record.
#[verifier::ext_equal]
pub struct ImplInfoV {
    pub self_ty: Seq<char>,
    pub trait_name: Option<Seq<char>>,
    pub generics: Seq<Seq<char>>,
    pub methods: Seq<FunctionInfoV>,
    pub is_unsafe: bool,
    pub is_negative: bool,
    pub where_clause: Option<Seq<char>>,
    pub source_location: SourceLocationV,
    pub mod_path: Seq<Seq<char>>,
}

impl View for ImplInfo {
    type V = ImplInfoV;

    open spec fn view(&self) -> ImplInfoV {
        ImplInfoV {
            self_ty: self.self_ty@,
            trait_name: opt_view(self.trait_name),
            generics: views_of(self.generics@),
            methods: self.methods@.map_values(|m: FunctionInfo| m@),
            is_unsafe: self.is_unsafe,
            is_negative: self.is_negative,
            where_clause: opt_view(self.where_clause),
            source_location: self.source_location@,
            mod_path: views_of(self.mod_path@),
        }
    }
}

/// Mathematical model of a module record.
#[verifier::ext_equal]
pub struct ModuleInfoV {
    pub name: Seq<char>,
    pub path: Seq<char>,
    pub visibility: Visibility,
    pub items: Seq<Seq<char>>,
    pub submodules: Seq<Seq<char>>,
    pub documentation: Option<Seq<char>>,
    pub is_inline: bool,
    pub source_location: SourceLocationV,
    pub mod_path: Seq<Seq<char>>,
}

impl View for ModuleInfo {
    type V = ModuleInfoV;

    open spec fn view(&self) -> ModuleInfoV {
        ModuleInfoV {
            name: self.name@,
            path: self.path@,
            visibility: self.visibility,
            items: views_of(self.items@),
            submodules: views_of(self.submodules@),
            documentation: opt_view(self.documentation),
            is_inline: self.is_inline,
            source_location: self.source_location@,
            mod_path: views_of(self.mod_path@),
        }
    }
}

/// Mathematical model of a type alias record.
#[verifier::ext_equal]
pub struct TypeAliasInfoV {
    pub name: Seq<char>,
    pub visibility: Visibility,
    pub generics: Seq<Seq<char>>,
    pub ty: Seq<char>,
    pub documentation: Option<Seq<char>>,
    pub where_clause: Option<Seq<char>>,
    pub source_location: SourceLocationV,
    pub mod_path: Seq<Seq<char>>,
}

impl View for TypeAliasInfo {
    type V = TypeAliasInfoV;

    open spec fn view(&self) -> TypeAliasInfoV {
        TypeAliasInfoV {
            name: self.name@,
            visibility: self.visibility,
            generics: views_of(self.generics@),
            ty: self.ty@,
            documentation: opt_view(self.documentation),
            where_clause: opt_view(self.where_clause),
            source_location: self.source_location@,
            mod_path: views_of(self.mod_path@),
        }
    }
}

/// Mathematical model of a const record.
#[verifier::ext_equal]
pub struct ConstInfoV {
    pub name: Seq<char>,
    pub visibility: Visibility,
    pub ty: Seq<char>,
    pub value: Option<Seq<char>>,
    pub documentation: Option<Seq<char>>,
    pub source_location: SourceLocationV,
    pub mod_path: Seq<Seq<char>>,
}

impl View for ConstInfo {
    type V = ConstInfoV;

    open spec fn view(&self) -> ConstInfoV {
        ConstInfoV {
            name: self.name@,
            visibility: self.visibility,
            ty: self.ty@,
            value: opt_view(self.value),
            documentation: opt_view(self.documentation),
            source_location: self.source_location@,
            mod_path: views_of(self.mod_path@),
        }
    }
}

/// Mathematical model of a static record.
#[verifier::ext_equal]
pub struct StaticInfoV {
    pub name: Seq<char>,
    pub visibility: Visibility,
    pub ty: Seq<char>,
    pub is_mut: bool,
    pub documentation: Option<Seq<char>>,
    pub source_location: SourceLocationV,
    pub mod_path: Seq<Seq<char>>,
}

impl View for StaticInfo {
    type V = StaticInfoV;

    open spec fn view(&self) -> StaticInfoV {
        StaticInfoV {
            name: self.name@,
            visibility: self.visibility,
            ty: self.ty@,
            is_mut: self.is_mut,
            documentation: opt_view(self.documentation),
            source_location: self.source_location@,
            mod_path: views_of(self.mod_path@),
        }
    }
}

/// Mathematical model of one analyzed record.
#[verifier::ext_equal]
pub enum AnalyzedItemV {
    Function(FunctionInfoV),
    Struct(StructInfoV),
    Enum(EnumInfoV),
    Trait(TraitInfoV),
    Impl(ImplInfoV),
    Module(ModuleInfoV),
    TypeAlias(TypeAliasInfoV),
    Const(ConstInfoV),
    Static(StaticInfoV),
}

impl View for AnalyzedItem {
    type V = AnalyzedItemV;

    open spec fn view(&self) -> AnalyzedItemV {
        match self {
            AnalyzedItem::Function(f) => AnalyzedItemV::Function(f@),
            AnalyzedItem::Struct(s) => AnalyzedItemV::Struct(s@),
            AnalyzedItem::Enum(e) => AnalyzedItemV::Enum(e@),
            AnalyzedItem::Trait(t) => AnalyzedItemV::Trait(t@),
            AnalyzedItem::Impl(i) => AnalyzedItemV::Impl(i@),
            AnalyzedItem::Module(m) => AnalyzedItemV::Module(m@),
            AnalyzedItem::TypeAlias(t) => AnalyzedItemV::TypeAlias(t@),
            AnalyzedItem::Const(c) => AnalyzedItemV::Const(c@),
            AnalyzedItem::Static(s) => AnalyzedItemV::Static(s@),
        }
    }
}

impl AnalyzedItem {
    /// The declaration name; for an impl, the implementing type text.
    pub open spec fn spec_name(self) -> Seq<char> {
        match self {
            AnalyzedItem::Function(f) => f.name@,
            AnalyzedItem::Struct(s) => s.name@,
            AnalyzedItem::Enum(e) => e.name@,
            AnalyzedItem::Trait(t) => t.name@,
            AnalyzedItem::Impl(i) => i.self_ty@,
            AnalyzedItem::Module(m) => m.name@,
            AnalyzedItem::TypeAlias(t) => t.name@,
            AnalyzedItem::Const(c) => c.name@,
            AnalyzedItem::Static(s) => s.name@,
        }
    }

    /// The short kind label of a record.
    pub open spec fn spec_kind(self) -> Seq<char> {
        match self {
            AnalyzedItem::Function(_) => "fn"@,
            AnalyzedItem::Struct(_) => "struct"@,
            AnalyzedItem::Enum(_) => "enum"@,
            AnalyzedItem::Trait(_) => "trait"@,
            AnalyzedItem::Impl(_) => "impl"@,
            AnalyzedItem::Module(_) => "mod"@,
            AnalyzedItem::TypeAlias(_) => "type"@,
            AnalyzedItem::Const(_) => "const"@,
            AnalyzedItem::Static(_) => "static"@,
        }
    }

    /// The normalized visibility; impls have none.
    pub open spec fn spec_visibility(self) -> Option<Visibility> {
        match self {
            AnalyzedItem::Function(f) => Some(f.visibility),
            AnalyzedItem::Struct(s) => Some(s.visibility),
            AnalyzedItem::Enum(e) => Some(e.visibility),
            AnalyzedItem::Trait(t) => Some(t.visibility),
            AnalyzedItem::Impl(_) => None,
            AnalyzedItem::Module(m) => Some(m.visibility),
            AnalyzedItem::TypeAlias(t) => Some(t.visibility),
            AnalyzedItem::Const(c) => Some(c.visibility),
            AnalyzedItem::Static(s) => Some(s.visibility),
        }
    }

    /// The attached documentation, if any; impls carry none.
    pub open spec fn spec_documentation(self) -> Option<Seq<char>> {
        match self {
            AnalyzedItem::Function(f) => match f.documentation {
                Some(d) => Some(d@),
                None => None,
            },
            AnalyzedItem::Struct(s) => match s.documentation {
                Some(d) => Some(d@),
                None => None,
            },
            AnalyzedItem::Enum(e) => match e.documentation {
                Some(d) => Some(d@),
                None => None,
            },
            AnalyzedItem::Trait(t) => match t.documentation {
                Some(d) => Some(d@),
                None => None,
            },
            AnalyzedItem::Impl(_) => None,
            AnalyzedItem::Module(m) => match m.documentation {
                Some(d) => Some(d@),
                None => None,
            },
            AnalyzedItem::TypeAlias(t) => match t.documentation {
                Some(d) => Some(d@),
                None => None,
            },
            AnalyzedItem::Const(c) => match c.documentation {
                Some(d) => Some(d@),
                None => None,
            },
            AnalyzedItem::Static(s) => match s.documentation {
                Some(d) => Some(d@),
                None => None,
            },
        }
    }

    /// The source location of a record.
    pub open spec fn spec_source_location(self) -> SourceLocation {
        match self {
            AnalyzedItem::Function(f) => f.source_location,
            AnalyzedItem::Struct(s) => s.source_location,
            AnalyzedItem::Enum(e) => e.source_location,
            AnalyzedItem::Trait(t) => t.source_location,
            AnalyzedItem::Impl(i) => i.source_location,
            AnalyzedItem::Module(m) => m.source_location,
            AnalyzedItem::TypeAlias(t) => t.source_location,
            AnalyzedItem::Const(c) => c.source_location,
            AnalyzedItem::Static(s) => s.source_location,
        }
    }

    /// The module path of a record.
    pub open spec fn spec_module_path(self) -> Seq<Seq<char>> {
        views_of(self.spec_module_path_strings())
    }

    /// The module path of a record, as stored.
    pub open spec fn spec_module_path_strings(self) -> Seq<String> {
        match self {
            AnalyzedItem::Function(f) => f.mod_path@,
            AnalyzedItem::Struct(s) => s.mod_path@,
            AnalyzedItem::Enum(e) => e.mod_path@,
            AnalyzedItem::Trait(t) => t.mod_path@,
            AnalyzedItem::Impl(i) => i.mod_path@,
            AnalyzedItem::Module(m) => m.mod_path@,
            AnalyzedItem::TypeAlias(t) => t.mod_path@,
            AnalyzedItem::Const(c) => c.mod_path@,
            AnalyzedItem::Static(s) => s.mod_path@,
        }
    }

    /// The path-qualified name: path segments joined with `::`, then the name.
    pub open spec fn spec_qualified_name(self) -> Seq<char> {
        if self.spec_module_path().len() == 0 {
            self.spec_name()
        } else {
            join_with(self.spec_module_path(), "::"@) + "::"@ + self.spec_name()
        }
    }

    /// The declaration name; for an impl, the implementing type text.
    pub fn name(&self) -> (r: &str)
        ensures
            r@ == self.spec_name(),
    {
        match self {
            AnalyzedItem::Function(f) => f.name.as_str(),
            AnalyzedItem::Struct(s) => s.name.as_str(),
            AnalyzedItem::Enum(e) => e.name.as_str(),
            AnalyzedItem::Trait(t) => t.name.as_str(),
            AnalyzedItem::Impl(i) => i.self_ty.as_str(),
            AnalyzedItem::Module(m) => m.name.as_str(),
            AnalyzedItem::TypeAlias(t) => t.name.as_str(),
            AnalyzedItem::Const(c) => c.name.as_str(),
            AnalyzedItem::Static(s) => s.name.as_str(),
        }
    }

    /// The short kind label of a record.
    pub fn kind(&self) -> (r: &'static str)
        ensures
            r@ == self.spec_kind(),
    {
        match self {
            AnalyzedItem::Function(_) => "fn",
            AnalyzedItem::Struct(_) => "struct",
            AnalyzedItem::Enum(_) => "enum",
            AnalyzedItem::Trait(_) => "trait",
            AnalyzedItem::Impl(_) => "impl",
            AnalyzedItem::Module(_) => "mod",
            AnalyzedItem::TypeAlias(_) => "type",
            AnalyzedItem::Const(_) => "const",
            AnalyzedItem::Static(_) => "static",
        }
    }

    /// The normalized visibility; impls have none.
    pub fn visibility(&self) -> (r: Option<Visibility>)
        ensures
            r == self.spec_visibility(),
    {
        match self {
            AnalyzedItem::Function(f) => Some(f.visibility),
            AnalyzedItem::Struct(s) => Some(s.visibility),
            AnalyzedItem::Enum(e) => Some(e.visibility),
            AnalyzedItem::Trait(t) => Some(t.visibility),
            AnalyzedItem::Impl(_) => None,
            AnalyzedItem::Module(m) => Some(m.visibility),
            AnalyzedItem::TypeAlias(t) => Some(t.visibility),
            AnalyzedItem::Const(c) => Some(c.visibility),
            AnalyzedItem::Static(s) => Some(s.visibility),
        }
    }

    /// The attached documentation, if any; impls carry none.
    pub fn documentation(&self) -> (r: Option<&str>)
        ensures
            match r {
                Some(d) => self.spec_documentation() == Some(d@),
                None => self.spec_documentation() is None,
            },
    {
        let doc: &Option<String> = match self {
            AnalyzedItem::Function(f) => &f.documentation,
            AnalyzedItem::Struct(s) => &s.documentation,
            AnalyzedItem::Enum(e) => &e.documentation,
            AnalyzedItem::Trait(t) => &t.documentation,
            AnalyzedItem::Impl(_) => {
                return None;
            },
            AnalyzedItem::Module(m) => &m.documentation,
            AnalyzedItem::TypeAlias(t) => &t.documentation,
            AnalyzedItem::Const(c) => &c.documentation,
            AnalyzedItem::Static(s) => &s.documentation,
        };
        match doc {
            Some(d) => Some(d.as_str()),
            None => None,
        }
    }

    /// The source location of a record.
    pub fn source_location(&self) -> (r: Option<&SourceLocation>)
        ensures
            match r {
                Some(l) => *l == self.spec_source_location(),
                None => false,
            },
    {
        match self {
            AnalyzedItem::Function(f) => Some(&f.source_location),
            AnalyzedItem::Struct(s) => Some(&s.source_location),
            AnalyzedItem::Enum(e) => Some(&e.source_location),
            AnalyzedItem::Trait(t) => Some(&t.source_location),
            AnalyzedItem::Impl(i) => Some(&i.source_location),
            AnalyzedItem::Module(m) => Some(&m.source_location),
            AnalyzedItem::TypeAlias(t) => Some(&t.source_location),
            AnalyzedItem::Const(c) => Some(&c.source_location),
            AnalyzedItem::Static(s) => Some(&s.source_location),
        }
    }

    /// The module path segments of a record.
    pub fn mod_path(&self) -> (r: &Vec<String>)
        ensures
            r@ == self.spec_module_path_strings(),
    {
        match self {
            AnalyzedItem::Function(f) => &f.mod_path,
            AnalyzedItem::Struct(s) => &s.mod_path,
            AnalyzedItem::Enum(e) => &e.mod_path,
            AnalyzedItem::Trait(t) => &t.mod_path,
            AnalyzedItem::Impl(i) => &i.mod_path,
            AnalyzedItem::Module(m) => &m.mod_path,
            AnalyzedItem::TypeAlias(t) => &t.mod_path,
            AnalyzedItem::Const(c) => &c.mod_path,
            AnalyzedItem::Static(s) => &s.mod_path,
        }
    }

    /// The record rendered as one code line or block.
    pub open spec fn spec_definition(self) -> Seq<char> {
        match self {
            AnalyzedItem::Function(f) => f.signature@,
            AnalyzedItem::Struct(s) => s.spec_full_definition(),
            AnalyzedItem::Enum(e) => e.spec_full_definition(),
            AnalyzedItem::Trait(t) => t.spec_full_definition(),
            AnalyzedItem::Impl(i) => i.spec_full_definition(),
            AnalyzedItem::Module(m) => "mod "@ + m.name@,
            AnalyzedItem::TypeAlias(t) => "type "@ + t.name@ + " = "@ + t.ty@,
            AnalyzedItem::Const(c) => "const "@ + c.name@ + ": "@ + c.ty@,
            AnalyzedItem::Static(s) => "static "@ + (if s.is_mut {
                "mut "@
            } else {
                Seq::<char>::empty()
            }) + s.name@ + ": "@ + s.ty@,
        }
    }

    /// Renders the record as one code line or block.
    pub fn definition(&self) -> (r: String)
        ensures
            r@ == self.spec_definition(),
    {
        match self {
            AnalyzedItem::Function(f) => f.signature.clone(),
            AnalyzedItem::Struct(s) => s.full_definition(),
            AnalyzedItem::Enum(e) => e.full_definition(),
            AnalyzedItem::Trait(t) => t.full_definition(),
            AnalyzedItem::Impl(i) => i.full_definition(),
            AnalyzedItem::Module(m) => {
                let mut r = String::new();
                r.append("mod ");
                r.append(m.name.as_str());
                proof {
                    assert(r@ =~= "mod "@ + m.name@);
                }
                r
            },
            AnalyzedItem::TypeAlias(t) => {
                let mut r = String::new();
                r.append("type ");
                r.append(t.name.as_str());
                r.append(" = ");
                r.append(t.ty.as_str());
                proof {
                    assert(r@ =~= "type "@ + t.name@ + " = "@ + t.ty@);
                }
                r
            },
            AnalyzedItem::Const(c) => {
                let mut r = String::new();
                r.append("const ");
                r.append(c.name.as_str());
                r.append(": ");
                r.append(c.ty.as_str());
                proof {
                    assert(r@ =~= "const "@ + c.name@ + ": "@ + c.ty@);
                }
                r
            },
            AnalyzedItem::Static(s) => {
                let mut r = String::new();
                r.append("static ");
                if s.is_mut {
                    r.append("mut ");
                }
                r.append(s.name.as_str());
                r.append(": ");
                r.append(s.ty.as_str());
                proof {
                    assert(r@ =~= self.spec_definition());
                }
                r
            },
        }
    }

    /// The path-qualified name, such as `outer::inner::Name`.
    pub fn qualified_name(&self) -> (r: String)
        ensures
            r@ == self.spec_qualified_name(),
    {
        let path = self.mod_path();
        if path.len() == 0 {
            let n = self.name();
            n.to_owned()
        } else {
            let mut r = join_strings(path, "::");
            r.append("::");
            r.append(self.name());
            r
        }
    }
}

/// `pub ` for a public declaration, nothing otherwise.
pub open spec fn vis_prefix(v: Visibility) -> Seq<char> {
    if v == Visibility::Public {
        "pub "@
    } else {
        Seq::<char>::empty()
    }
}

/// Appends `pub ` when the visibility is public.
fn append_vis_prefix(r: &mut String, v: Visibility)
    ensures
        final(r)@ == old(r)@ + vis_prefix(v),
{
    if matches!(v, Visibility::Public) {
        r.append("pub ");
    }
    proof {
        assert(final(r)@ =~= old(r)@ + vis_prefix(v));
    }
}

/// `<...>` around the joined generic parameter texts, nothing when there
/// are none.
pub open spec fn generics_part(gs: Seq<Seq<char>>) -> Seq<char> {
    if gs.len() == 0 {
        Seq::<char>::empty()
    } else {
        "<"@ + join_with(gs, ", "@) + ">"@
    }
}

/// Appends the formatted generics list.
fn append_generics(r: &mut String, gs: &Vec<String>)
    ensures
        final(r)@ == old(r)@ + generics_part(views_of(gs@)),
{
    if gs.len() > 0 {
        r.append("<");
        let j = join_strings(gs, ", ");
        r.append(j.as_str());
        r.append(">");
    }
    proof {
        assert(final(r)@ =~= old(r)@ + generics_part(views_of(gs@)));
    }
}

/// One named struct field as rendered in a full definition.
pub open spec fn named_field_line(f: Field) -> Seq<char> {
    "    "@ + vis_prefix(f.visibility) + f.name@ + ": "@ + f.ty@
}

/// One tuple struct field as rendered in a full definition.
pub open spec fn tuple_field_part(f: Field) -> Seq<char> {
    vis_prefix(f.visibility) + f.ty@
}

impl StructInfo {
    /// The struct rendered as a code block.
    pub open spec fn spec_full_definition(self) -> Seq<char> {
        let head = vis_prefix(self.visibility) + "struct "@ + self.name@ + generics_part(
            views_of(self.generics@),
        );
        match self.kind {
            StructKind::Named => head + " {\n"@ + join_with(
                self.fields@.map_values(|f: Field| named_field_line(f)),
                ",\n"@,
            ) + "\n}"@,
            StructKind::Tuple => head + "("@ + join_with(
                self.fields@.map_values(|f: Field| tuple_field_part(f)),
                ", "@,
            ) + ");"@,
            StructKind::Unit => head + ";"@,
        }
    }

    /// Renders the struct as a code block.
    pub fn full_definition(&self) -> (r: String)
        ensures
            r@ == self.spec_full_definition(),
    {
        let mut r = String::new();
        append_vis_prefix(&mut r, self.visibility);
        r.append("struct ");
        r.append(self.name.as_str());
        append_generics(&mut r, &self.generics);
        match self.kind {
            StructKind::Named => {
                let mut lines: Vec<String> = Vec::new();
                let mut i: usize = 0;
                while i < self.fields.len()
                    invariant
                        i <= self.fields@.len(),
                        lines@.len() == i,
                        forall|k: int|
                            0 <= k < i ==> lines@[k]@ == named_field_line(
                                #[trigger] self.fields@[k],
                            ),
                    decreases self.fields@.len() - i,
                {
                    let f = &self.fields[i];
                    let mut line = String::new();
                    line.append("    ");
                    append_vis_prefix(&mut line, f.visibility);
                    line.append(f.name.as_str());
                    line.append(": ");
                    line.append(f.ty.as_str());
                    proof {
                        assert(line@ =~= named_field_line(self.fields@[i as int]));
                    }
                    lines.push(line);
                    i = i + 1;
                }
                proof {
                    assert(views_of(lines@) =~= self.fields@.map_values(
                        |f: Field| named_field_line(f),
                    ));
                }
                let joined = join_strings(&lines, ",\n");
                r.append(" {\n");
                r.append(joined.as_str());
                r.append("\n}");
            },
            StructKind::Tuple => {
                let mut parts: Vec<String> = Vec::new();
                let mut i: usize = 0;
                while i < self.fields.len()
                    invariant
                        i <= self.fields@.len(),
                        parts@.len() == i,
                        forall|k: int|
                            0 <= k < i ==> parts@[k]@ == tuple_field_part(
                                #[trigger] self.fields@[k],
                            ),
                    decreases self.fields@.len() - i,
                {
                    let f = &self.fields[i];
                    let mut part = String::new();
                    append_vis_prefix(&mut part, f.visibility);
                    part.append(f.ty.as_str());
                    proof {
                        assert(part@ =~= tuple_field_part(self.fields@[i as int]));
                    }
                    parts.push(part);
                    i = i + 1;
                }
                proof {
                    assert(views_of(parts@) =~= self.fields@.map_values(
                        |f: Field| tuple_field_part(f),
                    ));
                }
                let joined = join_strings(&parts, ", ");
                r.append("(");
                r.append(joined.as_str());
                r.append(");");
            },
            StructKind::Unit => {
                r.append(";");
            },
        }
        proof {
            assert(r@ =~= self.spec_full_definition());
        }
        r
    }
}

/// One enum variant's field list as rendered in a full definition.
pub open spec fn variant_fields_part(vf: VariantFields) -> Seq<char> {
    match vf {
        VariantFields::Named(fs) => " { "@ + join_with(
            fs@.map_values(|f: Field| f.name@ + ": "@ + f.ty@),
            ", "@,
        ) + " }"@,
        VariantFields::Unnamed(ts) => "("@ + join_with(views_of(ts@), ", "@) + ")"@,
        VariantFields::Unit => Seq::<char>::empty(),
    }
}

/// One enum variant as rendered in a full definition.
pub open spec fn variant_line(v: Variant) -> Seq<char> {
    "    "@ + v.name@ + variant_fields_part(v.fields)
}

/// Renders one variant's field list.
fn variant_fields_string(vf: &VariantFields) -> (r: String)
    ensures
        r@ == variant_fields_part(*vf),
{
    match vf {
        VariantFields::Named(fs) => {
            let mut parts: Vec<String> = Vec::new();
            let mut i: usize = 0;
            while i < fs.len()
                invariant
                    i <= fs@.len(),
                    parts@.len() == i,
                    forall|k: int|
                        0 <= k < i ==> parts@[k]@ == #[trigger] fs@[k].name@ + ": "@ + fs@[k].ty@,
                decreases fs@.len() - i,
            {
                let f = &fs[i];
                let mut part = String::new();
                part.append(f.name.as_str());
                part.append(": ");
                part.append(f.ty.as_str());
                proof {
                    assert(part@ =~= fs@[i as int].name@ + ": "@ + fs@[i as int].ty@);
                }
                parts.push(part);
                i = i + 1;
            }
            proof {
                assert(views_of(parts@) =~= fs@.map_values(|f: Field| f.name@ + ": "@ + f.ty@));
            }
            let joined = join_strings(&parts, ", ");
            let mut r = String::new();
            r.append(" { ");
            r.append(joined.as_str());
            r.append(" }");
            proof {
                assert(r@ =~= variant_fields_part(*vf));
            }
            r
        },
        VariantFields::Unnamed(ts) => {
            let joined = join_strings(ts, ", ");
            let mut r = String::new();
            r.append("(");
            r.append(joined.as_str());
            r.append(")");
            proof {
                assert(r@ =~= variant_fields_part(*vf));
            }
            r
        },
        VariantFields::Unit => {
            let r = String::new();
            proof {
                assert(r@ =~= variant_fields_part(*vf));
            }
            r
        },
    }
}

impl EnumInfo {
    /// The enum rendered as a code block.
    pub open spec fn spec_full_definition(self) -> Seq<char> {
        vis_prefix(self.visibility) + "enum "@ + self.name@ + generics_part(
            views_of(self.generics@),
        ) + " {\n"@ + join_with(self.variants@.map_values(|v: Variant| variant_line(v)), ",\n"@)
            + "\n}"@
    }

    /// Renders the enum as a code block.
    pub fn full_definition(&self) -> (r: String)
        ensures
            r@ == self.spec_full_definition(),
    {
        let mut r = String::new();
        append_vis_prefix(&mut r, self.visibility);
        r.append("enum ");
        r.append(self.name.as_str());
        append_generics(&mut r, &self.generics);
        let mut lines: Vec<String> = Vec::new();
        let mut i: usize = 0;
        while i < self.variants.len()
            invariant
                i <= self.variants@.len(),
                lines@.len() == i,
                forall|k: int|
                    0 <= k < i ==> lines@[k]@ == variant_line(#[trigger] self.variants@[k]),
            decreases self.variants@.len() - i,
        {
            let v = &self.variants[i];
            let mut line = String::new();
            line.append("    ");
            line.append(v.name.as_str());
            let fp = variant_fields_string(&v.fields);
            line.append(fp.as_str());
            proof {
                assert(line@ =~= variant_line(self.variants@[i as int]));
            }
            lines.push(line);
            i = i + 1;
        }
        proof {
            assert(views_of(lines@) =~= self.variants@.map_values(|v: Variant| variant_line(v)));
        }
        let joined = join_strings(&lines, ",\n");
        r.append(" {\n");
        r.append(joined.as_str());
        r.append("\n}");
        proof {
            assert(r@ =~= self.spec_full_definition());
        }
        r
    }
}

/// One associated type as rendered in a trait's full definition.
pub open spec fn assoc_type_line(at: AssociatedType) -> Seq<char> {
    "    type "@ + at.name@ + ";"@
}

/// One method signature as rendered in a trait's full definition.
pub open spec fn trait_method_line(m: TraitMethod) -> Seq<char> {
    "    "@ + m.signature@ + ";"@
}

impl TraitInfo {
    /// The trait rendered as a code block: associated types first, then
    /// method signatures.
    pub open spec fn spec_full_definition(self) -> Seq<char> {
        vis_prefix(self.visibility) + (if self.is_unsafe {
            "unsafe "@
        } else {
            Seq::<char>::empty()
        }) + (if self.is_auto {
            "auto "@
        } else {
            Seq::<char>::empty()
        }) + "trait "@ + self.name@ + generics_part(views_of(self.generics@)) + (if self.supertraits@.len() == 0 {
            Seq::<char>::empty()
        } else {
            ": "@ + join_with(views_of(self.supertraits@), " + "@)
        }) + " {\n"@ + join_with(
            self.associated_types@.map_values(|at: AssociatedType| assoc_type_line(at))
                + self.methods@.map_values(|m: TraitMethod| trait_method_line(m)),
            "\n"@,
        ) + "\n}"@
    }

    /// Renders the trait as a code block.
    pub fn full_definition(&self) -> (r: String)
        ensures
            r@ == self.spec_full_definition(),
    {
        let mut r = String::new();
        append_vis_prefix(&mut r, self.visibility);
        if self.is_unsafe {
            r.append("unsafe ");
        }
        if self.is_auto {
            r.append("auto ");
        }
        r.append("trait ");
        r.append(self.name.as_str());
        append_generics(&mut r, &self.generics);
        if self.supertraits.len() > 0 {
            r.append(": ");
            let b = join_strings(&self.supertraits, " + ");
            r.append(b.as_str());
        }
        let mut items: Vec<String> = Vec::new();
        let mut i: usize = 0;
        while i < self.associated_types.len()
            invariant
                i <= self.associated_types@.len(),
                items@.len() == i,
                forall|k: int|
                    0 <= k < i ==> items@[k]@ == assoc_type_line(
                        #[trigger] self.associated_types@[k],
                    ),
            decreases self.associated_types@.len() - i,
        {
            let at = &self.associated_types[i];
            let mut line = String::new();
            line.append("    type ");
            line.append(at.name.as_str());
            line.append(";");
            proof {
                assert(line@ =~= assoc_type_line(self.associated_types@[i as int]));
            }
            items.push(line);
            i = i + 1;
        }
        let mut j: usize = 0;
        while j < self.methods.len()
            invariant
                j <= self.methods@.len(),
                items@.len() == self.associated_types@.len() + j,
                forall|k: int|
                    0 <= k < self.associated_types@.len() ==> items@[k]@ == assoc_type_line(
                        #[trigger] self.associated_types@[k],
                    ),
                forall|k: int|
                    0 <= k < j ==> items@[self.associated_types@.len() + k]@ == trait_method_line(
                        #[trigger] self.methods@[k],
                    ),
            decreases self.methods@.len() - j,
        {
            let m = &self.methods[j];
            let mut line = String::new();
            line.append("    ");
            line.append(m.signature.as_str());
            line.append(";");
            proof {
                assert(line@ =~= trait_method_line(self.methods@[j as int]));
            }
            items.push(line);
            j = j + 1;
        }
        proof {
            assert(views_of(items@) =~= self.associated_types@.map_values(
                |at: AssociatedType| assoc_type_line(at),
            ) + self.methods@.map_values(|m: TraitMethod| trait_method_line(m)));
        }
        let joined = join_strings(&items, "\n");
        r.append(" {\n");
        r.append(joined.as_str());
        r.append("\n}");
        proof {
            assert(r@ =~= self.spec_full_definition());
        }
        r
    }
}

impl ImplInfo {
    /// The impl head rendered as one line.
    pub open spec fn spec_full_definition(self) -> Seq<char> {
        match self.trait_name {
            Some(t) => (if self.is_unsafe {
                "unsafe "@
            } else {
                Seq::<char>::empty()
            }) + "impl"@ + generics_part(views_of(self.generics@)) + " "@ + (if self.is_negative {
                "!"@
            } else {
                Seq::<char>::empty()
            }) + t@ + " for "@ + self.self_ty@,
            None => "impl"@ + generics_part(views_of(self.generics@)) + " "@ + self.self_ty@,
        }
    }

    /// Renders the impl head as one line.
    pub fn full_definition(&self) -> (r: String)
        ensures
            r@ == self.spec_full_definition(),
    {
        let mut r = String::new();
        match &self.trait_name {
            Some(t) => {
                if self.is_unsafe {
                    r.append("unsafe ");
                }
                r.append("impl");
                append_generics(&mut r, &self.generics);
                r.append(" ");
                if self.is_negative {
                    r.append("!");
                }
                r.append(t.as_str());
                r.append(" for ");
                r.append(self.self_ty.as_str());
            },
            None => {
                r.append("impl");
                append_generics(&mut r, &self.generics);
                r.append(" ");
                r.append(self.self_ty.as_str());
            },
        }
        proof {
            assert(r@ =~= self.spec_full_definition());
        }
        r
    }
}

} // verus!
