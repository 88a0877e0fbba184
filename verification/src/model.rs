use vstd::prelude::*;

verus! {

/// Who can see a declaration. Gates whether a node contributes output.
pub enum Visibility {
    Public,
    /// Private to the enclosing module; rendered only inside a trait body.
    Default,
    Crate,
    Restricted { path: String },
}

/// A (possibly generic) path to a named type or trait.
pub struct PathExpr {
    pub name: String,
    pub args: Option<Box<GenericArgsExpr>>,
}

/// The generic arguments attached to a path segment.
pub enum GenericArgsExpr {
    AngleBracketed { args: Vec<GenericArgExpr>, bindings: Vec<TypeBinding> },
    Parenthesized { inputs: Vec<TypeExpr>, output: Option<TypeExpr> },
}

pub enum GenericArgExpr {
    Lifetime { name: String },
    TypeArg { type_: TypeExpr },
    Infer,
    /// A recognized argument form this renderer does not support.
    Unsupported { kind: String },
}

/// An associated-type binding inside angle brackets.
pub struct TypeBinding {
    pub name: String,
    pub args: GenericArgsExpr,
    pub binding: TypeBindingKind,
}

pub enum TypeBindingKind {
    Equality { term: TermExpr },
    Constraint { bounds: Vec<GenericBound> },
}

pub enum TermExpr {
    TypeTerm { type_: TypeExpr },
    /// A recognized term form this renderer does not support.
    Unsupported { kind: String },
}

/// A type expression.
pub enum TypeExpr {
    ResolvedPath { path: PathExpr },
    DynTrait { dyn_trait: DynTraitExpr },
    /// A reference to a generic parameter, by name.
    Generic { name: String },
    Primitive { name: String },
    Slice { type_: Box<TypeExpr> },
    Array { type_: Box<TypeExpr>, len: String },
    ImplTrait { bounds: Vec<GenericBound> },
    RawPointer { is_mutable: bool, type_: Box<TypeExpr> },
    BorrowedRef { lifetime: Option<String>, is_mutable: bool, type_: Box<TypeExpr> },
    QualifiedPath {
        name: String,
        args: Box<GenericArgsExpr>,
        self_type: Box<TypeExpr>,
        trait_: Option<PathExpr>,
    },
    /// A recognized type form this renderer does not support.
    Unsupported { kind: String },
}

/// A trait-object type: its bounds and an optional lifetime.
pub struct DynTraitExpr {
    pub traits: Vec<PolyTrait>,
    pub lifetime: Option<String>,
}

/// One bound of a trait object, with its higher-rank parameters.
pub struct PolyTrait {
    pub trait_: PathExpr,
    pub generic_params: Vec<GenericParamDef>,
}

pub enum TraitBoundModifier {
    Plain,
    Maybe,
    MaybeConst,
}

pub enum GenericBound {
    TraitBound {
        trait_: PathExpr,
        generic_params: Vec<GenericParamDef>,
        modifier: TraitBoundModifier,
    },
    Outlives { lifetime: String },
    UseCapture { names: Vec<String> },
}

pub struct GenericParamDef {
    pub name: String,
    pub kind: GenericParamDefKind,
}

pub enum GenericParamDefKind {
    Lifetime { outlives: Vec<String> },
    TypeParam { bounds: Vec<GenericBound>, default: Option<TypeExpr>, synthetic: bool },
    ConstParam { type_: TypeExpr, default: Option<String> },
}

/// A generics clause: the parameter list and the where-clause predicates.
pub struct Generics {
    pub params: Vec<GenericParamDef>,
    pub where_predicates: Vec<WherePredicate>,
}

pub enum WherePredicate {
    BoundPredicate {
        type_: TypeExpr,
        bounds: Vec<GenericBound>,
        generic_params: Vec<GenericParamDef>,
    },
    LifetimePredicate { lifetime: String, outlives: Vec<String> },
    EqPredicate { lhs: TypeExpr, rhs: TermExpr },
}

/// The shape of a struct body. Child identifiers refer into the item index.
pub enum StructKind {
    Unit,
    /// A missing slot marks an elided field.
    Tuple { fields: Vec<Option<usize>> },
    Plain { fields: Vec<usize>, has_stripped_fields: bool },
}

/// What one declaration is.
pub enum ItemEnum {
    Module { items: Vec<usize> },
    /// An import or extern-crate declaration: contributes nothing.
    Import,
    Struct { kind: StructKind, generics: Generics },
    StructField { type_: TypeExpr },
    Function {
        inputs: Vec<(String, TypeExpr)>,
        output: Option<TypeExpr>,
        is_const: bool,
        is_unsafe: bool,
        is_async: bool,
        generics: Generics,
    },
    Trait {
        is_auto: bool,
        is_unsafe: bool,
        items: Vec<usize>,
        generics: Generics,
        bounds: Vec<GenericBound>,
    },
    AssocConst { type_: TypeExpr, default: Option<String> },
    AssocType { generics: Generics, bounds: Vec<GenericBound>, default: Option<TypeExpr> },
    /// A recognized declaration kind this renderer does not support.
    Unsupported { kind: String },
}

/// One declaration node: its name, visibility, raw attributes and content.
pub struct Item {
    pub name: Option<String>,
    pub visibility: Visibility,
    pub attrs: Vec<String>,
    pub inner: ItemEnum,
}

/// The read-only arena of declaration nodes; an identifier is a position in
/// the arena.
pub struct ItemIndex {
    pub items: Vec<Item>,
}

/// How formatting fails. The path lists the names of the containing
/// declarations, innermost first.
#[derive(Debug)]
pub enum FormatError {
    /// An identifier with no node in the index: malformed input.
    UnresolvedReference { id: usize, path: Vec<String> },
    /// A recognized but unsupported construct; callers can skip or report
    /// the named kind.
    UnsupportedConstruct { kind: String, path: Vec<String> },
}

/// The mathematical value of a formatting failure.
pub enum RenderErr {
    Unresolved { id: int, path: Seq<Seq<char>> },
    Unsupported { kind: Seq<char>, path: Seq<Seq<char>> },
}

/// The mathematical value of a list of rendered strings.
pub open spec fn strs_view(v: Seq<String>) -> Seq<Seq<char>> {
    v.map_values(|s: String| s@)
}

pub open spec fn err_view(e: FormatError) -> RenderErr {
    match e {
        FormatError::UnresolvedReference { id, path } => RenderErr::Unresolved {
            id: id as int,
            path: strs_view(path@),
        },
        FormatError::UnsupportedConstruct { kind, path } => RenderErr::Unsupported {
            kind: kind@,
            path: strs_view(path@),
        },
    }
}

pub open spec fn str_result_view(r: Result<String, FormatError>) -> Result<Seq<char>, RenderErr> {
    match r {
        Result::Ok(s) => Result::Ok(s@),
        Result::Err(e) => Result::Err(err_view(e)),
    }
}

pub open spec fn strings_result_view(r: Result<Vec<String>, FormatError>) -> Result<
    Seq<Seq<char>>,
    RenderErr,
> {
    match r {
        Result::Ok(v) => Result::Ok(strs_view(v@)),
        Result::Err(e) => Result::Err(err_view(e)),
    }
}

/// The identifiers a struct body refers to.
pub open spec fn struct_kind_children(kind: StructKind) -> Seq<usize> {
    match kind {
        StructKind::Unit => Seq::empty(),
        StructKind::Tuple { fields } => fields@.filter(|o: Option<usize>| o is Some).map_values(
            |o: Option<usize>| o->0,
        ),
        StructKind::Plain { fields, has_stripped_fields } => fields@,
    }
}

/// The identifiers a declaration refers to as its children.
pub open spec fn item_children(it: Item) -> Seq<usize> {
    match it.inner {
        ItemEnum::Module { items } => items@,
        ItemEnum::Struct { kind, generics } => struct_kind_children(kind),
        ItemEnum::Trait { is_auto, is_unsafe, items, generics, bounds } => items@,
        _ => Seq::empty(),
    }
}

/// Whether a declaration kind carries a name.
pub open spec fn kind_carries_name(inner: ItemEnum) -> bool {
    match inner {
        ItemEnum::Struct { .. } => true,
        ItemEnum::Function { .. } => true,
        ItemEnum::Trait { .. } => true,
        ItemEnum::AssocConst { .. } => true,
        ItemEnum::AssocType { .. } => true,
        _ => false,
    }
}

/// Well-formedness of an index: child references only point forward (the
/// description graph is acyclic, presented in topological order), and every
/// named declaration kind carries its name. Resolution is not part of it: a
/// child identifier may still miss the arena, which formatting reports as an
/// unresolved reference.
pub open spec fn wf_index(items: Seq<Item>) -> bool {
    &&& forall|i: int, k: int|
        0 <= i < items.len() && 0 <= k < item_children(items[i]).len()
            ==> item_children(items[i])[k] > i
    &&& forall|i: int|
        0 <= i < items.len() && kind_carries_name(items[i].inner) ==> items[i].name is Some
}

impl ItemIndex {
    pub open spec fn wf(&self) -> bool {
        wf_index(self.items@)
    }
}

} // verus!
