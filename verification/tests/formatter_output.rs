use rustdoc_markdown::format::comma_separated;
use rustdoc_markdown::format::format_item;
use rustdoc_markdown::format::plus_separated;
use rustdoc_markdown::format::type_to_repr;
use rustdoc_markdown::model::DynTraitExpr;
use rustdoc_markdown::model::FormatError;
use rustdoc_markdown::model::GenericArgExpr;
use rustdoc_markdown::model::GenericArgsExpr;
use rustdoc_markdown::model::GenericBound;
use rustdoc_markdown::model::GenericParamDef;
use rustdoc_markdown::model::GenericParamDefKind;
use rustdoc_markdown::model::Generics;
use rustdoc_markdown::model::Item;
use rustdoc_markdown::model::ItemEnum;
use rustdoc_markdown::model::ItemIndex;
use rustdoc_markdown::model::PathExpr;
use rustdoc_markdown::model::PolyTrait;
use rustdoc_markdown::model::StructKind;
use rustdoc_markdown::model::TermExpr;
use rustdoc_markdown::model::TypeBinding;
use rustdoc_markdown::model::TypeBindingKind;
use rustdoc_markdown::model::TraitBoundModifier;
use rustdoc_markdown::model::TypeExpr;
use rustdoc_markdown::model::Visibility;
use rustdoc_markdown::model::WherePredicate;

fn item(name: Option<&str>, visibility: Visibility, inner: ItemEnum) -> Item {
    Item { name: name.map(|s| s.to_string()), visibility, attrs: Vec::new(), inner }
}

fn no_generics() -> Generics {
    Generics { params: Vec::new(), where_predicates: Vec::new() }
}

fn prim(name: &str) -> TypeExpr {
    TypeExpr::Primitive { name: name.to_string() }
}

fn bare_path(name: &str) -> PathExpr {
    PathExpr { name: name.to_string(), args: None }
}

fn trait_bound(name: &str) -> GenericBound {
    GenericBound::TraitBound {
        trait_: bare_path(name),
        generic_params: Vec::new(),
        modifier: TraitBoundModifier::Plain,
    }
}

#[test]
fn public_tuple_struct_renders_types_only() {
    let index = ItemIndex {
        items: vec![
            item(
                Some("Point"),
                Visibility::Public,
                ItemEnum::Struct {
                    kind: StructKind::Tuple { fields: vec![Some(1), Some(2)] },
                    generics: no_generics(),
                },
            ),
            item(None, Visibility::Public, ItemEnum::StructField { type_: prim("i32") }),
            item(None, Visibility::Public, ItemEnum::StructField { type_: prim("i32") }),
        ],
    };
    let r = format_item(&index, 0, false).unwrap();
    assert_eq!(r, vec!["pub struct Point(i32, i32)".to_string()]);
}

#[test]
fn tuple_struct_elided_slots_render_placeholder() {
    let index = ItemIndex {
        items: vec![
            item(
                Some("P"),
                Visibility::Public,
                ItemEnum::Struct {
                    kind: StructKind::Tuple { fields: vec![None, Some(1)] },
                    generics: no_generics(),
                },
            ),
            item(None, Visibility::Default, ItemEnum::StructField { type_: prim("u8") }),
        ],
    };
    let r = format_item(&index, 0, false).unwrap();
    assert_eq!(r, vec!["pub struct P(_, _)".to_string()]);
}

#[test]
fn self_reference_parameter_renders_bare() {
    let get_fn = ItemEnum::Function {
        inputs: vec![(
            "self".to_string(),
            TypeExpr::BorrowedRef {
                lifetime: None,
                is_mutable: false,
                type_: Box::new(TypeExpr::Generic { name: "Self".to_string() }),
            },
        )],
        output: Some(TypeExpr::BorrowedRef {
            lifetime: None,
            is_mutable: false,
            type_: Box::new(TypeExpr::Generic { name: "Self".to_string() }),
        }),
        is_const: false,
        is_unsafe: false,
        is_async: false,
        generics: no_generics(),
    };
    let index = ItemIndex { items: vec![item(Some("get"), Visibility::Public, get_fn)] };
    let r = format_item(&index, 0, false).unwrap();
    assert_eq!(r, vec!["pub fn get(&self) -> &Self".to_string()]);
}

#[test]
fn owned_self_parameter_renders_bare() {
    let f = ItemEnum::Function {
        inputs: vec![("self".to_string(), TypeExpr::Generic { name: "Self".to_string() })],
        output: None,
        is_const: false,
        is_unsafe: false,
        is_async: false,
        generics: no_generics(),
    };
    let index = ItemIndex { items: vec![item(Some("consume"), Visibility::Public, f)] };
    let r = format_item(&index, 0, false).unwrap();
    assert_eq!(r, vec!["pub fn consume(self)".to_string()]);
}

#[test]
fn associated_type_with_default_and_no_generics() {
    let at = ItemEnum::AssocType {
        generics: no_generics(),
        bounds: Vec::new(),
        default: Some(prim("u8")),
    };
    let index = ItemIndex { items: vec![item(Some("Item"), Visibility::Default, at)] };
    let r = format_item(&index, 0, true).unwrap();
    assert_eq!(r, vec!["type Item = u8;".to_string()]);
}

#[test]
fn non_public_node_renders_empty() {
    let index = ItemIndex {
        items: vec![
            item(
                Some("Hidden"),
                Visibility::Default,
                ItemEnum::Struct { kind: StructKind::Unit, generics: no_generics() },
            ),
            item(
                Some("CrateOnly"),
                Visibility::Crate,
                ItemEnum::Struct { kind: StructKind::Unit, generics: no_generics() },
            ),
            item(
                Some("Restricted"),
                Visibility::Restricted { path: "crate::inner".to_string() },
                ItemEnum::Struct { kind: StructKind::Unit, generics: no_generics() },
            ),
        ],
    };
    assert_eq!(format_item(&index, 0, false).unwrap(), Vec::<String>::new());
    assert_eq!(format_item(&index, 1, false).unwrap(), Vec::<String>::new());
    assert_eq!(format_item(&index, 1, true).unwrap(), Vec::<String>::new());
    assert_eq!(format_item(&index, 2, true).unwrap(), Vec::<String>::new());
}

#[test]
fn default_visibility_renders_inside_trait_gate() {
    let index = ItemIndex {
        items: vec![item(
            Some("Hidden"),
            Visibility::Default,
            ItemEnum::Struct { kind: StructKind::Unit, generics: no_generics() },
        )],
    };
    assert_eq!(format_item(&index, 0, true).unwrap(), vec!["struct Hidden".to_string()]);
}

#[test]
fn dyn_trait_single_bound_unparenthesized() {
    let t = TypeExpr::DynTrait {
        dyn_trait: DynTraitExpr {
            traits: vec![PolyTrait { trait_: bare_path("Debug"), generic_params: Vec::new() }],
            lifetime: None,
        },
    };
    assert_eq!(type_to_repr(&t).unwrap(), "dyn Debug");
}

#[test]
fn dyn_trait_with_lifetime_parenthesized() {
    let t = TypeExpr::DynTrait {
        dyn_trait: DynTraitExpr {
            traits: vec![PolyTrait { trait_: bare_path("Debug"), generic_params: Vec::new() }],
            lifetime: Some("'a".to_string()),
        },
    };
    assert_eq!(type_to_repr(&t).unwrap(), "dyn (Debug + 'a)");
}

#[test]
fn dyn_trait_two_bounds_parenthesized() {
    let t = TypeExpr::DynTrait {
        dyn_trait: DynTraitExpr {
            traits: vec![
                PolyTrait { trait_: bare_path("Debug"), generic_params: Vec::new() },
                PolyTrait { trait_: bare_path("Send"), generic_params: Vec::new() },
            ],
            lifetime: None,
        },
    };
    assert_eq!(type_to_repr(&t).unwrap(), "dyn (Debug + Send)");
}

#[test]
fn empty_generics_segment_is_absent() {
    let index = ItemIndex {
        items: vec![item(
            Some("S"),
            Visibility::Public,
            ItemEnum::Struct { kind: StructKind::Unit, generics: no_generics() },
        )],
    };
    assert_eq!(format_item(&index, 0, false).unwrap(), vec!["pub struct S".to_string()]);
}

#[test]
fn generic_function_with_where_clause() {
    let generics = Generics {
        params: vec![GenericParamDef {
            name: "T".to_string(),
            kind: GenericParamDefKind::TypeParam {
                bounds: Vec::new(),
                default: None,
                synthetic: false,
            },
        }],
        where_predicates: vec![WherePredicate::BoundPredicate {
            type_: TypeExpr::Generic { name: "T".to_string() },
            bounds: vec![trait_bound("Clone")],
            generic_params: Vec::new(),
        }],
    };
    let f = ItemEnum::Function {
        inputs: vec![("value".to_string(), TypeExpr::Generic { name: "T".to_string() })],
        output: None,
        is_const: false,
        is_unsafe: false,
        is_async: true,
        generics,
    };
    let index = ItemIndex { items: vec![item(Some("run"), Visibility::Public, f)] };
    let r = format_item(&index, 0, false).unwrap();
    assert_eq!(r, vec!["pub async fn run<T>(value: T) where T: Clone".to_string()]);
}

#[test]
fn synthetic_type_parameter_suppressed_from_list() {
    let generics = Generics {
        params: vec![
            GenericParamDef {
                name: "T".to_string(),
                kind: GenericParamDefKind::TypeParam {
                    bounds: Vec::new(),
                    default: None,
                    synthetic: false,
                },
            },
            GenericParamDef {
                name: "impl Trait".to_string(),
                kind: GenericParamDefKind::TypeParam {
                    bounds: Vec::new(),
                    default: None,
                    synthetic: true,
                },
            },
        ],
        where_predicates: Vec::new(),
    };
    let f = ItemEnum::Function {
        inputs: Vec::new(),
        output: None,
        is_const: false,
        is_unsafe: false,
        is_async: false,
        generics,
    };
    let index = ItemIndex { items: vec![item(Some("f"), Visibility::Public, f)] };
    let r = format_item(&index, 0, false).unwrap();
    assert_eq!(r, vec!["pub fn f<T>()".to_string()]);
}

#[test]
fn module_flattens_children_in_order() {
    let index = ItemIndex {
        items: vec![
            item(Some("root"), Visibility::Public, ItemEnum::Module { items: vec![1, 2, 3] }),
            item(
                Some("A"),
                Visibility::Public,
                ItemEnum::Struct { kind: StructKind::Unit, generics: no_generics() },
            ),
            item(Some("use_item"), Visibility::Public, ItemEnum::Import),
            item(
                Some("B"),
                Visibility::Public,
                ItemEnum::Struct { kind: StructKind::Unit, generics: no_generics() },
            ),
        ],
    };
    let r = format_item(&index, 0, false).unwrap();
    assert_eq!(r, vec!["pub struct A".to_string(), "pub struct B".to_string()]);
}

#[test]
fn unresolved_child_is_a_fatal_error_with_path() {
    let index = ItemIndex {
        items: vec![item(Some("m"), Visibility::Public, ItemEnum::Module { items: vec![9] })],
    };
    match format_item(&index, 0, false) {
        Err(FormatError::UnresolvedReference { id, path }) => {
            assert_eq!(id, 9);
            assert_eq!(path, vec!["m".to_string()]);
        },
        other => panic!("expected an unresolved reference, got {:?}", other.is_ok()),
    }
}

#[test]
fn unsupported_kind_is_a_typed_error_with_path() {
    let index = ItemIndex {
        items: vec![
            item(Some("m"), Visibility::Public, ItemEnum::Module { items: vec![1] }),
            item(
                Some("E"),
                Visibility::Public,
                ItemEnum::Unsupported { kind: "enum".to_string() },
            ),
        ],
    };
    match format_item(&index, 0, false) {
        Err(FormatError::UnsupportedConstruct { kind, path }) => {
            assert_eq!(kind, "enum");
            assert_eq!(path, vec!["E".to_string(), "m".to_string()]);
        },
        _ => panic!("expected an unsupported construct"),
    }
}

#[test]
fn unsupported_type_error_names_containing_declarations() {
    let index = ItemIndex {
        items: vec![
            item(
                Some("S"),
                Visibility::Public,
                ItemEnum::Struct {
                    kind: StructKind::Plain { fields: vec![1], has_stripped_fields: false },
                    generics: no_generics(),
                },
            ),
            item(
                Some("x"),
                Visibility::Public,
                ItemEnum::StructField {
                    type_: TypeExpr::Unsupported { kind: "function pointer".to_string() },
                },
            ),
        ],
    };
    match format_item(&index, 0, false) {
        Err(FormatError::UnsupportedConstruct { kind, path }) => {
            assert_eq!(kind, "function pointer");
            assert_eq!(path, vec!["x".to_string(), "S".to_string()]);
        },
        _ => panic!("expected an unsupported construct"),
    }
}

#[test]
fn plain_struct_with_marker_and_stripped_fields() {
    let mut s = item(
        Some("S"),
        Visibility::Public,
        ItemEnum::Struct {
            kind: StructKind::Plain { fields: vec![1], has_stripped_fields: true },
            generics: no_generics(),
        },
    );
    s.attrs.push("#[non_exhaustive]".to_string());
    let index = ItemIndex {
        items: vec![
            s,
            item(Some("a"), Visibility::Public, ItemEnum::StructField { type_: prim("u8") }),
        ],
    };
    let r = format_item(&index, 0, false).unwrap();
    assert_eq!(
        r,
        vec!["#[non_exhaustive]\npub struct S {\n    pub a: u8,/* private fields */\n}".to_string()]
    );
}

#[test]
fn plain_struct_without_fields_or_markers() {
    let index = ItemIndex {
        items: vec![item(
            Some("Empty"),
            Visibility::Public,
            ItemEnum::Struct {
                kind: StructKind::Plain { fields: Vec::new(), has_stripped_fields: false },
                generics: no_generics(),
            },
        )],
    };
    let r = format_item(&index, 0, false).unwrap();
    assert_eq!(r, vec!["pub struct Empty {}".to_string()]);
}

#[test]
fn trait_with_associated_items() {
    let index = ItemIndex {
        items: vec![
            item(
                Some("Producer"),
                Visibility::Public,
                ItemEnum::Trait {
                    is_auto: false,
                    is_unsafe: true,
                    items: vec![1, 2],
                    generics: no_generics(),
                    bounds: vec![trait_bound("Send")],
                },
            ),
            item(
                Some("Item"),
                Visibility::Default,
                ItemEnum::AssocType {
                    generics: no_generics(),
                    bounds: vec![trait_bound("Clone")],
                    default: None,
                },
            ),
            item(
                Some("LIMIT"),
                Visibility::Default,
                ItemEnum::AssocConst { type_: prim("usize"), default: Some("16".to_string()) },
            ),
        ],
    };
    let r = format_item(&index, 0, false).unwrap();
    assert_eq!(
        r,
        vec![
            "pub unsafe trait Producer: Send {\n    type Item Clone;\n    const LIMIT: usize = 16;\n}"
                .to_string()
        ]
    );
}

#[test]
fn type_expressions_render_canonically() {
    assert_eq!(
        type_to_repr(&TypeExpr::Slice { type_: Box::new(prim("u8")) }).unwrap(),
        "[u8]"
    );
    assert_eq!(
        type_to_repr(&TypeExpr::Array { type_: Box::new(prim("u8")), len: "4".to_string() })
            .unwrap(),
        "[u8; 4]"
    );
    assert_eq!(
        type_to_repr(&TypeExpr::RawPointer { is_mutable: true, type_: Box::new(prim("u8")) })
            .unwrap(),
        "*mut u8"
    );
    assert_eq!(
        type_to_repr(&TypeExpr::RawPointer { is_mutable: false, type_: Box::new(prim("u8")) })
            .unwrap(),
        "*const u8"
    );
    assert_eq!(
        type_to_repr(&TypeExpr::BorrowedRef {
            lifetime: Some("'a".to_string()),
            is_mutable: true,
            type_: Box::new(prim("str")),
        })
        .unwrap(),
        "&'a mut str"
    );
    assert_eq!(
        type_to_repr(&TypeExpr::ImplTrait {
            bounds: vec![trait_bound("Iterator"), GenericBound::Outlives {
                lifetime: "'a".to_string()
            }],
        })
        .unwrap(),
        "impl Iterator + ''a"
    );
}

#[test]
fn qualified_path_renders_with_and_without_trait() {
    let with_trait = TypeExpr::QualifiedPath {
        name: "Output".to_string(),
        args: Box::new(GenericArgsExpr::AngleBracketed {
            args: Vec::new(),
            bindings: Vec::new(),
        }),
        self_type: Box::new(TypeExpr::Generic { name: "T".to_string() }),
        trait_: Some(bare_path("Add")),
    };
    assert_eq!(type_to_repr(&with_trait).unwrap(), "<T as Add>::Output");
    let without_trait = TypeExpr::QualifiedPath {
        name: "Output".to_string(),
        args: Box::new(GenericArgsExpr::AngleBracketed {
            args: Vec::new(),
            bindings: Vec::new(),
        }),
        self_type: Box::new(TypeExpr::Generic { name: "T".to_string() }),
        trait_: None,
    };
    assert_eq!(type_to_repr(&without_trait).unwrap(), "T::Output");
}

#[test]
fn use_capture_bound_renders_names() {
    let t = TypeExpr::ImplTrait {
        bounds: vec![
            trait_bound("Sized"),
            GenericBound::UseCapture { names: vec!["'a".to_string(), "T".to_string()] },
        ],
    };
    assert_eq!(type_to_repr(&t).unwrap(), "impl Sized + use<'a, T>");
}

#[test]
fn maybe_modifier_renders_question_mark() {
    let t = TypeExpr::ImplTrait {
        bounds: vec![GenericBound::TraitBound {
            trait_: bare_path("Sized"),
            generic_params: Vec::new(),
            modifier: TraitBoundModifier::Maybe,
        }],
    };
    assert_eq!(type_to_repr(&t).unwrap(), "impl Sized?");
}

#[test]
fn separators_join_rendered_parts() {
    let parts = vec!["a".to_string(), "b".to_string(), "c".to_string()];
    assert_eq!(comma_separated(&parts), "a, b, c");
    assert_eq!(plus_separated(&parts), "a + b + c");
    assert_eq!(comma_separated(&Vec::new()), "");
    assert_eq!(plus_separated(&vec!["solo".to_string()]), "solo");
}

#[test]
fn trait_without_items_renders_empty_body() {
    let index = ItemIndex {
        items: vec![item(
            Some("Marker"),
            Visibility::Public,
            ItemEnum::Trait {
                is_auto: true,
                is_unsafe: false,
                items: Vec::new(),
                generics: no_generics(),
                bounds: Vec::new(),
            },
        )],
    };
    let r = format_item(&index, 0, false).unwrap();
    assert_eq!(r, vec!["pub auto trait Marker {\n}".to_string()]);
}

#[test]
fn parenthesized_arguments_render_like_closures() {
    let t = TypeExpr::ResolvedPath {
        path: PathExpr {
            name: "Fn".to_string(),
            args: Some(Box::new(GenericArgsExpr::Parenthesized {
                inputs: vec![prim("u8"), prim("u16")],
                output: Some(prim("bool")),
            })),
        },
    };
    assert_eq!(type_to_repr(&t).unwrap(), "Fn(u8, u16) -> bool");
}

#[test]
fn associated_type_binding_inside_angle_brackets() {
    let t = TypeExpr::ResolvedPath {
        path: PathExpr {
            name: "Iterator".to_string(),
            args: Some(Box::new(GenericArgsExpr::AngleBracketed {
                args: Vec::new(),
                bindings: vec![TypeBinding {
                    name: "Item".to_string(),
                    args: GenericArgsExpr::AngleBracketed {
                        args: Vec::new(),
                        bindings: Vec::new(),
                    },
                    binding: TypeBindingKind::Equality {
                        term: TermExpr::TypeTerm { type_: prim("u32") },
                    },
                }],
            })),
        },
    };
    assert_eq!(type_to_repr(&t).unwrap(), "Iterator<Item = u32>");
}

#[test]
fn const_and_lifetime_parameters_render_their_kinds() {
    let generics = Generics {
        params: vec![
            GenericParamDef {
                name: "'a".to_string(),
                kind: GenericParamDefKind::Lifetime {
                    outlives: vec!["'b".to_string(), "'c".to_string()],
                },
            },
            GenericParamDef {
                name: "N".to_string(),
                kind: GenericParamDefKind::ConstParam {
                    type_: prim("usize"),
                    default: Some("8".to_string()),
                },
            },
        ],
        where_predicates: Vec::new(),
    };
    let f = ItemEnum::Function {
        inputs: Vec::new(),
        output: None,
        is_const: true,
        is_unsafe: true,
        is_async: false,
        generics,
    };
    let index = ItemIndex { items: vec![item(Some("mix"), Visibility::Public, f)] };
    let r = format_item(&index, 0, false).unwrap();
    assert_eq!(r, vec!["pub const unsafe fn mix<'a: 'b + 'c, N: const usize = 8>()".to_string()]);
}

#[test]
fn generic_argument_list_renders_in_order() {
    let t = TypeExpr::ResolvedPath {
        path: PathExpr {
            name: "Cow".to_string(),
            args: Some(Box::new(GenericArgsExpr::AngleBracketed {
                args: vec![
                    GenericArgExpr::Lifetime { name: "'a".to_string() },
                    GenericArgExpr::TypeArg { type_: prim("str") },
                    GenericArgExpr::Infer,
                ],
                bindings: Vec::new(),
            })),
        },
    };
    assert_eq!(type_to_repr(&t).unwrap(), "Cow<'a, str, _>");
}

#[test]
fn tuple_struct_keeps_where_clause() {
    let generics = Generics {
        params: vec![GenericParamDef {
            name: "T".to_string(),
            kind: GenericParamDefKind::TypeParam {
                bounds: Vec::new(),
                default: None,
                synthetic: false,
            },
        }],
        where_predicates: vec![WherePredicate::BoundPredicate {
            type_: TypeExpr::Generic { name: "T".to_string() },
            bounds: vec![trait_bound("Clone")],
            generic_params: Vec::new(),
        }],
    };
    let index = ItemIndex {
        items: vec![
            item(
                Some("W"),
                Visibility::Public,
                ItemEnum::Struct {
                    kind: StructKind::Tuple { fields: vec![Some(1)] },
                    generics,
                },
            ),
            item(
                None,
                Visibility::Public,
                ItemEnum::StructField { type_: TypeExpr::Generic { name: "T".to_string() } },
            ),
        ],
    };
    let r = format_item(&index, 0, false).unwrap();
    assert_eq!(r, vec!["pub struct W<T>(T) where T: Clone".to_string()]);
}
