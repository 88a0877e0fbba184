use vstd::prelude::*;

use crate::model::Item;
use crate::model::ItemEnum;
use crate::model::StructKind;
use crate::model::wf_index;
use crate::model::GenericArgExpr;
use crate::model::GenericArgsExpr;
use crate::model::GenericBound;
use crate::model::GenericParamDef;
use crate::model::GenericParamDefKind;
use crate::model::Generics;
use crate::model::DynTraitExpr;
use crate::model::PathExpr;
use crate::model::PolyTrait;
use crate::model::RenderErr;
use crate::model::TermExpr;
use crate::model::TraitBoundModifier;
use crate::model::TypeBinding;
use crate::model::TypeBindingKind;
use crate::model::TypeExpr;
use crate::model::Visibility;
use crate::model::WherePredicate;
use crate::model::strs_view;
use crate::spec_join;

verus! {

/// Comma-joined list, as used inside angle brackets and parameter lists.
pub open spec fn comma_join(parts: Seq<Seq<char>>) -> Seq<char> {
    spec_join(parts, ", "@)
}

/// Plus-joined list, as used for trait-bound and lifetime conjunctions.
pub open spec fn plus_join(parts: Seq<Seq<char>>) -> Seq<char> {
    spec_join(parts, " + "@)
}

/// How a visibility renders on its own.
pub open spec fn vis_repr(v: Visibility) -> Seq<char> {
    match v {
        Visibility::Public => "pub"@,
        Visibility::Default => Seq::empty(),
        Visibility::Crate => "pub(crate)"@,
        Visibility::Restricted { path } => "pub(in "@ + path@ + ")"@,
    }
}

/// The visibility with the space that separates a non-empty one from what
/// follows it.
pub open spec fn vis_prefix(v: Visibility) -> Seq<char> {
    if vis_repr(v).len() == 0 {
        vis_repr(v)
    } else {
        vis_repr(v) + " "@
    }
}

pub open spec fn modifier_repr(m: TraitBoundModifier) -> Seq<char> {
    match m {
        TraitBoundModifier::Plain => Seq::empty(),
        TraitBoundModifier::Maybe => "?"@,
        TraitBoundModifier::MaybeConst => "?const"@,
    }
}

/// A name followed by its kind segment, the two separated by a colon when
/// the kind segment is not empty.
pub open spec fn named_with_kind(name: Seq<char>, kind: Seq<char>) -> Seq<char> {
    if kind.len() == 0 {
        name
    } else {
        name + ": "@ + kind
    }
}

pub open spec fn unsupported_err(kind: Seq<char>) -> RenderErr {
    RenderErr::Unsupported { kind, path: Seq::empty() }
}

/// The canonical text of a type expression, or the first failure inside it.
pub open spec fn type_result(t: TypeExpr) -> Result<Seq<char>, RenderErr>
    decreases t,
{
    match t {
        TypeExpr::ResolvedPath { path } => path_result(path),
        TypeExpr::DynTrait { dyn_trait } => dyn_result(dyn_trait),
        TypeExpr::Generic { name } => Result::Ok(name@),
        TypeExpr::Primitive { name } => Result::Ok(name@),
        TypeExpr::Slice { type_ } => match type_result(*type_) {
            Result::Ok(s) => Result::Ok("["@ + s + "]"@),
            Result::Err(e) => Result::Err(e),
        },
        TypeExpr::Array { type_, len } => match type_result(*type_) {
            Result::Ok(s) => Result::Ok("["@ + s + "; "@ + len@ + "]"@),
            Result::Err(e) => Result::Err(e),
        },
        TypeExpr::ImplTrait { bounds } => match bounds_results(bounds@) {
            Result::Ok(rs) => Result::Ok("impl "@ + plus_join(rs)),
            Result::Err(e) => Result::Err(e),
        },
        TypeExpr::RawPointer { is_mutable, type_ } => match type_result(*type_) {
            Result::Ok(s) => Result::Ok(
                (if is_mutable {
                    "*mut "@
                } else {
                    "*const "@
                }) + s,
            ),
            Result::Err(e) => Result::Err(e),
        },
        TypeExpr::BorrowedRef { lifetime, is_mutable, type_ } => match type_result(*type_) {
            Result::Ok(s) => Result::Ok(
                "&"@ + (match lifetime {
                    Option::Some(l) => l@ + " "@,
                    Option::None => Seq::empty(),
                }) + (if is_mutable {
                    "mut "@
                } else {
                    Seq::empty()
                }) + s,
            ),
            Result::Err(e) => Result::Err(e),
        },
        TypeExpr::QualifiedPath { name, args, self_type, trait_ } => match type_result(
            *self_type,
        ) {
            Result::Ok(selfs) => {
                let base_r = match trait_ {
                    Option::Some(tp) => match path_result(tp) {
                        Result::Ok(tr) => Result::Ok(
                            if tr.len() > 0 {
                                "<"@ + selfs + " as "@ + tr + ">"@
                            } else {
                                selfs
                            },
                        ),
                        Result::Err(e) => Result::Err(e),
                    },
                    Option::None => Result::Ok(selfs),
                };
                match base_r {
                    Result::Ok(base) => match args_result(*args) {
                        Result::Ok(a) => Result::Ok(base + "::"@ + name@ + a),
                        Result::Err(e) => Result::Err(e),
                    },
                    Result::Err(e) => Result::Err(e),
                }
            },
            Result::Err(e) => Result::Err(e),
        },
        TypeExpr::Unsupported { kind } => Result::Err(unsupported_err(kind@)),
    }
}

/// A trait-object type: plus-joined bounds, the lifetime as one more joined
/// item, parentheses exactly when there is more than one item, then the
/// `dyn` prefix.
pub open spec fn dyn_result(dt: DynTraitExpr) -> Result<Seq<char>, RenderErr>
    decreases dt,
{
    match polytraits_results(dt.traits@) {
        Result::Ok(rs) => {
            let joined = plus_join(rs);
            let with_lt = match dt.lifetime {
                Option::Some(l) => joined + " + "@ + l@,
                Option::None => joined,
            };
            let items = dt.traits@.len() + (match dt.lifetime {
                Option::Some(l) => 1int,
                Option::None => 0int,
            });
            Result::Ok(
                "dyn "@ + (if items > 1 {
                    "("@ + with_lt + ")"@
                } else {
                    with_lt
                }),
            )
        },
        Result::Err(e) => Result::Err(e),
    }
}

pub open spec fn polytrait_result(pt: PolyTrait) -> Result<Seq<char>, RenderErr>
    decreases pt,
{
    match path_result(pt.trait_) {
        Result::Ok(tr) => match params_results(pt.generic_params@) {
            Result::Ok(ps) => {
                let gs = comma_join(ps);
                Result::Ok(
                    if gs.len() > 0 {
                        gs + " "@ + tr
                    } else {
                        tr
                    },
                )
            },
            Result::Err(e) => Result::Err(e),
        },
        Result::Err(e) => Result::Err(e),
    }
}

pub open spec fn polytraits_results(ts: Seq<PolyTrait>) -> Result<Seq<Seq<char>>, RenderErr>
    decreases ts,
{
    if ts.len() == 0 {
        Result::Ok(Seq::empty())
    } else {
        match polytrait_result(ts[0]) {
            Result::Ok(s) => match polytraits_results(ts.subrange(1, ts.len() as int)) {
                Result::Ok(rest) => Result::Ok(seq![s] + rest),
                Result::Err(e) => Result::Err(e),
            },
            Result::Err(e) => Result::Err(e),
        }
    }
}

pub open spec fn path_result(p: PathExpr) -> Result<Seq<char>, RenderErr>
    decreases p,
{
    match p.args {
        Option::None => Result::Ok(p.name@),
        Option::Some(bx) => match args_result(*bx) {
            Result::Ok(a) => Result::Ok(p.name@ + a),
            Result::Err(e) => Result::Err(e),
        },
    }
}

/// Generic arguments: empty when there is nothing to show, else angle
/// brackets around the comma-joined arguments and then bindings; the
/// parenthesized form lists inputs and an optional output.
pub open spec fn args_result(ga: GenericArgsExpr) -> Result<Seq<char>, RenderErr>
    decreases ga,
{
    match ga {
        GenericArgsExpr::AngleBracketed { args, bindings } => match gargs_results(args@) {
            Result::Ok(ars) => match bindings_results(bindings@) {
                Result::Ok(brs) => {
                    let s0 = comma_join(ars);
                    let s1 = if bindings@.len() > 0 {
                        if s0.len() > 0 {
                            s0 + ", "@ + comma_join(brs)
                        } else {
                            comma_join(brs)
                        }
                    } else {
                        s0
                    };
                    Result::Ok(
                        if s1.len() > 0 {
                            "<"@ + s1 + ">"@
                        } else {
                            Seq::empty()
                        },
                    )
                },
                Result::Err(e) => Result::Err(e),
            },
            Result::Err(e) => Result::Err(e),
        },
        GenericArgsExpr::Parenthesized { inputs, output } => match types_results(inputs@) {
            Result::Ok(irs) => {
                let base = "("@ + comma_join(irs) + ")"@;
                match output {
                    Option::None => Result::Ok(base),
                    Option::Some(o) => match type_result(o) {
                        Result::Ok(os) => Result::Ok(base + " -> "@ + os),
                        Result::Err(e) => Result::Err(e),
                    },
                }
            },
            Result::Err(e) => Result::Err(e),
        },
    }
}

pub open spec fn garg_result(a: GenericArgExpr) -> Result<Seq<char>, RenderErr>
    decreases a,
{
    match a {
        GenericArgExpr::Lifetime { name } => Result::Ok(name@),
        GenericArgExpr::TypeArg { type_ } => type_result(type_),
        GenericArgExpr::Infer => Result::Ok("_"@),
        GenericArgExpr::Unsupported { kind } => Result::Err(unsupported_err(kind@)),
    }
}

pub open spec fn gargs_results(args: Seq<GenericArgExpr>) -> Result<Seq<Seq<char>>, RenderErr>
    decreases args,
{
    if args.len() == 0 {
        Result::Ok(Seq::empty())
    } else {
        match garg_result(args[0]) {
            Result::Ok(s) => match gargs_results(args.subrange(1, args.len() as int)) {
                Result::Ok(rest) => Result::Ok(seq![s] + rest),
                Result::Err(e) => Result::Err(e),
            },
            Result::Err(e) => Result::Err(e),
        }
    }
}

pub open spec fn term_result(term: TermExpr) -> Result<Seq<char>, RenderErr>
    decreases term,
{
    match term {
        TermExpr::TypeTerm { type_ } => type_result(type_),
        TermExpr::Unsupported { kind } => Result::Err(unsupported_err(kind@)),
    }
}

pub open spec fn binding_kind_result(k: TypeBindingKind) -> Result<Seq<char>, RenderErr>
    decreases k,
{
    match k {
        TypeBindingKind::Equality { term } => match term_result(term) {
            Result::Ok(t) => Result::Ok("= "@ + t),
            Result::Err(e) => Result::Err(e),
        },
        TypeBindingKind::Constraint { bounds } => match bounds_results(bounds@) {
            Result::Ok(bs) => Result::Ok(plus_join(bs)),
            Result::Err(e) => Result::Err(e),
        },
    }
}

pub open spec fn binding_result(b: TypeBinding) -> Result<Seq<char>, RenderErr>
    decreases b,
{
    match args_result(b.args) {
        Result::Ok(a) => match binding_kind_result(b.binding) {
            Result::Ok(k) => {
                let s = b.name@ + (if a.len() > 0 {
                    " "@ + a
                } else {
                    Seq::empty()
                });
                Result::Ok(
                    s + (if k.len() > 0 {
                        " "@ + k
                    } else {
                        Seq::empty()
                    }),
                )
            },
            Result::Err(e) => Result::Err(e),
        },
        Result::Err(e) => Result::Err(e),
    }
}

pub open spec fn bindings_results(bs: Seq<TypeBinding>) -> Result<Seq<Seq<char>>, RenderErr>
    decreases bs,
{
    if bs.len() == 0 {
        Result::Ok(Seq::empty())
    } else {
        match binding_result(bs[0]) {
            Result::Ok(s) => match bindings_results(bs.subrange(1, bs.len() as int)) {
                Result::Ok(rest) => Result::Ok(seq![s] + rest),
                Result::Err(e) => Result::Err(e),
            },
            Result::Err(e) => Result::Err(e),
        }
    }
}

pub open spec fn types_results(ts: Seq<TypeExpr>) -> Result<Seq<Seq<char>>, RenderErr>
    decreases ts,
{
    if ts.len() == 0 {
        Result::Ok(Seq::empty())
    } else {
        match type_result(ts[0]) {
            Result::Ok(s) => match types_results(ts.subrange(1, ts.len() as int)) {
                Result::Ok(rest) => Result::Ok(seq![s] + rest),
                Result::Err(e) => Result::Err(e),
            },
            Result::Err(e) => Result::Err(e),
        }
    }
}

pub open spec fn bound_result(b: GenericBound) -> Result<Seq<char>, RenderErr>
    decreases b,
{
    match b {
        GenericBound::TraitBound { trait_, generic_params, modifier } => match path_result(
            trait_,
        ) {
            Result::Ok(tr) => match params_results(generic_params@) {
                Result::Ok(ps) => {
                    let gp = if generic_params@.len() > 0 {
                        "<"@ + comma_join(ps) + ">"@
                    } else {
                        Seq::empty()
                    };
                    Result::Ok(tr + gp + modifier_repr(modifier))
                },
                Result::Err(e) => Result::Err(e),
            },
            Result::Err(e) => Result::Err(e),
        },
        GenericBound::Outlives { lifetime } => Result::Ok("'"@ + lifetime@),
        GenericBound::UseCapture { names } => Result::Ok(
            "use<"@ + comma_join(strs_view(names@)) + ">"@,
        ),
    }
}

pub open spec fn bounds_results(bs: Seq<GenericBound>) -> Result<Seq<Seq<char>>, RenderErr>
    decreases bs,
{
    if bs.len() == 0 {
        Result::Ok(Seq::empty())
    } else {
        match bound_result(bs[0]) {
            Result::Ok(s) => match bounds_results(bs.subrange(1, bs.len() as int)) {
                Result::Ok(rest) => Result::Ok(seq![s] + rest),
                Result::Err(e) => Result::Err(e),
            },
            Result::Err(e) => Result::Err(e),
        }
    }
}

/// One generic parameter definition. The synthetic flag is not read here:
/// a synthetic parameter is suppressed by the list renderer instead.
pub open spec fn param_result(p: GenericParamDef) -> Result<Seq<char>, RenderErr>
    decreases p,
{
    match p.kind {
        GenericParamDefKind::Lifetime { outlives } => {
            let kind = if outlives@.len() == 0 {
                Seq::<char>::empty()
            } else {
                plus_join(strs_view(outlives@))
            };
            Result::Ok(named_with_kind(p.name@, kind))
        },
        GenericParamDefKind::TypeParam { bounds, default, synthetic } => match bounds_results(
            bounds@,
        ) {
            Result::Ok(bs) => {
                let joined = plus_join(bs);
                match default {
                    Option::Some(d) => match type_result(d) {
                        Result::Ok(ds) => Result::Ok(
                            named_with_kind(p.name@, joined + " = "@ + ds),
                        ),
                        Result::Err(e) => Result::Err(e),
                    },
                    Option::None => Result::Ok(named_with_kind(p.name@, joined)),
                }
            },
            Result::Err(e) => Result::Err(e),
        },
        GenericParamDefKind::ConstParam { type_, default } => match type_result(type_) {
            Result::Ok(ts) => Result::Ok(
                named_with_kind(
                    p.name@,
                    "const "@ + ts + (match default {
                        Option::Some(d) => " = "@ + d@,
                        Option::None => Seq::empty(),
                    }),
                ),
            ),
            Result::Err(e) => Result::Err(e),
        },
    }
}

pub open spec fn is_synthetic(p: GenericParamDef) -> bool {
    match p.kind {
        GenericParamDefKind::TypeParam { bounds, default, synthetic } => synthetic,
        _ => false,
    }
}

/// The rendered parameter list. A synthetic type parameter is suppressed
/// from the list; the emptiness test that decides whether angle brackets
/// appear at all still counts it.
pub open spec fn params_results(ps: Seq<GenericParamDef>) -> Result<Seq<Seq<char>>, RenderErr>
    decreases ps,
{
    if ps.len() == 0 {
        Result::Ok(Seq::empty())
    } else if is_synthetic(ps[0]) {
        params_results(ps.subrange(1, ps.len() as int))
    } else {
        match param_result(ps[0]) {
            Result::Ok(s) => match params_results(ps.subrange(1, ps.len() as int)) {
                Result::Ok(rest) => Result::Ok(seq![s] + rest),
                Result::Err(e) => Result::Err(e),
            },
            Result::Err(e) => Result::Err(e),
        }
    }
}

pub open spec fn pred_result(w: WherePredicate) -> Result<Seq<char>, RenderErr>
    decreases w,
{
    match w {
        WherePredicate::BoundPredicate { type_, bounds, generic_params } => match type_result(
            type_,
        ) {
            Result::Ok(ts) => match bounds_results(bounds@) {
                Result::Ok(bs) => match params_results(generic_params@) {
                    Result::Ok(ps) => {
                        let prefix = if generic_params@.len() > 0 {
                            "for <"@ + comma_join(ps) + ">"@
                        } else {
                            Seq::<char>::empty()
                        };
                        Result::Ok(prefix + ts + ": "@ + plus_join(bs))
                    },
                    Result::Err(e) => Result::Err(e),
                },
                Result::Err(e) => Result::Err(e),
            },
            Result::Err(e) => Result::Err(e),
        },
        WherePredicate::LifetimePredicate { lifetime, outlives } => Result::Ok(
            lifetime@ + " "@ + plus_join(strs_view(outlives@)),
        ),
        WherePredicate::EqPredicate { lhs, rhs } => match type_result(lhs) {
            Result::Ok(l) => match term_result(rhs) {
                Result::Ok(r) => Result::Ok(l + " = "@ + r),
                Result::Err(e) => Result::Err(e),
            },
            Result::Err(e) => Result::Err(e),
        },
    }
}

pub open spec fn preds_results(ws: Seq<WherePredicate>) -> Result<Seq<Seq<char>>, RenderErr>
    decreases ws,
{
    if ws.len() == 0 {
        Result::Ok(Seq::empty())
    } else {
        match pred_result(ws[0]) {
            Result::Ok(s) => match preds_results(ws.subrange(1, ws.len() as int)) {
                Result::Ok(rest) => Result::Ok(seq![s] + rest),
                Result::Err(e) => Result::Err(e),
            },
            Result::Err(e) => Result::Err(e),
        }
    }
}

/// The generics clause of a declaration head: the angle-bracket segment and
/// the where-clause segment. Either is entirely absent when it has nothing
/// to list.
pub open spec fn generics_result(g: Generics) -> Result<(Seq<char>, Seq<char>), RenderErr>
    decreases g,
{
    match params_results(g.params@) {
        Result::Ok(ps) => {
            let gtext = if g.params@.len() == 0 {
                Seq::<char>::empty()
            } else {
                "<"@ + comma_join(ps) + ">"@
            };
            match preds_results(g.where_predicates@) {
                Result::Ok(ws) => {
                    let wtext = if g.where_predicates@.len() == 0 {
                        Seq::<char>::empty()
                    } else {
                        " where "@ + comma_join(ws)
                    };
                    Result::Ok((gtext, wtext))
                },
                Result::Err(e) => Result::Err(e),
            }
        },
        Result::Err(e) => Result::Err(e),
    }
}

/// One rendered function parameter, with the self-parameter sugar: a
/// parameter literally named `self` whose type text is exactly `Self` or
/// `&Self` is rendered bare, without a type annotation.
pub open spec fn fn_param_result(p: (String, TypeExpr)) -> Result<Seq<char>, RenderErr>
    decreases p,
{
    match type_result(p.1) {
        Result::Ok(t) => Result::Ok(
            if p.0@ == "self"@ && t == "&Self"@ {
                "&self"@
            } else if p.0@ == "self"@ && t == "Self"@ {
                "self"@
            } else {
                p.0@ + ": "@ + t
            },
        ),
        Result::Err(e) => Result::Err(e),
    }
}

pub open spec fn fn_params_results(ps: Seq<(String, TypeExpr)>) -> Result<
    Seq<Seq<char>>,
    RenderErr,
>
    decreases ps,
{
    if ps.len() == 0 {
        Result::Ok(Seq::empty())
    } else {
        match fn_param_result(ps[0]) {
            Result::Ok(s) => match fn_params_results(ps.subrange(1, ps.len() as int)) {
                Result::Ok(rest) => Result::Ok(seq![s] + rest),
                Result::Err(e) => Result::Err(e),
            },
            Result::Err(e) => Result::Err(e),
        }
    }
}

/// Whether a node is rendered at all: public always, and private-to-module
/// only inside a trait body, where members without an explicit visibility
/// belong to the trait's public surface.
pub open spec fn vis_gate(v: Visibility, allow_non_public: bool) -> bool {
    v is Public || (v is Default && allow_non_public)
}

/// Whether the raw-attribute set carries the non-exhaustive marker.
pub open spec fn has_non_exhaustive(attrs: Seq<String>) -> bool {
    exists|i: int| 0 <= i < attrs.len() && attrs[i]@ == "#[non_exhaustive]"@
}

/// A failure propagating out of a named declaration records that name on
/// its path of containing declarations, innermost first.
pub open spec fn push_err_name(e: RenderErr, name: Option<String>) -> RenderErr {
    match name {
        Option::Some(n) => match e {
            RenderErr::Unresolved { id, path } => RenderErr::Unresolved {
                id,
                path: path.push(n@),
            },
            RenderErr::Unsupported { kind, path } => RenderErr::Unsupported {
                kind,
                path: path.push(n@),
            },
        },
        Option::None => e,
    }
}

/// The lines of a plain struct body: each field indented on its own line
/// and terminated by a comma.
pub open spec fn field_lines(lines: Seq<Seq<char>>) -> Seq<char>
    decreases lines.len(),
{
    if lines.len() == 0 {
        Seq::empty()
    } else {
        "\n    "@ + lines[0] + ","@ + field_lines(lines.drop_first())
    }
}

/// The lines of a trait body: each associated item indented on its own
/// line.
pub open spec fn trait_lines(lines: Seq<Seq<char>>) -> Seq<char>
    decreases lines.len(),
{
    if lines.len() == 0 {
        Seq::empty()
    } else {
        "\n    "@ + lines[0] + trait_lines(lines.drop_first())
    }
}

/// The function qualifiers in their fixed order.
pub open spec fn fn_qualifiers(is_const: bool, is_unsafe: bool, is_async: bool) -> Seq<char> {
    (if is_const {
        "const "@
    } else {
        Seq::<char>::empty()
    }) + (if is_unsafe {
        "unsafe "@
    } else {
        Seq::<char>::empty()
    }) + (if is_async {
        "async "@
    } else {
        Seq::<char>::empty()
    })
}

/// The arrow clause of a function: entirely absent without a declared
/// return type.
pub open spec fn output_result(output: Option<TypeExpr>) -> Result<Seq<char>, RenderErr> {
    match output {
        Option::None => Result::Ok(Seq::<char>::empty()),
        Option::Some(o) => match type_result(o) {
            Result::Ok(os) => Result::Ok(" -> "@ + os),
            Result::Err(e) => Result::Err(e),
        },
    }
}

/// The rendered tuple slots of a tuple struct. A missing slot, and a slot
/// whose field the visibility gate hides, render as the placeholder marking
/// an elided field; a present field renders as its type only, with neither
/// name nor visibility.
pub open spec fn tuple_fields_results(items: Seq<Item>, fields: Seq<Option<usize>>) -> Result<
    Seq<Seq<char>>,
    RenderErr,
>
    decreases fields,
{
    if fields.len() == 0 {
        Result::Ok(Seq::empty())
    } else {
        let head_r = match fields[0] {
            Option::None => Result::Ok("_"@),
            Option::Some(fid) => if !(fid < items.len()) {
                Result::Err(RenderErr::Unresolved { id: fid as int, path: Seq::empty() })
            } else if !vis_gate(items[fid as int].visibility, false) {
                Result::Ok("_"@)
            } else {
                match items[fid as int].inner {
                    ItemEnum::StructField { type_ } => type_result(type_),
                    _ => Result::Err(unsupported_err("non-field tuple slot"@)),
                }
            },
        };
        match head_r {
            Result::Ok(s) => match tuple_fields_results(
                items,
                fields.subrange(1, fields.len() as int),
            ) {
                Result::Ok(rest) => Result::Ok(seq![s] + rest),
                Result::Err(e) => Result::Err(e),
            },
            Result::Err(e) => Result::Err(e),
        }
    }
}

/// A bounded rank for recursion through the index: child references only
/// point forward, so the distance to the end of the arena shrinks.
pub open spec fn rank_of(items: Seq<Item>, id: int) -> int {
    if 0 <= id < items.len() {
        items.len() - id
    } else {
        0
    }
}

/// The formatter: the rendered declaration strings of one node, or an empty
/// result where the visibility gate closes, or the first failure, carrying
/// the offending construct and the path of containing declarations.
pub open spec fn item_result(items: Seq<Item>, id: int, allow_non_public: bool) -> Result<
    Seq<Seq<char>>,
    RenderErr,
>
    decreases rank_of(items, id), 2int, 0int,
        when wf_index(items)
{
    if !(0 <= id < items.len()) {
        Result::Err(RenderErr::Unresolved { id, path: Seq::empty() })
    } else if !vis_gate(items[id].visibility, allow_non_public) {
        Result::Ok(Seq::empty())
    } else {
        match item_body_result(items, id, allow_non_public) {
            Result::Ok(v) => Result::Ok(v),
            Result::Err(e) => Result::Err(push_err_name(e, items[id].name)),
        }
    }
}

/// The flattened renderings of a module's children, in declaration order,
/// short-circuiting on the first failure.
pub open spec fn child_items_results(
    items: Seq<Item>,
    ids: Seq<usize>,
    parent: int,
    allow_non_public: bool,
) -> Result<Seq<Seq<char>>, RenderErr>
    decreases rank_of(items, parent), 0int, ids.len(),
        when
            wf_index(items) && 0 <= parent < items.len() && (forall|k: int|
                0 <= k < ids.len() ==> ids[k] > parent)
{
    if ids.len() == 0 {
        Result::Ok(Seq::empty())
    } else {
        match item_result(items, ids[0] as int, allow_non_public) {
            Result::Ok(head) => match child_items_results(
                items,
                ids.subrange(1, ids.len() as int),
                parent,
                allow_non_public,
            ) {
                Result::Ok(rest) => Result::Ok(head + rest),
                Result::Err(e) => Result::Err(e),
            },
            Result::Err(e) => Result::Err(e),
        }
    }
}

/// The first rendered string of each child, skipping children whose
/// rendering is empty because their visibility is not shown.
pub open spec fn first_strings_results(
    items: Seq<Item>,
    ids: Seq<usize>,
    parent: int,
    allow_non_public: bool,
) -> Result<Seq<Seq<char>>, RenderErr>
    decreases rank_of(items, parent), 0int, ids.len(),
        when
            wf_index(items) && 0 <= parent < items.len() && (forall|k: int|
                0 <= k < ids.len() ==> ids[k] > parent)
{
    if ids.len() == 0 {
        Result::Ok(Seq::empty())
    } else {
        match item_result(items, ids[0] as int, allow_non_public) {
            Result::Ok(head) => match first_strings_results(
                items,
                ids.subrange(1, ids.len() as int),
                parent,
                allow_non_public,
            ) {
                Result::Ok(rest) => Result::Ok(
                    (if head.len() > 0 {
                        seq![head[0]]
                    } else {
                        Seq::<Seq<char>>::empty()
                    }) + rest,
                ),
                Result::Err(e) => Result::Err(e),
            },
            Result::Err(e) => Result::Err(e),
        }
    }
}

/// The rendering of one node that passed the visibility check. A failure
/// here does not yet name this node on its path; item_result adds that.
pub open spec fn item_body_result(items: Seq<Item>, id: int, allow_non_public: bool) -> Result<
    Seq<Seq<char>>,
    RenderErr,
>
    decreases rank_of(items, id), 1int, 0int,
        when wf_index(items) && 0 <= id < items.len()
{
    let it = items[id];
    let name = match it.name {
        Option::Some(n) => n@,
        Option::None => Seq::<char>::empty(),
    };
    let vis = vis_prefix(it.visibility);
    match it.inner {
        ItemEnum::Module { items: ids } => child_items_results(items, ids@, id, allow_non_public),
        ItemEnum::Import => Result::Ok(Seq::empty()),
        ItemEnum::Struct { kind, generics } => match generics_result(generics) {
            Result::Ok(gw) => match kind {
                StructKind::Unit => Result::Ok(seq![vis + "struct "@ + name + gw.0 + gw.1]),
                StructKind::Tuple { fields } => match tuple_fields_results(items, fields@) {
                    Result::Ok(fs) => Result::Ok(
                        seq![vis + "struct "@ + name + gw.0 + "("@ + comma_join(fs) + ")"@ + gw.1],
                    ),
                    Result::Err(e) => Result::Err(e),
                },
                StructKind::Plain { fields, has_stripped_fields } => match first_strings_results(
                    items,
                    fields@,
                    id,
                    false,
                ) {
                    Result::Ok(lines) => {
                        let ne = if has_non_exhaustive(it.attrs@) {
                            "#[non_exhaustive]\n"@
                        } else {
                            Seq::<char>::empty()
                        };
                        let head = ne + vis + "struct "@ + name + gw.0 + gw.1 + " {"@;
                        let with_fields = head + field_lines(lines);
                        let with_stripped = if has_stripped_fields {
                            with_fields + "/* private fields */"@
                        } else {
                            with_fields
                        };
                        Result::Ok(
                            seq![
                                (if lines.len() > 0 {
                                    with_stripped + "\n"@
                                } else {
                                    with_stripped
                                }) + "}"@
                            ],
                        )
                    },
                    Result::Err(e) => Result::Err(e),
                },
            },
            Result::Err(e) => Result::Err(e),
        },
        ItemEnum::StructField { type_ } => match type_result(type_) {
            Result::Ok(t) => Result::Ok(
                seq![
                    vis + (match it.name {
                        Option::Some(n) => n@ + ": "@ + t,
                        Option::None => t,
                    })
                ],
            ),
            Result::Err(e) => Result::Err(e),
        },
        ItemEnum::Function { inputs, output, is_const, is_unsafe, is_async, generics } => match fn_params_results(
            inputs@,
        ) {
            Result::Ok(prs) => match generics_result(generics) {
                Result::Ok(gw) => match output_result(output) {
                    Result::Ok(outs) => Result::Ok(
                        seq![
                            vis + fn_qualifiers(is_const, is_unsafe, is_async) + "fn "@ + name
                                + gw.0 + "("@ + comma_join(prs) + ")"@ + outs + gw.1
                        ],
                    ),
                    Result::Err(e) => Result::Err(e),
                },
                Result::Err(e) => Result::Err(e),
            },
            Result::Err(e) => Result::Err(e),
        },
        ItemEnum::Trait { is_auto, is_unsafe, items: ids, generics, bounds } => match generics_result(
            generics,
        ) {
            Result::Ok(gw) => match bounds_results(bounds@) {
                Result::Ok(bs) => {
                    let bj = plus_join(bs);
                    let bpart = if bj.len() == 0 {
                        bj
                    } else {
                        ": "@ + bj
                    };
                    match first_strings_results(items, ids@, id, true) {
                        Result::Ok(lines) => Result::Ok(
                            seq![
                                vis + (if is_auto {
                                    "auto "@
                                } else {
                                    Seq::<char>::empty()
                                }) + (if is_unsafe {
                                    "unsafe "@
                                } else {
                                    Seq::<char>::empty()
                                }) + "trait "@ + name + gw.0 + bpart + gw.1 + " {"@ + trait_lines(
                                    lines,
                                ) + "\n}"@
                            ],
                        ),
                        Result::Err(e) => Result::Err(e),
                    }
                },
                Result::Err(e) => Result::Err(e),
            },
            Result::Err(e) => Result::Err(e),
        },
        ItemEnum::AssocConst { type_, default } => match type_result(type_) {
            Result::Ok(t) => Result::Ok(
                seq![
                    "const "@ + name + ": "@ + t + (match default {
                        Option::Some(d) => " = "@ + d@,
                        Option::None => Seq::<char>::empty(),
                    }) + ";"@
                ],
            ),
            Result::Err(e) => Result::Err(e),
        },
        ItemEnum::AssocType { generics, bounds, default } => match generics_result(generics) {
            Result::Ok(gw) => match bounds_results(bounds@) {
                Result::Ok(bs) => {
                    let bpart = if bounds@.len() > 0 {
                        " "@ + plus_join(bs)
                    } else {
                        Seq::<char>::empty()
                    };
                    match default {
                        Option::None => Result::Ok(seq!["type "@ + name + gw.0 + bpart + gw.1 + ";"@]),
                        Option::Some(d) => match type_result(d) {
                            Result::Ok(ds) => Result::Ok(
                                seq!["type "@ + name + gw.0 + bpart + " = "@ + ds + gw.1 + ";"@],
                            ),
                            Result::Err(e) => Result::Err(e),
                        },
                    }
                },
                Result::Err(e) => Result::Err(e),
            },
            Result::Err(e) => Result::Err(e),
        },
        ItemEnum::Unsupported { kind } => Result::Err(unsupported_err(kind@)),
    }
}

/// The number of joined items of a trait object: its bounds plus the
/// optional lifetime.
pub open spec fn dyn_items_count(dt: DynTraitExpr) -> int {
    dt.traits@.len() + (match dt.lifetime {
        Option::Some(l) => 1int,
        Option::None => 0int,
    })
}

/// The plus-joined text of a trait object before any parentheses.
pub open spec fn dyn_joined_text(dt: DynTraitExpr) -> Seq<char> {
    match polytraits_results(dt.traits@) {
        Result::Ok(rs) => {
            let j = plus_join(rs);
            match dt.lifetime {
                Option::Some(l) => j + " + "@ + l@,
                Option::None => j,
            }
        },
        Result::Err(e) => Seq::empty(),
    }
}

/// Law: a node that the visibility gate does not let through renders to an
/// empty result, never to an error.
pub proof fn lemma_gated_node_renders_empty(items: Seq<Item>, id: int, allow_non_public: bool)
    requires
        wf_index(items),
        0 <= id < items.len(),
        !vis_gate(items[id].visibility, allow_non_public),
    ensures
        item_result(items, id, allow_non_public) == Result::<Seq<Seq<char>>, RenderErr>::Ok(
            Seq::empty(),
        ),
{
}

/// Law: a trait object is wrapped in parentheses exactly when it joins more
/// than one item; a single bound with no lifetime stays unparenthesized.
pub proof fn lemma_dyn_trait_parentheses(dt: DynTraitExpr)
    requires
        dyn_result(dt) is Ok,
    ensures
        dyn_items_count(dt) <= 1 ==> dyn_result(dt)->Ok_0 == "dyn "@ + dyn_joined_text(dt),
        dyn_items_count(dt) > 1 ==> dyn_result(dt)->Ok_0 == "dyn "@ + ("("@ + dyn_joined_text(dt)
            + ")"@),
{
}

/// Law: a generics clause with no parameters contributes no angle-bracket
/// segment at all, and one with no predicates no where-clause segment.
pub proof fn lemma_empty_generics_absent(g: Generics)
    requires
        generics_result(g) is Ok,
    ensures
        g.params@.len() == 0 ==> generics_result(g)->Ok_0.0 == Seq::<char>::empty(),
        g.where_predicates@.len() == 0 ==> generics_result(g)->Ok_0.1 == Seq::<char>::empty(),
{
}

} // verus!
