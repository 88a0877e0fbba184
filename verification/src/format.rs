use vstd::prelude::*;
use vstd::string::StringExecFns;

use crate::lemma_join_snoc;
use crate::model::FormatError;
use crate::model::GenericArgExpr;
use crate::model::GenericArgsExpr;
use crate::model::GenericBound;
use crate::model::GenericParamDef;
use crate::model::GenericParamDefKind;
use crate::model::Generics;
use crate::model::DynTraitExpr;
use crate::model::PathExpr;
use crate::model::PolyTrait;
use crate::model::TermExpr;
use crate::model::TraitBoundModifier;
use crate::model::TypeBinding;
use crate::model::TypeBindingKind;
use crate::model::TypeExpr;
use crate::model::Visibility;
use crate::model::WherePredicate;
use crate::model::err_view;
use crate::model::Item;
use crate::model::ItemEnum;
use crate::model::ItemIndex;
use crate::model::RenderErr;
use crate::model::StructKind;
use crate::model::item_children;
use crate::model::struct_kind_children;
use crate::model::str_result_view;
use crate::model::strings_result_view;
use crate::model::strs_view;
use crate::render::args_result;
use crate::render::binding_kind_result;
use crate::render::binding_result;
use crate::render::bindings_results;
use crate::render::bound_result;
use crate::render::bounds_results;
use crate::render::comma_join;
use crate::render::dyn_result;
use crate::render::fn_param_result;
use crate::render::fn_params_results;
use crate::render::garg_result;
use crate::render::gargs_results;
use crate::render::generics_result;
use crate::render::is_synthetic;
use crate::render::modifier_repr;
use crate::render::named_with_kind;
use crate::render::param_result;
use crate::render::params_results;
use crate::render::path_result;
use crate::render::plus_join;
use crate::render::polytrait_result;
use crate::render::polytraits_results;
use crate::render::pred_result;
use crate::render::preds_results;
use crate::render::term_result;
use crate::render::type_result;
use crate::render::unsupported_err;
use crate::render::types_results;
use crate::render::vis_prefix;
use crate::render::vis_repr;
use crate::render::vis_gate;
use crate::render::has_non_exhaustive;
use crate::render::push_err_name;
use crate::render::field_lines;
use crate::render::trait_lines;
use crate::render::fn_qualifiers;
use crate::render::tuple_fields_results;
use crate::render::child_items_results;
use crate::render::first_strings_results;
use crate::render::item_result;
use crate::render::item_body_result;
use crate::render::rank_of;
use crate::spec_join;

verus! {

/// Joins already-rendered parts with a separator.
fn join_with(parts: &Vec<String>, sep: &str) -> (r: String)
    ensures
        r@ == spec_join(strs_view(parts@), sep@),
{
    let mut out = String::new();
    let n = parts.len();
    let mut k: usize = 0;
    proof {
        assert(strs_view(parts@).subrange(0, 0) =~= Seq::<Seq<char>>::empty());
    }
    while k < n
        invariant
            k <= n,
            n == parts@.len(),
            out@ == spec_join(strs_view(parts@).subrange(0, k as int), sep@),
        decreases n - k,
    {
        proof {
            let all = strs_view(parts@);
            assert(all.subrange(0, k + 1) =~= all.subrange(0, k as int).push(all[k as int]));
            lemma_join_snoc(all.subrange(0, k as int), all[k as int], sep@);
            assert(all[k as int] == parts@[k as int]@);
        }
        if k > 0 {
            out.append(sep);
        } else {
            proof {
                assert(out@ =~= Seq::<char>::empty());
            }
        }
        out.append(parts[k].as_str());
        proof {
            let all = strs_view(parts@);
            if k == 0 {
                assert(out@ =~= all[k as int]);
            }
        }
        k = k + 1;
    }
    proof {
        assert(strs_view(parts@).subrange(0, n as int) =~= strs_view(parts@));
    }
    out
}

/// Comma-joined list, for argument and parameter lists.
pub fn comma_separated(parts: &Vec<String>) -> (r: String)
    ensures
        r@ == comma_join(strs_view(parts@)),
{
    join_with(parts, ", ")
}

/// Plus-joined list, for trait-bound and lifetime conjunctions.
pub fn plus_separated(parts: &Vec<String>) -> (r: String)
    ensures
        r@ == plus_join(strs_view(parts@)),
{
    join_with(parts, " + ")
}

fn string_eq(a: &String, b: &str) -> (r: bool)
    ensures
        r == (a@ == b@),
{
    let bs = String::from_str(b);
    *a == bs
}


fn unsupported_error(kind: &String) -> (r: FormatError)
    ensures
        err_view(r) == unsupported_err(kind@),
{
    let fe = FormatError::UnsupportedConstruct { kind: kind.clone(), path: Vec::new() };
    proof {
        assert(strs_view(Seq::<String>::empty()) =~= Seq::<Seq<char>>::empty());
    }
    fe
}

fn vis_to_repr(v: &Visibility) -> (r: String)
    ensures
        r@ == vis_repr(*v),
{
    match v {
        Visibility::Public => String::from_str("pub"),
        Visibility::Default => String::new(),
        Visibility::Crate => String::from_str("pub(crate)"),
        Visibility::Restricted { path } => {
            let mut s = String::from_str("pub(in ");
            s.append(path.as_str());
            s.append(")");
            s
        },
    }
}

fn vis_prefix_repr(v: &Visibility) -> (r: String)
    ensures
        r@ == vis_prefix(*v),
{
    let mut s = vis_to_repr(v);
    if !s.as_str().is_empty() {
        s.append(" ");
    }
    s
}

fn modifier_to_repr(m: &TraitBoundModifier) -> (r: String)
    ensures
        r@ == modifier_repr(*m),
{
    match m {
        TraitBoundModifier::Plain => String::new(),
        TraitBoundModifier::Maybe => String::from_str("?"),
        TraitBoundModifier::MaybeConst => String::from_str("?const"),
    }
}

fn make_named_with_kind(name: &String, kind: String) -> (r: String)
    ensures
        r@ == named_with_kind(name@, kind@),
{
    if kind.as_str().is_empty() {
        name.clone()
    } else {
        let mut s = name.clone();
        s.append(": ");
        s.append(kind.as_str());
        s
    }
}

/// The canonical text of a type expression, or the first failure inside it.
pub fn type_to_repr(t: &TypeExpr) -> (r: Result<String, FormatError>)
    ensures
        str_result_view(r) == type_result(*t),
    decreases *t, 0int,
{
    match t {
        TypeExpr::ResolvedPath { path } => path_to_repr(path),
        TypeExpr::DynTrait { dyn_trait } => dyn_to_repr(dyn_trait),
        TypeExpr::Generic { name } => Result::Ok(name.clone()),
        TypeExpr::Primitive { name } => Result::Ok(name.clone()),
        TypeExpr::Slice { type_ } => {
            let s = match type_to_repr(&**type_) {
                Result::Ok(s) => s,
                Result::Err(e) => {
                    return Result::Err(e);
                },
            };
            let mut out = String::from_str("[");
            out.append(s.as_str());
            out.append("]");
            Result::Ok(out)
        },
        TypeExpr::Array { type_, len } => {
            let s = match type_to_repr(&**type_) {
                Result::Ok(s) => s,
                Result::Err(e) => {
                    return Result::Err(e);
                },
            };
            let mut out = String::from_str("[");
            out.append(s.as_str());
            out.append("; ");
            out.append(len.as_str());
            out.append("]");
            proof {
                assert(out@ =~= "["@ + s@ + "; "@ + len@ + "]"@);
            }
            Result::Ok(out)
        },
        TypeExpr::ImplTrait { bounds } => {
            proof {
                assert(bounds@.subrange(0, bounds@.len() as int) =~= bounds@);
            }
            let rs = match bounds_to_reprs(bounds, 0) {
                Result::Ok(rs) => rs,
                Result::Err(e) => {
                    return Result::Err(e);
                },
            };
            let mut out = String::from_str("impl ");
            let joined = plus_separated(&rs);
            out.append(joined.as_str());
            Result::Ok(out)
        },
        TypeExpr::RawPointer { is_mutable, type_ } => {
            let s = match type_to_repr(&**type_) {
                Result::Ok(s) => s,
                Result::Err(e) => {
                    return Result::Err(e);
                },
            };
            let mut out = if *is_mutable {
                String::from_str("*mut ")
            } else {
                String::from_str("*const ")
            };
            out.append(s.as_str());
            Result::Ok(out)
        },
        TypeExpr::BorrowedRef { lifetime, is_mutable, type_ } => {
            let s = match type_to_repr(&**type_) {
                Result::Ok(s) => s,
                Result::Err(e) => {
                    return Result::Err(e);
                },
            };
            let mut out = String::from_str("&");
            match lifetime {
                Option::Some(l) => {
                    out.append(l.as_str());
                    out.append(" ");
                },
                Option::None => {},
            }
            if *is_mutable {
                out.append("mut ");
            }
            out.append(s.as_str());
            proof {
                let lpart = match lifetime {
                    Option::Some(l) => l@ + " "@,
                    Option::None => Seq::<char>::empty(),
                };
                let mpart = if *is_mutable {
                    "mut "@
                } else {
                    Seq::<char>::empty()
                };
                assert(out@ =~= "&"@ + lpart + mpart + s@);
            }
            Result::Ok(out)
        },
        TypeExpr::QualifiedPath { name, args, self_type, trait_ } => {
            let selfs = match type_to_repr(&**self_type) {
                Result::Ok(s) => s,
                Result::Err(e) => {
                    return Result::Err(e);
                },
            };
            let base = match trait_ {
                Option::Some(tp) => {
                    let tr = match path_to_repr(tp) {
                        Result::Ok(tr) => tr,
                        Result::Err(e) => {
                            return Result::Err(e);
                        },
                    };
                    if !tr.as_str().is_empty() {
                        let mut b = String::from_str("<");
                        b.append(selfs.as_str());
                        b.append(" as ");
                        b.append(tr.as_str());
                        b.append(">");
                        proof {
                            assert(b@ =~= "<"@ + selfs@ + " as "@ + tr@ + ">"@);
                        }
                        b
                    } else {
                        selfs
                    }
                },
                Option::None => selfs,
            };
            let a = match args_to_repr(&**args) {
                Result::Ok(a) => a,
                Result::Err(e) => {
                    return Result::Err(e);
                },
            };
            let mut out = base;
            out.append("::");
            out.append(name.as_str());
            out.append(a.as_str());
            Result::Ok(out)
        },
        TypeExpr::Unsupported { kind } => Result::Err(unsupported_error(kind)),
    }
}

fn dyn_to_repr(dt: &DynTraitExpr) -> (r: Result<String, FormatError>)
    ensures
        str_result_view(r) == dyn_result(*dt),
    decreases *dt, 0int,
{
    proof {
        assert(dt.traits@.subrange(0, dt.traits@.len() as int) =~= dt.traits@);
    }
    let rs = match polytraits_to_reprs(&dt.traits, 0) {
        Result::Ok(rs) => rs,
        Result::Err(e) => {
            return Result::Err(e);
        },
    };
    let mut joined = plus_separated(&rs);
    let n_traits = dt.traits.len();
    let wrap: bool = match &dt.lifetime {
        Option::Some(l) => {
            joined.append(" + ");
            joined.append(l.as_str());
            n_traits >= 1
        },
        Option::None => n_traits > 1,
    };
    proof {
        let spec_items = dt.traits@.len() + (match &dt.lifetime {
            Option::Some(l) => 1int,
            Option::None => 0int,
        });
        assert(wrap == (spec_items > 1));
    }
    let mut out = String::from_str("dyn ");
    if wrap {
        out.append("(");
        out.append(joined.as_str());
        out.append(")");
        proof {
            assert(out@ =~= "dyn "@ + ("("@ + joined@ + ")"@));
        }
    } else {
        out.append(joined.as_str());
    }
    proof {
        let lpart = match &dt.lifetime {
            Option::Some(l) => plus_join(strs_view(rs@)) + " + "@ + l@,
            Option::None => plus_join(strs_view(rs@)),
        };
        assert(joined@ =~= lpart);
    }
    Result::Ok(out)
}

fn polytrait_to_repr(pt: &PolyTrait) -> (r: Result<String, FormatError>)
    ensures
        str_result_view(r) == polytrait_result(*pt),
    decreases *pt, 0int,
{
    let tr = match path_to_repr(&pt.trait_) {
        Result::Ok(tr) => tr,
        Result::Err(e) => {
            return Result::Err(e);
        },
    };
    proof {
        assert(pt.generic_params@.subrange(0, pt.generic_params@.len() as int)
            =~= pt.generic_params@);
    }
    let ps = match params_to_reprs(&pt.generic_params, 0) {
        Result::Ok(ps) => ps,
        Result::Err(e) => {
            return Result::Err(e);
        },
    };
    let gs = comma_separated(&ps);
    if !gs.as_str().is_empty() {
        let mut out = gs;
        out.append(" ");
        out.append(tr.as_str());
        Result::Ok(out)
    } else {
        Result::Ok(tr)
    }
}

fn polytraits_to_reprs(ts: &Vec<PolyTrait>, from: usize) -> (r: Result<Vec<String>, FormatError>)
    requires
        from <= ts@.len(),
    ensures
        strings_result_view(r) == polytraits_results(ts@.subrange(from as int, ts@.len() as int)),
    decreases *ts, ts@.len() - from,
{
    let ghost sub = ts@.subrange(from as int, ts@.len() as int);
    if from == ts.len() {
        proof {
            assert(sub =~= Seq::<PolyTrait>::empty());
            assert(strs_view(Seq::<String>::empty()) =~= Seq::<Seq<char>>::empty());
        }
        Result::Ok(Vec::new())
    } else {
        proof {
            assert(sub[0] == ts@[from as int]);
            assert(sub.subrange(1, sub.len() as int) =~= ts@.subrange(
                from as int + 1,
                ts@.len() as int,
            ));
        }
        let head = match polytrait_to_repr(&ts[from]) {
            Result::Ok(s) => s,
            Result::Err(e) => {
                return Result::Err(e);
            },
        };
        let rest = match polytraits_to_reprs(ts, from + 1) {
            Result::Ok(v) => v,
            Result::Err(e) => {
                return Result::Err(e);
            },
        };
        let ghost grest = rest@;
        let ghost ghead = head@;
        let mut out = rest;
        out.insert(0, head);
        proof {
            assert(out@ =~= seq![out@[0]] + grest);
            assert(strs_view(out@) =~= seq![ghead] + strs_view(grest));
        }
        Result::Ok(out)
    }
}

fn path_to_repr(p: &PathExpr) -> (r: Result<String, FormatError>)
    ensures
        str_result_view(r) == path_result(*p),
    decreases *p, 0int,
{
    match &p.args {
        Option::None => Result::Ok(p.name.clone()),
        Option::Some(bx) => {
            let a = match args_to_repr(&**bx) {
                Result::Ok(a) => a,
                Result::Err(e) => {
                    return Result::Err(e);
                },
            };
            let mut out = p.name.clone();
            out.append(a.as_str());
            Result::Ok(out)
        },
    }
}

fn args_to_repr(ga: &GenericArgsExpr) -> (r: Result<String, FormatError>)
    ensures
        str_result_view(r) == args_result(*ga),
    decreases *ga, 0int,
{
    match ga {
        GenericArgsExpr::AngleBracketed { args, bindings } => {
            proof {
                assert(args@.subrange(0, args@.len() as int) =~= args@);
                assert(bindings@.subrange(0, bindings@.len() as int) =~= bindings@);
            }
            let ars = match gargs_to_reprs(args, 0) {
                Result::Ok(v) => v,
                Result::Err(e) => {
                    return Result::Err(e);
                },
            };
            let brs = match bindings_to_reprs(bindings, 0) {
                Result::Ok(v) => v,
                Result::Err(e) => {
                    return Result::Err(e);
                },
            };
            let mut s = comma_separated(&ars);
            if bindings.len() > 0 {
                if !s.as_str().is_empty() {
                    s.append(", ");
                }
                let bj = comma_separated(&brs);
                s.append(bj.as_str());
            }
            if !s.as_str().is_empty() {
                let mut out = String::from_str("<");
                out.append(s.as_str());
                out.append(">");
                proof {
                    assert(out@ =~= "<"@ + s@ + ">"@);
                }
                Result::Ok(out)
            } else {
                Result::Ok(String::new())
            }
        },
        GenericArgsExpr::Parenthesized { inputs, output } => {
            proof {
                assert(inputs@.subrange(0, inputs@.len() as int) =~= inputs@);
            }
            let irs = match types_to_reprs(inputs, 0) {
                Result::Ok(v) => v,
                Result::Err(e) => {
                    return Result::Err(e);
                },
            };
            let mut out = String::from_str("(");
            let j = comma_separated(&irs);
            out.append(j.as_str());
            out.append(")");
            match output {
                Option::None => Result::Ok(out),
                Option::Some(o) => {
                    let os = match type_to_repr(o) {
                        Result::Ok(s) => s,
                        Result::Err(e) => {
                            return Result::Err(e);
                        },
                    };
                    out.append(" -> ");
                    out.append(os.as_str());
                    Result::Ok(out)
                },
            }
        },
    }
}

fn garg_to_repr(a: &GenericArgExpr) -> (r: Result<String, FormatError>)
    ensures
        str_result_view(r) == garg_result(*a),
    decreases *a, 0int,
{
    match a {
        GenericArgExpr::Lifetime { name } => Result::Ok(name.clone()),
        GenericArgExpr::TypeArg { type_ } => type_to_repr(type_),
        GenericArgExpr::Infer => Result::Ok(String::from_str("_")),
        GenericArgExpr::Unsupported { kind } => Result::Err(unsupported_error(kind)),
    }
}

fn gargs_to_reprs(args: &Vec<GenericArgExpr>, from: usize) -> (r: Result<Vec<String>, FormatError>)
    requires
        from <= args@.len(),
    ensures
        strings_result_view(r) == gargs_results(args@.subrange(from as int, args@.len() as int)),
    decreases *args, args@.len() - from,
{
    let ghost sub = args@.subrange(from as int, args@.len() as int);
    if from == args.len() {
        proof {
            assert(sub =~= Seq::<GenericArgExpr>::empty());
            assert(strs_view(Seq::<String>::empty()) =~= Seq::<Seq<char>>::empty());
        }
        Result::Ok(Vec::new())
    } else {
        proof {
            assert(sub[0] == args@[from as int]);
            assert(sub.subrange(1, sub.len() as int) =~= args@.subrange(
                from as int + 1,
                args@.len() as int,
            ));
        }
        let head = match garg_to_repr(&args[from]) {
            Result::Ok(s) => s,
            Result::Err(e) => {
                return Result::Err(e);
            },
        };
        let rest = match gargs_to_reprs(args, from + 1) {
            Result::Ok(v) => v,
            Result::Err(e) => {
                return Result::Err(e);
            },
        };
        let ghost grest = rest@;
        let ghost ghead = head@;
        let mut out = rest;
        out.insert(0, head);
        proof {
            assert(out@ =~= seq![out@[0]] + grest);
            assert(strs_view(out@) =~= seq![ghead] + strs_view(grest));
        }
        Result::Ok(out)
    }
}

fn term_to_repr(term: &TermExpr) -> (r: Result<String, FormatError>)
    ensures
        str_result_view(r) == term_result(*term),
    decreases *term, 0int,
{
    match term {
        TermExpr::TypeTerm { type_ } => type_to_repr(type_),
        TermExpr::Unsupported { kind } => Result::Err(unsupported_error(kind)),
    }
}

fn binding_kind_to_repr(k: &TypeBindingKind) -> (r: Result<String, FormatError>)
    ensures
        str_result_view(r) == binding_kind_result(*k),
    decreases *k, 0int,
{
    match k {
        TypeBindingKind::Equality { term } => {
            let t = match term_to_repr(term) {
                Result::Ok(s) => s,
                Result::Err(e) => {
                    return Result::Err(e);
                },
            };
            let mut out = String::from_str("= ");
            out.append(t.as_str());
            Result::Ok(out)
        },
        TypeBindingKind::Constraint { bounds } => {
            proof {
                assert(bounds@.subrange(0, bounds@.len() as int) =~= bounds@);
            }
            let bs = match bounds_to_reprs(bounds, 0) {
                Result::Ok(v) => v,
                Result::Err(e) => {
                    return Result::Err(e);
                },
            };
            Result::Ok(plus_separated(&bs))
        },
    }
}

fn binding_to_repr(b: &TypeBinding) -> (r: Result<String, FormatError>)
    ensures
        str_result_view(r) == binding_result(*b),
    decreases *b, 0int,
{
    let a = match args_to_repr(&b.args) {
        Result::Ok(s) => s,
        Result::Err(e) => {
            return Result::Err(e);
        },
    };
    let k = match binding_kind_to_repr(&b.binding) {
        Result::Ok(s) => s,
        Result::Err(e) => {
            return Result::Err(e);
        },
    };
    let mut out = b.name.clone();
    if !a.as_str().is_empty() {
        out.append(" ");
        out.append(a.as_str());
    }
    if !k.as_str().is_empty() {
        out.append(" ");
        out.append(k.as_str());
    }
    proof {
        let apart = if a@.len() > 0 {
            " "@ + a@
        } else {
            Seq::<char>::empty()
        };
        let kpart = if k@.len() > 0 {
            " "@ + k@
        } else {
            Seq::<char>::empty()
        };
        assert(out@ =~= (b.name@ + apart) + kpart);
    }
    Result::Ok(out)
}

fn bindings_to_reprs(bs: &Vec<TypeBinding>, from: usize) -> (r: Result<Vec<String>, FormatError>)
    requires
        from <= bs@.len(),
    ensures
        strings_result_view(r) == bindings_results(bs@.subrange(from as int, bs@.len() as int)),
    decreases *bs, bs@.len() - from,
{
    let ghost sub = bs@.subrange(from as int, bs@.len() as int);
    if from == bs.len() {
        proof {
            assert(sub =~= Seq::<TypeBinding>::empty());
            assert(strs_view(Seq::<String>::empty()) =~= Seq::<Seq<char>>::empty());
        }
        Result::Ok(Vec::new())
    } else {
        proof {
            assert(sub[0] == bs@[from as int]);
            assert(sub.subrange(1, sub.len() as int) =~= bs@.subrange(
                from as int + 1,
                bs@.len() as int,
            ));
        }
        let head = match binding_to_repr(&bs[from]) {
            Result::Ok(s) => s,
            Result::Err(e) => {
                return Result::Err(e);
            },
        };
        let rest = match bindings_to_reprs(bs, from + 1) {
            Result::Ok(v) => v,
            Result::Err(e) => {
                return Result::Err(e);
            },
        };
        let ghost grest = rest@;
        let ghost ghead = head@;
        let mut out = rest;
        out.insert(0, head);
        proof {
            assert(out@ =~= seq![out@[0]] + grest);
            assert(strs_view(out@) =~= seq![ghead] + strs_view(grest));
        }
        Result::Ok(out)
    }
}

fn types_to_reprs(ts: &Vec<TypeExpr>, from: usize) -> (r: Result<Vec<String>, FormatError>)
    requires
        from <= ts@.len(),
    ensures
        strings_result_view(r) == types_results(ts@.subrange(from as int, ts@.len() as int)),
    decreases *ts, ts@.len() - from,
{
    let ghost sub = ts@.subrange(from as int, ts@.len() as int);
    if from == ts.len() {
        proof {
            assert(sub =~= Seq::<TypeExpr>::empty());
            assert(strs_view(Seq::<String>::empty()) =~= Seq::<Seq<char>>::empty());
        }
        Result::Ok(Vec::new())
    } else {
        proof {
            assert(sub[0] == ts@[from as int]);
            assert(sub.subrange(1, sub.len() as int) =~= ts@.subrange(
                from as int + 1,
                ts@.len() as int,
            ));
        }
        let head = match type_to_repr(&ts[from]) {
            Result::Ok(s) => s,
            Result::Err(e) => {
                return Result::Err(e);
            },
        };
        let rest = match types_to_reprs(ts, from + 1) {
            Result::Ok(v) => v,
            Result::Err(e) => {
                return Result::Err(e);
            },
        };
        let ghost grest = rest@;
        let ghost ghead = head@;
        let mut out = rest;
        out.insert(0, head);
        proof {
            assert(out@ =~= seq![out@[0]] + grest);
            assert(strs_view(out@) =~= seq![ghead] + strs_view(grest));
        }
        Result::Ok(out)
    }
}

fn bound_to_repr(b: &GenericBound) -> (r: Result<String, FormatError>)
    ensures
        str_result_view(r) == bound_result(*b),
    decreases *b, 0int,
{
    match b {
        GenericBound::TraitBound { trait_, generic_params, modifier } => {
            proof {
                assert(generic_params@.subrange(0, generic_params@.len() as int)
                    =~= generic_params@);
            }
            let tr = match path_to_repr(trait_) {
                Result::Ok(s) => s,
                Result::Err(e) => {
                    return Result::Err(e);
                },
            };
            let ps = match params_to_reprs(generic_params, 0) {
                Result::Ok(v) => v,
                Result::Err(e) => {
                    return Result::Err(e);
                },
            };
            let mut out = tr;
            if generic_params.len() > 0 {
                out.append("<");
                let j = comma_separated(&ps);
                out.append(j.as_str());
                out.append(">");
            }
            let m = modifier_to_repr(modifier);
            out.append(m.as_str());
            proof {
                let gp = if generic_params@.len() > 0 {
                    "<"@ + comma_join(strs_view(ps@)) + ">"@
                } else {
                    Seq::<char>::empty()
                };
                assert(out@ =~= (tr@ + gp) + modifier_repr(*modifier));
            }
            Result::Ok(out)
        },
        GenericBound::Outlives { lifetime } => {
            let mut out = String::from_str("'");
            out.append(lifetime.as_str());
            Result::Ok(out)
        },
        GenericBound::UseCapture { names } => {
            let mut out = String::from_str("use<");
            let j = comma_separated(names);
            out.append(j.as_str());
            out.append(">");
            proof {
                assert(out@ =~= "use<"@ + comma_join(strs_view(names@)) + ">"@);
            }
            Result::Ok(out)
        },
    }
}

fn bounds_to_reprs(bs: &Vec<GenericBound>, from: usize) -> (r: Result<Vec<String>, FormatError>)
    requires
        from <= bs@.len(),
    ensures
        strings_result_view(r) == bounds_results(bs@.subrange(from as int, bs@.len() as int)),
    decreases *bs, bs@.len() - from,
{
    let ghost sub = bs@.subrange(from as int, bs@.len() as int);
    if from == bs.len() {
        proof {
            assert(sub =~= Seq::<GenericBound>::empty());
            assert(strs_view(Seq::<String>::empty()) =~= Seq::<Seq<char>>::empty());
        }
        Result::Ok(Vec::new())
    } else {
        proof {
            assert(sub[0] == bs@[from as int]);
            assert(sub.subrange(1, sub.len() as int) =~= bs@.subrange(
                from as int + 1,
                bs@.len() as int,
            ));
        }
        let head = match bound_to_repr(&bs[from]) {
            Result::Ok(s) => s,
            Result::Err(e) => {
                return Result::Err(e);
            },
        };
        let rest = match bounds_to_reprs(bs, from + 1) {
            Result::Ok(v) => v,
            Result::Err(e) => {
                return Result::Err(e);
            },
        };
        let ghost grest = rest@;
        let ghost ghead = head@;
        let mut out = rest;
        out.insert(0, head);
        proof {
            assert(out@ =~= seq![out@[0]] + grest);
            assert(strs_view(out@) =~= seq![ghead] + strs_view(grest));
        }
        Result::Ok(out)
    }
}

fn param_to_repr(p: &GenericParamDef) -> (r: Result<String, FormatError>)
    ensures
        str_result_view(r) == param_result(*p),
    decreases *p, 0int,
{
    match &p.kind {
        GenericParamDefKind::Lifetime { outlives } => {
            let kind = if outlives.len() == 0 {
                String::new()
            } else {
                plus_separated(outlives)
            };
            Result::Ok(make_named_with_kind(&p.name, kind))
        },
        GenericParamDefKind::TypeParam { bounds, default, synthetic } => {
            proof {
                assert(bounds@.subrange(0, bounds@.len() as int) =~= bounds@);
            }
            let bsr = match bounds_to_reprs(bounds, 0) {
                Result::Ok(v) => v,
                Result::Err(e) => {
                    return Result::Err(e);
                },
            };
            let mut kind = plus_separated(&bsr);
            match default {
                Option::Some(d) => {
                    let ds = match type_to_repr(d) {
                        Result::Ok(s) => s,
                        Result::Err(e) => {
                            return Result::Err(e);
                        },
                    };
                    kind.append(" = ");
                    kind.append(ds.as_str());
                    proof {
                        assert(kind@ =~= plus_join(strs_view(bsr@)) + " = "@ + ds@);
                    }
                    Result::Ok(make_named_with_kind(&p.name, kind))
                },
                Option::None => Result::Ok(make_named_with_kind(&p.name, kind)),
            }
        },
        GenericParamDefKind::ConstParam { type_, default } => {
            let ts = match type_to_repr(type_) {
                Result::Ok(s) => s,
                Result::Err(e) => {
                    return Result::Err(e);
                },
            };
            let mut kind = String::from_str("const ");
            kind.append(ts.as_str());
            match default {
                Option::Some(d) => {
                    kind.append(" = ");
                    kind.append(d.as_str());
                },
                Option::None => {},
            }
            proof {
                let dpart = match default {
                    Option::Some(d) => " = "@ + d@,
                    Option::None => Seq::<char>::empty(),
                };
                assert(kind@ =~= "const "@ + ts@ + dpart);
            }
            Result::Ok(make_named_with_kind(&p.name, kind))
        },
    }
}

fn param_is_synthetic(p: &GenericParamDef) -> (r: bool)
    ensures
        r == is_synthetic(*p),
{
    match &p.kind {
        GenericParamDefKind::TypeParam { bounds, default, synthetic } => *synthetic,
        _ => false,
    }
}

fn params_to_reprs(ps: &Vec<GenericParamDef>, from: usize) -> (r: Result<Vec<String>, FormatError>)
    requires
        from <= ps@.len(),
    ensures
        strings_result_view(r) == params_results(ps@.subrange(from as int, ps@.len() as int)),
    decreases *ps, ps@.len() - from,
{
    let ghost sub = ps@.subrange(from as int, ps@.len() as int);
    if from == ps.len() {
        proof {
            assert(sub =~= Seq::<GenericParamDef>::empty());
            assert(strs_view(Seq::<String>::empty()) =~= Seq::<Seq<char>>::empty());
        }
        Result::Ok(Vec::new())
    } else {
        proof {
            assert(sub[0] == ps@[from as int]);
            assert(sub.subrange(1, sub.len() as int) =~= ps@.subrange(
                from as int + 1,
                ps@.len() as int,
            ));
        }
        if param_is_synthetic(&ps[from]) {
            params_to_reprs(ps, from + 1)
        } else {
            let head = match param_to_repr(&ps[from]) {
                Result::Ok(s) => s,
                Result::Err(e) => {
                    return Result::Err(e);
                },
            };
            let rest = match params_to_reprs(ps, from + 1) {
                Result::Ok(v) => v,
                Result::Err(e) => {
                    return Result::Err(e);
                },
            };
            let ghost grest = rest@;
            let ghost ghead = head@;
            let mut out = rest;
            out.insert(0, head);
            proof {
                assert(out@ =~= seq![out@[0]] + grest);
                assert(strs_view(out@) =~= seq![ghead] + strs_view(grest));
            }
            Result::Ok(out)
        }
    }
}

fn pred_to_repr(w: &WherePredicate) -> (r: Result<String, FormatError>)
    ensures
        str_result_view(r) == pred_result(*w),
    decreases *w, 0int,
{
    match w {
        WherePredicate::BoundPredicate { type_, bounds, generic_params } => {
            proof {
                assert(bounds@.subrange(0, bounds@.len() as int) =~= bounds@);
                assert(generic_params@.subrange(0, generic_params@.len() as int)
                    =~= generic_params@);
            }
            let ts = match type_to_repr(type_) {
                Result::Ok(s) => s,
                Result::Err(e) => {
                    return Result::Err(e);
                },
            };
            let bs = match bounds_to_reprs(bounds, 0) {
                Result::Ok(v) => v,
                Result::Err(e) => {
                    return Result::Err(e);
                },
            };
            let ps = match params_to_reprs(generic_params, 0) {
                Result::Ok(v) => v,
                Result::Err(e) => {
                    return Result::Err(e);
                },
            };
            let mut out = String::new();
            if generic_params.len() > 0 {
                out.append("for <");
                let j = comma_separated(&ps);
                out.append(j.as_str());
                out.append(">");
            }
            out.append(ts.as_str());
            out.append(": ");
            let bj = plus_separated(&bs);
            out.append(bj.as_str());
            proof {
                let prefix = if generic_params@.len() > 0 {
                    "for <"@ + comma_join(strs_view(ps@)) + ">"@
                } else {
                    Seq::<char>::empty()
                };
                assert(out@ =~= prefix + ts@ + ": "@ + plus_join(strs_view(bs@)));
            }
            Result::Ok(out)
        },
        WherePredicate::LifetimePredicate { lifetime, outlives } => {
            let mut out = lifetime.clone();
            out.append(" ");
            let j = plus_separated(outlives);
            out.append(j.as_str());
            Result::Ok(out)
        },
        WherePredicate::EqPredicate { lhs, rhs } => {
            let l = match type_to_repr(lhs) {
                Result::Ok(s) => s,
                Result::Err(e) => {
                    return Result::Err(e);
                },
            };
            let r2 = match term_to_repr(rhs) {
                Result::Ok(s) => s,
                Result::Err(e) => {
                    return Result::Err(e);
                },
            };
            let mut out = l;
            out.append(" = ");
            out.append(r2.as_str());
            Result::Ok(out)
        },
    }
}

fn preds_to_reprs(ws: &Vec<WherePredicate>, from: usize) -> (r: Result<Vec<String>, FormatError>)
    requires
        from <= ws@.len(),
    ensures
        strings_result_view(r) == preds_results(ws@.subrange(from as int, ws@.len() as int)),
    decreases *ws, ws@.len() - from,
{
    let ghost sub = ws@.subrange(from as int, ws@.len() as int);
    if from == ws.len() {
        proof {
            assert(sub =~= Seq::<WherePredicate>::empty());
            assert(strs_view(Seq::<String>::empty()) =~= Seq::<Seq<char>>::empty());
        }
        Result::Ok(Vec::new())
    } else {
        proof {
            assert(sub[0] == ws@[from as int]);
            assert(sub.subrange(1, sub.len() as int) =~= ws@.subrange(
                from as int + 1,
                ws@.len() as int,
            ));
        }
        let head = match pred_to_repr(&ws[from]) {
            Result::Ok(s) => s,
            Result::Err(e) => {
                return Result::Err(e);
            },
        };
        let rest = match preds_to_reprs(ws, from + 1) {
            Result::Ok(v) => v,
            Result::Err(e) => {
                return Result::Err(e);
            },
        };
        let ghost grest = rest@;
        let ghost ghead = head@;
        let mut out = rest;
        out.insert(0, head);
        proof {
            assert(out@ =~= seq![out@[0]] + grest);
            assert(strs_view(out@) =~= seq![ghead] + strs_view(grest));
        }
        Result::Ok(out)
    }
}

/// The generics clause: the angle-bracket segment and the where-clause
/// segment, either one empty when it has nothing to list.
pub fn generics_to_repr(g: &Generics) -> (r: Result<(String, String), FormatError>)
    ensures
        match r {
            Result::Ok(gw) => generics_result(*g) == Result::<(Seq<char>, Seq<char>),
            RenderErr>::Ok((gw.0@, gw.1@)),
            Result::Err(e) => generics_result(*g) == Result::<(Seq<char>, Seq<char>),
            RenderErr>::Err(err_view(e)),
        },
    decreases *g, 0int,
{
    proof {
        assert(g.params@.subrange(0, g.params@.len() as int) =~= g.params@);
        assert(g.where_predicates@.subrange(0, g.where_predicates@.len() as int)
            =~= g.where_predicates@);
    }
    let ps = match params_to_reprs(&g.params, 0) {
        Result::Ok(v) => v,
        Result::Err(e) => {
            return Result::Err(e);
        },
    };
    let gtext = if g.params.len() == 0 {
        String::new()
    } else {
        let mut s = String::from_str("<");
        let j = comma_separated(&ps);
        s.append(j.as_str());
        s.append(">");
        proof {
            assert(s@ =~= "<"@ + comma_join(strs_view(ps@)) + ">"@);
        }
        s
    };
    let wsr = match preds_to_reprs(&g.where_predicates, 0) {
        Result::Ok(v) => v,
        Result::Err(e) => {
            return Result::Err(e);
        },
    };
    let wtext = if g.where_predicates.len() == 0 {
        String::new()
    } else {
        let mut s = String::from_str(" where ");
        let j = comma_separated(&wsr);
        s.append(j.as_str());
        s
    };
    Result::Ok((gtext, wtext))
}

fn fn_param_to_repr(p: &(String, TypeExpr)) -> (r: Result<String, FormatError>)
    ensures
        str_result_view(r) == fn_param_result(*p),
    decreases *p, 0int,
{
    let t = match type_to_repr(&p.1) {
        Result::Ok(s) => s,
        Result::Err(e) => {
            return Result::Err(e);
        },
    };
    if string_eq(&p.0, "self") && string_eq(&t, "&Self") {
        Result::Ok(String::from_str("&self"))
    } else if string_eq(&p.0, "self") && string_eq(&t, "Self") {
        Result::Ok(String::from_str("self"))
    } else {
        let mut out = p.0.clone();
        out.append(": ");
        out.append(t.as_str());
        Result::Ok(out)
    }
}

fn fn_params_to_reprs(ps: &Vec<(String, TypeExpr)>, from: usize) -> (r: Result<
    Vec<String>,
    FormatError,
>)
    requires
        from <= ps@.len(),
    ensures
        strings_result_view(r) == fn_params_results(ps@.subrange(from as int, ps@.len() as int)),
    decreases *ps, ps@.len() - from,
{
    let ghost sub = ps@.subrange(from as int, ps@.len() as int);
    if from == ps.len() {
        proof {
            assert(sub =~= Seq::<(String, TypeExpr)>::empty());
            assert(strs_view(Seq::<String>::empty()) =~= Seq::<Seq<char>>::empty());
        }
        Result::Ok(Vec::new())
    } else {
        proof {
            assert(sub[0] == ps@[from as int]);
            assert(sub.subrange(1, sub.len() as int) =~= ps@.subrange(
                from as int + 1,
                ps@.len() as int,
            ));
        }
        let head = match fn_param_to_repr(&ps[from]) {
            Result::Ok(s) => s,
            Result::Err(e) => {
                return Result::Err(e);
            },
        };
        let rest = match fn_params_to_reprs(ps, from + 1) {
            Result::Ok(v) => v,
            Result::Err(e) => {
                return Result::Err(e);
            },
        };
        let ghost grest = rest@;
        let ghost ghead = head@;
        let mut out = rest;
        out.insert(0, head);
        proof {
            assert(out@ =~= seq![out@[0]] + grest);
            assert(strs_view(out@) =~= seq![ghead] + strs_view(grest));
        }
        Result::Ok(out)
    }
}

fn unresolved_error(id: usize) -> (r: FormatError)
    ensures
        err_view(r) == (RenderErr::Unresolved { id: id as int, path: Seq::empty() }),
{
    let fe = FormatError::UnresolvedReference { id, path: Vec::new() };
    proof {
        assert(strs_view(Seq::<String>::empty()) =~= Seq::<Seq<char>>::empty());
    }
    fe
}

/// Records the name of the declaration a failure propagates out of.
fn attach_name(e: FormatError, name: &Option<String>) -> (r: FormatError)
    ensures
        err_view(r) == push_err_name(err_view(e), *name),
{
    match name {
        Option::Some(n) => match e {
            FormatError::UnresolvedReference { id, path } => {
                let mut p = path;
                let ghost gp = p@;
                p.push(n.clone());
                proof {
                    assert(strs_view(p@) =~= strs_view(gp).push(n@));
                }
                FormatError::UnresolvedReference { id, path: p }
            },
            FormatError::UnsupportedConstruct { kind, path } => {
                let mut p = path;
                let ghost gp = p@;
                p.push(n.clone());
                proof {
                    assert(strs_view(p@) =~= strs_view(gp).push(n@));
                }
                FormatError::UnsupportedConstruct { kind, path: p }
            },
        },
        Option::None => e,
    }
}

fn gate_allows(v: &Visibility, allow_non_public: bool) -> (r: bool)
    ensures
        r == vis_gate(*v, allow_non_public),
{
    match v {
        Visibility::Public => true,
        Visibility::Default => allow_non_public,
        _ => false,
    }
}

fn has_non_exhaustive_attr(attrs: &Vec<String>) -> (r: bool)
    ensures
        r == has_non_exhaustive(attrs@),
{
    let n = attrs.len();
    let mut k: usize = 0;
    while k < n
        invariant
            k <= n,
            n == attrs@.len(),
            forall|i: int| 0 <= i < k ==> attrs@[i]@ != "#[non_exhaustive]"@,
        decreases n - k,
    {
        if string_eq(&attrs[k], "#[non_exhaustive]") {
            return true;
        }
        k = k + 1;
    }
    false
}

fn required_name(it: &Item) -> (r: String)
    requires
        it.name is Some,
    ensures
        r@ == (match it.name {
            Option::Some(n) => n@,
            Option::None => Seq::<char>::empty(),
        }),
{
    match &it.name {
        Option::Some(n) => n.clone(),
        Option::None => {
            proof {
                assert(false);
            }
            String::new()
        },
    }
}

fn single(s: String) -> (r: Vec<String>)
    ensures
        strs_view(r@) == seq![s@],
{
    let ghost gs = s@;
    let mut v: Vec<String> = Vec::new();
    v.push(s);
    proof {
        assert(strs_view(v@) =~= seq![gs]);
    }
    v
}

/// The rendered tuple slots of a tuple struct, each a type only, with the
/// elision placeholder for a missing or hidden field.
fn tuple_fields_to_reprs(index: &ItemIndex, fields: &Vec<Option<usize>>, from: usize) -> (r: Result<
    Vec<String>,
    FormatError,
>)
    requires
        from <= fields@.len(),
    ensures
        strings_result_view(r) == tuple_fields_results(
            index.items@,
            fields@.subrange(from as int, fields@.len() as int),
        ),
    decreases fields@.len() - from,
{
    let ghost sub = fields@.subrange(from as int, fields@.len() as int);
    if from == fields.len() {
        proof {
            assert(sub =~= Seq::<Option<usize>>::empty());
            assert(strs_view(Seq::<String>::empty()) =~= Seq::<Seq<char>>::empty());
        }
        Result::Ok(Vec::new())
    } else {
        proof {
            assert(sub[0] == fields@[from as int]);
            assert(sub.subrange(1, sub.len() as int) =~= fields@.subrange(
                from as int + 1,
                fields@.len() as int,
            ));
        }
        let head: String = match &fields[from] {
            Option::None => String::from_str("_"),
            Option::Some(fid) => {
                if *fid >= index.items.len() {
                    return Result::Err(unresolved_error(*fid));
                }
                let it = &index.items[*fid];
                if !gate_allows(&it.visibility, false) {
                    String::from_str("_")
                } else {
                    match &it.inner {
                        ItemEnum::StructField { type_ } => match type_to_repr(type_) {
                            Result::Ok(s) => s,
                            Result::Err(e) => {
                                return Result::Err(e);
                            },
                        },
                        _ => {
                            let kind = String::from_str("non-field tuple slot");
                            return Result::Err(unsupported_error(&kind));
                        },
                    }
                }
            },
        };
        let rest = match tuple_fields_to_reprs(index, fields, from + 1) {
            Result::Ok(v) => v,
            Result::Err(e) => {
                return Result::Err(e);
            },
        };
        let ghost grest = rest@;
        let ghost ghead = head@;
        let mut out = rest;
        out.insert(0, head);
        proof {
            assert(out@ =~= seq![out@[0]] + grest);
            assert(strs_view(out@) =~= seq![ghead] + strs_view(grest));
        }
        Result::Ok(out)
    }
}

/// The lines of a plain struct body, each field indented and terminated by
/// a comma.
fn field_lines_text(lines: &Vec<String>, from: usize) -> (r: String)
    requires
        from <= lines@.len(),
    ensures
        r@ == field_lines(strs_view(lines@).subrange(from as int, lines@.len() as int)),
    decreases lines@.len() - from,
{
    let ghost sub = strs_view(lines@).subrange(from as int, lines@.len() as int);
    if from == lines.len() {
        proof {
            assert(sub =~= Seq::<Seq<char>>::empty());
        }
        String::new()
    } else {
        proof {
            assert(sub[0] == lines@[from as int]@);
            assert(sub.drop_first() =~= strs_view(lines@).subrange(
                from as int + 1,
                lines@.len() as int,
            ));
        }
        let mut out = String::from_str("\n    ");
        out.append(lines[from].as_str());
        out.append(",");
        let rest = field_lines_text(lines, from + 1);
        out.append(rest.as_str());
        proof {
            assert(out@ =~= "\n    "@ + sub[0] + ","@ + field_lines(sub.drop_first()));
        }
        out
    }
}

/// The lines of a trait body, each associated item indented.
fn trait_lines_text(lines: &Vec<String>, from: usize) -> (r: String)
    requires
        from <= lines@.len(),
    ensures
        r@ == trait_lines(strs_view(lines@).subrange(from as int, lines@.len() as int)),
    decreases lines@.len() - from,
{
    let ghost sub = strs_view(lines@).subrange(from as int, lines@.len() as int);
    if from == lines.len() {
        proof {
            assert(sub =~= Seq::<Seq<char>>::empty());
        }
        String::new()
    } else {
        proof {
            assert(sub[0] == lines@[from as int]@);
            assert(sub.drop_first() =~= strs_view(lines@).subrange(
                from as int + 1,
                lines@.len() as int,
            ));
        }
        let mut out = String::from_str("\n    ");
        out.append(lines[from].as_str());
        let rest = trait_lines_text(lines, from + 1);
        out.append(rest.as_str());
        proof {
            assert(out@ =~= "\n    "@ + sub[0] + trait_lines(sub.drop_first()));
        }
        out
    }
}

/// The flattened renderings of a list of child declarations.
fn format_children(
    index: &ItemIndex,
    ids: &Vec<usize>,
    from: usize,
    parent: usize,
    allow_non_public: bool,
) -> (r: Result<Vec<String>, FormatError>)
    requires
        index.wf(),
        parent < index.items@.len(),
        from <= ids@.len(),
        forall|k: int| 0 <= k < ids@.len() ==> ids@[k] > parent,
    ensures
        strings_result_view(r) == child_items_results(
            index.items@,
            ids@.subrange(from as int, ids@.len() as int),
            parent as int,
            allow_non_public,
        ),
    decreases rank_of(index.items@, parent as int), 0int, ids@.len() - from,
{
    let ghost sub = ids@.subrange(from as int, ids@.len() as int);
    if from == ids.len() {
        proof {
            assert(sub =~= Seq::<usize>::empty());
            assert(strs_view(Seq::<String>::empty()) =~= Seq::<Seq<char>>::empty());
        }
        Result::Ok(Vec::new())
    } else {
        proof {
            assert(sub[0] == ids@[from as int]);
            assert(sub.subrange(1, sub.len() as int) =~= ids@.subrange(
                from as int + 1,
                ids@.len() as int,
            ));
        }
        let head = match format_item(index, ids[from], allow_non_public) {
            Result::Ok(v) => v,
            Result::Err(e) => {
                return Result::Err(e);
            },
        };
        let mut rest = match format_children(index, ids, from + 1, parent, allow_non_public) {
            Result::Ok(v) => v,
            Result::Err(e) => {
                return Result::Err(e);
            },
        };
        let ghost ghead = head@;
        let ghost grest = rest@;
        let mut out = head;
        out.append(&mut rest);
        proof {
            assert(strs_view(out@) =~= strs_view(ghead) + strs_view(grest));
        }
        Result::Ok(out)
    }
}

/// The first rendered string of each child that renders to anything.
fn format_first_strings(
    index: &ItemIndex,
    ids: &Vec<usize>,
    from: usize,
    parent: usize,
    allow_non_public: bool,
) -> (r: Result<Vec<String>, FormatError>)
    requires
        index.wf(),
        parent < index.items@.len(),
        from <= ids@.len(),
        forall|k: int| 0 <= k < ids@.len() ==> ids@[k] > parent,
    ensures
        strings_result_view(r) == first_strings_results(
            index.items@,
            ids@.subrange(from as int, ids@.len() as int),
            parent as int,
            allow_non_public,
        ),
    decreases rank_of(index.items@, parent as int), 0int, ids@.len() - from,
{
    let ghost sub = ids@.subrange(from as int, ids@.len() as int);
    if from == ids.len() {
        proof {
            assert(sub =~= Seq::<usize>::empty());
            assert(strs_view(Seq::<String>::empty()) =~= Seq::<Seq<char>>::empty());
        }
        Result::Ok(Vec::new())
    } else {
        proof {
            assert(sub[0] == ids@[from as int]);
            assert(sub.subrange(1, sub.len() as int) =~= ids@.subrange(
                from as int + 1,
                ids@.len() as int,
            ));
        }
        let mut head = match format_item(index, ids[from], allow_non_public) {
            Result::Ok(v) => v,
            Result::Err(e) => {
                return Result::Err(e);
            },
        };
        let rest = match format_first_strings(index, ids, from + 1, parent, allow_non_public) {
            Result::Ok(v) => v,
            Result::Err(e) => {
                return Result::Err(e);
            },
        };
        let ghost ghead = head@;
        let ghost grest = rest@;
        if head.len() > 0 {
            let first = head.remove(0);
            let ghost gfirst = first@;
            let mut out = rest;
            out.insert(0, first);
            proof {
                assert(gfirst == strs_view(ghead)[0]);
                assert(out@ =~= seq![out@[0]] + grest);
                assert(strs_view(out@) =~= seq![strs_view(ghead)[0]] + strs_view(grest));
            }
            Result::Ok(out)
        } else {
            proof {
                assert(strs_view(grest) =~= (if strs_view(ghead).len() > 0 {
                    seq![strs_view(ghead)[0]]
                } else {
                    Seq::<Seq<char>>::empty()
                }) + strs_view(grest));
            }
            Result::Ok(rest)
        }
    }
}

/// The formatter: the rendered declaration strings of one node of the
/// index, an empty result where the visibility gate closes, or the first
/// failure, naming the offending construct and the path of containing
/// declarations.
pub fn format_item(index: &ItemIndex, id: usize, allow_non_public: bool) -> (r: Result<
    Vec<String>,
    FormatError,
>)
    requires
        index.wf(),
    ensures
        strings_result_view(r) == item_result(index.items@, id as int, allow_non_public),
    decreases rank_of(index.items@, id as int), 2int, 0int,
{
    if id >= index.items.len() {
        return Result::Err(unresolved_error(id));
    }
    let it = &index.items[id];
    if !gate_allows(&it.visibility, allow_non_public) {
        proof {
            assert(strs_view(Seq::<String>::empty()) =~= Seq::<Seq<char>>::empty());
        }
        return Result::Ok(Vec::new());
    }
    match format_item_body(index, id, allow_non_public) {
        Result::Ok(v) => Result::Ok(v),
        Result::Err(e) => Result::Err(attach_name(e, &it.name)),
    }
}

#[verifier::rlimit(100)]
#[verifier::spinoff_prover]
fn format_item_body(index: &ItemIndex, id: usize, allow_non_public: bool) -> (r: Result<
    Vec<String>,
    FormatError,
>)
    requires
        index.wf(),
        id < index.items@.len(),
    ensures
        strings_result_view(r) == item_body_result(index.items@, id as int, allow_non_public),
    decreases rank_of(index.items@, id as int), 1int, 0int,
{
    let ghost gitems = index.items@;
    let it = &index.items[id];
    match &it.inner {
        ItemEnum::Module { items: ids } => {
            proof {
                assert(item_children(gitems[id as int]) =~= ids@);
                assert forall|k: int| 0 <= k < ids@.len() implies ids@[k] > id as int by {
                    assert(item_children(gitems[id as int])[k] > id as int);
                }
                assert(ids@.subrange(0, ids@.len() as int) =~= ids@);
            }
            format_children(index, ids, 0, id, allow_non_public)
        },
        ItemEnum::Import => {
            proof {
                assert(strs_view(Seq::<String>::empty()) =~= Seq::<Seq<char>>::empty());
            }
            Result::Ok(Vec::new())
        },
        ItemEnum::Struct { kind, generics } => {
            let gw = match generics_to_repr(generics) {
                Result::Ok(gw) => gw,
                Result::Err(e) => {
                    return Result::Err(e);
                },
            };
            let vis = vis_prefix_repr(&it.visibility);
            let name = required_name(it);
            match kind {
                StructKind::Unit => {
                    let mut out = vis;
                    out.append("struct ");
                    out.append(name.as_str());
                    out.append(gw.0.as_str());
                    out.append(gw.1.as_str());
                    Result::Ok(single(out))
                },
                StructKind::Tuple { fields } => {
                    proof {
                        assert(fields@.subrange(0, fields@.len() as int) =~= fields@);
                    }
                    let fs = match tuple_fields_to_reprs(index, fields, 0) {
                        Result::Ok(v) => v,
                        Result::Err(e) => {
                            return Result::Err(e);
                        },
                    };
                    let mut out = vis;
                    out.append("struct ");
                    out.append(name.as_str());
                    out.append(gw.0.as_str());
                    out.append("(");
                    let j = comma_separated(&fs);
                    out.append(j.as_str());
                    out.append(")");
                    out.append(gw.1.as_str());
                    Result::Ok(single(out))
                },
                StructKind::Plain { fields, has_stripped_fields } => {
                    proof {
                        assert(struct_kind_children(*kind) =~= fields@);
                        assert(item_children(gitems[id as int]) =~= fields@);
                        assert forall|k: int| 0 <= k < fields@.len() implies fields@[k]
                            > id as int by {
                            assert(item_children(gitems[id as int])[k] > id as int);
                        }
                        assert(fields@.subrange(0, fields@.len() as int) =~= fields@);
                    }
                    let lines = match format_first_strings(index, fields, 0, id, false) {
                        Result::Ok(v) => v,
                        Result::Err(e) => {
                            return Result::Err(e);
                        },
                    };
                    let mut out = if has_non_exhaustive_attr(&it.attrs) {
                        String::from_str("#[non_exhaustive]\n")
                    } else {
                        String::new()
                    };
                    out.append(vis.as_str());
                    out.append("struct ");
                    out.append(name.as_str());
                    out.append(gw.0.as_str());
                    out.append(gw.1.as_str());
                    out.append(" {");
                    let fl = field_lines_text(&lines, 0);
                    out.append(fl.as_str());
                    if *has_stripped_fields {
                        out.append("/* private fields */");
                    }
                    if lines.len() > 0 {
                        out.append("\n");
                    }
                    out.append("}");
                    proof {
                        assert(strs_view(lines@).subrange(0, lines@.len() as int) =~= strs_view(
                            lines@,
                        ));
                    }
                    Result::Ok(single(out))
                },
            }
        },
        ItemEnum::StructField { type_ } => {
            let t = match type_to_repr(type_) {
                Result::Ok(s) => s,
                Result::Err(e) => {
                    return Result::Err(e);
                },
            };
            let mut out = vis_prefix_repr(&it.visibility);
            match &it.name {
                Option::Some(n) => {
                    out.append(n.as_str());
                    out.append(": ");
                    out.append(t.as_str());
                },
                Option::None => {
                    out.append(t.as_str());
                },
            }
            proof {
                assert(out@ =~= vis_prefix(it.visibility) + (match it.name {
                    Option::Some(n) => n@ + ": "@ + t@,
                    Option::None => t@,
                }));
            }
            Result::Ok(single(out))
        },
        ItemEnum::Function { inputs, output, is_const, is_unsafe, is_async, generics } => {
            proof {
                assert(inputs@.subrange(0, inputs@.len() as int) =~= inputs@);
            }
            let prs = match fn_params_to_reprs(inputs, 0) {
                Result::Ok(v) => v,
                Result::Err(e) => {
                    return Result::Err(e);
                },
            };
            let gw = match generics_to_repr(generics) {
                Result::Ok(gw) => gw,
                Result::Err(e) => {
                    return Result::Err(e);
                },
            };
            let outs: String = match output {
                Option::None => String::new(),
                Option::Some(o) => {
                    let os = match type_to_repr(o) {
                        Result::Ok(s) => s,
                        Result::Err(e) => {
                            return Result::Err(e);
                        },
                    };
                    let mut x = String::from_str(" -> ");
                    x.append(os.as_str());
                    x
                },
            };
            let mut out = vis_prefix_repr(&it.visibility);
            if *is_const {
                out.append("const ");
            }
            if *is_unsafe {
                out.append("unsafe ");
            }
            if *is_async {
                out.append("async ");
            }
            out.append("fn ");
            let name = required_name(it);
            out.append(name.as_str());
            out.append(gw.0.as_str());
            out.append("(");
            let j = comma_separated(&prs);
            out.append(j.as_str());
            out.append(")");
            out.append(outs.as_str());
            out.append(gw.1.as_str());
            proof {
                assert(out@ =~= vis_prefix(it.visibility) + fn_qualifiers(
                    *is_const,
                    *is_unsafe,
                    *is_async,
                ) + "fn "@ + name@ + gw.0@ + "("@ + comma_join(strs_view(prs@)) + ")"@ + outs@
                    + gw.1@);
            }
            Result::Ok(single(out))
        },
        ItemEnum::Trait { is_auto, is_unsafe, items: ids, generics, bounds } => {
            let gw = match generics_to_repr(generics) {
                Result::Ok(gw) => gw,
                Result::Err(e) => {
                    return Result::Err(e);
                },
            };
            proof {
                assert(bounds@.subrange(0, bounds@.len() as int) =~= bounds@);
            }
            let bsr = match bounds_to_reprs(bounds, 0) {
                Result::Ok(v) => v,
                Result::Err(e) => {
                    return Result::Err(e);
                },
            };
            let bj = plus_separated(&bsr);
            let bpart: String = if bj.as_str().is_empty() {
                bj
            } else {
                let mut x = String::from_str(": ");
                x.append(bj.as_str());
                x
            };
            proof {
                assert(item_children(gitems[id as int]) =~= ids@);
                assert forall|k: int| 0 <= k < ids@.len() implies ids@[k] > id as int by {
                    assert(item_children(gitems[id as int])[k] > id as int);
                }
                assert(ids@.subrange(0, ids@.len() as int) =~= ids@);
            }
            let lines = match format_first_strings(index, ids, 0, id, true) {
                Result::Ok(v) => v,
                Result::Err(e) => {
                    return Result::Err(e);
                },
            };
            let mut out = vis_prefix_repr(&it.visibility);
            if *is_auto {
                out.append("auto ");
            }
            if *is_unsafe {
                out.append("unsafe ");
            }
            out.append("trait ");
            let name = required_name(it);
            out.append(name.as_str());
            out.append(gw.0.as_str());
            out.append(bpart.as_str());
            out.append(gw.1.as_str());
            out.append(" {");
            let tl = trait_lines_text(&lines, 0);
            out.append(tl.as_str());
            out.append("\n}");
            proof {
                assert(strs_view(lines@).subrange(0, lines@.len() as int) =~= strs_view(lines@));
                assert(out@ =~= vis_prefix(it.visibility) + (if *is_auto {
                    "auto "@
                } else {
                    Seq::<char>::empty()
                }) + (if *is_unsafe {
                    "unsafe "@
                } else {
                    Seq::<char>::empty()
                }) + "trait "@ + name@ + gw.0@ + bpart@ + gw.1@ + " {"@ + trait_lines(
                    strs_view(lines@),
                ) + "\n}"@);
            }
            Result::Ok(single(out))
        },
        ItemEnum::AssocConst { type_, default } => {
            let t = match type_to_repr(type_) {
                Result::Ok(s) => s,
                Result::Err(e) => {
                    return Result::Err(e);
                },
            };
            let mut out = String::from_str("const ");
            let name = required_name(it);
            out.append(name.as_str());
            out.append(": ");
            out.append(t.as_str());
            match default {
                Option::Some(d) => {
                    out.append(" = ");
                    out.append(d.as_str());
                },
                Option::None => {},
            }
            out.append(";");
            proof {
                assert(out@ =~= "const "@ + name@ + ": "@ + t@ + (match default {
                    Option::Some(d) => " = "@ + d@,
                    Option::None => Seq::<char>::empty(),
                }) + ";"@);
            }
            Result::Ok(single(out))
        },
        ItemEnum::AssocType { generics, bounds, default } => {
            let gw = match generics_to_repr(generics) {
                Result::Ok(gw) => gw,
                Result::Err(e) => {
                    return Result::Err(e);
                },
            };
            proof {
                assert(bounds@.subrange(0, bounds@.len() as int) =~= bounds@);
            }
            let bsr = match bounds_to_reprs(bounds, 0) {
                Result::Ok(v) => v,
                Result::Err(e) => {
                    return Result::Err(e);
                },
            };
            let bpart: String = if bounds.len() > 0 {
                let mut x = String::from_str(" ");
                let j = plus_separated(&bsr);
                x.append(j.as_str());
                x
            } else {
                String::new()
            };
            let mut out = String::from_str("type ");
            let name = required_name(it);
            out.append(name.as_str());
            out.append(gw.0.as_str());
            out.append(bpart.as_str());
            match default {
                Option::None => {
                    out.append(gw.1.as_str());
                    out.append(";");
                    proof {
                        assert(out@ =~= "type "@ + name@ + gw.0@ + bpart@ + gw.1@ + ";"@);
                    }
                    Result::Ok(single(out))
                },
                Option::Some(d) => {
                    let ds = match type_to_repr(d) {
                        Result::Ok(s) => s,
                        Result::Err(e) => {
                            return Result::Err(e);
                        },
                    };
                    out.append(" = ");
                    out.append(ds.as_str());
                    out.append(gw.1.as_str());
                    out.append(";");
                    proof {
                        assert(out@ =~= "type "@ + name@ + gw.0@ + bpart@ + " = "@ + ds@ + gw.1@
                            + ";"@);
                    }
                    Result::Ok(single(out))
                },
            }
        },
        ItemEnum::Unsupported { kind } => Result::Err(unsupported_error(kind)),
    }
}

} // verus!
