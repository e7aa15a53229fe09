//! Parameter binding for lambdas and macros: a parameter form is a vector
//! or pair chain of symbols, with `&optional` and `&rest` markers (a
//! dotted tail is shorthand for `&rest`).

use vstd::prelude::*;

use crate::strutil::str_eq;
use crate::types::{
    chain_elems, lemma_v_seq_index, lemma_v_seq_len, v_expr, v_seq, Atom, ErrKind, Error,
    Expression, Vx,
};

verus! {

broadcast use lemma_v_seq_len, lemma_v_seq_index;

/// The bindings produced by matching parameter names against argument
/// values: required names take arguments one for one, names after
/// `&optional` fall back to `nil`, and the single name after `&rest`
/// collects whatever remains as a vector.  `None` is a binding failure
/// (missing required argument, extra arguments, or a malformed marker).
pub open spec fn bind_spec(names: Seq<Seq<char>>, args: Seq<Vx>, opt: bool) -> Option<
    Map<Seq<char>, Vx>,
>
    decreases names.len(),
{
    if names.len() == 0 {
        if args.len() == 0 {
            Some(Map::empty())
        } else {
            None
        }
    } else if names[0] == "&optional"@ {
        bind_spec(names.drop_first(), args, true)
    } else if names[0] == "&rest"@ {
        if names.len() == 2 && names[1] != "&optional"@ && names[1] != "&rest"@ {
            Some(Map::empty().insert(names[1], Vx::Vector(args)))
        } else {
            None
        }
    } else if args.len() > 0 {
        match bind_spec(names.drop_first(), args.drop_first(), opt) {
            Some(m) => Some(m.insert(names[0], args[0])),
            None => None,
        }
    } else if opt {
        match bind_spec(names.drop_first(), args, true) {
            Some(m) => Some(m.insert(names[0], Vx::Nil)),
            None => None,
        }
    } else {
        None
    }
}

/// The parameter names a parameter form declares, in order: the symbols of
/// a vector or proper pair chain; a dotted tail symbol becomes a trailing
/// `&rest` pair.  `None` when the form is not made of symbols.
pub open spec fn param_names(p: Vx) -> Option<Seq<Seq<char>>>
    decreases p, 1int,
{
    match p {
        Vx::Vector(es) => syms_of(es, 0),
        Vx::Nil => Some(Seq::empty()),
        Vx::Pair(_, _) => chain_param_names(p),
        Vx::Sym(s) => Some(seq!["&rest"@, s]),
        _ => None,
    }
}

/// The names of a sequence of symbol forms from position `i` on.
pub open spec fn syms_of(es: Seq<Vx>, i: int) -> Option<Seq<Seq<char>>>
    decreases es, 0int, es.len() - i,
{
    if i < 0 {
        None
    } else if i >= es.len() {
        Some(Seq::empty())
    } else {
        match es[i] {
            Vx::Sym(s) => match syms_of(es, i + 1) {
                Some(r) => Some(seq![s] + r),
                None => None,
            },
            _ => None,
        }
    }
}

/// The names of a pair-chain parameter form; a dotted (symbol) tail turns
/// into `&rest` followed by that name.
pub open spec fn chain_param_names(p: Vx) -> Option<Seq<Seq<char>>>
    decreases p, 0int,
{
    match p {
        Vx::Nil => Some(Seq::empty()),
        Vx::Sym(s) => Some(seq!["&rest"@, s]),
        Vx::Pair(a, d) => match *a {
            Vx::Sym(s) => match chain_param_names(*d) {
                Some(r) => Some(seq![s] + r),
                None => None,
            },
            _ => None,
        },
        _ => None,
    }
}

/// Extract the declared parameter names of a parameter form.
pub fn collect_param_names(p: &Expression) -> (r: Result<Vec<String>, Error>)
    ensures
        match r {
            Ok(names) => param_names(v_expr(*p)) matches Some(ns) && names@.len() == ns.len()
                && (forall|i: int| 0 <= i < ns.len() ==> (#[trigger] names@[i])@ == ns[i]),
            Err(e) => param_names(v_expr(*p)) is None && e.kind == ErrKind::TypeMismatch,
        },
    decreases p, 1int,
{
    match p {
        Expression::Atom(Atom::Nil) => Ok(Vec::new()),
        Expression::Atom(Atom::Symbol(s)) => {
            let mut out: Vec<String> = Vec::new();
            out.push(String::from_str("&rest"));
            out.push(s.clone());
            proof {
                reveal_strlit("&rest");
            }
            Ok(out)
        },
        Expression::Vector(l) => collect_vec_param_names(l, 0),
        Expression::Pair(_, _) => collect_chain_param_names(p),
        _ => Err(Error::new(ErrKind::TypeMismatch, "parameter form must hold symbols")),
    }
}

fn collect_vec_param_names(l: &Vec<Expression>, i: usize) -> (r: Result<Vec<String>, Error>)
    ensures
        match r {
            Ok(names) => syms_of(v_seq(l@), i as int) matches Some(ns) && names@.len() == ns.len()
                && (forall|k: int| 0 <= k < ns.len() ==> (#[trigger] names@[k])@ == ns[k]),
            Err(e) => syms_of(v_seq(l@), i as int) is None && e.kind == ErrKind::TypeMismatch,
        },
    decreases l@.len() - i,
{
    if i >= l.len() {
        let out: Vec<String> = Vec::new();
        return Ok(out);
    }
    match &l[i] {
        Expression::Atom(Atom::Symbol(s)) => {
            match collect_vec_param_names(l, i + 1) {
                Ok(mut rest) => {
                    rest.insert(0, s.clone());
                    proof {
                        assert(v_seq(l@)[i as int] == v_expr(l@[i as int]));
                        assert(v_expr(l@[i as int]) == Vx::Sym(s@));
                        let ns = syms_of(v_seq(l@), i as int)->Some_0;
                        let tail = syms_of(v_seq(l@), i + 1)->Some_0;
                        assert(ns =~~= seq![s@] + tail);
                    }
                    Ok(rest)
                },
                Err(e) => Err(e),
            }
        },
        _ => Err(Error::new(ErrKind::TypeMismatch, "parameter form must hold symbols")),
    }
}

fn collect_chain_param_names(p: &Expression) -> (r: Result<Vec<String>, Error>)
    ensures
        match r {
            Ok(names) => chain_param_names(v_expr(*p)) matches Some(ns) && names@.len()
                == ns.len() && (forall|k: int|
                0 <= k < ns.len() ==> (#[trigger] names@[k])@ == ns[k]),
            Err(e) => chain_param_names(v_expr(*p)) is None && e.kind == ErrKind::TypeMismatch,
        },
    decreases p,
{
    match p {
        Expression::Atom(Atom::Nil) => Ok(Vec::new()),
        Expression::Atom(Atom::Symbol(s)) => {
            let mut out: Vec<String> = Vec::new();
            out.push(String::from_str("&rest"));
            out.push(s.clone());
            proof {
                reveal_strlit("&rest");
            }
            Ok(out)
        },
        Expression::Pair(a, d) => {
            match &**a {
                Expression::Atom(Atom::Symbol(s)) => {
                    match collect_chain_param_names(d) {
                        Ok(mut rest) => {
                            rest.insert(0, s.clone());
                            proof {
                                assert(v_expr(**a) == Vx::Sym(s@));
                                assert(v_expr(*p) == Vx::Pair(
                                    Box::new(v_expr(**a)),
                                    Box::new(v_expr(**d)),
                                ));
                                let ns = chain_param_names(v_expr(*p))->Some_0;
                                let tail = chain_param_names(v_expr(**d))->Some_0;
                                assert(ns =~~= seq![s@] + tail);
                            }
                            Ok(rest)
                        },
                        Err(e) => Err(e),
                    }
                },
                _ => Err(Error::new(ErrKind::TypeMismatch, "parameter form must hold symbols")),
            }
        },
        _ => Err(Error::new(ErrKind::TypeMismatch, "parameter form must hold symbols")),
    }
}

/// Bind parameter names to evaluated argument values.
pub fn bind_params(
    names: &Vec<String>,
    ni: usize,
    args: &Vec<Expression>,
    ai: usize,
    opt: bool,
) -> (r: Result<vstd::hash_map::StringHashMap<Expression>, Error>)
    requires
        ai <= args@.len(),
        ni <= names@.len(),
    ensures
        match r {
            Ok(m) => {
                &&& bind_spec(
                    names_suffix(names@, ni as int),
                    v_seq(args@).subrange(ai as int, args@.len() as int),
                    opt,
                ) matches Some(bm)
                &&& m@.map_values(|e: Expression| v_expr(e)) == bm
            },
            Err(e) => bind_spec(
                names_suffix(names@, ni as int),
                v_seq(args@).subrange(ai as int, args@.len() as int),
                opt,
            ) is None && e.kind == ErrKind::ArityMismatch,
        },
    decreases names@.len() - ni,
{
    let ghost ns = names_suffix(names@, ni as int);
    let ghost vs = v_seq(args@).subrange(ai as int, args@.len() as int);
    if ni >= names.len() {
        proof {
            assert(names@.subrange(ni as int, names@.len() as int) =~= Seq::<String>::empty());
            assert(ns =~~= Seq::<Seq<char>>::empty());
        }
        if ai >= args.len() {
            let m = vstd::hash_map::StringHashMap::<Expression>::new();
            proof {
                assert(m@.map_values(|e: Expression| v_expr(e)) =~~= Map::<Seq<char>, Vx>::empty());
                assert(vs =~= Seq::<Vx>::empty());
            }
            Ok(m)
        } else {
            Err(Error::new(ErrKind::ArityMismatch, "too many arguments for this call"))
        }
    } else {
        proof {
            assert(ns.len() == names@.len() - ni);
            assert(ns[0] == names@[ni as int]@);
            assert(ns.drop_first() =~~= names_suffix(names@, ni + 1));
        }
        proof {
            if names@.len() - ni >= 2 {
                assert(ns[1] == names@[ni + 1]@);
            }
        }
        let name = &names[ni];
        if str_eq(name.as_str(), "&optional") {
            bind_params(names, ni + 1, args, ai, true)
        } else if str_eq(name.as_str(), "&rest") {
            if names.len() - ni == 2 && !str_eq(names[ni + 1].as_str(), "&optional") && !str_eq(
                names[ni + 1].as_str(),
                "&rest",
            ) {
                let mut m = vstd::hash_map::StringHashMap::<Expression>::new();
                let mut rest: Vec<Expression> = Vec::new();
                let mut k: usize = ai;
                #[verifier::loop_isolation(false)]
                while k < args.len()
                    invariant
                        ai <= k <= args@.len(),
                        rest@.len() == k - ai,
                        forall|j: int|
                            0 <= j < k - ai ==> v_expr(#[trigger] rest@[j]) == v_expr(
                                args@[ai + j],
                            ),
                    decreases args@.len() - k,
                {
                    rest.push(args[k].duplicate());
                    k += 1;
                }
                proof {
                    assert(v_seq(rest@) =~= vs);
                }
                m.insert(names[ni + 1].clone(), Expression::Vector(rest));
                proof {
                    assert(ns.len() == 2 && ns[1] == names@[ni + 1]@);
                    assert(m@.map_values(|e: Expression| v_expr(e)) =~~= Map::empty().insert(
                        ns[1],
                        Vx::Vector(vs),
                    ));
                }
                Ok(m)
            } else {
                Err(Error::new(ErrKind::ArityMismatch, "&rest takes exactly one name"))
            }
        } else if ai < args.len() {
            proof {
                assert(vs.drop_first() =~= v_seq(args@).subrange(ai + 1, args@.len() as int));
                assert(vs[0] == v_seq(args@)[ai as int]);
            }
            match bind_params(names, ni + 1, args, ai + 1, opt) {
                Ok(mut m) => {
                    let ghost before = m@;
                    m.insert(name.clone(), args[ai].duplicate());
                    proof {
                        assert(m@.map_values(|e: Expression| v_expr(e)) =~~= before.map_values(
                            |e: Expression| v_expr(e),
                        ).insert(ns[0], vs[0]));
                    }
                    Ok(m)
                },
                Err(e) => Err(e),
            }
        } else if opt {
            match bind_params(names, ni + 1, args, ai, true) {
                Ok(mut m) => {
                    proof {
                        assert(vs =~= v_seq(args@).subrange(ai as int, args@.len() as int));
                    }
                    let ghost before = m@;
                    m.insert(name.clone(), Expression::Atom(Atom::Nil));
                    proof {
                        assert(m@.map_values(|e: Expression| v_expr(e)) =~~= before.map_values(
                            |e: Expression| v_expr(e),
                        ).insert(ns[0], Vx::Nil));
                    }
                    Ok(m)
                },
                Err(e) => Err(e),
            }
        } else {
            Err(Error::new(ErrKind::ArityMismatch, "missing required argument"))
        }
    }
}

/// The name views from position `i` on.
pub open spec fn names_suffix(names: Seq<String>, i: int) -> Seq<Seq<char>> {
    names.subrange(i, names.len() as int).map_values(|s: String| s@)
}

} // verus!
