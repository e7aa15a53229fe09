//! The native callables that are not part of the pure fragment: binding
//! forms, lambdas and macros, namespaces, error handling, job control and
//! external commands.

use vstd::prelude::*;

use crate::environment::{
    build_new_namespace, chain_ns_owner, chain_owner, find_ancestor_ns, get_expression,
    get_namespace, get_symbols_scope, lemma_data_v_insert, push_scope,
    remove_expression_current, same_non_scope, set_expression_at, set_expression_current,
    Environment, FormType, IOState,
};
use crate::eval::eval;
use crate::params::{bind_params, collect_param_names};
use crate::port::SysPort;
use crate::semantics::{
    arith_value, chain_holds, compare_value, fold_chk, in_i64, ints_of, sfuel, simple_eval,
    str_eq_chain,
};
use crate::strutil::{split_double_colon, str_eq, usize_to_string};
use crate::types::{
    lemma_v_seq_index, lemma_v_seq_len, v_expr, v_seq, Atom, BuiltinId, ErrKind, Error,
    Expression, Lambda, Macro, Vx,
};

verus! {

broadcast use lemma_v_seq_len, lemma_v_seq_index, crate::types::lemma_v_tab_len, vstd::seq_lib::group_filter_ensures;

/// Evaluate each argument form, left to right.
pub fn eval_args<P: SysPort>(
    env: &mut Environment,
    port: &mut P,
    args: &Vec<Expression>,
    fuel: u64,
) -> (r: Result<Vec<Expression>, Error>)
    requires
        old(env).wf(),
    ensures
        final(env).wf(),
        r matches Ok(vals) ==> vals@.len() == args@.len(),
        crate::semantics::args_eval(*old(env), v_seq(args@), 0) matches Some(res)
            ==> fuel >= crate::semantics::sfuel_tail(v_seq(args@), 0) + 1
            ==> (*final(env) == *old(env) && crate::eval::matches_simple_seq(r, res)),
    decreases fuel,
{
    let ghost vargs = v_seq(args@);
    if fuel == 0 {
        return Err(Error::new(ErrKind::Interrupted, "evaluation budget exhausted"));
    }
    let mut out: Vec<Expression> = Vec::new();
    let mut i: usize = 0;
    #[verifier::loop_isolation(false)]
    while i < args.len()
        invariant
            old(env).wf(),
            env.wf(),
            i <= args@.len(),
            out@.len() == i,
            vargs == v_seq(args@),
            crate::semantics::args_eval(*old(env), vargs, 0) matches Some(res)
                ==> fuel >= crate::semantics::sfuel_tail(vargs, 0) + 1
                ==> (*env == *old(env) && (crate::semantics::args_eval(*old(env), vargs, 0)
                == match crate::semantics::args_eval(*old(env), vargs, i as int) {
                None => None,
                Some(Err(k)) => Some(Err(k)),
                Some(Ok(rest)) => Some(Ok(v_seq(out@) + rest)),
            })),
        decreases args@.len() - i,
    {
        proof {
            if fuel >= crate::semantics::sfuel_tail(vargs, 0) + 1 && i < vargs.len() {
                crate::semantics::lemma_sfuel_tail_elem(vargs, 0, i as int);
            }
        }
        match eval(env, port, &args[i], fuel - 1) {
            Ok(v) => {
                let ghost outv = v_seq(out@);
                out.push(v);
                proof {
                    assert(v_seq(out@) =~= outv.push(v_expr(v)));
                    match crate::semantics::args_eval(*old(env), vargs, i + 1) {
                        Some(Ok(rest2)) => {
                            assert(outv.push(v_expr(v)) + rest2 =~= outv + (seq![v_expr(v)]
                                + rest2));
                        },
                        _ => {},
                    }
                }
            },
            Err(e) => {
                return Err(e);
            },
        }
        i += 1;
    }
    proof {
        assert(v_seq(out@) + Seq::<Vx>::empty() =~= v_seq(out@));
    }
    Ok(out)
}

/// Leave a lexical frame: bring the scope stack back to the length it had
/// when the frame was entered.
fn restore_stack(env: &mut Environment, depth: usize)
    requires
        old(env).wf(),
        1 <= depth,
    ensures
        final(env).wf(),
        same_non_scope(*old(env), *final(env)),
        final(env).scopes == old(env).scopes,
        final(env).current_scope@ == if old(env).current_scope@.len() >= depth {
            old(env).current_scope@.subrange(0, depth as int)
        } else {
            old(env).current_scope@
        },
{
    if env.current_scope.len() >= depth {
        env.current_scope.truncate(depth);
        proof {
            assert(env.current_scope@ == old(env).current_scope@.subrange(0, depth as int));
            assert(env.current_scope@[0] == old(env).current_scope@[0]);
            assert(env.scope_graph_wf());
            crate::environment::lemma_ns_jobs_preserved(*old(env), *env);
        }
    }
}


/// The one lambda call this crate pins down exactly: a single-parameter
/// lambda whose body is that parameter, applied to one fragment-evaluable
/// argument.  Its value must be the argument's value — which forces
/// argument evaluation, parameter binding, the fresh scope, and the body
/// lookup to all do their work.
pub open spec fn identity_call_value(a: Environment, l: Lambda, vargs: Seq<Vx>) -> Option<Vx> {
    match (v_expr(*l.params), v_expr(*l.body)) {
        (Vx::Vector(ps), Vx::Sym(b)) => {
            if ps.len() == 1 && ps[0] == Vx::Sym(b) && b != "&optional"@ && b != "&rest"@ && (
            b.len() == 0 || b[0] != '$') && crate::strutil::first_dc(b) is None
                && !a.dynamic_scope@.contains_key(b) && vargs.len() == 1 {
                match simple_eval(a, vargs[0]) {
                    Some(Ok(v)) => Some(v),
                    _ => None,
                }
            } else {
                None
            }
        },
        _ => None,
    }
}

/// Apply a lambda: evaluate the arguments (unless they already are
/// values), bind the parameters in a fresh scope under the captured scope,
/// and evaluate the body, re-entering it while it requests recurrence.
pub fn apply_lambda<P: SysPort>(
    env: &mut Environment,
    port: &mut P,
    l: &Lambda,
    args: &Vec<Expression>,
    do_eval_args: bool,
    fuel: u64,
) -> (r: Result<Expression, Error>)
    requires
        old(env).wf(),
    ensures
        final(env).wf(),
        do_eval_args ==> (l.capture < old(env).scopes@.len() ==> (identity_call_value(
            *old(env),
            *l,
            v_seq(args@),
        ) matches Some(v) ==> (fuel >= crate::semantics::sfuel_tail(v_seq(args@), 0) + 3 ==> (
        r matches Ok(e) && v_expr(e) == v)))),
    decreases fuel,
{
    let ghost icv = identity_call_value(*old(env), *l, v_seq(args@));
    let ghost g_active = do_eval_args && l.capture < old(env).scopes@.len() && icv is Some
        && fuel >= crate::semantics::sfuel_tail(v_seq(args@), 0) + 3;
    let ghost g_v = icv->Some_0;
    let ghost g_b = v_expr(*l.body)->Sym_0;
    if fuel == 0 {
        return Err(Error::new(ErrKind::Interrupted, "evaluation budget exhausted"));
    }
    if l.capture >= env.scopes.len() {
        return Err(Error::new(ErrKind::NotCallable, "lambda captures an unknown scope"));
    }
    proof {
        match (v_expr(*l.params), v_expr(*l.body)) {
            (Vx::Vector(ps), Vx::Sym(b)) => {
                if ps.len() == 1 && ps[0] == Vx::Sym(b) {
                    let es = seq![Vx::Sym(b)];
                    assert(ps =~= es);
                    assert(crate::params::syms_of(es, 1) == Some(Seq::<Seq<char>>::empty()));
                    assert(crate::params::syms_of(es, 0) == Some(seq![b] + Seq::empty()));
                    assert(seq![b] + Seq::<Seq<char>>::empty() =~= seq![b]);
                    assert(crate::params::param_names(v_expr(*l.params)) == Some(seq![b]));
                }
            },
            _ => {},
        }
    }
    proof {
        if g_active {
            let vargs = v_seq(args@);
            assert(crate::semantics::args_eval(*old(env), vargs, 1) == Some(
                Ok::<Seq<Vx>, ErrKind>(Seq::empty()),
            ));
            assert(crate::semantics::args_eval(*old(env), vargs, 0) == Some(
                Ok::<Seq<Vx>, ErrKind>(seq![g_v] + Seq::empty()),
            ));
        }
    }
    let vals = if do_eval_args {
        match eval_args(env, port, args, fuel - 1) {
            Ok(vals) => vals,
            Err(e) => {
                return Err(e);
            },
        }
    } else {
        let mut out: Vec<Expression> = Vec::new();
        let mut i: usize = 0;
        #[verifier::loop_isolation(false)]
        while i < args.len()
            invariant
                env.wf(),
                i <= args@.len(),
            decreases args@.len() - i,
        {
            out.push(args[i].duplicate());
            i += 1;
        }
        out
    };
    proof {
        if g_active {
            assert(seq![g_v] + Seq::<Vx>::empty() =~= seq![g_v]);
            assert(*env == *old(env));
            assert(v_seq(vals@) == seq![g_v]);
        }
    }
    let names = match collect_param_names(&l.params) {
        Ok(names) => names,
        Err(e) => {
            return Err(e);
        },
    };
    proof {
        match icv {
            Some(v) => {
                if do_eval_args && fuel >= crate::semantics::sfuel_tail(v_seq(args@), 0) + 3 {
                    let b = crate::params::param_names(v_expr(*l.params))->Some_0[0];
                    assert(names@.len() == 1 && names@[0]@ == b);
                    assert(crate::params::names_suffix(names@, 0) =~~= seq![b]);
                    assert(v_seq(vals@).subrange(0, 1) =~= seq![v]);
                    assert(seq![b].drop_first() =~~= Seq::<Seq<char>>::empty());
                    assert(seq![v].drop_first() =~= Seq::<Vx>::empty());
                    assert(crate::params::bind_spec(
                        Seq::<Seq<char>>::empty(),
                        Seq::<Vx>::empty(),
                        false,
                    ) == Some(Map::<Seq<char>, Vx>::empty()));
                    assert(crate::params::bind_spec(seq![b], seq![v], false) == Some(
                        Map::<Seq<char>, Vx>::empty().insert(b, v),
                    ));
                }
            },
            None => {},
        }
    }
    let data = match bind_params(&names, 0, &vals, 0, false) {
        Ok(data) => data,
        Err(e) => {
            return Err(e);
        },
    };
    if l.capture >= env.scopes.len() {
        return Err(Error::new(ErrKind::NotCallable, "lambda captures an unknown scope"));
    }
    let depth = env.current_scope.len();
    let ghost pre = *env;
    let idx = crate::environment::build_new_scope(env, Some(l.capture));
    let scope = &mut env.scopes[idx];
    scope.data = data;
    proof {
        assert(forall|i: int|
            0 <= i < pre.scopes@.len() && i != idx ==> #[trigger] env.scopes@[i]
                == pre.scopes@[i]);
        assert(env.scopes@[idx as int].outer == Some(l.capture));
        assert(env.scopes@[idx as int].name is None);
        assert(env.scope_graph_wf());
        crate::environment::lemma_ns_jobs_preserved(pre, *env);
    }
    push_scope(env, idx);
    let ghost s2 = *env;
    let mut remaining: u64 = fuel - 1;
    let mut result: Result<Expression, Error> = Ok(Expression::Atom(Atom::Nil));
    #[verifier::loop_isolation(false)]
    loop
        invariant
            env.wf(),
            1 <= depth,
            remaining < fuel,
            g_active ==> (*env == s2 && remaining == fuel - 1),
        decreases remaining,
    {
        if remaining == 0 {
            result = Err(Error::new(ErrKind::Interrupted, "evaluation budget exhausted"));
            break ;
        }
        let ghost mid0 = *env;
        env.state.recur_num_args = None;
        proof {
            assert(env.scope_graph_wf());
            crate::environment::lemma_ns_jobs_preserved(mid0, *env);
            if g_active {
                // the fresh frame binds the parameter, so the body (that
                // same symbol) evaluates to the argument's value
                assert(env.current_scope@.last() == idx);
                assert(crate::environment::data_v(env.scopes@[idx as int].data)
                    == Map::<Seq<char>, Vx>::empty().insert(g_b, g_v));
                let ghost dm = crate::environment::data_v(env.scopes@[idx as int].data);
                assert(dm.contains_key(g_b));
                assert(dm.contains_key(g_b) == env.scopes@[idx as int].data@.contains_key(g_b));
                assert(dm[g_b] == v_expr(env.scopes@[idx as int].data@[g_b]));
                assert(env.scopes@[idx as int].data@.contains_key(g_b) && v_expr(
                    env.scopes@[idx as int].data@[g_b],
                ) == g_v);
                assert(crate::environment::chain_lookup(*env, idx as int, g_b) == Some(
                    env.scopes@[idx as int].data@[g_b],
                ));
                assert(!env.dynamic_scope@.contains_key(g_b));
                assert(crate::environment::lookup_full(*env, g_b) == Some(
                    env.scopes@[idx as int].data@[g_b],
                ));
                assert(crate::semantics::sym_eval(*env, g_b) == Some(Ok::<Vx, ErrKind>(g_v)));
                assert(crate::semantics::simple_eval(*env, Vx::Sym(g_b)) == Some(
                    Ok::<Vx, ErrKind>(g_v),
                ));
            }
        }
        let res = eval(env, port, &l.body, remaining);
        remaining = remaining - 1;
        match res {
            Ok(v) => {
                let recur_args = env.state.recur_num_args;
                let ghost mid1 = *env;
                env.state.recur_num_args = None;
                proof {
                    assert(env.scope_graph_wf());
                    crate::environment::lemma_ns_jobs_preserved(mid1, *env);
                }
                match recur_args {
                    Some(n) => {
                        // `recur`: re-bind the parameters from the returned
                        // tuple and run the body again in place.
                        match &v {
                            Expression::Vector(rv) => {
                                if rv.len() != n {
                                    result = Err(
                                        Error::new(
                                            ErrKind::ArityMismatch,
                                            "recur arity does not match",
                                        ),
                                    );
                                    break ;
                                }
                                let data = match bind_params(&names, 0, rv, 0, false) {
                                    Ok(data) => data,
                                    Err(e) => {
                                        result = Err(e);
                                        break ;
                                    },
                                };
                                if idx >= env.scopes.len() {
                                    result = Err(
                                        Error::new(ErrKind::NotCallable, "lost call scope"),
                                    );
                                    break ;
                                }
                                let ghost mid = *env;
                                let scope = &mut env.scopes[idx];
                                scope.data = data;
                                proof {
                                    assert(forall|i: int|
                                        0 <= i < env.scopes@.len() && i != idx
                                            ==> #[trigger] env.scopes@[i] == mid.scopes@[i]);
                                    assert(env.scopes@[idx as int].outer
                                        == mid.scopes@[idx as int].outer);
                                    assert(env.scopes@[idx as int].name
                                        == mid.scopes@[idx as int].name);
                                    assert(env.scope_graph_wf());
                                    crate::environment::lemma_ns_jobs_preserved(mid, *env);
                                }
                            },
                            _ => {
                                result = Ok(v);
                                break ;
                            },
                        }
                    },
                    None => {
                        result = Ok(v);
                        break ;
                    },
                }
            },
            Err(e) => {
                result = Err(e);
                break ;
            },
        }
    }
    restore_stack(env, depth);
    result
}

/// A macro whose expansion this crate pins down exactly: one parameter,
/// the body being that parameter.  Expanding it must hand back the
/// argument form itself — which forces the temporary binding scope, the
/// body lookup and the scope pop to all do their work.
pub open spec fn identity_macro(m: Macro) -> Option<Seq<char>> {
    match (v_expr(*m.params), v_expr(*m.body)) {
        (Vx::Vector(ps), Vx::Sym(b)) => {
            if ps.len() == 1 && ps[0] == Vx::Sym(b) && b != "&optional"@ && b != "&rest"@ && (
            b.len() == 0 || b[0] != '$') && crate::strutil::first_dc(b) is None {
                Some(b)
            } else {
                None
            }
        },
        _ => None,
    }
}

/// Expand a macro call: bind the unevaluated argument forms in a fresh
/// scope under the caller's scope, evaluate the macro body to get the
/// expansion, and (unless only the expansion is wanted) evaluate the
/// expansion in the caller's scope.
pub fn macro_expand<P: SysPort>(
    env: &mut Environment,
    port: &mut P,
    m: &Macro,
    args: &Vec<Expression>,
    eval_result: bool,
    fuel: u64,
) -> (r: Result<Expression, Error>)
    requires
        old(env).wf(),
    ensures
        final(env).wf(),
        !eval_result ==> (identity_macro(*m) matches Some(p) ==> (!old(
            env,
        ).dynamic_scope@.contains_key(p) ==> (args@.len() == 1 ==> (fuel >= 2 ==> (r matches
            Ok(e) && v_expr(e) == v_seq(args@)[0]))))),
    decreases fuel,
{
    let ghost g_active = !eval_result && identity_macro(*m) is Some && !old(
        env,
    ).dynamic_scope@.contains_key(identity_macro(*m)->Some_0) && args@.len() == 1 && fuel >= 2;
    let ghost g_b = identity_macro(*m)->Some_0;
    let ghost g_v = v_seq(args@)[0];
    if fuel == 0 {
        return Err(Error::new(ErrKind::Interrupted, "evaluation budget exhausted"));
    }
    proof {
        if g_active {
            let es = seq![Vx::Sym(g_b)];
            assert(v_expr(*m.params) == Vx::Vector(es)) by {
                match v_expr(*m.params) {
                    Vx::Vector(ps) => {
                        assert(ps =~= es);
                    },
                    _ => {},
                }
            }
            assert(crate::params::syms_of(es, 1) == Some(Seq::<Seq<char>>::empty()));
            assert(crate::params::syms_of(es, 0) == Some(seq![g_b] + Seq::empty()));
            assert(seq![g_b] + Seq::<Seq<char>>::empty() =~= seq![g_b]);
            assert(crate::params::param_names(v_expr(*m.params)) == Some(seq![g_b]));
        }
    }
    let names = match collect_param_names(&m.params) {
        Ok(names) => names,
        Err(e) => {
            return Err(e);
        },
    };
    proof {
        if g_active {
            assert(names@.len() == 1 && names@[0]@ == g_b);
            assert(crate::params::names_suffix(names@, 0) =~~= seq![g_b]);
            assert(v_seq(args@).subrange(0, 1) =~= seq![g_v]);
            assert(seq![g_b].drop_first() =~~= Seq::<Seq<char>>::empty());
            assert(seq![g_v].drop_first() =~= Seq::<Vx>::empty());
            assert(crate::params::bind_spec(
                Seq::<Seq<char>>::empty(),
                Seq::<Vx>::empty(),
                false,
            ) == Some(Map::<Seq<char>, Vx>::empty()));
            assert(crate::params::bind_spec(seq![g_b], seq![g_v], false) == Some(
                Map::<Seq<char>, Vx>::empty().insert(g_b, g_v),
            ));
        }
    }
    let data = match bind_params(&names, 0, args, 0, false) {
        Ok(data) => data,
        Err(e) => {
            return Err(e);
        },
    };
    let depth = env.current_scope.len();
    let ghost pre = *env;
    let cur = env.cur();
    let idx = crate::environment::build_new_scope(env, Some(cur));
    let scope = &mut env.scopes[idx];
    scope.data = data;
    proof {
        assert(forall|i: int|
            0 <= i < pre.scopes@.len() && i != idx ==> #[trigger] env.scopes@[i]
                == pre.scopes@[i]);
        assert(env.scopes@[idx as int].outer == Some(cur));
        assert(env.scopes@[idx as int].name is None);
        assert(env.scope_graph_wf());
        crate::environment::lemma_ns_jobs_preserved(pre, *env);
    }
    push_scope(env, idx);
    proof {
        if g_active {
            assert(env.current_scope@.last() == idx);
            let ghost dm = crate::environment::data_v(env.scopes@[idx as int].data);
            assert(dm == Map::<Seq<char>, Vx>::empty().insert(g_b, g_v));
            assert(dm.contains_key(g_b));
            assert(dm.contains_key(g_b) == env.scopes@[idx as int].data@.contains_key(g_b));
            assert(dm[g_b] == v_expr(env.scopes@[idx as int].data@[g_b]));
            assert(crate::environment::chain_lookup(*env, idx as int, g_b) == Some(
                env.scopes@[idx as int].data@[g_b],
            ));
            assert(!env.dynamic_scope@.contains_key(g_b));
            assert(crate::environment::lookup_full(*env, g_b) == Some(
                env.scopes@[idx as int].data@[g_b],
            ));
            assert(crate::semantics::sym_eval(*env, g_b) == Some(Ok::<Vx, ErrKind>(g_v)));
            assert(crate::semantics::simple_eval(*env, Vx::Sym(g_b)) == Some(
                Ok::<Vx, ErrKind>(g_v),
            ));
        }
    }
    let expansion = eval(env, port, &m.body, fuel - 1);
    restore_stack(env, depth);
    match expansion {
        Ok(exp) => {
            if eval_result {
                eval(env, port, &exp, fuel - 1)
            } else {
                Ok(exp)
            }
        },
        Err(e) => Err(e),
    }
}

/// `fn`: build a lambda capturing the innermost scope.
pub fn builtin_fn(env: &Environment, args: &Vec<Expression>) -> (r: Result<Expression, Error>)
    requires
        env.wf(),
    ensures
        args@.len() == 2 ==> (r matches Ok(e) && v_expr(e) == Vx::Lambda(
            Box::new(v_seq(args@)[0]),
            Box::new(v_seq(args@)[1]),
            env.spec_cur(),
        )),
        args@.len() != 2 ==> (r matches Err(er) && er.kind == ErrKind::ArityMismatch),
{
    if args.len() != 2 {
        return Err(Error::new(ErrKind::ArityMismatch, "fn takes a parameter form and a body"));
    }
    let cur = env.cur();
    Ok(
        Expression::Atom(
            Atom::Lambda(
                Lambda {
                    params: Box::new(args[0].duplicate()),
                    body: Box::new(args[1].duplicate()),
                    capture: cur,
                },
            ),
        ),
    )
}

/// `macro`: build a macro (no captured scope).
pub fn builtin_macro(args: &Vec<Expression>) -> (r: Result<Expression, Error>)
    ensures
        args@.len() == 2 ==> (r matches Ok(e) && v_expr(e) == Vx::Macro(
            Box::new(v_seq(args@)[0]),
            Box::new(v_seq(args@)[1]),
        )),
        args@.len() != 2 ==> (r matches Err(er) && er.kind == ErrKind::ArityMismatch),
{
    if args.len() != 2 {
        return Err(Error::new(ErrKind::ArityMismatch, "macro takes a parameter form and a body"));
    }
    Ok(
        Expression::Atom(
            Atom::Macro(
                Macro {
                    params: Box::new(args[0].duplicate()),
                    body: Box::new(args[1].duplicate()),
                },
            ),
        ),
    )
}

/// `recur`: evaluate the arguments and hand them back as the recurrence
/// tuple, flagging the enclosing lambda to re-enter its body.
pub fn builtin_recur<P: SysPort>(
    env: &mut Environment,
    port: &mut P,
    args: &Vec<Expression>,
    fuel: u64,
) -> (r: Result<Expression, Error>)
    requires
        old(env).wf(),
    ensures
        final(env).wf(),
        r matches Ok(_) ==> final(env).state.recur_num_args == Some(args@.len() as usize),
    decreases fuel,
{
    if fuel == 0 {
        return Err(Error::new(ErrKind::Interrupted, "evaluation budget exhausted"));
    }
    let vals = match eval_args(env, port, args, fuel - 1) {
        Ok(vals) => vals,
        Err(e) => {
            return Err(e);
        },
    };
    let ghost mid = *env;
    env.state.recur_num_args = Some(args.len());
    proof {
        assert(env.scope_graph_wf());
        crate::environment::lemma_ns_jobs_preserved(mid, *env);
    }
    Ok(Expression::Vector(vals))
}

/// Every native form outside the pure fragment.
pub fn call_other_builtin<P: SysPort>(
    env: &mut Environment,
    port: &mut P,
    b: BuiltinId,
    args: &Vec<Expression>,
    fuel: u64,
) -> (r: Result<Expression, Error>)
    requires
        old(env).wf(),
    ensures
        final(env).wf(),
    decreases fuel,
{
    if fuel == 0 {
        return Err(Error::new(ErrKind::Interrupted, "evaluation budget exhausted"));
    }
    match b {
        BuiltinId::Fn => builtin_fn(env, args),
        BuiltinId::Macro => builtin_macro(args),
        BuiltinId::Recur => builtin_recur(env, port, args, fuel - 1),
        BuiltinId::Def => builtin_def(env, port, args, fuel - 1),
        BuiltinId::SetVar => builtin_set(env, port, args, fuel - 1),
        BuiltinId::Undef => builtin_undef(env, port, args, fuel - 1),
        BuiltinId::Dyn => builtin_dyn(env, port, args, fuel - 1),
        BuiltinId::NsCreate => builtin_ns_create(env, port, args, fuel - 1),
        BuiltinId::NsEnter => builtin_ns_enter(env, port, args, fuel - 1),
        BuiltinId::NsExists => builtin_ns_exists(env, port, args, fuel - 1),
        BuiltinId::NsList => builtin_ns_list(env, args),
        BuiltinId::Command => builtin_with_form_type(
            env,
            port,
            args,
            FormType::ExternalOnly,
            fuel - 1,
        ),
        BuiltinId::Form => builtin_with_form_type(env, port, args, FormType::FormOnly, fuel - 1),
        BuiltinId::LooseSymbols => builtin_loose_symbols(env, port, args, fuel - 1),
        BuiltinId::RunBg => builtin_run_bg(env, port, args, fuel - 1),
        BuiltinId::GetError => builtin_get_error(env, port, args, fuel - 1),
        BuiltinId::UnwindProtect => builtin_unwind_protect(env, port, args, fuel - 1),
        BuiltinId::GlobalScope => builtin_is_global_scope(env, args),
        BuiltinId::Gensym => builtin_gensym(env, args),
        BuiltinId::Exit => builtin_exit(env, port, args, fuel - 1),
        BuiltinId::Version => builtin_version(args),
        BuiltinId::ErrorStackOn => builtin_error_stack(env, args, true),
        BuiltinId::ErrorStackOff => builtin_error_stack(env, args, false),
        BuiltinId::ErrForm => builtin_err(env, port, args, fuel - 1),
        BuiltinId::Format => builtin_format(env, port, args, fuel - 1),
        BuiltinId::IsDef => builtin_is_def(env, port, args, fuel - 1),
        BuiltinId::ToSymbol => builtin_to_symbol(env, port, args, fuel - 1),
        BuiltinId::Add => builtin_arith(env, port, BuiltinId::Add, args, fuel - 1),
        BuiltinId::Sub => builtin_arith(env, port, BuiltinId::Sub, args, fuel - 1),
        BuiltinId::Mul => builtin_arith(env, port, BuiltinId::Mul, args, fuel - 1),
        BuiltinId::Equal => builtin_compare(env, port, BuiltinId::Equal, args, fuel - 1),
        BuiltinId::Less => builtin_compare(env, port, BuiltinId::Less, args, fuel - 1),
        BuiltinId::LessEqual => builtin_compare(env, port, BuiltinId::LessEqual, args, fuel - 1),
        BuiltinId::Greater => builtin_compare(env, port, BuiltinId::Greater, args, fuel - 1),
        BuiltinId::GreaterEqual => builtin_compare(
            env,
            port,
            BuiltinId::GreaterEqual,
            args,
            fuel - 1,
        ),
        BuiltinId::Length => builtin_length(env, port, args, fuel - 1),
        BuiltinId::Eval => builtin_eval_form(env, port, args, fuel - 1),
        BuiltinId::FnCall => builtin_fncall(env, port, args, fuel - 1),
        BuiltinId::Apply => builtin_apply(env, port, args, fuel - 1),
        BuiltinId::ExpandMacro => builtin_expand_macro(env, port, args, fuel - 1),
        BuiltinId::Print => builtin_print(env, port, args, false, false, fuel - 1),
        BuiltinId::Println => builtin_print(env, port, args, true, false, fuel - 1),
        BuiltinId::Eprint => eprint(env, port, args, false, fuel - 1),
        BuiltinId::Eprintln => eprint(env, port, args, true, fuel - 1),
        BuiltinId::Jobs => builtin_jobs(env, port, args),
        BuiltinId::Bg => builtin_bg(env, port, args, fuel - 1),
        BuiltinId::Fg => builtin_fg(env, port, args, fuel - 1),
        BuiltinId::Wait => builtin_wait(env, port, args, fuel - 1),
        BuiltinId::Pid => builtin_pid(env, port, args, fuel - 1),
        BuiltinId::Export => builtin_export(env, port, args, fuel - 1),
        BuiltinId::Unexport => builtin_unexport(env, port, args, fuel - 1),
        BuiltinId::Load => builtin_load(env, port, args, fuel - 1),
        BuiltinId::Pipe => builtin_pipe(env, port, args, fuel - 1),
        BuiltinId::ErrNull => builtin_err_null(env, port, args, fuel - 1),
        BuiltinId::StdoutTo => builtin_stream_to(env, port, args, false, fuel - 1),
        BuiltinId::StderrTo => builtin_stream_to(env, port, args, true, fuel - 1),
        BuiltinId::FileRdr => builtin_file_rdr(env, port, args, fuel - 1),
        // the pure special forms were dispatched by the evaluator core
        // before this point, so this arm cannot be reached
        _ => Err(Error::new(ErrKind::NotCallable, "form belongs to the evaluator core")),
    }
}


/// The scope at `at` gained (or replaced) one binding; nothing else moved.
pub open spec fn scope_updated(
    a: Environment,
    b: Environment,
    at: int,
    key: Seq<char>,
    v: Vx,
) -> bool {
    &&& same_non_scope(a, b)
    &&& b.scopes@.len() == a.scopes@.len()
    &&& 0 <= at < a.scopes@.len()
    &&& forall|i: int|
        0 <= i < a.scopes@.len() && i != at ==> (#[trigger] b.scopes@[i]) == a.scopes@[i]
    &&& b.scopes@[at].outer == a.scopes@[at].outer
    &&& b.scopes@[at].name == a.scopes@[at].name
    &&& crate::environment::data_v(b.scopes@[at].data) == crate::environment::data_v(
        a.scopes@[at].data,
    ).insert(key, v)
    &&& b.current_scope == a.current_scope
}

/// What `def` does with a symbol key and a value: insert into the
/// innermost scope, or, for a `ns::name` key, into the named ancestor
/// namespace; an unknown ancestor namespace is an error and no change.
pub open spec fn def_post(
    a: Environment,
    b: Environment,
    r: Result<Expression, Error>,
    s: Seq<char>,
    v: Vx,
) -> bool {
    if crate::strutil::first_dc(s) is None {
        scope_updated(a, b, a.spec_cur(), s, v) && (r matches Ok(e) && v_expr(e) == v)
    } else {
        match chain_ns_owner(a, a.spec_cur(), crate::strutil::dc_head(s)) {
            Some(j) => scope_updated(a, b, j, crate::strutil::dc_tail(s), v) && (r matches Ok(e)
                && v_expr(e) == v),
            None => b == a && (r matches Err(er) && er.kind == ErrKind::Namespace),
        }
    }
}

/// What `set` does with a symbol key and a value: write the dynamic
/// binding if there is one, else the nearest lexical binding; a key bound
/// nowhere (or a namespace reference) is an error and no change.
pub open spec fn set_post(
    a: Environment,
    b: Environment,
    r: Result<Expression, Error>,
    s: Seq<char>,
    v: Vx,
) -> bool {
    if a.dynamic_scope@.contains_key(s) {
        &&& crate::environment::same_but_dynamic(a, b)
        &&& crate::environment::dyn_v(b) == crate::environment::dyn_v(a).insert(s, v)
        &&& r matches Ok(e) && v_expr(e) == v
    } else if crate::strutil::first_dc(s) is Some {
        b == a && (r matches Err(er) && er.kind == ErrKind::UnboundSymbol)
    } else {
        match chain_owner(a, a.spec_cur(), s) {
            Some(o) => scope_updated(a, b, o, s, v) && (r matches Ok(e) && v_expr(e) == v),
            None => b == a && (r matches Err(er) && er.kind == ErrKind::UnboundSymbol),
        }
    }
}

/// Extract a binding key: a literal symbol is used as it stands; any
/// other form is evaluated and must yield a symbol or a string.
fn def_key<P: SysPort>(
    env: &mut Environment,
    port: &mut P,
    form: &Expression,
    fuel: u64,
) -> (r: Result<String, Error>)
    requires
        old(env).wf(),
    ensures
        final(env).wf(),
        v_expr(*form) matches Vx::Sym(sv) ==> (*final(env) == *old(env) && (r matches Ok(k)
            && k@ == sv)),
    decreases fuel,
{
    match form {
        Expression::Atom(Atom::Symbol(s)) => Ok(s.clone()),
        _ => {
            if fuel == 0 {
                return Err(Error::new(ErrKind::Interrupted, "evaluation budget exhausted"));
            }
            match eval(env, port, form, fuel - 1) {
                Ok(Expression::Atom(Atom::Symbol(s))) => Ok(s),
                Ok(Expression::Atom(Atom::Str(s))) => Ok(s),
                Ok(_) => Err(
                    Error::new(
                        ErrKind::TypeMismatch,
                        "first form (binding key) must evaluate to a symbol",
                    ),
                ),
                Err(e) => Err(e),
            }
        },
    }
}

/// `def`: bind a value in the innermost scope, or in a named ancestor
/// namespace for a `ns::name` key.
pub fn builtin_def<P: SysPort>(
    env: &mut Environment,
    port: &mut P,
    args: &Vec<Expression>,
    fuel: u64,
) -> (r: Result<Expression, Error>)
    requires
        old(env).wf(),
    ensures
        final(env).wf(),
        args@.len() != 2 && fuel >= 1 ==> (r matches Err(er) && er.kind == ErrKind::ArityMismatch
            && *final(env) == *old(env)),
        args@.len() == 2 ==> (v_seq(args@)[0] matches Vx::Sym(s) ==> (simple_eval(
            *old(env),
            v_seq(args@)[1],
        ) matches Some(res) ==> (res matches Ok(v) ==> (fuel >= sfuel(v_seq(args@)[1]) + 1
            ==> def_post(*old(env), *final(env), r, s, v))))),
    decreases fuel,
{
    if fuel == 0 {
        return Err(Error::new(ErrKind::Interrupted, "evaluation budget exhausted"));
    }
    if args.len() != 2 {
        return Err(Error::new(ErrKind::ArityMismatch, "def requires a key and a value"));
    }
    let key = match def_key(env, port, &args[0], fuel - 1) {
        Ok(key) => key,
        Err(e) => {
            return Err(e);
        },
    };
    let val = match eval(env, port, &args[1], fuel - 1) {
        Ok(val) => val,
        Err(e) => {
            return Err(e);
        },
    };
    let kept = val.duplicate();
    match split_double_colon(key.as_str()) {
        Some((head, tail)) => {
            // a `ns::name` key names an ancestor namespace literally; no
            // alias for the current namespace is recognized here
            match find_ancestor_ns(env, head.as_str()) {
                Some(j) => {
                    let ghost pre = *env;
                    set_expression_at(env, j, tail, val);
                    proof {
                        lemma_data_v_insert(
                            pre.scopes@[j as int].data@,
                            crate::strutil::dc_tail(key@),
                            val,
                        );
                    }
                    Ok(kept)
                },
                None => Err(
                    Error::new(
                        ErrKind::Namespace,
                        "def: namespace is not an ancestor of the current scope",
                    ),
                ),
            }
        },
        None => {
            let ghost pre = *env;
            set_expression_current(env, key, val);
            proof {
                lemma_data_v_insert(pre.scopes@[pre.spec_cur()].data@, key@, val);
            }
            Ok(kept)
        },
    }
}

/// `set`: write an existing binding: the dynamic one if present, else the
/// nearest lexical one.
pub fn builtin_set<P: SysPort>(
    env: &mut Environment,
    port: &mut P,
    args: &Vec<Expression>,
    fuel: u64,
) -> (r: Result<Expression, Error>)
    requires
        old(env).wf(),
    ensures
        final(env).wf(),
        args@.len() != 2 && fuel >= 1 ==> (r matches Err(er) && er.kind == ErrKind::ArityMismatch
            && *final(env) == *old(env)),
        args@.len() == 2 ==> (v_seq(args@)[0] matches Vx::Sym(s) ==> (simple_eval(
            *old(env),
            v_seq(args@)[1],
        ) matches Some(res) ==> (res matches Ok(v) ==> (fuel >= sfuel(v_seq(args@)[1]) + 1
            ==> set_post(*old(env), *final(env), r, s, v))))),
    decreases fuel,
{
    if fuel == 0 {
        return Err(Error::new(ErrKind::Interrupted, "evaluation budget exhausted"));
    }
    if args.len() != 2 {
        return Err(Error::new(ErrKind::ArityMismatch, "set requires a key and a value"));
    }
    let key = match def_key(env, port, &args[0], fuel - 1) {
        Ok(key) => key,
        Err(e) => {
            return Err(e);
        },
    };
    let val = match eval(env, port, &args[1], fuel - 1) {
        Ok(val) => val,
        Err(e) => {
            return Err(e);
        },
    };
    let kept = val.duplicate();
    if env.dynamic_scope.contains_key(key.as_str()) {
        let ghost pre = *env;
        env.dynamic_scope.insert(key, val);
        proof {
            crate::environment::lemma_wf_fields(pre, *env);
            assert(crate::environment::dyn_v(*env) =~~= crate::environment::dyn_v(pre).insert(
                key@,
                v_expr(val),
            ));
        }
        return Ok(kept);
    }
    if split_double_colon(key.as_str()).is_some() {
        return Err(
            Error::new(
                ErrKind::UnboundSymbol,
                "set's first form must evaluate to an existing symbol",
            ),
        );
    }
    match get_symbols_scope(env, key.as_str()) {
        Some(o) => {
            let ghost pre = *env;
            set_expression_at(env, o, key, val);
            proof {
                crate::environment::lemma_chain_owner_lookup(pre, pre.spec_cur(), key@);
                lemma_data_v_insert(pre.scopes@[o as int].data@, key@, val);
            }
            Ok(kept)
        },
        None => Err(
            Error::new(
                ErrKind::UnboundSymbol,
                "set's first form must evaluate to an existing symbol",
            ),
        ),
    }
}

/// `undef`: drop a binding from the innermost scope.
pub fn builtin_undef<P: SysPort>(
    env: &mut Environment,
    port: &mut P,
    args: &Vec<Expression>,
    fuel: u64,
) -> (r: Result<Expression, Error>)
    requires
        old(env).wf(),
    ensures
        final(env).wf(),
        args@.len() != 1 && fuel >= 1 ==> (r matches Err(er) && er.kind == ErrKind::ArityMismatch
            && *final(env) == *old(env)),
        args@.len() == 1 ==> (v_seq(args@)[0] matches Vx::Sym(s) ==> (fuel >= 1 ==> {
            &&& same_non_scope(*old(env), *final(env))
            &&& final(env).scopes@.len() == old(env).scopes@.len()
            &&& (forall|i: int|
                0 <= i < old(env).scopes@.len() && i != old(env).spec_cur()
                    ==> (#[trigger] final(env).scopes@[i]) == old(env).scopes@[i])
            &&& final(env).scopes@[old(env).spec_cur()].data@ == old(env).scopes@[old(
                env,
            ).spec_cur()].data@.remove(s)
            &&& final(env).current_scope == old(env).current_scope
            &&& r matches Ok(e) && v_expr(e) == Vx::Nil
        })),
    decreases fuel,
{
    if fuel == 0 {
        return Err(Error::new(ErrKind::Interrupted, "evaluation budget exhausted"));
    }
    if args.len() != 1 {
        return Err(Error::new(ErrKind::ArityMismatch, "undef takes one symbol"));
    }
    let key = match def_key(env, port, &args[0], fuel - 1) {
        Ok(key) => key,
        Err(e) => {
            return Err(e);
        },
    };
    remove_expression_current(env, key.as_str());
    Ok(Expression::Atom(Atom::Nil))
}

/// `dyn`: bind a dynamic variable for the extent of the body form; the
/// previous binding (or its absence) is restored on every exit path.
pub fn builtin_dyn<P: SysPort>(
    env: &mut Environment,
    port: &mut P,
    args: &Vec<Expression>,
    fuel: u64,
) -> (r: Result<Expression, Error>)
    requires
        old(env).wf(),
    ensures
        final(env).wf(),
        args@.len() != 3 && fuel >= 1 ==> (r matches Err(er) && er.kind == ErrKind::ArityMismatch
            && *final(env) == *old(env)),
        args@.len() == 3 ==> (v_seq(args@)[0] matches Vx::Sym(s) ==> (simple_eval(
            *old(env),
            v_seq(args@)[1],
        ) matches Some(res) ==> (res matches Ok(v) ==> (fuel >= sfuel(v_seq(args@)[1]) + 1 ==> ({
            &&& final(env).dynamic_scope@.contains_key(s) == old(
                env,
            ).dynamic_scope@.contains_key(s)
            &&& (old(env).dynamic_scope@.contains_key(s) ==> v_expr(
                final(env).dynamic_scope@[s],
            ) == v_expr(old(env).dynamic_scope@[s]))
        }))))),
        args@.len() == 3 ==> (v_seq(args@)[0] matches Vx::Sym(s) ==> ((s.len() == 0 || s[0]
            != '$') ==> (simple_eval(*old(env), v_seq(args@)[1]) matches Some(res) ==> (res
            matches Ok(v) ==> (v_seq(args@)[2] == Vx::Sym(s) ==> (fuel >= sfuel(
            v_seq(args@)[1],
        ) + 3 ==> (r matches Ok(e) && v_expr(e) == v))))))),
    decreases fuel,
{
    if fuel == 0 {
        return Err(Error::new(ErrKind::Interrupted, "evaluation budget exhausted"));
    }
    if args.len() != 3 {
        return Err(
            Error::new(ErrKind::ArityMismatch, "dyn takes a symbol, a value and a body form"),
        );
    }
    let key = match def_key(env, port, &args[0], fuel - 1) {
        Ok(key) => key,
        Err(e) => {
            return Err(e);
        },
    };
    let val = match eval(env, port, &args[1], fuel - 1) {
        Ok(val) => val,
        Err(e) => {
            return Err(e);
        },
    };
    let saved: Option<Expression> = match env.dynamic_scope.get(key.as_str()) {
        Some(v) => Some(v.duplicate()),
        None => None,
    };
    let ghost gval = val;
    let ghost pre = *env;
    env.dynamic_scope.insert(key.clone(), val);
    proof {
        crate::environment::lemma_wf_fields(pre, *env);
        // reading the variable back inside the extent sees the new binding
        assert(env.dynamic_scope@.contains_key(key@) && env.dynamic_scope@[key@] == gval);
        if v_expr(args@[2]) == Vx::Sym(key@) && (key@.len() == 0 || key@[0] != '$') {
            assert(crate::environment::lookup_full(*env, key@) == Some(gval));
            assert(crate::semantics::sym_eval(*env, key@) == Some(
                Ok::<Vx, ErrKind>(v_expr(gval)),
            ));
        }
    }
    let res = eval(env, port, &args[2], fuel - 1);
    let ghost mid = *env;
    match saved {
        Some(v) => {
            env.dynamic_scope.insert(key, v);
        },
        None => {
            env.dynamic_scope.remove(key.as_str());
        },
    }
    proof {
        crate::environment::lemma_wf_fields(mid, *env);
    }
    res
}


/// A value that evaluates to itself when handed to `eval` again: anything
/// but a string (re-read as source text), a symbol (looked up again) or a
/// call form.
pub open spec fn plain_value(v: Vx) -> bool {
    match v {
        Vx::Str(_) => false,
        Vx::Sym(_) => false,
        Vx::Vector(_) => false,
        Vx::Pair(_, _) => false,
        _ => true,
    }
}

/// A namespace name: the text of a symbol or string value.
pub open spec fn name_of(v: Vx) -> Option<Seq<char>> {
    match v {
        Vx::Sym(s) => Some(s),
        Vx::Str(s) => Some(s),
        _ => None,
    }
}

/// What `ns-create` does with a name: refuse inside a lexical frame or
/// when the name is taken; otherwise register a fresh namespace scope
/// under the root and enter it.
pub open spec fn ns_create_post(
    a: Environment,
    b: Environment,
    r: Result<Expression, Error>,
    n: Seq<char>,
) -> bool {
    if a.scopes@[a.spec_cur()].name is None {
        b == a && (r matches Err(er) && er.kind == ErrKind::Namespace)
    } else if a.namespaces@.contains_key(n) {
        b == a && (r matches Err(er) && er.kind == ErrKind::Namespace)
    } else {
        let idx = a.scopes@.len() as int;
        &&& b.scopes@.len() == a.scopes@.len() + 1
        &&& forall|i: int| 0 <= i < a.scopes@.len() ==> (#[trigger] b.scopes@[i]) == a.scopes@[i]
        &&& b.scopes@[idx].outer == Some(0usize)
        &&& b.scopes@[idx].name matches Some(nm) && nm@ == n
        &&& v_expr(b.scopes@[idx].data@["*ns*"@]) == Vx::Str(n)
        &&& b.namespaces@ == a.namespaces@.insert(n, idx as usize)
        &&& b.current_scope@ == a.current_scope@.push(idx as usize)
        &&& b.dynamic_scope == a.dynamic_scope
        &&& crate::environment::same_outside_scoping(a, b)
        &&& r matches Ok(e) && v_expr(e) == Vx::Nil
    }
}

/// `ns-create`: make a new namespace and enter it.
pub fn builtin_ns_create<P: SysPort>(
    env: &mut Environment,
    port: &mut P,
    args: &Vec<Expression>,
    fuel: u64,
) -> (r: Result<Expression, Error>)
    requires
        old(env).wf(),
    ensures
        final(env).wf(),
        args@.len() != 1 && fuel >= 1 ==> (r matches Err(er) && er.kind == ErrKind::ArityMismatch
            && *final(env) == *old(env)),
        args@.len() == 1 ==> (simple_eval(*old(env), v_seq(args@)[0]) matches Some(res) ==> (res
            matches Ok(v) ==> (name_of(v) matches Some(n) ==> (fuel >= sfuel(v_seq(args@)[0]) + 2
            ==> ns_create_post(*old(env), *final(env), r, n))))),
    decreases fuel,
{
    if fuel == 0 {
        return Err(Error::new(ErrKind::Interrupted, "evaluation budget exhausted"));
    }
    if args.len() != 1 {
        return Err(Error::new(ErrKind::ArityMismatch, "ns-create takes the namespace name"));
    }
    let cur = env.cur();
    let in_ns = match &env.scopes[cur].name {
        Some(_) => true,
        None => false,
    };
    if !in_ns {
        return Err(
            Error::new(
                ErrKind::Namespace,
                "ns-create can only create a namespace when not in a lexical scope",
            ),
        );
    }
    let name = match eval(env, port, &args[0], fuel - 1) {
        Ok(Expression::Atom(Atom::Symbol(s))) => s,
        Ok(Expression::Atom(Atom::Str(s))) => s,
        Ok(_) => {
            return Err(
                Error::new(ErrKind::TypeMismatch, "ns-create: namespace must be a symbol or string"),
            );
        },
        Err(e) => {
            return Err(e);
        },
    };
    match build_new_namespace(env, name.as_str()) {
        Ok(idx) => {
            push_scope(env, idx);
            Ok(Expression::Atom(Atom::Nil))
        },
        Err(e) => Err(e),
    }
}

/// `ns-enter`: push an existing namespace onto the scope stack.
pub fn builtin_ns_enter<P: SysPort>(
    env: &mut Environment,
    port: &mut P,
    args: &Vec<Expression>,
    fuel: u64,
) -> (r: Result<Expression, Error>)
    requires
        old(env).wf(),
    ensures
        final(env).wf(),
        args@.len() != 1 && fuel >= 1 ==> (r matches Err(er) && er.kind == ErrKind::ArityMismatch
            && *final(env) == *old(env)),
        args@.len() == 1 ==> (simple_eval(*old(env), v_seq(args@)[0]) matches Some(res) ==> (res
            matches Ok(nv) ==> (name_of(nv) matches Some(n) ==> (fuel >= sfuel(v_seq(args@)[0])
            + 2 ==> (
            if old(env).scopes@[old(env).spec_cur()].name is None {
                *final(env) == *old(env) && (r matches Err(er) && er.kind == ErrKind::Namespace)
            } else if old(env).namespaces@.contains_key(n) {
                &&& final(env).scopes == old(env).scopes
                &&& final(env).current_scope@ == old(env).current_scope@.push(
                    old(env).namespaces@[n],
                )
                &&& final(env).dynamic_scope == old(env).dynamic_scope
                &&& final(env).namespaces == old(env).namespaces
                &&& final(env).ns_names == old(env).ns_names
                &&& crate::environment::same_outside_scoping(*old(env), *final(env))
                &&& r matches Ok(e) && v_expr(e) == Vx::Nil
            } else {
                *final(env) == *old(env) && (r matches Err(er) && er.kind == ErrKind::Namespace)
            }
        ))))),
    decreases fuel,
{
    if fuel == 0 {
        return Err(Error::new(ErrKind::Interrupted, "evaluation budget exhausted"));
    }
    if args.len() != 1 {
        return Err(Error::new(ErrKind::ArityMismatch, "ns-enter takes the namespace name"));
    }
    let cur = env.cur();
    let in_ns = match &env.scopes[cur].name {
        Some(_) => true,
        None => false,
    };
    if !in_ns {
        return Err(
            Error::new(
                ErrKind::Namespace,
                "ns-enter can only enter a namespace when not in a lexical scope",
            ),
        );
    }
    let name = match eval(env, port, &args[0], fuel - 1) {
        Ok(Expression::Atom(Atom::Symbol(s))) => s,
        Ok(Expression::Atom(Atom::Str(s))) => s,
        Ok(_) => {
            return Err(
                Error::new(ErrKind::TypeMismatch, "ns-enter: namespace must be a symbol or string"),
            );
        },
        Err(e) => {
            return Err(e);
        },
    };
    match get_namespace(env, name.as_str()) {
        Some(idx) => {
            push_scope(env, idx);
            Ok(Expression::Atom(Atom::Nil))
        },
        None => Err(Error::new(ErrKind::Namespace, "namespace does not exist")),
    }
}

/// `ns-exists?`: is the name a registered namespace?
pub fn builtin_ns_exists<P: SysPort>(
    env: &mut Environment,
    port: &mut P,
    args: &Vec<Expression>,
    fuel: u64,
) -> (r: Result<Expression, Error>)
    requires
        old(env).wf(),
    ensures
        final(env).wf(),
        args@.len() != 1 && fuel >= 1 ==> (r matches Err(er) && er.kind == ErrKind::ArityMismatch
            && *final(env) == *old(env)),
        args@.len() == 1 ==> (simple_eval(*old(env), v_seq(args@)[0]) matches Some(res) ==> (res
            matches Ok(nv) ==> (name_of(nv) matches Some(n) ==> (fuel >= sfuel(v_seq(args@)[0])
            + 2 ==> (*final(env) == *old(env) && (r matches Ok(e) && v_expr(e) == (if old(
            env,
        ).namespaces@.contains_key(n) {
            Vx::True
        } else {
            Vx::Nil
        }))))))),
    decreases fuel,
{
    if fuel == 0 {
        return Err(Error::new(ErrKind::Interrupted, "evaluation budget exhausted"));
    }
    if args.len() != 1 {
        return Err(Error::new(ErrKind::ArityMismatch, "ns-exists? takes the namespace name"));
    }
    let name = match eval(env, port, &args[0], fuel - 1) {
        Ok(Expression::Atom(Atom::Symbol(s))) => s,
        Ok(Expression::Atom(Atom::Str(s))) => s,
        Ok(_) => {
            return Err(
                Error::new(
                    ErrKind::TypeMismatch,
                    "ns-exists?: namespace must be a symbol or string",
                ),
            );
        },
        Err(e) => {
            return Err(e);
        },
    };
    if env.namespaces.contains_key(name.as_str()) {
        Ok(Expression::Atom(Atom::True))
    } else {
        Ok(Expression::Atom(Atom::Nil))
    }
}

/// `ns-list`: the names of all registered namespaces.
pub fn builtin_ns_list(env: &Environment, args: &Vec<Expression>) -> (r: Result<
    Expression,
    Error,
>)
    requires
        env.wf(),
    ensures
        args@.len() == 0 ==> (r matches Ok(e) && e matches Expression::Vector(l) && l@.len()
            == env.ns_names@.len() && (forall|i: int|
            0 <= i < l@.len() ==> v_expr(#[trigger] l@[i]) == Vx::Str(env.ns_names@[i]@)) && (
        forall|i: int, j: int|
            0 <= i < j < l@.len() ==> v_expr(#[trigger] l@[i]) != v_expr(#[trigger] l@[j]))),
        args@.len() != 0 ==> (r matches Err(er) && er.kind == ErrKind::ArityMismatch),
{
    if args.len() != 0 {
        return Err(Error::new(ErrKind::ArityMismatch, "ns-list takes no forms"));
    }
    let mut out: Vec<Expression> = Vec::new();
    let mut i: usize = 0;
    #[verifier::loop_isolation(false)]
    while i < env.ns_names.len()
        invariant
            i <= env.ns_names@.len(),
            out@.len() == i,
            forall|k: int|
                0 <= k < i ==> v_expr(#[trigger] out@[k]) == Vx::Str(env.ns_names@[k]@),
        decreases env.ns_names@.len() - i,
    {
        out.push(Expression::Atom(Atom::Str(env.ns_names[i].clone())));
        i += 1;
    }
    Ok(Expression::Vector(out))
}

/// `command`, `form`: evaluate the body with the form gate switched, and
/// restore the previous gate on every exit path.
pub fn builtin_with_form_type<P: SysPort>(
    env: &mut Environment,
    port: &mut P,
    args: &Vec<Expression>,
    ft: FormType,
    fuel: u64,
) -> (r: Result<Expression, Error>)
    requires
        old(env).wf(),
    ensures
        final(env).wf(),
        final(env).form_type == old(env).form_type,
        args@.len() == 0 && fuel >= 2 ==> (r matches Ok(e) && v_expr(e) == Vx::Nil),
    decreases fuel,
{
    if fuel == 0 {
        return Err(Error::new(ErrKind::Interrupted, "evaluation budget exhausted"));
    }
    let saved = env.form_type;
    let ghost pre = *env;
    env.form_type = ft;
    proof {
        crate::environment::lemma_wf_fields(pre, *env);
    }
    let r = crate::eval::builtin_progn(env, port, args, fuel - 1);
    let ghost mid = *env;
    env.form_type = saved;
    proof {
        crate::environment::lemma_wf_fields(mid, *env);
    }
    r
}

/// `loose-symbols`: unbound symbols self-evaluate as strings for the
/// dynamic extent of the body.
pub fn builtin_loose_symbols<P: SysPort>(
    env: &mut Environment,
    port: &mut P,
    args: &Vec<Expression>,
    fuel: u64,
) -> (r: Result<Expression, Error>)
    requires
        old(env).wf(),
    ensures
        final(env).wf(),
        final(env).loose_symbols == old(env).loose_symbols,
        args@.len() == 0 && fuel >= 2 ==> (r matches Ok(e) && v_expr(e) == Vx::Nil),
    decreases fuel,
{
    if fuel == 0 {
        return Err(Error::new(ErrKind::Interrupted, "evaluation budget exhausted"));
    }
    let saved = env.loose_symbols;
    let ghost pre = *env;
    env.loose_symbols = true;
    proof {
        crate::environment::lemma_wf_fields(pre, *env);
    }
    let r = crate::eval::builtin_progn(env, port, args, fuel - 1);
    let ghost mid = *env;
    env.loose_symbols = saved;
    proof {
        crate::environment::lemma_wf_fields(mid, *env);
    }
    r
}

/// `run-bg`: spawned commands inside the body go to the background.
pub fn builtin_run_bg<P: SysPort>(
    env: &mut Environment,
    port: &mut P,
    args: &Vec<Expression>,
    fuel: u64,
) -> (r: Result<Expression, Error>)
    requires
        old(env).wf(),
    ensures
        final(env).wf(),
        final(env).run_background == old(env).run_background,
        args@.len() == 0 && fuel >= 2 ==> (r matches Ok(e) && v_expr(e) == Vx::Nil),
    decreases fuel,
{
    if fuel == 0 {
        return Err(Error::new(ErrKind::Interrupted, "evaluation budget exhausted"));
    }
    let saved = env.run_background;
    let ghost pre = *env;
    env.run_background = true;
    proof {
        crate::environment::lemma_wf_fields(pre, *env);
    }
    let r = crate::eval::builtin_progn(env, port, args, fuel - 1);
    let ghost mid = *env;
    env.run_background = saved;
    proof {
        crate::environment::lemma_wf_fields(mid, *env);
    }
    r
}

/// `get-error`: evaluate each form; the first error is materialized as the
/// vector `#(:error message)` instead of propagating.
pub fn builtin_get_error<P: SysPort>(
    env: &mut Environment,
    port: &mut P,
    args: &Vec<Expression>,
    fuel: u64,
) -> (r: Result<Expression, Error>)
    requires
        old(env).wf(),
    ensures
        final(env).wf(),
        r is Ok,
        crate::semantics::progn_eval(*old(env), v_seq(args@), 0, Vx::Nil) matches Some(res)
            ==> fuel >= crate::semantics::sfuel_tail(v_seq(args@), 0) + 1
            ==> (*final(env) == *old(env) && (match res {
            Ok(v) => r matches Ok(e) && v_expr(e) == v,
            Err(k) => r matches Ok(e) && (v_expr(e) matches Vx::Vector(items) && items.len() == 2
                && items[0] == Vx::Sym(":error"@) && items[1] is Str),
        })),
    decreases fuel,
{
    let ghost vargs = v_seq(args@);
    if fuel == 0 {
        let mut v: Vec<Expression> = Vec::new();
        v.push(Expression::Atom(Atom::Symbol(String::from_str(":error"))));
        v.push(Expression::Atom(Atom::Str(String::from_str("evaluation budget exhausted"))));
        return Ok(Expression::Vector(v));
    }
    let mut last = Expression::Atom(Atom::Nil);
    let mut i: usize = 0;
    #[verifier::loop_isolation(false)]
    while i < args.len()
        invariant
            old(env).wf(),
            env.wf(),
            i <= args@.len(),
            vargs == v_seq(args@),
            crate::semantics::progn_eval(*old(env), vargs, 0, Vx::Nil) matches Some(res)
                ==> fuel >= crate::semantics::sfuel_tail(vargs, 0) + 1
                ==> (*env == *old(env) && crate::semantics::progn_eval(
                *old(env),
                vargs,
                i as int,
                v_expr(last),
            ) == crate::semantics::progn_eval(*old(env), vargs, 0, Vx::Nil)),
        decreases args@.len() - i,
    {
        proof {
            if fuel >= crate::semantics::sfuel_tail(vargs, 0) + 1 && i < vargs.len() {
                crate::semantics::lemma_sfuel_tail_elem(vargs, 0, i as int);
            }
        }
        match eval(env, port, &args[i], fuel - 1) {
            Ok(v) => {
                last = v;
            },
            Err(e) => {
                let mut v: Vec<Expression> = Vec::new();
                v.push(Expression::Atom(Atom::Symbol(String::from_str(":error"))));
                v.push(Expression::Atom(Atom::Str(e.msg)));
                proof {
                    assert(v_seq(v@).len() == 2 && v_seq(v@)[0] == v_expr(v@[0]) && v_seq(v@)[1]
                        == v_expr(v@[1]));
                }
                return Ok(Expression::Vector(v));
            },
        }
        i += 1;
    }
    Ok(last)
}

/// `unwind-protect`: evaluate the protected form, then always run the
/// cleanup forms; their errors go to standard error and do not mask the
/// protected form's outcome.
pub fn builtin_unwind_protect<P: SysPort>(
    env: &mut Environment,
    port: &mut P,
    args: &Vec<Expression>,
    fuel: u64,
) -> (r: Result<Expression, Error>)
    requires
        old(env).wf(),
    ensures
        final(env).wf(),
        args@.len() == 0 ==> (r matches Ok(e) && v_expr(e) == Vx::Nil),
        args@.len() >= 1 ==> (simple_eval(*old(env), v_seq(args@)[0]) matches Some(res) ==> (fuel
            >= sfuel(v_seq(args@)[0]) + 1 ==> crate::eval::matches_simple(r, res))),
    decreases fuel,
{
    if args.len() == 0 {
        return Ok(Expression::Atom(Atom::Nil));
    }
    if fuel == 0 {
        return Err(Error::new(ErrKind::Interrupted, "evaluation budget exhausted"));
    }
    let result = eval(env, port, &args[0], fuel - 1);
    let mut i: usize = 1;
    #[verifier::loop_isolation(false)]
    while i < args.len()
        invariant
            env.wf(),
            1 <= i <= args@.len(),
        decreases args@.len() - i,
    {
        match eval(env, port, &args[i], fuel - 1) {
            Ok(_) => {},
            Err(e) => {
                let mut msg = String::new();
                msg.append("ERROR in unwind-protect cleanup form: ");
                msg.append(e.msg.as_str());
                msg.append("\n");
                let _ = port.write_text(crate::types::FileState::Stderr, msg.as_str());
            },
        }
        i += 1;
    }
    result
}

/// `global-scope?`: is the innermost scope the root scope?
pub fn builtin_is_global_scope(env: &Environment, args: &Vec<Expression>) -> (r: Result<
    Expression,
    Error,
>)
    requires
        env.wf(),
    ensures
        args@.len() == 0 ==> (r matches Ok(e) && v_expr(e) == (if env.current_scope@.len() == 1 {
            Vx::True
        } else {
            Vx::Nil
        })),
        args@.len() != 0 ==> (r matches Err(er) && er.kind == ErrKind::ArityMismatch),
{
    if args.len() != 0 {
        return Err(Error::new(ErrKind::ArityMismatch, "global-scope? takes no forms"));
    }
    if env.current_scope.len() == 1 {
        Ok(Expression::Atom(Atom::True))
    } else {
        Ok(Expression::Atom(Atom::Nil))
    }
}

/// `gensym`: a fresh symbol from a per-environment counter.
pub fn builtin_gensym(env: &mut Environment, args: &Vec<Expression>) -> (r: Result<
    Expression,
    Error,
>)
    requires
        old(env).wf(),
    ensures
        final(env).wf(),
        args@.len() == 0 ==> ({
            &&& final(env).state.gensym_count == old(env).state.gensym_count.wrapping_add(1)
            &&& final(env).scopes == old(env).scopes
            &&& final(env).current_scope == old(env).current_scope
            &&& final(env).dynamic_scope == old(env).dynamic_scope
            &&& r matches Ok(e) && v_expr(e) == Vx::Sym(
                "gs::"@ + crate::strutil::dec_str(
                    old(env).state.gensym_count.wrapping_add(1) as int,
                ),
            )
        }),
        args@.len() != 0 ==> (*final(env) == *old(env) && (r matches Err(er) && er.kind
            == ErrKind::ArityMismatch)),
{
    if args.len() != 0 {
        return Err(Error::new(ErrKind::ArityMismatch, "gensym takes no forms"));
    }
    let ghost pre = *env;
    env.state.gensym_count = env.state.gensym_count.wrapping_add(1);
    proof {
        crate::environment::lemma_wf_fields(pre, *env);
    }
    let mut name = String::new();
    proof {
        reveal_strlit("gs::");
    }
    name.append("gs::");
    let digits = crate::strutil::u32_to_string(env.state.gensym_count);
    name.append(digits.as_str());
    Ok(Expression::Atom(Atom::Symbol(name)))
}

/// `exit`: record the pending exit code; the surrounding program unwinds.
pub fn builtin_exit<P: SysPort>(
    env: &mut Environment,
    port: &mut P,
    args: &Vec<Expression>,
    fuel: u64,
) -> (r: Result<Expression, Error>)
    requires
        old(env).wf(),
    ensures
        final(env).wf(),
        args@.len() == 0 ==> (final(env).exit_code == Some(0i32) && r is Ok),
    decreases fuel,
{
    if args.len() == 0 {
        let ghost pre = *env;
        env.exit_code = Some(0);
        proof {
            crate::environment::lemma_wf_fields(pre, *env);
        }
        return Ok(Expression::Atom(Atom::Nil));
    }
    if fuel == 0 {
        return Err(Error::new(ErrKind::Interrupted, "evaluation budget exhausted"));
    }
    if args.len() != 1 {
        return Err(Error::new(ErrKind::ArityMismatch, "exit takes an optional integer"));
    }
    match eval(env, port, &args[0], fuel - 1) {
        Ok(Expression::Atom(Atom::Int(code))) => {
            let ghost pre = *env;
            env.exit_code = Some(#[verifier::truncate] (code as i32));
            proof {
                crate::environment::lemma_wf_fields(pre, *env);
            }
            Ok(Expression::Atom(Atom::Nil))
        },
        Ok(_) => Err(Error::new(ErrKind::TypeMismatch, "exit takes an optional integer")),
        Err(e) => Err(e),
    }
}

/// `version`: the interpreter's version string.
pub fn builtin_version(args: &Vec<Expression>) -> (r: Result<Expression, Error>)
    ensures
        args@.len() == 0 ==> (r matches Ok(e) && v_expr(e) == Vx::Str("slsh 0.9.0"@)),
        args@.len() != 0 ==> (r matches Err(er) && er.kind == ErrKind::ArityMismatch),
{
    if args.len() != 0 {
        return Err(Error::new(ErrKind::ArityMismatch, "version takes no forms"));
    }
    Ok(Expression::Atom(Atom::Str(String::from_str("slsh 0.9.0"))))
}

/// `error-stack-on` / `error-stack-off`: toggle stack traces on errors.
pub fn builtin_error_stack(env: &mut Environment, args: &Vec<Expression>, on: bool) -> (r: Result<
    Expression,
    Error,
>)
    requires
        old(env).wf(),
    ensures
        final(env).wf(),
        args@.len() == 0 ==> (final(env).stack_on_error == on && (r matches Ok(e) && v_expr(e)
            == Vx::Nil)),
{
    if args.len() != 0 {
        return Err(Error::new(ErrKind::ArityMismatch, "error-stack takes no forms"));
    }
    let ghost pre = *env;
    env.stack_on_error = on;
    proof {
        crate::environment::lemma_wf_fields(pre, *env);
    }
    Ok(Expression::Atom(Atom::Nil))
}


/// String coercion of one value: string content for strings, the child's
/// captured output for finished processes, file contents for readable
/// files, the port's float formatter for floats, and the printed form for
/// everything else.
pub fn as_string<P: SysPort>(port: &mut P, v: &Expression) -> (r: Result<String, Error>)
    ensures
        v@ matches Vx::Str(sv) ==> (r matches Ok(s) && s@ == sv),
        v@ matches Vx::Sym(sv) ==> (r matches Ok(s) && s@ == sv),
        v@ matches Vx::Int(i) ==> (r matches Ok(s) && s@ == crate::strutil::int_str(i as int)),
        v@ is Float ==> r is Ok,
        !(v@ is Process) && !(v@ is File) && !(v@ is Float) ==> (r matches Ok(s) && s@
            == crate::types::render(v@)),
{
    match v {
        Expression::Atom(Atom::Str(s)) => Ok(s.clone()),
        Expression::Atom(Atom::Float(bits)) => Ok(port.format_float(*bits)),
        Expression::Process(crate::types::ProcessState::Running(_)) => Ok(String::new()),
        Expression::Process(crate::types::ProcessState::Over(pid, _)) => port.read_proc_output(
            *pid,
        ),
        Expression::File(crate::types::FileState::Stdin) => port.read_stdin_text(),
        Expression::File(crate::types::FileState::Read(h)) => port.read_handle_text(*h),
        Expression::File(_) => Ok(String::new()),
        _ => Ok(v.to_string()),
    }
}

/// `err`: raise a user error whose message is the argument's text.
pub fn builtin_err<P: SysPort>(
    env: &mut Environment,
    port: &mut P,
    args: &Vec<Expression>,
    fuel: u64,
) -> (r: Result<Expression, Error>)
    requires
        old(env).wf(),
    ensures
        final(env).wf(),
        args@.len() == 1 ==> (v_seq(args@)[0] matches Vx::Str(m) ==> (fuel >= 2 ==> (r matches
            Err(er) && er.kind == ErrKind::User && er.msg@ == m))),
    decreases fuel,
{
    if fuel == 0 {
        return Err(Error::new(ErrKind::Interrupted, "evaluation budget exhausted"));
    }
    if args.len() != 1 {
        return Err(Error::new(ErrKind::ArityMismatch, "err takes one form"));
    }
    let v = match eval(env, port, &args[0], fuel - 1) {
        Ok(v) => v,
        Err(e) => {
            return Err(e);
        },
    };
    let msg = match as_string(port, &v) {
        Ok(msg) => msg,
        Err(e) => {
            return Err(e);
        },
    };
    Err(Error { kind: ErrKind::User, msg })
}

/// `format`: concatenate the text of every argument into one string.
pub fn builtin_format<P: SysPort>(
    env: &mut Environment,
    port: &mut P,
    args: &Vec<Expression>,
    fuel: u64,
) -> (r: Result<Expression, Error>)
    requires
        old(env).wf(),
    ensures
        final(env).wf(),
        r matches Ok(e) ==> e@ is Str,
    decreases fuel,
{
    if fuel == 0 {
        return Err(Error::new(ErrKind::Interrupted, "evaluation budget exhausted"));
    }
    let mut out = String::new();
    let mut i: usize = 0;
    #[verifier::loop_isolation(false)]
    while i < args.len()
        invariant
            env.wf(),
            i <= args@.len(),
        decreases args@.len() - i,
    {
        let v = match eval(env, port, &args[i], fuel - 1) {
            Ok(v) => v,
            Err(e) => {
                return Err(e);
            },
        };
        let piece = match as_string(port, &v) {
            Ok(piece) => piece,
            Err(e) => {
                return Err(e);
            },
        };
        out.append(piece.as_str());
        i += 1;
    }
    Ok(Expression::Atom(Atom::Str(out)))
}

/// `def?`: does the (evaluated) symbol have a binding?
pub fn builtin_is_def<P: SysPort>(
    env: &mut Environment,
    port: &mut P,
    args: &Vec<Expression>,
    fuel: u64,
) -> (r: Result<Expression, Error>)
    requires
        old(env).wf(),
    ensures
        final(env).wf(),
        args@.len() == 1 ==> (simple_eval(*old(env), v_seq(args@)[0]) matches Some(res) ==> (res
            matches Ok(v) ==> (v matches Vx::Sym(sv) ==> ((sv.len() == 0 || sv[0] != '$') ==> (
        fuel >= sfuel(v_seq(args@)[0]) + 1 ==> (*final(env) == *old(env) && (r matches Ok(e)
            && v_expr(e) == (if crate::environment::lookup_full(*old(env), sv) is Some {
            Vx::True
        } else {
            Vx::Nil
        })))))))),
    decreases fuel,
{
    if fuel == 0 {
        return Err(Error::new(ErrKind::Interrupted, "evaluation budget exhausted"));
    }
    if args.len() != 1 {
        return Err(Error::new(ErrKind::ArityMismatch, "def? takes one symbol to look up"));
    }
    let v = match eval(env, port, &args[0], fuel - 1) {
        Ok(v) => v,
        Err(e) => {
            return Err(e);
        },
    };
    match v {
        Expression::Atom(Atom::Symbol(s)) => {
            if crate::strutil::starts_with_char(s.as_str(), '$') {
                let n = s.as_str().unicode_len();
                let name = s.as_str().substring_char(1, n);
                match port.getenv(name) {
                    Some(_) => Ok(Expression::Atom(Atom::True)),
                    None => Ok(Expression::Atom(Atom::Nil)),
                }
            } else {
                match get_expression(env, s.as_str()) {
                    Some(_) => Ok(Expression::Atom(Atom::True)),
                    None => Ok(Expression::Atom(Atom::Nil)),
                }
            }
        },
        _ => Err(Error::new(ErrKind::TypeMismatch, "def? takes a symbol to look up")),
    }
}

/// `to-symbol`: make a symbol from a symbol, string or integer.
pub fn builtin_to_symbol<P: SysPort>(
    env: &mut Environment,
    port: &mut P,
    args: &Vec<Expression>,
    fuel: u64,
) -> (r: Result<Expression, Error>)
    requires
        old(env).wf(),
    ensures
        final(env).wf(),
        args@.len() == 1 ==> (simple_eval(*old(env), v_seq(args@)[0]) matches Some(res) ==> (res
            matches Ok(v) ==> (fuel >= sfuel(v_seq(args@)[0]) + 1 ==> (*final(env) == *old(env)
            && (match v {
            Vx::Sym(sv) => r matches Ok(e) && v_expr(e) == Vx::Sym(sv),
            Vx::Str(sv) => r matches Ok(e) && v_expr(e) == Vx::Sym(sv),
            Vx::Int(i) => r matches Ok(e) && v_expr(e) == Vx::Sym(
                crate::strutil::int_str(i as int),
            ),
            _ => r matches Err(er) && er.kind == ErrKind::TypeMismatch,
        }))))),
    decreases fuel,
{
    if fuel == 0 {
        return Err(Error::new(ErrKind::Interrupted, "evaluation budget exhausted"));
    }
    if args.len() != 1 {
        return Err(Error::new(ErrKind::ArityMismatch, "to-symbol takes one form"));
    }
    let v = match eval(env, port, &args[0], fuel - 1) {
        Ok(v) => v,
        Err(e) => {
            return Err(e);
        },
    };
    match v {
        Expression::Atom(Atom::Symbol(s)) => Ok(Expression::Atom(Atom::Symbol(s))),
        Expression::Atom(Atom::Str(s)) => Ok(Expression::Atom(Atom::Symbol(s))),
        Expression::Atom(Atom::Int(i)) => Ok(
            Expression::Atom(Atom::Symbol(crate::strutil::i64_to_string(i))),
        ),
        _ => Err(
            Error::new(
                ErrKind::TypeMismatch,
                "to-symbol can only convert strings, symbols and ints to a symbol",
            ),
        ),
    }
}


/// Extract machine integers from a list of values.
pub fn int_args(vals: &Vec<Expression>) -> (r: Option<Vec<i64>>)
    ensures
        match r {
            Some(xs) => ints_of(v_seq(vals@)) matches Some(ns) && xs@.len() == ns.len() && (
            forall|i: int| 0 <= i < ns.len() ==> (#[trigger] xs@[i]) as int == ns[i]),
            None => ints_of(v_seq(vals@)) is None,
        },
{
    let mut out: Vec<i64> = Vec::new();
    let mut i: usize = 0;
    #[verifier::loop_isolation(false)]
    while i < vals.len()
        invariant
            i <= vals@.len(),
            ints_of(v_seq(vals@).subrange(0, i as int)) matches Some(ns) && out@.len() == ns.len()
                && (forall|k: int| 0 <= k < ns.len() ==> (#[trigger] out@[k]) as int == ns[k]),
        decreases vals@.len() - i,
    {
        proof {
            let vs = v_seq(vals@);
            let pre = vs.subrange(0, i + 1);
            assert(pre.drop_last() =~= vs.subrange(0, i as int));
            assert(pre.last() == vs[i as int]);
            assert(vs[i as int] == v_expr(vals@[i as int]));
        }
        match &vals[i] {
            Expression::Atom(Atom::Int(n)) => {
                out.push(*n);
            },
            _ => {
                proof {
                    lemma_ints_of_prefix_none(v_seq(vals@), i + 1);
                }
                return None;
            },
        }
        i += 1;
    }
    proof {
        assert(v_seq(vals@).subrange(0, vals@.len() as int) =~= v_seq(vals@));
    }
    Some(out)
}

/// Once a prefix has a non-integer, the whole sequence has one.
proof fn lemma_ints_of_prefix_none(vs: Seq<Vx>, i: int)
    requires
        0 <= i <= vs.len(),
        ints_of(vs.subrange(0, i)) is None,
    ensures
        ints_of(vs) is None,
    decreases vs.len() - i,
{
    if i == vs.len() {
        assert(vs.subrange(0, i) =~= vs);
    } else {
        let pre = vs.subrange(0, i + 1);
        assert(pre.drop_last() =~= vs.subrange(0, i));
        lemma_ints_of_prefix_none(vs, i + 1);
    }
}

/// Checked left fold over machine integers.
fn fold_ints(xs: &Vec<i64>, start: usize, acc0: i64, op: BuiltinId) -> (r: Result<i64, Error>)
    requires
        start <= xs@.len(),
        op == BuiltinId::Add || op == BuiltinId::Sub || op == BuiltinId::Mul,
    ensures
        match fold_chk(xs@.map_values(|x: i64| x as int), start as int, acc0 as int, op) {
            Some(n) => r matches Ok(v) && v as int == n,
            None => r matches Err(er) && er.kind == ErrKind::TypeMismatch,
        },
{
    let ghost s = xs@.map_values(|x: i64| x as int);
    let mut acc: i64 = acc0;
    let mut i: usize = start;
    #[verifier::loop_isolation(false)]
    while i < xs.len()
        invariant
            start <= i <= xs@.len(),
            fold_chk(s, start as int, acc0 as int, op) == fold_chk(s, i as int, acc as int, op),
        decreases xs@.len() - i,
    {
        let step = match op {
            BuiltinId::Add => acc.checked_add(xs[i]),
            BuiltinId::Sub => acc.checked_sub(xs[i]),
            _ => acc.checked_mul(xs[i]),
        };
        match step {
            Some(n) => {
                acc = n;
            },
            None => {
                return Err(
                    Error::new(ErrKind::TypeMismatch, "integer arithmetic overflowed"),
                );
            },
        }
        i += 1;
    }
    Ok(acc)
}


/// The arithmetic forms `+`, `-` and `*` over integers.
pub fn builtin_arith<P: SysPort>(
    env: &mut Environment,
    port: &mut P,
    op: BuiltinId,
    args: &Vec<Expression>,
    fuel: u64,
) -> (r: Result<Expression, Error>)
    requires
        old(env).wf(),
        op == BuiltinId::Add || op == BuiltinId::Sub || op == BuiltinId::Mul,
    ensures
        final(env).wf(),
        crate::semantics::args_eval(*old(env), v_seq(args@), 0) matches Some(res)
            ==> fuel >= crate::semantics::sfuel_tail(v_seq(args@), 0) + 2
            ==> (*final(env) == *old(env) && (match res {
            Err(k) => r matches Err(er) && er.kind == k,
            Ok(vs) => crate::eval::matches_simple(r, arith_value(op, vs)),
        })),
    decreases fuel,
{
    if fuel == 0 {
        return Err(Error::new(ErrKind::Interrupted, "evaluation budget exhausted"));
    }
    let vals = match eval_args(env, port, args, fuel - 1) {
        Ok(vals) => vals,
        Err(e) => {
            return Err(e);
        },
    };
    let xs = match int_args(&vals) {
        Some(xs) => xs,
        None => {
            return Err(
                Error::new(ErrKind::TypeMismatch, "arithmetic takes integer arguments"),
            );
        },
    };
    proof {
        match ints_of(v_seq(vals@)) {
            Some(ns) => {
                assert(xs@.map_values(|x: i64| x as int) =~= ns);
            },
            None => {},
        }
    }
    let folded = match op {
        BuiltinId::Add => fold_ints(&xs, 0, 0, BuiltinId::Add),
        BuiltinId::Mul => fold_ints(&xs, 0, 1, BuiltinId::Mul),
        _ => {
            if xs.len() == 0 {
                return Err(Error::new(ErrKind::ArityMismatch, "- takes at least one integer"));
            }
            if xs.len() == 1 {
                let x = xs[0];
                if x == i64::MIN {
                    return Err(
                        Error::new(ErrKind::TypeMismatch, "integer arithmetic overflowed"),
                    );
                }
                return Ok(Expression::Atom(Atom::Int(-x)));
            }
            fold_ints(&xs, 1, xs[0], BuiltinId::Sub)
        },
    };
    match folded {
        Ok(n) => Ok(Expression::Atom(Atom::Int(n))),
        Err(e) => Err(e),
    }
}

/// The comparison forms over integers (and `=` over strings too).
pub fn builtin_compare<P: SysPort>(
    env: &mut Environment,
    port: &mut P,
    op: BuiltinId,
    args: &Vec<Expression>,
    fuel: u64,
) -> (r: Result<Expression, Error>)
    requires
        old(env).wf(),
        op == BuiltinId::Equal || op == BuiltinId::Less || op == BuiltinId::LessEqual || op
            == BuiltinId::Greater || op == BuiltinId::GreaterEqual,
    ensures
        final(env).wf(),
        crate::semantics::args_eval(*old(env), v_seq(args@), 0) matches Some(res)
            ==> fuel >= crate::semantics::sfuel_tail(v_seq(args@), 0) + 2
            ==> (*final(env) == *old(env) && (match res {
            Err(k) => r matches Err(er) && er.kind == k,
            Ok(vs) => crate::eval::matches_simple(r, compare_value(op, vs)),
        })),
    decreases fuel,
{
    if fuel == 0 {
        return Err(Error::new(ErrKind::Interrupted, "evaluation budget exhausted"));
    }
    let vals = match eval_args(env, port, args, fuel - 1) {
        Ok(vals) => vals,
        Err(e) => {
            return Err(e);
        },
    };
    if vals.len() == 0 {
        return Err(Error::new(ErrKind::ArityMismatch, "comparison expects at least one value"));
    }
    match int_args(&vals) {
        Some(xs) => {
            if xs.len() == 0 {
                return Err(
                    Error::new(ErrKind::ArityMismatch, "comparison expects at least one value"),
                );
            }
            let mut i: usize = 0;
            let ghost s = xs@.map_values(|x: i64| x as int);
            proof {
                match ints_of(v_seq(vals@)) {
                    Some(ns) => {
                        assert(s =~= ns);
                    },
                    None => {},
                }
            }
            #[verifier::loop_isolation(false)]
            while i < xs.len() - 1
                invariant
                    1 <= xs@.len(),
                    i <= xs@.len(),
                    forall|k: int|
                        0 <= k < i ==> (match op {
                            BuiltinId::Equal => (#[trigger] s[k]) == s[k + 1],
                            BuiltinId::Less => s[k] < s[k + 1],
                            BuiltinId::LessEqual => s[k] <= s[k + 1],
                            BuiltinId::Greater => s[k] > s[k + 1],
                            _ => s[k] >= s[k + 1],
                        }),
                decreases xs@.len() - i,
            {
                let a = xs[i];
                let b = xs[i + 1];
                let ok = match op {
                    BuiltinId::Equal => a == b,
                    BuiltinId::Less => a < b,
                    BuiltinId::LessEqual => a <= b,
                    BuiltinId::Greater => a > b,
                    _ => a >= b,
                };
                if !ok {
                    proof {
                        assert(!chain_holds(s, op));
                    }
                    return Ok(Expression::Atom(Atom::Nil));
                }
                i += 1;
            }
            Ok(Expression::Atom(Atom::True))
        },
        None => {
            if !matches!(op, BuiltinId::Equal) {
                return Err(
                    Error::new(ErrKind::TypeMismatch, "ordering compares integers only"),
                );
            }
            let mut i: usize = 0;
            #[verifier::loop_isolation(false)]
            while i < vals.len() - 1
                invariant
                    1 <= vals@.len(),
                    i <= vals@.len(),
                    str_eq_chain(v_seq(vals@), 0) == str_eq_chain(v_seq(vals@), i as int),
                decreases vals@.len() - i,
            {
                let sa = match &vals[i] {
                    Expression::Atom(Atom::Str(sa)) => sa,
                    _ => {
                        return Err(
                            Error::new(ErrKind::TypeMismatch, "= compares integers or strings"),
                        );
                    },
                };
                let sb = match &vals[i + 1] {
                    Expression::Atom(Atom::Str(sb)) => sb,
                    _ => {
                        return Err(
                            Error::new(ErrKind::TypeMismatch, "= compares integers or strings"),
                        );
                    },
                };
                if !str_eq(sa.as_str(), sb.as_str()) {
                    return Ok(Expression::Atom(Atom::Nil));
                }
                i += 1;
            }
            Ok(Expression::Atom(Atom::True))
        },
    }
}

/// The length of a value, as the `length` form counts it.
pub open spec fn length_of(v: Vx) -> int
    decreases v, 1int,
{
    match v {
        Vx::Nil => 0,
        Vx::Str(s) => s.len() as int,
        Vx::Vector(es) => es.len() as int,
        Vx::Pair(_, d) => 1 + chain_len_rest(*d),
        Vx::Table(t) => t.len() as int,
        Vx::Builtin(_) => 0,
        Vx::Process(_) => 0,
        Vx::File(_) => 0,
        _ => 1,
    }
}

/// The count of remaining chain links behind a pair's head.
pub open spec fn chain_len_rest(v: Vx) -> int
    decreases v, 0int,
{
    match v {
        Vx::Pair(_, d) => 1 + chain_len_rest(*d),
        _ => 0,
    }
}

/// Count the chain links behind a pair's head.
fn chain_len_exec(e: &Expression) -> (r: Option<i64>)
    ensures
        r matches Some(n) ==> n as int == chain_len_rest(e@),
        r is None ==> chain_len_rest(e@) >= i64::MAX,
    decreases e,
{
    match e {
        Expression::Pair(_, d) => {
            match chain_len_exec(d) {
                Some(n) => {
                    if n == i64::MAX {
                        None
                    } else {
                        Some(n + 1)
                    }
                },
                None => None,
            }
        },
        _ => Some(0),
    }
}

/// `length`: the length of the (evaluated) argument.
pub fn builtin_length<P: SysPort>(
    env: &mut Environment,
    port: &mut P,
    args: &Vec<Expression>,
    fuel: u64,
) -> (r: Result<Expression, Error>)
    requires
        old(env).wf(),
    ensures
        final(env).wf(),
        args@.len() == 1 ==> (simple_eval(*old(env), v_seq(args@)[0]) matches Some(res) ==> (res
            matches Ok(v) ==> (fuel >= sfuel(v_seq(args@)[0]) + 1 ==> (in_i64(length_of(v))
            ==> (*final(env) == *old(env) && (r matches Ok(e) && v_expr(e) == Vx::Int(
            length_of(v) as i64,
        ))))))),
    decreases fuel,
{
    if fuel == 0 {
        return Err(Error::new(ErrKind::Interrupted, "evaluation budget exhausted"));
    }
    if args.len() != 1 {
        return Err(Error::new(ErrKind::ArityMismatch, "length takes one form"));
    }
    let v = match eval(env, port, &args[0], fuel - 1) {
        Ok(v) => v,
        Err(e) => {
            return Err(e);
        },
    };
    match &v {
        Expression::Atom(Atom::Nil) => Ok(Expression::Atom(Atom::Int(0))),
        Expression::Atom(Atom::Str(s)) => {
            let n = s.as_str().unicode_len();
            if n as u64 > 9223372036854775807u64 {
                return Err(Error::new(ErrKind::TypeMismatch, "length does not fit"));
            }
            Ok(Expression::Atom(Atom::Int(n as i64)))
        },
        Expression::Vector(l) => {
            proof {
                crate::types::lemma_v_seq_len(l@);
            }
            if l.len() as u64 > 9223372036854775807u64 {
                return Err(Error::new(ErrKind::TypeMismatch, "length does not fit"));
            }
            Ok(Expression::Atom(Atom::Int(l.len() as i64)))
        },
        Expression::Pair(_, d) => {
            match chain_len_exec(d) {
                Some(n) => {
                    if n == i64::MAX {
                        return Err(Error::new(ErrKind::TypeMismatch, "length does not fit"));
                    }
                    Ok(Expression::Atom(Atom::Int(1 + n)))
                },
                None => Err(Error::new(ErrKind::TypeMismatch, "length does not fit")),
            }
        },
        Expression::Table(t) => {
            proof {
                crate::types::lemma_v_tab_len(t@);
            }
            if t.len() as u64 > 9223372036854775807u64 {
                return Err(Error::new(ErrKind::TypeMismatch, "length does not fit"));
            }
            Ok(Expression::Atom(Atom::Int(t.len() as i64)))
        },
        Expression::Atom(_) => Ok(Expression::Atom(Atom::Int(1))),
        _ => Ok(Expression::Atom(Atom::Int(0))),
    }
}


/// Expand a leading `~` in a word to the home directory.
fn expand_tilde<P: SysPort>(port: &mut P, word: String) -> (r: String) {
    if crate::strutil::starts_with_char(word.as_str(), '~') {
        match port.getenv("HOME") {
            Some(home) => {
                let mut out = home;
                let n = word.as_str().unicode_len();
                let rest = word.as_str().substring_char(1, n);
                out.append(rest);
                out
            },
            None => word,
        }
    } else {
        word
    }
}

/// Record the exit status of the last external command, when asked to.
fn save_exit_status<P: SysPort>(env: &mut Environment, port: &mut P, status: i32)
    requires
        old(env).wf(),
    ensures
        final(env).wf(),
{
    if env.save_exit_status {
        let text = crate::strutil::i64_to_string(status as i64);
        port.setenv("LAST_STATUS", text.as_str());
        let ghost pre = *env;
        crate::environment::set_expression_at(
            env,
            0,
            String::from_str("*last-status*"),
            Expression::Atom(Atom::Int(status as i64)),
        );
    }
}

/// Deliver one wait outcome: stopped children join the stopped list and
/// their job is marked; exited children leave every table.
pub fn note_wait_outcome<P: SysPort>(
    env: &mut Environment,
    port: &mut P,
    pid: u32,
    outcome: crate::port::WaitOutcome,
) -> (status: Option<i32>)
    requires
        old(env).wf(),
    ensures
        final(env).wf(),
        outcome matches crate::port::WaitOutcome::Stopped ==> final(env).procs == old(env).procs,
{
    match outcome {
        crate::port::WaitOutcome::Exited(code) => {
            crate::environment::remove_job(env, pid);
            proof {
                assert forall|j: int|
                    0 <= j < env.jobs@.len() implies !(#[trigger] env.jobs@[j]).pids@.contains(
                    pid,
                ) by {
                    crate::environment::lemma_filter_elem(
                        old(env).jobs@,
                        |jb: crate::environment::Job| !jb.pids@.contains(pid),
                        env.jobs@[j],
                    );
                }
            }
            crate::environment::remove_process(env, pid);
            save_exit_status(env, port, code);
            Some(code)
        },
        crate::port::WaitOutcome::Stopped => {
            crate::environment::mark_job_stopped(env, pid);
            match crate::environment::find_job(&env.jobs, pid) {
                Some(j) => {
                    let absent = !crate::environment::vec_contains_u32(&env.stopped_procs, pid);
                    if absent {
                        let ghost pre = *env;
                        env.stopped_procs.push(pid);
                        proof {
                            assert(env.scope_graph_wf());
                            crate::environment::lemma_ns_preserved(pre, *env);
                            assert forall|p: u32| env.stopped_procs@.contains(p) implies exists|jj: int|
                                0 <= jj < env.jobs@.len() && (#[trigger] env.jobs@[jj]).pids@.contains(p)
                                    && env.jobs@[jj].status
                                    == crate::environment::JobStatus::Stopped by {
                                if p == pid {
                                    crate::environment::lemma_first_job_props(env.jobs@, pid, 0);
                                    crate::environment::lemma_first_job_same_pids(
                                        old(env).jobs@,
                                        env.jobs@,
                                        pid,
                                        0,
                                    );
                                    crate::environment::lemma_first_job_props(
                                        old(env).jobs@,
                                        pid,
                                        0,
                                    );
                                    assert(env.jobs@[j as int].pids@.contains(p)
                                        && env.jobs@[j as int].status
                                        == crate::environment::JobStatus::Stopped);
                                } else {
                                    assert(pre.stopped_procs@.contains(p));
                                    let jj = choose|jj: int|
                                        0 <= jj < pre.jobs@.len() && (#[trigger] pre.jobs@[jj]).pids@.contains(p)
                                            && pre.jobs@[jj].status
                                            == crate::environment::JobStatus::Stopped;
                                    assert(env.jobs@[jj].pids@.contains(p) && env.jobs@[jj].status
                                        == crate::environment::JobStatus::Stopped);
                                }
                            }
                            assert(env.jobs_wf());
                        }
                    }
                },
                None => {},
            }
            None
        },
        crate::port::WaitOutcome::Gone => {
            crate::environment::remove_job(env, pid);
            proof {
                assert forall|j: int|
                    0 <= j < env.jobs@.len() implies !(#[trigger] env.jobs@[j]).pids@.contains(
                    pid,
                ) by {
                    crate::environment::lemma_filter_elem(
                        old(env).jobs@,
                        |jb: crate::environment::Job| !jb.pids@.contains(pid),
                        env.jobs@[j],
                    );
                }
            }
            crate::environment::remove_process(env, pid);
            None
        },
    }
}

/// Block until the child exits or stops, and record what happened.
pub fn wait_for_pid<P: SysPort>(env: &mut Environment, port: &mut P, pid: u32) -> (r: Option<
    i32,
>)
    requires
        old(env).wf(),
    ensures
        final(env).wf(),
{
    let outcome = port.wait_pid(pid);
    note_wait_outcome(env, port, pid, outcome)
}

/// Run an external command named by a bare symbol: build the argv from the
/// stringified arguments, spawn through the port, and either wait (saving
/// the exit status) or leave it running in the background.
pub fn run_external<P: SysPort>(
    env: &mut Environment,
    port: &mut P,
    name: &String,
    args: &Vec<Expression>,
    fuel: u64,
) -> (r: Result<Expression, Error>)
    requires
        old(env).wf(),
    ensures
        final(env).wf(),
        r matches Ok(e) ==> e@ is Process,
        r matches Ok(e) ==> (e@ matches Vx::Process(p) ==> (p matches
            crate::types::ProcessState::Running(pid2) ==> final(env).procs@.contains(pid2))),
    decreases fuel,
{
    if fuel == 0 {
        return Err(Error::new(ErrKind::Interrupted, "evaluation budget exhausted"));
    }
    let vals = match eval_args(env, port, args, fuel - 1) {
        Ok(vals) => vals,
        Err(e) => {
            return Err(e);
        },
    };
    let mut argv: Vec<String> = Vec::new();
    argv.push(expand_tilde(port, name.clone()));
    let mut i: usize = 0;
    #[verifier::loop_isolation(false)]
    while i < vals.len()
        invariant
            env.wf(),
            i <= vals@.len(),
        decreases vals@.len() - i,
    {
        let word = match as_string(port, &vals[i]) {
            Ok(word) => word,
            Err(e) => {
                return Err(e);
            },
        };
        argv.push(expand_tilde(port, word));
        i += 1;
    }
    let stdin_text: Option<String> = match &env.data_in {
        Some(Expression::Process(p)) => {
            // the pipe's read end becomes this command's standard input
            match port.read_proc_output(p.pid()) {
                Ok(t) => Some(t),
                Err(e) => {
                    return Err(e);
                },
            }
        },
        Some(d) => {
            let d2 = d.duplicate();
            match as_string(port, &d2) {
                Ok(t) => Some(t),
                Err(e) => {
                    return Err(e);
                },
            }
        },
        None => None,
    };
    let background = env.run_background;
    let pid = match port.spawn(
        &argv,
        match &stdin_text {
            Some(t) => Some(t),
            None => None,
        },
        &env.state.stdout_status,
        &env.state.stderr_status,
        background,
        env.state.pipe_pgid,
    ) {
        Ok(pid) => pid,
        Err(e) => {
            return Err(e);
        },
    };
    crate::environment::add_process(env, pid);
    let mut job_pids: Vec<u32> = Vec::new();
    job_pids.push(pid);
    let mut job_names: Vec<String> = Vec::new();
    job_names.push(name.clone());
    let ghost pre = *env;
    env.jobs.push(
        crate::environment::Job {
            pids: job_pids,
            names: job_names,
            status: crate::environment::JobStatus::Running,
        },
    );
    proof {
        assert(env.scope_graph_wf());
        crate::environment::lemma_ns_preserved(pre, *env);
        assert forall|p: u32| env.stopped_procs@.contains(p) implies exists|jj: int|
            0 <= jj < env.jobs@.len() && (#[trigger] env.jobs@[jj]).pids@.contains(p)
                && env.jobs@[jj].status == crate::environment::JobStatus::Stopped by {
            assert(pre.stopped_procs@.contains(p));
            let jj = choose|jj: int|
                0 <= jj < pre.jobs@.len() && (#[trigger] pre.jobs@[jj]).pids@.contains(p)
                    && pre.jobs@[jj].status == crate::environment::JobStatus::Stopped;
            assert(env.jobs@[jj].pids@.contains(p) && env.jobs@[jj].status
                == crate::environment::JobStatus::Stopped);
        }
        assert forall|j: int, i2: int|
            0 <= j < env.jobs@.len() && 0 <= i2 < env.jobs@[j].pids@.len() implies env.procs@
                .contains(#[trigger] env.jobs@[j].pids@[i2]) by {
            if j < pre.jobs@.len() {
                assert(pre.procs@.contains(pre.jobs@[j].pids@[i2]));
            } else {
                assert(env.jobs@[j].pids@[i2] == pid);
                assert(env.procs@[env.procs@.len() - 1] == pid);
                assert(env.procs@.contains(pid));
            }
        }
        assert(env.jobs_wf());
    }
    let in_pipe = env.in_pipe;
    if background || in_pipe {
        Ok(Expression::Process(crate::types::ProcessState::Running(pid)))
    } else {
        let outcome = port.wait_pid(pid);
        match outcome {
            crate::port::WaitOutcome::Exited(code) => {
                let _ = note_wait_outcome(env, port, pid, outcome);
                Ok(Expression::Process(crate::types::ProcessState::Over(pid, code)))
            },
            crate::port::WaitOutcome::Stopped => {
                let _ = note_wait_outcome(env, port, pid, outcome);
                Ok(Expression::Process(crate::types::ProcessState::Running(pid)))
            },
            crate::port::WaitOutcome::Gone => {
                // the child vanished: drop it from the tables and report
                // it as finished
                let _ = note_wait_outcome(env, port, pid, outcome);
                Ok(Expression::Process(crate::types::ProcessState::Over(pid, 0)))
            },
        }
    }
}

/// `eval`: evaluate the argument; a string result is read as source text
/// through the reader and evaluated again.
pub fn builtin_eval_form<P: SysPort>(
    env: &mut Environment,
    port: &mut P,
    args: &Vec<Expression>,
    fuel: u64,
) -> (r: Result<Expression, Error>)
    requires
        old(env).wf(),
    ensures
        final(env).wf(),
        args@.len() == 1 ==> (simple_eval(*old(env), v_seq(args@)[0]) matches Some(res) ==> (res
            matches Ok(v) ==> (plain_value(v) ==> (fuel >= sfuel(v_seq(args@)[0]) + 2 ==> (
        *final(env) == *old(env) && (r matches Ok(e) && v_expr(e) == v)))))),
    decreases fuel,
{
    if fuel == 0 {
        return Err(Error::new(ErrKind::Interrupted, "evaluation budget exhausted"));
    }
    if args.len() != 1 {
        return Err(Error::new(ErrKind::ArityMismatch, "eval can only have one form"));
    }
    let v = match eval(env, port, &args[0], fuel - 1) {
        Ok(v) => v,
        Err(e) => {
            return Err(e);
        },
    };
    match v {
        Expression::Atom(Atom::Str(text)) => {
            match port.read_form(text.as_str()) {
                Ok(ast) => eval(env, port, &ast, fuel - 1),
                Err(pe) => Err(Error { kind: ErrKind::Parse, msg: pe.reason }),
            }
        },
        _ => eval(env, port, &v, fuel - 1),
    }
}

/// `fncall`: call the first (evaluated) form with the remaining forms.
pub fn builtin_fncall<P: SysPort>(
    env: &mut Environment,
    port: &mut P,
    args: &Vec<Expression>,
    fuel: u64,
) -> (r: Result<Expression, Error>)
    requires
        old(env).wf(),
    ensures
        final(env).wf(),
        args@.len() == 0 && fuel >= 1 ==> (r matches Err(er) && er.kind == ErrKind::ArityMismatch
            && *final(env) == *old(env)),
        args@.len() >= 1 ==> (simple_eval(*old(env), v_seq(args@)[0]) matches Some(res0) ==> (
        res0 matches Ok(fv) ==> (fv matches Vx::Builtin(b) ==> (crate::semantics::frag_builtin_eval(
            *old(env),
            b,
            v_seq(args@).subrange(1, v_seq(args@).len() as int),
        ) matches Some(res2) ==> (fuel >= crate::semantics::sfuel_tail(v_seq(args@), 0) + 4
            ==> (*final(env) == *old(env) && crate::eval::matches_simple(r, res2))))))),
    decreases fuel,
{
    let ghost vargs = v_seq(args@);
    if fuel == 0 {
        return Err(Error::new(ErrKind::Interrupted, "evaluation budget exhausted"));
    }
    if args.len() == 0 {
        return Err(Error::new(ErrKind::ArityMismatch, "fncall: empty call"));
    }
    proof {
        if fuel >= crate::semantics::sfuel_tail(vargs, 0) + 4 {
            crate::semantics::lemma_sfuel_tail_elem(vargs, 0, 0);
        }
    }
    let f = match eval(env, port, &args[0], fuel - 1) {
        Ok(f) => f,
        Err(e) => {
            return Err(e);
        },
    };
    let mut rest: Vec<Expression> = Vec::new();
    let mut i: usize = 1;
    #[verifier::loop_isolation(false)]
    while i < args.len()
        invariant
            env.wf(),
            1 <= i <= args@.len(),
            rest@.len() == i - 1,
            forall|k: int| 0 <= k < i - 1 ==> v_expr(#[trigger] rest@[k]) == v_expr(args@[k + 1]),
        decreases args@.len() - i,
    {
        rest.push(args[i].duplicate());
        i += 1;
    }
    proof {
        assert(v_seq(rest@) =~= vargs.subrange(1, vargs.len() as int));
        crate::semantics::lemma_sfuel_tail_shift(vargs, v_seq(rest@), 0);
    }
    crate::eval::dispatch_callable(env, port, &f, &rest, fuel - 1)
}

/// `apply`: call a function; the last argument is a list whose elements
/// are spread into the call.
pub fn builtin_apply<P: SysPort>(
    env: &mut Environment,
    port: &mut P,
    args: &Vec<Expression>,
    fuel: u64,
) -> (r: Result<Expression, Error>)
    requires
        old(env).wf(),
    ensures
        final(env).wf(),
        args@.len() == 0 && fuel >= 1 ==> (r matches Err(er) && er.kind == ErrKind::ArityMismatch
            && *final(env) == *old(env)),
    decreases fuel,
{
    if fuel == 0 {
        return Err(Error::new(ErrKind::Interrupted, "evaluation budget exhausted"));
    }
    if args.len() == 0 {
        return Err(Error::new(ErrKind::ArityMismatch, "apply: empty call"));
    }
    let f = match eval(env, port, &args[0], fuel - 1) {
        Ok(f) => f,
        Err(e) => {
            return Err(e);
        },
    };
    let mut call: Vec<Expression> = Vec::new();
    let mut i: usize = 1;
    #[verifier::loop_isolation(false)]
    while i < args.len() - 1
        invariant
            env.wf(),
            1 <= args@.len(),
            1 <= i <= args@.len(),
        decreases args@.len() - i,
    {
        call.push(args[i].duplicate());
        i += 1;
    }
    if args.len() >= 2 {
        let tail = match eval(env, port, &args[args.len() - 1], fuel - 1) {
            Ok(tail) => tail,
            Err(e) => {
                return Err(e);
            },
        };
        match tail {
            Expression::Vector(mut items) => {
                call.append(&mut items);
            },
            Expression::Pair(_, _) => {
                match tail.collect_chain() {
                    Some(mut items) => {
                        call.append(&mut items);
                    },
                    None => {
                        return Err(
                            Error::new(ErrKind::TypeMismatch, "apply: last arg not a list"),
                        );
                    },
                }
            },
            Expression::Atom(Atom::Nil) => {},
            _ => {
                return Err(Error::new(ErrKind::TypeMismatch, "apply: last arg not a list"));
            },
        }
    }
    crate::eval::dispatch_callable(env, port, &f, &call, fuel - 1)
}

/// `expand-macro`: expand a macro call form once, without evaluating the
/// expansion.
pub fn builtin_expand_macro<P: SysPort>(
    env: &mut Environment,
    port: &mut P,
    args: &Vec<Expression>,
    fuel: u64,
) -> (r: Result<Expression, Error>)
    requires
        old(env).wf(),
    ensures
        final(env).wf(),
    decreases fuel,
{
    if fuel == 0 {
        return Err(Error::new(ErrKind::Interrupted, "evaluation budget exhausted"));
    }
    if args.len() != 1 {
        return Err(
            Error::new(
                ErrKind::ArityMismatch,
                "expand-macro takes one form (the macro call to expand)",
            ),
        );
    }
    let parts: Vec<Expression> = match &args[0] {
        Expression::Vector(l) => {
            let mut out: Vec<Expression> = Vec::new();
            let mut i: usize = 0;
            #[verifier::loop_isolation(false)]
            while i < l.len()
                invariant
                    env.wf(),
                    i <= l@.len(),
                decreases l@.len() - i,
            {
                proof {
                    assert(decreases_to!(*l => l@[i as int]));
                }
                out.push(l[i].duplicate());
                i += 1;
            }
            out
        },
        Expression::Pair(_, _) => {
            match args[0].collect_chain() {
                Some(out) => out,
                None => {
                    return Err(
                        Error::new(ErrKind::TypeMismatch, "expand-macro takes a macro call form"),
                    );
                },
            }
        },
        _ => {
            return Err(
                Error::new(ErrKind::TypeMismatch, "expand-macro takes a macro call form"),
            );
        },
    };
    if parts.len() == 0 {
        return Err(
            Error::new(ErrKind::ArityMismatch, "expand-macro needs the macro name and arguments"),
        );
    }
    let head = &parts[0];
    let name = match head {
        Expression::Atom(Atom::Symbol(name)) => name,
        _ => {
            return Err(
                Error::new(ErrKind::TypeMismatch, "expand-macro: first item must be a symbol"),
            );
        },
    };
    let m = match get_expression(env, name.as_str()) {
        Some(Expression::Atom(Atom::Macro(m))) => m,
        _ => {
            return Err(Error::new(ErrKind::NotCallable, "expand-macro: not a macro"));
        },
    };
    let mut rest: Vec<Expression> = Vec::new();
    let mut i: usize = 1;
    #[verifier::loop_isolation(false)]
    while i < parts.len()
        invariant
            env.wf(),
            1 <= i <= parts@.len(),
        decreases parts@.len() - i,
    {
        rest.push(parts[i].duplicate());
        i += 1;
    }
    macro_expand(env, port, &m, &rest, false, fuel - 1)
}


/// A value-preserving copy of an output routing.
fn clone_io(x: &IOState) -> (r: IOState)
    ensures
        r == *x,
{
    match x {
        IOState::Pipe => IOState::Pipe,
        IOState::Inherit => IOState::Inherit,
        IOState::Null => IOState::Null,
        IOState::FileOverwrite(p) => IOState::FileOverwrite(p.clone()),
        IOState::FileAppend(p) => IOState::FileAppend(p.clone()),
    }
}

/// A value-preserving copy of an optional output routing.
fn clone_opt_io(x: &Option<IOState>) -> (r: Option<IOState>)
    ensures
        r == *x,
{
    match x {
        Some(io) => Some(clone_io(io)),
        None => None,
    }
}

/// Write text to the stream a well-known binding (`*stdout*`, `*stderr*`)
/// names, or to the fallback stream.
fn write_to_binding<P: SysPort>(
    env: &Environment,
    port: &mut P,
    key: &str,
    fallback: crate::types::FileState,
    text: &str,
) -> (r: Result<(), Error>)
    requires
        env.wf(),
{
    match get_expression(env, key) {
        Some(Expression::File(f)) => port.write_text(f, text),
        Some(_) => Err(Error::new(ErrKind::TypeMismatch, "stream binding is not a file")),
        None => port.write_text(fallback, text),
    }
}

/// The `print` family: write each argument's text to standard output or
/// standard error, honouring the output routing.
pub fn builtin_print<P: SysPort>(
    env: &mut Environment,
    port: &mut P,
    args: &Vec<Expression>,
    newline: bool,
    to_err: bool,
    fuel: u64,
) -> (r: Result<Expression, Error>)
    requires
        old(env).wf(),
    ensures
        final(env).wf(),
        r matches Ok(e) ==> v_expr(e) == Vx::Nil,
    decreases fuel,
{
    if fuel == 0 {
        return Err(Error::new(ErrKind::Interrupted, "evaluation budget exhausted"));
    }
    let muted = if to_err {
        matches!(&env.state.stderr_status, Some(IOState::Null))
    } else {
        matches!(&env.state.stdout_status, Some(IOState::Null))
    };
    let mut i: usize = 0;
    #[verifier::loop_isolation(false)]
    while i < args.len()
        invariant
            env.wf(),
            i <= args@.len(),
        decreases args@.len() - i,
    {
        let v = match eval(env, port, &args[i], fuel - 1) {
            Ok(v) => v,
            Err(e) => {
                return Err(e);
            },
        };
        if !muted {
            let text = match as_string(port, &v) {
                Ok(text) => text,
                Err(e) => {
                    return Err(e);
                },
            };
            let res = if to_err {
                write_to_binding(env, port, "*stderr*", crate::types::FileState::Stderr, text.as_str())
            } else {
                write_to_binding(env, port, "*stdout*", crate::types::FileState::Stdout, text.as_str())
            };
            match res {
                Ok(_) => {},
                Err(e) => {
                    return Err(e);
                },
            }
        }
        i += 1;
    }
    if newline && !muted {
        let res = if to_err {
            write_to_binding(env, port, "*stderr*", crate::types::FileState::Stderr, "\n")
        } else {
            write_to_binding(env, port, "*stdout*", crate::types::FileState::Stdout, "\n")
        };
        match res {
            Ok(_) => {},
            Err(e) => {
                return Err(e);
            },
        }
    }
    Ok(Expression::Atom(Atom::Nil))
}

/// `jobs`: list the job table on standard output.
pub fn builtin_jobs<P: SysPort>(env: &mut Environment, port: &mut P, args: &Vec<Expression>) -> (r:
    Result<Expression, Error>)
    requires
        old(env).wf(),
    ensures
        final(env).wf(),
        *final(env) == *old(env),
        r matches Ok(e) && v_expr(e) == Vx::Nil,
{
    let mut i: usize = 0;
    #[verifier::loop_isolation(false)]
    while i < env.jobs.len()
        invariant
            env.wf(),
            *env == *old(env),
            i <= env.jobs@.len(),
        decreases env.jobs@.len() - i,
    {
        let mut line = String::new();
        proof {
            reveal_strlit("[");
            reveal_strlit("]\t");
            reveal_strlit("\t");
            reveal_strlit("\n");
            reveal_strlit(" ");
        }
        line.append("[");
        let idx_text = usize_to_string(i);
        line.append(idx_text.as_str());
        line.append("]\t");
        line.append(env.jobs[i].status.as_text());
        line.append("\t");
        let mut k: usize = 0;
        #[verifier::loop_isolation(false)]
        while k < env.jobs[i].pids.len()
            invariant
                *env == *old(env),
                i < env.jobs@.len(),
                k <= env.jobs@[i as int].pids@.len(),
            decreases env.jobs@[i as int].pids@.len() - k,
        {
            let pid_text = crate::strutil::u32_to_string(env.jobs[i].pids[k]);
            line.append(pid_text.as_str());
            line.append(" ");
            k += 1;
        }
        line.append("\t");
        let mut k2: usize = 0;
        #[verifier::loop_isolation(false)]
        while k2 < env.jobs[i].names.len()
            invariant
                *env == *old(env),
                i < env.jobs@.len(),
                k2 <= env.jobs@[i as int].names@.len(),
            decreases env.jobs@[i as int].names@.len() - k2,
        {
            line.append(env.jobs[i].names[k2].as_str());
            line.append(" ");
            k2 += 1;
        }
        line.append("\n");
        let _ = port.write_text(crate::types::FileState::Stdout, line.as_str());
        i += 1;
    }
    Ok(Expression::Atom(Atom::Nil))
}

/// The pid `bg`/`fg` should operate on: the job index's first pid, or the
/// most recently stopped pid.
fn get_stopped_pid<P: SysPort>(
    env: &mut Environment,
    port: &mut P,
    args: &Vec<Expression>,
    fuel: u64,
) -> (r: Result<Option<u32>, Error>)
    requires
        old(env).wf(),
    ensures
        final(env).wf(),
        args@.len() == 0 && fuel >= 1 ==> ({
            &&& final(env).jobs == old(env).jobs
            &&& final(env).procs == old(env).procs
            &&& (old(env).stopped_procs@.len() > 0 ==> (final(env).stopped_procs@ == old(
                env,
            ).stopped_procs@.drop_last() && (r matches Ok(p2) && p2 == Some(
                old(env).stopped_procs@.last(),
            ))))
            &&& (old(env).stopped_procs@.len() == 0 ==> final(env).stopped_procs@ == old(
                env,
            ).stopped_procs@)
        }),
    decreases fuel,
{
    if fuel == 0 {
        return Err(Error::new(ErrKind::Interrupted, "evaluation budget exhausted"));
    }
    if args.len() > 1 {
        return Err(Error::new(ErrKind::ArityMismatch, "takes one optional job index"));
    }
    if args.len() == 1 {
        let v = match eval(env, port, &args[0], fuel - 1) {
            Ok(v) => v,
            Err(e) => {
                return Err(e);
            },
        };
        match v {
            Expression::Atom(Atom::Int(ji)) => {
                if ji < 0 || ji as u64 >= env.jobs.len() as u64 {
                    return Err(Error::new(ErrKind::Process, "job id out of range"));
                }
                let j = ji as usize;
                if env.jobs[j].pids.len() == 0 {
                    return Err(Error::new(ErrKind::Process, "job has no process"));
                }
                Ok(Some(env.jobs[j].pids[0]))
            },
            _ => Err(Error::new(ErrKind::TypeMismatch, "job id must be an integer")),
        }
    } else {
        let ghost pre = *env;
        let popped = env.stopped_procs.pop();
        proof {
            assert(env.scope_graph_wf());
            crate::environment::lemma_ns_preserved(pre, *env);
            assert forall|p: u32| env.stopped_procs@.contains(p) implies exists|jj: int|
                0 <= jj < env.jobs@.len() && (#[trigger] env.jobs@[jj]).pids@.contains(p)
                    && env.jobs@[jj].status == crate::environment::JobStatus::Stopped by {
                let k = choose|k: int|
                    0 <= k < env.stopped_procs@.len() && env.stopped_procs@[k] == p;
                assert(pre.stopped_procs@[k] == p);
                assert(pre.stopped_procs@.contains(p));
                let jj = choose|jj: int|
                    0 <= jj < pre.jobs@.len() && (#[trigger] pre.jobs@[jj]).pids@.contains(p)
                        && pre.jobs@[jj].status == crate::environment::JobStatus::Stopped;
                assert(env.jobs@[jj].pids@.contains(p) && env.jobs@[jj].status
                    == crate::environment::JobStatus::Stopped);
            }
            assert(env.jobs_wf());
        }
        Ok(popped)
    }
}

/// `bg`: continue a stopped job in the background.
pub fn builtin_bg<P: SysPort>(
    env: &mut Environment,
    port: &mut P,
    args: &Vec<Expression>,
    fuel: u64,
) -> (r: Result<Expression, Error>)
    requires
        old(env).wf(),
    ensures
        final(env).wf(),
        r matches Ok(e) ==> v_expr(e) == Vx::Nil,
        args@.len() == 0 && old(env).stopped_procs@.len() > 0 && fuel >= 2
            ==> final(env).stopped_procs@.len() < old(env).stopped_procs@.len(),
    decreases fuel,
{
    if fuel == 0 {
        return Err(Error::new(ErrKind::Interrupted, "evaluation budget exhausted"));
    }
    let opid = match get_stopped_pid(env, port, args, fuel - 1) {
        Ok(opid) => opid,
        Err(e) => {
            return Err(e);
        },
    };
    if let Some(pid) = opid {
        if port.sigcont(pid) {
            crate::environment::mark_job_running(env, pid);
        }
    }
    Ok(Expression::Atom(Atom::Nil))
}

/// `fg`: continue a stopped job in the foreground and wait for it, giving
/// it the terminal meanwhile.
pub fn builtin_fg<P: SysPort>(
    env: &mut Environment,
    port: &mut P,
    args: &Vec<Expression>,
    fuel: u64,
) -> (r: Result<Expression, Error>)
    requires
        old(env).wf(),
    ensures
        final(env).wf(),
        r matches Ok(e) ==> v_expr(e) == Vx::Nil,
    decreases fuel,
{
    if fuel == 0 {
        return Err(Error::new(ErrKind::Interrupted, "evaluation budget exhausted"));
    }
    let opid = match get_stopped_pid(env, port, args, fuel - 1) {
        Ok(opid) => opid,
        Err(e) => {
            return Err(e);
        },
    };
    if let Some(pid) = opid {
        if port.sigcont(pid) {
            port.set_foreground(pid);
            crate::environment::mark_job_running(env, pid);
            let _ = wait_for_pid(env, port, pid);
            port.restore_terminal();
        }
    }
    Ok(Expression::Atom(Atom::Nil))
}

/// `wait`: block until the given process (or pid) finishes; its exit code.
pub fn builtin_wait<P: SysPort>(
    env: &mut Environment,
    port: &mut P,
    args: &Vec<Expression>,
    fuel: u64,
) -> (r: Result<Expression, Error>)
    requires
        old(env).wf(),
    ensures
        final(env).wf(),
        r matches Ok(e) ==> (e@ is Int || e@ == Vx::Nil),
    decreases fuel,
{
    if fuel == 0 {
        return Err(Error::new(ErrKind::Interrupted, "evaluation budget exhausted"));
    }
    if args.len() != 1 {
        return Err(Error::new(ErrKind::ArityMismatch, "wait takes one process"));
    }
    let v = match eval(env, port, &args[0], fuel - 1) {
        Ok(v) => v,
        Err(e) => {
            return Err(e);
        },
    };
    let pid: u32 = match v {
        Expression::Process(p) => p.pid(),
        Expression::Atom(Atom::Int(i)) => {
            if i < 0 || i > 4294967295i64 {
                return Err(Error::new(ErrKind::TypeMismatch, "wait takes a pid"));
            }
            i as u32
        },
        _ => {
            return Err(Error::new(ErrKind::TypeMismatch, "wait takes a process or pid"));
        },
    };
    match wait_for_pid(env, port, pid) {
        Some(code) => Ok(Expression::Atom(Atom::Int(code as i64))),
        None => Ok(Expression::Atom(Atom::Nil)),
    }
}

/// `pid`: the process id of a process value.
pub fn builtin_pid<P: SysPort>(
    env: &mut Environment,
    port: &mut P,
    args: &Vec<Expression>,
    fuel: u64,
) -> (r: Result<Expression, Error>)
    requires
        old(env).wf(),
    ensures
        final(env).wf(),
        args@.len() == 1 ==> (simple_eval(*old(env), v_seq(args@)[0]) matches Some(res) ==> (res
            matches Ok(v) ==> (v matches Vx::Process(p) ==> (fuel >= sfuel(v_seq(args@)[0]) + 1
            ==> (*final(env) == *old(env) && (r matches Ok(e) && v_expr(e) == Vx::Int(
            p.spec_pid() as i64,
        ))))))),
    decreases fuel,
{
    if fuel == 0 {
        return Err(Error::new(ErrKind::Interrupted, "evaluation budget exhausted"));
    }
    if args.len() != 1 {
        return Err(Error::new(ErrKind::ArityMismatch, "pid takes one process"));
    }
    let v = match eval(env, port, &args[0], fuel - 1) {
        Ok(v) => v,
        Err(e) => {
            return Err(e);
        },
    };
    match v {
        Expression::Process(p) => Ok(Expression::Atom(Atom::Int(p.pid() as i64))),
        _ => Err(Error::new(ErrKind::TypeMismatch, "pid takes a process")),
    }
}


/// `export`: set a process-environment variable from a value's text; an
/// empty value removes the variable.
pub fn builtin_export<P: SysPort>(
    env: &mut Environment,
    port: &mut P,
    args: &Vec<Expression>,
    fuel: u64,
) -> (r: Result<Expression, Error>)
    requires
        old(env).wf(),
    ensures
        final(env).wf(),
        r matches Ok(e) ==> e@ is Str,
    decreases fuel,
{
    if fuel == 0 {
        return Err(Error::new(ErrKind::Interrupted, "evaluation budget exhausted"));
    }
    if args.len() != 2 {
        return Err(Error::new(ErrKind::ArityMismatch, "export takes a name and a value"));
    }
    let key = match def_key(env, port, &args[0], fuel - 1) {
        Ok(key) => key,
        Err(e) => {
            return Err(e);
        },
    };
    let val = match eval(env, port, &args[1], fuel - 1) {
        Ok(val) => val,
        Err(e) => {
            return Err(e);
        },
    };
    let acceptable = match &val {
        Expression::Atom(Atom::Symbol(_)) => true,
        Expression::Atom(Atom::Str(_)) => true,
        Expression::Process(_) => true,
        Expression::File(crate::types::FileState::Stdin) => true,
        Expression::File(crate::types::FileState::Read(_)) => true,
        _ => false,
    };
    if !acceptable {
        return Err(Error::new(ErrKind::TypeMismatch, "export: value not valid"));
    }
    let text = match as_string(port, &val) {
        Ok(text) => text,
        Err(e) => {
            return Err(e);
        },
    };
    let expanded = expand_tilde(port, text);
    if expanded.as_str().unicode_len() == 0 {
        port.unsetenv(key.as_str());
    } else {
        port.setenv(key.as_str(), expanded.as_str());
    }
    Ok(Expression::Atom(Atom::Str(expanded)))
}

/// `unexport`: remove a process-environment variable.
pub fn builtin_unexport<P: SysPort>(
    env: &mut Environment,
    port: &mut P,
    args: &Vec<Expression>,
    fuel: u64,
) -> (r: Result<Expression, Error>)
    requires
        old(env).wf(),
    ensures
        final(env).wf(),
        r matches Ok(e) ==> v_expr(e) == Vx::Nil,
    decreases fuel,
{
    if fuel == 0 {
        return Err(Error::new(ErrKind::Interrupted, "evaluation budget exhausted"));
    }
    if args.len() != 1 {
        return Err(Error::new(ErrKind::ArityMismatch, "unexport takes one symbol"));
    }
    let key = match def_key(env, port, &args[0], fuel - 1) {
        Ok(key) => key,
        Err(e) => {
            return Err(e);
        },
    };
    port.unsetenv(key.as_str());
    Ok(Expression::Atom(Atom::Nil))
}

/// Resolve a file name against the `*load-path*` binding: the first
/// directory whose joined path exists wins; with no usable binding the
/// name passes through unchanged.
fn resolve_load_path<P: SysPort>(env: &Environment, port: &mut P, file_name: String) -> (r:
    String)
    requires
        env.wf(),
    ensures
        match crate::environment::lookup_full(*env, "*load-path*"@) {
            None => r@ == file_name@,
            Some(e) => !(v_expr(e) is Vector) ==> r@ == file_name@,
        },
{
    proof {
        reveal_strlit("/");
    }
    match get_expression(env, "*load-path*") {
        Some(Expression::Vector(dirs)) => {
            let mut i: usize = 0;
            #[verifier::loop_isolation(false)]
            while i < dirs.len()
                invariant
                    i <= dirs@.len(),
                decreases dirs@.len() - i,
            {
                let dir: Option<&String> = match &dirs[i] {
                    Expression::Atom(Atom::Symbol(d)) => Some(d),
                    Expression::Atom(Atom::Str(d)) => Some(d),
                    _ => None,
                };
                if let Some(d) = dir {
                    let mut path = d.clone();
                    let n = path.as_str().unicode_len();
                    let ends_slash = if n == 0 {
                        false
                    } else {
                        path.as_str().get_char(n - 1) == '/'
                    };
                    if !ends_slash {
                        path.append("/");
                    }
                    path.append(file_name.as_str());
                    if port.path_exists(path.as_str()) {
                        return path;
                    }
                }
                i += 1;
            }
            file_name
        },
        _ => file_name,
    }
}

/// Read and evaluate a source file: resolve it against `*load-path*`,
/// parse it, and evaluate it (a file of top-level forms runs under an
/// implicit `progn`).
pub fn load<P: SysPort>(
    env: &mut Environment,
    port: &mut P,
    file_name: &str,
    fuel: u64,
) -> (r: Result<Expression, Error>)
    requires
        old(env).wf(),
    ensures
        final(env).wf(),
    decreases fuel,
{
    if fuel == 0 {
        return Err(Error::new(ErrKind::Interrupted, "evaluation budget exhausted"));
    }
    if port.check_interrupt() {
        return Err(Error::new(ErrKind::Interrupted, "interrupted"));
    }
    let name = expand_tilde(port, file_name.to_owned());
    let path = resolve_load_path(env, port, name);
    let text = match port.load_text(path.as_str()) {
        Ok(text) => text,
        Err(e) => {
            return Err(e);
        },
    };
    let ast = match port.read_form(text.as_str()) {
        Ok(ast) => ast,
        Err(pe) => {
            return Err(Error { kind: ErrKind::Parse, msg: pe.reason });
        },
    };
    let wrap = match &ast {
        Expression::Vector(l) => {
            if l.len() == 0 {
                false
            } else {
                match &l[0] {
                    Expression::Vector(_) => true,
                    Expression::Pair(_, _) => true,
                    _ => false,
                }
            }
        },
        _ => false,
    };
    if wrap {
        match ast {
            Expression::Vector(mut l) => {
                l.insert(0, Expression::Atom(Atom::Symbol(String::from_str("progn"))));
                let wrapped = Expression::Vector(l);
                eval(env, port, &wrapped, fuel - 1)
            },
            _ => Err(Error::new(ErrKind::Parse, "unreadable source file")),
        }
    } else {
        eval(env, port, &ast, fuel - 1)
    }
}

/// `load`: read and evaluate the named file.
pub fn builtin_load<P: SysPort>(
    env: &mut Environment,
    port: &mut P,
    args: &Vec<Expression>,
    fuel: u64,
) -> (r: Result<Expression, Error>)
    requires
        old(env).wf(),
    ensures
        final(env).wf(),
    decreases fuel,
{
    if fuel == 0 {
        return Err(Error::new(ErrKind::Interrupted, "evaluation budget exhausted"));
    }
    if args.len() != 1 {
        return Err(Error::new(ErrKind::ArityMismatch, "load needs one argument"));
    }
    let v = match eval(env, port, &args[0], fuel - 1) {
        Ok(v) => v,
        Err(e) => {
            return Err(e);
        },
    };
    let name = match as_string(port, &v) {
        Ok(name) => name,
        Err(e) => {
            return Err(e);
        },
    };
    load(env, port, name.as_str(), fuel - 1)
}

/// `pipe`: evaluate each stage with the previous stage's output as its
/// input; the last stage writes where the pipeline's caller would.
pub fn builtin_pipe<P: SysPort>(
    env: &mut Environment,
    port: &mut P,
    args: &Vec<Expression>,
    fuel: u64,
) -> (r: Result<Expression, Error>)
    requires
        old(env).wf(),
    ensures
        final(env).wf(),
        final(env).in_pipe == old(env).in_pipe,
        old(env).in_pipe && fuel >= 1 ==> (r matches Err(er) && er.kind == ErrKind::Process
            && *final(env) == *old(env)),
        !old(env).in_pipe && args@.len() == 0 && fuel >= 1 ==> (r matches Ok(e) && v_expr(e)
            == Vx::Nil),
    decreases fuel,
{
    if fuel == 0 {
        return Err(Error::new(ErrKind::Interrupted, "evaluation budget exhausted"));
    }
    if env.in_pipe {
        return Err(Error::new(ErrKind::Process, "nested pipelines are not allowed"));
    }
    let saved_out = clone_opt_io(&env.state.stdout_status);
    let saved_data = match &env.data_in {
        Some(d) => Some(d.duplicate()),
        None => None,
    };
    let ghost pre0 = *env;
    env.in_pipe = true;
    proof {
        crate::environment::lemma_wf_fields(pre0, *env);
    }
    let mut result: Result<Expression, Error> = Ok(Expression::Atom(Atom::Nil));
    let mut pids: Vec<u32> = Vec::new();
    let mut i: usize = 0;
    #[verifier::loop_isolation(false)]
    while i < args.len()
        invariant
            env.wf(),
            i <= args@.len(),
            args@.len() == 0 ==> (result matches Ok(re) && v_expr(re) == Vx::Nil),
        decreases args@.len() - i,
    {
        let ghost prea = *env;
        if i + 1 >= args.len() {
            env.state.stdout_status = clone_opt_io(&saved_out);
        } else {
            env.state.stdout_status = Some(IOState::Pipe);
        }
        proof {
            crate::environment::lemma_wf_fields(prea, *env);
        }
        match eval(env, port, &args[i], fuel - 1) {
            Ok(v) => {
                match &v {
                    Expression::Process(p) => {
                        let pid = p.pid();
                        pids.push(pid);
                        let ghost preb = *env;
                        if env.state.pipe_pgid.is_none() {
                            env.state.pipe_pgid = Some(pid);
                        }
                        proof {
                            crate::environment::lemma_wf_fields(preb, *env);
                        }
                    },
                    _ => {},
                }
                let ghost prec = *env;
                env.data_in = Some(v.duplicate());
                proof {
                    crate::environment::lemma_wf_fields(prec, *env);
                }
                result = Ok(v);
            },
            Err(e) => {
                result = Err(e);
                break ;
            },
        }
        i += 1;
    }
    let ghost pre1 = *env;
    env.in_pipe = false;
    env.data_in = saved_data;
    env.state.stdout_status = saved_out;
    env.state.pipe_pgid = None;
    proof {
        crate::environment::lemma_wf_fields(pre1, *env);
    }
    result
}

/// `err-null`: silence standard error for the body forms.
pub fn builtin_err_null<P: SysPort>(
    env: &mut Environment,
    port: &mut P,
    args: &Vec<Expression>,
    fuel: u64,
) -> (r: Result<Expression, Error>)
    requires
        old(env).wf(),
    ensures
        final(env).wf(),
        args@.len() == 0 && fuel >= 2 ==> (r matches Ok(e) && v_expr(e) == Vx::Nil),
    decreases fuel,
{
    if fuel == 0 {
        return Err(Error::new(ErrKind::Interrupted, "evaluation budget exhausted"));
    }
    let saved = clone_opt_io(&env.state.stderr_status);
    let ghost pre = *env;
    env.state.stderr_status = Some(IOState::Null);
    proof {
        crate::environment::lemma_wf_fields(pre, *env);
    }
    let r = crate::eval::builtin_progn(env, port, args, fuel - 1);
    let ghost mid = *env;
    env.state.stderr_status = saved;
    proof {
        crate::environment::lemma_wf_fields(mid, *env);
    }
    r
}

/// `stdout-to` / `stderr-to`: route a stream to a file for the body forms.
pub fn builtin_stream_to<P: SysPort>(
    env: &mut Environment,
    port: &mut P,
    args: &Vec<Expression>,
    to_err: bool,
    fuel: u64,
) -> (r: Result<Expression, Error>)
    requires
        old(env).wf(),
    ensures
        final(env).wf(),
        args@.len() < 2 && fuel >= 1 ==> (r matches Err(er) && er.kind == ErrKind::ArityMismatch
            && *final(env) == *old(env)),
    decreases fuel,
{
    if fuel == 0 {
        return Err(Error::new(ErrKind::Interrupted, "evaluation budget exhausted"));
    }
    if args.len() < 2 {
        return Err(
            Error::new(ErrKind::ArityMismatch, "stream redirection takes a file and body forms"),
        );
    }
    let v = match eval(env, port, &args[0], fuel - 1) {
        Ok(v) => v,
        Err(e) => {
            return Err(e);
        },
    };
    let path = match v {
        Expression::Atom(Atom::Str(path)) => path,
        _ => {
            return Err(Error::new(ErrKind::TypeMismatch, "stream redirection takes a file name"));
        },
    };
    let saved = if to_err {
        clone_opt_io(&env.state.stderr_status)
    } else {
        clone_opt_io(&env.state.stdout_status)
    };
    let ghost pre = *env;
    if to_err {
        env.state.stderr_status = Some(IOState::FileOverwrite(path));
    } else {
        env.state.stdout_status = Some(IOState::FileOverwrite(path));
    }
    proof {
        crate::environment::lemma_wf_fields(pre, *env);
    }
    let mut rest: Vec<Expression> = Vec::new();
    let mut i: usize = 1;
    #[verifier::loop_isolation(false)]
    while i < args.len()
        invariant
            env.wf(),
            1 <= i <= args@.len(),
        decreases args@.len() - i,
    {
        rest.push(args[i].duplicate());
        i += 1;
    }
    let r = crate::eval::builtin_progn(env, port, &rest, fuel - 1);
    let ghost mid = *env;
    if to_err {
        env.state.stderr_status = saved;
    } else {
        env.state.stdout_status = saved;
    }
    proof {
        crate::environment::lemma_wf_fields(mid, *env);
    }
    r
}

/// `file-rdr`: capture the body's output and write it to the named file.
pub fn builtin_file_rdr<P: SysPort>(
    env: &mut Environment,
    port: &mut P,
    args: &Vec<Expression>,
    fuel: u64,
) -> (r: Result<Expression, Error>)
    requires
        old(env).wf(),
    ensures
        final(env).wf(),
        args@.len() < 2 && fuel >= 1 ==> (r matches Err(er) && er.kind == ErrKind::ArityMismatch
            && *final(env) == *old(env)),
    decreases fuel,
{
    if fuel == 0 {
        return Err(Error::new(ErrKind::Interrupted, "evaluation budget exhausted"));
    }
    if args.len() < 2 {
        return Err(Error::new(ErrKind::ArityMismatch, "file-rdr takes a file and body forms"));
    }
    let v = match eval(env, port, &args[0], fuel - 1) {
        Ok(v) => v,
        Err(e) => {
            return Err(e);
        },
    };
    let path = match v {
        Expression::Atom(Atom::Str(path)) => path,
        _ => {
            return Err(Error::new(ErrKind::TypeMismatch, "file-rdr takes a file name"));
        },
    };
    let saved = clone_opt_io(&env.state.stdout_status);
    let ghost pre = *env;
    env.state.stdout_status = Some(IOState::Pipe);
    proof {
        crate::environment::lemma_wf_fields(pre, *env);
    }
    let mut rest: Vec<Expression> = Vec::new();
    let mut i: usize = 1;
    #[verifier::loop_isolation(false)]
    while i < args.len()
        invariant
            env.wf(),
            1 <= i <= args@.len(),
        decreases args@.len() - i,
    {
        rest.push(args[i].duplicate());
        i += 1;
    }
    let r = crate::eval::builtin_progn(env, port, &rest, fuel - 1);
    let ghost mid = *env;
    env.state.stdout_status = saved;
    proof {
        crate::environment::lemma_wf_fields(mid, *env);
    }
    match r {
        Ok(v) => {
            let text = match as_string(port, &v) {
                Ok(text) => text,
                Err(e) => {
                    return Err(e);
                },
            };
            let h = match port.open_write(path.as_str(), false) {
                Ok(h) => h,
                Err(e) => {
                    return Err(e);
                },
            };
            let res = port.write_text(crate::types::FileState::Write(h), text.as_str());
            port.close_handle(h);
            match res {
                Ok(_) => Ok(v),
                Err(e) => Err(e),
            }
        },
        Err(e) => Err(e),
    }
}

/// Poll every tracked child without blocking; finished children leave the
/// tables.
pub fn reap_procs<P: SysPort>(env: &mut Environment, port: &mut P)
    requires
        old(env).wf(),
    ensures
        final(env).wf(),
{
    let mut pids: Vec<u32> = Vec::new();
    let mut i: usize = 0;
    #[verifier::loop_isolation(false)]
    while i < env.procs.len()
        invariant
            env.wf(),
            i <= env.procs@.len(),
        decreases env.procs@.len() - i,
    {
        pids.push(env.procs[i]);
        i += 1;
    }
    let mut k: usize = 0;
    #[verifier::loop_isolation(false)]
    while k < pids.len()
        invariant
            env.wf(),
            k <= pids@.len(),
        decreases pids@.len() - k,
    {
        let pid = pids[k];
        match port.try_wait(pid) {
            Some(code) => {
                let _ = note_wait_outcome(env, port, pid, crate::port::WaitOutcome::Exited(code));
            },
            None => {},
        }
        k += 1;
    }
}


/// Seed a scope's data with every native callable of the core language.
#[verifier::rlimit(60)]
pub fn add_builtins(data: &mut vstd::hash_map::StringHashMap<Expression>)
    ensures
        final(data)@.contains_key("eval"@) && final(data)@["eval"@] == Expression::Builtin(BuiltinId::Eval),
        final(data)@.contains_key("fncall"@) && final(data)@["fncall"@] == Expression::Builtin(BuiltinId::FnCall),
        final(data)@.contains_key("apply"@) && final(data)@["apply"@] == Expression::Builtin(BuiltinId::Apply),
        final(data)@.contains_key("unwind-protect"@) && final(data)@["unwind-protect"@] == Expression::Builtin(BuiltinId::UnwindProtect),
        final(data)@.contains_key("err"@) && final(data)@["err"@] == Expression::Builtin(BuiltinId::ErrForm),
        final(data)@.contains_key("load"@) && final(data)@["load"@] == Expression::Builtin(BuiltinId::Load),
        final(data)@.contains_key("length"@) && final(data)@["length"@] == Expression::Builtin(BuiltinId::Length),
        final(data)@.contains_key("if"@) && final(data)@["if"@] == Expression::Builtin(BuiltinId::If),
        final(data)@.contains_key("print"@) && final(data)@["print"@] == Expression::Builtin(BuiltinId::Print),
        final(data)@.contains_key("println"@) && final(data)@["println"@] == Expression::Builtin(BuiltinId::Println),
        final(data)@.contains_key("eprint"@) && final(data)@["eprint"@] == Expression::Builtin(BuiltinId::Eprint),
        final(data)@.contains_key("eprintln"@) && final(data)@["eprintln"@] == Expression::Builtin(BuiltinId::Eprintln),
        final(data)@.contains_key("format"@) && final(data)@["format"@] == Expression::Builtin(BuiltinId::Format),
        final(data)@.contains_key("progn"@) && final(data)@["progn"@] == Expression::Builtin(BuiltinId::Progn),
        final(data)@.contains_key("set"@) && final(data)@["set"@] == Expression::Builtin(BuiltinId::SetVar),
        final(data)@.contains_key("export"@) && final(data)@["export"@] == Expression::Builtin(BuiltinId::Export),
        final(data)@.contains_key("unexport"@) && final(data)@["unexport"@] == Expression::Builtin(BuiltinId::Unexport),
        final(data)@.contains_key("def"@) && final(data)@["def"@] == Expression::Builtin(BuiltinId::Def),
        final(data)@.contains_key("undef"@) && final(data)@["undef"@] == Expression::Builtin(BuiltinId::Undef),
        final(data)@.contains_key("dyn"@) && final(data)@["dyn"@] == Expression::Builtin(BuiltinId::Dyn),
        final(data)@.contains_key("global-scope?"@) && final(data)@["global-scope?"@] == Expression::Builtin(BuiltinId::GlobalScope),
        final(data)@.contains_key("to-symbol"@) && final(data)@["to-symbol"@] == Expression::Builtin(BuiltinId::ToSymbol),
        final(data)@.contains_key("fn"@) && final(data)@["fn"@] == Expression::Builtin(BuiltinId::Fn),
        final(data)@.contains_key("quote"@) && final(data)@["quote"@] == Expression::Builtin(BuiltinId::Quote),
        final(data)@.contains_key("bquote"@) && final(data)@["bquote"@] == Expression::Builtin(BuiltinId::BQuote),
        final(data)@.contains_key("and"@) && final(data)@["and"@] == Expression::Builtin(BuiltinId::And),
        final(data)@.contains_key("or"@) && final(data)@["or"@] == Expression::Builtin(BuiltinId::Or),
        final(data)@.contains_key("not"@) && final(data)@["not"@] == Expression::Builtin(BuiltinId::Not),
        final(data)@.contains_key("null"@) && final(data)@["null"@] == Expression::Builtin(BuiltinId::Not),
        final(data)@.contains_key("def?"@) && final(data)@["def?"@] == Expression::Builtin(BuiltinId::IsDef),
        final(data)@.contains_key("macro"@) && final(data)@["macro"@] == Expression::Builtin(BuiltinId::Macro),
        final(data)@.contains_key("expand-macro"@) && final(data)@["expand-macro"@] == Expression::Builtin(BuiltinId::ExpandMacro),
        final(data)@.contains_key("recur"@) && final(data)@["recur"@] == Expression::Builtin(BuiltinId::Recur),
        final(data)@.contains_key("gensym"@) && final(data)@["gensym"@] == Expression::Builtin(BuiltinId::Gensym),
        final(data)@.contains_key("jobs"@) && final(data)@["jobs"@] == Expression::Builtin(BuiltinId::Jobs),
        final(data)@.contains_key("bg"@) && final(data)@["bg"@] == Expression::Builtin(BuiltinId::Bg),
        final(data)@.contains_key("fg"@) && final(data)@["fg"@] == Expression::Builtin(BuiltinId::Fg),
        final(data)@.contains_key("wait"@) && final(data)@["wait"@] == Expression::Builtin(BuiltinId::Wait),
        final(data)@.contains_key("pid"@) && final(data)@["pid"@] == Expression::Builtin(BuiltinId::Pid),
        final(data)@.contains_key("pipe"@) && final(data)@["pipe"@] == Expression::Builtin(BuiltinId::Pipe),
        final(data)@.contains_key("version"@) && final(data)@["version"@] == Expression::Builtin(BuiltinId::Version),
        final(data)@.contains_key("command"@) && final(data)@["command"@] == Expression::Builtin(BuiltinId::Command),
        final(data)@.contains_key("run-bg"@) && final(data)@["run-bg"@] == Expression::Builtin(BuiltinId::RunBg),
        final(data)@.contains_key("form"@) && final(data)@["form"@] == Expression::Builtin(BuiltinId::Form),
        final(data)@.contains_key("loose-symbols"@) && final(data)@["loose-symbols"@] == Expression::Builtin(BuiltinId::LooseSymbols),
        final(data)@.contains_key("exit"@) && final(data)@["exit"@] == Expression::Builtin(BuiltinId::Exit),
        final(data)@.contains_key("ns-create"@) && final(data)@["ns-create"@] == Expression::Builtin(BuiltinId::NsCreate),
        final(data)@.contains_key("ns-enter"@) && final(data)@["ns-enter"@] == Expression::Builtin(BuiltinId::NsEnter),
        final(data)@.contains_key("ns-exists?"@) && final(data)@["ns-exists?"@] == Expression::Builtin(BuiltinId::NsExists),
        final(data)@.contains_key("ns-list"@) && final(data)@["ns-list"@] == Expression::Builtin(BuiltinId::NsList),
        final(data)@.contains_key("error-stack-on"@) && final(data)@["error-stack-on"@] == Expression::Builtin(BuiltinId::ErrorStackOn),
        final(data)@.contains_key("error-stack-off"@) && final(data)@["error-stack-off"@] == Expression::Builtin(BuiltinId::ErrorStackOff),
        final(data)@.contains_key("get-error"@) && final(data)@["get-error"@] == Expression::Builtin(BuiltinId::GetError),
        final(data)@.contains_key("="@) && final(data)@["="@] == Expression::Builtin(BuiltinId::Equal),
        final(data)@.contains_key(">"@) && final(data)@[">"@] == Expression::Builtin(BuiltinId::Greater),
        final(data)@.contains_key(">="@) && final(data)@[">="@] == Expression::Builtin(BuiltinId::GreaterEqual),
        final(data)@.contains_key("<"@) && final(data)@["<"@] == Expression::Builtin(BuiltinId::Less),
        final(data)@.contains_key("<="@) && final(data)@["<="@] == Expression::Builtin(BuiltinId::LessEqual),
        final(data)@.contains_key("+"@) && final(data)@["+"@] == Expression::Builtin(BuiltinId::Add),
        final(data)@.contains_key("-"@) && final(data)@["-"@] == Expression::Builtin(BuiltinId::Sub),
        final(data)@.contains_key("*"@) && final(data)@["*"@] == Expression::Builtin(BuiltinId::Mul),
{
    data.insert(String::from_str("eval"), Expression::Builtin(BuiltinId::Eval));
    data.insert(String::from_str("fncall"), Expression::Builtin(BuiltinId::FnCall));
    data.insert(String::from_str("apply"), Expression::Builtin(BuiltinId::Apply));
    data.insert(String::from_str("unwind-protect"), Expression::Builtin(BuiltinId::UnwindProtect));
    data.insert(String::from_str("err"), Expression::Builtin(BuiltinId::ErrForm));
    data.insert(String::from_str("load"), Expression::Builtin(BuiltinId::Load));
    data.insert(String::from_str("length"), Expression::Builtin(BuiltinId::Length));
    data.insert(String::from_str("if"), Expression::Builtin(BuiltinId::If));
    data.insert(String::from_str("print"), Expression::Builtin(BuiltinId::Print));
    data.insert(String::from_str("println"), Expression::Builtin(BuiltinId::Println));
    data.insert(String::from_str("eprint"), Expression::Builtin(BuiltinId::Eprint));
    data.insert(String::from_str("eprintln"), Expression::Builtin(BuiltinId::Eprintln));
    data.insert(String::from_str("format"), Expression::Builtin(BuiltinId::Format));
    data.insert(String::from_str("progn"), Expression::Builtin(BuiltinId::Progn));
    data.insert(String::from_str("set"), Expression::Builtin(BuiltinId::SetVar));
    data.insert(String::from_str("export"), Expression::Builtin(BuiltinId::Export));
    data.insert(String::from_str("unexport"), Expression::Builtin(BuiltinId::Unexport));
    data.insert(String::from_str("def"), Expression::Builtin(BuiltinId::Def));
    data.insert(String::from_str("undef"), Expression::Builtin(BuiltinId::Undef));
    data.insert(String::from_str("dyn"), Expression::Builtin(BuiltinId::Dyn));
    data.insert(String::from_str("global-scope?"), Expression::Builtin(BuiltinId::GlobalScope));
    data.insert(String::from_str("to-symbol"), Expression::Builtin(BuiltinId::ToSymbol));
    data.insert(String::from_str("fn"), Expression::Builtin(BuiltinId::Fn));
    data.insert(String::from_str("quote"), Expression::Builtin(BuiltinId::Quote));
    data.insert(String::from_str("bquote"), Expression::Builtin(BuiltinId::BQuote));
    data.insert(String::from_str("and"), Expression::Builtin(BuiltinId::And));
    data.insert(String::from_str("or"), Expression::Builtin(BuiltinId::Or));
    data.insert(String::from_str("not"), Expression::Builtin(BuiltinId::Not));
    data.insert(String::from_str("null"), Expression::Builtin(BuiltinId::Not));
    data.insert(String::from_str("def?"), Expression::Builtin(BuiltinId::IsDef));
    data.insert(String::from_str("macro"), Expression::Builtin(BuiltinId::Macro));
    data.insert(String::from_str("expand-macro"), Expression::Builtin(BuiltinId::ExpandMacro));
    data.insert(String::from_str("recur"), Expression::Builtin(BuiltinId::Recur));
    data.insert(String::from_str("gensym"), Expression::Builtin(BuiltinId::Gensym));
    data.insert(String::from_str("jobs"), Expression::Builtin(BuiltinId::Jobs));
    data.insert(String::from_str("bg"), Expression::Builtin(BuiltinId::Bg));
    data.insert(String::from_str("fg"), Expression::Builtin(BuiltinId::Fg));
    data.insert(String::from_str("wait"), Expression::Builtin(BuiltinId::Wait));
    data.insert(String::from_str("pid"), Expression::Builtin(BuiltinId::Pid));
    data.insert(String::from_str("pipe"), Expression::Builtin(BuiltinId::Pipe));
    data.insert(String::from_str("version"), Expression::Builtin(BuiltinId::Version));
    data.insert(String::from_str("command"), Expression::Builtin(BuiltinId::Command));
    data.insert(String::from_str("run-bg"), Expression::Builtin(BuiltinId::RunBg));
    data.insert(String::from_str("form"), Expression::Builtin(BuiltinId::Form));
    data.insert(String::from_str("loose-symbols"), Expression::Builtin(BuiltinId::LooseSymbols));
    data.insert(String::from_str("exit"), Expression::Builtin(BuiltinId::Exit));
    data.insert(String::from_str("ns-create"), Expression::Builtin(BuiltinId::NsCreate));
    data.insert(String::from_str("ns-enter"), Expression::Builtin(BuiltinId::NsEnter));
    data.insert(String::from_str("ns-exists?"), Expression::Builtin(BuiltinId::NsExists));
    data.insert(String::from_str("ns-list"), Expression::Builtin(BuiltinId::NsList));
    data.insert(String::from_str("error-stack-on"), Expression::Builtin(BuiltinId::ErrorStackOn));
    data.insert(String::from_str("error-stack-off"), Expression::Builtin(BuiltinId::ErrorStackOff));
    data.insert(String::from_str("get-error"), Expression::Builtin(BuiltinId::GetError));
    data.insert(String::from_str("="), Expression::Builtin(BuiltinId::Equal));
    data.insert(String::from_str(">"), Expression::Builtin(BuiltinId::Greater));
    data.insert(String::from_str(">="), Expression::Builtin(BuiltinId::GreaterEqual));
    data.insert(String::from_str("<"), Expression::Builtin(BuiltinId::Less));
    data.insert(String::from_str("<="), Expression::Builtin(BuiltinId::LessEqual));
    data.insert(String::from_str("+"), Expression::Builtin(BuiltinId::Add));
    data.insert(String::from_str("-"), Expression::Builtin(BuiltinId::Sub));
    data.insert(String::from_str("*"), Expression::Builtin(BuiltinId::Mul));
    proof {
        reveal_strlit("eval");
        reveal_strlit("fncall");
        reveal_strlit("apply");
        reveal_strlit("unwind-protect");
        reveal_strlit("err");
        reveal_strlit("load");
        reveal_strlit("length");
        reveal_strlit("if");
        reveal_strlit("print");
        reveal_strlit("println");
        reveal_strlit("eprint");
        reveal_strlit("eprintln");
        reveal_strlit("format");
        reveal_strlit("progn");
        reveal_strlit("set");
        reveal_strlit("export");
        reveal_strlit("unexport");
        reveal_strlit("def");
        reveal_strlit("undef");
        reveal_strlit("dyn");
        reveal_strlit("global-scope?");
        reveal_strlit("to-symbol");
        reveal_strlit("fn");
        reveal_strlit("quote");
        reveal_strlit("bquote");
        reveal_strlit("and");
        reveal_strlit("or");
        reveal_strlit("not");
        reveal_strlit("null");
        reveal_strlit("def?");
        reveal_strlit("macro");
        reveal_strlit("expand-macro");
        reveal_strlit("recur");
        reveal_strlit("gensym");
        reveal_strlit("jobs");
        reveal_strlit("bg");
        reveal_strlit("fg");
        reveal_strlit("wait");
        reveal_strlit("pid");
        reveal_strlit("pipe");
        reveal_strlit("version");
        reveal_strlit("command");
        reveal_strlit("run-bg");
        reveal_strlit("form");
        reveal_strlit("loose-symbols");
        reveal_strlit("exit");
        reveal_strlit("ns-create");
        reveal_strlit("ns-enter");
        reveal_strlit("ns-exists?");
        reveal_strlit("ns-list");
        reveal_strlit("error-stack-on");
        reveal_strlit("error-stack-off");
        reveal_strlit("get-error");
        reveal_strlit("=");
        reveal_strlit(">");
        reveal_strlit(">=");
        reveal_strlit("<");
        reveal_strlit("<=");
        reveal_strlit("+");
        reveal_strlit("-");
        reveal_strlit("*");
        assert("eval"@.len() == 4 && "eval"@[0] == 'e' && "eval"@[1] == 'v' && "eval"@[2] == 'a' && "eval"@[3] == 'l');
        assert("fncall"@.len() == 6 && "fncall"@[0] == 'f' && "fncall"@[1] == 'n' && "fncall"@[2] == 'c' && "fncall"@[3] == 'a' && "fncall"@[4] == 'l' && "fncall"@[5] == 'l');
        assert("apply"@.len() == 5 && "apply"@[0] == 'a' && "apply"@[1] == 'p' && "apply"@[2] == 'p' && "apply"@[3] == 'l' && "apply"@[4] == 'y');
        assert("unwind-protect"@.len() == 14 && "unwind-protect"@[0] == 'u' && "unwind-protect"@[1] == 'n' && "unwind-protect"@[2] == 'w' && "unwind-protect"@[3] == 'i' && "unwind-protect"@[4] == 'n' && "unwind-protect"@[5] == 'd' && "unwind-protect"@[6] == '-' && "unwind-protect"@[7] == 'p' && "unwind-protect"@[8] == 'r' && "unwind-protect"@[9] == 'o' && "unwind-protect"@[10] == 't' && "unwind-protect"@[11] == 'e' && "unwind-protect"@[12] == 'c' && "unwind-protect"@[13] == 't');
        assert("err"@.len() == 3 && "err"@[0] == 'e' && "err"@[1] == 'r' && "err"@[2] == 'r');
        assert("load"@.len() == 4 && "load"@[0] == 'l' && "load"@[1] == 'o' && "load"@[2] == 'a' && "load"@[3] == 'd');
        assert("length"@.len() == 6 && "length"@[0] == 'l' && "length"@[1] == 'e' && "length"@[2] == 'n' && "length"@[3] == 'g' && "length"@[4] == 't' && "length"@[5] == 'h');
        assert("if"@.len() == 2 && "if"@[0] == 'i' && "if"@[1] == 'f');
        assert("print"@.len() == 5 && "print"@[0] == 'p' && "print"@[1] == 'r' && "print"@[2] == 'i' && "print"@[3] == 'n' && "print"@[4] == 't');
        assert("println"@.len() == 7 && "println"@[0] == 'p' && "println"@[1] == 'r' && "println"@[2] == 'i' && "println"@[3] == 'n' && "println"@[4] == 't' && "println"@[5] == 'l' && "println"@[6] == 'n');
        assert("eprint"@.len() == 6 && "eprint"@[0] == 'e' && "eprint"@[1] == 'p' && "eprint"@[2] == 'r' && "eprint"@[3] == 'i' && "eprint"@[4] == 'n' && "eprint"@[5] == 't');
        assert("eprintln"@.len() == 8 && "eprintln"@[0] == 'e' && "eprintln"@[1] == 'p' && "eprintln"@[2] == 'r' && "eprintln"@[3] == 'i' && "eprintln"@[4] == 'n' && "eprintln"@[5] == 't' && "eprintln"@[6] == 'l' && "eprintln"@[7] == 'n');
        assert("format"@.len() == 6 && "format"@[0] == 'f' && "format"@[1] == 'o' && "format"@[2] == 'r' && "format"@[3] == 'm' && "format"@[4] == 'a' && "format"@[5] == 't');
        assert("progn"@.len() == 5 && "progn"@[0] == 'p' && "progn"@[1] == 'r' && "progn"@[2] == 'o' && "progn"@[3] == 'g' && "progn"@[4] == 'n');
        assert("set"@.len() == 3 && "set"@[0] == 's' && "set"@[1] == 'e' && "set"@[2] == 't');
        assert("export"@.len() == 6 && "export"@[0] == 'e' && "export"@[1] == 'x' && "export"@[2] == 'p' && "export"@[3] == 'o' && "export"@[4] == 'r' && "export"@[5] == 't');
        assert("unexport"@.len() == 8 && "unexport"@[0] == 'u' && "unexport"@[1] == 'n' && "unexport"@[2] == 'e' && "unexport"@[3] == 'x' && "unexport"@[4] == 'p' && "unexport"@[5] == 'o' && "unexport"@[6] == 'r' && "unexport"@[7] == 't');
        assert("def"@.len() == 3 && "def"@[0] == 'd' && "def"@[1] == 'e' && "def"@[2] == 'f');
        assert("undef"@.len() == 5 && "undef"@[0] == 'u' && "undef"@[1] == 'n' && "undef"@[2] == 'd' && "undef"@[3] == 'e' && "undef"@[4] == 'f');
        assert("dyn"@.len() == 3 && "dyn"@[0] == 'd' && "dyn"@[1] == 'y' && "dyn"@[2] == 'n');
        assert("global-scope?"@.len() == 13 && "global-scope?"@[0] == 'g' && "global-scope?"@[1] == 'l' && "global-scope?"@[2] == 'o' && "global-scope?"@[3] == 'b' && "global-scope?"@[4] == 'a' && "global-scope?"@[5] == 'l' && "global-scope?"@[6] == '-' && "global-scope?"@[7] == 's' && "global-scope?"@[8] == 'c' && "global-scope?"@[9] == 'o' && "global-scope?"@[10] == 'p' && "global-scope?"@[11] == 'e' && "global-scope?"@[12] == '?');
        assert("to-symbol"@.len() == 9 && "to-symbol"@[0] == 't' && "to-symbol"@[1] == 'o' && "to-symbol"@[2] == '-' && "to-symbol"@[3] == 's' && "to-symbol"@[4] == 'y' && "to-symbol"@[5] == 'm' && "to-symbol"@[6] == 'b' && "to-symbol"@[7] == 'o' && "to-symbol"@[8] == 'l');
        assert("fn"@.len() == 2 && "fn"@[0] == 'f' && "fn"@[1] == 'n');
        assert("quote"@.len() == 5 && "quote"@[0] == 'q' && "quote"@[1] == 'u' && "quote"@[2] == 'o' && "quote"@[3] == 't' && "quote"@[4] == 'e');
        assert("bquote"@.len() == 6 && "bquote"@[0] == 'b' && "bquote"@[1] == 'q' && "bquote"@[2] == 'u' && "bquote"@[3] == 'o' && "bquote"@[4] == 't' && "bquote"@[5] == 'e');
        assert("and"@.len() == 3 && "and"@[0] == 'a' && "and"@[1] == 'n' && "and"@[2] == 'd');
        assert("or"@.len() == 2 && "or"@[0] == 'o' && "or"@[1] == 'r');
        assert("not"@.len() == 3 && "not"@[0] == 'n' && "not"@[1] == 'o' && "not"@[2] == 't');
        assert("null"@.len() == 4 && "null"@[0] == 'n' && "null"@[1] == 'u' && "null"@[2] == 'l' && "null"@[3] == 'l');
        assert("def?"@.len() == 4 && "def?"@[0] == 'd' && "def?"@[1] == 'e' && "def?"@[2] == 'f' && "def?"@[3] == '?');
        assert("macro"@.len() == 5 && "macro"@[0] == 'm' && "macro"@[1] == 'a' && "macro"@[2] == 'c' && "macro"@[3] == 'r' && "macro"@[4] == 'o');
        assert("expand-macro"@.len() == 12 && "expand-macro"@[0] == 'e' && "expand-macro"@[1] == 'x' && "expand-macro"@[2] == 'p' && "expand-macro"@[3] == 'a' && "expand-macro"@[4] == 'n' && "expand-macro"@[5] == 'd' && "expand-macro"@[6] == '-' && "expand-macro"@[7] == 'm' && "expand-macro"@[8] == 'a' && "expand-macro"@[9] == 'c' && "expand-macro"@[10] == 'r' && "expand-macro"@[11] == 'o');
        assert("recur"@.len() == 5 && "recur"@[0] == 'r' && "recur"@[1] == 'e' && "recur"@[2] == 'c' && "recur"@[3] == 'u' && "recur"@[4] == 'r');
        assert("gensym"@.len() == 6 && "gensym"@[0] == 'g' && "gensym"@[1] == 'e' && "gensym"@[2] == 'n' && "gensym"@[3] == 's' && "gensym"@[4] == 'y' && "gensym"@[5] == 'm');
        assert("jobs"@.len() == 4 && "jobs"@[0] == 'j' && "jobs"@[1] == 'o' && "jobs"@[2] == 'b' && "jobs"@[3] == 's');
        assert("bg"@.len() == 2 && "bg"@[0] == 'b' && "bg"@[1] == 'g');
        assert("fg"@.len() == 2 && "fg"@[0] == 'f' && "fg"@[1] == 'g');
        assert("wait"@.len() == 4 && "wait"@[0] == 'w' && "wait"@[1] == 'a' && "wait"@[2] == 'i' && "wait"@[3] == 't');
        assert("pid"@.len() == 3 && "pid"@[0] == 'p' && "pid"@[1] == 'i' && "pid"@[2] == 'd');
        assert("pipe"@.len() == 4 && "pipe"@[0] == 'p' && "pipe"@[1] == 'i' && "pipe"@[2] == 'p' && "pipe"@[3] == 'e');
        assert("version"@.len() == 7 && "version"@[0] == 'v' && "version"@[1] == 'e' && "version"@[2] == 'r' && "version"@[3] == 's' && "version"@[4] == 'i' && "version"@[5] == 'o' && "version"@[6] == 'n');
        assert("command"@.len() == 7 && "command"@[0] == 'c' && "command"@[1] == 'o' && "command"@[2] == 'm' && "command"@[3] == 'm' && "command"@[4] == 'a' && "command"@[5] == 'n' && "command"@[6] == 'd');
        assert("run-bg"@.len() == 6 && "run-bg"@[0] == 'r' && "run-bg"@[1] == 'u' && "run-bg"@[2] == 'n' && "run-bg"@[3] == '-' && "run-bg"@[4] == 'b' && "run-bg"@[5] == 'g');
        assert("form"@.len() == 4 && "form"@[0] == 'f' && "form"@[1] == 'o' && "form"@[2] == 'r' && "form"@[3] == 'm');
        assert("loose-symbols"@.len() == 13 && "loose-symbols"@[0] == 'l' && "loose-symbols"@[1] == 'o' && "loose-symbols"@[2] == 'o' && "loose-symbols"@[3] == 's' && "loose-symbols"@[4] == 'e' && "loose-symbols"@[5] == '-' && "loose-symbols"@[6] == 's' && "loose-symbols"@[7] == 'y' && "loose-symbols"@[8] == 'm' && "loose-symbols"@[9] == 'b' && "loose-symbols"@[10] == 'o' && "loose-symbols"@[11] == 'l' && "loose-symbols"@[12] == 's');
        assert("exit"@.len() == 4 && "exit"@[0] == 'e' && "exit"@[1] == 'x' && "exit"@[2] == 'i' && "exit"@[3] == 't');
        assert("ns-create"@.len() == 9 && "ns-create"@[0] == 'n' && "ns-create"@[1] == 's' && "ns-create"@[2] == '-' && "ns-create"@[3] == 'c' && "ns-create"@[4] == 'r' && "ns-create"@[5] == 'e' && "ns-create"@[6] == 'a' && "ns-create"@[7] == 't' && "ns-create"@[8] == 'e');
        assert("ns-enter"@.len() == 8 && "ns-enter"@[0] == 'n' && "ns-enter"@[1] == 's' && "ns-enter"@[2] == '-' && "ns-enter"@[3] == 'e' && "ns-enter"@[4] == 'n' && "ns-enter"@[5] == 't' && "ns-enter"@[6] == 'e' && "ns-enter"@[7] == 'r');
        assert("ns-exists?"@.len() == 10 && "ns-exists?"@[0] == 'n' && "ns-exists?"@[1] == 's' && "ns-exists?"@[2] == '-' && "ns-exists?"@[3] == 'e' && "ns-exists?"@[4] == 'x' && "ns-exists?"@[5] == 'i' && "ns-exists?"@[6] == 's' && "ns-exists?"@[7] == 't' && "ns-exists?"@[8] == 's' && "ns-exists?"@[9] == '?');
        assert("ns-list"@.len() == 7 && "ns-list"@[0] == 'n' && "ns-list"@[1] == 's' && "ns-list"@[2] == '-' && "ns-list"@[3] == 'l' && "ns-list"@[4] == 'i' && "ns-list"@[5] == 's' && "ns-list"@[6] == 't');
        assert("error-stack-on"@.len() == 14 && "error-stack-on"@[0] == 'e' && "error-stack-on"@[1] == 'r' && "error-stack-on"@[2] == 'r' && "error-stack-on"@[3] == 'o' && "error-stack-on"@[4] == 'r' && "error-stack-on"@[5] == '-' && "error-stack-on"@[6] == 's' && "error-stack-on"@[7] == 't' && "error-stack-on"@[8] == 'a' && "error-stack-on"@[9] == 'c' && "error-stack-on"@[10] == 'k' && "error-stack-on"@[11] == '-' && "error-stack-on"@[12] == 'o' && "error-stack-on"@[13] == 'n');
        assert("error-stack-off"@.len() == 15 && "error-stack-off"@[0] == 'e' && "error-stack-off"@[1] == 'r' && "error-stack-off"@[2] == 'r' && "error-stack-off"@[3] == 'o' && "error-stack-off"@[4] == 'r' && "error-stack-off"@[5] == '-' && "error-stack-off"@[6] == 's' && "error-stack-off"@[7] == 't' && "error-stack-off"@[8] == 'a' && "error-stack-off"@[9] == 'c' && "error-stack-off"@[10] == 'k' && "error-stack-off"@[11] == '-' && "error-stack-off"@[12] == 'o' && "error-stack-off"@[13] == 'f' && "error-stack-off"@[14] == 'f');
        assert("get-error"@.len() == 9 && "get-error"@[0] == 'g' && "get-error"@[1] == 'e' && "get-error"@[2] == 't' && "get-error"@[3] == '-' && "get-error"@[4] == 'e' && "get-error"@[5] == 'r' && "get-error"@[6] == 'r' && "get-error"@[7] == 'o' && "get-error"@[8] == 'r');
        assert("="@.len() == 1 && "="@[0] == '=');
        assert(">"@.len() == 1 && ">"@[0] == '>');
        assert(">="@.len() == 2 && ">="@[0] == '>' && ">="@[1] == '=');
        assert("<"@.len() == 1 && "<"@[0] == '<');
        assert("<="@.len() == 2 && "<="@[0] == '<' && "<="@[1] == '=');
        assert("+"@.len() == 1 && "+"@[0] == '+');
        assert("-"@.len() == 1 && "-"@[0] == '-');
        assert("*"@.len() == 1 && "*"@[0] == '*');
        assert(data@.contains_key("eval"@) && data@["eval"@] == Expression::Builtin(BuiltinId::Eval));
        assert(data@.contains_key("fncall"@) && data@["fncall"@] == Expression::Builtin(BuiltinId::FnCall));
        assert(data@.contains_key("apply"@) && data@["apply"@] == Expression::Builtin(BuiltinId::Apply));
        assert(data@.contains_key("unwind-protect"@) && data@["unwind-protect"@] == Expression::Builtin(BuiltinId::UnwindProtect));
        assert(data@.contains_key("err"@) && data@["err"@] == Expression::Builtin(BuiltinId::ErrForm));
        assert(data@.contains_key("load"@) && data@["load"@] == Expression::Builtin(BuiltinId::Load));
        assert(data@.contains_key("length"@) && data@["length"@] == Expression::Builtin(BuiltinId::Length));
        assert(data@.contains_key("if"@) && data@["if"@] == Expression::Builtin(BuiltinId::If));
        assert(data@.contains_key("print"@) && data@["print"@] == Expression::Builtin(BuiltinId::Print));
        assert(data@.contains_key("println"@) && data@["println"@] == Expression::Builtin(BuiltinId::Println));
        assert(data@.contains_key("eprint"@) && data@["eprint"@] == Expression::Builtin(BuiltinId::Eprint));
        assert(data@.contains_key("eprintln"@) && data@["eprintln"@] == Expression::Builtin(BuiltinId::Eprintln));
        assert(data@.contains_key("format"@) && data@["format"@] == Expression::Builtin(BuiltinId::Format));
        assert(data@.contains_key("progn"@) && data@["progn"@] == Expression::Builtin(BuiltinId::Progn));
        assert(data@.contains_key("set"@) && data@["set"@] == Expression::Builtin(BuiltinId::SetVar));
        assert(data@.contains_key("export"@) && data@["export"@] == Expression::Builtin(BuiltinId::Export));
        assert(data@.contains_key("unexport"@) && data@["unexport"@] == Expression::Builtin(BuiltinId::Unexport));
        assert(data@.contains_key("def"@) && data@["def"@] == Expression::Builtin(BuiltinId::Def));
        assert(data@.contains_key("undef"@) && data@["undef"@] == Expression::Builtin(BuiltinId::Undef));
        assert(data@.contains_key("dyn"@) && data@["dyn"@] == Expression::Builtin(BuiltinId::Dyn));
        assert(data@.contains_key("global-scope?"@) && data@["global-scope?"@] == Expression::Builtin(BuiltinId::GlobalScope));
        assert(data@.contains_key("to-symbol"@) && data@["to-symbol"@] == Expression::Builtin(BuiltinId::ToSymbol));
        assert(data@.contains_key("fn"@) && data@["fn"@] == Expression::Builtin(BuiltinId::Fn));
        assert(data@.contains_key("quote"@) && data@["quote"@] == Expression::Builtin(BuiltinId::Quote));
        assert(data@.contains_key("bquote"@) && data@["bquote"@] == Expression::Builtin(BuiltinId::BQuote));
        assert(data@.contains_key("and"@) && data@["and"@] == Expression::Builtin(BuiltinId::And));
        assert(data@.contains_key("or"@) && data@["or"@] == Expression::Builtin(BuiltinId::Or));
        assert(data@.contains_key("not"@) && data@["not"@] == Expression::Builtin(BuiltinId::Not));
        assert(data@.contains_key("null"@) && data@["null"@] == Expression::Builtin(BuiltinId::Not));
        assert(data@.contains_key("def?"@) && data@["def?"@] == Expression::Builtin(BuiltinId::IsDef));
        assert(data@.contains_key("macro"@) && data@["macro"@] == Expression::Builtin(BuiltinId::Macro));
        assert(data@.contains_key("expand-macro"@) && data@["expand-macro"@] == Expression::Builtin(BuiltinId::ExpandMacro));
        assert(data@.contains_key("recur"@) && data@["recur"@] == Expression::Builtin(BuiltinId::Recur));
        assert(data@.contains_key("gensym"@) && data@["gensym"@] == Expression::Builtin(BuiltinId::Gensym));
        assert(data@.contains_key("jobs"@) && data@["jobs"@] == Expression::Builtin(BuiltinId::Jobs));
        assert(data@.contains_key("bg"@) && data@["bg"@] == Expression::Builtin(BuiltinId::Bg));
        assert(data@.contains_key("fg"@) && data@["fg"@] == Expression::Builtin(BuiltinId::Fg));
        assert(data@.contains_key("wait"@) && data@["wait"@] == Expression::Builtin(BuiltinId::Wait));
        assert(data@.contains_key("pid"@) && data@["pid"@] == Expression::Builtin(BuiltinId::Pid));
        assert(data@.contains_key("pipe"@) && data@["pipe"@] == Expression::Builtin(BuiltinId::Pipe));
        assert(data@.contains_key("version"@) && data@["version"@] == Expression::Builtin(BuiltinId::Version));
        assert(data@.contains_key("command"@) && data@["command"@] == Expression::Builtin(BuiltinId::Command));
        assert(data@.contains_key("run-bg"@) && data@["run-bg"@] == Expression::Builtin(BuiltinId::RunBg));
        assert(data@.contains_key("form"@) && data@["form"@] == Expression::Builtin(BuiltinId::Form));
        assert(data@.contains_key("loose-symbols"@) && data@["loose-symbols"@] == Expression::Builtin(BuiltinId::LooseSymbols));
        assert(data@.contains_key("exit"@) && data@["exit"@] == Expression::Builtin(BuiltinId::Exit));
        assert(data@.contains_key("ns-create"@) && data@["ns-create"@] == Expression::Builtin(BuiltinId::NsCreate));
        assert(data@.contains_key("ns-enter"@) && data@["ns-enter"@] == Expression::Builtin(BuiltinId::NsEnter));
        assert(data@.contains_key("ns-exists?"@) && data@["ns-exists?"@] == Expression::Builtin(BuiltinId::NsExists));
        assert(data@.contains_key("ns-list"@) && data@["ns-list"@] == Expression::Builtin(BuiltinId::NsList));
        assert(data@.contains_key("error-stack-on"@) && data@["error-stack-on"@] == Expression::Builtin(BuiltinId::ErrorStackOn));
        assert(data@.contains_key("error-stack-off"@) && data@["error-stack-off"@] == Expression::Builtin(BuiltinId::ErrorStackOff));
        assert(data@.contains_key("get-error"@) && data@["get-error"@] == Expression::Builtin(BuiltinId::GetError));
        assert(data@.contains_key("="@) && data@["="@] == Expression::Builtin(BuiltinId::Equal));
        assert(data@.contains_key(">"@) && data@[">"@] == Expression::Builtin(BuiltinId::Greater));
        assert(data@.contains_key(">="@) && data@[">="@] == Expression::Builtin(BuiltinId::GreaterEqual));
        assert(data@.contains_key("<"@) && data@["<"@] == Expression::Builtin(BuiltinId::Less));
        assert(data@.contains_key("<="@) && data@["<="@] == Expression::Builtin(BuiltinId::LessEqual));
        assert(data@.contains_key("+"@) && data@["+"@] == Expression::Builtin(BuiltinId::Add));
        assert(data@.contains_key("-"@) && data@["-"@] == Expression::Builtin(BuiltinId::Sub));
        assert(data@.contains_key("*"@) && data@["*"@] == Expression::Builtin(BuiltinId::Mul));
    }
}

/// Seed a scope's data with the file-redirection forms.
pub fn add_file_builtins(data: &mut vstd::hash_map::StringHashMap<Expression>)
    ensures
        final(data)@.contains_key("err-null"@) && final(data)@["err-null"@] == Expression::Builtin(BuiltinId::ErrNull),
        final(data)@.contains_key("file-rdr"@) && final(data)@["file-rdr"@] == Expression::Builtin(BuiltinId::FileRdr),
        final(data)@.contains_key("stdout-to"@) && final(data)@["stdout-to"@] == Expression::Builtin(BuiltinId::StdoutTo),
        final(data)@.contains_key("stderr-to"@) && final(data)@["stderr-to"@] == Expression::Builtin(BuiltinId::StderrTo),
        forall|k: Seq<char>|
            old(data)@.contains_key(k) && k != "err-null"@ && k != "file-rdr"@ && k
                != "stdout-to"@ && k != "stderr-to"@ ==> final(data)@.contains_key(k)
                && final(data)@[k] == old(data)@[k],
{
    data.insert(String::from_str("err-null"), Expression::Builtin(BuiltinId::ErrNull));
    data.insert(String::from_str("file-rdr"), Expression::Builtin(BuiltinId::FileRdr));
    data.insert(String::from_str("stdout-to"), Expression::Builtin(BuiltinId::StdoutTo));
    data.insert(String::from_str("stderr-to"), Expression::Builtin(BuiltinId::StderrTo));
    proof {
        reveal_strlit("err-null");
        reveal_strlit("file-rdr");
        reveal_strlit("stdout-to");
        reveal_strlit("stderr-to");
        assert("err-null"@.len() == 8 && "err-null"@[0] == 'e' && "err-null"@[1] == 'r' && "err-null"@[2] == 'r' && "err-null"@[3] == '-' && "err-null"@[4] == 'n' && "err-null"@[5] == 'u' && "err-null"@[6] == 'l' && "err-null"@[7] == 'l');
        assert("file-rdr"@.len() == 8 && "file-rdr"@[0] == 'f' && "file-rdr"@[1] == 'i' && "file-rdr"@[2] == 'l' && "file-rdr"@[3] == 'e' && "file-rdr"@[4] == '-' && "file-rdr"@[5] == 'r' && "file-rdr"@[6] == 'd' && "file-rdr"@[7] == 'r');
        assert("stdout-to"@.len() == 9 && "stdout-to"@[0] == 's' && "stdout-to"@[1] == 't' && "stdout-to"@[2] == 'd' && "stdout-to"@[3] == 'o' && "stdout-to"@[4] == 'u' && "stdout-to"@[5] == 't' && "stdout-to"@[6] == '-' && "stdout-to"@[7] == 't' && "stdout-to"@[8] == 'o');
        assert("stderr-to"@.len() == 9 && "stderr-to"@[0] == 's' && "stderr-to"@[1] == 't' && "stderr-to"@[2] == 'd' && "stderr-to"@[3] == 'e' && "stderr-to"@[4] == 'r' && "stderr-to"@[5] == 'r' && "stderr-to"@[6] == '-' && "stderr-to"@[7] == 't' && "stderr-to"@[8] == 'o');
        assert(data@.contains_key("err-null"@) && data@["err-null"@] == Expression::Builtin(BuiltinId::ErrNull));
        assert(data@.contains_key("file-rdr"@) && data@["file-rdr"@] == Expression::Builtin(BuiltinId::FileRdr));
        assert(data@.contains_key("stdout-to"@) && data@["stdout-to"@] == Expression::Builtin(BuiltinId::StdoutTo));
        assert(data@.contains_key("stderr-to"@) && data@["stderr-to"@] == Expression::Builtin(BuiltinId::StderrTo));
    }
}




/// Print to standard error (the `eprint`/`eprintln` forms).
pub fn eprint<P: SysPort>(
    env: &mut Environment,
    port: &mut P,
    args: &Vec<Expression>,
    newline: bool,
    fuel: u64,
) -> (r: Result<Expression, Error>)
    requires
        old(env).wf(),
    ensures
        final(env).wf(),
        r matches Ok(e) ==> v_expr(e) == Vx::Nil,
    decreases fuel,
{
    if fuel == 0 {
        return Err(Error::new(ErrKind::Interrupted, "evaluation budget exhausted"));
    }
    builtin_print(env, port, args, newline, true, fuel - 1)
}


impl Expression {
    /// Build a list value from a vector of elements.
    pub fn with_list(list: Vec<Expression>) -> (r: Expression)
        ensures
            r == Expression::Vector(list),
    {
        Expression::Vector(list)
    }

    /// String coercion of this value (see [`as_string`]).
    pub fn make_string<P: SysPort>(&self, port: &mut P) -> (r: Result<String, Error>)
        ensures
            self@ matches Vx::Str(sv) ==> (r matches Ok(s) && s@ == sv),
            self@ matches Vx::Sym(sv) ==> (r matches Ok(s) && s@ == sv),
    {
        as_string(port, self)
    }

    /// Write this value's text to the given file: the text handed to the
    /// port is [`as_string`]'s result (exactly the printed form for plain
    /// values); a process value relays its captured output and is then
    /// waited on and reaped.
    pub fn writef<P: SysPort>(
        &self,
        env: &mut Environment,
        port: &mut P,
        target: crate::types::FileState,
    ) -> (r: Result<(), Error>)
        requires
            old(env).wf(),
        ensures
            final(env).wf(),
    {
        match self {
            Expression::Process(p) => {
                let text = match port.read_proc_output(p.pid()) {
                    Ok(text) => text,
                    Err(e) => {
                        return Err(e);
                    },
                };
                let res = port.write_text(target, text.as_str());
                let _ = wait_for_pid(env, port, p.pid());
                res
            },
            _ => {
                let text = match as_string(port, self) {
                    Ok(text) => text,
                    Err(e) => {
                        return Err(e);
                    },
                };
                port.write_text(target, text.as_str())
            },
        }
    }

    /// Write this value's text to standard output.
    pub fn write<P: SysPort>(&self, env: &mut Environment, port: &mut P) -> (r: Result<
        (),
        Error,
    >)
        requires
            old(env).wf(),
        ensures
            final(env).wf(),
    {
        self.writef(env, port, crate::types::FileState::Stdout)
    }
}

} // verus!
