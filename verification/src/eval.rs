//! The tree-walking evaluator.  Self-evaluating values return unchanged;
//! symbols are resolved through the dynamic, namespace and lexical scopes;
//! a vector or proper pair chain is a call form dispatched on its head.
//! Recursion is bounded by an explicit budget: when it runs out the
//! evaluator unwinds with an interruption error instead of overflowing.
//!
//! On the pure, read-only fragment captured by [`crate::semantics::simple_eval`],
//! the contract pins every result down exactly and the environment is
//! untouched.

use vstd::prelude::*;

use crate::environment::{get_expression, lookup_full, Environment, FormType};
use crate::port::SysPort;
use crate::semantics::{
    and_eval, bq_eval, bq_list, bq_pair, frag_builtin_eval, hole_eval, if_eval, lookup_vx,
    not_eval, or_eval, progn_eval, sfuel, sfuel_tail, simple_eval, sym_eval, SimpleRes,
};
use crate::strutil::{starts_with_char, str_eq};
use crate::types::{
    chain_elems, lemma_v_seq_index, lemma_v_seq_len, spec_truthy, v_expr, v_seq, Atom, BuiltinId,
    ErrKind, Error, Expression, Vx,
};

verus! {

broadcast use lemma_v_seq_len, lemma_v_seq_index;

/// The executable result agrees with the fragment result: same value (by
/// model) or an error of the same kind.
pub open spec fn matches_simple(r: Result<Expression, Error>, res: Result<Vx, ErrKind>) -> bool {
    match res {
        Ok(v) => r matches Ok(e) && v_expr(e) == v,
        Err(k) => r matches Err(er) && er.kind == k,
    }
}

/// Like `matches_simple`, for a list of values.
pub open spec fn matches_simple_seq(
    r: Result<Vec<Expression>, Error>,
    res: Result<Seq<Vx>, ErrKind>,
) -> bool {
    match res {
        Ok(vs) => r matches Ok(out) && v_seq(out@) == vs,
        Err(k) => r matches Err(er) && er.kind == k,
    }
}

/// Is this expression the unquote marker symbol `,`?
fn is_comma_sym(e: &Expression) -> (r: bool)
    ensures
        r == (v_expr(*e) == Vx::Sym(","@)),
{
    match e {
        Expression::Atom(Atom::Symbol(s)) => str_eq(s.as_str(), ","),
        _ => false,
    }
}

/// Is this expression the splice marker symbol `,@`?
fn is_splice_sym(e: &Expression) -> (r: bool)
    ensures
        r == (v_expr(*e) == Vx::Sym(",@"@)),
{
    match e {
        Expression::Atom(Atom::Symbol(s)) => str_eq(s.as_str(), ",@"),
        _ => false,
    }
}

/// Resolve a bare symbol: `$name` reads the process environment through
/// the port; everything else follows the full lookup rule, with unbound
/// symbols becoming strings under `loose_symbols` and errors otherwise.
pub fn eval_symbol<P: SysPort>(env: &Environment, port: &mut P, s: &String) -> (r: Result<
    Expression,
    Error,
>)
    requires
        env.wf(),
    ensures
        sym_eval(*env, s@) matches Some(res) ==> matches_simple(r, res),
        s@.len() > 0 && s@[0] == '$' ==> r is Ok,
{
    if starts_with_char(s.as_str(), '$') {
        let n = s.as_str().unicode_len();
        let name = s.as_str().substring_char(1, n);
        match port.getenv(name) {
            Some(val) => Ok(Expression::Atom(Atom::Str(val))),
            None => if env.loose_symbols {
                Ok(Expression::Atom(Atom::Nil))
            } else {
                Ok(Expression::Atom(Atom::Str(String::new())))
            },
        }
    } else {
        match get_expression(env, s.as_str()) {
            Some(e) => Ok(e),
            None => if env.loose_symbols {
                Ok(Expression::Atom(Atom::Str(s.clone())))
            } else {
                let mut msg = String::new();
                msg.append("symbol ");
                msg.append(s.as_str());
                msg.append(" is not bound");
                Err(Error { kind: ErrKind::UnboundSymbol, msg })
            },
        }
    }
}

/// Evaluate one expression.
pub fn eval<P: SysPort>(
    env: &mut Environment,
    port: &mut P,
    expr: &Expression,
    fuel: u64,
) -> (r: Result<Expression, Error>)
    requires
        old(env).wf(),
    ensures
        final(env).wf(),
        simple_eval(*old(env), v_expr(*expr)) matches Some(res) ==> fuel >= sfuel(v_expr(*expr))
            ==> (*final(env) == *old(env) && matches_simple(r, res)),
    decreases fuel,
{
    if fuel == 0 {
        return Err(Error::new(ErrKind::Interrupted, "evaluation budget exhausted"));
    }
    let r = match expr {
        Expression::Atom(Atom::Symbol(s)) => eval_symbol(env, port, s),
        Expression::Vector(l) => {
            proof {
                broadcast use lemma_v_seq_len, lemma_v_seq_index;

            }
            if l.len() == 0 {
                proof {
                    assert(v_expr(*expr) == Vx::Vector(v_seq(l@)));
                    lemma_v_seq_len(l@);
                    assert(v_seq(l@).len() == 0);
                }
                return Ok(expr.duplicate());
            }
            let mut args: Vec<Expression> = Vec::new();
            let mut i: usize = 1;
            #[verifier::loop_isolation(false)]
            while i < l.len()
                invariant
                    1 <= i <= l@.len(),
                    args@.len() == i - 1,
                    forall|j: int|
                        0 <= j < i - 1 ==> v_expr(#[trigger] args@[j]) == v_expr(l@[j + 1]),
                decreases l@.len() - i,
            {
                args.push(l[i].duplicate());
                i += 1;
            }
            proof {
                let es = v_seq(l@);
                assert(v_seq(args@) =~= es.subrange(1, es.len() as int));
                crate::semantics::lemma_sfuel_tail_shift(es, v_seq(args@), 0);
                if fuel >= sfuel(v_expr(*expr)) {
                    assert(sfuel(v_expr(*expr)) == 4 + sfuel_tail(es, 0));
                    assert(sfuel_tail(es, 0) == sfuel(es[0]) + 2 + sfuel_tail(es, 1));
                    assert(fuel - 1 >= sfuel_tail(v_seq(args@), 0) + 5);
                }
            }
            let head = &l[0];
            eval_parts(env, port, head, &args, fuel - 1)
        },
        Expression::Pair(_, _) => {
            match expr.collect_chain() {
                Some(mut elems) => {
                    proof {
                        broadcast use lemma_v_seq_len;

                    }
                    if elems.len() == 0 {
                        return Ok(expr.duplicate());
                    }
                    let head = elems.remove(0);
                    eval_parts(env, port, &head, &elems, fuel - 1)
                },
                None => Err(
                    Error::new(ErrKind::TypeMismatch, "call form is not a proper list"),
                ),
            }
        },
        _ => Ok(expr.duplicate()),
    };
    match r {
        Ok(v) => Ok(v),
        Err(e) => {
            if env.stack_on_error {
                // unwind with a context line naming the form's head
                let mut msg = e.msg;
                msg.append("\n  while evaluating ");
                match expr {
                    Expression::Vector(l) => {
                        if l.len() > 0 {
                            match &l[0] {
                                Expression::Atom(Atom::Symbol(h)) => msg.append(h.as_str()),
                                _ => msg.append("a call form"),
                            }
                        } else {
                            msg.append("an empty form")
                        }
                    },
                    Expression::Atom(Atom::Symbol(h)) => msg.append(h.as_str()),
                    _ => msg.append("a value"),
                }
                Err(Error { kind: e.kind, msg })
            } else {
                Err(e)
            }
        },
    }
}

/// Dispatch a call form that has been split into head and argument forms.
fn eval_parts<P: SysPort>(
    env: &mut Environment,
    port: &mut P,
    head: &Expression,
    args: &Vec<Expression>,
    fuel: u64,
) -> (r: Result<Expression, Error>)
    requires
        old(env).wf(),
    ensures
        final(env).wf(),
        v_expr(*head) matches Vx::Sym(h) ==> ((h.len() == 0 || h[0] != '$') && old(
            env,
        ).form_type != FormType::ExternalOnly ==> (lookup_vx(*old(env), h) matches Some(
            Vx::Builtin(b),
        ) ==> (frag_builtin_eval(*old(env), b, v_seq(args@)) matches Some(res) ==> (fuel
            >= sfuel_tail(v_seq(args@), 0) + 5 ==> (*final(env) == *old(env) && matches_simple(
            r,
            res,
        )))))),
    decreases fuel,
{
    if fuel == 0 {
        return Err(Error::new(ErrKind::Interrupted, "evaluation budget exhausted"));
    }
    match head {
        Expression::Atom(Atom::Symbol(h)) => {
            if starts_with_char(h.as_str(), '$') {
                let f = match eval_symbol(env, port, h) {
                    Ok(f) => f,
                    Err(e) => {
                        return Err(e);
                    },
                };
                dispatch_callable(env, port, &f, args, fuel - 1)
            } else {
                match env.form_type {
                    FormType::ExternalOnly => {
                        crate::builtins::run_external(env, port, h, args, fuel - 1)
                    },
                    _ => {
                        match get_expression(env, h.as_str()) {
                            Some(f) => dispatch_callable(env, port, &f, args, fuel - 1),
                            None => {
                                match env.form_type {
                                    FormType::FormOnly => {
                                        let mut msg = String::new();
                                        msg.append("symbol ");
                                        msg.append(h.as_str());
                                        msg.append(" is not bound");
                                        Err(Error { kind: ErrKind::UnboundSymbol, msg })
                                    },
                                    _ => crate::builtins::run_external(
                                        env,
                                        port,
                                        h,
                                        args,
                                        fuel - 1,
                                    ),
                                }
                            },
                        }
                    },
                }
            }
        },
        _ => {
            let f = match eval(env, port, head, fuel - 1) {
                Ok(f) => f,
                Err(e) => {
                    return Err(e);
                },
            };
            dispatch_callable(env, port, &f, args, fuel - 1)
        },
    }
}

/// Apply an already-resolved callable to unevaluated argument forms.
pub(crate) fn dispatch_callable<P: SysPort>(
    env: &mut Environment,
    port: &mut P,
    f: &Expression,
    args: &Vec<Expression>,
    fuel: u64,
) -> (r: Result<Expression, Error>)
    requires
        old(env).wf(),
    ensures
        final(env).wf(),
        v_expr(*f) matches Vx::Builtin(b) ==> (frag_builtin_eval(*old(env), b, v_seq(args@))
            matches Some(res) ==> (fuel >= sfuel_tail(v_seq(args@), 0) + 4 ==> (*final(env)
            == *old(env) && matches_simple(r, res)))),
    decreases fuel,
{
    if fuel == 0 {
        return Err(Error::new(ErrKind::Interrupted, "evaluation budget exhausted"));
    }
    match f {
        Expression::Builtin(b) => call_builtin(env, port, *b, args, fuel - 1),
        Expression::Atom(Atom::Symbol(s)) => {
            // a symbol used as a callable is looked up again
            match get_expression(env, s.as_str()) {
                Some(f2) => dispatch_callable(env, port, &f2, args, fuel - 1),
                None => Err(
                    Error::new(ErrKind::NotCallable, "head does not evaluate to a callable"),
                ),
            }
        },
        Expression::Atom(Atom::Lambda(l)) => crate::builtins::apply_lambda(
            env,
            port,
            l,
            args,
            true,
            fuel - 1,
        ),
        Expression::Atom(Atom::Macro(m)) => crate::builtins::macro_expand(
            env,
            port,
            m,
            args,
            true,
            fuel - 1,
        ),
        _ => Err(Error::new(ErrKind::NotCallable, "head does not evaluate to a callable")),
    }
}

/// Dispatch on a native callable.
fn call_builtin<P: SysPort>(
    env: &mut Environment,
    port: &mut P,
    b: BuiltinId,
    args: &Vec<Expression>,
    fuel: u64,
) -> (r: Result<Expression, Error>)
    requires
        old(env).wf(),
    ensures
        final(env).wf(),
        frag_builtin_eval(*old(env), b, v_seq(args@)) matches Some(res)
            ==> fuel >= sfuel_tail(v_seq(args@), 0) + 3
            ==> (*final(env) == *old(env) && matches_simple(r, res)),
    decreases fuel,
{
    proof {
        broadcast use lemma_v_seq_len, lemma_v_seq_index;

    }
    if fuel == 0 {
        return Err(Error::new(ErrKind::Interrupted, "evaluation budget exhausted"));
    }
    match b {
        BuiltinId::Quote => builtin_quote(args),
        BuiltinId::Progn => builtin_progn(env, port, args, fuel - 1),
        BuiltinId::If => builtin_if(env, port, args, fuel - 1),
        BuiltinId::And => builtin_and(env, port, args, fuel - 1),
        BuiltinId::Or => builtin_or(env, port, args, fuel - 1),
        BuiltinId::Not => builtin_not(env, port, args, fuel - 1),
        BuiltinId::BQuote => builtin_bquote(env, port, args, fuel - 1),
        BuiltinId::Add | BuiltinId::Sub | BuiltinId::Mul => crate::builtins::builtin_arith(
            env,
            port,
            b,
            args,
            fuel - 1,
        ),
        BuiltinId::Equal | BuiltinId::Less | BuiltinId::LessEqual | BuiltinId::Greater
            | BuiltinId::GreaterEqual => crate::builtins::builtin_compare(
            env,
            port,
            b,
            args,
            fuel - 1,
        ),
        _ => crate::builtins::call_other_builtin(env, port, b, args, fuel - 1),
    }
}

/// `quote`: return the single argument form unevaluated.
fn builtin_quote(args: &Vec<Expression>) -> (r: Result<Expression, Error>)
    ensures
        args@.len() == 1 ==> (r matches Ok(e) && v_expr(e) == v_seq(args@)[0]),
        args@.len() != 1 ==> (r matches Err(er) && er.kind == ErrKind::ArityMismatch),
{
    proof {
        broadcast use lemma_v_seq_len, lemma_v_seq_index;

    }
    if args.len() == 1 {
        Ok(args[0].duplicate())
    } else {
        Err(Error::new(ErrKind::ArityMismatch, "quote takes one form"))
    }
}

/// `progn`: evaluate each form in order and return the last value.
pub fn builtin_progn<P: SysPort>(
    env: &mut Environment,
    port: &mut P,
    args: &Vec<Expression>,
    fuel: u64,
) -> (r: Result<Expression, Error>)
    requires
        old(env).wf(),
    ensures
        final(env).wf(),
        progn_eval(*old(env), v_seq(args@), 0, Vx::Nil) matches Some(res)
            ==> fuel >= sfuel_tail(v_seq(args@), 0) + 1
            ==> (*final(env) == *old(env) && matches_simple(r, res)),
    decreases fuel,
{
    let ghost vargs = v_seq(args@);
    proof {
        broadcast use lemma_v_seq_len, lemma_v_seq_index;

    }
    if fuel == 0 {
        return Err(Error::new(ErrKind::Interrupted, "evaluation budget exhausted"));
    }
    let mut last = Expression::Atom(Atom::Nil);
    let mut i: usize = 0;
    #[verifier::loop_isolation(false)]
    while i < args.len()
        invariant
            old(env).wf(),
            env.wf(),
            i <= args@.len(),
            vargs == v_seq(args@),
            progn_eval(*old(env), vargs, 0, Vx::Nil) matches Some(res)
                ==> fuel >= sfuel_tail(vargs, 0) + 1
                ==> (*env == *old(env) && progn_eval(*old(env), vargs, i as int, v_expr(last))
                == Some(res)),
        decreases args@.len() - i,
    {
        proof {
            if fuel >= sfuel_tail(vargs, 0) + 1 && i < vargs.len() {
                crate::semantics::lemma_sfuel_tail_elem(vargs, 0, i as int);
            }
        }
        match eval(env, port, &args[i], fuel - 1) {
            Ok(v) => {
                last = v;
            },
            Err(e) => {
                return Err(e);
            },
        }
        i += 1;
    }
    Ok(last)
}

/// `if`: evaluate the condition, then exactly one branch; only `nil` is
/// false.
fn builtin_if<P: SysPort>(
    env: &mut Environment,
    port: &mut P,
    args: &Vec<Expression>,
    fuel: u64,
) -> (r: Result<Expression, Error>)
    requires
        old(env).wf(),
    ensures
        final(env).wf(),
        if_eval(*old(env), v_seq(args@)) matches Some(res)
            ==> fuel >= sfuel_tail(v_seq(args@), 0) + 1
            ==> (*final(env) == *old(env) && matches_simple(r, res)),
    decreases fuel,
{
    let ghost vargs = v_seq(args@);
    proof {
        broadcast use lemma_v_seq_len, lemma_v_seq_index;

        if fuel >= sfuel_tail(vargs, 0) + 1 {
            if 2 <= vargs.len() <= 3 {
                crate::semantics::lemma_sfuel_tail_elem(vargs, 0, 0);
                crate::semantics::lemma_sfuel_tail_elem(vargs, 0, 1);
                if vargs.len() == 3 {
                    crate::semantics::lemma_sfuel_tail_elem(vargs, 0, 2);
                }
            }
        }
    }
    if fuel == 0 {
        return Err(Error::new(ErrKind::Interrupted, "evaluation budget exhausted"));
    }
    if args.len() < 2 || args.len() > 3 {
        return Err(Error::new(ErrKind::ArityMismatch, "if needs two or three forms"));
    }
    let cond = match eval(env, port, &args[0], fuel - 1) {
        Ok(v) => v,
        Err(e) => {
            return Err(e);
        },
    };
    if cond.truthy() {
        eval(env, port, &args[1], fuel - 1)
    } else if args.len() == 3 {
        eval(env, port, &args[2], fuel - 1)
    } else {
        Ok(Expression::Atom(Atom::Nil))
    }
}

/// `and`: short-circuit on the first `nil`, else the last value.
fn builtin_and<P: SysPort>(
    env: &mut Environment,
    port: &mut P,
    args: &Vec<Expression>,
    fuel: u64,
) -> (r: Result<Expression, Error>)
    requires
        old(env).wf(),
    ensures
        final(env).wf(),
        and_eval(*old(env), v_seq(args@), 0, Vx::True) matches Some(res)
            ==> fuel >= sfuel_tail(v_seq(args@), 0) + 1
            ==> (*final(env) == *old(env) && matches_simple(r, res)),
    decreases fuel,
{
    let ghost vargs = v_seq(args@);
    proof {
        broadcast use lemma_v_seq_len, lemma_v_seq_index;

    }
    if fuel == 0 {
        return Err(Error::new(ErrKind::Interrupted, "evaluation budget exhausted"));
    }
    let mut last = Expression::Atom(Atom::True);
    let mut i: usize = 0;
    #[verifier::loop_isolation(false)]
    while i < args.len()
        invariant
            old(env).wf(),
            env.wf(),
            i <= args@.len(),
            vargs == v_seq(args@),
            v_expr(last) != Vx::Nil,
            and_eval(*old(env), vargs, 0, Vx::True) matches Some(res)
                ==> fuel >= sfuel_tail(vargs, 0) + 1
                ==> (*env == *old(env) && and_eval(*old(env), vargs, i as int, v_expr(last))
                == Some(res)),
        decreases args@.len() - i,
    {
        proof {
            if fuel >= sfuel_tail(vargs, 0) + 1 && i < vargs.len() {
                crate::semantics::lemma_sfuel_tail_elem(vargs, 0, i as int);
            }
        }
        let v = match eval(env, port, &args[i], fuel - 1) {
            Ok(v) => v,
            Err(e) => {
                return Err(e);
            },
        };
        if !v.truthy() {
            return Ok(Expression::Atom(Atom::Nil));
        }
        last = v;
        i += 1;
    }
    Ok(last)
}

/// `or`: the first non-`nil` value, else `nil`.
fn builtin_or<P: SysPort>(
    env: &mut Environment,
    port: &mut P,
    args: &Vec<Expression>,
    fuel: u64,
) -> (r: Result<Expression, Error>)
    requires
        old(env).wf(),
    ensures
        final(env).wf(),
        or_eval(*old(env), v_seq(args@), 0) matches Some(res)
            ==> fuel >= sfuel_tail(v_seq(args@), 0) + 1
            ==> (*final(env) == *old(env) && matches_simple(r, res)),
    decreases fuel,
{
    let ghost vargs = v_seq(args@);
    proof {
        broadcast use lemma_v_seq_len, lemma_v_seq_index;

    }
    if fuel == 0 {
        return Err(Error::new(ErrKind::Interrupted, "evaluation budget exhausted"));
    }
    let mut i: usize = 0;
    #[verifier::loop_isolation(false)]
    while i < args.len()
        invariant
            old(env).wf(),
            env.wf(),
            i <= args@.len(),
            vargs == v_seq(args@),
            or_eval(*old(env), vargs, 0) matches Some(res)
                ==> fuel >= sfuel_tail(vargs, 0) + 1
                ==> (*env == *old(env) && or_eval(*old(env), vargs, i as int) == Some(res)),
        decreases args@.len() - i,
    {
        proof {
            if fuel >= sfuel_tail(vargs, 0) + 1 && i < vargs.len() {
                crate::semantics::lemma_sfuel_tail_elem(vargs, 0, i as int);
            }
        }
        let v = match eval(env, port, &args[i], fuel - 1) {
            Ok(v) => v,
            Err(e) => {
                return Err(e);
            },
        };
        if v.truthy() {
            return Ok(v);
        }
        i += 1;
    }
    Ok(Expression::Atom(Atom::Nil))
}

/// `not` (and `null`): `true` exactly on `nil`.
fn builtin_not<P: SysPort>(
    env: &mut Environment,
    port: &mut P,
    args: &Vec<Expression>,
    fuel: u64,
) -> (r: Result<Expression, Error>)
    requires
        old(env).wf(),
    ensures
        final(env).wf(),
        not_eval(*old(env), v_seq(args@)) matches Some(res)
            ==> fuel >= sfuel_tail(v_seq(args@), 0) + 1
            ==> (*final(env) == *old(env) && matches_simple(r, res)),
    decreases fuel,
{
    let ghost vargs = v_seq(args@);
    proof {
        broadcast use lemma_v_seq_len, lemma_v_seq_index;

        if fuel >= sfuel_tail(vargs, 0) + 1 && vargs.len() == 1 {
            crate::semantics::lemma_sfuel_tail_elem(vargs, 0, 0);
        }
    }
    if fuel == 0 {
        return Err(Error::new(ErrKind::Interrupted, "evaluation budget exhausted"));
    }
    if args.len() != 1 {
        return Err(Error::new(ErrKind::ArityMismatch, "not takes one form"));
    }
    let v = match eval(env, port, &args[0], fuel - 1) {
        Ok(v) => v,
        Err(e) => {
            return Err(e);
        },
    };
    if v.truthy() {
        Ok(Expression::Atom(Atom::Nil))
    } else {
        Ok(Expression::Atom(Atom::True))
    }
}

/// `bquote`: quasiquotation over the single template argument.
fn builtin_bquote<P: SysPort>(
    env: &mut Environment,
    port: &mut P,
    args: &Vec<Expression>,
    fuel: u64,
) -> (r: Result<Expression, Error>)
    requires
        old(env).wf(),
    ensures
        final(env).wf(),
        frag_builtin_eval(*old(env), BuiltinId::BQuote, v_seq(args@)) matches Some(res)
            ==> fuel >= sfuel_tail(v_seq(args@), 0) + 1
            ==> (*final(env) == *old(env) && matches_simple(r, res)),
    decreases fuel,
{
    let ghost vargs = v_seq(args@);
    proof {
        broadcast use lemma_v_seq_len, lemma_v_seq_index;

        if vargs.len() == 1 {
            crate::semantics::lemma_sfuel_tail_elem(vargs, 0, 0);
        }
    }
    if fuel == 0 {
        return Err(Error::new(ErrKind::Interrupted, "evaluation budget exhausted"));
    }
    if args.len() != 1 {
        return Err(Error::new(ErrKind::ArityMismatch, "bquote takes one form"));
    }
    bq_exec(env, port, &args[0], fuel - 1)
}

/// Evaluate a hole form (what follows `,` or `,@`): nested templates are
/// rewritten first, then the result is evaluated.
fn eval_bq_hole<P: SysPort>(
    env: &mut Environment,
    port: &mut P,
    e: &Expression,
    fuel: u64,
) -> (r: Result<Expression, Error>)
    requires
        old(env).wf(),
    ensures
        final(env).wf(),
        hole_eval(*old(env), v_expr(*e)) matches Some(res)
            ==> fuel >= sfuel(v_expr(*e)) + 1
            ==> (*final(env) == *old(env) && matches_simple(r, res)),
    decreases fuel,
{
    if fuel == 0 {
        return Err(Error::new(ErrKind::Interrupted, "evaluation budget exhausted"));
    }
    match e {
        Expression::Vector(_) => {
            let t = match bq_exec(env, port, e, fuel - 1) {
                Ok(t) => t,
                Err(er) => {
                    return Err(er);
                },
            };
            eval(env, port, &t, fuel - 1)
        },
        Expression::Pair(_, _) => {
            let t = match bq_exec(env, port, e, fuel - 1) {
                Ok(t) => t,
                Err(er) => {
                    return Err(er);
                },
            };
            eval(env, port, &t, fuel - 1)
        },
        _ => eval(env, port, e, fuel - 1),
    }
}

/// Rewrite one quasiquote template.
fn bq_exec<P: SysPort>(
    env: &mut Environment,
    port: &mut P,
    t: &Expression,
    fuel: u64,
) -> (r: Result<Expression, Error>)
    requires
        old(env).wf(),
    ensures
        final(env).wf(),
        bq_eval(*old(env), v_expr(*t)) matches Some(res)
            ==> fuel >= sfuel(v_expr(*t))
            ==> (*final(env) == *old(env) && matches_simple(r, res)),
    decreases fuel,
{
    if fuel == 0 {
        return Err(Error::new(ErrKind::Interrupted, "evaluation budget exhausted"));
    }
    match t {
        Expression::Vector(l) => {
            let out = match bq_exec_list(env, port, l, 0, fuel - 1) {
                Ok(out) => out,
                Err(er) => {
                    return Err(er);
                },
            };
            Ok(Expression::Vector(out))
        },
        Expression::Pair(a, d) => {
            proof {
                assert(v_expr(*t) == Vx::Pair(
                    Box::new(v_expr(**a)),
                    Box::new(v_expr(**d)),
                ));
                assert(sfuel(v_expr(*t)) == 4 + sfuel(v_expr(**a)) + sfuel(v_expr(**d)));
            }
            if is_comma_sym(a) {
                match &**d {
                    Expression::Pair(x, rest) => {
                        proof {
                            assert(v_expr(**d) == Vx::Pair(
                                Box::new(v_expr(**x)),
                                Box::new(v_expr(**rest)),
                            ));
                            assert(sfuel(v_expr(**d)) == 4 + sfuel(v_expr(**x)) + sfuel(
                                v_expr(**rest),
                            ));
                        }
                        let v = match eval_bq_hole(env, port, x, fuel - 1) {
                            Ok(v) => v,
                            Err(er) => {
                                return Err(er);
                            },
                        };
                        let rv = match bq_exec(env, port, rest, fuel - 1) {
                            Ok(rv) => rv,
                            Err(er) => {
                                return Err(er);
                            },
                        };
                        Ok(Expression::Pair(Box::new(v), Box::new(rv)))
                    },
                    _ => Err(
                        Error::new(ErrKind::TypeMismatch, "nothing to unquote after a comma"),
                    ),
                }
            } else if is_splice_sym(a) {
                match &**d {
                    Expression::Pair(x, rest) => {
                        let v = match eval_bq_hole(env, port, x, fuel - 1) {
                            Ok(v) => v,
                            Err(er) => {
                                return Err(er);
                            },
                        };
                        let mut items = match v {
                            Expression::Vector(items) => items,
                            Expression::Pair(_, _) => {
                                match v.collect_chain() {
                                    Some(items) => items,
                                    None => {
                                        return Err(
                                            Error::new(
                                                ErrKind::TypeMismatch,
                                                ",@ must be applied to a list",
                                            ),
                                        );
                                    },
                                }
                            },
                            _ => {
                                return Err(
                                    Error::new(
                                        ErrKind::TypeMismatch,
                                        ",@ must be applied to a list",
                                    ),
                                );
                            },
                        };
                        let rv = match bq_exec(env, port, rest, fuel - 1) {
                            Ok(rv) => rv,
                            Err(er) => {
                                return Err(er);
                            },
                        };
                        let mut chain = rv;
                        #[verifier::loop_isolation(false)]
                        while items.len() > 0
                            invariant
                                env.wf(),
                            decreases items@.len(),
                        {
                            let last = match items.pop() {
                                Some(last) => last,
                                None => {
                                    break ;
                                },
                            };
                            chain = Expression::Pair(Box::new(last), Box::new(chain));
                        }
                        Ok(chain)
                    },
                    _ => Err(
                        Error::new(ErrKind::TypeMismatch, "nothing to splice after ,@"),
                    ),
                }
            } else {
                let va = match bq_exec(env, port, a, fuel - 1) {
                    Ok(va) => va,
                    Err(er) => {
                        return Err(er);
                    },
                };
                let vd = match bq_exec(env, port, d, fuel - 1) {
                    Ok(vd) => vd,
                    Err(er) => {
                        return Err(er);
                    },
                };
                Ok(Expression::Pair(Box::new(va), Box::new(vd)))
            }
        },
        _ => Ok(t.duplicate()),
    }
}

/// Rewrite the elements of a vector template from position `i` on.
fn bq_exec_list<P: SysPort>(
    env: &mut Environment,
    port: &mut P,
    ts: &Vec<Expression>,
    i: usize,
    fuel: u64,
) -> (r: Result<Vec<Expression>, Error>)
    requires
        old(env).wf(),
    ensures
        final(env).wf(),
        bq_list(*old(env), v_seq(ts@), i as int) matches Some(res)
            ==> fuel >= sfuel_tail(v_seq(ts@), i as int) + 1
            ==> (*final(env) == *old(env) && matches_simple_seq(r, res)),
    decreases fuel,
{
    let ghost vts = v_seq(ts@);
    proof {
        broadcast use lemma_v_seq_len, lemma_v_seq_index;

    }
    if fuel == 0 {
        return Err(Error::new(ErrKind::Interrupted, "evaluation budget exhausted"));
    }
    if i >= ts.len() {
        let out: Vec<Expression> = Vec::new();
        proof {
            assert(v_seq(out@) =~= Seq::<Vx>::empty());
        }
        return Ok(out);
    }
    proof {
        if (i as int) < vts.len() {
            assert(vts[i as int] == v_expr(ts@[i as int]));
            assert(sfuel_tail(vts, i as int) == sfuel(vts[i as int]) + 2 + sfuel_tail(
                vts,
                i + 1,
            ));
            if i + 1 < vts.len() {
                assert(sfuel_tail(vts, i + 1) == sfuel(vts[i + 1]) + 2 + sfuel_tail(
                    vts,
                    i + 2,
                ));
                assert(vts[i + 1] == v_expr(ts@[i + 1]));
            }
        }
    }
    let e0 = &ts[i];
    if is_comma_sym(e0) {
        if i + 1 >= ts.len() {
            let out: Vec<Expression> = Vec::new();
            proof {
                assert(v_seq(out@) =~= Seq::<Vx>::empty());
            }
            return Ok(out);
        }
        let v = match eval_bq_hole(env, port, &ts[i + 1], fuel - 1) {
            Ok(v) => v,
            Err(er) => {
                return Err(er);
            },
        };
        let mut rest = match bq_exec_list(env, port, ts, i + 2, fuel - 1) {
            Ok(rest) => rest,
            Err(er) => {
                return Err(er);
            },
        };
        let ghost restv = rest@;
        rest.insert(0, v);
        proof {
            assert(v_seq(rest@) =~= seq![v_expr(rest@[0])] + v_seq(restv));
        }
        Ok(rest)
    } else if is_splice_sym(e0) {
        if i + 1 >= ts.len() {
            let out: Vec<Expression> = Vec::new();
            proof {
                assert(v_seq(out@) =~= Seq::<Vx>::empty());
            }
            return Ok(out);
        }
        let v = match eval_bq_hole(env, port, &ts[i + 1], fuel - 1) {
            Ok(v) => v,
            Err(er) => {
                return Err(er);
            },
        };
        let mut items = match v {
            Expression::Vector(items) => items,
            Expression::Pair(_, _) => {
                match v.collect_chain() {
                    Some(items) => items,
                    None => {
                        return Err(
                            Error::new(ErrKind::TypeMismatch, ",@ must be applied to a list"),
                        );
                    },
                }
            },
            _ => {
                return Err(
                    Error::new(ErrKind::TypeMismatch, ",@ must be applied to a list"),
                );
            },
        };
        let mut rest = match bq_exec_list(env, port, ts, i + 2, fuel - 1) {
            Ok(rest) => rest,
            Err(er) => {
                return Err(er);
            },
        };
        let ghost itemsv = items@;
        let ghost restv = rest@;
        items.append(&mut rest);
        proof {
            assert(v_seq(items@) =~= v_seq(itemsv) + v_seq(restv)) by {
                assert(items@ =~= itemsv + restv);
                assert forall|k: int| 0 <= k < items@.len() implies v_seq(items@)[k] == (v_seq(
                    itemsv,
                ) + v_seq(restv))[k] by {
                    if k < itemsv.len() {
                        assert(items@[k] == itemsv[k]);
                    } else {
                        assert(items@[k] == restv[k - itemsv.len()]);
                    }
                }
            }
        }
        Ok(items)
    } else {
        let sub = match e0 {
            Expression::Vector(_) => {
                match bq_exec(env, port, e0, fuel - 1) {
                    Ok(sub) => sub,
                    Err(er) => {
                        return Err(er);
                    },
                }
            },
            Expression::Pair(_, _) => {
                match bq_exec(env, port, e0, fuel - 1) {
                    Ok(sub) => sub,
                    Err(er) => {
                        return Err(er);
                    },
                }
            },
            _ => e0.duplicate(),
        };
        let mut rest = match bq_exec_list(env, port, ts, i + 1, fuel - 1) {
            Ok(rest) => rest,
            Err(er) => {
                return Err(er);
            },
        };
        let ghost restv = rest@;
        rest.insert(0, sub);
        proof {
            assert(v_seq(rest@) =~= seq![v_expr(rest@[0])] + v_seq(restv));
        }
        Ok(rest)
    }
}

} // verus!
