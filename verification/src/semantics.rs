//! The specification-level semantics of the pure, read-only fragment of the
//! language: symbol lookup, quotation, quasiquotation, `if`/`and`/`or`/`not`
//! and `progn`.  The evaluator's contract ties its executable behaviour to
//! these functions; the algebraic laws of the language are proved about
//! them once and inherited by the evaluator.

use vstd::prelude::*;

use crate::environment::{lookup_full, Environment, FormType};
use crate::types::{spec_truthy, v_expr, BuiltinId, ErrKind, Vx};

verus! {

/// What a fragment evaluation yields: `None` when the form is outside the
/// fragment (so nothing is claimed), otherwise the exact result or error.
pub type SimpleRes = Option<Result<Vx, ErrKind>>;

/// The model of a bound value under full lookup.
pub open spec fn lookup_vx(env: Environment, key: Seq<char>) -> Option<Vx> {
    match lookup_full(env, key) {
        Some(e) => Some(v_expr(e)),
        None => None,
    }
}

/// Evaluation of a bare symbol: dynamic scope, then namespace reference,
/// then the lexical chain; unbound symbols become strings under
/// `loose_symbols` and errors otherwise.  Symbols naming process
/// environment variables (leading `$`) are outside the fragment.
pub open spec fn sym_eval(env: Environment, s: Seq<char>) -> SimpleRes {
    if s.len() > 0 && s[0] == '$' {
        None
    } else {
        match lookup_vx(env, s) {
            Some(v) => Some(Ok(v)),
            None => if env.loose_symbols {
                Some(Ok(Vx::Str(s)))
            } else {
                Some(Err(ErrKind::UnboundSymbol))
            },
        }
    }
}

/// Evaluation of a hole (the form after `,` or `,@`): only symbols and
/// self-evaluating leaves are inside the fragment.
pub open spec fn hole_eval(env: Environment, e: Vx) -> SimpleRes {
    match e {
        Vx::Sym(s) => if s == ","@ || s == ",@"@ {
            None
        } else {
            sym_eval(env, s)
        },
        Vx::Vector(_) => None,
        Vx::Pair(_, _) => None,
        _ => Some(Ok(e)),
    }
}

/// Quasiquote over one template.
pub open spec fn bq_eval(env: Environment, t: Vx) -> SimpleRes
    decreases t, 1int, 0int,
{
    match t {
        Vx::Vector(ts) => match bq_list(env, ts, 0) {
            None => None,
            Some(Ok(out)) => Some(Ok(Vx::Vector(out))),
            Some(Err(k)) => Some(Err(k)),
        },
        Vx::Pair(_, _) => bq_pair(env, t),
        _ => Some(Ok(t)),
    }
}

/// Quasiquote over the elements of a vector template, from position `i`:
/// `,form` substitutes the form's value, `,@form` splices a vector value's
/// elements, nested vectors and pairs are processed recursively, and
/// everything else is copied.
pub open spec fn bq_list(env: Environment, ts: Seq<Vx>, i: int) -> Option<
    Result<Seq<Vx>, ErrKind>,
>
    decreases ts, 0int, ts.len() - i,
{
    if i < 0 {
        None
    } else if i >= ts.len() {
        Some(Ok(Seq::empty()))
    } else if ts[i] == Vx::Sym(","@) {
        if i + 1 >= ts.len() {
            Some(Ok(Seq::empty()))
        } else {
            match hole_eval(env, ts[i + 1]) {
                None => None,
                Some(Err(k)) => Some(Err(k)),
                Some(Ok(v)) => match bq_list(env, ts, i + 2) {
                    None => None,
                    Some(Err(k)) => Some(Err(k)),
                    Some(Ok(rest)) => Some(Ok(seq![v] + rest)),
                },
            }
        }
    } else if ts[i] == Vx::Sym(",@"@) {
        if i + 1 >= ts.len() {
            Some(Ok(Seq::empty()))
        } else {
            match hole_eval(env, ts[i + 1]) {
                None => None,
                Some(Err(k)) => Some(Err(k)),
                Some(Ok(Vx::Vector(vs))) => match bq_list(env, ts, i + 2) {
                    None => None,
                    Some(Err(k)) => Some(Err(k)),
                    Some(Ok(rest)) => Some(Ok(vs + rest)),
                },
                Some(Ok(Vx::Pair(_, _))) => None,
                Some(Ok(_)) => Some(Err(ErrKind::TypeMismatch)),
            }
        }
    } else {
        let sub = match ts[i] {
            Vx::Vector(_) => bq_eval(env, ts[i]),
            Vx::Pair(_, _) => bq_eval(env, ts[i]),
            _ => Some(Ok(ts[i])),
        };
        match sub {
            None => None,
            Some(Err(k)) => Some(Err(k)),
            Some(Ok(v)) => match bq_list(env, ts, i + 1) {
                None => None,
                Some(Err(k)) => Some(Err(k)),
                Some(Ok(rest)) => Some(Ok(seq![v] + rest)),
            },
        }
    }
}

/// Quasiquote over a pair chain: `,` collapses with the following element;
/// `,@` chains are outside the fragment; everything else is processed
/// structurally.
pub open spec fn bq_pair(env: Environment, t: Vx) -> SimpleRes
    recommends
        t is Pair,
    decreases t, 0int, 0int,
{
    match t {
        Vx::Pair(a, d) => {
            if *a == Vx::Sym(","@) {
                match *d {
                    Vx::Pair(x, rest) => match hole_eval(env, *x) {
                        None => None,
                        Some(Err(k)) => Some(Err(k)),
                        Some(Ok(v)) => match bq_eval(env, *rest) {
                            None => None,
                            Some(Err(k)) => Some(Err(k)),
                            Some(Ok(r)) => Some(Ok(Vx::Pair(Box::new(v), Box::new(r)))),
                        },
                    },
                    _ => None,
                }
            } else if *a == Vx::Sym(",@"@) {
                None
            } else {
                match bq_eval(env, *a) {
                    None => None,
                    Some(Err(k)) => Some(Err(k)),
                    Some(Ok(va)) => match bq_eval(env, *d) {
                        None => None,
                        Some(Err(k)) => Some(Err(k)),
                        Some(Ok(vd)) => Some(Ok(Vx::Pair(Box::new(va), Box::new(vd)))),
                    },
                }
            }
        },
        _ => None,
    }
}

/// `progn`: evaluate each form, return the last value (`nil` for none).
pub open spec fn progn_eval(env: Environment, args: Seq<Vx>, i: int, acc: Vx) -> SimpleRes
    decreases args, 0int, args.len() - i,
{
    if i < 0 {
        None
    } else if i >= args.len() {
        Some(Ok(acc))
    } else {
        match simple_eval(env, args[i]) {
            None => None,
            Some(Err(k)) => Some(Err(k)),
            Some(Ok(v)) => progn_eval(env, args, i + 1, v),
        }
    }
}

/// `and`: short-circuit on the first `nil`, else the last value (`true`
/// for none).
pub open spec fn and_eval(env: Environment, args: Seq<Vx>, i: int, acc: Vx) -> SimpleRes
    decreases args, 0int, args.len() - i,
{
    if i < 0 {
        None
    } else if i >= args.len() {
        Some(Ok(acc))
    } else {
        match simple_eval(env, args[i]) {
            None => None,
            Some(Err(k)) => Some(Err(k)),
            Some(Ok(v)) => if v == Vx::Nil {
                Some(Ok(Vx::Nil))
            } else {
                and_eval(env, args, i + 1, v)
            },
        }
    }
}

/// `or`: the first non-`nil` value, else `nil`.
pub open spec fn or_eval(env: Environment, args: Seq<Vx>, i: int) -> SimpleRes
    decreases args, 0int, args.len() - i,
{
    if i < 0 {
        None
    } else if i >= args.len() {
        Some(Ok(Vx::Nil))
    } else {
        match simple_eval(env, args[i]) {
            None => None,
            Some(Err(k)) => Some(Err(k)),
            Some(Ok(v)) => if spec_truthy(v) {
                Some(Ok(v))
            } else {
                or_eval(env, args, i + 1)
            },
        }
    }
}

/// `if`: evaluate the condition, then exactly one branch; only `nil` is
/// false.
pub open spec fn if_eval(env: Environment, args: Seq<Vx>) -> SimpleRes
    decreases args, 0int, 0int,
{
    if args.len() < 2 || args.len() > 3 {
        Some(Err(ErrKind::ArityMismatch))
    } else {
        match simple_eval(env, args[0]) {
            None => None,
            Some(Err(k)) => Some(Err(k)),
            Some(Ok(c)) => if spec_truthy(c) {
                simple_eval(env, args[1])
            } else if args.len() == 3 {
                simple_eval(env, args[2])
            } else {
                Some(Ok(Vx::Nil))
            },
        }
    }
}

/// `not` (also bound as `null`): `true` exactly on `nil`.
pub open spec fn not_eval(env: Environment, args: Seq<Vx>) -> SimpleRes
    decreases args, 0int, 0int,
{
    if args.len() != 1 {
        Some(Err(ErrKind::ArityMismatch))
    } else {
        match simple_eval(env, args[0]) {
            None => None,
            Some(Err(k)) => Some(Err(k)),
            Some(Ok(v)) => if v == Vx::Nil {
                Some(Ok(Vx::True))
            } else {
                Some(Ok(Vx::Nil))
            },
        }
    }
}

/// The fragment semantics of one native form, over its unevaluated
/// argument forms.
pub open spec fn frag_builtin_eval(env: Environment, b: BuiltinId, args: Seq<Vx>) -> SimpleRes
    decreases args, 1int, 0int,
{
    match b {
        BuiltinId::Quote => if args.len() == 1 {
            Some(Ok(args[0]))
        } else {
            Some(Err(ErrKind::ArityMismatch))
        },
        BuiltinId::BQuote => if args.len() == 1 {
            bq_eval(env, args[0])
        } else {
            Some(Err(ErrKind::ArityMismatch))
        },
        BuiltinId::Progn => progn_eval(env, args, 0, Vx::Nil),
        BuiltinId::If => if_eval(env, args),
        BuiltinId::And => and_eval(env, args, 0, Vx::True),
        BuiltinId::Or => or_eval(env, args, 0),
        BuiltinId::Not => not_eval(env, args),
        BuiltinId::Add | BuiltinId::Sub | BuiltinId::Mul => match args_eval(env, args, 0) {
            None => None,
            Some(Err(k)) => Some(Err(k)),
            Some(Ok(vs)) => Some(arith_value(b, vs)),
        },
        BuiltinId::Equal | BuiltinId::Less | BuiltinId::LessEqual | BuiltinId::Greater
            | BuiltinId::GreaterEqual => match args_eval(env, args, 0) {
            None => None,
            Some(Err(k)) => Some(Err(k)),
            Some(Ok(vs)) => Some(compare_value(b, vs)),
        },
        _ => None,
    }
}

/// The read-only fragment of evaluation.  `None` makes no claim; `Some`
/// pins the evaluator's result down exactly, with the environment left
/// untouched.
pub open spec fn simple_eval(env: Environment, e: Vx) -> SimpleRes
    decreases e, 2int, 0int,
{
    match e {
        Vx::Sym(s) => sym_eval(env, s),
        Vx::Vector(es) => {
            if es.len() == 0 {
                Some(Ok(e))
            } else {
                match es[0] {
                    Vx::Sym(h) => {
                        if h.len() > 0 && h[0] == '$' {
                            None
                        } else if env.form_type == FormType::ExternalOnly {
                            None
                        } else {
                            match lookup_vx(env, h) {
                                Some(Vx::Builtin(b)) => frag_builtin_eval(
                                    env,
                                    b,
                                    es.subrange(1, es.len() as int),
                                ),
                                Some(_) => None,
                                None => None,
                            }
                        }
                    },
                    _ => None,
                }
            }
        },
        Vx::Pair(_, _) => None,
        _ => Some(Ok(e)),
    }
}

/// An upper bound on the evaluation budget the executable evaluator needs
/// on a fragment form: enough for the recursion into every sub-form.
pub open spec fn sfuel(e: Vx) -> nat
    decreases e, 1int, 0int,
{
    match e {
        Vx::Vector(es) => 4 + sfuel_tail(es, 0),
        Vx::Pair(a, d) => 4 + sfuel(*a) + sfuel(*d),
        _ => 1,
    }
}

/// The budget the elements from position `i` on need, together.
pub open spec fn sfuel_tail(es: Seq<Vx>, i: int) -> nat
    decreases es, 0int, es.len() - i,
{
    if i < 0 || i >= es.len() {
        0
    } else {
        sfuel(es[i]) + 2 + sfuel_tail(es, i + 1)
    }
}

pub proof fn lemma_sfuel_tail_elem(es: Seq<Vx>, j: int, i: int)
    requires
        0 <= j <= i < es.len(),
    ensures
        sfuel(es[i]) + 2 <= sfuel_tail(es, j),
    decreases i - j,
{
    if j < i {
        lemma_sfuel_tail_elem(es, j + 1, i);
    }
}

/// Dropping the head of a sequence shifts the tail budgets by one.
pub proof fn lemma_sfuel_tail_shift(es: Seq<Vx>, tail: Seq<Vx>, j: int)
    requires
        es.len() >= 1,
        tail == es.subrange(1, es.len() as int),
        0 <= j,
    ensures
        sfuel_tail(tail, j) == sfuel_tail(es, j + 1),
    decreases tail.len() - j,
{
    if j < tail.len() {
        assert(tail[j] == es[j + 1]);
        lemma_sfuel_tail_shift(es, tail, j + 1);
    }
}


/// Is the number representable as a 64-bit signed integer?
pub open spec fn in_i64(n: int) -> bool {
    i64::MIN <= n <= i64::MAX
}

/// The integer values of a value sequence, when every element is one.
pub open spec fn ints_of(vs: Seq<Vx>) -> Option<Seq<int>>
    decreases vs.len(),
{
    if vs.len() == 0 {
        Some(Seq::empty())
    } else {
        match (ints_of(vs.drop_last()), vs.last()) {
            (Some(r), Vx::Int(i)) => Some(r.push(i as int)),
            _ => None,
        }
    }
}

/// Left fold of `+`, `-` or `*` with an overflow check at every step.
pub open spec fn fold_chk(s: Seq<int>, i: int, acc: int, op: BuiltinId) -> Option<int>
    decreases s.len() - i,
{
    if i < 0 || i >= s.len() {
        Some(acc)
    } else {
        let n = if op == BuiltinId::Add {
            acc + s[i]
        } else if op == BuiltinId::Sub {
            acc - s[i]
        } else {
            acc * s[i]
        };
        if in_i64(n) {
            fold_chk(s, i + 1, n, op)
        } else {
            None
        }
    }
}

/// The value of an arithmetic form over its integer arguments: `+` sums
/// from 0, `*` multiplies from 1, `-` negates one argument or folds from
/// the first; `None` is an overflow along the way.
pub open spec fn arith_spec(op: BuiltinId, ns: Seq<int>) -> Option<int>
    recommends
        op == BuiltinId::Sub ==> ns.len() >= 1,
{
    if op == BuiltinId::Add {
        fold_chk(ns, 0, 0, op)
    } else if op == BuiltinId::Mul {
        fold_chk(ns, 0, 1, op)
    } else if ns.len() == 1 {
        if in_i64(-ns[0]) {
            Some(-ns[0])
        } else {
            None
        }
    } else {
        fold_chk(ns, 1, ns[0], op)
    }
}

/// Chainwise string equality under `=`: true when every neighbouring pair
/// is equal text, nil on the first difference, an error on a non-string.
pub open spec fn str_eq_chain(vs: Seq<Vx>, i: int) -> Result<Vx, ErrKind>
    decreases vs.len() - i,
{
    if i < 0 || i + 1 >= vs.len() {
        Ok(Vx::True)
    } else {
        match (vs[i], vs[i + 1]) {
            (Vx::Str(a), Vx::Str(b)) => if a == b {
                str_eq_chain(vs, i + 1)
            } else {
                Ok(Vx::Nil)
            },
            _ => Err(ErrKind::TypeMismatch),
        }
    }
}


/// Chainwise comparison of integers under one of `=`, `<`, `<=`, `>`, `>=`.
pub open spec fn chain_holds(s: Seq<int>, op: BuiltinId) -> bool {
    forall|i: int|
        0 <= i < s.len() - 1 ==> (match op {
            BuiltinId::Equal => (#[trigger] s[i]) == s[i + 1],
            BuiltinId::Less => s[i] < s[i + 1],
            BuiltinId::LessEqual => s[i] <= s[i + 1],
            BuiltinId::Greater => s[i] > s[i + 1],
            _ => s[i] >= s[i + 1],
        })
}


/// The value of an arithmetic form over fragment-evaluated arguments.
pub open spec fn arith_value(op: BuiltinId, vs: Seq<Vx>) -> Result<Vx, ErrKind> {
    match ints_of(vs) {
        None => Err(ErrKind::TypeMismatch),
        Some(ns) => if op == BuiltinId::Sub && ns.len() == 0 {
            Err(ErrKind::ArityMismatch)
        } else {
            match arith_spec(op, ns) {
                Some(n) => Ok(Vx::Int(n as i64)),
                None => Err(ErrKind::TypeMismatch),
            }
        },
    }
}

/// The value of a comparison form over fragment-evaluated arguments.
pub open spec fn compare_value(op: BuiltinId, vs: Seq<Vx>) -> Result<Vx, ErrKind> {
    if vs.len() == 0 {
        Err(ErrKind::ArityMismatch)
    } else {
        match ints_of(vs) {
            Some(ns) => Ok(
                if chain_holds(ns, op) {
                    Vx::True
                } else {
                    Vx::Nil
                },
            ),
            None => if op != BuiltinId::Equal {
                Err(ErrKind::TypeMismatch)
            } else {
                str_eq_chain(vs, 0)
            },
        }
    }
}

/// Evaluation of a list of argument forms, left to right: the values when
/// every form lies in the fragment, the first error otherwise.
pub open spec fn args_eval(env: Environment, args: Seq<Vx>, i: int) -> Option<
    Result<Seq<Vx>, ErrKind>,
>
    decreases args, 0int, args.len() - i,
{
    if i < 0 {
        None
    } else if i >= args.len() {
        Some(Ok(Seq::empty()))
    } else {
        match simple_eval(env, args[i]) {
            None => None,
            Some(Err(k)) => Some(Err(k)),
            Some(Ok(v)) => match args_eval(env, args, i + 1) {
                None => None,
                Some(Err(k)) => Some(Err(k)),
                Some(Ok(rest)) => Some(Ok(seq![v] + rest)),
            },
        }
    }
}

} // verus!
