//! The algebraic laws of the language, stated over the fragment semantics
//! that the evaluator's contract is tied to: quotation is the identity,
//! quasiquotation without splices is the identity, splices substitute and
//! splice in bound values, definitions stay in the innermost scope, only
//! `nil` is false, and `and`/`or` satisfy their unit laws.

use vstd::prelude::*;

use crate::builtins::def_post;
use crate::environment::{has_stopped_job, Environment, FormType};
use crate::semantics::{and_eval, bq_eval, bq_list, lookup_vx, or_eval, simple_eval};
use crate::strutil::first_dc;
use crate::types::{BuiltinId, ErrKind, Expression, Vx};

verus! {

/// No unquote or splice marker anywhere in the template.
pub open spec fn splice_free(e: Vx) -> bool
    decreases e, 1int, 0int,
{
    match e {
        Vx::Sym(s) => s != ","@ && s != ",@"@,
        Vx::Vector(es) => sf_list(es, 0),
        Vx::Pair(a, d) => splice_free(*a) && splice_free(*d),
        _ => true,
    }
}

/// No markers among the elements from position `i` on.
pub open spec fn sf_list(es: Seq<Vx>, i: int) -> bool
    decreases es, 0int, es.len() - i,
{
    if i < 0 || i >= es.len() {
        true
    } else {
        splice_free(es[i]) && sf_list(es, i + 1)
    }
}

/// Quasiquotation leaves a splice-free template exactly as it stands.
pub proof fn lemma_bq_identity(env: Environment, t: Vx)
    requires
        splice_free(t),
    ensures
        bq_eval(env, t) == Some(Ok::<Vx, ErrKind>(t)),
    decreases t, 1int, 0int,
{
    match t {
        Vx::Vector(ts) => {
            lemma_bq_list_identity(env, ts, 0);
            assert(ts.subrange(0, ts.len() as int) =~= ts);
        },
        Vx::Pair(a, d) => {
            assert(splice_free(*a) && splice_free(*d));
            assert(*a != Vx::Sym(","@) && *a != Vx::Sym(",@"@)) by {
                match *a {
                    Vx::Sym(sname) => {
                        assert(sname != ","@ && sname != ",@"@);
                    },
                    _ => {},
                }
            }
            lemma_bq_identity(env, *a);
            lemma_bq_identity(env, *d);
        },
        _ => {},
    }
}

/// Element-wise form of the identity law.
pub proof fn lemma_bq_list_identity(env: Environment, ts: Seq<Vx>, i: int)
    requires
        0 <= i <= ts.len(),
        sf_list(ts, i),
    ensures
        bq_list(env, ts, i) == Some(Ok::<Seq<Vx>, ErrKind>(ts.subrange(i, ts.len() as int))),
    decreases ts, 0int, ts.len() - i,
{
    if i >= ts.len() {
        assert(ts.subrange(i, ts.len() as int) =~= Seq::<Vx>::empty());
    } else {
        assert(splice_free(ts[i]));
        assert(sf_list(ts, i + 1));
        assert(ts[i] != Vx::Sym(","@) && ts[i] != Vx::Sym(",@"@)) by {
            match ts[i] {
                Vx::Sym(sname) => {
                    assert(sname != ","@ && sname != ",@"@);
                },
                _ => {},
            }
        }
        match ts[i] {
            Vx::Vector(_) => {
                lemma_bq_identity(env, ts[i]);
            },
            Vx::Pair(_, _) => {
                lemma_bq_identity(env, ts[i]);
            },
            _ => {},
        }
        lemma_bq_list_identity(env, ts, i + 1);
        assert(seq![ts[i]] + ts.subrange(i + 1, ts.len() as int) =~= ts.subrange(
            i,
            ts.len() as int,
        ));
    }
}

/// Identity of quote: evaluating `(quote x)` yields `x` itself,
/// structurally, for every expression `x`.
pub proof fn lemma_quote_identity(env: Environment, x: Vx)
    requires
        lookup_vx(env, "quote"@) == Some(Vx::Builtin(BuiltinId::Quote)),
        env.form_type != FormType::ExternalOnly,
    ensures
        simple_eval(env, Vx::Vector(seq![Vx::Sym("quote"@), x])) == Some(Ok::<Vx, ErrKind>(x)),
{
    reveal_strlit("quote");
    let es = seq![Vx::Sym("quote"@), x];
    assert(es.subrange(1, 2) =~= seq![x]);
    assert(crate::semantics::frag_builtin_eval(env, BuiltinId::Quote, seq![x]) == Some(
        Ok::<Vx, ErrKind>(x),
    ));
}

/// Quasiquote with no splices: evaluating `` `x `` yields `x` itself for
/// every template free of `,` and `,@`.
pub proof fn lemma_quasiquote_identity(env: Environment, x: Vx)
    requires
        splice_free(x),
        lookup_vx(env, "bquote"@) == Some(Vx::Builtin(BuiltinId::BQuote)),
        env.form_type != FormType::ExternalOnly,
    ensures
        simple_eval(env, Vx::Vector(seq![Vx::Sym("bquote"@), x])) == Some(Ok::<Vx, ErrKind>(x)),
{
    reveal_strlit("bquote");
    let es = seq![Vx::Sym("bquote"@), x];
    assert(es.subrange(1, 2) =~= seq![x]);
    lemma_bq_identity(env, x);
    assert(crate::semantics::frag_builtin_eval(env, BuiltinId::BQuote, seq![x]) == Some(
        Ok::<Vx, ErrKind>(x),
    ));
}

/// Splice law: `` `(a ,b c) `` with `b` bound to `V` is the list
/// `(a V c)`.
pub proof fn lemma_splice(env: Environment, a: Seq<char>, q: Seq<char>, c: Seq<char>, v: Vx)
    requires
        lookup_vx(env, "bquote"@) == Some(Vx::Builtin(BuiltinId::BQuote)),
        env.form_type != FormType::ExternalOnly,
        a != ","@ && a != ",@"@,
        c != ","@ && c != ",@"@,
        q != ","@ && q != ",@"@,
        q.len() == 0 || q[0] != '$',
        lookup_vx(env, q) == Some(v),
    ensures
        simple_eval(
            env,
            Vx::Vector(
                seq![
                    Vx::Sym("bquote"@),
                    Vx::Vector(seq![Vx::Sym(a), Vx::Sym(","@), Vx::Sym(q), Vx::Sym(c)]),
                ],
            ),
        ) == Some(Ok::<Vx, ErrKind>(Vx::Vector(seq![Vx::Sym(a), v, Vx::Sym(c)]))),
{
    reveal_strlit("bquote");
    reveal_strlit(",");
    reveal_strlit(",@");
    assert(","@.len() == 1 && ",@"@.len() == 2);
    let t = Vx::Vector(seq![Vx::Sym(a), Vx::Sym(","@), Vx::Sym(q), Vx::Sym(c)]);
    let es = seq![Vx::Sym("bquote"@), t];
    assert(es.subrange(1, 2) =~= seq![t]);
    let ts = seq![Vx::Sym(a), Vx::Sym(","@), Vx::Sym(q), Vx::Sym(c)];
    assert(bq_list(env, ts, 4) == Some(Ok::<Seq<Vx>, ErrKind>(Seq::empty())));
    assert(bq_list(env, ts, 3) == Some(Ok::<Seq<Vx>, ErrKind>(seq![Vx::Sym(c)] + Seq::empty())));
    assert(bq_list(env, ts, 1) == Some(
        Ok::<Seq<Vx>, ErrKind>(seq![v] + (seq![Vx::Sym(c)] + Seq::empty())),
    ));
    assert(bq_list(env, ts, 0) == Some(
        Ok::<Seq<Vx>, ErrKind>(seq![Vx::Sym(a)] + (seq![v] + (seq![Vx::Sym(c)] + Seq::empty()))),
    ));
    assert(seq![Vx::Sym(a)] + (seq![v] + (seq![Vx::Sym(c)] + Seq::empty())) =~= seq![
        Vx::Sym(a),
        v,
        Vx::Sym(c),
    ]);
    assert(bq_eval(env, t) == Some(Ok::<Vx, ErrKind>(Vx::Vector(seq![Vx::Sym(a), v, Vx::Sym(c)]))));
    assert(crate::semantics::frag_builtin_eval(env, BuiltinId::BQuote, seq![t]) == Some(
        Ok::<Vx, ErrKind>(Vx::Vector(seq![Vx::Sym(a), v, Vx::Sym(c)])),
    ));
}

/// Splice-append law: `` `(a ,@L c) `` with `L` bound to the list
/// `(x y)` is the list `(a x y c)`.
pub proof fn lemma_splice_append(
    env: Environment,
    a: Seq<char>,
    q: Seq<char>,
    c: Seq<char>,
    x: Vx,
    y: Vx,
)
    requires
        lookup_vx(env, "bquote"@) == Some(Vx::Builtin(BuiltinId::BQuote)),
        env.form_type != FormType::ExternalOnly,
        a != ","@ && a != ",@"@,
        c != ","@ && c != ",@"@,
        q != ","@ && q != ",@"@,
        q.len() == 0 || q[0] != '$',
        lookup_vx(env, q) == Some(Vx::Vector(seq![x, y])),
    ensures
        simple_eval(
            env,
            Vx::Vector(
                seq![
                    Vx::Sym("bquote"@),
                    Vx::Vector(seq![Vx::Sym(a), Vx::Sym(",@"@), Vx::Sym(q), Vx::Sym(c)]),
                ],
            ),
        ) == Some(Ok::<Vx, ErrKind>(Vx::Vector(seq![Vx::Sym(a), x, y, Vx::Sym(c)]))),
{
    reveal_strlit("bquote");
    reveal_strlit(",");
    reveal_strlit(",@");
    assert(","@.len() == 1 && ",@"@.len() == 2);
    let t = Vx::Vector(seq![Vx::Sym(a), Vx::Sym(",@"@), Vx::Sym(q), Vx::Sym(c)]);
    let es = seq![Vx::Sym("bquote"@), t];
    assert(es.subrange(1, 2) =~= seq![t]);
    let ts = seq![Vx::Sym(a), Vx::Sym(",@"@), Vx::Sym(q), Vx::Sym(c)];
    assert(bq_list(env, ts, 4) == Some(Ok::<Seq<Vx>, ErrKind>(Seq::empty())));
    assert(bq_list(env, ts, 3) == Some(Ok::<Seq<Vx>, ErrKind>(seq![Vx::Sym(c)] + Seq::empty())));
    assert(bq_list(env, ts, 1) == Some(
        Ok::<Seq<Vx>, ErrKind>(seq![x, y] + (seq![Vx::Sym(c)] + Seq::empty())),
    ));
    assert(bq_list(env, ts, 0) == Some(
        Ok::<Seq<Vx>, ErrKind>(
            seq![Vx::Sym(a)] + (seq![x, y] + (seq![Vx::Sym(c)] + Seq::empty())),
        ),
    ));
    assert(seq![Vx::Sym(a)] + (seq![x, y] + (seq![Vx::Sym(c)] + Seq::empty())) =~= seq![
        Vx::Sym(a),
        x,
        y,
        Vx::Sym(c),
    ]);
    assert(bq_eval(env, t) == Some(
        Ok::<Vx, ErrKind>(Vx::Vector(seq![Vx::Sym(a), x, y, Vx::Sym(c)])),
    ));
    assert(crate::semantics::frag_builtin_eval(env, BuiltinId::BQuote, seq![t]) == Some(
        Ok::<Vx, ErrKind>(Vx::Vector(seq![Vx::Sym(a), x, y, Vx::Sym(c)])),
    ));
}

/// Scope isolation: a definition writes only the innermost scope.  Every
/// other scope — in particular the caller's scope, when evaluation is
/// inside a lambda whose fresh frame is the innermost scope — keeps all
/// its bindings.
pub proof fn lemma_def_isolation(
    a: Environment,
    b: Environment,
    r: Result<Expression, crate::types::Error>,
    s: Seq<char>,
    v: Vx,
    j: int,
)
    requires
        def_post(a, b, r, s, v),
        first_dc(s) is None,
        0 <= j < a.scopes@.len(),
        j != a.spec_cur(),
    ensures
        b.scopes@[j] == a.scopes@[j],
{
}

/// Truthiness: `0` and the empty string choose the `then` branch of `if`;
/// only `nil` chooses the `else` branch.
pub proof fn lemma_truthiness(env: Environment, x: Vx, y: Vx)
    requires
        lookup_vx(env, "if"@) == Some(Vx::Builtin(BuiltinId::If)),
        lookup_vx(env, "quote"@) == Some(Vx::Builtin(BuiltinId::Quote)),
        env.form_type != FormType::ExternalOnly,
    ensures
        simple_eval(env, if_form(Vx::Int(0), x, y)) == Some(Ok::<Vx, ErrKind>(x)),
        simple_eval(env, if_form(Vx::Str(Seq::empty()), x, y)) == Some(Ok::<Vx, ErrKind>(x)),
        simple_eval(env, if_form(Vx::Nil, x, y)) == Some(Ok::<Vx, ErrKind>(y)),
{
    reveal_strlit("if");
    reveal_strlit("quote");
    lemma_truthiness_one(env, Vx::Int(0), x, y);
    lemma_truthiness_one(env, Vx::Str(Seq::empty()), x, y);
    lemma_truthiness_one(env, Vx::Nil, x, y);
}

/// The `if` form used by the truthiness law: branches are quoted so their
/// values pass through evaluation untouched.
pub open spec fn if_form(cond: Vx, x: Vx, y: Vx) -> Vx {
    Vx::Vector(
        seq![
            Vx::Sym("if"@),
            cond,
            Vx::Vector(seq![Vx::Sym("quote"@), x]),
            Vx::Vector(seq![Vx::Sym("quote"@), y]),
        ],
    )
}

proof fn lemma_truthiness_one(env: Environment, cond: Vx, x: Vx, y: Vx)
    requires
        lookup_vx(env, "if"@) == Some(Vx::Builtin(BuiltinId::If)),
        lookup_vx(env, "quote"@) == Some(Vx::Builtin(BuiltinId::Quote)),
        env.form_type != FormType::ExternalOnly,
        cond == Vx::Int(0) || cond == Vx::Str(Seq::<char>::empty()) || cond == Vx::Nil,
    ensures
        simple_eval(env, if_form(cond, x, y)) == Some(
            Ok::<Vx, ErrKind>(
                if cond != Vx::Nil {
                    x
                } else {
                    y
                },
            ),
        ),
{
    reveal_strlit("if");
    reveal_strlit("quote");
    let qx = Vx::Vector(seq![Vx::Sym("quote"@), x]);
    let qy = Vx::Vector(seq![Vx::Sym("quote"@), y]);
    let es = seq![Vx::Sym("if"@), cond, qx, qy];
    assert(es.subrange(1, 4) =~= seq![cond, qx, qy]);
    lemma_quote_identity(env, x);
    lemma_quote_identity(env, y);
    let args = seq![cond, qx, qy];
    assert(simple_eval(env, args[0]) == Some(Ok::<Vx, ErrKind>(cond)));
    assert(simple_eval(env, args[1]) == Some(Ok::<Vx, ErrKind>(x)));
    assert(simple_eval(env, args[2]) == Some(Ok::<Vx, ErrKind>(y)));
    assert(crate::semantics::if_eval(env, args) == Some(
        Ok::<Vx, ErrKind>(
            if cond != Vx::Nil {
                x
            } else {
                y
            },
        ),
    ));
    assert(crate::semantics::frag_builtin_eval(env, BuiltinId::If, args) == Some(
        Ok::<Vx, ErrKind>(
            if cond != Vx::Nil {
                x
            } else {
                y
            },
        ),
    ));
}

/// The `and`/`or` unit laws: `(and)` is true, `(or)` is nil, and both
/// forms of one argument yield that argument's value.
pub proof fn lemma_and_or_identities(env: Environment, x: Vx, v: Vx)
    requires
        lookup_vx(env, "and"@) == Some(Vx::Builtin(BuiltinId::And)),
        lookup_vx(env, "or"@) == Some(Vx::Builtin(BuiltinId::Or)),
        env.form_type != FormType::ExternalOnly,
        simple_eval(env, x) == Some(Ok::<Vx, ErrKind>(v)),
    ensures
        simple_eval(env, Vx::Vector(seq![Vx::Sym("and"@)])) == Some(Ok::<Vx, ErrKind>(Vx::True)),
        simple_eval(env, Vx::Vector(seq![Vx::Sym("or"@)])) == Some(Ok::<Vx, ErrKind>(Vx::Nil)),
        simple_eval(env, Vx::Vector(seq![Vx::Sym("and"@), x])) == Some(Ok::<Vx, ErrKind>(v)),
        simple_eval(env, Vx::Vector(seq![Vx::Sym("or"@), x])) == Some(Ok::<Vx, ErrKind>(v)),
{
    reveal_strlit("and");
    reveal_strlit("or");
    let and0 = seq![Vx::Sym("and"@)];
    let or0 = seq![Vx::Sym("or"@)];
    let and1 = seq![Vx::Sym("and"@), x];
    let or1 = seq![Vx::Sym("or"@), x];
    assert(and0.subrange(1, 1) =~= Seq::<Vx>::empty());
    assert(or0.subrange(1, 1) =~= Seq::<Vx>::empty());
    assert(and1.subrange(1, 2) =~= seq![x]);
    assert(or1.subrange(1, 2) =~= seq![x]);
    let args1 = seq![x];
    assert(and_eval(env, args1, 0, Vx::True) == Some(Ok::<Vx, ErrKind>(v)));
    assert(or_eval(env, args1, 0) == Some(Ok::<Vx, ErrKind>(v)));
    assert(crate::semantics::frag_builtin_eval(env, BuiltinId::And, Seq::<Vx>::empty()) == Some(
        Ok::<Vx, ErrKind>(Vx::True),
    ));
    assert(crate::semantics::frag_builtin_eval(env, BuiltinId::Or, Seq::<Vx>::empty()) == Some(
        Ok::<Vx, ErrKind>(Vx::Nil),
    ));
    assert(crate::semantics::frag_builtin_eval(env, BuiltinId::And, args1) == Some(
        Ok::<Vx, ErrKind>(v),
    ));
    assert(crate::semantics::frag_builtin_eval(env, BuiltinId::Or, args1) == Some(
        Ok::<Vx, ErrKind>(v),
    ));
}

/// Job-table consistency: in every well-formed environment, each pid on
/// the stopped list belongs to some job whose status is stopped.
pub proof fn lemma_job_table_consistent(env: Environment, p: u32)
    requires
        env.wf(),
        env.stopped_procs@.contains(p),
    ensures
        has_stopped_job(env.jobs@, p),
{
}



/// Integer addition: `(+ 1 2 3)` evaluates to the integer 6.
pub proof fn lemma_integer_addition(env: Environment)
    requires
        lookup_vx(env, "+"@) == Some(Vx::Builtin(BuiltinId::Add)),
        env.form_type != FormType::ExternalOnly,
    ensures
        simple_eval(
            env,
            Vx::Vector(seq![Vx::Sym("+"@), Vx::Int(1), Vx::Int(2), Vx::Int(3)]),
        ) == Some(Ok::<Vx, ErrKind>(Vx::Int(6))),
{
    reveal_strlit("+");
    let es = seq![Vx::Sym("+"@), Vx::Int(1), Vx::Int(2), Vx::Int(3)];
    let args = seq![Vx::Int(1), Vx::Int(2), Vx::Int(3)];
    assert(es.subrange(1, 4) =~= args);
    assert(crate::semantics::args_eval(env, args, 3) == Some(
        Ok::<Seq<Vx>, ErrKind>(Seq::empty()),
    ));
    assert(crate::semantics::args_eval(env, args, 2) == Some(
        Ok::<Seq<Vx>, ErrKind>(seq![Vx::Int(3)] + Seq::empty()),
    ));
    assert(crate::semantics::args_eval(env, args, 1) == Some(
        Ok::<Seq<Vx>, ErrKind>(seq![Vx::Int(2)] + (seq![Vx::Int(3)] + Seq::empty())),
    ));
    assert(crate::semantics::args_eval(env, args, 0) == Some(
        Ok::<Seq<Vx>, ErrKind>(
            seq![Vx::Int(1)] + (seq![Vx::Int(2)] + (seq![Vx::Int(3)] + Seq::empty())),
        ),
    ));
    let vs = seq![Vx::Int(1), Vx::Int(2), Vx::Int(3)];
    assert(seq![Vx::Int(1)] + (seq![Vx::Int(2)] + (seq![Vx::Int(3)] + Seq::empty())) =~= vs);
    assert(crate::semantics::ints_of(vs.drop_last().drop_last().drop_last()) == Some(
        Seq::<int>::empty(),
    )) by {
        assert(vs.drop_last().drop_last().drop_last() =~= Seq::<Vx>::empty());
    }
    assert(crate::semantics::ints_of(vs.drop_last().drop_last()) == Some(seq![1int])) by {
        assert(vs.drop_last().drop_last() =~= seq![Vx::Int(1)]);
        assert(Seq::<int>::empty().push(1int) =~= seq![1int]);
    }
    assert(crate::semantics::ints_of(vs.drop_last()) == Some(seq![1int, 2int])) by {
        assert(vs.drop_last() =~= seq![Vx::Int(1), Vx::Int(2)]);
        assert(seq![1int].push(2int) =~= seq![1int, 2int]);
    }
    assert(crate::semantics::ints_of(vs) == Some(seq![1int, 2int, 3int])) by {
        assert(seq![1int, 2int].push(3int) =~= seq![1int, 2int, 3int]);
    }
    let ns = seq![1int, 2int, 3int];
    assert(crate::semantics::fold_chk(ns, 3, 6, BuiltinId::Add) == Some(6int));
    assert(crate::semantics::fold_chk(ns, 2, 3, BuiltinId::Add) == Some(6int));
    assert(crate::semantics::fold_chk(ns, 1, 1, BuiltinId::Add) == Some(6int));
    assert(crate::semantics::fold_chk(ns, 0, 0, BuiltinId::Add) == Some(6int));
    assert(crate::semantics::arith_value(BuiltinId::Add, vs) == Ok::<Vx, ErrKind>(Vx::Int(6)));
    assert(crate::semantics::frag_builtin_eval(env, BuiltinId::Add, args) == Some(
        Ok::<Vx, ErrKind>(Vx::Int(6)),
    ));
}

} // verus!
