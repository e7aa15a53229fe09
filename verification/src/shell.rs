//! The pieces of the shell driver that are pure logic: the command-line
//! word splitter used by one-shot command mode, script running, and the
//! prompt computation.

use vstd::prelude::*;

use crate::environment::{build_default_environment, get_expression, Environment};
use crate::eval::eval;
use crate::port::SysPort;
use crate::types::{v_expr, Atom, ErrKind, Error, Expression, Vx};

verus! {

/// The word-splitter state: inside a single-quoted or double-quoted
/// stretch, the word collected so far, the previous character (for escape
/// handling), and the words already produced.
#[verifier::ext_equal]
pub struct TokState {
    pub in_single: bool,
    pub in_double: bool,
    pub token: Seq<char>,
    pub last: char,
    pub out: Seq<Seq<char>>,
}

/// One step of the word splitter.
pub open spec fn tok_step(st: TokState, ch: char) -> TokState {
    if ch == '\'' && st.last != '\\' {
        if st.in_single {
            TokState {
                in_single: false,
                in_double: st.in_double,
                token: Seq::empty(),
                last: ch,
                out: st.out.push(st.token),
            }
        } else {
            TokState { in_single: true, last: ch, ..st }
        }
    } else if ch == '"' && st.last != '\\' {
        if st.in_double {
            TokState {
                in_single: st.in_single,
                in_double: false,
                token: Seq::empty(),
                last: ch,
                out: st.out.push(st.token),
            }
        } else {
            TokState { in_double: true, last: ch, ..st }
        }
    } else if st.in_single || st.in_double {
        TokState { token: st.token.push(ch), last: ch, ..st }
    } else if ch == ' ' {
        if st.token.len() == 0 {
            TokState { last: ch, ..st }
        } else {
            TokState { token: Seq::empty(), last: ch, out: st.out.push(st.token), ..st }
        }
    } else {
        TokState { token: st.token.push(ch), last: ch, ..st }
    }
}

/// Run the word splitter over the input from position `i`.
pub open spec fn tok_run(s: Seq<char>, i: int, st: TokState) -> TokState
    decreases s.len() - i,
{
    if i < 0 || i >= s.len() {
        st
    } else {
        tok_run(s, i + 1, tok_step(st, s[i]))
    }
}

/// The splitter's starting state.
pub open spec fn tok_init() -> TokState {
    TokState {
        in_single: false,
        in_double: false,
        token: Seq::empty(),
        last: ' ',
        out: Seq::empty(),
    }
}

/// The words of one command line: quoted stretches keep their spaces, a
/// trailing unfinished word still counts.
pub open spec fn tokens_of(s: Seq<char>) -> Seq<Seq<char>> {
    let fin = tok_run(s, 0, tok_init());
    if fin.token.len() == 0 {
        fin.out
    } else {
        fin.out.push(fin.token)
    }
}

/// Split one command line into words, appending them to `nargs`: spaces
/// separate words, single or double quotes group them, a backslash keeps
/// the following quote literal.
pub fn parse_one_run_command_line(input: &str, nargs: &mut Vec<String>) -> (r: Result<(), Error>)
    ensures
        r is Ok,
        final(nargs)@.len() == old(nargs)@.len() + tokens_of(input@).len(),
        forall|i: int|
            0 <= i < old(nargs)@.len() ==> (#[trigger] final(nargs)@[i]) == old(nargs)@[i],
        forall|i: int|
            0 <= i < tokens_of(input@).len() ==> (#[trigger] final(nargs)@[old(nargs)@.len() + i])@
                == tokens_of(input@)[i],
{
    let n = input.unicode_len();
    let mut in_single = false;
    let mut in_double = false;
    let mut token = String::new();
    let mut last: char = ' ';
    let mut fresh: Vec<String> = Vec::new();
    proof {
        assert(fresh@.map_values(|t: String| t@) =~~= Seq::<Seq<char>>::empty());
        assert(TokState {
            in_single: false,
            in_double: false,
            token: token@,
            last: ' ',
            out: fresh@.map_values(|t: String| t@),
        } =~~= tok_init());
    }
    let mut i: usize = 0;
    #[verifier::loop_isolation(false)]
    while i < n
        invariant
            n == input@.len(),
            i <= n,
            ({
                let st = tok_run(input@, 0, tok_init());
                let here = tok_run(input@, i as int, TokState {
                    in_single,
                    in_double,
                    token: token@,
                    last,
                    out: fresh@.map_values(|t: String| t@),
                });
                st == here
            }),
        decreases n - i,
    {
        let ch = input.get_char(i);
        let ghost pre_st = TokState {
            in_single,
            in_double,
            token: token@,
            last,
            out: fresh@.map_values(|t: String| t@),
        };
        if ch == '\'' && last != '\\' {
            if in_single {
                in_single = false;
                fresh.push(token);
                token = String::new();
            } else {
                in_single = true;
            }
        } else if ch == '"' && last != '\\' {
            if in_double {
                in_double = false;
                fresh.push(token);
                token = String::new();
            } else {
                in_double = true;
            }
        } else if in_single || in_double {
            token.push(ch);
        } else if ch == ' ' {
            if token.as_str().unicode_len() != 0 {
                fresh.push(token);
                token = String::new();
            }
        } else {
            token.push(ch);
        }
        last = ch;
        proof {
            let post_st = TokState {
                in_single,
                in_double,
                token: token@,
                last,
                out: fresh@.map_values(|t: String| t@),
            };
            assert(post_st =~~= tok_step(pre_st, ch));
        }
        i += 1;
    }
    let ghost fin = tok_run(input@, 0, tok_init());
    proof {
        assert(fin.token == token@);
        assert(fin.out == fresh@.map_values(|t: String| t@));
    }
    if token.as_str().unicode_len() != 0 {
        fresh.push(token);
        proof {
            assert(fresh@.map_values(|t: String| t@) =~~= fin.out.push(fin.token));
        }
    }
    proof {
        assert(fresh@.map_values(|t: String| t@) =~~= tokens_of(input@));
    }
    let ghost fresh0 = fresh@;
    let mut k: usize = 0;
    #[verifier::loop_isolation(false)]
    while k < fresh.len()
        invariant
            fresh@ == fresh0,
            k <= fresh0.len(),
            nargs@.len() == old(nargs)@.len() + k,
            forall|j: int|
                0 <= j < old(nargs)@.len() ==> (#[trigger] nargs@[j]) == old(nargs)@[j],
            forall|j: int|
                0 <= j < k ==> (#[trigger] nargs@[old(nargs)@.len() + j]) == fresh0[j],
        decreases fresh0.len() - k,
    {
        let w = fresh[k].clone();
        nargs.push(w);
        k += 1;
    }
    proof {
        assert forall|i2: int| 0 <= i2 < tokens_of(input@).len() implies (#[trigger] nargs@[old(
            nargs,
        )@.len() + i2])@ == tokens_of(input@)[i2] by {
            assert(nargs@[old(nargs)@.len() + i2] == fresh0[i2]);
            assert(fresh0.map_values(|t: String| t@)[i2] == fresh0[i2]@);
        }
    }
    Ok(())
}

/// Read a source file and evaluate it: a file whose top level is a list of
/// forms runs them in order.
pub fn run_script<P: SysPort>(
    env: &mut Environment,
    port: &mut P,
    file_name: &str,
    fuel: u64,
) -> (r: Result<(), Error>)
    requires
        old(env).wf(),
    ensures
        final(env).wf(),
    decreases fuel,
{
    if fuel == 0 {
        return Err(Error::new(ErrKind::Interrupted, "evaluation budget exhausted"));
    }
    let text = match port.load_text(file_name) {
        Ok(text) => text,
        Err(e) => {
            return Err(e);
        },
    };
    let ast = match port.read_form(text.as_str()) {
        Ok(ast) => ast,
        Err(pe) => {
            return Err(Error { kind: ErrKind::Parse, msg: pe.reason });
        },
    };
    match &ast {
        Expression::Vector(l) => {
            let mut i: usize = 0;
            #[verifier::loop_isolation(false)]
            while i < l.len()
                invariant
                    env.wf(),
                    i <= l@.len(),
                decreases l@.len() - i,
            {
                match eval(env, port, &l[i], fuel - 1) {
                    Ok(_) => {},
                    Err(e) => {
                        return Err(e);
                    },
                }
                i += 1;
            }
            Ok(())
        },
        _ => {
            match eval(env, port, &ast, fuel - 1) {
                Ok(_) => Ok(()),
                Err(e) => Err(e),
            }
        },
    }
}

/// Bind `args` in the root scope to the given argument strings, as a
/// vector of string values.
pub fn bind_args(env: &mut Environment, args: &Vec<String>)
    requires
        old(env).wf(),
    ensures
        final(env).wf(),
        crate::environment::same_non_scope(*old(env), *final(env)),
        final(env).current_scope == old(env).current_scope,
        final(env).scopes@.len() == old(env).scopes@.len(),
        final(env).scopes@[0].data@.contains_key("args"@),
        v_expr(final(env).scopes@[0].data@["args"@]) == Vx::Vector(
            args@.map_values(|a: String| Vx::Str(a@)),
        ),
{
    let mut exp_args: Vec<Expression> = Vec::new();
    let mut i: usize = 0;
    #[verifier::loop_isolation(false)]
    while i < args.len()
        invariant
            i <= args@.len(),
            exp_args@.len() == i,
            forall|k: int|
                0 <= k < i ==> v_expr(#[trigger] exp_args@[k]) == Vx::Str(args@[k]@),
        decreases args@.len() - i,
    {
        exp_args.push(Expression::Atom(Atom::Str(args[i].clone())));
        i += 1;
    }
    proof {
        crate::types::lemma_v_seq_len(exp_args@);
        assert forall|k: int| 0 <= k < exp_args@.len() implies crate::types::v_seq(exp_args@)[k]
            == args@.map_values(|a: String| Vx::Str(a@))[k] by {
            crate::types::lemma_v_seq_index(exp_args@, k);
        }
        assert(crate::types::v_seq(exp_args@) =~= args@.map_values(|a: String| Vx::Str(a@)));
    }
    crate::environment::set_expression_at(
        env,
        0,
        String::from_str("args"),
        Expression::Vector(exp_args),
    );
    proof {
        crate::environment::lemma_data_v_insert(
            old(env).scopes@[0].data@,
            "args"@,
            Expression::Vector(exp_args),
        );
    }
}

/// Run one script file in a fresh environment, with `args` bound in the
/// root scope to the argument strings (see [`bind_args`]).
pub fn run_one_script<P: SysPort>(
    port: &mut P,
    command: &str,
    args: &Vec<String>,
    fuel: u64,
) -> (r: Result<Environment, Error>)
    ensures
        r matches Ok(env) ==> env.wf(),
{
    let mut env = build_default_environment();
    bind_args(&mut env, args);
    match run_script(&mut env, port, command, fuel) {
        Ok(_) => Ok(env),
        Err(e) => Err(e),
    }
}

/// Compute the interactive prompt: the value of `__prompt` (called, when
/// it is a lambda), or a default built from the host name and working
/// directory.
pub fn get_prompt<P: SysPort>(env: &mut Environment, port: &mut P, fuel: u64) -> (s: String)
    requires
        old(env).wf(),
    ensures
        final(env).wf(),
{
    let has_prompt = match get_expression(env, "__prompt") {
        Some(_) => true,
        None => false,
    };
    if has_prompt {
        let call = {
            let mut v: Vec<Expression> = Vec::new();
            v.push(Expression::Atom(Atom::Symbol(String::from_str("__prompt"))));
            Expression::Vector(v)
        };
        let prompt_exp = match get_expression(env, "__prompt") {
            Some(Expression::Atom(Atom::Lambda(_))) => call,
            Some(e) => e,
            None => call,
        };
        let saved = env.save_exit_status;
        let ghost pre = *env;
        env.save_exit_status = false;
        proof {
            crate::environment::lemma_wf_fields(pre, *env);
        }
        let res = eval(env, port, &prompt_exp, fuel);
        let ghost mid = *env;
        env.save_exit_status = saved;
        proof {
            crate::environment::lemma_wf_fields(mid, *env);
        }
        match res {
            Ok(v) => {
                match crate::builtins::as_string(port, &v) {
                    Ok(text) => text,
                    Err(_) => String::from_str("ERROR"),
                }
            },
            Err(e) => {
                let mut out = String::from_str("ERROR: ");
                out.append(e.msg.as_str());
                out
            },
        }
    } else {
        let hostname = match port.getenv("HOST") {
            Some(h) => h,
            None => String::from_str("UNKNOWN"),
        };
        let pwd = port.current_dir();
        let mut out = String::new();
        out.append("\u{1b}[32m");
        out.append(hostname.as_str());
        out.append(":\u{1b}[34m");
        out.append(pwd.as_str());
        out.append("\u{1b}[37m(slsh)\u{1b}[32m>\u{1b}[39m ");
        out
    }
}

} // verus!
