//! End-to-end tests of the evaluator: scenarios run against a fake system
//! port that records what would have reached the operating system.

use std::collections::HashMap;

use slsh::environment::{build_default_environment, Environment, IOState};
use slsh::eval::eval;
use slsh::port::{SysPort, WaitOutcome};
use slsh::types::{Atom, Expression, ParseError, Error, ErrKind, FileState};

const FUEL: u64 = 1_000_000;

/// A system port that touches nothing: environment variables, spawned
/// commands and written text all land in memory.
struct FakePort {
    vars: HashMap<String, String>,
    stdout: String,
    stderr: String,
    files: HashMap<String, String>,
    spawns: Vec<Vec<String>>,
    outputs: HashMap<u32, String>,
    next_pid: u32,
}

impl FakePort {
    fn new() -> FakePort {
        FakePort {
            vars: HashMap::new(),
            stdout: String::new(),
            stderr: String::new(),
            files: HashMap::new(),
            spawns: Vec::new(),
            outputs: HashMap::new(),
            next_pid: 100,
        }
    }
}

impl SysPort for FakePort {
    fn check_interrupt(&mut self) -> bool {
        false
    }

    fn getenv(&mut self, name: &str) -> Option<String> {
        self.vars.get(name).cloned()
    }

    fn setenv(&mut self, name: &str, value: &str) {
        self.vars.insert(name.to_string(), value.to_string());
    }

    fn unsetenv(&mut self, name: &str) {
        self.vars.remove(name);
    }

    fn read_form(&mut self, _text: &str) -> Result<Expression, ParseError> {
        Err(ParseError { reason: "no reader attached".to_string() })
    }

    fn spawn(
        &mut self,
        argv: &Vec<String>,
        stdin_text: Option<&String>,
        stdout: &Option<IOState>,
        _stderr: &Option<IOState>,
        _background: bool,
        _pgid: Option<u32>,
    ) -> Result<u32, Error> {
        let pid = self.next_pid;
        self.next_pid += 1;
        self.spawns.push(argv.clone());
        // A tiny model of `echo` and `cat`, enough for pipeline tests.
        let out = if argv[0] == "echo" {
            argv[1..].join(" ")
        } else if argv[0] == "cat" {
            stdin_text.cloned().unwrap_or_default()
        } else {
            String::new()
        };
        match stdout {
            Some(IOState::Pipe) => {
                self.outputs.insert(pid, out);
            }
            Some(IOState::Null) => {}
            _ => {
                self.stdout.push_str(&out);
            }
        }
        Ok(pid)
    }

    fn wait_pid(&mut self, _pid: u32) -> WaitOutcome {
        WaitOutcome::Exited(0)
    }

    fn try_wait(&mut self, _pid: u32) -> Option<i32> {
        Some(0)
    }

    fn sigcont(&mut self, _pid: u32) -> bool {
        true
    }

    fn set_foreground(&mut self, _pid: u32) {}

    fn restore_terminal(&mut self) {}

    fn read_proc_output(&mut self, pid: u32) -> Result<String, Error> {
        Ok(self.outputs.get(&pid).cloned().unwrap_or_default())
    }

    fn write_text(&mut self, target: FileState, text: &str) -> Result<(), Error> {
        match target {
            FileState::Stderr => self.stderr.push_str(text),
            FileState::Write(h) => {
                self.files
                    .entry(format!("<handle {}>", h))
                    .or_default()
                    .push_str(text);
            }
            _ => self.stdout.push_str(text),
        }
        Ok(())
    }

    fn read_handle_text(&mut self, _handle: u64) -> Result<String, Error> {
        Ok(String::new())
    }

    fn read_stdin_text(&mut self) -> Result<String, Error> {
        Ok(String::new())
    }

    fn open_read(&mut self, _path: &str) -> Result<u64, Error> {
        Ok(1)
    }

    fn open_write(&mut self, _path: &str, _append: bool) -> Result<u64, Error> {
        Ok(2)
    }

    fn close_handle(&mut self, _handle: u64) {}

    fn path_exists(&mut self, _path: &str) -> bool {
        false
    }

    fn load_text(&mut self, path: &str) -> Result<String, Error> {
        self.files
            .get(path)
            .cloned()
            .ok_or_else(|| Error::new(ErrKind::Io, "file not found"))
    }

    fn current_dir(&mut self) -> String {
        "/".to_string()
    }

    fn format_float(&mut self, bits: u64) -> String {
        format!("{}", f64::from_bits(bits))
    }
}

fn sym(s: &str) -> Expression {
    Expression::Atom(Atom::Symbol(s.to_string()))
}

fn strv(s: &str) -> Expression {
    Expression::Atom(Atom::Str(s.to_string()))
}

fn intv(i: i64) -> Expression {
    Expression::Atom(Atom::Int(i))
}

fn nil() -> Expression {
    Expression::Atom(Atom::Nil)
}

fn tru() -> Expression {
    Expression::Atom(Atom::True)
}

fn call(items: Vec<Expression>) -> Expression {
    Expression::Vector(items)
}

fn ev(env: &mut Environment, port: &mut FakePort, e: &Expression) -> Result<Expression, Error> {
    eval(env, port, e, FUEL)
}

fn ev_ok(env: &mut Environment, port: &mut FakePort, e: &Expression) -> Expression {
    match ev(env, port, e) {
        Ok(v) => v,
        Err(er) => panic!("evaluation failed: {}", er.msg),
    }
}

fn assert_int(v: &Expression, expected: i64) {
    match v {
        Expression::Atom(Atom::Int(i)) => assert_eq!(*i, expected),
        _ => panic!("expected integer, got {}", v.to_string()),
    }
}

#[test]
fn integer_addition() {
    let mut env = build_default_environment();
    let mut port = FakePort::new();
    let form = call(vec![sym("+"), intv(1), intv(2), intv(3)]);
    let v = ev_ok(&mut env, &mut port, &form);
    assert_int(&v, 6);
}

#[test]
fn def_set_and_read_back() {
    let mut env = build_default_environment();
    let mut port = FakePort::new();
    ev_ok(&mut env, &mut port, &call(vec![sym("def"), sym("x"), intv(5)]));
    ev_ok(
        &mut env,
        &mut port,
        &call(vec![sym("set"), sym("x"), call(vec![sym("+"), sym("x"), intv(1)])]),
    );
    let v = ev_ok(&mut env, &mut port, &sym("x"));
    assert_int(&v, 6);
}

#[test]
fn when_macro_with_splice() {
    let mut env = build_default_environment();
    let mut port = FakePort::new();
    // (def when (macro (c . body) (bquote (if ,c (progn ,@body) nil))))
    let params = Expression::Pair(Box::new(sym("c")), Box::new(sym("body")));
    let template = call(vec![
        sym("if"),
        sym(","),
        sym("c"),
        call(vec![sym("progn"), sym(",@"), sym("body")]),
        nil(),
    ]);
    let body = call(vec![sym("bquote"), template]);
    let mk = call(vec![sym("def"), sym("when"), call(vec![sym("macro"), params, body])]);
    ev_ok(&mut env, &mut port, &mk);
    let use_it = call(vec![sym("when"), tru(), intv(1), intv(2), intv(3)]);
    let v = ev_ok(&mut env, &mut port, &use_it);
    assert_int(&v, 3);
}

#[test]
fn recursive_factorial() {
    let mut env = build_default_environment();
    let mut port = FakePort::new();
    // (def f (fn (n) (if (= n 0) 1 (* n (f (- n 1))))))
    let body = call(vec![
        sym("if"),
        call(vec![sym("="), sym("n"), intv(0)]),
        intv(1),
        call(vec![
            sym("*"),
            sym("n"),
            call(vec![sym("f"), call(vec![sym("-"), sym("n"), intv(1)])]),
        ]),
    ]);
    let mk = call(vec![
        sym("def"),
        sym("f"),
        call(vec![sym("fn"), call(vec![sym("n")]), body]),
    ]);
    ev_ok(&mut env, &mut port, &mk);
    let v = ev_ok(&mut env, &mut port, &call(vec![sym("f"), intv(5)]));
    assert_int(&v, 120);
}

#[test]
fn get_error_materializes_errors() {
    let mut env = build_default_environment();
    let mut port = FakePort::new();
    let form = call(vec![sym("get-error"), call(vec![sym("err"), strv("boom")])]);
    let v = ev_ok(&mut env, &mut port, &form);
    match v {
        Expression::Vector(items) => {
            assert_eq!(items.len(), 2);
            assert_eq!(items[0].to_string(), ":error");
            assert_eq!(items[1].to_string(), "boom");
        }
        _ => panic!("expected error vector, got {}", v.to_string()),
    }
}

#[test]
fn namespace_create_define_and_read() {
    let mut env = build_default_environment();
    let mut port = FakePort::new();
    ev_ok(&mut env, &mut port, &call(vec![sym("ns-create"), strv("a")]));
    ev_ok(&mut env, &mut port, &call(vec![sym("def"), sym("a::x"), intv(1)]));
    ev_ok(&mut env, &mut port, &call(vec![sym("ns-enter"), strv("root")]));
    let v = ev_ok(&mut env, &mut port, &sym("a::x"));
    assert_int(&v, 1);
}

#[test]
fn quote_is_identity() {
    let mut env = build_default_environment();
    let mut port = FakePort::new();
    let x = call(vec![sym("a"), intv(1), Expression::Pair(Box::new(intv(2)), Box::new(nil()))]);
    let v = ev_ok(&mut env, &mut port, &call(vec![sym("quote"), x.duplicate()]));
    assert_eq!(v.to_string(), x.to_string());
}

#[test]
fn quasiquote_without_splices_is_identity() {
    let mut env = build_default_environment();
    let mut port = FakePort::new();
    let x = call(vec![
        sym("a"),
        call(vec![intv(1), strv("two")]),
        Expression::Pair(Box::new(sym("p")), Box::new(sym("q"))),
    ]);
    let v = ev_ok(&mut env, &mut port, &call(vec![sym("bquote"), x.duplicate()]));
    assert_eq!(v.to_string(), x.to_string());
}

#[test]
fn quasiquote_splices_bound_value() {
    let mut env = build_default_environment();
    let mut port = FakePort::new();
    ev_ok(&mut env, &mut port, &call(vec![sym("def"), sym("b"), intv(42)]));
    // `(a ,b c)
    let t = call(vec![sym("a"), sym(","), sym("b"), sym("c")]);
    let v = ev_ok(&mut env, &mut port, &call(vec![sym("bquote"), t]));
    assert_eq!(v.to_string(), "( a 42 c )");
}

#[test]
fn quasiquote_splice_appends_list() {
    let mut env = build_default_environment();
    let mut port = FakePort::new();
    // (def l '(7 8)) as a vector value
    ev_ok(
        &mut env,
        &mut port,
        &call(vec![sym("def"), sym("l"), call(vec![sym("quote"), call(vec![intv(7), intv(8)])])]),
    );
    let t = call(vec![sym("a"), sym(",@"), sym("l"), sym("c")]);
    let v = ev_ok(&mut env, &mut port, &call(vec![sym("bquote"), t]));
    assert_eq!(v.to_string(), "( a 7 8 c )");
}

#[test]
fn def_inside_lambda_stays_inside() {
    let mut env = build_default_environment();
    let mut port = FakePort::new();
    // (def f (fn () (progn (def hidden 99) hidden)))
    let body = call(vec![
        sym("progn"),
        call(vec![sym("def"), sym("hidden"), intv(99)]),
        sym("hidden"),
    ]);
    let mk = call(vec![sym("def"), sym("f"), call(vec![sym("fn"), call(vec![]), body])]);
    ev_ok(&mut env, &mut port, &mk);
    let v = ev_ok(&mut env, &mut port, &call(vec![sym("f")]));
    assert_int(&v, 99);
    // the caller's scope has no binding for `hidden`
    let r = ev(&mut env, &mut port, &sym("hidden"));
    match r {
        Err(e) => assert_eq!(e.kind, ErrKind::UnboundSymbol),
        Ok(v) => panic!("hidden leaked out of the lambda: {}", v.to_string()),
    }
}

#[test]
fn dyn_restores_binding_after_body_errors() {
    let mut env = build_default_environment();
    let mut port = FakePort::new();
    // (dyn d 1 body): while the body runs, d is dynamically bound.
    let probe = call(vec![
        sym("dyn"),
        sym("d"),
        intv(1),
        call(vec![
            sym("progn"),
            call(vec![
                sym("get-error"),
                call(vec![
                    sym("dyn"),
                    sym("d"),
                    intv(2),
                    call(vec![sym("err"), strv("boom")]),
                ]),
            ]),
            sym("d"),
        ]),
    ]);
    // after the inner dyn errors out, d must be 1 again
    let v = ev_ok(&mut env, &mut port, &probe);
    assert_int(&v, 1);
    // after the outer dyn, d is unbound again
    let r = ev(&mut env, &mut port, &sym("d"));
    assert!(matches!(r, Err(ref e) if e.kind == ErrKind::UnboundSymbol));
}

#[test]
fn truthiness_of_zero_empty_string_and_nil() {
    let mut env = build_default_environment();
    let mut port = FakePort::new();
    let qa = call(vec![sym("quote"), sym("a")]);
    let qb = call(vec![sym("quote"), sym("b")]);
    let v0 = ev_ok(
        &mut env,
        &mut port,
        &call(vec![sym("if"), intv(0), qa.duplicate(), qb.duplicate()]),
    );
    assert_eq!(v0.to_string(), "a");
    let vs = ev_ok(
        &mut env,
        &mut port,
        &call(vec![sym("if"), strv(""), qa.duplicate(), qb.duplicate()]),
    );
    assert_eq!(vs.to_string(), "a");
    let vn = ev_ok(&mut env, &mut port, &call(vec![sym("if"), nil(), qa, qb]));
    assert_eq!(vn.to_string(), "b");
}

#[test]
fn and_or_identities() {
    let mut env = build_default_environment();
    let mut port = FakePort::new();
    assert_eq!(ev_ok(&mut env, &mut port, &call(vec![sym("and")])).to_string(), "true");
    assert_eq!(ev_ok(&mut env, &mut port, &call(vec![sym("or")])).to_string(), "nil");
    assert_int(&ev_ok(&mut env, &mut port, &call(vec![sym("and"), intv(7)])), 7);
    assert_int(&ev_ok(&mut env, &mut port, &call(vec![sym("or"), intv(7)])), 7);
    // and short-circuits on nil, or picks the first truthy value
    assert_eq!(
        ev_ok(&mut env, &mut port, &call(vec![sym("and"), nil(), intv(7)])).to_string(),
        "nil"
    );
    assert_int(&ev_ok(&mut env, &mut port, &call(vec![sym("or"), nil(), intv(7)])), 7);
}

#[test]
fn pipeline_writes_through_and_counts_stages() {
    let mut env = build_default_environment();
    let mut port = FakePort::new();
    // (pipe (echo "hi"))
    let form = call(vec![sym("pipe"), call(vec![sym("echo"), strv("hi")])]);
    let v = ev_ok(&mut env, &mut port, &form);
    assert!(matches!(v, Expression::Process(_)));
    assert_eq!(port.stdout, "hi");
    assert_eq!(port.spawns.len(), 1);
    assert_eq!(port.spawns[0], vec!["echo".to_string(), "hi".to_string()]);
    assert!(!env.in_pipe);
}

#[test]
fn pipeline_feeds_output_to_next_stage() {
    let mut env = build_default_environment();
    let mut port = FakePort::new();
    // (pipe (echo "data") (cat))
    let form = call(vec![
        sym("pipe"),
        call(vec![sym("echo"), strv("data")]),
        call(vec![sym("cat")]),
    ]);
    ev_ok(&mut env, &mut port, &form);
    assert_eq!(port.spawns.len(), 2);
    assert_eq!(port.stdout, "data");
}

#[test]
fn external_command_records_job_and_status() {
    let mut env = build_default_environment();
    let mut port = FakePort::new();
    let v = ev_ok(&mut env, &mut port, &call(vec![sym("echo"), strv("out")]));
    match v {
        Expression::Process(p) => assert!(p.pid() >= 100),
        _ => panic!("expected a process value"),
    }
    // the exit status was recorded for the shell
    assert_eq!(port.vars.get("LAST_STATUS").map(String::as_str), Some("0"));
    let status = ev_ok(&mut env, &mut port, &sym("*last-status*"));
    assert_int(&status, 0);
}

#[test]
fn job_table_stays_consistent_after_wait() {
    let mut env = build_default_environment();
    let mut port = FakePort::new();
    ev_ok(&mut env, &mut port, &call(vec![sym("echo"), strv("x")]));
    // after the foreground wait, the job is reaped
    assert!(env.jobs.is_empty());
    assert!(env.stopped_procs.is_empty());
    assert!(env.procs.is_empty());
    // every stopped pid would have to belong to a stopped job
    for p in env.stopped_procs.iter() {
        assert!(env
            .jobs
            .iter()
            .any(|j| j.pids.contains(p) && matches!(j.status, slsh::environment::JobStatus::Stopped)));
    }
}

#[test]
fn err_propagates_and_version_answers() {
    let mut env = build_default_environment();
    let mut port = FakePort::new();
    let r = ev(&mut env, &mut port, &call(vec![sym("err"), strv("bad")]));
    match r {
        Err(e) => {
            assert_eq!(e.kind, ErrKind::User);
            assert_eq!(e.msg, "bad");
        }
        Ok(_) => panic!("err must raise"),
    }
    let v = ev_ok(&mut env, &mut port, &call(vec![sym("version")]));
    assert_eq!(v.to_string(), "slsh 0.9.0");
}

#[test]
fn arity_and_type_errors() {
    let mut env = build_default_environment();
    let mut port = FakePort::new();
    let r = ev(&mut env, &mut port, &call(vec![sym("quote")]));
    assert!(matches!(r, Err(ref e) if e.kind == ErrKind::ArityMismatch));
    let r2 = ev(&mut env, &mut port, &call(vec![sym("+"), strv("x")]));
    assert!(matches!(r2, Err(ref e) if e.kind == ErrKind::TypeMismatch));
    let r3 = ev(&mut env, &mut port, &call(vec![intv(1), intv(2)]));
    assert!(matches!(r3, Err(ref e) if e.kind == ErrKind::NotCallable));
    let r4 = ev(&mut env, &mut port, &sym("no-such-name"));
    assert!(matches!(r4, Err(ref e) if e.kind == ErrKind::UnboundSymbol));
}

#[test]
fn arithmetic_overflow_is_an_error() {
    let mut env = build_default_environment();
    let mut port = FakePort::new();
    let r = ev(
        &mut env,
        &mut port,
        &call(vec![sym("+"), intv(i64::MAX), intv(1)]),
    );
    assert!(matches!(r, Err(ref e) if e.kind == ErrKind::TypeMismatch));
    let v = ev_ok(&mut env, &mut port, &call(vec![sym("-"), intv(5), intv(7)]));
    assert_int(&v, -2);
    let v2 = ev_ok(&mut env, &mut port, &call(vec![sym("-"), intv(5)]));
    assert_int(&v2, -5);
    let v3 = ev_ok(&mut env, &mut port, &call(vec![sym("*"), intv(6), intv(7)]));
    assert_int(&v3, 42);
}

#[test]
fn comparisons_chain() {
    let mut env = build_default_environment();
    let mut port = FakePort::new();
    let t = ev_ok(&mut env, &mut port, &call(vec![sym("<"), intv(1), intv(2), intv(3)]));
    assert_eq!(t.to_string(), "true");
    let f = ev_ok(&mut env, &mut port, &call(vec![sym("<"), intv(1), intv(3), intv(2)]));
    assert_eq!(f.to_string(), "nil");
    let se = ev_ok(&mut env, &mut port, &call(vec![sym("="), strv("ab"), strv("ab")]));
    assert_eq!(se.to_string(), "true");
    let sn = ev_ok(&mut env, &mut port, &call(vec![sym("="), strv("ab"), strv("cd")]));
    assert_eq!(sn.to_string(), "nil");
}

#[test]
fn length_counts_characters_elements_and_chain_links() {
    let mut env = build_default_environment();
    let mut port = FakePort::new();
    assert_int(&ev_ok(&mut env, &mut port, &call(vec![sym("length"), strv("abcd")])), 4);
    assert_int(&ev_ok(&mut env, &mut port, &call(vec![sym("length"), nil()])), 0);
    let lst = call(vec![sym("quote"), call(vec![intv(1), intv(2), intv(3)])]);
    assert_int(&ev_ok(&mut env, &mut port, &call(vec![sym("length"), lst])), 3);
    assert_int(&ev_ok(&mut env, &mut port, &call(vec![sym("length"), intv(9)])), 1);
}

#[test]
fn gensym_counts_up_and_undef_removes() {
    let mut env = build_default_environment();
    let mut port = FakePort::new();
    let g1 = ev_ok(&mut env, &mut port, &call(vec![sym("gensym")]));
    let g2 = ev_ok(&mut env, &mut port, &call(vec![sym("gensym")]));
    assert_eq!(g1.to_string(), "gs::1");
    assert_eq!(g2.to_string(), "gs::2");
    ev_ok(&mut env, &mut port, &call(vec![sym("def"), sym("tmp"), intv(1)]));
    let d = ev_ok(&mut env, &mut port, &call(vec![sym("def?"), call(vec![sym("quote"), sym("tmp")])]));
    assert_eq!(d.to_string(), "true");
    ev_ok(&mut env, &mut port, &call(vec![sym("undef"), sym("tmp")]));
    let d2 = ev_ok(&mut env, &mut port, &call(vec![sym("def?"), call(vec![sym("quote"), sym("tmp")])]));
    assert_eq!(d2.to_string(), "nil");
}

#[test]
fn recur_re_enters_lambda_body() {
    let mut env = build_default_environment();
    let mut port = FakePort::new();
    // (def sum (fn (n acc) (if (= n 0) acc (recur (- n 1) (+ acc n)))))
    let body = call(vec![
        sym("if"),
        call(vec![sym("="), sym("n"), intv(0)]),
        sym("acc"),
        call(vec![
            sym("recur"),
            call(vec![sym("-"), sym("n"), intv(1)]),
            call(vec![sym("+"), sym("acc"), sym("n")]),
        ]),
    ]);
    let mk = call(vec![
        sym("def"),
        sym("sum"),
        call(vec![sym("fn"), call(vec![sym("n"), sym("acc")]), body]),
    ]);
    ev_ok(&mut env, &mut port, &mk);
    let v = ev_ok(&mut env, &mut port, &call(vec![sym("sum"), intv(10), intv(0)]));
    assert_int(&v, 55);
}

#[test]
fn optional_and_rest_parameters() {
    let mut env = build_default_environment();
    let mut port = FakePort::new();
    // (def g (fn (a &optional b &rest r) (length r)))
    let params = call(vec![sym("a"), sym("&optional"), sym("b"), sym("&rest"), sym("r")]);
    let mk = call(vec![
        sym("def"),
        sym("g"),
        call(vec![sym("fn"), params, call(vec![sym("length"), sym("r")])]),
    ]);
    ev_ok(&mut env, &mut port, &mk);
    let v = ev_ok(
        &mut env,
        &mut port,
        &call(vec![sym("g"), intv(1), intv(2), intv(3), intv(4)]),
    );
    assert_int(&v, 2);
    // a missing required argument is an arity error
    let r = ev(&mut env, &mut port, &call(vec![sym("g")]));
    assert!(matches!(r, Err(ref e) if e.kind == ErrKind::ArityMismatch));
}

#[test]
fn expand_macro_shows_expansion_without_evaluating() {
    let mut env = build_default_environment();
    let mut port = FakePort::new();
    let params = call(vec![sym("x")]);
    let template = call(vec![sym("+"), sym(","), sym("x"), intv(1)]);
    let body = call(vec![sym("bquote"), template]);
    let mk = call(vec![sym("def"), sym("inc"), call(vec![sym("macro"), params, body])]);
    ev_ok(&mut env, &mut port, &mk);
    let ex = ev_ok(
        &mut env,
        &mut port,
        &call(vec![sym("expand-macro"), call(vec![sym("inc"), intv(4)])]),
    );
    assert_eq!(ex.to_string(), "( + 4 1 )");
    let v = ev_ok(&mut env, &mut port, &call(vec![sym("inc"), intv(4)]));
    assert_int(&v, 5);
}

#[test]
fn fncall_and_apply_spread_arguments() {
    let mut env = build_default_environment();
    let mut port = FakePort::new();
    let v = ev_ok(
        &mut env,
        &mut port,
        &call(vec![sym("fncall"), call(vec![sym("quote"), sym("+")]), intv(1), intv(2)]),
    );
    assert_int(&v, 3);
    let lst = call(vec![sym("quote"), call(vec![intv(3), intv(4)])]);
    let v2 = ev_ok(
        &mut env,
        &mut port,
        &call(vec![sym("apply"), call(vec![sym("quote"), sym("+")]), intv(1), lst]),
    );
    assert_int(&v2, 8);
}

#[test]
fn export_sets_and_reads_environment_variables() {
    let mut env = build_default_environment();
    let mut port = FakePort::new();
    ev_ok(
        &mut env,
        &mut port,
        &call(vec![sym("export"), sym("GREETING"), strv("hello")]),
    );
    assert_eq!(port.vars.get("GREETING").map(String::as_str), Some("hello"));
    let v = ev_ok(&mut env, &mut port, &sym("$GREETING"));
    assert_eq!(v.to_string(), "hello");
    ev_ok(&mut env, &mut port, &call(vec![sym("unexport"), sym("GREETING")]));
    assert!(port.vars.get("GREETING").is_none());
}

#[test]
fn namespace_listing_and_predicates() {
    let mut env = build_default_environment();
    let mut port = FakePort::new();
    ev_ok(&mut env, &mut port, &call(vec![sym("ns-create"), strv("tools")]));
    let e1 = ev_ok(&mut env, &mut port, &call(vec![sym("ns-exists?"), strv("tools")]));
    assert_eq!(e1.to_string(), "true");
    let e2 = ev_ok(&mut env, &mut port, &call(vec![sym("ns-exists?"), strv("nope")]));
    assert_eq!(e2.to_string(), "nil");
    let ls = ev_ok(&mut env, &mut port, &call(vec![sym("ns-list")]));
    let text = ls.to_string();
    assert!(text.contains("root"));
    assert!(text.contains("tools"));
    // creating the same namespace twice fails
    let r = ev(&mut env, &mut port, &call(vec![sym("ns-create"), strv("tools")]));
    assert!(matches!(r, Err(ref e) if e.kind == ErrKind::Namespace));
    // entering an unknown namespace fails
    let r2 = ev(&mut env, &mut port, &call(vec![sym("ns-enter"), strv("nope")]));
    assert!(matches!(r2, Err(ref e) if e.kind == ErrKind::Namespace));
}

#[test]
fn ns_create_refused_inside_lambda() {
    let mut env = build_default_environment();
    let mut port = FakePort::new();
    let body = call(vec![sym("ns-create"), strv("inner")]);
    let mk = call(vec![sym("def"), sym("f"), call(vec![sym("fn"), call(vec![]), body])]);
    ev_ok(&mut env, &mut port, &mk);
    let r = ev(&mut env, &mut port, &call(vec![sym("f")]));
    assert!(matches!(r, Err(ref e) if e.kind == ErrKind::Namespace));
}

#[test]
fn unwind_protect_runs_cleanup_and_keeps_result() {
    let mut env = build_default_environment();
    let mut port = FakePort::new();
    let form = call(vec![
        sym("unwind-protect"),
        call(vec![sym("err"), strv("primary")]),
        call(vec![sym("def"), sym("cleaned"), intv(1)]),
    ]);
    let r = ev(&mut env, &mut port, &form);
    assert!(matches!(r, Err(ref e) if e.msg == "primary"));
    // the cleanup form ran
    assert_int(&ev_ok(&mut env, &mut port, &sym("cleaned")), 1);
}

#[test]
fn loose_symbols_turn_unbound_names_into_strings() {
    let mut env = build_default_environment();
    let mut port = FakePort::new();
    let v = ev_ok(&mut env, &mut port, &call(vec![sym("loose-symbols"), sym("free-name")]));
    assert_eq!(v.to_string(), "free-name");
    assert!(matches!(v, Expression::Atom(Atom::Str(_))));
    // and the mode is restored afterwards
    let r = ev(&mut env, &mut port, &sym("free-name"));
    assert!(matches!(r, Err(ref e) if e.kind == ErrKind::UnboundSymbol));
}

#[test]
fn form_gate_blocks_external_commands() {
    let mut env = build_default_environment();
    let mut port = FakePort::new();
    let r = ev(
        &mut env,
        &mut port,
        &call(vec![sym("form"), call(vec![sym("no-such-command")])]),
    );
    assert!(matches!(r, Err(ref e) if e.kind == ErrKind::UnboundSymbol));
    assert!(port.spawns.is_empty());
}

#[test]
fn exit_records_the_pending_code() {
    let mut env = build_default_environment();
    let mut port = FakePort::new();
    ev_ok(&mut env, &mut port, &call(vec![sym("exit"), intv(3)]));
    assert_eq!(env.exit_code, Some(3));
}

#[test]
fn to_symbol_converts_strings_and_ints() {
    let mut env = build_default_environment();
    let mut port = FakePort::new();
    let v = ev_ok(&mut env, &mut port, &call(vec![sym("to-symbol"), strv("name")]));
    assert!(matches!(v, Expression::Atom(Atom::Symbol(ref s)) if s == "name"));
    let v2 = ev_ok(&mut env, &mut port, &call(vec![sym("to-symbol"), intv(-7)]));
    assert!(matches!(v2, Expression::Atom(Atom::Symbol(ref s)) if s == "-7"));
}

#[test]
fn format_concatenates_text() {
    let mut env = build_default_environment();
    let mut port = FakePort::new();
    let v = ev_ok(
        &mut env,
        &mut port,
        &call(vec![sym("format"), strv("n = "), intv(12)]),
    );
    assert!(matches!(v, Expression::Atom(Atom::Str(ref s)) if s == "n = 12"));
}

#[test]
fn println_writes_to_captured_stdout() {
    let mut env = build_default_environment();
    let mut port = FakePort::new();
    ev_ok(&mut env, &mut port, &call(vec![sym("println"), strv("hello")]));
    assert_eq!(port.stdout, "hello\n");
    ev_ok(&mut env, &mut port, &call(vec![sym("eprintln"), strv("oops")]));
    assert_eq!(port.stderr, "oops\n");
}

#[test]
fn global_scope_predicate() {
    let mut env = build_default_environment();
    let mut port = FakePort::new();
    let v = ev_ok(&mut env, &mut port, &call(vec![sym("global-scope?")]));
    assert_eq!(v.to_string(), "true");
    let body = call(vec![sym("global-scope?")]);
    let mk = call(vec![sym("def"), sym("f"), call(vec![sym("fn"), call(vec![]), body])]);
    ev_ok(&mut env, &mut port, &mk);
    let v2 = ev_ok(&mut env, &mut port, &call(vec![sym("f")]));
    assert_eq!(v2.to_string(), "nil");
}

#[test]
fn run_one_script_binds_args() {
    let mut port = FakePort::new();
    port.files.insert("s.lisp".to_string(), "ignored".to_string());
    // the fake reader refuses, so the script fails to parse — but with a
    // parse error, not a crash, and the file was found
    let r = slsh::shell::run_one_script(&mut port, "s.lisp", &vec!["one".to_string()], FUEL);
    assert!(matches!(r, Err(ref e) if e.kind == ErrKind::Parse));
    let r2 = slsh::shell::run_one_script(&mut port, "missing.lisp", &vec![], FUEL);
    assert!(matches!(r2, Err(ref e) if e.kind == ErrKind::Io));
}

#[test]
fn exhausted_budget_is_an_interruption() {
    let mut env = build_default_environment();
    let mut port = FakePort::new();
    // an endless self-call runs out of budget instead of overflowing
    let body = call(vec![sym("f")]);
    let mk = call(vec![sym("def"), sym("f"), call(vec![sym("fn"), call(vec![]), body])]);
    ev_ok(&mut env, &mut port, &mk);
    let r = eval(&mut env, &mut port, &call(vec![sym("f")]), 300);
    assert!(matches!(r, Err(ref e) if e.kind == ErrKind::Interrupted));
}

#[test]
fn nested_pipelines_are_rejected() {
    let mut env = build_default_environment();
    let mut port = FakePort::new();
    let inner = call(vec![sym("pipe"), call(vec![sym("echo"), strv("x")])]);
    let outer = call(vec![sym("pipe"), inner]);
    let r = ev(&mut env, &mut port, &outer);
    assert!(matches!(r, Err(ref e) if e.kind == ErrKind::Process));
    assert!(!env.in_pipe);
}

#[test]
fn empty_vector_evaluates_to_itself() {
    let mut env = build_default_environment();
    let mut port = FakePort::new();
    let v = ev_ok(&mut env, &mut port, &call(vec![]));
    assert_eq!(v.to_string(), "( )");
}

#[test]
fn eval_form_reevaluates_values() {
    let mut env = build_default_environment();
    let mut port = FakePort::new();
    // (eval 'sum-form) where sum-form is the list (+ 1 2)
    let quoted = call(vec![sym("quote"), call(vec![sym("+"), intv(1), intv(2)])]);
    let v = ev_ok(&mut env, &mut port, &call(vec![sym("eval"), quoted]));
    assert_int(&v, 3);
}

#[test]
fn error_stack_adds_context_lines() {
    let mut env = build_default_environment();
    let mut port = FakePort::new();
    ev_ok(&mut env, &mut port, &call(vec![sym("error-stack-on")]));
    let r = ev(
        &mut env,
        &mut port,
        &call(vec![sym("progn"), call(vec![sym("err"), strv("inner")])]),
    );
    match r {
        Err(e) => {
            assert!(e.msg.starts_with("inner"));
            assert!(e.msg.contains("while evaluating"));
            assert!(e.msg.contains("progn"));
        }
        Ok(_) => panic!("err must raise"),
    }
    ev_ok(&mut env, &mut port, &call(vec![sym("error-stack-off")]));
    let r2 = ev(&mut env, &mut port, &call(vec![sym("err"), strv("plain")]));
    assert!(matches!(r2, Err(ref e) if e.msg == "plain"));
}

#[test]
fn make_string_and_writef() {
    let mut env = build_default_environment();
    let mut port = FakePort::new();
    let v = strv("payload");
    assert_eq!(v.make_string(&mut port).unwrap(), "payload");
    let n = intv(41);
    assert_eq!(n.make_string(&mut port).unwrap(), "41");
    n.write(&mut env, &mut port).unwrap();
    assert_eq!(port.stdout, "41");
    // a finished process relays its captured output and leaves the tables
    port.outputs.insert(7, "captured".to_string());
    let p = Expression::Process(slsh::types::ProcessState::Over(7, 0));
    p.writef(&mut env, &mut port, FileState::Stdout).unwrap();
    assert_eq!(port.stdout, "41captured");
}

#[test]
fn floats_print_as_numbers_through_the_port() {
    let mut env = build_default_environment();
    let mut port = FakePort::new();
    let f = Expression::Atom(Atom::Float((3.5f64).to_bits()));
    ev_ok(&mut env, &mut port, &call(vec![sym("println"), f]));
    assert_eq!(port.stdout, "3.5\n");
    let g = Expression::Atom(Atom::Float((0.25f64).to_bits()));
    let v = ev_ok(&mut env, &mut port, &call(vec![sym("format"), g]));
    assert!(matches!(v, Expression::Atom(Atom::Str(ref s)) if s == "0.25"));
    // a float handed to an external command arrives as its number text
    let h = Expression::Atom(Atom::Float((1.5f64).to_bits()));
    ev_ok(&mut env, &mut port, &call(vec![sym("echo"), h]));
    assert_eq!(port.spawns.last().unwrap(), &vec!["echo".to_string(), "1.5".to_string()]);
}
