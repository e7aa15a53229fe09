//! The value universe of the language: atoms, lists, pairs, callables,
//! process and file handles, together with the mathematical model (`Vx`)
//! that all contracts in this crate are stated over.

use vstd::prelude::*;

verus! {

/// Parse failure reported by the reader front end.
#[derive(Clone, Debug)]
pub struct ParseError {
    pub reason: String,
}

/// The kinds of error the evaluator can produce.
#[derive(Clone, Copy, Debug, PartialEq, Eq, Structural)]
pub enum ErrKind {
    Parse,
    UnboundSymbol,
    NotCallable,
    ArityMismatch,
    TypeMismatch,
    Namespace,
    Io,
    Process,
    Interrupted,
    ExitRequested,
    User,
}

/// An evaluation error: a kind plus a human-readable message.
#[derive(Clone, Debug)]
pub struct Error {
    pub kind: ErrKind,
    pub msg: String,
}

impl Error {
    pub fn new(kind: ErrKind, msg: &str) -> (r: Error)
        ensures
            r.kind == kind,
            r.msg@ == msg@,
    {
        Error { kind, msg: msg.to_owned() }
    }
}

/// State of an external child process: still running, or exited with a status.
#[derive(Clone, Copy, Debug, PartialEq, Eq, Structural)]
pub enum ProcessState {
    Running(u32),
    Over(u32, i32),
}

impl ProcessState {
    /// The process id, whichever state the process is in.
    pub fn pid(&self) -> (p: u32)
        ensures
            p == self.spec_pid(),
    {
        match self {
            ProcessState::Running(pid) => *pid,
            ProcessState::Over(pid, _) => *pid,
        }
    }

    pub open spec fn spec_pid(&self) -> u32 {
        match self {
            ProcessState::Running(pid) => *pid,
            ProcessState::Over(pid, _) => *pid,
        }
    }
}

/// A file value.  Open files are named by opaque handles that the
/// surrounding program's `SysPort` implementation owns.
#[derive(Clone, Copy, Debug, PartialEq, Eq, Structural)]
pub enum FileState {
    Stdin,
    Stdout,
    Stderr,
    Read(u64),
    Write(u64),
    Closed,
}

/// Every native callable the evaluator can dispatch to.  "Special" forms
/// (see [`BuiltinId::spec_is_special`]) receive their argument forms unevaluated.
#[derive(Clone, Copy, Debug, PartialEq, Eq, Structural)]
pub enum BuiltinId {
    Eval,
    FnCall,
    Apply,
    UnwindProtect,
    ErrForm,
    Load,
    Length,
    If,
    Print,
    Println,
    Eprint,
    Eprintln,
    Format,
    Progn,
    SetVar,
    Export,
    Unexport,
    Def,
    Undef,
    Dyn,
    GlobalScope,
    ToSymbol,
    Fn,
    Quote,
    BQuote,
    And,
    Or,
    Not,
    IsDef,
    Macro,
    ExpandMacro,
    Recur,
    Gensym,
    Jobs,
    Bg,
    Fg,
    Wait,
    Pid,
    Pipe,
    Version,
    Command,
    RunBg,
    Form,
    LooseSymbols,
    Exit,
    NsCreate,
    NsEnter,
    NsExists,
    NsList,
    ErrorStackOn,
    ErrorStackOff,
    GetError,
    Equal,
    Greater,
    GreaterEqual,
    Less,
    LessEqual,
    Add,
    Sub,
    Mul,
    ErrNull,
    FileRdr,
    StdoutTo,
    StderrTo,
}

/// A lambda: parameter form, body form, and the scope (an index into the
/// environment's scope arena) captured at creation time.
#[derive(Debug)]
pub struct Lambda {
    pub params: Box<Expression>,
    pub body: Box<Expression>,
    pub capture: usize,
}

/// A macro: like a lambda but with no captured scope; its arguments arrive
/// unevaluated and its result is evaluated again at the call site.
#[derive(Debug)]
pub struct Macro {
    pub params: Box<Expression>,
    pub body: Box<Expression>,
}

/// A non-composite value.
#[derive(Debug)]
pub enum Atom {
    Nil,
    True,
    /// An IEEE-754 double, carried as its raw bit pattern.  The core never
    /// computes with floats; it only stores and moves them.
    Float(u64),
    Int(i64),
    Symbol(String),
    Str(String),
    Lambda(Lambda),
    Macro(Macro),
}

/// A value of the language.
#[derive(Debug)]
pub enum Expression {
    Atom(Atom),
    Vector(Vec<Expression>),
    Pair(Box<Expression>, Box<Expression>),
    /// A mapping from string keys to values.
    Table(Vec<(String, Expression)>),
    Builtin(BuiltinId),
    Process(ProcessState),
    File(FileState),
}

/// The mathematical model of a value: strings become character sequences,
/// vectors become `Seq`, and all sharing disappears.  Contracts in this
/// crate compare values at this level.
pub enum Vx {
    Nil,
    True,
    Float(u64),
    Int(i64),
    Sym(Seq<char>),
    Str(Seq<char>),
    Lambda(Box<Vx>, Box<Vx>, int),
    Macro(Box<Vx>, Box<Vx>),
    Vector(Seq<Vx>),
    Pair(Box<Vx>, Box<Vx>),
    Table(Seq<(Seq<char>, Vx)>),
    Builtin(BuiltinId),
    Process(ProcessState),
    File(FileState),
}

pub open spec fn v_expr(e: Expression) -> Vx
    decreases e,
{
    match e {
        Expression::Atom(Atom::Nil) => Vx::Nil,
        Expression::Atom(Atom::True) => Vx::True,
        Expression::Atom(Atom::Float(b)) => Vx::Float(b),
        Expression::Atom(Atom::Int(i)) => Vx::Int(i),
        Expression::Atom(Atom::Symbol(s)) => Vx::Sym(s@),
        Expression::Atom(Atom::Str(s)) => Vx::Str(s@),
        Expression::Atom(Atom::Lambda(l)) => Vx::Lambda(
            Box::new(v_expr(*l.params)),
            Box::new(v_expr(*l.body)),
            l.capture as int,
        ),
        Expression::Atom(Atom::Macro(m)) => Vx::Macro(
            Box::new(v_expr(*m.params)),
            Box::new(v_expr(*m.body)),
        ),
        Expression::Vector(l) => Vx::Vector(v_seq(l@)),
        Expression::Pair(a, b) => Vx::Pair(Box::new(v_expr(*a)), Box::new(v_expr(*b))),
        Expression::Table(t) => Vx::Table(v_tab(t@)),
        Expression::Builtin(b) => Vx::Builtin(b),
        Expression::Process(p) => Vx::Process(p),
        Expression::File(f) => Vx::File(f),
    }
}

pub open spec fn v_seq(s: Seq<Expression>) -> Seq<Vx>
    decreases s,
{
    if s.len() == 0 {
        Seq::empty()
    } else {
        v_seq(s.drop_last()).push(v_expr(s.last()))
    }
}

pub open spec fn v_tab(s: Seq<(String, Expression)>) -> Seq<(Seq<char>, Vx)>
    decreases s,
{
    if s.len() == 0 {
        Seq::empty()
    } else {
        v_tab(s.drop_last()).push((s.last().0@, v_expr(s.last().1)))
    }
}

impl View for Expression {
    type V = Vx;

    open spec fn view(&self) -> Vx {
        v_expr(*self)
    }
}

impl View for Atom {
    type V = Vx;

    open spec fn view(&self) -> Vx {
        v_expr(Expression::Atom(*self))
    }
}

pub broadcast proof fn lemma_v_seq_len(s: Seq<Expression>)
    ensures
        #[trigger] v_seq(s).len() == s.len(),
    decreases s,
{
    if s.len() > 0 {
        lemma_v_seq_len(s.drop_last());
    }
}

pub broadcast proof fn lemma_v_seq_index(s: Seq<Expression>, i: int)
    requires
        0 <= i < s.len(),
    ensures
        #[trigger] v_seq(s)[i] == v_expr(s[i]),
    decreases s,
{
    lemma_v_seq_len(s);
    if i < s.len() - 1 {
        lemma_v_seq_index(s.drop_last(), i);
    }
}

pub broadcast proof fn lemma_v_tab_len(s: Seq<(String, Expression)>)
    ensures
        #[trigger] v_tab(s).len() == s.len(),
    decreases s,
{
    if s.len() > 0 {
        lemma_v_tab_len(s.drop_last());
    }
}

pub broadcast proof fn lemma_v_tab_index(s: Seq<(String, Expression)>, i: int)
    requires
        0 <= i < s.len(),
    ensures
        #[trigger] v_tab(s)[i] == (s[i].0@, v_expr(s[i].1)),
    decreases s,
{
    lemma_v_tab_len(s);
    if i < s.len() - 1 {
        lemma_v_tab_index(s.drop_last(), i);
    }
}

/// Truthiness of the language: only `nil` is false; `0`, `""` and every
/// other value are true.
pub open spec fn spec_truthy(v: Vx) -> bool {
    v != Vx::Nil
}

impl Expression {
    /// Executable truthiness test.
    pub fn truthy(&self) -> (r: bool)
        ensures
            r == spec_truthy(self@),
    {
        match self {
            Expression::Atom(Atom::Nil) => false,
            _ => true,
        }
    }
}


impl BuiltinId {
    /// Special forms receive their argument forms unevaluated and decide
    /// themselves what to evaluate.  In this dialect every native callable
    /// does its own argument evaluation, so they are all special in that
    /// sense; the flag records which ones must never pre-evaluate because
    /// they treat arguments as syntax (quotation, binding forms, bodies).
    pub open spec fn spec_is_special(self) -> bool {
        match self {
            BuiltinId::If
            | BuiltinId::Progn
            | BuiltinId::Quote
            | BuiltinId::BQuote
            | BuiltinId::And
            | BuiltinId::Or
            | BuiltinId::ExpandMacro
            | BuiltinId::Command
            | BuiltinId::RunBg
            | BuiltinId::Form
            | BuiltinId::LooseSymbols => true,
            _ => false,
        }
    }
}

impl Expression {
    /// Structure-preserving deep copy: the result has exactly the same model.
    pub fn duplicate(&self) -> (r: Expression)
        ensures
            r@ == self@,
        decreases self,
    {
        match self {
            Expression::Atom(Atom::Nil) => Expression::Atom(Atom::Nil),
            Expression::Atom(Atom::True) => Expression::Atom(Atom::True),
            Expression::Atom(Atom::Float(b)) => Expression::Atom(Atom::Float(*b)),
            Expression::Atom(Atom::Int(i)) => Expression::Atom(Atom::Int(*i)),
            Expression::Atom(Atom::Symbol(s)) => Expression::Atom(Atom::Symbol(s.clone())),
            Expression::Atom(Atom::Str(s)) => Expression::Atom(Atom::Str(s.clone())),
            Expression::Atom(Atom::Lambda(l)) => Expression::Atom(Atom::Lambda(Lambda {
                params: Box::new(l.params.duplicate()),
                body: Box::new(l.body.duplicate()),
                capture: l.capture,
            })),
            Expression::Atom(Atom::Macro(m)) => Expression::Atom(Atom::Macro(Macro {
                params: Box::new(m.params.duplicate()),
                body: Box::new(m.body.duplicate()),
            })),
            Expression::Vector(l) => {
                let mut out: Vec<Expression> = Vec::new();
                let n = l.len();
                let mut i: usize = 0;
                #[verifier::loop_isolation(false)]
                while i < n
                    invariant
                        n == l@.len(),
                        i <= n,
                        out@.len() == i,
                        forall|j: int| 0 <= j < i ==> v_expr(#[trigger] out@[j]) == v_expr(l@[j]),
                    decreases n - i,
                {
                    let e = &l[i];
                    proof {
                        assert(decreases_to!(*self => *e));
                    }
                    out.push(e.duplicate());
                    i += 1;
                }
                proof {
                    broadcast use lemma_v_seq_len, lemma_v_seq_index;

                    assert(v_seq(out@) =~= v_seq(l@));
                }
                Expression::Vector(out)
            },
            Expression::Pair(a, b) => Expression::Pair(
                Box::new(a.duplicate()),
                Box::new(b.duplicate()),
            ),
            Expression::Table(t) => {
                let mut out: Vec<(String, Expression)> = Vec::new();
                let n = t.len();
                let mut i: usize = 0;
                #[verifier::loop_isolation(false)]
                while i < n
                    invariant
                        n == t@.len(),
                        i <= n,
                        out@.len() == i,
                        forall|j: int| 0 <= j < i ==> (#[trigger] out@[j]).0@ == t@[j].0@
                            && v_expr(out@[j].1) == v_expr(t@[j].1),
                    decreases n - i,
                {
                    let kv = &t[i];
                    proof {
                        assert(decreases_to!(*self => kv.1));
                    }
                    out.push((kv.0.clone(), kv.1.duplicate()));
                    i += 1;
                }
                proof {
                    broadcast use lemma_v_tab_len, lemma_v_tab_index;

                    assert(v_tab(out@) =~= v_tab(t@));
                }
                Expression::Table(out)
            },
            Expression::Builtin(b) => Expression::Builtin(*b),
            Expression::Process(p) => Expression::Process(*p),
            Expression::File(f) => Expression::File(*f),
        }
    }
}


/// The elements of a proper pair chain (`nil`-terminated), if it is one.
pub open spec fn chain_elems(v: Vx) -> Option<Seq<Vx>>
    decreases v,
{
    match v {
        Vx::Nil => Some(Seq::empty()),
        Vx::Pair(a, d) => match chain_elems(*d) {
            Some(r) => Some(seq![*a] + r),
            None => None,
        },
        _ => None,
    }
}

impl Expression {
    /// Collect a proper pair chain into a vector of copies of its
    /// elements; `None` when the value is not a proper chain.
    pub fn collect_chain(&self) -> (r: Option<Vec<Expression>>)
        ensures
            match r {
                Some(v) => chain_elems(self@) matches Some(vs) && v_seq(v@) == vs,
                None => chain_elems(self@) is None,
            },
        decreases self,
    {
        match self {
            Expression::Atom(Atom::Nil) => {
                let out: Vec<Expression> = Vec::new();
                proof {
                    assert(v_seq(out@) =~= Seq::<Vx>::empty());
                }
                Some(out)
            },
            Expression::Pair(a, d) => {
                match d.collect_chain() {
                    Some(mut rest) => {
                        rest.insert(0, a.duplicate());
                        proof {
                            broadcast use lemma_v_seq_len, lemma_v_seq_index;

                            let vs = chain_elems(v_expr(**d))->Some_0;
                            assert(v_seq(rest@) =~= seq![v_expr(**a)] + vs);
                        }
                        Some(rest)
                    },
                    None => None,
                }
            },
            _ => None,
        }
    }
}


/// The printed form of a value, mirroring the interactive printer:
/// vectors as `( … )`, proper pair chains as `#( … )`, dotted pairs as
/// `( a . b )`.  Floats are opaque bit patterns to the core, so this pure
/// printer shows them as a marker; the text of a float comes from the
/// port's `format_float` wherever a port is at hand (string coercion,
/// printing, external command arguments).
pub open spec fn render(v: Vx) -> Seq<char>
    decreases v, 1int,
{
    match v {
        Vx::Nil => "nil"@,
        Vx::True => "true"@,
        Vx::Float(_) => "#<float>"@,
        Vx::Int(i) => crate::strutil::int_str(i as int),
        Vx::Sym(s) => s,
        Vx::Str(s) => s,
        Vx::Lambda(p, b, _) => "Lambda ("@ + render(*p) + ") ("@ + render(*b) + ")"@,
        Vx::Macro(p, b) => "Macro ("@ + render(*p) + ") ("@ + render(*b) + ")"@,
        Vx::Vector(es) => "( "@ + render_items(es) + ")"@,
        Vx::Pair(a, d) => match chain_elems(v) {
            Some(es) => "#( "@ + render_chain_items(v) + ")"@,
            None => "( "@ + render(*a) + " . "@ + render(*d) + " )"@,
        },
        Vx::Table(_) => "#<hash-map>"@,
        Vx::Builtin(_) => "Func"@,
        Vx::Process(p) => crate::strutil::dec_str(p.spec_pid() as int),
        Vx::File(_) => "File"@,
    }
}

/// Each element's printed form followed by one space.
pub open spec fn render_items(es: Seq<Vx>) -> Seq<char>
    decreases es, 0int,
{
    if es.len() == 0 {
        Seq::empty()
    } else {
        render_items(es.drop_last()) + render(es.last()) + " "@
    }
}

/// The printed elements of a proper pair chain.
pub open spec fn render_chain_items(v: Vx) -> Seq<char>
    decreases v, 0int,
{
    match v {
        Vx::Pair(a, d) => render(*a) + " "@ + render_chain_items(*d),
        _ => Seq::empty(),
    }
}

impl Expression {
    /// Render the value as display text.
    pub fn to_string(&self) -> (s: String)
        ensures
            s@ == render(self@),
        decreases self, 1int,
    {
        proof {
            reveal_strlit("nil");
            reveal_strlit("true");
            reveal_strlit("#<float>");
            reveal_strlit("#<hash-map>");
            reveal_strlit("Func");
            reveal_strlit("File");
            reveal_strlit("Lambda (");
            reveal_strlit("Macro (");
            reveal_strlit(") (");
            reveal_strlit(")");
            reveal_strlit("( ");
            reveal_strlit("#( ");
            reveal_strlit(" . ");
            reveal_strlit(" )");
            reveal_strlit(" ");
        }
        match self {
            Expression::Atom(Atom::Nil) => String::from_str("nil"),
            Expression::Atom(Atom::True) => String::from_str("true"),
            Expression::Atom(Atom::Float(_)) => String::from_str("#<float>"),
            Expression::Atom(Atom::Int(i)) => crate::strutil::i64_to_string(*i),
            Expression::Atom(Atom::Symbol(s)) => s.clone(),
            Expression::Atom(Atom::Str(s)) => s.clone(),
            Expression::Atom(Atom::Lambda(l)) => {
                let mut out = String::from_str("Lambda (");
                let ps = l.params.to_string();
                out.append(ps.as_str());
                out.append(") (");
                let bs = l.body.to_string();
                out.append(bs.as_str());
                out.append(")");
                out
            },
            Expression::Atom(Atom::Macro(m)) => {
                let mut out = String::from_str("Macro (");
                let ps = m.params.to_string();
                out.append(ps.as_str());
                out.append(") (");
                let bs = m.body.to_string();
                out.append(bs.as_str());
                out.append(")");
                out
            },
            Expression::Vector(l) => {
                let mut out = String::from_str("( ");
                proof {
                    lemma_v_seq_len(l@);
                    assert(v_seq(l@).subrange(0, 0) =~= Seq::<Vx>::empty());
                    assert(out@ =~= "( "@ + render_items(v_seq(l@).subrange(0, 0)));
                }
                let mut i: usize = 0;
                #[verifier::loop_isolation(false)]
                while i < l.len()
                    invariant
                        i <= l@.len(),
                        out@ == "( "@ + render_items(v_seq(l@).subrange(0, i as int)),
                    decreases l@.len() - i,
                {
                    let ghost prev = out@;
                    proof {
                        lemma_v_seq_len(l@);
                        lemma_v_seq_index(l@, i as int);
                        let es = v_seq(l@);
                        let pre = es.subrange(0, i + 1);
                        assert(pre.drop_last() =~= es.subrange(0, i as int));
                        assert(pre.last() == es[i as int]);
                        assert(es[i as int] == v_expr(l@[i as int]));
                        assert(decreases_to!(*self => l@[i as int]));
                    }
                    let es_str = l[i].to_string();
                    out.append(es_str.as_str());
                    out.append(" ");
                    proof {
                        let es = v_seq(l@);
                        assert(out@ =~= "( "@ + render_items(es.subrange(0, i + 1)));
                    }
                    i += 1;
                }
                proof {
                    lemma_v_seq_len(l@);
                    assert(v_seq(l@).subrange(0, v_seq(l@).len() as int) =~= v_seq(l@));
                }
                out.append(")");
                proof {
                    assert(out@ =~= "( "@ + render_items(v_seq(l@)) + ")"@);
                }
                out
            },
            Expression::Pair(a, d) => {
                let proper = match self.collect_chain() {
                    Some(_) => true,
                    None => false,
                };
                if proper {
                    let mut out = String::from_str("#( ");
                    let chain_text = self.render_chain();
                    out.append(chain_text.as_str());
                    out.append(")");
                    out
                } else {
                    let mut out = String::from_str("( ");
                    let a_str = a.to_string();
                    out.append(a_str.as_str());
                    out.append(" . ");
                    let d_str = d.to_string();
                    out.append(d_str.as_str());
                    out.append(" )");
                    out
                }
            },
            Expression::Table(_) => String::from_str("#<hash-map>"),
            Expression::Builtin(_) => String::from_str("Func"),
            Expression::Process(p) => crate::strutil::u32_to_string(p.pid()),
            Expression::File(_) => String::from_str("File"),
        }
    }

    /// Render the elements of a pair chain, each followed by a space.
    fn render_chain(&self) -> (s: String)
        ensures
            s@ == render_chain_items(self@),
        decreases self, 0int,
    {
        proof {
            reveal_strlit(" ");
        }
        match self {
            Expression::Pair(a, d) => {
                let mut out = a.to_string();
                out.append(" ");
                let rest = d.render_chain();
                out.append(rest.as_str());
                out
            },
            _ => String::new(),
        }
    }
}


impl Atom {
    /// The printed form of this atom.
    pub fn to_string(&self) -> (s: String)
        ensures
            s@ == render(v_atom_of(*self)),
    {
        match self {
            Atom::Nil => {
                proof {
                    reveal_strlit("nil");
                }
                String::from_str("nil")
            },
            Atom::True => {
                proof {
                    reveal_strlit("true");
                }
                String::from_str("true")
            },
            Atom::Float(_) => {
                proof {
                    reveal_strlit("#<float>");
                }
                String::from_str("#<float>")
            },
            Atom::Int(i) => crate::strutil::i64_to_string(*i),
            Atom::Symbol(s) => s.clone(),
            Atom::Str(s) => s.clone(),
            Atom::Lambda(l) => {
                proof {
                    reveal_strlit("Lambda (");
                    reveal_strlit(") (");
                    reveal_strlit(")");
                }
                let mut out = String::from_str("Lambda (");
                let ps = l.params.to_string();
                out.append(ps.as_str());
                out.append(") (");
                let bs = l.body.to_string();
                out.append(bs.as_str());
                out.append(")");
                out
            },
            Atom::Macro(m) => {
                proof {
                    reveal_strlit("Macro (");
                    reveal_strlit(") (");
                    reveal_strlit(")");
                }
                let mut out = String::from_str("Macro (");
                let ps = m.params.to_string();
                out.append(ps.as_str());
                out.append(") (");
                let bs = m.body.to_string();
                out.append(bs.as_str());
                out.append(")");
                out
            },
        }
    }

    /// The name of this atom's kind.
    pub fn display_type(&self) -> (s: String)
        ensures
            self matches Atom::Nil ==> s@ == "Nil"@,
            self matches Atom::Int(_) ==> s@ == "Int"@,
            self matches Atom::Symbol(_) ==> s@ == "Symbol"@,
            self matches Atom::Str(_) ==> s@ == "String"@,
    {
        proof {
            reveal_strlit("Nil");
            reveal_strlit("True");
            reveal_strlit("Float");
            reveal_strlit("Int");
            reveal_strlit("Symbol");
            reveal_strlit("String");
            reveal_strlit("Lambda");
            reveal_strlit("Macro");
        }
        match self {
            Atom::Nil => String::from_str("Nil"),
            Atom::True => String::from_str("True"),
            Atom::Float(_) => String::from_str("Float"),
            Atom::Int(_) => String::from_str("Int"),
            Atom::Symbol(_) => String::from_str("Symbol"),
            Atom::Str(_) => String::from_str("String"),
            Atom::Lambda(_) => String::from_str("Lambda"),
            Atom::Macro(_) => String::from_str("Macro"),
        }
    }
}

/// The model of an atom as a value.
pub open spec fn v_atom_of(a: Atom) -> Vx {
    v_expr(Expression::Atom(a))
}

impl Expression {
    /// The name of this value's kind.
    pub fn display_type(&self) -> (s: String)
        ensures
            self matches Expression::Vector(_) ==> s@ == "List"@,
            self matches Expression::Pair(_, _) ==> s@ == "Pair"@,
    {
        proof {
            reveal_strlit("List");
            reveal_strlit("Pair");
            reveal_strlit("HashMap");
            reveal_strlit("Func");
            reveal_strlit("Process");
            reveal_strlit("File");
        }
        match self {
            Expression::Atom(a) => a.display_type(),
            Expression::Vector(_) => String::from_str("List"),
            Expression::Pair(_, _) => String::from_str("Pair"),
            Expression::Table(_) => String::from_str("HashMap"),
            Expression::Builtin(_) => String::from_str("Func"),
            Expression::Process(_) => String::from_str("Process"),
            Expression::File(_) => String::from_str("File"),
        }
    }
}

} // verus!
