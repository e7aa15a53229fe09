//! The per-interpreter state: the scope arena (lexical scopes linked by
//! parent indices), the dynamic-binding map, the namespace registry, and the
//! job/process bookkeeping, together with the well-formedness invariant that
//! every operation of the crate preserves.

use vstd::prelude::*;

use crate::strutil::{dc_head, dc_tail, first_dc, split_double_colon};
use crate::types::{v_expr, Atom, BuiltinId, ErrKind, Error, Expression, Vx};

verus! {

/// Where a child process's standard output or error is routed.
#[derive(Debug)]
pub enum IOState {
    Pipe,
    Inherit,
    Null,
    FileOverwrite(String),
    FileAppend(String),
}

/// Mutable evaluator bookkeeping that travels with the environment.
#[derive(Debug)]
pub struct EnvState {
    pub recur_num_args: Option<usize>,
    pub gensym_count: u32,
    pub stdout_status: Option<IOState>,
    pub stderr_status: Option<IOState>,
    pub eval_level: u32,
    pub is_spawn: bool,
    pub pipe_pgid: Option<u32>,
}

impl Default for EnvState {
    fn default() -> (r: EnvState)
        ensures
            r.recur_num_args is None,
            r.gensym_count == 0,
            r.stdout_status is None,
            r.stderr_status is None,
            r.eval_level == 0,
            !r.is_spawn,
            r.pipe_pgid is None,
    {
        EnvState {
            recur_num_args: None,
            gensym_count: 0,
            stdout_status: None,
            stderr_status: None,
            eval_level: 0,
            is_spawn: false,
            pipe_pgid: None,
        }
    }
}

/// Gates whether a bare head symbol may resolve to an external command.
#[derive(Clone, Copy, Debug, PartialEq, Eq, Structural)]
pub enum FormType {
    Any,
    FormOnly,
    ExternalOnly,
}

/// A lexical scope: bindings, an optional parent (an index into the scope
/// arena that is always smaller than the scope's own index), and a name iff
/// the scope is a namespace root.
pub struct Scope {
    pub data: vstd::hash_map::StringHashMap<Expression>,
    pub outer: Option<usize>,
    pub name: Option<String>,
}

/// Whether a job is currently running or stopped.
#[derive(Clone, Copy, Debug, PartialEq, Eq, Structural)]
pub enum JobStatus {
    Running,
    Stopped,
}

impl JobStatus {
    /// Human-readable form of the status.
    pub fn as_text(&self) -> (r: &'static str)
        ensures
            *self == JobStatus::Running ==> r@ == "Running"@,
            *self == JobStatus::Stopped ==> r@ == "Stopped"@,
    {
        match self {
            JobStatus::Running => "Running",
            JobStatus::Stopped => "Stopped",
        }
    }
}

/// A tracked pipeline or command: its pids, command names, and status.
#[derive(Debug)]
pub struct Job {
    pub pids: Vec<u32>,
    pub names: Vec<String>,
    pub status: JobStatus,
}

/// The interpreter state.
pub struct Environment {
    pub state: EnvState,
    pub stopped_procs: Vec<u32>,
    pub jobs: Vec<Job>,
    pub in_pipe: bool,
    pub run_background: bool,
    pub is_tty: bool,
    pub do_job_control: bool,
    pub loose_symbols: bool,
    pub str_ignore_expand: bool,
    /// Pids of tracked child processes, each one registered at spawn and
    /// dropped when its exit status has been delivered.
    pub procs: Vec<u32>,
    pub data_in: Option<Expression>,
    pub form_type: FormType,
    pub save_exit_status: bool,
    pub stack_on_error: bool,
    pub error_expression: Option<Expression>,
    /// Set when `exit` was called: unwind and terminate with this code.
    pub exit_code: Option<i32>,
    /// Dynamic bindings; they shadow lexical bindings for reads and writes.
    pub dynamic_scope: vstd::hash_map::StringHashMap<Expression>,
    /// The scope arena.  Index 0 is the root scope (namespace "root").
    pub scopes: Vec<Scope>,
    /// Stack of scope indices; lookups start from its top.  Never empty,
    /// and its bottom element is the root.
    pub current_scope: Vec<usize>,
    /// Registry of namespaces: name to scope index.
    pub namespaces: vstd::hash_map::StringHashMap<usize>,
    /// The registered namespace names, kept in step with `namespaces` so
    /// they can be listed.
    pub ns_names: Vec<String>,
}

/// The bindings of a scope's data map, at the model level.
pub open spec fn data_v(m: vstd::hash_map::StringHashMap<Expression>) -> Map<Seq<char>, Vx> {
    m@.map_values(|e: Expression| v_expr(e))
}

impl Environment {
    /// The scope graph is acyclic (each parent index is smaller than the
    /// child's), every recorded index is in range, the scope stack is
    /// non-empty with the root at its bottom, and the root is the
    /// namespace "root".
    pub open spec fn scope_graph_wf(self) -> bool {
        &&& self.scopes@.len() >= 1
        &&& self.scopes@[0].outer is None
        &&& self.scopes@[0].name matches Some(n) && n@ == "root"@
        &&& forall|i: int|
            0 <= i < self.scopes@.len() ==> ((#[trigger] self.scopes@[i].outer) matches Some(j)
                ==> j < i)
        &&& self.current_scope@.len() >= 1
        &&& self.current_scope@[0] == 0
        &&& forall|i: int|
            0 <= i < self.current_scope@.len() ==> (#[trigger] self.current_scope@[i])
                < self.scopes@.len()
    }

    /// Every registered namespace names a scope that carries that name and
    /// whose parent is the root; "root" itself maps to scope 0.  The
    /// listable name vector holds exactly the registered names.
    pub open spec fn ns_wf(self) -> bool {
        &&& self.namespaces@.contains_key("root"@)
        &&& self.namespaces@["root"@] == 0
        &&& forall|k: Seq<char>|
            self.namespaces@.contains_key(k) ==> {
                let i = #[trigger] self.namespaces@[k];
                &&& 0 <= i < self.scopes@.len()
                &&& self.scopes@[i as int].name matches Some(n) && n@ == k
                &&& (i == 0 || self.scopes@[i as int].outer == Some(0usize))
            }
        &&& forall|i: int|
            0 <= i < self.ns_names@.len() ==> self.namespaces@.contains_key(
                (#[trigger] self.ns_names@[i])@,
            )
        &&& forall|k: Seq<char>|
            self.namespaces@.contains_key(k) ==> exists|i: int|
                0 <= i < self.ns_names@.len() && (#[trigger] self.ns_names@[i])@ == k
        &&& forall|i: int, j: int|
            0 <= i < j < self.ns_names@.len() ==> (#[trigger] self.ns_names@[i])@ != (
            #[trigger] self.ns_names@[j])@
    }

    /// Job-table consistency: every pid recorded as stopped belongs to some
    /// job whose status is `Stopped`, and every pid of every job is still a
    /// tracked child.
    pub open spec fn jobs_wf(self) -> bool {
        &&& forall|p: u32|
            self.stopped_procs@.contains(p) ==> exists|j: int|
                0 <= j < self.jobs@.len() && (#[trigger] self.jobs@[j]).pids@.contains(p)
                    && self.jobs@[j].status == JobStatus::Stopped
        &&& forall|j: int, i: int|
            0 <= j < self.jobs@.len() && 0 <= i < self.jobs@[j].pids@.len()
                ==> self.procs@.contains(#[trigger] self.jobs@[j].pids@[i])
    }

    /// The environment invariant: every operation of this crate preserves it.
    pub open spec fn wf(self) -> bool {
        &&& self.scope_graph_wf()
        &&& self.ns_wf()
        &&& self.jobs_wf()
    }

    /// The index of the innermost scope.
    pub open spec fn spec_cur(self) -> int {
        self.current_scope@.last() as int
    }

    /// The innermost scope index, executable form.
    pub fn cur(&self) -> (r: usize)
        requires
            self.wf(),
        ensures
            r == self.spec_cur(),
            r < self.scopes@.len(),
    {
        self.current_scope[self.current_scope.len() - 1]
    }
}

/// Lexical lookup along the parent chain starting at scope `i`: the value
/// bound in the innermost scope that binds `key`.
pub open spec fn chain_lookup(env: Environment, i: int, key: Seq<char>) -> Option<Expression>
    decreases i,
{
    if 0 <= i < env.scopes@.len() {
        if env.scopes@[i].data@.contains_key(key) {
            Some(env.scopes@[i].data@[key])
        } else {
            match env.scopes@[i].outer {
                Some(j) => if j < i {
                    chain_lookup(env, j as int, key)
                } else {
                    None
                },
                None => None,
            }
        }
    } else {
        None
    }
}

/// The innermost scope index along the chain from `i` that binds `key`.
pub open spec fn chain_owner(env: Environment, i: int, key: Seq<char>) -> Option<int>
    decreases i,
{
    if 0 <= i < env.scopes@.len() {
        if env.scopes@[i].data@.contains_key(key) {
            Some(i)
        } else {
            match env.scopes@[i].outer {
                Some(j) => if j < i {
                    chain_owner(env, j as int, key)
                } else {
                    None
                },
                None => None,
            }
        }
    } else {
        None
    }
}

pub proof fn lemma_chain_owner_lookup(env: Environment, i: int, key: Seq<char>)
    ensures
        match chain_owner(env, i, key) {
            Some(o) => {
                &&& 0 <= o < env.scopes@.len()
                &&& env.scopes@[o].data@.contains_key(key)
                &&& chain_lookup(env, i, key) == Some(env.scopes@[o].data@[key])
            },
            None => chain_lookup(env, i, key) is None,
        },
    decreases i,
{
    if 0 <= i < env.scopes@.len() && !env.scopes@[i].data@.contains_key(key) {
        if let Some(j) = env.scopes@[i].outer {
            if j < i {
                lemma_chain_owner_lookup(env, j as int, key);
            }
        }
    }
}


/// All fields equal except possibly the scope arena and scope stack.
pub open spec fn same_non_scope(a: Environment, b: Environment) -> bool {
    &&& a.state == b.state
    &&& a.stopped_procs == b.stopped_procs
    &&& a.jobs == b.jobs
    &&& a.in_pipe == b.in_pipe
    &&& a.run_background == b.run_background
    &&& a.is_tty == b.is_tty
    &&& a.do_job_control == b.do_job_control
    &&& a.loose_symbols == b.loose_symbols
    &&& a.str_ignore_expand == b.str_ignore_expand
    &&& a.procs == b.procs
    &&& a.data_in == b.data_in
    &&& a.form_type == b.form_type
    &&& a.save_exit_status == b.save_exit_status
    &&& a.stack_on_error == b.stack_on_error
    &&& a.error_expression == b.error_expression
    &&& a.exit_code == b.exit_code
    &&& a.dynamic_scope == b.dynamic_scope
    &&& a.namespaces == b.namespaces
    &&& a.ns_names == b.ns_names
}

/// All fields equal except possibly the scope arena, the scope stack, the
/// namespace registry and the dynamic bindings.
pub open spec fn same_outside_scoping(a: Environment, b: Environment) -> bool {
    &&& a.state == b.state
    &&& a.stopped_procs == b.stopped_procs
    &&& a.jobs == b.jobs
    &&& a.in_pipe == b.in_pipe
    &&& a.run_background == b.run_background
    &&& a.is_tty == b.is_tty
    &&& a.do_job_control == b.do_job_control
    &&& a.loose_symbols == b.loose_symbols
    &&& a.str_ignore_expand == b.str_ignore_expand
    &&& a.procs == b.procs
    &&& a.data_in == b.data_in
    &&& a.form_type == b.form_type
    &&& a.save_exit_status == b.save_exit_status
    &&& a.stack_on_error == b.stack_on_error
    &&& a.error_expression == b.error_expression
    &&& a.exit_code == b.exit_code
}

/// The scope arena agrees except that the data of scope `at` changed to
/// `data`; parents and names everywhere are untouched.
pub open spec fn scopes_with_data(
    a: Environment,
    b: Environment,
    at: int,
    data: Map<Seq<char>, Expression>,
) -> bool {
    &&& b.scopes@.len() == a.scopes@.len()
    &&& forall|i: int|
        0 <= i < a.scopes@.len() && i != at ==> (#[trigger] b.scopes@[i]) == a.scopes@[i]
    &&& 0 <= at < a.scopes@.len()
    &&& b.scopes@[at].data@ == data
    &&& b.scopes@[at].outer == a.scopes@[at].outer
    &&& b.scopes@[at].name == a.scopes@[at].name
    &&& b.current_scope == a.current_scope
}

/// The full lookup rule: dynamic bindings first, then a `ns::name`
/// reference into the namespace registry, else the lexical chain from the
/// innermost scope.
pub open spec fn lookup_full(env: Environment, key: Seq<char>) -> Option<Expression> {
    if env.dynamic_scope@.contains_key(key) {
        Some(env.dynamic_scope@[key])
    } else if first_dc(key) is Some {
        if env.namespaces@.contains_key(dc_head(key)) {
            let i = env.namespaces@[dc_head(key)] as int;
            if env.scopes@[i].data@.contains_key(dc_tail(key)) {
                Some(env.scopes@[i].data@[dc_tail(key)])
            } else {
                None
            }
        } else {
            None
        }
    } else {
        chain_lookup(env, env.spec_cur(), key)
    }
}

/// Look a symbol up: dynamic scope, then namespace reference, then the
/// lexical chain.  Returns a structure-preserving copy of the bound value.
pub fn get_expression(env: &Environment, key: &str) -> (r: Option<Expression>)
    requires
        env.wf(),
    ensures
        match r {
            Some(e) => lookup_full(*env, key@) matches Some(e0) && e@ == e0@,
            None => lookup_full(*env, key@) is None,
        },
{
    if let Some(e) = env.dynamic_scope.get(key) {
        return Some(e.duplicate());
    }
    if let Some((head, tail)) = split_double_colon(key) {
        if let Some(i) = env.namespaces.get(head.as_str()) {
            let idx: usize = *i;
            if let Some(e) = env.scopes[idx].data.get(tail.as_str()) {
                return Some(e.duplicate());
            }
        }
        return None;
    }
    let mut idx: usize = env.cur();
    #[verifier::loop_isolation(false)]
    loop
        invariant
            idx < env.scopes@.len(),
            chain_lookup(*env, env.spec_cur(), key@) == chain_lookup(*env, idx as int, key@),
        decreases idx,
    {
        if let Some(e) = env.scopes[idx].data.get(key) {
            return Some(e.duplicate());
        }
        match env.scopes[idx].outer {
            Some(j) => {
                idx = j;
            },
            None => {
                return None;
            },
        }
    }
}

/// Insert a binding in the innermost scope.
pub fn set_expression_current(env: &mut Environment, key: String, expression: Expression)
    requires
        old(env).wf(),
    ensures
        final(env).wf(),
        same_non_scope(*old(env), *final(env)),
        scopes_with_data(
            *old(env),
            *final(env),
            old(env).spec_cur(),
            old(env).scopes@[old(env).spec_cur()].data@.insert(key@, expression),
        ),
{
    let cur = env.cur();
    let scope = &mut env.scopes[cur];
    scope.data.insert(key, expression);
    proof {
        assert(forall|i: int|
            0 <= i < env.scopes@.len() && i != cur ==> #[trigger] env.scopes@[i]
                == old(env).scopes@[i]);
        assert(env.scopes@[cur as int].outer == old(env).scopes@[cur as int].outer);
        assert(env.scopes@[cur as int].name == old(env).scopes@[cur as int].name);
        assert(env.scope_graph_wf());
        lemma_ns_jobs_preserved(*old(env), *env);
    }
}

/// Remove a binding from the innermost scope, if it is there.
pub fn remove_expression_current(env: &mut Environment, key: &str)
    requires
        old(env).wf(),
    ensures
        final(env).wf(),
        same_non_scope(*old(env), *final(env)),
        scopes_with_data(
            *old(env),
            *final(env),
            old(env).spec_cur(),
            old(env).scopes@[old(env).spec_cur()].data@.remove(key@),
        ),
{
    let cur = env.cur();
    let scope = &mut env.scopes[cur];
    scope.data.remove(key);
    proof {
        assert(forall|i: int|
            0 <= i < env.scopes@.len() && i != cur ==> #[trigger] env.scopes@[i]
                == old(env).scopes@[i]);
        assert(env.scopes@[cur as int].outer == old(env).scopes@[cur as int].outer);
        assert(env.scopes@[cur as int].name == old(env).scopes@[cur as int].name);
        assert(env.scope_graph_wf());
        lemma_ns_jobs_preserved(*old(env), *env);
    }
}

/// The scope (by index) along the lexical chain that binds `key`; never a
/// namespace-qualified name, so `set` cannot write into other namespaces.
pub fn get_symbols_scope(env: &Environment, key: &str) -> (r: Option<usize>)
    requires
        env.wf(),
    ensures
        match r {
            Some(i) => first_dc(key@) is None && chain_owner(*env, env.spec_cur(), key@)
                == Some(i as int) && i < env.scopes@.len(),
            None => first_dc(key@) is Some || chain_owner(*env, env.spec_cur(), key@) is None,
        },
{
    if split_double_colon(key).is_some() {
        return None;
    }
    let mut idx: usize = env.cur();
    #[verifier::loop_isolation(false)]
    loop
        invariant
            idx < env.scopes@.len(),
            chain_owner(*env, env.spec_cur(), key@) == chain_owner(*env, idx as int, key@),
        decreases idx,
    {
        if env.scopes[idx].data.contains_key(key) {
            return Some(idx);
        }
        match env.scopes[idx].outer {
            Some(j) => {
                idx = j;
            },
            None => {
                return None;
            },
        }
    }
}

/// The scope index registered under a namespace name.
pub fn get_namespace(env: &Environment, name: &str) -> (r: Option<usize>)
    requires
        env.wf(),
    ensures
        match r {
            Some(i) => env.namespaces@.contains_key(name@) && i == env.namespaces@[name@]
                && i < env.scopes@.len(),
            None => !env.namespaces@.contains_key(name@),
        },
{
    match env.namespaces.get(name) {
        Some(i) => Some(*i),
        None => None,
    }
}

/// Append a fresh, empty lexical scope to the arena; returns its index.
pub fn build_new_scope(env: &mut Environment, outer: Option<usize>) -> (idx: usize)
    requires
        old(env).wf(),
        outer matches Some(j) ==> j < old(env).scopes@.len(),
    ensures
        final(env).wf(),
        same_non_scope(*old(env), *final(env)),
        final(env).current_scope == old(env).current_scope,
        idx == old(env).scopes@.len(),
        final(env).scopes@.len() == old(env).scopes@.len() + 1,
        forall|i: int|
            0 <= i < old(env).scopes@.len() ==> (#[trigger] final(env).scopes@[i])
                == old(env).scopes@[i],
        final(env).scopes@[idx as int].data@ == Map::<Seq<char>, Expression>::empty(),
        final(env).scopes@[idx as int].outer == outer,
        final(env).scopes@[idx as int].name is None,
{
    let idx = env.scopes.len();
    env.scopes.push(
        Scope { data: vstd::hash_map::StringHashMap::new(), outer, name: None },
    );
    proof {
        assert(forall|i: int|
            0 <= i < old(env).scopes@.len() ==> #[trigger] env.scopes@[i]
                == old(env).scopes@[i]);
        assert(env.scope_graph_wf());
        lemma_ns_jobs_preserved(*old(env), *env);
    }
    idx
}


/// Namespace well-formedness carries over to any state that keeps the
/// registry and every old scope's parent and name.
pub proof fn lemma_ns_preserved(a: Environment, b: Environment)
    requires
        a.wf(),
        b.namespaces == a.namespaces,
        b.ns_names == a.ns_names,
        b.scopes@.len() >= a.scopes@.len(),
        forall|i: int|
            0 <= i < a.scopes@.len() ==> (#[trigger] b.scopes@[i]).outer == a.scopes@[i].outer
                && b.scopes@[i].name == a.scopes@[i].name,
    ensures
        b.ns_wf(),
{
    assert forall|k: Seq<char>| b.namespaces@.contains_key(k) implies exists|i: int|
        0 <= i < b.ns_names@.len() && (#[trigger] b.ns_names@[i])@ == k by {
        assert(a.namespaces@.contains_key(k));
        let i = choose|i: int| 0 <= i < a.ns_names@.len() && (#[trigger] a.ns_names@[i])@ == k;
        assert(0 <= i < b.ns_names@.len() && b.ns_names@[i]@ == k);
    }
}

/// Job-table well-formedness carries over to any state that keeps the
/// three job tables.
pub proof fn lemma_jobs_preserved(a: Environment, b: Environment)
    requires
        a.wf(),
        b.stopped_procs == a.stopped_procs,
        b.jobs == a.jobs,
        b.procs == a.procs,
    ensures
        b.jobs_wf(),
{
    assert forall|p: u32| b.stopped_procs@.contains(p) implies exists|j: int|
        0 <= j < b.jobs@.len() && (#[trigger] b.jobs@[j]).pids@.contains(p) && b.jobs@[j].status
            == JobStatus::Stopped by {
        assert(a.stopped_procs@.contains(p));
        let j = choose|j: int|
            0 <= j < a.jobs@.len() && (#[trigger] a.jobs@[j]).pids@.contains(p)
                && a.jobs@[j].status == JobStatus::Stopped;
        assert(0 <= j < b.jobs@.len() && b.jobs@[j].pids@.contains(p) && b.jobs@[j].status
            == JobStatus::Stopped);
    }
}

/// Both preservation lemmas together.
pub proof fn lemma_ns_jobs_preserved(a: Environment, b: Environment)
    requires
        a.wf(),
        b.namespaces == a.namespaces,
        b.ns_names == a.ns_names,
        b.scopes@.len() >= a.scopes@.len(),
        forall|i: int|
            0 <= i < a.scopes@.len() ==> (#[trigger] b.scopes@[i]).outer == a.scopes@[i].outer
                && b.scopes@[i].name == a.scopes@[i].name,
        b.stopped_procs == a.stopped_procs,
        b.jobs == a.jobs,
        b.procs == a.procs,
    ensures
        b.ns_wf(),
        b.jobs_wf(),
{
    lemma_ns_preserved(a, b);
    lemma_jobs_preserved(a, b);
}


/// All fields equal except possibly the dynamic bindings.
pub open spec fn same_but_dynamic(a: Environment, b: Environment) -> bool {
    &&& same_outside_scoping(a, b)
    &&& a.scopes == b.scopes
    &&& a.current_scope == b.current_scope
    &&& a.namespaces == b.namespaces
    &&& a.ns_names == b.ns_names
}

/// What `overwrite_expression` does: a write through the dynamic map, a
/// namespace reference, or the innermost lexical scope that already binds
/// the key; a key bound nowhere changes nothing.
pub open spec fn overwrite_post(
    a: Environment,
    b: Environment,
    key: Seq<char>,
    v: Expression,
) -> bool {
    if a.dynamic_scope@.contains_key(key) {
        same_but_dynamic(a, b) && b.dynamic_scope@ == a.dynamic_scope@.insert(key, v)
    } else if first_dc(key) is Some {
        if a.namespaces@.contains_key(dc_head(key)) && a.scopes@[a.namespaces@[dc_head(
            key,
        )] as int].data@.contains_key(dc_tail(key)) {
            same_non_scope(a, b) && scopes_with_data(
                a,
                b,
                a.namespaces@[dc_head(key)] as int,
                a.scopes@[a.namespaces@[dc_head(key)] as int].data@.insert(dc_tail(key), v),
            )
        } else {
            b == a
        }
    } else {
        match chain_owner(a, a.spec_cur(), key) {
            Some(o) => same_non_scope(a, b) && scopes_with_data(
                a,
                b,
                o,
                a.scopes@[o].data@.insert(key, v),
            ),
            None => b == a,
        }
    }
}

/// Write a value to an existing binding of `key`: the dynamic binding if
/// there is one, else a namespace reference, else the nearest lexical
/// binding.  Does nothing when the key is bound nowhere.
pub fn overwrite_expression(env: &mut Environment, key: &str, expression: Expression)
    requires
        old(env).wf(),
    ensures
        final(env).wf(),
        overwrite_post(*old(env), *final(env), key@, expression),
{
    if env.dynamic_scope.contains_key(key) {
        env.dynamic_scope.insert(key.to_owned(), expression);
        return;
    }
    if let Some((head, tail)) = split_double_colon(key) {
        if let Some(i) = env.namespaces.get(head.as_str()) {
            let idx: usize = *i;
            if env.scopes[idx].data.contains_key(tail.as_str()) {
                let scope = &mut env.scopes[idx];
                scope.data.insert(tail, expression);
                proof {
                    assert(forall|i: int|
                        0 <= i < env.scopes@.len() && i != idx ==> #[trigger] env.scopes@[i]
                            == old(env).scopes@[i]);
                    assert(env.scopes@[idx as int].outer == old(env).scopes@[idx as int].outer);
                    assert(env.scopes@[idx as int].name == old(env).scopes@[idx as int].name);
                    assert(env.scope_graph_wf());
                    lemma_ns_jobs_preserved(*old(env), *env);
                }
                return;
            }
        }
        return;
    }
    let owner = get_symbols_scope(env, key);
    if let Some(o) = owner {
        let scope = &mut env.scopes[o];
        scope.data.insert(key.to_owned(), expression);
        proof {
            assert(forall|i: int|
                0 <= i < env.scopes@.len() && i != o ==> #[trigger] env.scopes@[i]
                    == old(env).scopes@[i]);
            assert(env.scopes@[o as int].outer == old(env).scopes@[o as int].outer);
            assert(env.scopes@[o as int].name == old(env).scopes@[o as int].name);
            assert(env.scope_graph_wf());
            lemma_ns_jobs_preserved(*old(env), *env);
        }
    }
}

/// Register a new namespace: a fresh scope whose parent is the root,
/// carrying the namespace name and a `*ns*` binding.  Fails if the name is
/// taken.  The new scope is not yet entered.
pub fn build_new_namespace(env: &mut Environment, name: &str) -> (r: Result<usize, Error>)
    requires
        old(env).wf(),
    ensures
        final(env).wf(),
        match r {
            Ok(idx) => {
                &&& !old(env).namespaces@.contains_key(name@)
                &&& idx == old(env).scopes@.len()
                &&& final(env).scopes@.len() == old(env).scopes@.len() + 1
                &&& forall|i: int|
                    0 <= i < old(env).scopes@.len() ==> (#[trigger] final(env).scopes@[i])
                        == old(env).scopes@[i]
                &&& final(env).scopes@[idx as int].outer == Some(0usize)
                &&& final(env).scopes@[idx as int].name matches Some(n) && n@ == name@
                &&& final(env).scopes@[idx as int].data@.dom() =~= set!["*ns*"@]
                &&& v_expr(final(env).scopes@[idx as int].data@["*ns*"@]) == Vx::Str(name@)
                &&& final(env).namespaces@ == old(env).namespaces@.insert(name@, idx)
                &&& final(env).ns_names@.len() == old(env).ns_names@.len() + 1
                &&& final(env).ns_names@.last()@ == name@
                &&& forall|i: int|
                    0 <= i < old(env).ns_names@.len() ==> (#[trigger] final(env).ns_names@[i])
                        == old(env).ns_names@[i]
                &&& final(env).current_scope == old(env).current_scope
                &&& final(env).dynamic_scope == old(env).dynamic_scope
                &&& same_outside_scoping(*old(env), *final(env))
            },
            Err(e) => {
                &&& e.kind == ErrKind::Namespace
                &&& old(env).namespaces@.contains_key(name@)
                &&& *final(env) == *old(env)
            },
        },
{
    if env.namespaces.contains_key(name) {
        let mut msg = String::new();
        msg.append("Namespace ");
        msg.append(name);
        msg.append(" already exists!");
        return Err(Error { kind: ErrKind::Namespace, msg });
    }
    let idx = env.scopes.len();
    let mut data = vstd::hash_map::StringHashMap::<Expression>::new();
    data.insert(
        String::from_str("*ns*"),
        Expression::Atom(Atom::Str(name.to_owned())),
    );
    env.scopes.push(Scope { data, outer: Some(0), name: Some(name.to_owned()) });
    env.namespaces.insert(name.to_owned(), idx);
    env.ns_names.push(name.to_owned());
    proof {
        assert(env.scopes@[idx as int].data@.dom() =~= set!["*ns*"@]);
        assert(forall|i: int|
            0 <= i < old(env).scopes@.len() ==> (#[trigger] env.scopes@[i])
                == old(env).scopes@[i]);
        assert(env.scope_graph_wf());
        assert forall|k: Seq<char>| env.namespaces@.contains_key(k) implies {
            let i = #[trigger] env.namespaces@[k];
            &&& 0 <= i < env.scopes@.len()
            &&& env.scopes@[i as int].name matches Some(n) && n@ == k
            &&& (i == 0 || env.scopes@[i as int].outer == Some(0usize))
        } by {
            if k != name@ {
                assert(old(env).namespaces@.contains_key(k));
            }
        }
        assert forall|k: Seq<char>| env.namespaces@.contains_key(k) implies exists|i: int|
            0 <= i < env.ns_names@.len() && (#[trigger] env.ns_names@[i])@ == k by {
            if k == name@ {
                assert(env.ns_names@[env.ns_names@.len() - 1]@ == k);
            } else {
                assert(old(env).namespaces@.contains_key(k));
                let i = choose|i: int|
                    0 <= i < old(env).ns_names@.len() && (#[trigger] old(env).ns_names@[i])@
                        == k;
                assert(env.ns_names@[i]@ == k);
            }
        }
        assert forall|i: int, j: int| 0 <= i < j < env.ns_names@.len() implies (
        #[trigger] env.ns_names@[i])@ != (#[trigger] env.ns_names@[j])@ by {
            if j == env.ns_names@.len() - 1 {
                assert(env.ns_names@[i] == old(env).ns_names@[i]);
                assert(old(env).namespaces@.contains_key(old(env).ns_names@[i]@));
                assert(env.ns_names@[j]@ == name@);
            } else {
                assert(env.ns_names@[i] == old(env).ns_names@[i]);
                assert(env.ns_names@[j] == old(env).ns_names@[j]);
            }
        }
        assert(env.ns_wf());
        assert forall|p: u32| env.stopped_procs@.contains(p) implies exists|j: int|
            0 <= j < env.jobs@.len() && (#[trigger] env.jobs@[j]).pids@.contains(p)
                && env.jobs@[j].status == JobStatus::Stopped by {
            assert(old(env).stopped_procs@.contains(p));
            let j = choose|j: int|
                0 <= j < old(env).jobs@.len() && (#[trigger] old(env).jobs@[j]).pids@.contains(p)
                    && old(env).jobs@[j].status == JobStatus::Stopped;
            assert(0 <= j < env.jobs@.len() && env.jobs@[j].pids@.contains(p)
                && env.jobs@[j].status == JobStatus::Stopped);
        }
        assert(env.jobs_wf());
    }
    Ok(idx)
}


/// All fields equal except possibly the three job tables.
pub open spec fn same_but_jobs(a: Environment, b: Environment) -> bool {
    &&& a.state == b.state
    &&& a.in_pipe == b.in_pipe
    &&& a.run_background == b.run_background
    &&& a.is_tty == b.is_tty
    &&& a.do_job_control == b.do_job_control
    &&& a.loose_symbols == b.loose_symbols
    &&& a.str_ignore_expand == b.str_ignore_expand
    &&& a.data_in == b.data_in
    &&& a.form_type == b.form_type
    &&& a.save_exit_status == b.save_exit_status
    &&& a.stack_on_error == b.stack_on_error
    &&& a.error_expression == b.error_expression
    &&& a.exit_code == b.exit_code
    &&& a.dynamic_scope == b.dynamic_scope
    &&& a.scopes == b.scopes
    &&& a.current_scope == b.current_scope
    &&& a.namespaces == b.namespaces
    &&& a.ns_names == b.ns_names
}

/// Does this pid vector contain the pid?
pub fn vec_contains_u32(v: &Vec<u32>, x: u32) -> (r: bool)
    ensures
        r == v@.contains(x),
{
    let mut i: usize = 0;
    #[verifier::loop_isolation(false)]
    while i < v.len()
        invariant
            i <= v@.len(),
            forall|k: int| 0 <= k < i ==> v@[k] != x,
        decreases v@.len() - i,
    {
        if v[i] == x {
            return true;
        }
        i += 1;
    }
    false
}

/// The first job (lowest index at or after `i`) whose pid list holds `pid`.
pub open spec fn first_job_with(jobs: Seq<Job>, pid: u32, i: int) -> Option<int>
    decreases jobs.len() - i,
{
    if i < 0 || i >= jobs.len() {
        None
    } else if jobs[i].pids@.contains(pid) {
        Some(i)
    } else {
        first_job_with(jobs, pid, i + 1)
    }
}

/// Find the first job that holds this pid.
pub fn find_job(jobs: &Vec<Job>, pid: u32) -> (r: Option<usize>)
    ensures
        match r {
            Some(j) => first_job_with(jobs@, pid, 0) == Some(j as int) && j < jobs@.len(),
            None => first_job_with(jobs@, pid, 0) is None,
        },
{
    let mut i: usize = 0;
    #[verifier::loop_isolation(false)]
    while i < jobs.len()
        invariant
            i <= jobs@.len(),
            first_job_with(jobs@, pid, 0) == first_job_with(jobs@, pid, i as int),
        decreases jobs@.len() - i,
    {
        if vec_contains_u32(&jobs[i].pids, pid) {
            return Some(i);
        }
        i += 1;
    }
    None
}

/// Mark the first job holding this pid as stopped; no job, no change.
pub fn mark_job_stopped(env: &mut Environment, pid: u32)
    requires
        old(env).wf(),
    ensures
        final(env).wf(),
        same_but_jobs(*old(env), *final(env)),
        final(env).stopped_procs == old(env).stopped_procs,
        final(env).procs == old(env).procs,
        match first_job_with(old(env).jobs@, pid, 0) {
            Some(j) => {
                &&& final(env).jobs@.len() == old(env).jobs@.len()
                &&& forall|i: int|
                    0 <= i < old(env).jobs@.len() && i != j ==> (#[trigger] final(env).jobs@[i])
                        == old(env).jobs@[i]
                &&& final(env).jobs@[j].pids == old(env).jobs@[j].pids
                &&& final(env).jobs@[j].names == old(env).jobs@[j].names
                &&& final(env).jobs@[j].status == JobStatus::Stopped
            },
            None => final(env).jobs == old(env).jobs,
        },
{
    match find_job(&env.jobs, pid) {
        Some(j) => {
            let job = &mut env.jobs[j];
            job.status = JobStatus::Stopped;
            proof {
                assert(env.scope_graph_wf());
                lemma_ns_preserved(*old(env), *env);
                assert forall|p: u32| env.stopped_procs@.contains(p) implies exists|jj: int|
                    0 <= jj < env.jobs@.len() && (#[trigger] env.jobs@[jj]).pids@.contains(p)
                        && env.jobs@[jj].status == JobStatus::Stopped by {
                    let jj = choose|jj: int|
                        0 <= jj < old(env).jobs@.len() && (#[trigger] old(env).jobs@[jj]).pids@
                            .contains(p) && old(env).jobs@[jj].status == JobStatus::Stopped;
                    assert(env.jobs@[jj].pids@.contains(p) && env.jobs@[jj].status
                        == JobStatus::Stopped);
                }
                assert(env.jobs_wf());
            }
        },
        None => {},
    }
}

/// Mark the first job holding this pid as running again.  Its pids leave
/// the stopped list, so the job table stays consistent.
pub fn mark_job_running(env: &mut Environment, pid: u32)
    requires
        old(env).wf(),
    ensures
        final(env).wf(),
        same_but_jobs(*old(env), *final(env)),
        final(env).procs == old(env).procs,
        match first_job_with(old(env).jobs@, pid, 0) {
            Some(j) => {
                &&& final(env).jobs@.len() == old(env).jobs@.len()
                &&& forall|i: int|
                    0 <= i < old(env).jobs@.len() && i != j ==> (#[trigger] final(env).jobs@[i])
                        == old(env).jobs@[i]
                &&& final(env).jobs@[j].pids == old(env).jobs@[j].pids
                &&& final(env).jobs@[j].names == old(env).jobs@[j].names
                &&& final(env).jobs@[j].status == JobStatus::Running
                &&& final(env).stopped_procs@ == old(env).stopped_procs@.filter(
                    |p: u32| !old(env).jobs@[j].pids@.contains(p),
                )
            },
            None => final(env).jobs == old(env).jobs && final(env).stopped_procs == old(
                env,
            ).stopped_procs,
        },
{
    match find_job(&env.jobs, pid) {
        Some(j) => {
            let ghost js = env.jobs@[j as int];
            let mut kept: Vec<u32> = Vec::new();
            let mut i: usize = 0;
            proof {
                assert(env.stopped_procs@.subrange(0, 0) =~= Seq::<u32>::empty());
                assert(Seq::<u32>::empty().filter(|p: u32| !js.pids@.contains(p))
                    =~= Seq::<u32>::empty());
            }
            #[verifier::loop_isolation(false)]
            while i < env.stopped_procs.len()
                invariant
                    i <= env.stopped_procs@.len(),
                    j < env.jobs@.len(),
                    js == env.jobs@[j as int],
                    kept@ == env.stopped_procs@.subrange(0, i as int).filter(
                        |p: u32| !js.pids@.contains(p),
                    ),
                decreases env.stopped_procs@.len() - i,
            {
                let p = env.stopped_procs[i];
                let ghost pre = env.stopped_procs@.subrange(0, i + 1);
                proof {
                    assert(pre.drop_last() =~= env.stopped_procs@.subrange(0, i as int));
                    assert(pre.last() == p);
                }
                if !vec_contains_u32(&env.jobs[j].pids, p) {
                    kept.push(p);
                }
                proof {
                    reveal_with_fuel(Seq::filter, 2);
                    assert(kept@ == pre.filter(|q: u32| !js.pids@.contains(q)));
                }
                i += 1;
            }
            proof {
                assert(env.stopped_procs@.subrange(0, env.stopped_procs@.len() as int)
                    =~= env.stopped_procs@);
            }
            env.stopped_procs = kept;
            let job = &mut env.jobs[j];
            job.status = JobStatus::Running;
            proof {
                assert(env.scope_graph_wf());
                lemma_ns_preserved(*old(env), *env);
                let filt = |p: u32| !js.pids@.contains(p);
                assert forall|p: u32| env.stopped_procs@.contains(p) implies exists|jj: int|
                    0 <= jj < env.jobs@.len() && (#[trigger] env.jobs@[jj]).pids@.contains(p)
                        && env.jobs@[jj].status == JobStatus::Stopped by {
                    lemma_filter_elem(old(env).stopped_procs@, filt, p);
                    assert(old(env).stopped_procs@.contains(p));
                    assert(!js.pids@.contains(p));
                    let jj = choose|jj: int|
                        0 <= jj < old(env).jobs@.len() && (#[trigger] old(env).jobs@[jj]).pids@
                            .contains(p) && old(env).jobs@[jj].status == JobStatus::Stopped;
                    assert(jj != j);
                    assert(env.jobs@[jj].pids@.contains(p) && env.jobs@[jj].status
                        == JobStatus::Stopped);
                }
                assert(env.jobs_wf());
            }
        },
        None => {},
    }
}

/// Record a freshly spawned child in the process table.
pub fn add_process(env: &mut Environment, pid: u32)
    requires
        old(env).wf(),
    ensures
        final(env).wf(),
        same_but_jobs(*old(env), *final(env)),
        final(env).jobs == old(env).jobs,
        final(env).stopped_procs == old(env).stopped_procs,
        final(env).procs@ == old(env).procs@.push(pid),
{
    env.procs.push(pid);
    proof {
        assert(env.scope_graph_wf());
        lemma_ns_preserved(*old(env), *env);
        assert forall|p: u32| env.stopped_procs@.contains(p) implies exists|jj: int|
            0 <= jj < env.jobs@.len() && (#[trigger] env.jobs@[jj]).pids@.contains(p)
                && env.jobs@[jj].status == JobStatus::Stopped by {
            let jj = choose|jj: int|
                0 <= jj < old(env).jobs@.len() && (#[trigger] old(env).jobs@[jj]).pids@.contains(
                    p,
                ) && old(env).jobs@[jj].status == JobStatus::Stopped;
            assert(env.jobs@[jj].pids@.contains(p) && env.jobs@[jj].status == JobStatus::Stopped);
        }
        assert forall|j: int, i: int|
            0 <= j < env.jobs@.len() && 0 <= i < env.jobs@[j].pids@.len() implies env.procs@
                .contains(#[trigger] env.jobs@[j].pids@[i]) by {
            assert(old(env).procs@.contains(old(env).jobs@[j].pids@[i]));
            let k = choose|k: int|
                0 <= k < old(env).procs@.len() && old(env).procs@[k] == old(env).jobs@[j].pids@[i];
            assert(env.procs@[k] == env.jobs@[j].pids@[i]);
        }
        assert(env.jobs_wf());
    }
}


/// An element of a filtered sequence came from the sequence and satisfies
/// the predicate.
pub proof fn lemma_filter_elem<A>(s: Seq<A>, pred: spec_fn(A) -> bool, p: A)
    requires
        s.filter(pred).contains(p),
    ensures
        s.contains(p),
        pred(p),
    decreases s.len(),
{
    reveal(Seq::filter);
    if s.len() == 0 {
        assert(s.filter(pred).len() == 0);
    } else {
        if pred(s.last()) && s.last() == p {
            assert(s[s.len() - 1] == p);
        } else {
            assert(s.drop_last().filter(pred).contains(p));
            lemma_filter_elem(s.drop_last(), pred, p);
            let i = choose|i: int| 0 <= i < s.drop_last().len() && s.drop_last()[i] == p;
            assert(s[i] == p);
        }
    }
}


/// Is some job in the table holding this pid currently stopped?
pub open spec fn has_stopped_job(jobs: Seq<Job>, p: u32) -> bool {
    exists|j: int|
        0 <= j < jobs.len() && (#[trigger] jobs[j]).pids@.contains(p) && jobs[j].status
            == JobStatus::Stopped
}

/// Executable check for `has_stopped_job`.
pub fn find_stopped_job(jobs: &Vec<Job>, p: u32) -> (r: bool)
    ensures
        r == has_stopped_job(jobs@, p),
{
    let mut i: usize = 0;
    #[verifier::loop_isolation(false)]
    while i < jobs.len()
        invariant
            i <= jobs@.len(),
            forall|j: int|
                0 <= j < i ==> !((#[trigger] jobs@[j]).pids@.contains(p) && jobs@[j].status
                    == JobStatus::Stopped),
        decreases jobs@.len() - i,
    {
        if vec_contains_u32(&jobs[i].pids, p) {
            let job = &jobs[i];
            if matches!(job.status, JobStatus::Stopped) {
                assert(jobs@[i as int].pids@.contains(p));
                return true;
            }
        }
        i += 1;
    }
    false
}

/// Drop every job holding this pid from the job table.  Stopped pids whose
/// job disappeared leave the stopped list with it.
pub fn remove_job(env: &mut Environment, pid: u32)
    requires
        old(env).wf(),
    ensures
        final(env).wf(),
        same_but_jobs(*old(env), *final(env)),
        final(env).procs == old(env).procs,
        final(env).jobs@ == old(env).jobs@.filter(|jb: Job| !jb.pids@.contains(pid)),
        final(env).stopped_procs@ == old(env).stopped_procs@.filter(
            |p: u32| has_stopped_job(final(env).jobs@, p),
        ),
{
    let ghost keep = |jb: Job| !jb.pids@.contains(pid);
    let mut kept: Vec<Job> = Vec::new();
    let ghost mut done: Seq<Job> = Seq::empty();
    proof {
        assert(done.filter(keep) =~= Seq::<Job>::empty());
        assert(done + env.jobs@ =~= env.jobs@);
    }
    #[verifier::loop_isolation(false)]
    while env.jobs.len() > 0
        invariant
            done + env.jobs@ == old(env).jobs@,
            kept@ == done.filter(keep),
            same_but_jobs(*old(env), *env),
            env.stopped_procs == old(env).stopped_procs,
            env.procs == old(env).procs,
        decreases env.jobs@.len(),
    {
        let jb = env.jobs.remove(0);
        let ghost done2 = done.push(jb);
        proof {
            assert(done2.drop_last() =~= done);
            assert(done2 + env.jobs@ =~= old(env).jobs@);
            reveal_with_fuel(Seq::filter, 2);
        }
        if !vec_contains_u32(&jb.pids, pid) {
            kept.push(jb);
        }
        proof {
            done = done2;
            assert(kept@ == done.filter(keep));
        }
    }
    proof {
        assert(done =~= old(env).jobs@);
    }
    env.jobs = kept;
    let ghost newjobs = env.jobs@;
    let ghost keep_p = |p: u32| has_stopped_job(newjobs, p);
    let mut kept_stopped: Vec<u32> = Vec::new();
    let mut i: usize = 0;
    proof {
        assert(env.stopped_procs@.subrange(0, 0) =~= Seq::<u32>::empty());
        assert(Seq::<u32>::empty().filter(keep_p) =~= Seq::<u32>::empty());
    }
    #[verifier::loop_isolation(false)]
    while i < env.stopped_procs.len()
        invariant
            i <= env.stopped_procs@.len(),
            newjobs == env.jobs@,
            kept_stopped@ == env.stopped_procs@.subrange(0, i as int).filter(keep_p),
        decreases env.stopped_procs@.len() - i,
    {
        let p = env.stopped_procs[i];
        let ghost pre = env.stopped_procs@.subrange(0, i + 1);
        proof {
            assert(pre.drop_last() =~= env.stopped_procs@.subrange(0, i as int));
            assert(pre.last() == p);
        }
        if find_stopped_job(&env.jobs, p) {
            kept_stopped.push(p);
        }
        proof {
            reveal_with_fuel(Seq::filter, 2);
            assert(kept_stopped@ == pre.filter(keep_p));
        }
        i += 1;
    }
    proof {
        assert(env.stopped_procs@.subrange(0, env.stopped_procs@.len() as int)
            =~= env.stopped_procs@);
    }
    env.stopped_procs = kept_stopped;
    proof {
        assert(env.scope_graph_wf());
        lemma_ns_preserved(*old(env), *env);
        assert forall|p: u32| env.stopped_procs@.contains(p) implies exists|jj: int|
            0 <= jj < env.jobs@.len() && (#[trigger] env.jobs@[jj]).pids@.contains(p)
                && env.jobs@[jj].status == JobStatus::Stopped by {
            lemma_filter_elem(old(env).stopped_procs@, keep_p, p);
            assert(has_stopped_job(newjobs, p));
        }
        assert forall|j: int, i2: int|
            0 <= j < env.jobs@.len() && 0 <= i2 < env.jobs@[j].pids@.len() implies env.procs@
                .contains(#[trigger] env.jobs@[j].pids@[i2]) by {
            lemma_filter_elem(old(env).jobs@, keep, env.jobs@[j]);
            let oj = choose|oj: int|
                0 <= oj < old(env).jobs@.len() && old(env).jobs@[oj] == env.jobs@[j];
            assert(old(env).procs@.contains(old(env).jobs@[oj].pids@[i2]));
        }
        assert(env.jobs_wf());
    }
}

/// Drop a pid from the process table once no job refers to it any more.
pub fn remove_process(env: &mut Environment, pid: u32)
    requires
        old(env).wf(),
        forall|j: int|
            0 <= j < old(env).jobs@.len() ==> !(#[trigger] old(env).jobs@[j]).pids@.contains(pid),
    ensures
        final(env).wf(),
        same_but_jobs(*old(env), *final(env)),
        final(env).jobs == old(env).jobs,
        final(env).stopped_procs == old(env).stopped_procs,
        final(env).procs@ == old(env).procs@.filter(|p: u32| p != pid),
{
    let ghost keep = |p: u32| p != pid;
    let mut kept: Vec<u32> = Vec::new();
    let mut i: usize = 0;
    proof {
        assert(env.procs@.subrange(0, 0) =~= Seq::<u32>::empty());
        assert(Seq::<u32>::empty().filter(keep) =~= Seq::<u32>::empty());
    }
    #[verifier::loop_isolation(false)]
    while i < env.procs.len()
        invariant
            i <= env.procs@.len(),
            kept@ == env.procs@.subrange(0, i as int).filter(keep),
        decreases env.procs@.len() - i,
    {
        let p = env.procs[i];
        let ghost pre = env.procs@.subrange(0, i + 1);
        proof {
            assert(pre.drop_last() =~= env.procs@.subrange(0, i as int));
            assert(pre.last() == p);
        }
        if p != pid {
            kept.push(p);
        }
        proof {
            reveal_with_fuel(Seq::filter, 2);
            assert(kept@ == pre.filter(keep));
        }
        i += 1;
    }
    proof {
        assert(env.procs@.subrange(0, env.procs@.len() as int) =~= env.procs@);
    }
    env.procs = kept;
    proof {
        assert(env.scope_graph_wf());
        lemma_ns_preserved(*old(env), *env);
        assert forall|p: u32| env.stopped_procs@.contains(p) implies exists|jj: int|
            0 <= jj < env.jobs@.len() && (#[trigger] env.jobs@[jj]).pids@.contains(p)
                && env.jobs@[jj].status == JobStatus::Stopped by {
            let jj = choose|jj: int|
                0 <= jj < old(env).jobs@.len() && (#[trigger] old(env).jobs@[jj]).pids@.contains(
                    p,
                ) && old(env).jobs@[jj].status == JobStatus::Stopped;
            assert(env.jobs@[jj].pids@.contains(p) && env.jobs@[jj].status == JobStatus::Stopped);
        }
        assert forall|j: int, i2: int|
            0 <= j < env.jobs@.len() && 0 <= i2 < env.jobs@[j].pids@.len() implies env.procs@
                .contains(#[trigger] env.jobs@[j].pids@[i2]) by {
            let q = env.jobs@[j].pids@[i2];
            assert(old(env).procs@.contains(q));
            let k = choose|k: int| 0 <= k < old(env).procs@.len() && old(env).procs@[k] == q;
            assert(q != pid);
            old(env).procs@.lemma_filter_contains(keep, k);
        }
        assert(env.jobs_wf());
    }
}


/// The nearest scope along the lexical chain from `i` that is a namespace
/// with this name.
pub open spec fn chain_ns_owner(env: Environment, i: int, name: Seq<char>) -> Option<int>
    decreases i,
{
    if 0 <= i < env.scopes@.len() {
        if env.scopes@[i].name matches Some(n) && n@ == name {
            Some(i)
        } else {
            match env.scopes@[i].outer {
                Some(j) => if j < i {
                    chain_ns_owner(env, j as int, name)
                } else {
                    None
                },
                None => None,
            }
        }
    } else {
        None
    }
}

/// Find the ancestor namespace scope with this name, starting from the
/// innermost scope.
pub fn find_ancestor_ns(env: &Environment, name: &str) -> (r: Option<usize>)
    requires
        env.wf(),
    ensures
        match r {
            Some(i) => chain_ns_owner(*env, env.spec_cur(), name@) == Some(i as int) && i
                < env.scopes@.len(),
            None => chain_ns_owner(*env, env.spec_cur(), name@) is None,
        },
{
    let mut idx: usize = env.cur();
    #[verifier::loop_isolation(false)]
    loop
        invariant
            idx < env.scopes@.len(),
            chain_ns_owner(*env, env.spec_cur(), name@) == chain_ns_owner(*env, idx as int, name@),
        decreases idx,
    {
        let matches_here = match &env.scopes[idx].name {
            Some(n) => crate::strutil::str_eq(n.as_str(), name),
            None => false,
        };
        if matches_here {
            return Some(idx);
        }
        match env.scopes[idx].outer {
            Some(j) => {
                idx = j;
            },
            None => {
                return None;
            },
        }
    }
}

/// Insert a binding in the scope at a given index.
pub fn set_expression_at(env: &mut Environment, at: usize, key: String, expression: Expression)
    requires
        old(env).wf(),
        at < old(env).scopes@.len(),
    ensures
        final(env).wf(),
        same_non_scope(*old(env), *final(env)),
        scopes_with_data(
            *old(env),
            *final(env),
            at as int,
            old(env).scopes@[at as int].data@.insert(key@, expression),
        ),
{
    let scope = &mut env.scopes[at];
    scope.data.insert(key, expression);
    proof {
        assert(forall|i: int|
            0 <= i < env.scopes@.len() && i != at ==> #[trigger] env.scopes@[i]
                == old(env).scopes@[i]);
        assert(env.scopes@[at as int].outer == old(env).scopes@[at as int].outer);
        assert(env.scopes@[at as int].name == old(env).scopes@[at as int].name);
        assert(env.scope_graph_wf());
        lemma_ns_jobs_preserved(*old(env), *env);
    }
}

/// Enter a scope: push its index onto the scope stack.
pub fn push_scope(env: &mut Environment, idx: usize)
    requires
        old(env).wf(),
        idx < old(env).scopes@.len(),
    ensures
        final(env).wf(),
        same_non_scope(*old(env), *final(env)),
        final(env).scopes == old(env).scopes,
        final(env).current_scope@ == old(env).current_scope@.push(idx),
{
    env.current_scope.push(idx);
    proof {
        assert(env.scope_graph_wf());
        lemma_ns_jobs_preserved(*old(env), *env);
    }
}

/// Mapping a value-level insert through the model is an insert of the
/// model of the value.
pub proof fn lemma_data_v_insert(m: Map<Seq<char>, Expression>, k: Seq<char>, e: Expression)
    ensures
        m.insert(k, e).map_values(|x: Expression| v_expr(x)) == m.map_values(
            |x: Expression| v_expr(x),
        ).insert(k, v_expr(e)),
{
    assert(m.insert(k, e).map_values(|x: Expression| v_expr(x)) =~~= m.map_values(
        |x: Expression| v_expr(x),
    ).insert(k, v_expr(e)));
}


/// Well-formedness depends only on these fields; a state that keeps them
/// keeps the invariant.
pub proof fn lemma_wf_fields(a: Environment, b: Environment)
    requires
        a.wf(),
        b.scopes == a.scopes,
        b.current_scope == a.current_scope,
        b.namespaces == a.namespaces,
        b.ns_names == a.ns_names,
        b.stopped_procs == a.stopped_procs,
        b.jobs == a.jobs,
        b.procs == a.procs,
    ensures
        b.wf(),
{
    lemma_ns_jobs_preserved(a, b);
    assert(b.scope_graph_wf());
}

/// The dynamic bindings at the model level.
pub open spec fn dyn_v(env: Environment) -> Map<Seq<char>, Vx> {
    env.dynamic_scope@.map_values(|e: Expression| v_expr(e))
}


/// `first_job_with` only looks at the pid lists, so it agrees across
/// tables whose pid lists agree.
pub proof fn lemma_first_job_same_pids(a: Seq<Job>, b: Seq<Job>, pid: u32, i: int)
    requires
        b.len() == a.len(),
        forall|k: int| 0 <= k < a.len() ==> (#[trigger] b[k]).pids == a[k].pids,
    ensures
        first_job_with(b, pid, i) == first_job_with(a, pid, i),
    decreases a.len() - i,
{
    if 0 <= i < a.len() {
        assert(b[i].pids == a[i].pids);
        lemma_first_job_same_pids(a, b, pid, i + 1);
    }
}

/// The job `first_job_with` finds does hold the pid.
pub proof fn lemma_first_job_props(jobs: Seq<Job>, pid: u32, i: int)
    requires
        first_job_with(jobs, pid, i) is Some,
    ensures
        ({
            let j = first_job_with(jobs, pid, i)->Some_0;
            &&& i <= j < jobs.len()
            &&& jobs[j].pids@.contains(pid)
        }),
    decreases jobs.len() - i,
{
    if 0 <= i < jobs.len() && !jobs[i].pids@.contains(pid) {
        lemma_first_job_props(jobs, pid, i + 1);
    }
}


impl Default for Scope {
    /// The root scope: every native callable, the standard stream
    /// bindings, and the namespace marker `*ns*`.
    fn default() -> (r: Scope)
        ensures
            r.name matches Some(n) && n@ == "root"@,
            r.outer is None,
            r.data@.contains_key("quote"@) && r.data@["quote"@] == Expression::Builtin(
                BuiltinId::Quote,
            ),
            r.data@.contains_key("bquote"@) && r.data@["bquote"@] == Expression::Builtin(
                BuiltinId::BQuote,
            ),
            r.data@.contains_key("if"@) && r.data@["if"@] == Expression::Builtin(
                BuiltinId::If,
            ),
            r.data@.contains_key("and"@) && r.data@["and"@] == Expression::Builtin(
                BuiltinId::And,
            ),
            r.data@.contains_key("or"@) && r.data@["or"@] == Expression::Builtin(
                BuiltinId::Or,
            ),
            r.data@.contains_key("not"@) && r.data@["not"@] == Expression::Builtin(
                BuiltinId::Not,
            ),
            r.data@.contains_key("null"@) && r.data@["null"@] == Expression::Builtin(
                BuiltinId::Not,
            ),
            r.data@.contains_key("progn"@) && r.data@["progn"@] == Expression::Builtin(
                BuiltinId::Progn,
            ),
            r.data@.contains_key("="@) && r.data@["="@] == Expression::Builtin(
                BuiltinId::Equal,
            ),
            r.data@.contains_key("+"@) && r.data@["+"@] == Expression::Builtin(
                BuiltinId::Add,
            ),
            r.data@.contains_key("-"@) && r.data@["-"@] == Expression::Builtin(
                BuiltinId::Sub,
            ),
            r.data@.contains_key("*"@) && r.data@["*"@] == Expression::Builtin(
                BuiltinId::Mul,
            ),
    {
        let mut data = vstd::hash_map::StringHashMap::<Expression>::new();
        crate::builtins::add_builtins(&mut data);
        crate::builtins::add_file_builtins(&mut data);
        data.insert(
            String::from_str("*stdin*"),
            Expression::File(crate::types::FileState::Stdin),
        );
        data.insert(
            String::from_str("*stdout*"),
            Expression::File(crate::types::FileState::Stdout),
        );
        data.insert(
            String::from_str("*stderr*"),
            Expression::File(crate::types::FileState::Stderr),
        );
        data.insert(
            String::from_str("*ns*"),
            Expression::Atom(Atom::Str(String::from_str("root"))),
        );
        proof {
            reveal_strlit("quote");
            reveal_strlit("bquote");
            reveal_strlit("if");
            reveal_strlit("and");
            reveal_strlit("or");
            reveal_strlit("not");
            reveal_strlit("null");
            reveal_strlit("progn");
            reveal_strlit("=");
            reveal_strlit("+");
            reveal_strlit("-");
            reveal_strlit("*");
            reveal_strlit("*stdin*");
            reveal_strlit("*stdout*");
            reveal_strlit("*stderr*");
            reveal_strlit("*ns*");
            reveal_strlit("err-null");
            reveal_strlit("file-rdr");
            reveal_strlit("stdout-to");
            reveal_strlit("stderr-to");
            assert("quote"@.len() == 5 && "quote"@[0] == 'q' && "quote"@[1] == 'u' && "quote"@[2] == 'o' && "quote"@[3] == 't' && "quote"@[4] == 'e');
            assert("bquote"@.len() == 6 && "bquote"@[0] == 'b' && "bquote"@[1] == 'q' && "bquote"@[2] == 'u' && "bquote"@[3] == 'o' && "bquote"@[4] == 't' && "bquote"@[5] == 'e');
            assert("if"@.len() == 2 && "if"@[0] == 'i' && "if"@[1] == 'f');
            assert("and"@.len() == 3 && "and"@[0] == 'a' && "and"@[1] == 'n' && "and"@[2] == 'd');
            assert("or"@.len() == 2 && "or"@[0] == 'o' && "or"@[1] == 'r');
            assert("not"@.len() == 3 && "not"@[0] == 'n' && "not"@[1] == 'o' && "not"@[2] == 't');
            assert("null"@.len() == 4 && "null"@[0] == 'n' && "null"@[1] == 'u' && "null"@[2] == 'l' && "null"@[3] == 'l');
            assert("progn"@.len() == 5 && "progn"@[0] == 'p' && "progn"@[1] == 'r' && "progn"@[2] == 'o' && "progn"@[3] == 'g' && "progn"@[4] == 'n');
            assert("="@.len() == 1 && "="@[0] == '=');
            assert("+"@.len() == 1 && "+"@[0] == '+');
            assert("-"@.len() == 1 && "-"@[0] == '-');
            assert("*"@.len() == 1 && "*"@[0] == '*');
            assert("*stdin*"@.len() == 7 && "*stdin*"@[0] == '*' && "*stdin*"@[1] == 's' && "*stdin*"@[2] == 't' && "*stdin*"@[3] == 'd' && "*stdin*"@[4] == 'i' && "*stdin*"@[5] == 'n' && "*stdin*"@[6] == '*');
            assert("*stdout*"@.len() == 8 && "*stdout*"@[0] == '*' && "*stdout*"@[1] == 's' && "*stdout*"@[2] == 't' && "*stdout*"@[3] == 'd' && "*stdout*"@[4] == 'o' && "*stdout*"@[5] == 'u' && "*stdout*"@[6] == 't' && "*stdout*"@[7] == '*');
            assert("*stderr*"@.len() == 8 && "*stderr*"@[0] == '*' && "*stderr*"@[1] == 's' && "*stderr*"@[2] == 't' && "*stderr*"@[3] == 'd' && "*stderr*"@[4] == 'e' && "*stderr*"@[5] == 'r' && "*stderr*"@[6] == 'r' && "*stderr*"@[7] == '*');
            assert("*ns*"@.len() == 4 && "*ns*"@[0] == '*' && "*ns*"@[1] == 'n' && "*ns*"@[2] == 's' && "*ns*"@[3] == '*');
            assert("err-null"@.len() == 8 && "err-null"@[0] == 'e' && "err-null"@[1] == 'r' && "err-null"@[2] == 'r' && "err-null"@[3] == '-' && "err-null"@[4] == 'n' && "err-null"@[5] == 'u' && "err-null"@[6] == 'l' && "err-null"@[7] == 'l');
            assert("file-rdr"@.len() == 8 && "file-rdr"@[0] == 'f' && "file-rdr"@[1] == 'i' && "file-rdr"@[2] == 'l' && "file-rdr"@[3] == 'e' && "file-rdr"@[4] == '-' && "file-rdr"@[5] == 'r' && "file-rdr"@[6] == 'd' && "file-rdr"@[7] == 'r');
            assert("stdout-to"@.len() == 9 && "stdout-to"@[0] == 's' && "stdout-to"@[1] == 't' && "stdout-to"@[2] == 'd' && "stdout-to"@[3] == 'o' && "stdout-to"@[4] == 'u' && "stdout-to"@[5] == 't' && "stdout-to"@[6] == '-' && "stdout-to"@[7] == 't' && "stdout-to"@[8] == 'o');
            assert("stderr-to"@.len() == 9 && "stderr-to"@[0] == 's' && "stderr-to"@[1] == 't' && "stderr-to"@[2] == 'd' && "stderr-to"@[3] == 'e' && "stderr-to"@[4] == 'r' && "stderr-to"@[5] == 'r' && "stderr-to"@[6] == '-' && "stderr-to"@[7] == 't' && "stderr-to"@[8] == 'o');
            assert(data@.contains_key("quote"@) && data@["quote"@] == Expression::Builtin(BuiltinId::Quote));
            assert(data@.contains_key("bquote"@) && data@["bquote"@] == Expression::Builtin(BuiltinId::BQuote));
            assert(data@.contains_key("if"@) && data@["if"@] == Expression::Builtin(BuiltinId::If));
            assert(data@.contains_key("and"@) && data@["and"@] == Expression::Builtin(BuiltinId::And));
            assert(data@.contains_key("or"@) && data@["or"@] == Expression::Builtin(BuiltinId::Or));
            assert(data@.contains_key("not"@) && data@["not"@] == Expression::Builtin(BuiltinId::Not));
            assert(data@.contains_key("null"@) && data@["null"@] == Expression::Builtin(BuiltinId::Not));
            assert(data@.contains_key("progn"@) && data@["progn"@] == Expression::Builtin(BuiltinId::Progn));
            assert(data@.contains_key("="@) && data@["="@] == Expression::Builtin(BuiltinId::Equal));
            assert(data@.contains_key("+"@) && data@["+"@] == Expression::Builtin(BuiltinId::Add));
            assert(data@.contains_key("-"@) && data@["-"@] == Expression::Builtin(BuiltinId::Sub));
            assert(data@.contains_key("*"@) && data@["*"@] == Expression::Builtin(BuiltinId::Mul));
        }
        Scope { data, outer: None, name: Some(String::from_str("root")) }
    }
}

impl Scope {
    /// A lexical scope holding the given bindings, whose parent is the
    /// given environment's innermost scope.
    pub fn with_data(
        environment: Option<&Environment>,
        data_in: vstd::hash_map::StringHashMap<Expression>,
    ) -> (r: Scope)
        requires
            environment matches Some(e) ==> e.wf(),
        ensures
            r.data == data_in,
            r.name is None,
            environment matches Some(e) ==> r.outer == Some(e.spec_cur() as usize),
            environment is None ==> r.outer is None,
    {
        let outer = match environment {
            Some(e) => Some(e.cur()),
            None => None,
        };
        Scope { data: data_in, outer, name: None }
    }
}

/// A fresh interpreter state: one root scope registered as the namespace
/// "root".
pub fn build_default_environment() -> (env: Environment)
    ensures
        env.wf(),
        env.current_scope@ == seq![0usize],
        env.scopes@.len() == 1,
        env.dynamic_scope@ == Map::<Seq<char>, Expression>::empty(),
        env.exit_code is None,
        env.jobs@.len() == 0,
        env.stopped_procs@.len() == 0,
        env.procs@.len() == 0,
        env.form_type == FormType::Any,
        !env.loose_symbols,
        !env.in_pipe,
        crate::semantics::lookup_vx(env, "quote"@) == Some(Vx::Builtin(BuiltinId::Quote)),
        crate::semantics::lookup_vx(env, "bquote"@) == Some(Vx::Builtin(BuiltinId::BQuote)),
        crate::semantics::lookup_vx(env, "if"@) == Some(Vx::Builtin(BuiltinId::If)),
        crate::semantics::lookup_vx(env, "and"@) == Some(Vx::Builtin(BuiltinId::And)),
        crate::semantics::lookup_vx(env, "or"@) == Some(Vx::Builtin(BuiltinId::Or)),
        crate::semantics::lookup_vx(env, "not"@) == Some(Vx::Builtin(BuiltinId::Not)),
        crate::semantics::lookup_vx(env, "null"@) == Some(Vx::Builtin(BuiltinId::Not)),
        crate::semantics::lookup_vx(env, "progn"@) == Some(Vx::Builtin(BuiltinId::Progn)),
        crate::semantics::lookup_vx(env, "="@) == Some(Vx::Builtin(BuiltinId::Equal)),
        crate::semantics::lookup_vx(env, "+"@) == Some(Vx::Builtin(BuiltinId::Add)),
        crate::semantics::lookup_vx(env, "-"@) == Some(Vx::Builtin(BuiltinId::Sub)),
        crate::semantics::lookup_vx(env, "*"@) == Some(Vx::Builtin(BuiltinId::Mul)),
{
    let root = Scope::default();
    let mut scopes: Vec<Scope> = Vec::new();
    scopes.push(root);
    let mut current_scope: Vec<usize> = Vec::new();
    current_scope.push(0);
    let mut namespaces = vstd::hash_map::StringHashMap::<usize>::new();
    namespaces.insert(String::from_str("root"), 0);
    let mut ns_names: Vec<String> = Vec::new();
    ns_names.push(String::from_str("root"));
    let env = Environment {
        state: Default::default(),
        stopped_procs: Vec::new(),
        jobs: Vec::new(),
        in_pipe: false,
        run_background: false,
        is_tty: true,
        do_job_control: true,
        loose_symbols: false,
        str_ignore_expand: false,
        procs: Vec::new(),
        data_in: None,
        form_type: FormType::Any,
        save_exit_status: true,
        stack_on_error: false,
        error_expression: None,
        exit_code: None,
        dynamic_scope: vstd::hash_map::StringHashMap::new(),
        scopes,
        current_scope,
        namespaces,
        ns_names,
    };
    proof {
        assert(env.current_scope@ =~= seq![0usize]);
        assert(env.scope_graph_wf());
        assert forall|k: Seq<char>| env.namespaces@.contains_key(k) implies {
            let i = #[trigger] env.namespaces@[k];
            &&& 0 <= i < env.scopes@.len()
            &&& env.scopes@[i as int].name matches Some(n) && n@ == k
            &&& (i == 0 || env.scopes@[i as int].outer == Some(0usize))
        } by {
            assert(k == "root"@);
        }
        assert forall|k: Seq<char>| env.namespaces@.contains_key(k) implies exists|i: int|
            0 <= i < env.ns_names@.len() && (#[trigger] env.ns_names@[i])@ == k by {
            assert(env.ns_names@[0]@ == "root"@);
        }
        assert(env.ns_wf());
        assert(env.jobs_wf());
        reveal_strlit("quote");
        reveal_strlit("bquote");
        reveal_strlit("if");
        reveal_strlit("and");
        reveal_strlit("or");
        reveal_strlit("not");
        reveal_strlit("null");
        reveal_strlit("progn");
        reveal_strlit("=");
        reveal_strlit("+");
        reveal_strlit("-");
        reveal_strlit("*");
        assert("quote"@.len() == 5 && "quote"@[0] == 'q' && "quote"@[1] == 'u' && "quote"@[2] == 'o' && "quote"@[3] == 't' && "quote"@[4] == 'e');
        assert("bquote"@.len() == 6 && "bquote"@[0] == 'b' && "bquote"@[1] == 'q' && "bquote"@[2] == 'u' && "bquote"@[3] == 'o' && "bquote"@[4] == 't' && "bquote"@[5] == 'e');
        assert("if"@.len() == 2 && "if"@[0] == 'i' && "if"@[1] == 'f');
        assert("and"@.len() == 3 && "and"@[0] == 'a' && "and"@[1] == 'n' && "and"@[2] == 'd');
        assert("or"@.len() == 2 && "or"@[0] == 'o' && "or"@[1] == 'r');
        assert("not"@.len() == 3 && "not"@[0] == 'n' && "not"@[1] == 'o' && "not"@[2] == 't');
        assert("null"@.len() == 4 && "null"@[0] == 'n' && "null"@[1] == 'u' && "null"@[2] == 'l' && "null"@[3] == 'l');
        assert("progn"@.len() == 5 && "progn"@[0] == 'p' && "progn"@[1] == 'r' && "progn"@[2] == 'o' && "progn"@[3] == 'g' && "progn"@[4] == 'n');
        assert("="@.len() == 1 && "="@[0] == '=');
        assert("+"@.len() == 1 && "+"@[0] == '+');
        assert("-"@.len() == 1 && "-"@[0] == '-');
        assert("*"@.len() == 1 && "*"@[0] == '*');
        assert(crate::strutil::first_dc_from("quote"@, 4) is None);
        assert(crate::strutil::first_dc_from("quote"@, 3) is None);
        assert(crate::strutil::first_dc_from("quote"@, 2) is None);
        assert(crate::strutil::first_dc_from("quote"@, 1) is None);
        assert(crate::strutil::first_dc_from("quote"@, 0) is None);
        assert(chain_lookup(env, 0, "quote"@) == Some(env.scopes@[0].data@["quote"@]));
        assert(crate::semantics::lookup_vx(env, "quote"@) == Some(Vx::Builtin(BuiltinId::Quote)));
        assert(crate::strutil::first_dc_from("bquote"@, 5) is None);
        assert(crate::strutil::first_dc_from("bquote"@, 4) is None);
        assert(crate::strutil::first_dc_from("bquote"@, 3) is None);
        assert(crate::strutil::first_dc_from("bquote"@, 2) is None);
        assert(crate::strutil::first_dc_from("bquote"@, 1) is None);
        assert(crate::strutil::first_dc_from("bquote"@, 0) is None);
        assert(chain_lookup(env, 0, "bquote"@) == Some(env.scopes@[0].data@["bquote"@]));
        assert(crate::semantics::lookup_vx(env, "bquote"@) == Some(Vx::Builtin(BuiltinId::BQuote)));
        assert(crate::strutil::first_dc_from("if"@, 1) is None);
        assert(crate::strutil::first_dc_from("if"@, 0) is None);
        assert(chain_lookup(env, 0, "if"@) == Some(env.scopes@[0].data@["if"@]));
        assert(crate::semantics::lookup_vx(env, "if"@) == Some(Vx::Builtin(BuiltinId::If)));
        assert(crate::strutil::first_dc_from("and"@, 2) is None);
        assert(crate::strutil::first_dc_from("and"@, 1) is None);
        assert(crate::strutil::first_dc_from("and"@, 0) is None);
        assert(chain_lookup(env, 0, "and"@) == Some(env.scopes@[0].data@["and"@]));
        assert(crate::semantics::lookup_vx(env, "and"@) == Some(Vx::Builtin(BuiltinId::And)));
        assert(crate::strutil::first_dc_from("or"@, 1) is None);
        assert(crate::strutil::first_dc_from("or"@, 0) is None);
        assert(chain_lookup(env, 0, "or"@) == Some(env.scopes@[0].data@["or"@]));
        assert(crate::semantics::lookup_vx(env, "or"@) == Some(Vx::Builtin(BuiltinId::Or)));
        assert(crate::strutil::first_dc_from("not"@, 2) is None);
        assert(crate::strutil::first_dc_from("not"@, 1) is None);
        assert(crate::strutil::first_dc_from("not"@, 0) is None);
        assert(chain_lookup(env, 0, "not"@) == Some(env.scopes@[0].data@["not"@]));
        assert(crate::semantics::lookup_vx(env, "not"@) == Some(Vx::Builtin(BuiltinId::Not)));
        assert(crate::strutil::first_dc_from("null"@, 3) is None);
        assert(crate::strutil::first_dc_from("null"@, 2) is None);
        assert(crate::strutil::first_dc_from("null"@, 1) is None);
        assert(crate::strutil::first_dc_from("null"@, 0) is None);
        assert(chain_lookup(env, 0, "null"@) == Some(env.scopes@[0].data@["null"@]));
        assert(crate::semantics::lookup_vx(env, "null"@) == Some(Vx::Builtin(BuiltinId::Not)));
        assert(crate::strutil::first_dc_from("progn"@, 4) is None);
        assert(crate::strutil::first_dc_from("progn"@, 3) is None);
        assert(crate::strutil::first_dc_from("progn"@, 2) is None);
        assert(crate::strutil::first_dc_from("progn"@, 1) is None);
        assert(crate::strutil::first_dc_from("progn"@, 0) is None);
        assert(chain_lookup(env, 0, "progn"@) == Some(env.scopes@[0].data@["progn"@]));
        assert(crate::semantics::lookup_vx(env, "progn"@) == Some(Vx::Builtin(BuiltinId::Progn)));
        assert(crate::strutil::first_dc_from("="@, 0) is None);
        assert(chain_lookup(env, 0, "="@) == Some(env.scopes@[0].data@["="@]));
        assert(crate::semantics::lookup_vx(env, "="@) == Some(Vx::Builtin(BuiltinId::Equal)));
        assert(crate::strutil::first_dc_from("+"@, 0) is None);
        assert(chain_lookup(env, 0, "+"@) == Some(env.scopes@[0].data@["+"@]));
        assert(crate::semantics::lookup_vx(env, "+"@) == Some(Vx::Builtin(BuiltinId::Add)));
        assert(crate::strutil::first_dc_from("-"@, 0) is None);
        assert(chain_lookup(env, 0, "-"@) == Some(env.scopes@[0].data@["-"@]));
        assert(crate::semantics::lookup_vx(env, "-"@) == Some(Vx::Builtin(BuiltinId::Sub)));
        assert(crate::strutil::first_dc_from("*"@, 0) is None);
        assert(chain_lookup(env, 0, "*"@) == Some(env.scopes@[0].data@["*"@]));
        assert(crate::semantics::lookup_vx(env, "*"@) == Some(Vx::Builtin(BuiltinId::Mul)));
    }
    env
}

/// An interpreter state for an isolated worker: a root scope built from
/// the given bindings plus the namespace marker.
pub fn build_new_spawn_scope(data_in: Vec<(String, Expression)>) -> (env: Environment)
    ensures
        env.wf(),
        env.state.is_spawn,
{
    let mut data = vstd::hash_map::StringHashMap::<Expression>::new();
    data.insert(
        String::from_str("*ns*"),
        Expression::Atom(Atom::Str(String::from_str("root"))),
    );
    let mut items = data_in;
    #[verifier::loop_isolation(false)]
    while items.len() > 0
        decreases items@.len(),
    {
        match items.pop() {
            Some(kv) => {
                data.insert(kv.0, kv.1);
            },
            None => {
                break ;
            },
        }
    }
    let mut state: EnvState = Default::default();
    state.is_spawn = true;
    let root = Scope { data, outer: None, name: Some(String::from_str("root")) };
    let mut scopes: Vec<Scope> = Vec::new();
    scopes.push(root);
    let mut current_scope: Vec<usize> = Vec::new();
    current_scope.push(0);
    let mut namespaces = vstd::hash_map::StringHashMap::<usize>::new();
    namespaces.insert(String::from_str("root"), 0);
    let mut ns_names: Vec<String> = Vec::new();
    ns_names.push(String::from_str("root"));
    let env = Environment {
        state,
        stopped_procs: Vec::new(),
        jobs: Vec::new(),
        in_pipe: false,
        run_background: false,
        is_tty: false,
        do_job_control: false,
        loose_symbols: false,
        str_ignore_expand: false,
        procs: Vec::new(),
        data_in: None,
        form_type: FormType::Any,
        save_exit_status: true,
        stack_on_error: false,
        error_expression: None,
        exit_code: None,
        dynamic_scope: vstd::hash_map::StringHashMap::new(),
        scopes,
        current_scope,
        namespaces,
        ns_names,
    };
    proof {
        assert(env.current_scope@ =~= seq![0usize]);
        assert(env.scope_graph_wf());
        assert forall|k: Seq<char>| env.namespaces@.contains_key(k) implies {
            let i = #[trigger] env.namespaces@[k];
            &&& 0 <= i < env.scopes@.len()
            &&& env.scopes@[i as int].name matches Some(n) && n@ == k
            &&& (i == 0 || env.scopes@[i as int].outer == Some(0usize))
        } by {
            assert(k == "root"@);
        }
        assert forall|k: Seq<char>| env.namespaces@.contains_key(k) implies exists|i: int|
            0 <= i < env.ns_names@.len() && (#[trigger] env.ns_names@[i])@ == k by {
            assert(env.ns_names@[0]@ == "root"@);
        }
        assert(env.ns_wf());
        assert(env.jobs_wf());
    }
    env
}


/// Is the key bound at all?  `$`-prefixed keys ask the process
/// environment through the port; everything else follows the full lookup
/// rule.
pub fn is_expression<P: crate::port::SysPort>(env: &Environment, port: &mut P, key: &str) -> (r:
    bool)
    requires
        env.wf(),
    ensures
        (key@.len() == 0 || key@[0] != '$') ==> r == (lookup_full(*env, key@) is Some),
{
    if crate::strutil::starts_with_char(key, '$') {
        let klen = key.unicode_len();
        let name = key.substring_char(1, klen);
        port.getenv(name).is_some()
    } else {
        get_expression(env, key).is_some()
    }
}

} // verus!
