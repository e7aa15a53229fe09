//! A verified evaluation core for a small Lisp-dialect shell language.
//!
//! The library models the value universe, the lexically/dynamically/namespace
//! scoped environment, the tree-walking evaluator with its macro expander and
//! quasiquote engine, and the job bookkeeping for external processes.  All
//! interaction with the operating system (spawning, signals, files, process
//! environment variables, the reader front end) goes through the [`port::SysPort`]
//! trait, which the surrounding program implements.

pub mod builtins;
pub mod environment;
pub mod eval;
pub mod laws;
pub mod params;
pub mod port;
pub mod semantics;
pub mod shell;
pub mod strutil;
pub mod types;
