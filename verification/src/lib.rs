//! A Lisp that is a shell: the evaluation engine.
//!
//! Expressions are data or forms; a form whose operator names nothing is an
//! external command, and a pipeline of commands is a form like any other. The
//! engine evaluates expressions, resolves symbols, calls lambdas and macros
//! without nesting calls in tail position, substitutes in literal text, and
//! sequences the stages of pipelines. What it needs from the program around it
//! (the reader, the symbol pass, the program's own natives, and the process
//! layer of the operating system) it asks of a [`host::Host`].
//!
//! What evaluation means is written down in [`semantics`], as functions from a
//! state and an expression to a result and a state; the evaluator is proved to
//! compute them, and [`laws`] states what follows.

pub mod apply;
pub mod args;
pub mod binding;
pub mod builtins;
pub mod builtins_file;
pub mod builtins_values;
pub mod call;
pub mod environment;
pub mod error;
pub mod eval;
pub mod forms;
pub mod frames;
pub mod host;
pub mod invoke;
pub mod laws;
pub mod laws_calls;
pub mod laws_shell;
pub mod laws_values;
pub mod lazy;
pub mod process;
pub mod quasi;
pub mod quasi_item;
pub mod quasi_items;
pub mod reframe;
pub mod rounds;
pub mod scan;
pub mod semantics;
pub mod steps;
pub mod substitute;
pub mod take;
pub mod text;
pub mod types;
