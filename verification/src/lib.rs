//! A small interactive shell: a command line is split into words, the first
//! word names a builtin or a program found on the search path, and builtins
//! compute what they print from plain values handed in by the caller.

pub mod text;
pub mod commands;
pub mod command_node;
pub mod parser;
pub mod resolver;
pub mod executor;
pub mod repl;
