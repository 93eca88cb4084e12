//! Command execution core of a small interactive shell: line preparation,
//! tokenizing, built-in dispatch, exit-status parsing and redirection planning.
//! The process-level effects (fork, exec, descriptor duplication, changing
//! directory) are performed by the caller from the actions decided here.
pub mod text;
pub mod parser;
pub mod number;
pub mod redirect;
pub mod worker;
pub mod messages;
