//! A workspace manager's command line, verified.
//!
//! The heart of the crate is a parser for hierarchical command lines: a
//! tree of commands, each with its arguments and subcommands ([`schema`]),
//! a tokenizer for raw arguments ([`token`]), a recursive-descent parser
//! that yields a [`command::Command`] or an [`error::ParseError`]
//! ([`parser`]), and help text for every command of the tree ([`help`]).
//! What the parser guarantees beyond its contract is proved in
//! [`guarantees`].
//!
//! Around it stand the decisions of the workspace manager itself: the list
//! of workspaces ([`config`]), what the arguments ask for ([`dispatch`]),
//! the text exchanged with the picker ([`picker`]) and the invocations of
//! the terminal multiplexer ([`session`]).

pub mod command;
pub mod config;
pub mod dispatch;
pub mod error;
pub mod guarantees;
pub mod help;
pub mod parser;
pub mod picker;
pub mod schema;
pub mod session;
pub mod text;
pub mod token;
