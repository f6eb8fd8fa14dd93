//! Core of an interactive POSIX-style command-line shell.
//!
//! The library covers the three subsystems that carry the engineering
//! weight of a shell: the lexer that turns a typed line into tokens, the
//! recursive-descent parser that builds a command tree, and the executor,
//! modelled as a step machine that decides which process-level action
//! (fork, wait, pipe, redirect, ...) comes next. An unverified front end
//! performs those actions against the operating system and feeds the
//! results back in.

pub mod executor;
pub mod lexer;
pub mod parser;
pub mod semantics;
pub mod utils;

pub use executor::execute;
pub use executor::Action;
pub use executor::ChildTask;
pub use executor::Event;
pub use executor::Execution;
pub use executor::Step;
pub use lexer::lexer;
pub use parser::parse;
pub use parser::parse_pipe;
pub use parser::parse_redirect;
pub use parser::parse_sequence;
pub use parser::parse_simple_command;
pub use parser::Parser;
pub use utils::built_ins;
pub use utils::Command;
pub use utils::CommandV;
pub use utils::ConditionalType;
pub use utils::ExecutionContext;
pub use utils::ExecutionError;
pub use utils::LexerError;
pub use utils::LexerState;
pub use utils::ParserError;
pub use utils::RedirectionType;
pub use utils::ShellError;
pub use utils::SimpleCommand;
pub use utils::SimpleCommandV;
pub use utils::Token;
pub use utils::TokenV;
pub use utils::WordSource;
