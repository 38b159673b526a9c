//! A small interpreter for a line-oriented scripting language: integers,
//! sums, variables, functions, conditionals, counted loops, `print`, and
//! modules that are imported by name.
//!
//! The interpreter has three stages, and each has a mathematical model that
//! says what the stage computes and an implementation that is proved to
//! compute it:
//!
//! | stage | implementation | model |
//! |---|---|---|
//! | text to tokens | [`lexer::tokenize`] | [`lexer::lex`] |
//! | tokens to statements | [`parser::parse`] | [`parser::grammar::program`] |
//! | statements to effects and a value | [`eval::eval_stmts`] | [`eval::semantics::run`] |
//!
//! [`program::interpret`] runs the three in turn.
//!
//! Nothing here reads or writes. The text of a program, of the modules that
//! it imports and of the lines that it reads come in as values, in a
//! [`eval::host::Host`]; what the program prints goes out as a value, in a
//! [`eval::host::Trace`]. No function panics: a text that is no program yields
//! error tokens and error statements, and an evaluation that cannot go on
//! yields a [`eval::host::Fault`].

pub mod ast;
pub mod eval;
pub mod lexer;
pub mod parser;
pub mod program;
pub mod text;
pub mod view;
