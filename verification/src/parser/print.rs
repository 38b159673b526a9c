//! `print` statements.

use crate::ast::Stmt;
use crate::lexer::Token;
use crate::parser::cursor::{is_at, word_at};
use crate::parser::expr::parse_expr;
use crate::parser::grammar::{print_at, remaining};
use crate::parser::import::stmt_option;
use crate::parser::messages::UNCLOSED_PRINT;
use crate::view::views;
use vstd::prelude::*;

verus! {

/// Reads `print(expr)`.
///
/// `None`, with the cursor unmoved, where the word `print` and an opening
/// parenthesis do not stand at the cursor. Where the argument cannot be read
/// or the closing parenthesis is missing, the statement is an error and the
/// cursor rests on the token that could not be accepted.
pub fn parse_print(tokens: &[Token], pos: &mut usize) -> (r: Option<Stmt>)
    ensures
        stmt_option(r) == print_at(views(tokens@), *old(pos) as nat).value,
        *final(pos) == *old(pos) + print_at(views(tokens@), *old(pos) as nat).used,
    decreases remaining(views(tokens@), *old(pos) as nat), 6nat,
{
    if !word_at(tokens, *pos, "print") {
        return None;
    }
    if !is_at(tokens, *pos + 1, &Token::LParen) {
        return None;
    }
    *pos += 2;
    match parse_expr(tokens, pos) {
        Err(e) => Some(Stmt::Error(e.message())),
        Ok(arg) => {
            if is_at(tokens, *pos, &Token::RParen) {
                *pos += 1;
                Some(Stmt::Print(Box::new(arg)))
            } else {
                Some(Stmt::Error(UNCLOSED_PRINT.to_owned()))
            }
        },
    }
}

} // verus!
