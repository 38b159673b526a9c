//! `use` statements.

use crate::ast::Stmt;
use crate::lexer::Token;
use crate::parser::grammar::use_at;
use crate::parser::import::{parse_module, stmt_option};
use crate::parser::messages::USE_NEEDS_MODULE;
use crate::view::views;
use vstd::prelude::*;

verus! {

/// Reads `use module` or `use "file"`.
///
/// `None`, with the cursor unmoved, where the word `use` does not stand at the
/// cursor.
pub fn parse_use(tokens: &[Token], pos: &mut usize) -> (r: Option<Stmt>)
    ensures
        stmt_option(r) == use_at(views(tokens@), *old(pos) as nat).value,
        *final(pos) == *old(pos) + use_at(views(tokens@), *old(pos) as nat).used,
{
    parse_module(tokens, pos, "use", USE_NEEDS_MODULE)
}

} // verus!
