//! `import` statements.

use crate::ast::{Stmt, StmtView};
use crate::lexer::Token;
use crate::parser::cursor::{name_at, text_at, word_at};
use crate::parser::grammar::{import_at, module_at};
use crate::parser::messages::{IMPORT_NEEDS_FILE, MODULE_EXTENSION};
use crate::view::views;
use vstd::prelude::*;
use vstd::string::StringExecFns;

verus! {

/// The view of a statement that may be absent.
pub open spec fn stmt_option(r: Option<Stmt>) -> Option<StmtView> {
    match r {
        Some(s) => Some(s@),
        None => None,
    }
}

/// Reads a module reference behind the word `keyword`: a string literal that
/// names a file, or an identifier, which stands for the file of that name with
/// the extension `.nasl`. Where the keyword is followed by neither, the
/// statement is an error with the message `complaint` and only the keyword is
/// taken. `None`, with the cursor unmoved, where `keyword` does not stand at
/// the cursor.
pub fn parse_module(tokens: &[Token], pos: &mut usize, keyword: &str, complaint: &str) -> (r:
    Option<Stmt>)
    ensures
        stmt_option(r) == module_at(
            views(tokens@),
            *old(pos) as nat,
            keyword@,
            complaint@,
        ).value,
        *final(pos) == *old(pos) + module_at(
            views(tokens@),
            *old(pos) as nat,
            keyword@,
            complaint@,
        ).used,
{
    if !word_at(tokens, *pos, keyword) {
        return None;
    }
    *pos += 1;
    if let Some(file) = text_at(tokens, *pos) {
        *pos += 1;
        return Some(Stmt::Import(file));
    }
    if let Some(module) = name_at(tokens, *pos) {
        *pos += 1;
        let mut file = module;
        file.append(MODULE_EXTENSION);
        return Some(Stmt::Import(file));
    }
    Some(Stmt::Error(String::from_str(complaint)))
}

/// Reads `import "file"` or `import module`.
///
/// `None`, with the cursor unmoved, where the word `import` does not stand at
/// the cursor.
pub fn parse_import(tokens: &[Token], pos: &mut usize) -> (r: Option<Stmt>)
    ensures
        stmt_option(r) == import_at(views(tokens@), *old(pos) as nat).value,
        *final(pos) == *old(pos) + import_at(views(tokens@), *old(pos) as nat).used,
{
    parse_module(tokens, pos, "import", IMPORT_NEEDS_FILE)
}

} // verus!
