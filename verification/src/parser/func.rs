//! Function definitions.

use crate::ast::{lemma_block_view, Expr, Stmt};
use crate::lexer::Token;
use crate::parser::cursor::{is_at, name_at};
use crate::parser::expr::parse_block;
use crate::parser::grammar::{funcdef_at, more_params_at, params_at, remaining};
use crate::parser::messages::{
    FN_BAD_PARAMS, FN_NEEDS_BODY, FN_NEEDS_KEYWORD, FN_NEEDS_NAME, FN_NEEDS_PARAMS,
};
use crate::view::{lemma_views_push, views};
use vstd::prelude::*;

verus! {

/// Reads a parameter list behind its opening parenthesis, and the closing
/// one. `None` where the list is malformed; the cursor then rests on the token
/// that could not be accepted.
pub fn parse_params(tokens: &[Token], pos: &mut usize) -> (r: Option<Vec<String>>)
    ensures
        match r {
            Some(names) => params_at(views(tokens@), *old(pos) as nat).value == Some(
                views(names@),
            ),
            None => params_at(views(tokens@), *old(pos) as nat).value is None,
        },
        *final(pos) == *old(pos) + params_at(views(tokens@), *old(pos) as nat).used,
{
    let ghost ts = views(tokens@);
    let ghost start = *pos;
    let mut names: Vec<String> = Vec::new();
    assert(views(names@) =~= Seq::<Seq<char>>::empty());
    if is_at(tokens, *pos, &Token::RParen) {
        *pos += 1;
        return Some(names);
    }
    loop
        invariant
            ts == views(tokens@),
            start == *old(pos),
            start <= *pos,
            params_at(ts, start as nat).value == more_params_at(
                ts,
                *pos as nat,
                views(names@),
            ).value,
            params_at(ts, start as nat).used == (*pos - start) + more_params_at(
                ts,
                *pos as nat,
                views(names@),
            ).used,
        decreases remaining(ts, *pos as nat),
    {
        let ghost before = names@;
        let name = match name_at(tokens, *pos) {
            Some(name) => name,
            None => {
                return None;
            },
        };
        *pos += 1;
        names.push(name);
        proof {
            lemma_views_push(before, name);
        }
        if is_at(tokens, *pos, &Token::Comma) {
            *pos += 1;
        } else if is_at(tokens, *pos, &Token::RParen) {
            *pos += 1;
            return Some(names);
        } else {
            return None;
        }
    }
}

/// Reads `[pub] fn name(params) { body }`. The body becomes a block
/// expression.
///
/// A definition that is malformed yields an `Error` statement that says what
/// is missing, and the cursor rests on the token that could not be accepted.
pub fn parse_funcdef(tokens: &[Token], pos: &mut usize) -> (r: Stmt)
    ensures
        r@ == funcdef_at(views(tokens@), *old(pos) as nat).value,
        *final(pos) == *old(pos) + funcdef_at(views(tokens@), *old(pos) as nat).used,
    decreases remaining(views(tokens@), *old(pos) as nat), 6nat,
{
    if is_at(tokens, *pos, &Token::Pub) {
        *pos += 1;
    }
    if !is_at(tokens, *pos, &Token::Fn) {
        return Stmt::Error(FN_NEEDS_KEYWORD.to_owned());
    }
    *pos += 1;
    let name = match name_at(tokens, *pos) {
        Some(name) => name,
        None => {
            return Stmt::Error(FN_NEEDS_NAME.to_owned());
        },
    };
    *pos += 1;
    if !is_at(tokens, *pos, &Token::LParen) {
        return Stmt::Error(FN_NEEDS_PARAMS.to_owned());
    }
    *pos += 1;
    let params = match parse_params(tokens, pos) {
        Some(params) => params,
        None => {
            return Stmt::Error(FN_BAD_PARAMS.to_owned());
        },
    };
    if !is_at(tokens, *pos, &Token::LBrace) {
        return Stmt::Error(FN_NEEDS_BODY.to_owned());
    }
    *pos += 1;
    match parse_block(tokens, pos) {
        Ok(stmts) => {
            proof {
                lemma_block_view(stmts);
            }
            Stmt::FuncDef { name, params, body: Box::new(Expr::Block(stmts)) }
        },
        Err(e) => Stmt::Error(e.message()),
    }
}

} // verus!
