//! Expressions.

use crate::ast::{lemma_block_view, lemma_call_view, Expr, ExprView, Stmt, StmtView};
use crate::lexer::Token;
use crate::parser::cursor::{ended, is_at, name_at, peek, word_at};
use crate::parser::grammar::{
    args_at, block_at, expr_at, for_at, if_at, more_args_at, more_terms_at, remaining, sum_at,
    term_at, word_is, ParseError,
};
use crate::parser::parse_stmt;
use crate::view::{lemma_views_push, views};
use vstd::prelude::*;

verus! {

/// The view of an expression that was read, or of the error.
pub open spec fn expr_result(r: Result<Expr, ParseError>) -> Result<ExprView, ParseError> {
    match r {
        Ok(e) => Ok(e@),
        Err(e) => Err(e),
    }
}

/// The view of a list of expressions that was read, or of the error.
pub open spec fn exprs_result(r: Result<Vec<Expr>, ParseError>) -> Result<
    Seq<ExprView>,
    ParseError,
> {
    match r {
        Ok(list) => Ok(views(list@)),
        Err(e) => Err(e),
    }
}

/// The view of a list of statements that was read, or of the error.
pub open spec fn stmts_result(r: Result<Vec<Stmt>, ParseError>) -> Result<
    Seq<StmtView>,
    ParseError,
> {
    match r {
        Ok(list) => Ok(views(list@)),
        Err(e) => Err(e),
    }
}

/// Reads an expression: a conditional, a counted loop, or a sum.
///
/// On an error the cursor rests on the token that could not be accepted.
pub fn parse_expr(tokens: &[Token], pos: &mut usize) -> (r: Result<Expr, ParseError>)
    ensures
        expr_result(r) == expr_at(views(tokens@), *old(pos) as nat).value,
        *final(pos) == *old(pos) + expr_at(views(tokens@), *old(pos) as nat).used,
    decreases remaining(views(tokens@), *old(pos) as nat), 5nat,
{
    if word_at(tokens, *pos, "if") {
        parse_if(tokens, pos)
    } else if word_at(tokens, *pos, "for") {
        parse_for(tokens, pos)
    } else {
        parse_sum(tokens, pos)
    }
}

/// Reads a term: a number, a variable, a call, or a block.
///
/// On an error the cursor rests on the token that could not be accepted.
pub fn parse_term(tokens: &[Token], pos: &mut usize) -> (r: Result<Expr, ParseError>)
    ensures
        expr_result(r) == term_at(views(tokens@), *old(pos) as nat).value,
        *final(pos) == *old(pos) + term_at(views(tokens@), *old(pos) as nat).used,
    decreases remaining(views(tokens@), *old(pos) as nat), 1nat,
{
    match peek(tokens, *pos) {
        Some(Token::Number(n)) => {
            *pos += 1;
            Ok(Expr::Number(*n))
        },
        Some(Token::Ident(name)) => {
            let name = name.clone();
            *pos += 1;
            if is_at(tokens, *pos, &Token::LParen) {
                *pos += 1;
                match parse_args(tokens, pos) {
                    Ok(args) => {
                        proof {
                            lemma_call_view(name, args);
                        }
                        Ok(Expr::Call(name, args))
                    },
                    Err(e) => Err(e),
                }
            } else {
                Ok(Expr::Var(name))
            }
        },
        Some(Token::LBrace) => {
            *pos += 1;
            match parse_block(tokens, pos) {
                Ok(stmts) => {
                    proof {
                        lemma_block_view(stmts);
                    }
                    Ok(Expr::Block(stmts))
                },
                Err(e) => Err(e),
            }
        },
        _ => Err(ParseError::UnexpectedToken),
    }
}

/// Reads the arguments of a call, behind the opening parenthesis, and the
/// closing one.
pub fn parse_args(tokens: &[Token], pos: &mut usize) -> (r: Result<Vec<Expr>, ParseError>)
    ensures
        exprs_result(r) == args_at(views(tokens@), *old(pos) as nat).value,
        *final(pos) == *old(pos) + args_at(views(tokens@), *old(pos) as nat).used,
    decreases remaining(views(tokens@), *old(pos) as nat), 8nat,
{
    let ghost ts = views(tokens@);
    let ghost start = *pos;
    let mut args: Vec<Expr> = Vec::new();
    if is_at(tokens, *pos, &Token::RParen) {
        *pos += 1;
        assert(views(args@) =~= Seq::<ExprView>::empty());
        return Ok(args);
    }
    assert(views(args@) =~= Seq::<ExprView>::empty());
    loop
        invariant
            ts == views(tokens@),
            start == *old(pos),
            start <= *pos,
            remaining(ts, *pos as nat) <= remaining(ts, start as nat),
            args_at(ts, start as nat).value == more_args_at(ts, *pos as nat, views(args@)).value,
            args_at(ts, start as nat).used == (*pos - start) + more_args_at(
                ts,
                *pos as nat,
                views(args@),
            ).used,
        decreases remaining(ts, *pos as nat),
    {
        let ghost before = args@;
        let arg = match parse_expr(tokens, pos) {
            Ok(arg) => arg,
            Err(e) => {
                return Err(e);
            },
        };
        args.push(arg);
        proof {
            lemma_views_push(before, arg);
        }
        if is_at(tokens, *pos, &Token::Comma) {
            *pos += 1;
        } else if is_at(tokens, *pos, &Token::RParen) {
            *pos += 1;
            return Ok(args);
        } else {
            return Err(ParseError::UnclosedCall);
        }
    }
}

/// Reads a block behind its opening brace: statements up to the closing
/// brace, which is taken too.
pub fn parse_block(tokens: &[Token], pos: &mut usize) -> (r: Result<Vec<Stmt>, ParseError>)
    ensures
        stmts_result(r) == block_at(views(tokens@), *old(pos) as nat, Seq::empty()).value,
        *final(pos) == *old(pos) + block_at(views(tokens@), *old(pos) as nat, Seq::empty()).used,
    decreases remaining(views(tokens@), *old(pos) as nat), 10nat,
{
    let ghost ts = views(tokens@);
    let ghost start = *pos;
    let mut stmts: Vec<Stmt> = Vec::new();
    assert(views(stmts@) =~= Seq::<StmtView>::empty());
    loop
        invariant
            ts == views(tokens@),
            start == *old(pos),
            start <= *pos,
            remaining(ts, *pos as nat) <= remaining(ts, start as nat),
            block_at(ts, start as nat, Seq::empty()).value == block_at(
                ts,
                *pos as nat,
                views(stmts@),
            ).value,
            block_at(ts, start as nat, Seq::empty()).used == (*pos - start) + block_at(
                ts,
                *pos as nat,
                views(stmts@),
            ).used,
        decreases remaining(ts, *pos as nat),
    {
        if ended(tokens, *pos) {
            return Err(ParseError::UnclosedBlock);
        }
        if is_at(tokens, *pos, &Token::RBrace) {
            *pos += 1;
            return Ok(stmts);
        }
        let ghost before = stmts@;
        let from = *pos;
        let stmt = parse_stmt(tokens, pos);
        if *pos == from {
            *pos += 1;
        }
        stmts.push(stmt);
        proof {
            lemma_views_push(before, stmt);
        }
    }
}

fn parse_sum(tokens: &[Token], pos: &mut usize) -> (r: Result<Expr, ParseError>)
    ensures
        expr_result(r) == sum_at(views(tokens@), *old(pos) as nat).value,
        *final(pos) == *old(pos) + sum_at(views(tokens@), *old(pos) as nat).used,
    decreases remaining(views(tokens@), *old(pos) as nat), 3nat,
{
    let ghost ts = views(tokens@);
    let ghost start = *pos;
    let mut left = match parse_term(tokens, pos) {
        Ok(first) => first,
        Err(e) => {
            return Err(e);
        },
    };
    while is_at(tokens, *pos, &Token::Plus)
        invariant
            ts == views(tokens@),
            start == *old(pos),
            start <= *pos,
            remaining(ts, *pos as nat) <= remaining(ts, start as nat),
            sum_at(ts, start as nat).value == more_terms_at(ts, *pos as nat, left@).value,
            sum_at(ts, start as nat).used == (*pos - start) + more_terms_at(
                ts,
                *pos as nat,
                left@,
            ).used,
        decreases remaining(ts, *pos as nat),
    {
        *pos += 1;
        let right = match parse_term(tokens, pos) {
            Ok(right) => right,
            Err(e) => {
                return Err(e);
            },
        };
        left = Expr::Add(Box::new(left), Box::new(right));
    }
    Ok(left)
}

fn parse_if(tokens: &[Token], pos: &mut usize) -> (r: Result<Expr, ParseError>)
    requires
        word_is(views(tokens@), *old(pos) as nat, "if"@),
        *old(pos) < usize::MAX,
    ensures
        expr_result(r) == if_at(views(tokens@), *old(pos) as nat).value,
        *final(pos) == *old(pos) + if_at(views(tokens@), *old(pos) as nat).used,
    decreases remaining(views(tokens@), *old(pos) as nat), 4nat,
{
    *pos += 1;
    let cond = match parse_expr(tokens, pos) {
        Ok(cond) => cond,
        Err(e) => {
            return Err(e);
        },
    };
    let then_branch = match parse_expr(tokens, pos) {
        Ok(then_branch) => then_branch,
        Err(e) => {
            return Err(e);
        },
    };
    let else_branch = if word_at(tokens, *pos, "else") {
        *pos += 1;
        match parse_expr(tokens, pos) {
            Ok(other) => Some(Box::new(other)),
            Err(e) => {
                return Err(e);
            },
        }
    } else {
        None
    };
    Ok(Expr::If { cond: Box::new(cond), then_branch: Box::new(then_branch), else_branch })
}

fn parse_for(tokens: &[Token], pos: &mut usize) -> (r: Result<Expr, ParseError>)
    requires
        word_is(views(tokens@), *old(pos) as nat, "for"@),
        *old(pos) < usize::MAX,
    ensures
        expr_result(r) == for_at(views(tokens@), *old(pos) as nat).value,
        *final(pos) == *old(pos) + for_at(views(tokens@), *old(pos) as nat).used,
    decreases remaining(views(tokens@), *old(pos) as nat), 4nat,
{
    *pos += 1;
    let var = match name_at(tokens, *pos) {
        Some(var) => var,
        None => {
            return Err(ParseError::ForWithoutVariable);
        },
    };
    *pos += 1;
    if !word_at(tokens, *pos, "in") {
        return Err(ParseError::ForWithoutIn);
    }
    *pos += 1;
    let start = match parse_expr(tokens, pos) {
        Ok(start) => start,
        Err(e) => {
            return Err(e);
        },
    };
    if is_at(tokens, *pos, &Token::Colon) {
        *pos += 1;
    }
    let end = match parse_expr(tokens, pos) {
        Ok(end) => end,
        Err(e) => {
            return Err(e);
        },
    };
    let body = match parse_expr(tokens, pos) {
        Ok(body) => body,
        Err(e) => {
            return Err(e);
        },
    };
    Ok(Expr::For { var, start: Box::new(start), end: Box::new(end), body: Box::new(body) })
}

} // verus!
