//! The cursor never passes the end: whatever construct is read, the tokens
//! that it takes lie before the first `EOF`, and within the sequence.

use crate::ast::{ExprView, StmtView};
use crate::lexer::TokenView;
use crate::parser::grammar::{
    args_at, at_end, block_at, expr_at, for_at, funcdef_at, ident_at, if_at, import_at, let_at,
    module_at, more_args_at, more_params_at, more_terms_at, params_at, print_at, remaining, step,
    stmt_at, sum_at, term_at, token_is, use_at, word_is,
};
use crate::parser::messages::{IMPORT_NEEDS_FILE, USE_NEEDS_MODULE};
use vstd::prelude::*;

verus! {

/// The position of the first `EOF` from `pos` on, or the end of the tokens
/// where there is none.
pub open spec fn end_from(ts: Seq<TokenView>, pos: nat) -> nat
    decreases remaining(ts, pos),
{
    if at_end(ts, pos) {
        pos
    } else {
        end_from(ts, pos + 1)
    }
}

/// The end lies at or behind the position, and is the same from every
/// position up to it.
pub proof fn lemma_end_from(ts: Seq<TokenView>, pos: nat, q: nat)
    requires
        pos <= q <= end_from(ts, pos),
    ensures
        end_from(ts, q) == end_from(ts, pos),
    decreases q - pos,
{
    if pos < q {
        lemma_end_from(ts, pos + 1, q);
    }
}

/// The end lies at or behind the position.
pub proof fn lemma_end_behind(ts: Seq<TokenView>, pos: nat)
    ensures
        pos <= end_from(ts, pos),
    decreases remaining(ts, pos),
{
    if !at_end(ts, pos) {
        lemma_end_behind(ts, pos + 1);
    }
}

/// Every token between a position and the end is a token that is no `EOF`,
/// and the end of a position within the tokens is within them.
pub proof fn lemma_before_end(ts: Seq<TokenView>, pos: nat, k: nat)
    requires
        pos <= k < end_from(ts, pos),
    ensures
        k < ts.len(),
        !(ts[k as int] is EOF),
        end_from(ts, pos) <= ts.len(),
{
    lemma_end_from(ts, pos, k);
    lemma_end_in_tokens(ts, k);
}

/// The end of a position within the tokens is within them.
pub proof fn lemma_end_in_tokens(ts: Seq<TokenView>, pos: nat)
    requires
        pos <= ts.len(),
    ensures
        end_from(ts, pos) <= ts.len(),
    decreases remaining(ts, pos),
{
    if !at_end(ts, pos) {
        lemma_end_in_tokens(ts, pos + 1);
    }
}

/// Whether `used` tokens from `pos` on lie before the end.
pub open spec fn within(ts: Seq<TokenView>, pos: nat, used: nat) -> bool {
    pos + used <= end_from(ts, pos)
}

/// `k` tokens that are no `EOF` lie before the end.
proof fn lemma_tokens(ts: Seq<TokenView>, pos: nat, k: nat)
    requires
        forall|j: nat| pos <= j < pos + k ==> !at_end(ts, j),
    ensures
        within(ts, pos, k),
        end_from(ts, pos + k) == end_from(ts, pos),
    decreases k,
{
    if k > 0 {
        lemma_tokens(ts, pos + 1, (k - 1) as nat);
    } else {
        lemma_end_behind(ts, pos);
    }
}

/// What is read behind what lies before the end, and lies before the end
/// itself, lies before the end.
proof fn lemma_both_within(ts: Seq<TokenView>, pos: nat, first: nat, second: nat)
    requires
        within(ts, pos, first),
        within(ts, pos + first, second),
    ensures
        within(ts, pos, first + second),
        end_from(ts, pos + first + second) == end_from(ts, pos),
{
    lemma_end_from(ts, pos, pos + first);
    lemma_end_from(ts, pos + first, pos + first + second);
}

/// A module reference lies before the end.
pub proof fn lemma_module_within(
    ts: Seq<TokenView>,
    pos: nat,
    keyword: Seq<char>,
    complaint: Seq<char>,
)
    ensures
        within(ts, pos, module_at(ts, pos, keyword, complaint).used),
{
    let used = module_at(ts, pos, keyword, complaint).used;
    assert forall|j: nat| pos <= j < pos + used implies !at_end(ts, j) by {}
    lemma_tokens(ts, pos, used);
}

/// A parameter list lies before the end.
pub proof fn lemma_more_params_within(ts: Seq<TokenView>, pos: nat, names: Seq<Seq<char>>)
    ensures
        within(ts, pos, more_params_at(ts, pos, names).used),
    decreases remaining(ts, pos),
{
    match ident_at(ts, pos) {
        None => {
            lemma_tokens(ts, pos, 0);
        },
        Some(name) => {
            if token_is(ts, pos + 1, TokenView::Comma) {
                lemma_tokens(ts, pos, 2);
                lemma_more_params_within(ts, pos + 2, names.push(name));
                lemma_both_within(ts, pos, 2, more_params_at(ts, pos + 2, names.push(name)).used);
            } else if token_is(ts, pos + 1, TokenView::RParen) {
                lemma_tokens(ts, pos, 2);
            } else {
                lemma_tokens(ts, pos, 1);
            }
        },
    }
}

/// A parameter list lies before the end.
pub proof fn lemma_params_within(ts: Seq<TokenView>, pos: nat)
    ensures
        within(ts, pos, params_at(ts, pos).used),
{
    if token_is(ts, pos, TokenView::RParen) {
        lemma_tokens(ts, pos, 1);
    } else {
        lemma_more_params_within(ts, pos, Seq::empty());
    }
}

/// A term lies before the end.
pub proof fn lemma_term_within(ts: Seq<TokenView>, pos: nat)
    ensures
        within(ts, pos, term_at(ts, pos).used),
    decreases remaining(ts, pos), 1nat,
{
    if pos >= ts.len() {
        lemma_tokens(ts, pos, 0);
    } else {
        match ts[pos as int] {
            TokenView::Number(n) => {
                lemma_tokens(ts, pos, 1);
            },
            TokenView::Ident(name) => {
                if token_is(ts, pos + 1, TokenView::LParen) {
                    lemma_tokens(ts, pos, 2);
                    lemma_args_within(ts, pos + 2);
                    lemma_both_within(ts, pos, 2, args_at(ts, pos + 2).used);
                } else {
                    lemma_tokens(ts, pos, 1);
                }
            },
            TokenView::LBrace => {
                lemma_tokens(ts, pos, 1);
                lemma_block_within(ts, pos + 1, Seq::empty());
                lemma_both_within(ts, pos, 1, block_at(ts, pos + 1, Seq::empty()).used);
            },
            _ => {
                lemma_tokens(ts, pos, 0);
            },
        }
    }
}

/// The arguments of a call lie before the end.
pub proof fn lemma_args_within(ts: Seq<TokenView>, pos: nat)
    ensures
        within(ts, pos, args_at(ts, pos).used),
    decreases remaining(ts, pos), 8nat,
{
    if token_is(ts, pos, TokenView::RParen) {
        lemma_tokens(ts, pos, 1);
    } else {
        lemma_more_args_within(ts, pos, Seq::empty());
    }
}

/// The rest of the arguments of a call lies before the end.
pub proof fn lemma_more_args_within(ts: Seq<TokenView>, pos: nat, args: Seq<ExprView>)
    ensures
        within(ts, pos, more_args_at(ts, pos, args).used),
    decreases remaining(ts, pos), 7nat,
{
    let arg = expr_at(ts, pos);
    lemma_expr_within(ts, pos);
    match arg.value {
        Err(e) => {},
        Ok(x) => {
            let next = pos + arg.used;
            if token_is(ts, next, TokenView::Comma) {
                lemma_tokens(ts, next, 1);
                lemma_both_within(ts, pos, arg.used, 1);
                lemma_more_args_within(ts, next + 1, args.push(x));
                lemma_both_within(
                    ts,
                    pos,
                    arg.used + 1,
                    more_args_at(ts, next + 1, args.push(x)).used,
                );
            } else if token_is(ts, next, TokenView::RParen) {
                lemma_tokens(ts, next, 1);
                lemma_both_within(ts, pos, arg.used, 1);
            }
        },
    }
}

/// A sum lies before the end.
pub proof fn lemma_sum_within(ts: Seq<TokenView>, pos: nat)
    ensures
        within(ts, pos, sum_at(ts, pos).used),
    decreases remaining(ts, pos), 3nat,
{
    let first = term_at(ts, pos);
    lemma_term_within(ts, pos);
    match first.value {
        Err(e) => {},
        Ok(left) => {
            lemma_more_terms_within(ts, pos + first.used, left);
            lemma_both_within(ts, pos, first.used, more_terms_at(ts, pos + first.used, left).used);
        },
    }
}

/// The rest of a sum lies before the end.
pub proof fn lemma_more_terms_within(ts: Seq<TokenView>, pos: nat, left: ExprView)
    ensures
        within(ts, pos, more_terms_at(ts, pos, left).used),
    decreases remaining(ts, pos), 2nat,
{
    if token_is(ts, pos, TokenView::Plus) {
        lemma_tokens(ts, pos, 1);
        let right = term_at(ts, pos + 1);
        lemma_term_within(ts, pos + 1);
        lemma_both_within(ts, pos, 1, right.used);
        match right.value {
            Err(e) => {},
            Ok(r) => {
                let sum = ExprView::Add(Box::new(left), Box::new(r));
                lemma_more_terms_within(ts, pos + 1 + right.used, sum);
                lemma_both_within(
                    ts,
                    pos,
                    1 + right.used,
                    more_terms_at(ts, pos + 1 + right.used, sum).used,
                );
            },
        }
    } else {
        lemma_tokens(ts, pos, 0);
    }
}

/// A conditional lies before the end.
pub proof fn lemma_if_within(ts: Seq<TokenView>, pos: nat)
    ensures
        within(ts, pos, if_at(ts, pos).used),
    decreases remaining(ts, pos), 4nat,
{
    if !word_is(ts, pos, "if"@) {
        lemma_tokens(ts, pos, 0);
    } else {
        lemma_tokens(ts, pos, 1);
        let cond = expr_at(ts, pos + 1);
        lemma_expr_within(ts, pos + 1);
        lemma_both_within(ts, pos, 1, cond.used);
        if cond.value is Ok {
            let taken = expr_at(ts, pos + 1 + cond.used);
            lemma_expr_within(ts, pos + 1 + cond.used);
            lemma_both_within(ts, pos, 1 + cond.used, taken.used);
            if taken.value is Ok {
                let next = pos + 1 + cond.used + taken.used;
                if word_is(ts, next, "else"@) {
                    lemma_tokens(ts, next, 1);
                    lemma_both_within(ts, pos, 1 + cond.used + taken.used, 1);
                    lemma_expr_within(ts, next + 1);
                    lemma_both_within(
                        ts,
                        pos,
                        1 + cond.used + taken.used + 1,
                        expr_at(ts, next + 1).used,
                    );
                }
            }
        }
    }
}

/// A counted loop lies before the end.
pub proof fn lemma_for_within(ts: Seq<TokenView>, pos: nat)
    ensures
        within(ts, pos, for_at(ts, pos).used),
    decreases remaining(ts, pos), 4nat,
{
    if !word_is(ts, pos, "for"@) {
        lemma_tokens(ts, pos, 0);
    } else if ident_at(ts, pos + 1) is None {
        lemma_tokens(ts, pos, 1);
    } else if !word_is(ts, pos + 2, "in"@) {
        lemma_tokens(ts, pos, 2);
    } else {
        lemma_tokens(ts, pos, 3);
        let start = expr_at(ts, pos + 3);
        lemma_expr_within(ts, pos + 3);
        lemma_both_within(ts, pos, 3, start.used);
        if start.value is Ok {
            let colon: nat = if token_is(ts, pos + 3 + start.used, TokenView::Colon) {
                1
            } else {
                0
            };
            lemma_tokens(ts, pos + 3 + start.used, colon);
            lemma_both_within(ts, pos, 3 + start.used, colon);
            let before_end = 3 + start.used + colon;
            let end = expr_at(ts, pos + before_end);
            lemma_expr_within(ts, pos + before_end);
            lemma_both_within(ts, pos, before_end, end.used);
            if end.value is Ok {
                let before_body = before_end + end.used;
                lemma_expr_within(ts, pos + before_body);
                lemma_both_within(ts, pos, before_body, expr_at(ts, pos + before_body).used);
            }
        }
    }
}

/// An expression lies before the end: reading it takes no `EOF` and nothing
/// beyond the tokens that there are.
pub proof fn lemma_expr_within(ts: Seq<TokenView>, pos: nat)
    ensures
        within(ts, pos, expr_at(ts, pos).used),
    decreases remaining(ts, pos), 5nat,
{
    if word_is(ts, pos, "if"@) {
        lemma_if_within(ts, pos);
    } else if word_is(ts, pos, "for"@) {
        lemma_for_within(ts, pos);
    } else {
        lemma_sum_within(ts, pos);
    }
}

/// A `print` statement lies before the end.
pub proof fn lemma_print_within(ts: Seq<TokenView>, pos: nat)
    ensures
        within(ts, pos, print_at(ts, pos).used),
    decreases remaining(ts, pos), 6nat,
{
    if word_is(ts, pos, "print"@) && token_is(ts, pos + 1, TokenView::LParen) {
        lemma_tokens(ts, pos, 2);
        let arg = expr_at(ts, pos + 2);
        lemma_expr_within(ts, pos + 2);
        lemma_both_within(ts, pos, 2, arg.used);
        if arg.value is Ok && token_is(ts, pos + 2 + arg.used, TokenView::RParen) {
            lemma_tokens(ts, pos + 2 + arg.used, 1);
            lemma_both_within(ts, pos, 2 + arg.used, 1);
        }
    } else {
        lemma_tokens(ts, pos, 0);
    }
}

/// A `let` statement lies before the end.
pub proof fn lemma_let_within(ts: Seq<TokenView>, pos: nat)
    ensures
        within(ts, pos, let_at(ts, pos).used),
    decreases remaining(ts, pos), 6nat,
{
    if !token_is(ts, pos, TokenView::Let) {
        lemma_tokens(ts, pos, 0);
    } else {
        let mutable = token_is(ts, pos + 1, TokenView::Mut);
        let before_name: nat = if mutable {
            2
        } else {
            1
        };
        lemma_tokens(ts, pos, before_name);
        if ident_at(ts, pos + before_name) is Some {
            let typed = token_is(ts, pos + before_name + 1, TokenView::Colon);
            if typed && ident_at(ts, pos + before_name + 2) is None {
                lemma_tokens(ts, pos, before_name + 2);
            } else {
                let before_eq: nat = if typed {
                    before_name + 3
                } else {
                    before_name + 1
                };
                lemma_tokens(ts, pos, before_eq);
                if token_is(ts, pos + before_eq, TokenView::Eq) {
                    lemma_tokens(ts, pos, before_eq + 1);
                    lemma_expr_within(ts, pos + before_eq + 1);
                    lemma_both_within(
                        ts,
                        pos,
                        before_eq + 1,
                        expr_at(ts, pos + before_eq + 1).used,
                    );
                }
            }
        }
    }
}

/// A function definition lies before the end.
pub proof fn lemma_funcdef_within(ts: Seq<TokenView>, pos: nat)
    ensures
        within(ts, pos, funcdef_at(ts, pos).used),
    decreases remaining(ts, pos), 6nat,
{
    let before_fn: nat = if token_is(ts, pos, TokenView::Pub) {
        1
    } else {
        0
    };
    lemma_tokens(ts, pos, before_fn);
    if token_is(ts, pos + before_fn, TokenView::Fn) {
        lemma_tokens(ts, pos, before_fn + 1);
        if ident_at(ts, pos + before_fn + 1) is Some {
            lemma_tokens(ts, pos, before_fn + 2);
            if token_is(ts, pos + before_fn + 2, TokenView::LParen) {
                lemma_tokens(ts, pos, before_fn + 3);
                let params = params_at(ts, pos + before_fn + 3);
                lemma_params_within(ts, pos + before_fn + 3);
                lemma_both_within(ts, pos, before_fn + 3, params.used);
                let before_body = before_fn + 3 + params.used;
                if params.value is Some && token_is(ts, pos + before_body, TokenView::LBrace) {
                    lemma_tokens(ts, pos + before_body, 1);
                    lemma_both_within(ts, pos, before_body, 1);
                    lemma_block_within(ts, pos + before_body + 1, Seq::empty());
                    lemma_both_within(
                        ts,
                        pos,
                        before_body + 1,
                        block_at(ts, pos + before_body + 1, Seq::empty()).used,
                    );
                }
            }
        }
    }
}

/// A statement lies before the end: reading it takes no `EOF` and nothing
/// beyond the tokens that there are.
pub proof fn lemma_stmt_within(ts: Seq<TokenView>, pos: nat)
    ensures
        within(ts, pos, stmt_at(ts, pos).used),
    decreases remaining(ts, pos), 9nat,
{
    if import_at(ts, pos).value is Some {
        lemma_module_within(ts, pos, "import"@, IMPORT_NEEDS_FILE@);
    } else if use_at(ts, pos).value is Some {
        lemma_module_within(ts, pos, "use"@, USE_NEEDS_MODULE@);
    } else if print_at(ts, pos).value is Some {
        lemma_print_within(ts, pos);
    } else if token_is(ts, pos, TokenView::Let) {
        lemma_let_within(ts, pos);
    } else if token_is(ts, pos, TokenView::Pub) || token_is(ts, pos, TokenView::Fn) {
        lemma_funcdef_within(ts, pos);
    } else {
        lemma_expr_within(ts, pos);
    }
}

/// A block lies before the end.
pub proof fn lemma_block_within(ts: Seq<TokenView>, pos: nat, stmts: Seq<StmtView>)
    ensures
        within(ts, pos, block_at(ts, pos, stmts).used),
    decreases remaining(ts, pos), 10nat,
{
    if at_end(ts, pos) {
        lemma_tokens(ts, pos, 0);
    } else if ts[pos as int] is RBrace {
        lemma_tokens(ts, pos, 1);
    } else {
        let stmt = stmt_at(ts, pos);
        lemma_stmt_within(ts, pos);
        if stmt.used == 0 {
            lemma_tokens(ts, pos, 1);
        }
        let next = pos + step(stmt.used);
        lemma_block_within(ts, next, stmts.push(stmt.value));
        lemma_both_within(
            ts,
            pos,
            step(stmt.used),
            block_at(ts, next, stmts.push(stmt.value)).used,
        );
    }
}

} // verus!
