//! The whole pipeline: source text to an evaluation.

use crate::ast::{lemma_call_view, Expr, ExprView, Stmt, StmtView};
use crate::eval::host::{EventView, Host, HostView, TraceView};
use crate::eval::semantics::{after_stmts, run, StateView};
use crate::eval::{eval_stmts, Evaluation};
use crate::lexer::{
    begins_token, lemma_lexeme_fits, lex, lex_from, lexeme_at, strip_bom, tokenize, TokenView,
};
use crate::parser::grammar::{first_error, program, remaining};
use crate::parser::parse;
use crate::text::{is_digit, is_ident_start, is_space, same_text, Run};
use crate::view::{lemma_views_push, views};
use vstd::prelude::*;

verus! {

/// Whether `stmt` defines a function named `main`.
pub open spec fn is_main(stmt: StmtView) -> bool {
    stmt is FuncDef && stmt->FuncDef_name == "main"@
}

/// Whether a function named `main` is defined among the statements, at the
/// top level.
pub open spec fn defines_main(stmts: Seq<StmtView>) -> bool {
    exists|i: int| 0 <= i < stmts.len() && is_main(#[trigger] stmts[i])
}

/// The call `main()`, as a statement.
pub open spec fn main_call() -> StmtView {
    StmtView::Expr(ExprView::Call("main"@, Seq::empty()))
}

/// The statements, and behind them a call of `main` where they define it.
pub open spec fn with_main_call(stmts: Seq<StmtView>) -> Seq<StmtView> {
    if defines_main(stmts) {
        stmts.push(main_call())
    } else {
        stmts
    }
}

/// Whether a function named `main` is defined among the statements.
pub fn has_main(stmts: &[Stmt]) -> (b: bool)
    ensures
        b == defines_main(views(stmts@)),
{
    let mut i: usize = 0;
    while i < stmts.len()
        invariant
            i <= stmts.len(),
            forall|k: int| 0 <= k < i ==> !is_main(#[trigger] views(stmts@)[k]),
        decreases stmts.len() - i,
    {
        if let Stmt::FuncDef { name, params: _, body: _ } = &stmts[i] {
            if same_text(name.as_str(), "main") {
                assert(is_main(views(stmts@)[i as int]));
                return true;
            }
        }
        i += 1;
    }
    false
}

/// Where the statements define a function named `main`, appends a call of
/// it, so that the program's value is the value of `main()`.
pub fn add_main_call(stmts: &mut Vec<Stmt>)
    ensures
        views(final(stmts)@) == with_main_call(views(old(stmts)@)),
{
    if has_main(stmts.as_slice()) {
        let ghost before = stmts@;
        let name = "main".to_owned();
        let args: Vec<Expr> = Vec::new();
        let call = Stmt::Expr(Expr::Call(name, args));
        proof {
            lemma_call_view(name, args);
            assert(views(args@) =~= Seq::<ExprView>::empty());
            lemma_views_push(before, call);
        }
        stmts.push(call);
    }
}

/// Runs a source text: reads it into tokens and the tokens into statements,
/// appends a call of `main` where the text defines it, and evaluates the
/// statements.
pub fn interpret(source: &str, host: &Host, depth: usize) -> (end: Evaluation)
    ensures
        end@ == run(with_main_call(program(lex(source@))), host@, depth as nat),
{
    let tokens = tokenize(source);
    let mut stmts = parse(tokens.as_slice());
    add_main_call(&mut stmts);
    eval_stmts(stmts.as_slice(), host, depth)
}

/// Tokens that hold an `Error` token are read as one `Error` statement with
/// the message of the first such token; its evaluation reports the message,
/// defines and binds nothing, and ends with the value 0 and without a fault.
pub proof fn lemma_lexical_error_is_reported(ts: Seq<TokenView>, host: HostView, depth: nat)
    requires
        first_error(ts, 0) is Some,
    ensures
        program(ts) == seq![StmtView::Error(first_error(ts, 0)->0)],
        with_main_call(program(ts)) == program(ts),
        run(program(ts), host, depth) == (StateView {
            funcs: Map::empty(),
            vars: Map::empty(),
            value: 0,
            trace: TraceView::empty().with(EventView::Diagnostic(first_error(ts, 0)->0)),
            fault: None,
        }),
{
    reveal_with_fuel(after_stmts, 3);
}

/// The first error among tokens that follow other tokens is the first error
/// of the whole, counted from behind those.
proof fn lemma_first_error_behind(head: Seq<TokenView>, tail: Seq<TokenView>, k: nat)
    ensures
        first_error(head + tail, head.len() + k) == first_error(tail, k),
    decreases remaining(tail, k),
{
    if k < tail.len() {
        lemma_first_error_behind(head, tail, k + 1);
    }
}

/// Whether the character at position `i` of `s` neither begins a token nor
/// is blank.
pub open spec fn unknown_at(s: Seq<char>, i: int) -> bool {
    &&& 0 <= i < s.len()
    &&& !is_space(s[i])
    &&& !begins_token(
        s[i],
        if i + 1 < s.len() {
            Some(s[i + 1])
        } else {
            None
        },
    )
}

/// Where no string literal and no comment opens between the positions `j`
/// and `i`, and the character at `i` is unknown, the tokens from `j` on hold
/// an `Error` token.
proof fn lemma_error_token_from(s: Seq<char>, j: int, i: int)
    requires
        0 <= j <= i,
        unknown_at(s, i),
        forall|k: int| j <= k < i ==> s[k] != '"' && s[k] != '/',
    ensures
        first_error(lex_from(s, j), 0) is Some,
    decreases i - j,
{
    lemma_lexeme_fits(s, j);
    let lexeme = lexeme_at(s, j);
    let rest = lex_from(s, j + lexeme.len);
    if !(lexeme.token is Some && lexeme.token->0 is Error) {
        if is_digit(s[j]) {
            Run::Digits.lemma_len_bound(s, j + 1);
        } else if is_ident_start(s[j]) {
            Run::Word.lemma_len_bound(s, j + 1);
        }
        lemma_error_token_from(s, j + lexeme.len, i);
        match lexeme.token {
            Some(token) => {
                lemma_first_error_behind(seq![token], rest, 0);
            },
            None => {},
        }
    }
}

/// A text with an unknown character, before which no string literal and no
/// comment opens, is not refused: its tokens hold an `Error` token, it is read
/// as one `Error` statement, and its evaluation ends with the value 0 and
/// without a fault.
pub proof fn lemma_unknown_character_is_reported(
    src: Seq<char>,
    i: int,
    host: HostView,
    depth: nat,
)
    requires
        unknown_at(strip_bom(src), i),
        forall|k: int| 0 <= k < i ==> strip_bom(src)[k] != '"' && strip_bom(src)[k] != '/',
    ensures
        first_error(lex(src), 0) is Some,
        program(lex(src)).len() == 1,
        program(lex(src))[0] is Error,
        run(with_main_call(program(lex(src))), host, depth).value == 0,
        run(with_main_call(program(lex(src))), host, depth).fault is None,
{
    lemma_error_token_from(strip_bom(src), 0, i);
    lemma_lexical_error_is_reported(lex(src), host, depth);
}

} // verus!
