//! The grammar, as a mathematical model of the parser.
//!
//! ```text
//! stmt     := import | print | let | funcdef | expr
//! import   := ("import" | "use") (STRING | IDENT)
//! print    := "print" "(" expr ")"
//! let      := "let" ["mut"] IDENT [":" IDENT] "=" expr
//! funcdef  := ["pub"] "fn" IDENT "(" [IDENT ("," IDENT)*] ")" block
//! expr     := if | for | sum
//! if       := "if" expr expr ["else" expr]
//! for      := "for" IDENT "in" expr [":"] expr expr
//! sum      := term ("+" term)*
//! term     := NUMBER | IDENT ["(" [expr ("," expr)*] ")"] | block
//! block    := "{" stmt* "}"
//! ```
//!
//! Each function of this module reads one construct at a position of a token
//! sequence and says what was read and how many tokens it took. A construct
//! that cannot be read yields an error and the number of tokens before the one
//! that could not be accepted. The words `import`, `use`, `print`, `if`, `else`,
//! `for` and `in` are identifiers to the lexer; here they are told by their text.

use crate::ast::{ExprView, StmtView};
use crate::lexer::TokenView;
use crate::parser::messages::{
    FN_BAD_PARAMS, FN_NEEDS_BODY, FN_NEEDS_KEYWORD, FN_NEEDS_NAME, FN_NEEDS_PARAMS, FOR_NEEDS_IN,
    FOR_NEEDS_VARIABLE, IMPORT_NEEDS_FILE, LET_NEEDS_KEYWORD, LET_NEEDS_NAME, LET_NEEDS_TYPE,
    LET_NEEDS_VALUE, MODULE_EXTENSION, UNCLOSED_BLOCK, UNCLOSED_CALL, UNCLOSED_PRINT,
    UNEXPECTED_TOKEN, USE_NEEDS_MODULE,
};
use vstd::prelude::*;

verus! {

/// Why an expression could not be read.
#[derive(Clone, Copy, Debug, PartialEq, Eq, Structural)]
pub enum ParseError {
    /// No term begins with the token that was found.
    UnexpectedToken,
    /// The `)` that closes a call's arguments is missing.
    UnclosedCall,
    /// The `}` that closes a block is missing.
    UnclosedBlock,
    /// `for` is not followed by the name of the loop variable.
    ForWithoutVariable,
    /// The loop variable is not followed by `in`.
    ForWithoutIn,
}

impl ParseError {
    /// The diagnostic that an `Error` statement carries for this error.
    pub open spec fn text(self) -> Seq<char> {
        match self {
            ParseError::UnexpectedToken => UNEXPECTED_TOKEN@,
            ParseError::UnclosedCall => UNCLOSED_CALL@,
            ParseError::UnclosedBlock => UNCLOSED_BLOCK@,
            ParseError::ForWithoutVariable => FOR_NEEDS_VARIABLE@,
            ParseError::ForWithoutIn => FOR_NEEDS_IN@,
        }
    }

    /// The diagnostic for this error.
    pub fn message(&self) -> (m: String)
        ensures
            m@ == self.text(),
    {
        match self {
            ParseError::UnexpectedToken => UNEXPECTED_TOKEN.to_owned(),
            ParseError::UnclosedCall => UNCLOSED_CALL.to_owned(),
            ParseError::UnclosedBlock => UNCLOSED_BLOCK.to_owned(),
            ParseError::ForWithoutVariable => FOR_NEEDS_VARIABLE.to_owned(),
            ParseError::ForWithoutIn => FOR_NEEDS_IN.to_owned(),
        }
    }
}

/// What was read, and the number of tokens that it took.
pub struct Parsed<T> {
    pub value: T,
    pub used: nat,
}

/// The number of tokens from `pos` to the end.
pub open spec fn remaining(ts: Seq<TokenView>, pos: nat) -> nat {
    if pos <= ts.len() {
        (ts.len() - pos) as nat
    } else {
        0
    }
}

/// Whether the token at `pos` is `token`.
pub open spec fn token_is(ts: Seq<TokenView>, pos: nat, token: TokenView) -> bool {
    pos < ts.len() && ts[pos as int] == token
}

/// Whether the token at `pos` is the identifier `word`.
pub open spec fn word_is(ts: Seq<TokenView>, pos: nat, word: Seq<char>) -> bool {
    token_is(ts, pos, TokenView::Ident(word))
}

/// The name at `pos`, if an identifier stands there.
pub open spec fn ident_at(ts: Seq<TokenView>, pos: nat) -> Option<Seq<char>> {
    if pos < ts.len() && ts[pos as int] is Ident {
        Some(ts[pos as int]->Ident_0)
    } else {
        None
    }
}

/// The text at `pos`, if a string literal stands there.
pub open spec fn literal_at(ts: Seq<TokenView>, pos: nat) -> Option<Seq<char>> {
    if pos < ts.len() && ts[pos as int] is StringLiteral {
        Some(ts[pos as int]->StringLiteral_0)
    } else {
        None
    }
}

/// Whether the tokens end at `pos`: there is none, or it is `EOF`.
pub open spec fn at_end(ts: Seq<TokenView>, pos: nat) -> bool {
    pos >= ts.len() || ts[pos as int] is EOF
}

/// The file that a module named by an identifier is read from.
pub open spec fn module_file(module: Seq<char>) -> Seq<char> {
    module + MODULE_EXTENSION@
}

/// The statement for a module reference behind the keyword `keyword`, if that
/// keyword stands at `pos`. The module is named by a string literal, or by an
/// identifier that stands for a file.
pub open spec fn module_at(
    ts: Seq<TokenView>,
    pos: nat,
    keyword: Seq<char>,
    complaint: Seq<char>,
) -> Parsed<Option<StmtView>> {
    if word_is(ts, pos, keyword) {
        match (literal_at(ts, pos + 1), ident_at(ts, pos + 1)) {
            (Some(file), _) => Parsed { value: Some(StmtView::Import(file)), used: 2 },
            (None, Some(module)) => Parsed {
                value: Some(StmtView::Import(module_file(module))),
                used: 2,
            },
            (None, None) => Parsed { value: Some(StmtView::Error(complaint)), used: 1 },
        }
    } else {
        Parsed { value: None, used: 0 }
    }
}

/// `import`: a module reference behind the word `import`.
pub open spec fn import_at(ts: Seq<TokenView>, pos: nat) -> Parsed<Option<StmtView>> {
    module_at(ts, pos, "import"@, IMPORT_NEEDS_FILE@)
}

/// `use`: a module reference behind the word `use`.
pub open spec fn use_at(ts: Seq<TokenView>, pos: nat) -> Parsed<Option<StmtView>> {
    module_at(ts, pos, "use"@, USE_NEEDS_MODULE@)
}

/// The rest of a parameter list, behind the names in `names`: a name, then a
/// comma and more, or the closing parenthesis.
pub open spec fn more_params_at(ts: Seq<TokenView>, pos: nat, names: Seq<Seq<char>>) -> Parsed<
    Option<Seq<Seq<char>>>,
>
    decreases remaining(ts, pos),
{
    match ident_at(ts, pos) {
        None => Parsed { value: None, used: 0 },
        Some(name) => {
            if token_is(ts, pos + 1, TokenView::Comma) {
                let rest = more_params_at(ts, pos + 2, names.push(name));
                Parsed { value: rest.value, used: 2 + rest.used }
            } else if token_is(ts, pos + 1, TokenView::RParen) {
                Parsed { value: Some(names.push(name)), used: 2 }
            } else {
                Parsed { value: None, used: 1 }
            }
        },
    }
}

/// A parameter list behind its opening parenthesis, with the closing one:
/// names separated by commas. `None` where the list is malformed.
pub open spec fn params_at(ts: Seq<TokenView>, pos: nat) -> Parsed<Option<Seq<Seq<char>>>> {
    if token_is(ts, pos, TokenView::RParen) {
        Parsed { value: Some(Seq::empty()), used: 1 }
    } else {
        more_params_at(ts, pos, Seq::empty())
    }
}

/// `term := NUMBER | IDENT ["(" [expr ("," expr)*] ")"] | block`
pub open spec fn term_at(ts: Seq<TokenView>, pos: nat) -> Parsed<Result<ExprView, ParseError>>
    decreases remaining(ts, pos), 1nat,
{
    if pos >= ts.len() {
        Parsed { value: Err(ParseError::UnexpectedToken), used: 0 }
    } else {
        match ts[pos as int] {
            TokenView::Number(n) => Parsed { value: Ok(ExprView::Number(n)), used: 1 },
            TokenView::Ident(name) => {
                if token_is(ts, pos + 1, TokenView::LParen) {
                    let args = args_at(ts, pos + 2);
                    Parsed {
                        value: match args.value {
                            Ok(list) => Ok(ExprView::Call(name, list)),
                            Err(e) => Err(e),
                        },
                        used: 2 + args.used,
                    }
                } else {
                    Parsed { value: Ok(ExprView::Var(name)), used: 1 }
                }
            },
            TokenView::LBrace => {
                let block = block_at(ts, pos + 1, Seq::empty());
                Parsed {
                    value: match block.value {
                        Ok(stmts) => Ok(ExprView::Block(stmts)),
                        Err(e) => Err(e),
                    },
                    used: 1 + block.used,
                }
            },
            _ => Parsed { value: Err(ParseError::UnexpectedToken), used: 0 },
        }
    }
}

/// The arguments of a call behind the opening parenthesis, with the closing
/// one: expressions separated by commas.
pub open spec fn args_at(ts: Seq<TokenView>, pos: nat) -> Parsed<
    Result<Seq<ExprView>, ParseError>,
>
    decreases remaining(ts, pos), 8nat,
{
    if token_is(ts, pos, TokenView::RParen) {
        Parsed { value: Ok(Seq::empty()), used: 1 }
    } else {
        more_args_at(ts, pos, Seq::empty())
    }
}

/// The rest of an argument list, behind the arguments in `args`: an
/// expression, then a comma and more, or the closing parenthesis.
pub open spec fn more_args_at(ts: Seq<TokenView>, pos: nat, args: Seq<ExprView>) -> Parsed<
    Result<Seq<ExprView>, ParseError>,
>
    decreases remaining(ts, pos), 7nat,
{
    let arg = expr_at(ts, pos);
    match arg.value {
        Err(e) => Parsed { value: Err(e), used: arg.used },
        Ok(x) => {
            let next = pos + arg.used;
            if token_is(ts, next, TokenView::Comma) {
                let rest = more_args_at(ts, next + 1, args.push(x));
                Parsed { value: rest.value, used: arg.used + 1 + rest.used }
            } else if token_is(ts, next, TokenView::RParen) {
                Parsed { value: Ok(args.push(x)), used: arg.used + 1 }
            } else {
                Parsed { value: Err(ParseError::UnclosedCall), used: arg.used }
            }
        },
    }
}

/// `sum := term ("+" term)*`, which associates to the left.
pub open spec fn sum_at(ts: Seq<TokenView>, pos: nat) -> Parsed<Result<ExprView, ParseError>>
    decreases remaining(ts, pos), 3nat,
{
    let first = term_at(ts, pos);
    match first.value {
        Err(e) => Parsed { value: Err(e), used: first.used },
        Ok(left) => {
            let rest = more_terms_at(ts, pos + first.used, left);
            Parsed { value: rest.value, used: first.used + rest.used }
        },
    }
}

/// The rest of a sum whose terms so far add up to `left`.
pub open spec fn more_terms_at(ts: Seq<TokenView>, pos: nat, left: ExprView) -> Parsed<
    Result<ExprView, ParseError>,
>
    decreases remaining(ts, pos), 2nat,
{
    if token_is(ts, pos, TokenView::Plus) {
        let right = term_at(ts, pos + 1);
        match right.value {
            Err(e) => Parsed { value: Err(e), used: 1 + right.used },
            Ok(r) => {
                let rest = more_terms_at(
                    ts,
                    pos + 1 + right.used,
                    ExprView::Add(Box::new(left), Box::new(r)),
                );
                Parsed { value: rest.value, used: 1 + right.used + rest.used }
            },
        }
    } else {
        Parsed { value: Ok(left), used: 0 }
    }
}

/// `if := "if" expr expr ["else" expr]`, with the word `if` at `pos`. An
/// `else` belongs to the nearest `if` before it.
pub open spec fn if_at(ts: Seq<TokenView>, pos: nat) -> Parsed<Result<ExprView, ParseError>>
    recommends
        word_is(ts, pos, "if"@),
    decreases remaining(ts, pos), 4nat,
{
    if !word_is(ts, pos, "if"@) {
        Parsed { value: Err(ParseError::UnexpectedToken), used: 0 }
    } else {
        let cond = expr_at(ts, pos + 1);
        match cond.value {
            Err(e) => Parsed { value: Err(e), used: 1 + cond.used },
            Ok(c) => {
                let taken = expr_at(ts, pos + 1 + cond.used);
                match taken.value {
                    Err(e) => Parsed { value: Err(e), used: 1 + cond.used + taken.used },
                    Ok(t) => {
                        let next = pos + 1 + cond.used + taken.used;
                        if word_is(ts, next, "else"@) {
                            let other = expr_at(ts, next + 1);
                            Parsed {
                                value: match other.value {
                                    Err(e) => Err(e),
                                    Ok(o) => Ok(
                                        ExprView::If {
                                            cond: Box::new(c),
                                            then_branch: Box::new(t),
                                            else_branch: Some(Box::new(o)),
                                        },
                                    ),
                                },
                                used: 1 + cond.used + taken.used + 1 + other.used,
                            }
                        } else {
                            Parsed {
                                value: Ok(
                                    ExprView::If {
                                        cond: Box::new(c),
                                        then_branch: Box::new(t),
                                        else_branch: None,
                                    },
                                ),
                                used: 1 + cond.used + taken.used,
                            }
                        }
                    },
                }
            },
        }
    }
}

/// `for := "for" IDENT "in" expr [":"] expr expr`, with the word `for` at
/// `pos`: the variable, the first index, the index behind the last, the body.
pub open spec fn for_at(ts: Seq<TokenView>, pos: nat) -> Parsed<Result<ExprView, ParseError>>
    recommends
        word_is(ts, pos, "for"@),
    decreases remaining(ts, pos), 4nat,
{
    if !word_is(ts, pos, "for"@) {
        Parsed { value: Err(ParseError::UnexpectedToken), used: 0 }
    } else {
        match ident_at(ts, pos + 1) {
            None => Parsed { value: Err(ParseError::ForWithoutVariable), used: 1 },
            Some(var) => {
                if !word_is(ts, pos + 2, "in"@) {
                    Parsed { value: Err(ParseError::ForWithoutIn), used: 2 }
                } else {
                    let start = expr_at(ts, pos + 3);
                    match start.value {
                        Err(e) => Parsed { value: Err(e), used: 3 + start.used },
                        Ok(s) => {
                            let colon: nat = if token_is(ts, pos + 3 + start.used, TokenView::Colon) {
                                1
                            } else {
                                0
                            };
                            let before_end = 3 + start.used + colon;
                            let end = expr_at(ts, pos + before_end);
                            match end.value {
                                Err(e) => Parsed { value: Err(e), used: before_end + end.used },
                                Ok(e) => {
                                    let before_body = before_end + end.used;
                                    let body = expr_at(ts, pos + before_body);
                                    Parsed {
                                        value: match body.value {
                                            Err(e) => Err(e),
                                            Ok(b) => Ok(
                                                ExprView::For {
                                                    var,
                                                    start: Box::new(s),
                                                    end: Box::new(e),
                                                    body: Box::new(b),
                                                },
                                            ),
                                        },
                                        used: before_body + body.used,
                                    }
                                },
                            }
                        },
                    }
                }
            },
        }
    }
}

/// `expr := if | for | sum`
pub open spec fn expr_at(ts: Seq<TokenView>, pos: nat) -> Parsed<Result<ExprView, ParseError>>
    decreases remaining(ts, pos), 5nat,
{
    if word_is(ts, pos, "if"@) {
        if_at(ts, pos)
    } else if word_is(ts, pos, "for"@) {
        for_at(ts, pos)
    } else {
        sum_at(ts, pos)
    }
}

/// `print := "print" "(" expr ")"`. `None` where the word `print` and an
/// opening parenthesis do not stand at `pos`.
pub open spec fn print_at(ts: Seq<TokenView>, pos: nat) -> Parsed<Option<StmtView>>
    decreases remaining(ts, pos), 6nat,
{
    if word_is(ts, pos, "print"@) && token_is(ts, pos + 1, TokenView::LParen) {
        let arg = expr_at(ts, pos + 2);
        match arg.value {
            Err(e) => Parsed { value: Some(StmtView::Error(e.text())), used: 2 + arg.used },
            Ok(x) => {
                if token_is(ts, pos + 2 + arg.used, TokenView::RParen) {
                    Parsed { value: Some(StmtView::Print(Box::new(x))), used: 2 + arg.used + 1 }
                } else {
                    Parsed {
                        value: Some(StmtView::Error(UNCLOSED_PRINT@)),
                        used: 2 + arg.used,
                    }
                }
            },
        }
    } else {
        Parsed { value: None, used: 0 }
    }
}

/// `let := "let" ["mut"] IDENT [":" IDENT] "=" expr`
pub open spec fn let_at(ts: Seq<TokenView>, pos: nat) -> Parsed<StmtView>
    decreases remaining(ts, pos), 6nat,
{
    if !token_is(ts, pos, TokenView::Let) {
        Parsed { value: StmtView::Error(LET_NEEDS_KEYWORD@), used: 0 }
    } else {
        let mutable = token_is(ts, pos + 1, TokenView::Mut);
        let before_name: nat = if mutable {
            2
        } else {
            1
        };
        match ident_at(ts, pos + before_name) {
            None => Parsed { value: StmtView::Error(LET_NEEDS_NAME@), used: before_name },
            Some(name) => {
                let typed = token_is(ts, pos + before_name + 1, TokenView::Colon);
                if typed && ident_at(ts, pos + before_name + 2) is None {
                    Parsed {
                        value: StmtView::Error(LET_NEEDS_TYPE@),
                        used: before_name + 2,
                    }
                } else {
                    let ty = if typed {
                        ident_at(ts, pos + before_name + 2)
                    } else {
                        None
                    };
                    let before_eq: nat = if typed {
                        before_name + 3
                    } else {
                        before_name + 1
                    };
                    if !token_is(ts, pos + before_eq, TokenView::Eq) {
                        Parsed { value: StmtView::Error(LET_NEEDS_VALUE@), used: before_eq }
                    } else {
                        let value = expr_at(ts, pos + before_eq + 1);
                        Parsed {
                            value: match value.value {
                                Err(e) => StmtView::Error(e.text()),
                                Ok(v) => StmtView::Let { name, value: v, mutable, ty },
                            },
                            used: before_eq + 1 + value.used,
                        }
                    }
                }
            },
        }
    }
}

/// `funcdef := ["pub"] "fn" IDENT "(" [IDENT ("," IDENT)*] ")" block`. The
/// body is a block expression.
pub open spec fn funcdef_at(ts: Seq<TokenView>, pos: nat) -> Parsed<StmtView>
    decreases remaining(ts, pos), 6nat,
{
    let before_fn: nat = if token_is(ts, pos, TokenView::Pub) {
        1
    } else {
        0
    };
    if !token_is(ts, pos + before_fn, TokenView::Fn) {
        Parsed { value: StmtView::Error(FN_NEEDS_KEYWORD@), used: before_fn }
    } else {
        match ident_at(ts, pos + before_fn + 1) {
            None => Parsed { value: StmtView::Error(FN_NEEDS_NAME@), used: before_fn + 1 },
            Some(name) => {
                if !token_is(ts, pos + before_fn + 2, TokenView::LParen) {
                    Parsed { value: StmtView::Error(FN_NEEDS_PARAMS@), used: before_fn + 2 }
                } else {
                    let params = params_at(ts, pos + before_fn + 3);
                    let before_body = before_fn + 3 + params.used;
                    match params.value {
                        None => Parsed {
                            value: StmtView::Error(FN_BAD_PARAMS@),
                            used: before_body,
                        },
                        Some(names) => {
                            if !token_is(ts, pos + before_body, TokenView::LBrace) {
                                Parsed {
                                    value: StmtView::Error(FN_NEEDS_BODY@),
                                    used: before_body,
                                }
                            } else {
                                let block = block_at(ts, pos + before_body + 1, Seq::empty());
                                Parsed {
                                    value: match block.value {
                                        Err(e) => StmtView::Error(e.text()),
                                        Ok(stmts) => StmtView::FuncDef {
                                            name,
                                            params: names,
                                            body: Box::new(ExprView::Block(stmts)),
                                        },
                                    },
                                    used: before_body + 1 + block.used,
                                }
                            }
                        },
                    }
                }
            },
        }
    }
}

/// `stmt := import | print | let | funcdef | expr`, tried in this order. An
/// expression that cannot be read yields an `Error` statement.
pub open spec fn stmt_at(ts: Seq<TokenView>, pos: nat) -> Parsed<StmtView>
    decreases remaining(ts, pos), 9nat,
{
    if import_at(ts, pos).value is Some {
        Parsed { value: import_at(ts, pos).value->0, used: import_at(ts, pos).used }
    } else if use_at(ts, pos).value is Some {
        Parsed { value: use_at(ts, pos).value->0, used: use_at(ts, pos).used }
    } else if print_at(ts, pos).value is Some {
        Parsed { value: print_at(ts, pos).value->0, used: print_at(ts, pos).used }
    } else if token_is(ts, pos, TokenView::Let) {
        let_at(ts, pos)
    } else if token_is(ts, pos, TokenView::Pub) || token_is(ts, pos, TokenView::Fn) {
        funcdef_at(ts, pos)
    } else {
        let e = expr_at(ts, pos);
        Parsed {
            value: match e.value {
                Ok(x) => StmtView::Expr(x),
                Err(err) => StmtView::Error(err.text()),
            },
            used: e.used,
        }
    }
}

/// The number of tokens that a list of statements leaves behind for one
/// statement: what the statement took, and one token where it took none, so
/// that a token which begins no statement is passed over.
pub open spec fn step(used: nat) -> nat {
    if used == 0 {
        1
    } else {
        used
    }
}

/// The rest of a block, behind the statements in `stmts`, with the closing
/// brace.
pub open spec fn block_at(ts: Seq<TokenView>, pos: nat, stmts: Seq<StmtView>) -> Parsed<
    Result<Seq<StmtView>, ParseError>,
>
    decreases remaining(ts, pos), 10nat,
{
    if at_end(ts, pos) {
        Parsed { value: Err(ParseError::UnclosedBlock), used: 0 }
    } else if ts[pos as int] is RBrace {
        Parsed { value: Ok(stmts), used: 1 }
    } else {
        let stmt = stmt_at(ts, pos);
        let rest = block_at(ts, pos + step(stmt.used), stmts.push(stmt.value));
        Parsed { value: rest.value, used: step(stmt.used) + rest.used }
    }
}

/// The statements from `pos` up to `EOF`, behind those in `stmts`.
pub open spec fn stmts_at(ts: Seq<TokenView>, pos: nat, stmts: Seq<StmtView>) -> Seq<StmtView>
    decreases remaining(ts, pos),
{
    if at_end(ts, pos) {
        stmts
    } else {
        let stmt = stmt_at(ts, pos);
        stmts_at(ts, pos + step(stmt.used), stmts.push(stmt.value))
    }
}

/// The message of the first `Error` token from `pos` on, if there is one.
pub open spec fn first_error(ts: Seq<TokenView>, pos: nat) -> Option<Seq<char>>
    decreases remaining(ts, pos),
{
    if pos >= ts.len() {
        None
    } else if ts[pos as int] is Error {
        Some(ts[pos as int]->Error_0)
    } else {
        first_error(ts, pos + 1)
    }
}

/// The statements that a token sequence stands for.
///
/// A sequence that holds an `Error` token stands for one `Error` statement,
/// with the message of the first such token. Any other is read statement by
/// statement up to `EOF`, or to its end where it has none.
pub open spec fn program(ts: Seq<TokenView>) -> Seq<StmtView> {
    match first_error(ts, 0) {
        Some(message) => seq![StmtView::Error(message)],
        None => stmts_at(ts, 0, Seq::empty()),
    }
}

} // verus!
