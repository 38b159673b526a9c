//! Looking at the token under the cursor.

use crate::lexer::Token;
use crate::parser::grammar::{at_end, ident_at, literal_at, token_is, word_is};
use crate::text::same_text;
use crate::view::views;
use vstd::prelude::*;

verus! {

/// The token at `pos`, if there is one.
pub fn peek(tokens: &[Token], pos: usize) -> (t: Option<&Token>)
    ensures
        match t {
            Some(token) => pos < tokens@.len() && *token == tokens@[pos as int],
            None => pos >= tokens@.len(),
        },
        t is Some ==> pos < usize::MAX,
{
    if pos < tokens.len() {
        Some(&tokens[pos])
    } else {
        None
    }
}

/// Whether `token` stands at `pos`.
pub fn is_at(tokens: &[Token], pos: usize, token: &Token) -> (b: bool)
    ensures
        b == token_is(views(tokens@), pos as nat, token@),
        b ==> pos < usize::MAX,
{
    match peek(tokens, pos) {
        Some(found) => found.same(token),
        None => false,
    }
}

/// Whether the identifier `word` stands at `pos`.
pub fn word_at(tokens: &[Token], pos: usize, word: &str) -> (b: bool)
    ensures
        b == word_is(views(tokens@), pos as nat, word@),
        b ==> pos < usize::MAX,
{
    match peek(tokens, pos) {
        Some(Token::Ident(name)) => same_text(name.as_str(), word),
        _ => false,
    }
}

/// The name at `pos`, if an identifier stands there.
pub fn name_at(tokens: &[Token], pos: usize) -> (name: Option<String>)
    ensures
        match name {
            Some(n) => ident_at(views(tokens@), pos as nat) == Some(n@),
            None => ident_at(views(tokens@), pos as nat) is None,
        },
        name is Some ==> pos < usize::MAX,
{
    match peek(tokens, pos) {
        Some(Token::Ident(name)) => Some(name.clone()),
        _ => None,
    }
}

/// The text at `pos`, if a string literal stands there.
pub fn text_at(tokens: &[Token], pos: usize) -> (text: Option<String>)
    ensures
        match text {
            Some(t) => literal_at(views(tokens@), pos as nat) == Some(t@),
            None => literal_at(views(tokens@), pos as nat) is None,
        },
        text is Some ==> pos < usize::MAX,
{
    match peek(tokens, pos) {
        Some(Token::StringLiteral(text)) => Some(text.clone()),
        _ => None,
    }
}

/// Whether the tokens end at `pos`.
pub fn ended(tokens: &[Token], pos: usize) -> (b: bool)
    ensures
        b == at_end(views(tokens@), pos as nat),
        !b ==> pos < usize::MAX,
{
    match peek(tokens, pos) {
        None => true,
        Some(Token::EOF) => true,
        _ => false,
    }
}

} // verus!
