//! Lexical analysis: source text to tokens.
//!
//! [`lex`] is the model: it says, for any text, which tokens the text holds.
//! [`tokenize`] computes it.

use crate::text::{
    chars_of, code_point, decimal_digits, digit, digit_to_i64, digit_value, hex_code, ident_start,
    is_digit, is_ident_start, is_space, lemma_all_in_run, push_decimal, push_hex_code, same_text,
    space, string_of, Run,
};
use crate::view::{lemma_views_push, views};
use vstd::prelude::*;

verus! {

/// A lexical unit of the language.
#[derive(Debug, PartialEq)]
pub enum Token {
    Number(i64),
    Plus,
    Pub,
    Fn,
    Ident(String),
    LParen,
    RParen,
    LBrace,
    RBrace,
    Comma,
    Let,
    Mut,
    Colon,
    Eq,
    StringLiteral(String),
    Error(String),
    EOF,
}

/// The mathematical value of a [`Token`]: its text is a sequence of characters.
pub enum TokenView {
    Number(i64),
    Plus,
    Pub,
    Fn,
    Ident(Seq<char>),
    LParen,
    RParen,
    LBrace,
    RBrace,
    Comma,
    Let,
    Mut,
    Colon,
    Eq,
    StringLiteral(Seq<char>),
    Error(Seq<char>),
    EOF,
}

impl View for Token {
    type V = TokenView;

    open spec fn view(&self) -> TokenView {
        match *self {
            Token::Number(n) => TokenView::Number(n),
            Token::Plus => TokenView::Plus,
            Token::Pub => TokenView::Pub,
            Token::Fn => TokenView::Fn,
            Token::Ident(s) => TokenView::Ident(s@),
            Token::LParen => TokenView::LParen,
            Token::RParen => TokenView::RParen,
            Token::LBrace => TokenView::LBrace,
            Token::RBrace => TokenView::RBrace,
            Token::Comma => TokenView::Comma,
            Token::Let => TokenView::Let,
            Token::Mut => TokenView::Mut,
            Token::Colon => TokenView::Colon,
            Token::Eq => TokenView::Eq,
            Token::StringLiteral(s) => TokenView::StringLiteral(s@),
            Token::Error(s) => TokenView::Error(s@),
            Token::EOF => TokenView::EOF,
        }
    }
}

impl Clone for Token {
    fn clone(&self) -> (r: Token)
        ensures
            r@ == self@,
    {
        match self {
            Token::Number(n) => Token::Number(*n),
            Token::Plus => Token::Plus,
            Token::Pub => Token::Pub,
            Token::Fn => Token::Fn,
            Token::Ident(s) => Token::Ident(s.clone()),
            Token::LParen => Token::LParen,
            Token::RParen => Token::RParen,
            Token::LBrace => Token::LBrace,
            Token::RBrace => Token::RBrace,
            Token::Comma => Token::Comma,
            Token::Let => Token::Let,
            Token::Mut => Token::Mut,
            Token::Colon => Token::Colon,
            Token::Eq => Token::Eq,
            Token::StringLiteral(s) => Token::StringLiteral(s.clone()),
            Token::Error(s) => Token::Error(s.clone()),
            Token::EOF => Token::EOF,
        }
    }
}

impl Token {
    /// Whether two tokens are the same: of one kind, with the same number or text.
    pub fn same(&self, other: &Token) -> (b: bool)
        ensures
            b == (self@ == other@),
    {
        match (self, other) {
            (Token::Number(a), Token::Number(b)) => *a == *b,
            (Token::Plus, Token::Plus) => true,
            (Token::Pub, Token::Pub) => true,
            (Token::Fn, Token::Fn) => true,
            (Token::Ident(a), Token::Ident(b)) => same_text(a.as_str(), b.as_str()),
            (Token::LParen, Token::LParen) => true,
            (Token::RParen, Token::RParen) => true,
            (Token::LBrace, Token::LBrace) => true,
            (Token::RBrace, Token::RBrace) => true,
            (Token::Comma, Token::Comma) => true,
            (Token::Let, Token::Let) => true,
            (Token::Mut, Token::Mut) => true,
            (Token::Colon, Token::Colon) => true,
            (Token::Eq, Token::Eq) => true,
            (Token::StringLiteral(a), Token::StringLiteral(b)) => same_text(
                a.as_str(),
                b.as_str(),
            ),
            (Token::Error(a), Token::Error(b)) => same_text(a.as_str(), b.as_str()),
            (Token::EOF, Token::EOF) => true,
            _ => false,
        }
    }
}

/// The byte-order mark that may open a text.
pub const BOM: char = '\u{feff}';

/// How many characters before an offending one an error message quotes.
pub const CONTEXT_BEFORE: usize = 5;

/// How many characters around an offending one an error message quotes in all.
pub const CONTEXT_LEN: usize = 10;

/// The mathematical value of a run of decimal digits.
pub open spec fn decimal_value(digits: Seq<char>) -> nat
    decreases digits.len(),
{
    if digits.len() == 0 {
        0
    } else {
        (decimal_value(digits.drop_last()) * 10 + digit_value(digits.last())) as nat
    }
}

/// The value that a number token carries: the digits are accumulated in 64-bit
/// signed arithmetic that wraps around, so a literal beyond the range of `i64`
/// yields its value modulo 2^64.
pub open spec fn number_value(digits: Seq<char>) -> i64
    decreases digits.len(),
{
    if digits.len() == 0 {
        0
    } else {
        number_value(digits.drop_last()).wrapping_mul(10).wrapping_add(
            digit_value(digits.last()) as i64,
        )
    }
}

/// The token that a word stands for: one of the four keywords, or an identifier.
pub open spec fn word_token(word: Seq<char>) -> TokenView {
    if word == "let"@ {
        TokenView::Let
    } else if word == "mut"@ {
        TokenView::Mut
    } else if word == "pub"@ {
        TokenView::Pub
    } else if word == "fn"@ {
        TokenView::Fn
    } else {
        TokenView::Ident(word)
    }
}

/// The token for a punctuation character, if `c` is one.
pub open spec fn punctuation(c: char) -> Option<TokenView> {
    if c == '+' {
        Some(TokenView::Plus)
    } else if c == '(' {
        Some(TokenView::LParen)
    } else if c == ')' {
        Some(TokenView::RParen)
    } else if c == '{' {
        Some(TokenView::LBrace)
    } else if c == '}' {
        Some(TokenView::RBrace)
    } else if c == ',' {
        Some(TokenView::Comma)
    } else if c == '=' {
        Some(TokenView::Eq)
    } else if c == ':' {
        Some(TokenView::Colon)
    } else {
        None
    }
}

/// The characters around position `i` that an error message quotes: up to five
/// before it, ten in all.
pub open spec fn context(s: Seq<char>, i: int) -> Seq<char> {
    let from = if i >= CONTEXT_BEFORE as int {
        i - CONTEXT_BEFORE as int
    } else {
        0
    };
    let to = if from + CONTEXT_LEN as int <= s.len() {
        from + CONTEXT_LEN as int
    } else {
        s.len() as int
    };
    s.subrange(from, to)
}

/// What the message of an error token begins with; the character follows.
pub const BAD_CHAR: &'static str = "不正な文字: '";

/// What stands before the code point of the character.
pub const BAD_CHAR_CODE: &'static str = "' (U+";

/// What stands before the offset of the character.
pub const BAD_CHAR_OFFSET: &'static str = ") 位置: ";

/// What stands before the surroundings of the character.
pub const BAD_CHAR_CONTEXT: &'static str = " 付近: '";

/// What the message of an error token ends with.
pub const BAD_CHAR_END: &'static str = "'";

/// The message of the error token for the character at position `i`: the
/// character, its code point in hexadecimal, its offset in characters and its
/// surroundings.
pub open spec fn bad_char_message(s: Seq<char>, i: int) -> Seq<char> {
    BAD_CHAR@ + seq![s[i]] + BAD_CHAR_CODE@ + hex_code(s[i] as nat) + BAD_CHAR_OFFSET@
        + decimal_digits(i as nat) + BAD_CHAR_CONTEXT@ + context(s, i) + BAD_CHAR_END@
}

/// What stands at one position of the text: a token or nothing (blank space,
/// a comment), and the number of characters that it takes.
pub struct Lexeme {
    pub token: Option<TokenView>,
    pub len: nat,
}

/// The lexeme that starts at position `i` of `s`.
pub open spec fn lexeme_at(s: Seq<char>, i: int) -> Lexeme
    recommends
        0 <= i < s.len(),
{
    let c = s[i];
    if is_digit(c) {
        let n = 1 + Run::Digits.len(s, i + 1);
        Lexeme { token: Some(TokenView::Number(number_value(s.subrange(i, i + n)))), len: n }
    } else if punctuation(c) is Some {
        Lexeme { token: punctuation(c), len: 1 }
    } else if c == '"' {
        let n = Run::Until('"').len(s, i + 1);
        Lexeme {
            token: Some(TokenView::StringLiteral(s.subrange(i + 1, i + 1 + n))),
            len: if i + 1 + n < s.len() {
                n + 2
            } else {
                n + 1
            },
        }
    } else if c == '/' && i + 1 < s.len() && s[i + 1] == '/' {
        let n = Run::Until('\n').len(s, i + 2);
        Lexeme {
            token: None,
            len: if i + 2 + n < s.len() {
                n + 3
            } else {
                n + 2
            },
        }
    } else if is_space(c) {
        Lexeme { token: None, len: 1 }
    } else if is_ident_start(c) {
        let n = 1 + Run::Word.len(s, i + 1);
        Lexeme { token: Some(word_token(s.subrange(i, i + n))), len: n }
    } else {
        Lexeme { token: Some(TokenView::Error(bad_char_message(s, i))), len: 1 }
    }
}

/// A lexeme takes at least one character and ends inside the text.
pub proof fn lemma_lexeme_fits(s: Seq<char>, i: int)
    requires
        0 <= i < s.len(),
    ensures
        1 <= lexeme_at(s, i).len,
        i + lexeme_at(s, i).len <= s.len(),
{
    Run::Digits.lemma_len_bound(s, i + 1);
    Run::Word.lemma_len_bound(s, i + 1);
    Run::Until('"').lemma_len_bound(s, i + 1);
    if i + 1 < s.len() {
        Run::Until('\n').lemma_len_bound(s, i + 2);
    }
}

/// The tokens of `s` from position `i` on, closed by `EOF`.
pub open spec fn lex_from(s: Seq<char>, i: int) -> Seq<TokenView>
    decreases s.len() - i,
{
    if 0 <= i < s.len() {
        let lexeme = lexeme_at(s, i);
        proof {
            lemma_lexeme_fits(s, i);
        }
        let rest = lex_from(s, i + lexeme.len);
        match lexeme.token {
            Some(token) => seq![token] + rest,
            None => rest,
        }
    } else {
        seq![TokenView::EOF]
    }
}

/// A token stream ends with `EOF`, and holds no other.
pub open spec fn closed_by_eof(tokens: Seq<TokenView>) -> bool {
    &&& tokens.len() >= 1
    &&& tokens.last() is EOF
    &&& forall|k: int| 0 <= k < tokens.len() - 1 ==> !(#[trigger] tokens[k] is EOF)
}

/// Whatever the text, its tokens end with exactly one `EOF`, which nothing
/// follows.
pub proof fn lemma_lex_closed_by_eof(s: Seq<char>, i: int)
    ensures
        closed_by_eof(lex_from(s, i)),
    decreases s.len() - i,
{
    if 0 <= i < s.len() {
        lemma_lexeme_fits(s, i);
        let lexeme = lexeme_at(s, i);
        lemma_lex_closed_by_eof(s, i + lexeme.len);
        let rest = lex_from(s, i + lexeme.len);
        match lexeme.token {
            Some(token) => {
                let all = seq![token] + rest;
                assert forall|k: int| 0 <= k < all.len() - 1 implies !(#[trigger] all[k]
                    is EOF) by {}
            },
            None => {},
        }
    }
}

/// `src` without the byte-order mark at its start, if it has one.
pub open spec fn strip_bom(src: Seq<char>) -> Seq<char> {
    if src.len() > 0 && src[0] == BOM {
        src.subrange(1, src.len() as int)
    } else {
        src
    }
}

/// The tokens of a source text.
pub open spec fn lex(src: Seq<char>) -> Seq<TokenView> {
    lex_from(strip_bom(src), 0)
}

/// The tokens of any text end with exactly one `EOF`, which nothing follows.
pub proof fn lemma_lex_ends_with_eof(src: Seq<char>)
    ensures
        closed_by_eof(lex(src)),
{
    lemma_lex_closed_by_eof(strip_bom(src), 0);
}

/// Whether a token begins with `c`: a digit, a letter or `_`, a punctuation
/// character, a quote, or the first slash of a comment.
pub open spec fn begins_token(c: char, next: Option<char>) -> bool {
    ||| is_digit(c)
    ||| is_ident_start(c)
    ||| punctuation(c) is Some
    ||| c == '"'
    ||| (c == '/' && next == Some('/'))
}

/// A text that opens with a character which neither begins a token nor is
/// blank has an `Error` token as its first, with the message for that
/// character.
pub proof fn lemma_unknown_character_is_error(src: Seq<char>)
    requires
        src.len() > 0,
        src[0] != BOM,
        !is_space(src[0]),
        !begins_token(
            src[0],
            if src.len() > 1 {
                Some(src[1])
            } else {
                None
            },
        ),
    ensures
        lex(src)[0] == TokenView::Error(bad_char_message(src, 0)),
{
}

/// For a run of digits that stands for a number within the range of `i64`,
/// the wrapping accumulation is exact.
pub proof fn lemma_number_value_exact(digits: Seq<char>)
    requires
        forall|k: int| 0 <= k < digits.len() ==> is_digit(#[trigger] digits[k]),
        decimal_value(digits) <= i64::MAX,
    ensures
        number_value(digits) == decimal_value(digits),
    decreases digits.len(),
{
    if digits.len() > 0 {
        let head = digits.drop_last();
        assert forall|k: int| 0 <= k < head.len() implies is_digit(#[trigger] head[k]) by {}
        lemma_number_value_exact(head);
        let v = decimal_value(head) as int;
        assert((v * 10) % 0x1_0000_0000_0000_0000 == v * 10) by {
            vstd::arithmetic::div_mod::lemma_small_mod((v * 10) as nat, 0x1_0000_0000_0000_0000);
        }
    }
}

/// A decimal literal within the range of `i64`, standing alone, is read back
/// as the number that it denotes.
pub proof fn lemma_lex_number(digits: Seq<char>)
    requires
        digits.len() > 0,
        forall|k: int| 0 <= k < digits.len() ==> is_digit(#[trigger] digits[k]),
        decimal_value(digits) <= i64::MAX,
    ensures
        lex(digits) == seq![TokenView::Number(decimal_value(digits) as i64), TokenView::EOF],
{
    lemma_all_in_run(Run::Digits, digits, 1);
    let n = 1 + Run::Digits.len(digits, 1);
    assert(digits.subrange(0, n as int) =~= digits);
    lemma_number_value_exact(digits);
    assert(lex_from(digits, 0) == seq![TokenView::Number(number_value(digits))] + lex_from(
        digits,
        n as int,
    ));
    assert(seq![TokenView::Number(number_value(digits))] + seq![TokenView::EOF] =~= seq![
        TokenView::Number(number_value(digits)),
        TokenView::EOF,
    ]);
}

fn number_of(chars: &[char], from: usize, to: usize) -> (n: i64)
    requires
        from <= to <= chars.len(),
        forall|k: int| from <= k < to ==> is_digit(#[trigger] chars@[k]),
    ensures
        n == number_value(chars@.subrange(from as int, to as int)),
{
    let mut n: i64 = 0;
    let mut j: usize = from;
    while j < to
        invariant
            from <= j <= to <= chars.len(),
            forall|k: int| from <= k < to ==> is_digit(#[trigger] chars@[k]),
            n == number_value(chars@.subrange(from as int, j as int)),
        decreases to - j,
    {
        proof {
            let next = chars@.subrange(from as int, j as int + 1);
            assert(next.drop_last() =~= chars@.subrange(from as int, j as int));
        }
        n = n.wrapping_mul(10).wrapping_add(digit_to_i64(chars[j]));
        j += 1;
    }
    n
}

fn word_of(chars: &[char], from: usize, to: usize) -> (token: Token)
    requires
        from <= to <= chars.len(),
    ensures
        token@ == word_token(chars@.subrange(from as int, to as int)),
{
    let word = string_of(chars, from, to);
    if same_text(word.as_str(), "let") {
        Token::Let
    } else if same_text(word.as_str(), "mut") {
        Token::Mut
    } else if same_text(word.as_str(), "pub") {
        Token::Pub
    } else if same_text(word.as_str(), "fn") {
        Token::Fn
    } else {
        Token::Ident(word)
    }
}

fn bad_char(chars: &[char], i: usize) -> (token: Token)
    requires
        i < chars.len(),
    ensures
        token@ == TokenView::Error(bad_char_message(chars@, i as int)),
{
    let c = chars[i];
    let from = if i >= CONTEXT_BEFORE {
        i - CONTEXT_BEFORE
    } else {
        0
    };
    let to = if chars.len() - from >= CONTEXT_LEN {
        from + CONTEXT_LEN
    } else {
        chars.len()
    };
    let around = string_of(chars, from, to);
    let mut message = BAD_CHAR.to_owned();
    message.push(c);
    message.append(BAD_CHAR_CODE);
    push_hex_code(&mut message, code_point(c));
    message.append(BAD_CHAR_OFFSET);
    push_decimal(&mut message, i);
    message.append(BAD_CHAR_CONTEXT);
    message.append(around.as_str());
    message.append(BAD_CHAR_END);
    assert(message@ =~= bad_char_message(chars@, i as int));
    Token::Error(message)
}

fn punctuation_of(c: char) -> (token: Option<Token>)
    ensures
        match token {
            Some(t) => punctuation(c) == Some(t@),
            None => punctuation(c) is None,
        },
{
    if c == '+' {
        Some(Token::Plus)
    } else if c == '(' {
        Some(Token::LParen)
    } else if c == ')' {
        Some(Token::RParen)
    } else if c == '{' {
        Some(Token::LBrace)
    } else if c == '}' {
        Some(Token::RBrace)
    } else if c == ',' {
        Some(Token::Comma)
    } else if c == '=' {
        Some(Token::Eq)
    } else if c == ':' {
        Some(Token::Colon)
    } else {
        None
    }
}

/// Splits a source text into its tokens.
///
/// No text is refused: a character that begins no token becomes an `Error`
/// token and the scan goes on behind it. The result ends with exactly one
/// `EOF`.
pub fn tokenize(input: &str) -> (tokens: Vec<Token>)
    ensures
        views(tokens@) == lex(input@),
        closed_by_eof(views(tokens@)),
{
    let mut chars = chars_of(input);
    if chars.len() > 0 && chars[0] == BOM {
        chars.remove(0);
        assert(chars@ =~= strip_bom(input@));
    }
    let ghost s = chars@;
    let mut tokens: Vec<Token> = Vec::new();
    let mut i: usize = 0;
    assert(views(tokens@) =~= Seq::<TokenView>::empty());
    while i < chars.len()
        invariant
            i <= chars.len(),
            chars@ == s,
            views(tokens@) + lex_from(s, i as int) == lex_from(s, 0),
        decreases chars.len() - i,
    {
        let c = chars[i];
        let ghost before = tokens@;
        let ghost lexeme = lexeme_at(s, i as int);
        proof {
            lemma_lexeme_fits(s, i as int);
        }
        let mut found: Option<Token> = None;
        let next: usize;
        if digit(c) {
            next = Run::Digits.end(chars.as_slice(), i + 1);
            proof {
                Run::Digits.lemma_len_bound(s, i as int + 1);
            }
            found = Some(Token::Number(number_of(chars.as_slice(), i, next)));
        } else if let Some(token) = punctuation_of(c) {
            found = Some(token);
            next = i + 1;
        } else if c == '"' {
            let close = Run::Until('"').end(chars.as_slice(), i + 1);
            found = Some(Token::StringLiteral(string_of(chars.as_slice(), i + 1, close)));
            next = if close < chars.len() {
                close + 1
            } else {
                close
            };
        } else if c == '/' && i + 1 < chars.len() && chars[i + 1] == '/' {
            let end = Run::Until('\n').end(chars.as_slice(), i + 2);
            next = if end < chars.len() {
                end + 1
            } else {
                end
            };
        } else if space(c) {
            next = i + 1;
        } else if ident_start(c) {
            next = Run::Word.end(chars.as_slice(), i + 1);
            found = Some(word_of(chars.as_slice(), i, next));
        } else {
            found = Some(bad_char(chars.as_slice(), i));
            next = i + 1;
        }
        assert(next == i + lexeme.len);
        match found {
            Some(token) => {
                let ghost view = token@;
                assert(lexeme.token == Some(view));
                tokens.push(token);
                proof {
                    lemma_views_push(before, token);
                    assert(views(before).push(view) + lex_from(s, next as int) =~= views(before)
                        + (seq![view] + lex_from(s, next as int)));
                }
            },
            None => {
                assert(lexeme.token is None);
            },
        }
        i = next;
    }
    let ghost before = tokens@;
    tokens.push(Token::EOF);
    proof {
        lemma_views_push(before, Token::EOF);
        assert(views(before).push(TokenView::EOF) =~= views(before) + seq![TokenView::EOF]);
        lemma_lex_closed_by_eof(s, 0);
    }
    tokens
}

} // verus!
