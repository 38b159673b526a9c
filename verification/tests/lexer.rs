use nanai_simple_lang::lexer::{tokenize, Token};

fn ident(name: &str) -> Token {
    Token::Ident(name.to_string())
}

#[test]
fn empty_text_is_only_eof() {
    assert_eq!(tokenize(""), vec![Token::EOF]);
}

#[test]
fn sum_of_three_numbers() {
    assert_eq!(
        tokenize("1 + 2 + 3"),
        vec![
            Token::Number(1),
            Token::Plus,
            Token::Number(2),
            Token::Plus,
            Token::Number(3),
            Token::EOF
        ]
    );
}

#[test]
fn keywords_and_identifiers() {
    assert_eq!(
        tokenize("let mut pub fn letter _x9 import use print if else for in"),
        vec![
            Token::Let,
            Token::Mut,
            Token::Pub,
            Token::Fn,
            ident("letter"),
            ident("_x9"),
            ident("import"),
            ident("use"),
            ident("print"),
            ident("if"),
            ident("else"),
            ident("for"),
            ident("in"),
            Token::EOF
        ]
    );
}

#[test]
fn punctuation_maps_one_to_one() {
    assert_eq!(
        tokenize("+(){},=:"),
        vec![
            Token::Plus,
            Token::LParen,
            Token::RParen,
            Token::LBrace,
            Token::RBrace,
            Token::Comma,
            Token::Eq,
            Token::Colon,
            Token::EOF
        ]
    );
}

#[test]
fn string_literal_has_no_escapes() {
    assert_eq!(
        tokenize("\"a\\n b\" x"),
        vec![Token::StringLiteral("a\\n b".to_string()), ident("x"), Token::EOF]
    );
}

#[test]
fn unterminated_string_runs_to_the_end() {
    assert_eq!(
        tokenize("x \"abc def"),
        vec![ident("x"), Token::StringLiteral("abc def".to_string()), Token::EOF]
    );
}

#[test]
fn line_comment_is_dropped() {
    assert_eq!(
        tokenize("1 // two 2\n3 // end"),
        vec![Token::Number(1), Token::Number(3), Token::EOF]
    );
}

#[test]
fn whitespace_is_dropped() {
    assert_eq!(tokenize(" \t\r\n7\n"), vec![Token::Number(7), Token::EOF]);
}

#[test]
fn leading_bom_is_stripped_once() {
    assert_eq!(tokenize("\u{feff}7"), vec![Token::Number(7), Token::EOF]);
    let twice = tokenize("\u{feff}\u{feff}7");
    assert_eq!(twice.len(), 3);
    assert!(matches!(twice[0], Token::Error(_)));
    assert_eq!(twice[1], Token::Number(7));
}

#[test]
fn unknown_character_becomes_error_token() {
    assert_eq!(
        tokenize("1 # 2"),
        vec![
            Token::Number(1),
            Token::Error("不正な文字: '#' (U+0023) 位置: 2 付近: '1 # 2'".to_string()),
            Token::Number(2),
            Token::EOF
        ]
    );
}

#[test]
fn error_message_quotes_five_before_and_ten_in_all() {
    assert_eq!(
        tokenize("abcdefgh#ijklmnop"),
        vec![
            ident("abcdefgh"),
            Token::Error("不正な文字: '#' (U+0023) 位置: 8 付近: 'defgh#ijkl'".to_string()),
            ident("ijklmnop"),
            Token::EOF
        ]
    );
}

#[test]
fn error_message_gives_wide_code_points_in_full() {
    assert_eq!(
        tokenize("\u{1F600}"),
        vec![
            Token::Error("不正な文字: '\u{1F600}' (U+1F600) 位置: 0 付近: '\u{1F600}'".to_string()),
            Token::EOF
        ]
    );
}

#[test]
fn lone_slash_is_an_error() {
    assert_eq!(
        tokenize("1 / 2"),
        vec![
            Token::Number(1),
            Token::Error("不正な文字: '/' (U+002F) 位置: 2 付近: '1 / 2'".to_string()),
            Token::Number(2),
            Token::EOF
        ]
    );
}

#[test]
fn letters_outside_ascii_end_an_identifier() {
    let tokens = tokenize("caf\u{e9}");
    assert_eq!(tokens.len(), 3);
    assert_eq!(tokens[0], ident("caf"));
    assert!(matches!(tokens[1], Token::Error(_)));
    assert_eq!(tokens[2], Token::EOF);
}

#[test]
fn number_in_range_reads_back() {
    assert_eq!(tokenize("0"), vec![Token::Number(0), Token::EOF]);
    assert_eq!(tokenize("007"), vec![Token::Number(7), Token::EOF]);
    assert_eq!(
        tokenize("9223372036854775807"),
        vec![Token::Number(i64::MAX), Token::EOF]
    );
}

#[test]
fn number_out_of_range_wraps_around() {
    assert_eq!(
        tokenize("9223372036854775808"),
        vec![Token::Number(i64::MIN), Token::EOF]
    );
    assert_eq!(tokenize("18446744073709551616"), vec![Token::Number(0), Token::EOF]);
}

#[test]
fn digits_then_letters_are_two_tokens() {
    assert_eq!(tokenize("12ab"), vec![Token::Number(12), ident("ab"), Token::EOF]);
}

#[test]
fn stream_ends_with_exactly_one_eof() {
    for text in ["", "1", "let x = 5 x", "# // \"", "\"open", "fn f() { 1 }"] {
        let tokens = tokenize(text);
        assert_eq!(tokens.last(), Some(&Token::EOF));
        assert_eq!(tokens.iter().filter(|t| **t == Token::EOF).count(), 1);
    }
}
