use nanai_simple_lang::ast::{Expr, Stmt};
use nanai_simple_lang::lexer::{tokenize, Token};
use nanai_simple_lang::parser::{
    parse, parse_expr, parse_funcdef, parse_import, parse_let, parse_print, parse_term, parse_use,
};
use nanai_simple_lang::parser::grammar::ParseError;

fn num(n: i64) -> Expr {
    Expr::Number(n)
}

fn var(name: &str) -> Expr {
    Expr::Var(name.to_string())
}

fn plus(l: Expr, r: Expr) -> Expr {
    Expr::Add(Box::new(l), Box::new(r))
}

fn program(text: &str) -> Vec<Stmt> {
    parse(&tokenize(text))
}

#[test]
fn sum_associates_to_the_left() {
    assert_eq!(program("1 + 2 + 3"), vec![Stmt::Expr(plus(plus(num(1), num(2)), num(3)))]);
}

#[test]
fn let_then_variable() {
    assert_eq!(
        program("let x = 5 x"),
        vec![
            Stmt::Let { name: "x".to_string(), value: num(5), mutable: false, ty: None },
            Stmt::Expr(var("x")),
        ]
    );
}

#[test]
fn let_with_mut_and_type() {
    assert_eq!(
        program("let mut total: int = 1 + n"),
        vec![Stmt::Let {
            name: "total".to_string(),
            value: plus(num(1), var("n")),
            mutable: true,
            ty: Some("int".to_string()),
        }]
    );
}

#[test]
fn function_definition_and_call() {
    assert_eq!(
        program("fn add(a, b) { a + b } add(2, 3)"),
        vec![
            Stmt::FuncDef {
                name: "add".to_string(),
                params: vec!["a".to_string(), "b".to_string()],
                body: Box::new(Expr::Block(vec![Stmt::Expr(plus(var("a"), var("b")))])),
            },
            Stmt::Expr(Expr::Call("add".to_string(), vec![num(2), num(3)])),
        ]
    );
}

#[test]
fn pub_function_without_parameters() {
    assert_eq!(
        program("pub fn seven() { 7 }"),
        vec![Stmt::FuncDef {
            name: "seven".to_string(),
            params: vec![],
            body: Box::new(Expr::Block(vec![Stmt::Expr(num(7))])),
        }]
    );
}

#[test]
fn function_body_holds_statements() {
    assert_eq!(
        program("fn f(a) { let b = a print(b) b + 1 }"),
        vec![Stmt::FuncDef {
            name: "f".to_string(),
            params: vec!["a".to_string()],
            body: Box::new(Expr::Block(vec![
                Stmt::Let { name: "b".to_string(), value: var("a"), mutable: false, ty: None },
                Stmt::Print(Box::new(var("b"))),
                Stmt::Expr(plus(var("b"), num(1))),
            ])),
        }]
    );
}

#[test]
fn if_with_and_without_else() {
    assert_eq!(
        program("if 1 0 else 9"),
        vec![Stmt::Expr(Expr::If {
            cond: Box::new(num(1)),
            then_branch: Box::new(num(0)),
            else_branch: Some(Box::new(num(9))),
        })]
    );
    assert_eq!(
        program("if 0 0"),
        vec![Stmt::Expr(Expr::If {
            cond: Box::new(num(0)),
            then_branch: Box::new(num(0)),
            else_branch: None,
        })]
    );
}

#[test]
fn else_belongs_to_the_nearest_if() {
    assert_eq!(
        program("if a if b 1 else 2"),
        vec![Stmt::Expr(Expr::If {
            cond: Box::new(var("a")),
            then_branch: Box::new(Expr::If {
                cond: Box::new(var("b")),
                then_branch: Box::new(num(1)),
                else_branch: Some(Box::new(num(2))),
            }),
            else_branch: None,
        })]
    );
}

#[test]
fn for_with_colon_and_block_body() {
    let expected = vec![Stmt::Expr(Expr::For {
        var: "i".to_string(),
        start: Box::new(num(0)),
        end: Box::new(num(3)),
        body: Box::new(Expr::Block(vec![Stmt::Print(Box::new(var("i")))])),
    })];
    assert_eq!(program("for i in 0 : 3 { print(i) }"), expected);
    assert_eq!(program("for i in 0 3 { print(i) }"), expected);
}

#[test]
fn print_takes_a_full_expression() {
    assert_eq!(program("print(1 + x)"), vec![Stmt::Print(Box::new(plus(num(1), var("x"))))]);
}

#[test]
fn print_inside_a_sum_is_a_call() {
    assert_eq!(
        program("1 + print(2)"),
        vec![Stmt::Expr(plus(num(1), Expr::Call("print".to_string(), vec![num(2)])))]
    );
}

#[test]
fn import_and_use_name_a_file_or_a_module() {
    assert_eq!(program("import \"lib.nasl\""), vec![Stmt::Import("lib.nasl".to_string())]);
    assert_eq!(program("import lib"), vec![Stmt::Import("lib.nasl".to_string())]);
    assert_eq!(program("use lib"), vec![Stmt::Import("lib.nasl".to_string())]);
    assert_eq!(program("use \"lib.nasl\""), vec![Stmt::Import("lib.nasl".to_string())]);
}

#[test]
fn import_without_a_name_is_an_error_statement() {
    assert_eq!(
        program("import 5"),
        vec![
            Stmt::Error("importの後にファイル名が必要です".to_string()),
            Stmt::Expr(num(5)),
        ]
    );
    assert_eq!(
        program("use"),
        vec![Stmt::Error("useの後にモジュール名が必要です".to_string())]
    );
}

#[test]
fn lexical_error_yields_one_error_statement() {
    assert_eq!(
        program("1 + # 2 $"),
        vec![Stmt::Error("不正な文字: '#' (U+0023) 位置: 4 付近: '1 + # 2 $'".to_string())]
    );
}

#[test]
fn empty_input_has_no_statements() {
    assert_eq!(program(""), vec![]);
    assert_eq!(parse(&[]), vec![]);
    assert_eq!(parse(&[Token::EOF]), vec![]);
}

#[test]
fn tokens_without_eof_are_read_to_their_end() {
    assert_eq!(parse(&[Token::Number(1), Token::Plus, Token::Number(2)]), vec![Stmt::Expr(plus(num(1), num(2)))]);
}

#[test]
fn nothing_is_read_behind_eof() {
    assert_eq!(parse(&[Token::Number(1), Token::EOF, Token::Number(2)]), vec![Stmt::Expr(num(1))]);
}

#[test]
fn token_that_begins_no_statement_is_passed_over() {
    assert_eq!(
        program(") 1"),
        vec![Stmt::Error("予期しないトークン".to_string()), Stmt::Expr(num(1))]
    );
    assert_eq!(
        program("\"text\""),
        vec![Stmt::Error("予期しないトークン".to_string())]
    );
}

#[test]
fn unclosed_call_is_an_error_statement() {
    assert_eq!(
        program("f(1 2"),
        vec![Stmt::Error("関数呼び出しの)が必要".to_string()), Stmt::Expr(num(2))]
    );
    assert_eq!(
        program("f(1,)"),
        vec![
            Stmt::Error("予期しないトークン".to_string()),
            Stmt::Error("予期しないトークン".to_string()),
        ]
    );
}

#[test]
fn unclosed_block_is_an_error_statement() {
    assert_eq!(program("{ 1"), vec![Stmt::Error("} が必要です".to_string())]);
    assert_eq!(program("fn f() { 1"), vec![Stmt::Error("} が必要です".to_string())]);
}

#[test]
fn malformed_let_says_what_is_missing() {
    assert_eq!(program("let"), vec![Stmt::Error("変数名が必要です".to_string())]);
    assert_eq!(program("let mut"), vec![Stmt::Error("変数名が必要です".to_string())]);
    assert_eq!(program("let x :"), vec![Stmt::Error(": の後に型名が必要です".to_string())]);
    assert_eq!(program("let x"), vec![Stmt::Error("= が必要です".to_string())]);
    assert_eq!(program("let x ="), vec![Stmt::Error("予期しないトークン".to_string())]);
    assert_eq!(
        program("let x 5"),
        vec![Stmt::Error("= が必要です".to_string()), Stmt::Expr(num(5))]
    );
}

#[test]
fn malformed_function_says_what_is_missing() {
    assert_eq!(program("pub 1"), vec![Stmt::Error("fnキーワードが必要です".to_string()), Stmt::Expr(num(1))]);
    assert_eq!(program("fn"), vec![Stmt::Error("関数名が必要です".to_string())]);
    assert_eq!(program("fn f"), vec![Stmt::Error("( が必要です".to_string())]);
    assert_eq!(program("fn f(a b)"), vec![
        Stmt::Error("引数リストが不正です".to_string()),
        Stmt::Expr(var("b")),
        Stmt::Error("予期しないトークン".to_string()),
    ]);
    assert_eq!(program("fn f(a,)"), vec![
        Stmt::Error("引数リストが不正です".to_string()),
        Stmt::Error("予期しないトークン".to_string()),
    ]);
    assert_eq!(program("fn f()"), vec![Stmt::Error("{ が必要です".to_string())]);
}

#[test]
fn malformed_for_says_what_is_missing() {
    assert_eq!(program("for"), vec![Stmt::Error("forの後に変数名が必要です".to_string())]);
    assert_eq!(
        program("for i 0"),
        vec![Stmt::Error("in が必要です".to_string()), Stmt::Expr(num(0))]
    );
}

#[test]
fn print_without_closing_parenthesis() {
    assert_eq!(program("print(1"), vec![Stmt::Error("printの)が必要".to_string())]);
}

#[test]
fn print_without_parenthesis_is_a_variable() {
    assert_eq!(program("print"), vec![Stmt::Expr(var("print"))]);
}

#[test]
fn parse_term_reads_one_term() {
    let tokens = tokenize("7 + 1");
    let mut pos = 0;
    assert_eq!(parse_term(&tokens, &mut pos), Ok(num(7)));
    assert_eq!(pos, 1);
    assert_eq!(parse_term(&tokens, &mut pos), Err(ParseError::UnexpectedToken));
    assert_eq!(pos, 1);
}

#[test]
fn parse_term_beyond_the_end_fails() {
    let tokens = tokenize("7");
    let mut pos = 5;
    assert_eq!(parse_term(&tokens, &mut pos), Err(ParseError::UnexpectedToken));
    assert_eq!(pos, 5);
}

#[test]
fn parse_expr_stops_behind_the_expression() {
    let tokens = tokenize("f(1, g()) + 2 x");
    let mut pos = 0;
    assert_eq!(
        parse_expr(&tokens, &mut pos),
        Ok(plus(
            Expr::Call("f".to_string(), vec![num(1), Expr::Call("g".to_string(), vec![])]),
            num(2)
        ))
    );
    assert_eq!(pos, 10);
}

#[test]
fn parse_import_leaves_other_statements_alone() {
    let tokens = tokenize("x import y");
    let mut pos = 0;
    assert_eq!(parse_import(&tokens, &mut pos), None);
    assert_eq!(pos, 0);
    pos = 1;
    assert_eq!(parse_import(&tokens, &mut pos), Some(Stmt::Import("y.nasl".to_string())));
    assert_eq!(pos, 3);
}

#[test]
fn parse_use_leaves_other_statements_alone() {
    let tokens = tokenize("import y use \"z\"");
    let mut pos = 0;
    assert_eq!(parse_use(&tokens, &mut pos), None);
    assert_eq!(pos, 0);
    pos = 2;
    assert_eq!(parse_use(&tokens, &mut pos), Some(Stmt::Import("z".to_string())));
    assert_eq!(pos, 4);
}

#[test]
fn parse_print_leaves_other_statements_alone() {
    let tokens = tokenize("print x print(x)");
    let mut pos = 0;
    assert_eq!(parse_print(&tokens, &mut pos), None);
    assert_eq!(pos, 0);
    pos = 2;
    assert_eq!(parse_print(&tokens, &mut pos), Some(Stmt::Print(Box::new(var("x")))));
    assert_eq!(pos, 6);
}

#[test]
fn parse_let_needs_the_keyword() {
    let tokens = tokenize("x = 1");
    let mut pos = 0;
    assert_eq!(parse_let(&tokens, &mut pos), Stmt::Error("let が必要です".to_string()));
    assert_eq!(pos, 0);
}

#[test]
fn parse_funcdef_needs_the_keyword() {
    let tokens = tokenize("f() { 1 }");
    let mut pos = 0;
    assert_eq!(parse_funcdef(&tokens, &mut pos), Stmt::Error("fnキーワードが必要です".to_string()));
    assert_eq!(pos, 0);
}
