use nanai_simple_lang::ast::{Expr, Stmt};
use nanai_simple_lang::eval::host::{Event, Fault, Host};
use nanai_simple_lang::lexer::tokenize;
use nanai_simple_lang::parser::parse;
use nanai_simple_lang::program::{add_main_call, has_main, interpret};

fn main_call() -> Stmt {
    Stmt::Expr(Expr::Call("main".to_string(), vec![]))
}

#[test]
fn main_is_called_where_it_is_defined() {
    let mut stmts = parse(&tokenize("fn main() { 7 }"));
    assert!(has_main(&stmts));
    add_main_call(&mut stmts);
    assert_eq!(stmts.len(), 2);
    assert_eq!(stmts[1], main_call());
}

#[test]
fn nothing_is_added_without_main() {
    let mut stmts = parse(&tokenize("fn mainly() { 7 } let main = 1 main"));
    assert!(!has_main(&stmts));
    let before = stmts.clone();
    add_main_call(&mut stmts);
    assert_eq!(stmts, before);
}

#[test]
fn main_inside_a_block_does_not_count() {
    let stmts = parse(&tokenize("fn outer() { fn main() { 1 } }"));
    assert!(!has_main(&stmts));
}

#[test]
fn program_has_the_value_of_main() {
    let end = interpret("fn main() { print(1) 41 + 1 } 5", &Host::new(), 16);
    assert_eq!(end.result(), Ok(42));
    assert_eq!(end.trace.events, vec![Event::Printed(1)]);
}

#[test]
fn program_without_main_has_the_value_of_its_last_statement() {
    assert_eq!(interpret("let x = 2 x + x", &Host::new(), 16).result(), Ok(4));
}

#[test]
fn main_with_parameters_cannot_be_called() {
    let end = interpret("fn main(a) { a }", &Host::new(), 16);
    assert_eq!(
        end.fault,
        Some(Fault::ArityMismatch { name: "main".to_string(), expected: 1, found: 0 })
    );
}

#[test]
fn text_with_an_unknown_character_still_has_a_value() {
    let end = interpret("fn main() { 1 } #", &Host::new(), 16);
    assert_eq!(end.result(), Ok(0));
    assert_eq!(end.trace.events.len(), 1);
    assert!(matches!(end.trace.events[0], Event::Diagnostic(_)));
}

#[test]
fn modules_are_read_from_the_host() {
    let mut host = Host::new();
    host.add_module("lib.nasl".to_string(), "fn twice(a) { a + a }".to_string());
    let end = interpret("use lib fn main() { twice(21) }", &host, 16);
    assert_eq!(end.result(), Ok(42));
}
