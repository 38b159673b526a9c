use nanai_simple_lang::ast::{Expr, Stmt};
use nanai_simple_lang::eval::builtins::{get_std_funcs, read_integer, StdFunc};
use nanai_simple_lang::eval::host::{Event, Fault, Function, Host, Trace};
use nanai_simple_lang::eval::table::Table;
use nanai_simple_lang::eval::{eval_expr, eval_stmts, Evaluation};
use nanai_simple_lang::lexer::tokenize;
use nanai_simple_lang::parser::parse;

const DEPTH: usize = 64;

fn run_with(text: &str, host: &Host) -> Evaluation {
    eval_stmts(&parse(&tokenize(text)), host, DEPTH)
}

fn run(text: &str) -> Evaluation {
    run_with(text, &Host::new())
}

fn value(text: &str) -> i64 {
    let end = run(text);
    assert_eq!(end.fault, None);
    end.value
}

fn printed(end: &Evaluation) -> Vec<i64> {
    end.trace
        .events
        .iter()
        .filter_map(|e| match e {
            Event::Printed(n) => Some(*n),
            Event::Diagnostic(_) => None,
        })
        .collect()
}

#[test]
fn sum_of_three_is_six() {
    assert_eq!(value("1 + 2 + 3"), 6);
}

#[test]
fn let_binds_at_the_top_level() {
    let end = run("let x = 5 x");
    assert_eq!(end.result(), Ok(5));
    assert_eq!(end.vars.get("x"), Some(&5));
    assert_eq!(end.vars.get("y"), None);
}

#[test]
fn later_let_replaces_the_binding() {
    let end = run("let x = 5 let x = x + 1 x + x");
    assert_eq!(end.result(), Ok(12));
    assert_eq!(end.vars.get("x"), Some(&6));
}

#[test]
fn function_call_adds_its_arguments() {
    assert_eq!(value("fn add(a, b) { a + b } add(2, 3)"), 5);
}

#[test]
fn call_with_one_argument_too_few_is_an_arity_mismatch() {
    let end = run("fn add(a, b) { a + b } add(2)");
    assert_eq!(
        end.fault,
        Some(Fault::ArityMismatch { name: "add".to_string(), expected: 2, found: 1 })
    );
    assert_eq!(end.result(), Err(&Fault::ArityMismatch { name: "add".to_string(), expected: 2, found: 1 }));
}

#[test]
fn arity_is_checked_before_the_arguments_are_evaluated() {
    let end = run("fn f(a) { a } f(print(1), 2)");
    assert!(matches!(end.fault, Some(Fault::ArityMismatch { .. })));
    assert_eq!(printed(&end), vec![]);
}

#[test]
fn call_of_an_unknown_function_is_a_fault() {
    let end = run("print(1) nothing(2) print(3)");
    assert_eq!(end.fault, Some(Fault::UnknownFunction("nothing".to_string())));
    assert_eq!(printed(&end), vec![1]);
    assert_eq!(end.value, 1);
}

#[test]
fn function_body_does_not_see_the_callers_scope() {
    assert_eq!(value("let x = 5 fn f() { x } f()"), 0);
    assert_eq!(value("let x = 5 fn f(x) { x + 1 } f(1) + x"), 7);
}

#[test]
fn later_definition_wins() {
    assert_eq!(value("fn f() { 1 } fn f() { 2 } f()"), 2);
}

#[test]
fn function_must_be_defined_before_the_call() {
    let end = run("f() fn f() { 1 }");
    assert_eq!(end.fault, Some(Fault::UnknownFunction("f".to_string())));
}

#[test]
fn let_inside_a_block_yields_its_value_and_binds_nothing() {
    assert_eq!(value("fn f(a) { let b = a + 1 }  f(4)"), 5);
    assert_eq!(value("fn f(a) { let b = a + 1 b }  f(4)"), 0);
    let end = run("{ let z = 3 }");
    assert_eq!(end.result(), Ok(3));
    assert_eq!(end.vars.get("z"), None);
}

#[test]
fn if_selects_a_branch() {
    assert_eq!(value("if 1 0 else 9"), 0);
    assert_eq!(value("if 0 0 else 9"), 9);
    assert_eq!(value("if 0 0"), 0);
    assert_eq!(value("if 0 7"), 0);
    assert_eq!(value("if 2 7"), 7);
}

#[test]
fn if_evaluates_only_the_branch_taken() {
    let end = run("if 1 { print(1) } else { print(2) }");
    assert_eq!(printed(&end), vec![1]);
}

#[test]
fn for_prints_each_index_in_order() {
    let end = run("for i in 0 : 3 { print(i) }");
    assert_eq!(end.trace.events, vec![Event::Printed(0), Event::Printed(1), Event::Printed(2)]);
    assert_eq!(end.result(), Ok(2));
}

#[test]
fn for_yields_the_value_of_the_last_iteration() {
    assert_eq!(value("for i in 0 : 3 i + 10"), 12);
    assert_eq!(value("let n = 4 for i in n n + n i + i"), 14);
}

#[test]
fn for_over_an_empty_range_yields_zero() {
    let end = run("for i in 3 : 3 { print(i) }");
    assert_eq!(end.result(), Ok(0));
    assert_eq!(printed(&end), vec![]);
    assert_eq!(value("for i in 5 : 2 i"), 0);
}

#[test]
fn loop_variable_is_gone_behind_the_loop() {
    let end = run("let i = 9 for i in 0 : 3 i  i");
    assert_eq!(end.result(), Ok(9));
    assert_eq!(end.vars.get("i"), Some(&9));
}

#[test]
fn print_statement_yields_the_value_printed() {
    let end = run("print(4 + 1)");
    assert_eq!(end.result(), Ok(5));
    assert_eq!(end.trace.events, vec![Event::Printed(5)]);
}

#[test]
fn print_call_writes_every_argument_and_yields_zero() {
    let end = run("7 + print(1, 2 + 3)");
    assert_eq!(end.result(), Ok(7));
    assert_eq!(printed(&end), vec![1, 5]);
}

#[test]
fn input_reads_the_lines_in_order() {
    let mut host = Host::new();
    host.push_input("20\n".to_string());
    host.push_input("  22 ".to_string());
    let end = run_with("input() + input()", &host);
    assert_eq!(end.result(), Ok(42));
    assert_eq!(end.trace.read, 2);
}

#[test]
fn input_yields_zero_for_a_line_without_a_number() {
    let mut host = Host::new();
    host.push_input("seven\n".to_string());
    assert_eq!(run_with("input() + 1", &host).result(), Ok(1));
}

#[test]
fn input_without_a_line_asks_for_one() {
    let mut host = Host::new();
    let first = run_with("print(1) print(input() + 1)", &host);
    assert_eq!(first.fault, Some(Fault::InputNeeded));
    assert_eq!(printed(&first), vec![1]);
    host.push_input("41".to_string());
    let second = run_with("print(1) print(input() + 1)", &host);
    assert_eq!(second.result(), Ok(42));
    assert_eq!(printed(&second), vec![1, 42]);
}

#[test]
fn read_integer_takes_signs_and_white_space() {
    assert_eq!(read_integer("42"), 42);
    assert_eq!(read_integer("  -17\r\n"), -17);
    assert_eq!(read_integer("+5"), 5);
    assert_eq!(read_integer("\u{3000}8\u{a0}"), 8);
    assert_eq!(read_integer("007"), 7);
    assert_eq!(read_integer("-0"), 0);
    assert_eq!(read_integer("9223372036854775807"), i64::MAX);
    assert_eq!(read_integer("-9223372036854775808"), i64::MIN);
}

#[test]
fn read_integer_yields_zero_for_anything_else() {
    for line in ["", "   ", "-", "+", "1 2", "12a", "--1", "+-1", "1.5", "9223372036854775808",
        "-9223372036854775809", "99999999999999999999999999999999999999999", "\u{ff11}"]
    {
        assert_eq!(read_integer(line), 0, "{:?}", line);
    }
}

#[test]
fn read_integer_agrees_with_the_standard_library() {
    for line in ["12", " 12 ", "\t-3\n", "+", "", "0x10", "1_000", "-000", "  +0012  ", "١٢"] {
        assert_eq!(read_integer(line), line.trim().parse::<i64>().unwrap_or(0), "{:?}", line);
    }
}

#[test]
fn import_makes_the_modules_functions_callable() {
    let mut host = Host::new();
    host.add_module("helper.nasl".to_string(), "fn helper() { 7 } let secret = 9".to_string());
    let end = run_with("import \"helper.nasl\" helper()", &host);
    assert_eq!(end.result(), Ok(7));
    assert_eq!(end.vars.get("secret"), None);
    assert!(end.funcs.get("helper").is_some());
}

#[test]
fn bindings_of_a_module_stay_with_the_module() {
    let mut host = Host::new();
    host.add_module("m.nasl".to_string(), "let secret = 9 print(secret)".to_string());
    let end = run_with("let mine = 1 use m secret + mine", &host);
    assert_eq!(end.result(), Ok(1));
    assert_eq!(printed(&end), vec![9]);
    assert_eq!(end.vars.get("secret"), None);
    assert_eq!(end.vars.get("mine"), Some(&1));
}

#[test]
fn module_runs_without_the_importers_functions() {
    let mut host = Host::new();
    host.add_module("m.nasl".to_string(), "mine()".to_string());
    let end = run_with("fn mine() { 1 } import m", &host);
    assert_eq!(end.fault, Some(Fault::UnknownFunction("mine".to_string())));
}

#[test]
fn later_import_wins() {
    let mut host = Host::new();
    host.add_module("a.nasl".to_string(), "fn f() { 1 }".to_string());
    host.add_module("b.nasl".to_string(), "fn f() { 2 }".to_string());
    assert_eq!(run_with("import a import b f()", &host).result(), Ok(2));
    assert_eq!(run_with("import b import a f()", &host).result(), Ok(1));
}

#[test]
fn functions_that_a_module_imports_are_not_passed_on() {
    let mut host = Host::new();
    host.add_module("inner.nasl".to_string(), "fn deep() { 1 }".to_string());
    host.add_module("outer.nasl".to_string(), "import inner fn shallow() { 2 }".to_string());
    assert_eq!(run_with("import outer shallow()", &host).result(), Ok(2));
    assert_eq!(
        run_with("import outer deep()", &host).fault,
        Some(Fault::UnknownFunction("deep".to_string()))
    );
}

#[test]
fn import_of_a_module_that_the_host_lacks_asks_for_it() {
    let mut host = Host::new();
    let first = run_with("print(1) import lib two()", &host);
    assert_eq!(first.fault, Some(Fault::MissingModule("lib.nasl".to_string())));
    assert_eq!(printed(&first), vec![1]);
    host.add_module("lib.nasl".to_string(), "fn two() { 2 }".to_string());
    assert_eq!(run_with("print(1) import lib two()", &host).result(), Ok(2));
}

#[test]
fn module_that_imports_itself_is_too_deep() {
    let mut host = Host::new();
    host.add_module("loop.nasl".to_string(), "print(1) import loop".to_string());
    let end = eval_stmts(&parse(&tokenize("import loop")), &host, 3);
    assert_eq!(end.fault, Some(Fault::TooDeep));
    assert_eq!(printed(&end), vec![1, 1, 1]);
}

#[test]
fn endless_recursion_is_too_deep() {
    let end = eval_stmts(&parse(&tokenize("fn f(n) { f(n + 1) } f(0)")), &Host::new(), 100);
    assert_eq!(end.fault, Some(Fault::TooDeep));
}

#[test]
fn depth_counts_nested_calls() {
    let text = "fn a() { 1 } fn b() { a() + 1 } fn c() { b() + 1 } c()";
    let stmts = parse(&tokenize(text));
    assert_eq!(eval_stmts(&stmts, &Host::new(), 3).result(), Ok(3));
    assert_eq!(eval_stmts(&stmts, &Host::new(), 2).fault, Some(Fault::TooDeep));
    assert_eq!(eval_stmts(&parse(&tokenize("1 + 2")), &Host::new(), 0).result(), Ok(3));
}

#[test]
fn lexical_error_is_reported_and_yields_zero() {
    let end = run("1 + # 2");
    assert_eq!(end.result(), Ok(0));
    assert_eq!(
        end.trace.events,
        vec![Event::Diagnostic("不正な文字: '#' (U+0023) 位置: 4 付近: '1 + # 2'".to_string())]
    );
}

#[test]
fn parse_error_is_reported_and_evaluation_goes_on() {
    let end = run("let = 3 4");
    assert_eq!(end.result(), Ok(4));
    assert_eq!(end.trace.events[0], Event::Diagnostic("変数名が必要です".to_string()));
}

#[test]
fn statement_without_a_value_leaves_zero() {
    assert_eq!(value("5 fn f() { 1 }"), 0);
    assert_eq!(value(""), 0);
    let stmts = vec![
        Stmt::Expr(Expr::Number(5)),
        Stmt::StructDef { name: "P".to_string(), fields: vec!["x".to_string()] },
    ];
    assert_eq!(eval_stmts(&stmts, &Host::new(), DEPTH).result(), Ok(0));
}

#[test]
fn unbound_variable_is_zero() {
    assert_eq!(value("x + 1"), 1);
}

#[test]
fn sum_wraps_around() {
    assert_eq!(value("9223372036854775807 + 1"), i64::MIN);
}

#[test]
fn literals_without_syntax_have_their_values() {
    let host = Host::new();
    let funcs: Table<Function> = Table::new();
    let vars: Table<i64> = Table::new();
    let cases = vec![
        (Expr::Bool(true), 1),
        (Expr::Bool(false), 0),
        (Expr::Str("text".to_string()), 0),
        (Expr::StructInit("P".to_string(), vec![("x".to_string(), Expr::Number(1))]), 0),
        (Expr::FieldAccess(Box::new(Expr::Var("p".to_string())), "x".to_string()), 0),
    ];
    for (expr, expected) in cases {
        let mut trace = Trace::new();
        assert_eq!(eval_expr(&expr, &funcs, &vars, &host, &mut trace, DEPTH), Ok(expected));
        assert_eq!(trace.events, vec![]);
    }
}

#[test]
fn eval_expr_reads_the_scope_it_is_given() {
    let host = Host::new();
    let funcs: Table<Function> = Table::new();
    let mut vars: Table<i64> = Table::new();
    vars.insert("x".to_string(), 40);
    vars.insert("y".to_string(), 1);
    vars.insert("y".to_string(), 2);
    let expr = Expr::Add(Box::new(Expr::Var("x".to_string())), Box::new(Expr::Var("y".to_string())));
    let mut trace = Trace::new();
    assert_eq!(eval_expr(&expr, &funcs, &vars, &host, &mut trace, 0), Ok(42));
}

#[test]
fn std_funcs_are_print_and_input() {
    let table = get_std_funcs();
    assert_eq!(table.get("print"), Some(&StdFunc::Print));
    assert_eq!(table.get("input"), Some(&StdFunc::Input));
    assert_eq!(table.get("eval"), None);
}

#[test]
fn host_without_built_ins_knows_no_print() {
    let host = Host { std_funcs: Table::new(), modules: Table::new(), input: vec![] };
    let end = run_with("1 + print(2)", &host);
    assert_eq!(end.fault, Some(Fault::UnknownFunction("print".to_string())));
}

#[test]
fn defined_function_cannot_replace_a_built_in() {
    let end = run("fn print(a) { 5 } 1 + print(2)");
    assert_eq!(end.result(), Ok(1));
    assert_eq!(printed(&end), vec![2]);
}

#[test]
fn table_keeps_the_last_binding() {
    let mut table: Table<i64> = Table::new();
    assert_eq!(table.get("a"), None);
    table.insert("a".to_string(), 1);
    table.insert("b".to_string(), 2);
    table.insert("a".to_string(), 3);
    assert_eq!(table.get("a"), Some(&3));
    assert_eq!(table.get("b"), Some(&2));
    let copy = table.copy();
    table.insert("b".to_string(), 4);
    assert_eq!(copy.get("b"), Some(&2));
    assert_eq!(copy.get("a"), Some(&3));
}

#[test]
fn white_space_is_what_the_standard_library_trims() {
    for code in 0..=0x10FFFFu32 {
        if let Some(c) = char::from_u32(code) {
            assert_eq!(nanai_simple_lang::eval::builtins::whitespace(c), c.is_whitespace(), "{:?}", c);
        }
    }
}

fn every_text(alphabet: &[char], len: usize, each: &mut dyn FnMut(&str)) {
    let mut text = String::new();
    fn go(alphabet: &[char], left: usize, text: &mut String, each: &mut dyn FnMut(&str)) {
        each(text);
        if left == 0 {
            return;
        }
        for c in alphabet {
            text.push(*c);
            go(alphabet, left - 1, text, each);
            text.pop();
        }
    }
    go(alphabet, len, &mut text, each);
}

#[test]
fn read_integer_agrees_with_the_standard_library_on_short_lines() {
    let mut count = 0;
    every_text(&[' ', '\n', '+', '-', '0', '1', '9', 'a'], 5, &mut |line| {
        assert_eq!(read_integer(line), line.trim().parse::<i64>().unwrap_or(0), "{:?}", line);
        count += 1;
    });
    assert!(count > 30000);
}

#[test]
fn read_integer_agrees_with_the_standard_library_near_the_bounds() {
    for digits in [
        "9223372036854775806",
        "9223372036854775807",
        "9223372036854775808",
        "9223372036854775809",
        "92233720368547758070",
        "09223372036854775807",
        "18446744073709551615",
        "18446744073709551616",
        "170141183460469231731687303715884105727",
        "170141183460469231731687303715884105728",
    ] {
        for sign in ["", "+", "-"] {
            let line = format!(" {}{}\n", sign, digits);
            assert_eq!(read_integer(&line), line.trim().parse::<i64>().unwrap_or(0), "{:?}", line);
        }
    }
}
