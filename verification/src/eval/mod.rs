//! Evaluation: statements to effects and a final value, by walking the tree.
//!
//! [`semantics`] says what a program means; the functions here compute it.

pub mod builtins;
pub mod host;
pub mod semantics;
pub mod table;

use crate::ast::{clone_texts, lemma_block_view, lemma_call_view, Expr, ExprView, Stmt};
use crate::lexer::tokenize;
use crate::parser::parse;
use crate::view::views;
use builtins::{read_integer, StdFunc};
use host::{Event, Fault, Function, Host, Trace};
use semantics::{
    after_stmt, after_stmts, apply_std, block_value, call_scope, loop_value, printed, run,
    value_of, values_of, with_definitions, Outcome, StateView,
};
use table::{bindings, Table};
use vstd::prelude::*;

verus! {

/// The outcome that a result and the trace behind it stand for.
pub open spec fn outcome(r: Result<i64, Fault>, trace: Trace) -> Outcome<i64> {
    Outcome {
        value: match r {
            Ok(v) => Ok(v),
            Err(fault) => Err(fault@),
        },
        trace: trace@,
    }
}

/// The outcome that a list of values, or a fault, and the trace behind it
/// stand for.
pub open spec fn outcomes(r: Result<Vec<i64>, Fault>, trace: Trace) -> Outcome<Seq<i64>> {
    Outcome {
        value: match r {
            Ok(values) => Ok(values@),
            Err(fault) => Err(fault@),
        },
        trace: trace@,
    }
}

/// Computes the value of an expression.
///
/// `funcs` are the functions defined, `vars` is the scope, `host` holds the
/// built-in functions and the input, and `depth` is the number of calls of
/// defined functions that may be nested. What the expression writes and reads
/// is added to `trace`, also where a fault stops the evaluation.
pub fn eval_expr(
    expr: &Expr,
    funcs: &Table<Function>,
    vars: &Table<i64>,
    host: &Host,
    trace: &mut Trace,
    depth: usize,
) -> (r: Result<i64, Fault>)
    ensures
        outcome(r, *final(trace)) == value_of(
            expr@,
            funcs@,
            vars@,
            host@,
            old(trace)@,
            depth as nat,
        ),
    decreases depth, expr, 0nat,
{
    match expr {
        Expr::Number(n) => Ok(*n),
        Expr::Bool(b) => Ok(
            if *b {
                1
            } else {
                0
            },
        ),
        Expr::Str(_) => Ok(0),
        Expr::Add(l, r) => {
            let x = match eval_expr(l, funcs, vars, host, trace, depth) {
                Ok(x) => x,
                Err(fault) => {
                    return Err(fault);
                },
            };
            let y = match eval_expr(r, funcs, vars, host, trace, depth) {
                Ok(y) => y,
                Err(fault) => {
                    return Err(fault);
                },
            };
            Ok(x.wrapping_add(y))
        },
        Expr::Var(name) => Ok(
            match vars.get(name.as_str()) {
                Some(v) => *v,
                None => 0,
            },
        ),
        Expr::Call(name, args) => {
            proof {
                lemma_call_view(*name, *args);
            }
            eval_call(name, args, funcs, vars, host, trace, depth)
        },
        Expr::Block(stmts) => {
            proof {
                lemma_block_view(*stmts);
            }
            eval_block(stmts, funcs, vars, host, trace, depth)
        },
        Expr::StructInit(_, _) => Ok(0),
        Expr::FieldAccess(_, _) => Ok(0),
        Expr::If { cond, then_branch, else_branch } => {
            let c = match eval_expr(cond, funcs, vars, host, trace, depth) {
                Ok(c) => c,
                Err(fault) => {
                    return Err(fault);
                },
            };
            if c != 0 {
                eval_expr(then_branch, funcs, vars, host, trace, depth)
            } else {
                match else_branch {
                    Some(other) => eval_expr(other, funcs, vars, host, trace, depth),
                    None => Ok(0),
                }
            }
        },
        Expr::For { var, start, end, body } => {
            let from = match eval_expr(start, funcs, vars, host, trace, depth) {
                Ok(from) => from,
                Err(fault) => {
                    return Err(fault);
                },
            };
            let to = match eval_expr(end, funcs, vars, host, trace, depth) {
                Ok(to) => to,
                Err(fault) => {
                    return Err(fault);
                },
            };
            eval_loop(body, var, from, to, funcs, vars, host, trace, depth)
        },
    }
}

/// Computes the values of the arguments of a call, from left to right.
fn eval_args(
    args: &Vec<Expr>,
    funcs: &Table<Function>,
    vars: &Table<i64>,
    host: &Host,
    trace: &mut Trace,
    depth: usize,
) -> (r: Result<Vec<i64>, Fault>)
    ensures
        outcomes(r, *final(trace)) == values_of(
            views(args@),
            0,
            Seq::empty(),
            funcs@,
            vars@,
            host@,
            old(trace)@,
            depth as nat,
        ),
        r matches Ok(values) ==> values.len() == args.len(),
    decreases depth, args, 0nat,
{
    let ghost goal = values_of(
        views(args@),
        0,
        Seq::empty(),
        funcs@,
        vars@,
        host@,
        trace@,
        depth as nat,
    );
    let mut values: Vec<i64> = Vec::new();
    let mut i: usize = 0;
    while i < args.len()
        invariant
            i <= args.len(),
            values.len() == i,
            goal == values_of(
                views(args@),
                0,
                Seq::empty(),
                funcs@,
                vars@,
                host@,
                old(trace)@,
                depth as nat,
            ),
            goal == values_of(
                views(args@),
                i as nat,
                values@,
                funcs@,
                vars@,
                host@,
                trace@,
                depth as nat,
            ),
        decreases args.len() - i,
    {
        match eval_expr(&args[i], funcs, vars, host, trace, depth) {
            Ok(v) => {
                values.push(v);
            },
            Err(fault) => {
                return Err(fault);
            },
        }
        i += 1;
    }
    Ok(values)
}

/// Does what a built-in function does with the values of its arguments.
fn call_std(f: StdFunc, values: &Vec<i64>, host: &Host, trace: &mut Trace) -> (r: Result<
    i64,
    Fault,
>)
    ensures
        outcome(r, *final(trace)) == apply_std(f, values@, host@, old(trace)@),
{
    match f {
        StdFunc::Print => {
            let ghost start = trace@;
            let mut i: usize = 0;
            while i < values.len()
                invariant
                    i <= values.len(),
                    trace@ == printed(start, values@.take(i as int)),
                decreases values.len() - i,
            {
                proof {
                    assert(values@.take(i as int + 1).drop_last() =~= values@.take(i as int));
                }
                trace.record(Event::Printed(values[i]));
                i += 1;
            }
            assert(values@.take(i as int) =~= values@);
            Ok(0)
        },
        StdFunc::Input => {
            if trace.read < host.input.len() {
                let n = read_integer(host.input[trace.read].as_str());
                trace.read += 1;
                Ok(n)
            } else {
                Err(Fault::InputNeeded)
            }
        },
    }
}

/// The scope of a function's body: each parameter bound to its argument.
fn bind(params: &Vec<String>, values: &Vec<i64>) -> (scope: Table<i64>)
    requires
        params.len() == values.len(),
    ensures
        scope@ == call_scope(views(params@), values@),
{
    let ghost all = Seq::new(params@.len(), |i: int| (views(params@)[i], values@[i]));
    let mut scope: Table<i64> = Table::new();
    let mut i: usize = 0;
    while i < params.len()
        invariant
            i <= params.len() == values.len(),
            all == Seq::new(params@.len(), |i: int| (views(params@)[i], values@[i])),
            scope@ == bindings(all.take(i as int)),
        decreases params.len() - i,
    {
        proof {
            assert(all.take(i as int + 1).drop_last() =~= all.take(i as int));
        }
        scope.insert(params[i].clone(), values[i]);
        i += 1;
    }
    assert(all.take(i as int) =~= all);
    scope
}

/// Computes the value of a call: of a built-in function if the name is one,
/// else of the function defined under the name.
fn eval_call(
    name: &String,
    args: &Vec<Expr>,
    funcs: &Table<Function>,
    vars: &Table<i64>,
    host: &Host,
    trace: &mut Trace,
    depth: usize,
) -> (r: Result<i64, Fault>)
    ensures
        outcome(r, *final(trace)) == value_of(
            ExprView::Call(name@, views(args@)),
            funcs@,
            vars@,
            host@,
            old(trace)@,
            depth as nat,
        ),
    decreases depth, args, 1nat,
{
    if let Some(f) = host.std_funcs.get(name.as_str()) {
        let values = match eval_args(args, funcs, vars, host, trace, depth) {
            Ok(values) => values,
            Err(fault) => {
                return Err(fault);
            },
        };
        return call_std(*f, &values, host, trace);
    }
    let f = match funcs.get(name.as_str()) {
        Some(f) => f,
        None => {
            return Err(Fault::UnknownFunction(name.clone()));
        },
    };
    if f.params.len() != args.len() {
        return Err(
            Fault::ArityMismatch {
                name: name.clone(),
                expected: f.params.len(),
                found: args.len(),
            },
        );
    }
    let values = match eval_args(args, funcs, vars, host, trace, depth) {
        Ok(values) => values,
        Err(fault) => {
            return Err(fault);
        },
    };
    if depth == 0 {
        return Err(Fault::TooDeep);
    }
    let scope = bind(&f.params, &values);
    eval_expr(&f.body, funcs, &scope, host, trace, depth - 1)
}

/// Computes the value of a block.
fn eval_block(
    stmts: &Vec<Stmt>,
    funcs: &Table<Function>,
    vars: &Table<i64>,
    host: &Host,
    trace: &mut Trace,
    depth: usize,
) -> (r: Result<i64, Fault>)
    ensures
        outcome(r, *final(trace)) == block_value(
            views(stmts@),
            0,
            0,
            funcs@,
            vars@,
            host@,
            old(trace)@,
            depth as nat,
        ),
    decreases depth, stmts, 0nat,
{
    let ghost goal = block_value(views(stmts@), 0, 0, funcs@, vars@, host@, trace@, depth as nat);
    let mut last: i64 = 0;
    let mut i: usize = 0;
    while i < stmts.len()
        invariant
            i <= stmts.len(),
            goal == block_value(
                views(stmts@),
                0,
                0,
                funcs@,
                vars@,
                host@,
                old(trace)@,
                depth as nat,
            ),
            goal == block_value(
                views(stmts@),
                i as nat,
                last,
                funcs@,
                vars@,
                host@,
                trace@,
                depth as nat,
            ),
        decreases stmts.len() - i,
    {
        match &stmts[i] {
            Stmt::Expr(e) => {
                match eval_expr(e, funcs, vars, host, trace, depth) {
                    Ok(v) => {
                        last = v;
                    },
                    Err(fault) => {
                        return Err(fault);
                    },
                }
            },
            Stmt::Print(e) => {
                match eval_expr(e, funcs, vars, host, trace, depth) {
                    Ok(v) => {
                        last = v;
                        trace.record(Event::Printed(v));
                    },
                    Err(fault) => {
                        return Err(fault);
                    },
                }
            },
            Stmt::Let { name: _, value, mutable: _, ty: _ } => {
                match eval_expr(value, funcs, vars, host, trace, depth) {
                    Ok(v) => {
                        last = v;
                    },
                    Err(fault) => {
                        return Err(fault);
                    },
                }
            },
            _ => {},
        }
        i += 1;
    }
    Ok(last)
}

/// Computes the value of a counted loop whose indices run from `from` up to
/// `to`, which is left out.
fn eval_loop(
    body: &Expr,
    var: &String,
    from: i64,
    to: i64,
    funcs: &Table<Function>,
    vars: &Table<i64>,
    host: &Host,
    trace: &mut Trace,
    depth: usize,
) -> (r: Result<i64, Fault>)
    ensures
        outcome(r, *final(trace)) == loop_value(
            body@,
            var@,
            from as int,
            to as int,
            0,
            funcs@,
            vars@,
            host@,
            old(trace)@,
            depth as nat,
        ),
    decreases depth, body, 1nat,
{
    let ghost goal = loop_value(
        body@,
        var@,
        from as int,
        to as int,
        0,
        funcs@,
        vars@,
        host@,
        trace@,
        depth as nat,
    );
    let mut last: i64 = 0;
    let mut i: i64 = from;
    while i < to
        invariant
            goal == loop_value(
                body@,
                var@,
                from as int,
                to as int,
                0,
                funcs@,
                vars@,
                host@,
                old(trace)@,
                depth as nat,
            ),
            goal == loop_value(
                body@,
                var@,
                i as int,
                to as int,
                last,
                funcs@,
                vars@,
                host@,
                trace@,
                depth as nat,
            ),
        decreases to - i,
    {
        let mut scope = vars.copy();
        scope.insert(var.clone(), i);
        match eval_expr(body, funcs, &scope, host, trace, depth) {
            Ok(v) => {
                last = v;
            },
            Err(fault) => {
                return Err(fault);
            },
        }
        i += 1;
    }
    Ok(last)
}

/// An evaluation of statements: the functions defined, the variables bound
/// at the top level, the value of the last statement, what was written and
/// read, and the fault that has stopped the evaluation, if one has.
pub struct Evaluation {
    pub funcs: Table<Function>,
    pub vars: Table<i64>,
    pub value: i64,
    pub trace: Trace,
    pub fault: Option<Fault>,
}

impl View for Evaluation {
    type V = StateView;

    open spec fn view(&self) -> StateView {
        StateView {
            funcs: self.funcs@,
            vars: self.vars@,
            value: self.value,
            trace: self.trace@,
            fault: match self.fault {
                Some(fault) => Some(fault@),
                None => None,
            },
        }
    }
}

impl Evaluation {
    /// The evaluation that has not begun: nothing is defined or bound, the
    /// value is 0, and `trace` is what was written and read before.
    pub fn new(trace: Trace) -> (state: Evaluation)
        ensures
            state@ == StateView::fresh(trace@),
    {
        Evaluation { funcs: Table::new(), vars: Table::new(), value: 0, trace, fault: None }
    }

    /// The final value, or the fault that has stopped the evaluation.
    pub fn result(&self) -> (r: Result<i64, &Fault>)
        ensures
            match r {
                Ok(v) => self.fault is None && v == self.value,
                Err(fault) => self.fault == Some(*fault),
            },
    {
        match &self.fault {
            None => Ok(self.value),
            Some(fault) => Err(fault),
        }
    }
}

/// Adds the function definitions among `stmts` to `funcs`.
fn define_all(funcs: &mut Table<Function>, stmts: &Vec<Stmt>)
    ensures
        final(funcs)@ == with_definitions(old(funcs)@, views(stmts@), 0),
{
    let ghost goal = with_definitions(funcs@, views(stmts@), 0);
    let mut i: usize = 0;
    while i < stmts.len()
        invariant
            i <= stmts.len(),
            goal == with_definitions(funcs@, views(stmts@), i as nat),
        decreases stmts.len() - i,
    {
        if let Stmt::FuncDef { name, params, body } = &stmts[i] {
            funcs.insert(
                name.clone(),
                Function { params: clone_texts(params), body: (**body).clone() },
            );
        }
        i += 1;
    }
}

/// Carries out one statement.
fn run_stmt(stmt: &Stmt, state: Evaluation, host: &Host, depth: usize) -> (next: Evaluation)
    ensures
        next@ == after_stmt(stmt@, state@, host@, depth as nat),
    decreases depth, stmt, 0nat,
{
    let mut state = state;
    match stmt {
        Stmt::Import(name) => {
            match host.modules.get(name.as_str()) {
                None => {
                    state.fault = Some(Fault::MissingModule(name.clone()));
                    state
                },
                Some(text) => {
                    let tokens = tokenize(text.as_str());
                    let module = parse(tokens.as_slice());
                    if depth == 0 {
                        state.fault = Some(Fault::TooDeep);
                        state
                    } else {
                        let mut funcs = state.funcs;
                        define_all(&mut funcs, &module);
                        let inner = run_stmts(
                            module.as_slice(),
                            Evaluation::new(state.trace),
                            host,
                            depth - 1,
                        );
                        Evaluation {
                            funcs,
                            vars: state.vars,
                            value: 0,
                            trace: inner.trace,
                            fault: inner.fault,
                        }
                    }
                },
            }
        },
        Stmt::FuncDef { name, params, body } => {
            state.funcs.insert(
                name.clone(),
                Function { params: clone_texts(params), body: (**body).clone() },
            );
            state.value = 0;
            state
        },
        Stmt::StructDef { name: _, fields: _ } => {
            state.value = 0;
            state
        },
        Stmt::Let { name, value, mutable: _, ty: _ } => {
            match eval_expr(value, &state.funcs, &state.vars, host, &mut state.trace, depth) {
                Ok(v) => {
                    state.vars.insert(name.clone(), v);
                    state.value = v;
                },
                Err(fault) => {
                    state.fault = Some(fault);
                },
            }
            state
        },
        Stmt::Expr(e) => {
            match eval_expr(e, &state.funcs, &state.vars, host, &mut state.trace, depth) {
                Ok(v) => {
                    state.value = v;
                },
                Err(fault) => {
                    state.fault = Some(fault);
                },
            }
            state
        },
        Stmt::Print(e) => {
            match eval_expr(e, &state.funcs, &state.vars, host, &mut state.trace, depth) {
                Ok(v) => {
                    state.trace.record(Event::Printed(v));
                    state.value = v;
                },
                Err(fault) => {
                    state.fault = Some(fault);
                },
            }
            state
        },
        Stmt::Error(message) => {
            state.trace.record(Event::Diagnostic(message.clone()));
            state.value = 0;
            state
        },
    }
}

/// Carries out statements in order, up to the first fault.
fn run_stmts(stmts: &[Stmt], state: Evaluation, host: &Host, depth: usize) -> (end: Evaluation)
    ensures
        end@ == after_stmts(views(stmts@), 0, state@, host@, depth as nat),
    decreases depth, stmts@, 0nat,
{
    let ghost goal = after_stmts(views(stmts@), 0, state@, host@, depth as nat);
    let mut state = state;
    let mut i: usize = 0;
    while i < stmts.len() && state.fault.is_none()
        invariant
            i <= stmts.len(),
            goal == after_stmts(views(stmts@), i as nat, state@, host@, depth as nat),
        decreases stmts.len() - i,
    {
        state = run_stmt(&stmts[i], state, host, depth);
        i += 1;
    }
    state
}

/// Evaluates a program: its statements in order, from a state in which
/// nothing is defined or bound.
///
/// The result holds the value of the last statement, the top-level scope and
/// everything that the program has written. Where the evaluation stops before
/// the end, for an unknown function, a call with the wrong number of
/// arguments, a module or a line of input that `host` does not hold, or calls
/// and imports nested deeper than `depth`, the result holds the fault and the
/// state at that point.
pub fn eval_stmts(stmts: &[Stmt], host: &Host, depth: usize) -> (end: Evaluation)
    ensures
        end@ == run(views(stmts@), host@, depth as nat),
{
    run_stmts(stmts, Evaluation::new(Trace::new()), host, depth)
}

} // verus!
