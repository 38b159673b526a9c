//! What a program means: the value of each expression and the effect of each
//! statement, as mathematical functions.
//!
//! Numbers are 64-bit signed integers and sums wrap around. A variable that
//! is not bound has the value 0. A call evaluates its arguments from left to
//! right, in the caller's scope, and the body of a defined function in a scope
//! of its own that binds the parameters and nothing else. `depth` is the number
//! of calls of defined functions and of imports that may still be nested.

use crate::ast::{ExprView, StmtView};
use crate::eval::builtins::{input_value, StdFunc};
use crate::eval::host::{EventView, FaultView, FunctionView, HostView, TraceView};
use crate::eval::table::{bindings, lookup};
use crate::lexer::lex;
use crate::parser::grammar::program;
use vstd::prelude::*;

verus! {

/// The name-to-function map of a program's definitions.
pub type Funcs = Map<Seq<char>, FunctionView>;

/// The name-to-value map of a scope.
pub type Vars = Map<Seq<char>, i64>;

/// How an evaluation went: its result, or the fault that stopped it, and
/// what it had written and read by then.
pub struct Outcome<T> {
    pub value: Result<T, FaultView>,
    pub trace: TraceView,
}

/// An evaluation that yields `value`.
pub open spec fn done<T>(value: T, trace: TraceView) -> Outcome<T> {
    Outcome { value: Ok(value), trace }
}

/// An evaluation that stops with `fault`.
pub open spec fn stopped<T>(fault: FaultView, trace: TraceView) -> Outcome<T> {
    Outcome { value: Err(fault), trace }
}

/// The scope of a function's body: each parameter bound to its argument.
pub open spec fn call_scope(params: Seq<Seq<char>>, values: Seq<i64>) -> Vars {
    bindings(Seq::new(params.len(), |i: int| (params[i], values[i])))
}

/// The trace after `print` has written `values`, one per line.
pub open spec fn printed(trace: TraceView, values: Seq<i64>) -> TraceView
    decreases values.len(),
{
    if values.len() == 0 {
        trace
    } else {
        printed(trace, values.drop_last()).with(EventView::Printed(values.last()))
    }
}

/// What a built-in function does with the values of its arguments.
///
/// `print` writes each value and yields 0. `input` reads the next line that
/// the host holds and yields the integer on it, or 0; where the host holds no
/// further line, the evaluation stops.
pub open spec fn apply_std(f: StdFunc, values: Seq<i64>, host: HostView, trace: TraceView)
    -> Outcome<i64> {
    match f {
        StdFunc::Print => done(0, printed(trace, values)),
        StdFunc::Input => {
            if trace.read < host.input.len() {
                done(
                    input_value(host.input[trace.read as int]),
                    TraceView { events: trace.events, read: trace.read + 1 },
                )
            } else {
                stopped(FaultView::InputNeeded, trace)
            }
        },
    }
}

/// The value of an expression.
pub open spec fn value_of(
    e: ExprView,
    funcs: Funcs,
    vars: Vars,
    host: HostView,
    trace: TraceView,
    depth: nat,
) -> Outcome<i64>
    decreases depth, e, 0nat,
{
    match e {
        ExprView::Number(n) => done(n, trace),
        ExprView::Bool(b) => done(
            if b {
                1i64
            } else {
                0i64
            },
            trace,
        ),
        ExprView::Str(_) => done(0, trace),
        ExprView::Add(l, r) => {
            let left = value_of(*l, funcs, vars, host, trace, depth);
            match left.value {
                Err(_) => left,
                Ok(x) => {
                    let right = value_of(*r, funcs, vars, host, left.trace, depth);
                    match right.value {
                        Err(_) => right,
                        Ok(y) => done(x.wrapping_add(y), right.trace),
                    }
                },
            }
        },
        ExprView::Var(name) => done(
            match lookup(vars, name) {
                Some(v) => v,
                None => 0,
            },
            trace,
        ),
        ExprView::Call(name, args) => {
            match lookup(host.std_funcs, name) {
                Some(f) => {
                    let given = values_of(args, 0, Seq::empty(), funcs, vars, host, trace, depth);
                    match given.value {
                        Err(fault) => stopped(fault, given.trace),
                        Ok(values) => apply_std(f, values, host, given.trace),
                    }
                },
                None => match lookup(funcs, name) {
                    None => stopped(FaultView::UnknownFunction(name), trace),
                    Some(f) => {
                        if f.params.len() != args.len() {
                            stopped(
                                FaultView::ArityMismatch {
                                    name,
                                    expected: f.params.len(),
                                    found: args.len(),
                                },
                                trace,
                            )
                        } else {
                            let given = values_of(
                                args,
                                0,
                                Seq::empty(),
                                funcs,
                                vars,
                                host,
                                trace,
                                depth,
                            );
                            match given.value {
                                Err(fault) => stopped(fault, given.trace),
                                Ok(values) => {
                                    if depth == 0 {
                                        stopped(FaultView::TooDeep, given.trace)
                                    } else {
                                        value_of(
                                            f.body,
                                            funcs,
                                            call_scope(f.params, values),
                                            host,
                                            given.trace,
                                            (depth - 1) as nat,
                                        )
                                    }
                                },
                            }
                        }
                    },
                },
            }
        },
        ExprView::Block(stmts) => block_value(stmts, 0, 0, funcs, vars, host, trace, depth),
        ExprView::StructInit(_, _) => done(0, trace),
        ExprView::FieldAccess(_, _) => done(0, trace),
        ExprView::If { cond, then_branch, else_branch } => {
            let test = value_of(*cond, funcs, vars, host, trace, depth);
            match test.value {
                Err(_) => test,
                Ok(c) => {
                    if c != 0 {
                        value_of(*then_branch, funcs, vars, host, test.trace, depth)
                    } else {
                        match else_branch {
                            Some(other) => value_of(*other, funcs, vars, host, test.trace, depth),
                            None => done(0, test.trace),
                        }
                    }
                },
            }
        },
        ExprView::For { var, start, end, body } => {
            let first = value_of(*start, funcs, vars, host, trace, depth);
            match first.value {
                Err(_) => first,
                Ok(from) => {
                    let bound = value_of(*end, funcs, vars, host, first.trace, depth);
                    match bound.value {
                        Err(_) => bound,
                        Ok(to) => loop_value(
                            *body,
                            var,
                            from as int,
                            to as int,
                            0,
                            funcs,
                            vars,
                            host,
                            bound.trace,
                            depth,
                        ),
                    }
                },
            }
        },
    }
}

/// The values of the arguments `args[i..]`, behind those in `values`.
pub open spec fn values_of(
    args: Seq<ExprView>,
    i: nat,
    values: Seq<i64>,
    funcs: Funcs,
    vars: Vars,
    host: HostView,
    trace: TraceView,
    depth: nat,
) -> Outcome<Seq<i64>>
    decreases depth, args, args.len() - i,
{
    if i >= args.len() {
        done(values, trace)
    } else {
        let arg = value_of(args[i as int], funcs, vars, host, trace, depth);
        match arg.value {
            Err(fault) => stopped(fault, arg.trace),
            Ok(v) => values_of(args, i + 1, values.push(v), funcs, vars, host, arg.trace, depth),
        }
    }
}

/// The value of a block from its statement `i` on, where the statements
/// before it have left the value `last`.
///
/// An expression, a `print` and a `let` yield a value; a `print` writes it
/// too; a `let` binds nothing here. Every other statement is passed over. The
/// block has the value of the last statement that yields one, or 0.
pub open spec fn block_value(
    stmts: Seq<StmtView>,
    i: nat,
    last: i64,
    funcs: Funcs,
    vars: Vars,
    host: HostView,
    trace: TraceView,
    depth: nat,
) -> Outcome<i64>
    decreases depth, stmts, stmts.len() - i,
{
    if i >= stmts.len() {
        done(last, trace)
    } else {
        match stmts[i as int] {
            StmtView::Expr(e) => {
                let r = value_of(e, funcs, vars, host, trace, depth);
                match r.value {
                    Err(_) => r,
                    Ok(v) => block_value(stmts, i + 1, v, funcs, vars, host, r.trace, depth),
                }
            },
            StmtView::Print(e) => {
                let r = value_of(*e, funcs, vars, host, trace, depth);
                match r.value {
                    Err(_) => r,
                    Ok(v) => block_value(
                        stmts,
                        i + 1,
                        v,
                        funcs,
                        vars,
                        host,
                        r.trace.with(EventView::Printed(v)),
                        depth,
                    ),
                }
            },
            StmtView::Let { name, value, mutable, ty } => {
                let r = value_of(value, funcs, vars, host, trace, depth);
                match r.value {
                    Err(_) => r,
                    Ok(v) => block_value(stmts, i + 1, v, funcs, vars, host, r.trace, depth),
                }
            },
            _ => block_value(stmts, i + 1, last, funcs, vars, host, trace, depth),
        }
    }
}

/// The value of a loop from the index `i` on, where the iterations before it
/// have left the value `last`.
///
/// The indices run from `i` up to `to`, which is left out. Each iteration
/// evaluates the body in the loop's scope with the variable bound to the
/// index; whatever the body binds is gone with the iteration. The loop has the
/// value of its last iteration, or 0 where there is none.
pub open spec fn loop_value(
    body: ExprView,
    var: Seq<char>,
    i: int,
    to: int,
    last: i64,
    funcs: Funcs,
    vars: Vars,
    host: HostView,
    trace: TraceView,
    depth: nat,
) -> Outcome<i64>
    decreases depth, body, to - i + 1,
{
    if i >= to {
        done(last, trace)
    } else {
        let r = value_of(body, funcs, vars.insert(var, i as i64), host, trace, depth);
        match r.value {
            Err(_) => r,
            Ok(v) => loop_value(body, var, i + 1, to, v, funcs, vars, host, r.trace, depth),
        }
    }
}

/// Where an evaluation of statements stands: the functions defined, the
/// variables bound, the value of the last statement, what was written and
/// read, and the fault that has stopped it, if one has.
pub struct StateView {
    pub funcs: Funcs,
    pub vars: Vars,
    pub value: i64,
    pub trace: TraceView,
    pub fault: Option<FaultView>,
}

impl StateView {
    /// The state before the first statement: nothing is defined or bound, and
    /// the value is 0.
    pub open spec fn fresh(trace: TraceView) -> StateView {
        StateView { funcs: Map::empty(), vars: Map::empty(), value: 0, trace, fault: None }
    }

    /// The state after an expression was evaluated with the outcome `r`.
    pub open spec fn after(self, r: Outcome<i64>) -> StateView {
        match r.value {
            Ok(v) => StateView { value: v, trace: r.trace, ..self },
            Err(fault) => StateView { trace: r.trace, fault: Some(fault), ..self },
        }
    }
}

/// `funcs` with the function definitions among `stmts[i..]` added, a later
/// definition of a name in place of an earlier one.
pub open spec fn with_definitions(funcs: Funcs, stmts: Seq<StmtView>, i: nat) -> Funcs
    decreases stmts.len() - i,
{
    if i >= stmts.len() {
        funcs
    } else {
        match stmts[i as int] {
            StmtView::FuncDef { name, params, body } => with_definitions(
                funcs.insert(name, FunctionView { params, body: *body }),
                stmts,
                i + 1,
            ),
            _ => with_definitions(funcs, stmts, i + 1),
        }
    }
}

/// The state after one statement.
///
/// - An import reads the module's text from the host, reads the text into
///   statements, adds the module's function definitions to the functions
///   defined, and then runs the module's statements in a state of their own,
///   for what they write and read. What the module binds stays with the
///   module.
/// - A function definition defines the function, in place of an earlier one
///   of its name.
/// - A `let` binds the name to the value of the expression, which is the
///   statement's value.
/// - A `print` writes the value of the expression, which is the statement's
///   value.
/// - An `Error` statement writes its message as a diagnostic.
///
/// A statement without a value of its own leaves the value 0.
pub open spec fn after_stmt(stmt: StmtView, state: StateView, host: HostView, depth: nat)
    -> StateView
    decreases depth, stmt, 0nat,
{
    match stmt {
        StmtView::Import(name) => {
            match lookup(host.modules, name) {
                None => StateView { fault: Some(FaultView::MissingModule(name)), ..state },
                Some(text) => {
                    let module = program(lex(text));
                    if depth == 0 {
                        StateView { fault: Some(FaultView::TooDeep), ..state }
                    } else {
                        let inner = after_stmts(
                            module,
                            0,
                            StateView::fresh(state.trace),
                            host,
                            (depth - 1) as nat,
                        );
                        StateView {
                            funcs: with_definitions(state.funcs, module, 0),
                            vars: state.vars,
                            value: 0,
                            trace: inner.trace,
                            fault: inner.fault,
                        }
                    }
                },
            }
        },
        StmtView::FuncDef { name, params, body } => StateView {
            funcs: state.funcs.insert(name, FunctionView { params, body: *body }),
            value: 0,
            ..state
        },
        StmtView::StructDef { name, fields } => StateView { value: 0, ..state },
        StmtView::Let { name, value, mutable, ty } => {
            let r = value_of(value, state.funcs, state.vars, host, state.trace, depth);
            match r.value {
                Ok(v) => StateView { vars: state.vars.insert(name, v), ..state.after(r) },
                Err(_) => state.after(r),
            }
        },
        StmtView::Expr(e) => state.after(
            value_of(e, state.funcs, state.vars, host, state.trace, depth),
        ),
        StmtView::Print(e) => {
            let r = value_of(*e, state.funcs, state.vars, host, state.trace, depth);
            match r.value {
                Ok(v) => StateView { trace: r.trace.with(EventView::Printed(v)), ..state.after(r) },
                Err(_) => state.after(r),
            }
        },
        StmtView::Error(message) => StateView {
            value: 0,
            trace: state.trace.with(EventView::Diagnostic(message)),
            ..state
        },
    }
}

/// The state after the statements `stmts[i..]`, in order. A fault ends the
/// evaluation: the statements behind it leave the state as it is.
pub open spec fn after_stmts(
    stmts: Seq<StmtView>,
    i: nat,
    state: StateView,
    host: HostView,
    depth: nat,
) -> StateView
    decreases depth, stmts, stmts.len() - i,
{
    if i >= stmts.len() || state.fault is Some {
        state
    } else {
        after_stmts(stmts, i + 1, after_stmt(stmts[i as int], state, host, depth), host, depth)
    }
}

/// What a program does: the state after its statements, from the fresh state.
pub open spec fn run(stmts: Seq<StmtView>, host: HostView, depth: nat) -> StateView {
    after_stmts(stmts, 0, StateView::fresh(TraceView::empty()), host, depth)
}

/// The function that a name stands for after a module's definitions were
/// added is the one that the module defines last under that name.
pub proof fn lemma_last_definition_holds(funcs: Funcs, stmts: Seq<StmtView>, i: nat, k: nat)
    requires
        i <= k < stmts.len(),
        stmts[k as int] is FuncDef,
        forall|j: int|
            k < j < stmts.len() && #[trigger] stmts[j] is FuncDef ==> stmts[j]->FuncDef_name
                != stmts[k as int]->FuncDef_name,
    ensures
        lookup(with_definitions(funcs, stmts, i), stmts[k as int]->FuncDef_name) == Some(
            FunctionView {
                params: stmts[k as int]->FuncDef_params,
                body: *stmts[k as int]->FuncDef_body,
            },
        ),
    decreases stmts.len() - i,
{
    let name = stmts[k as int]->FuncDef_name;
    if i < k {
        match stmts[i as int] {
            StmtView::FuncDef { name: n, params, body } => {
                lemma_last_definition_holds(
                    funcs.insert(n, FunctionView { params, body: *body }),
                    stmts,
                    i + 1,
                    k,
                );
            },
            _ => {
                lemma_last_definition_holds(funcs, stmts, i + 1, k);
            },
        }
    } else {
        let defined = funcs.insert(
            name,
            FunctionView {
                params: stmts[k as int]->FuncDef_params,
                body: *stmts[k as int]->FuncDef_body,
            },
        );
        lemma_other_definitions_keep(defined, stmts, k + 1, name);
    }
}

/// Definitions under other names leave what a name stands for as it was.
pub proof fn lemma_other_definitions_keep(
    funcs: Funcs,
    stmts: Seq<StmtView>,
    i: nat,
    name: Seq<char>,
)
    requires
        forall|j: int|
            i <= j < stmts.len() && #[trigger] stmts[j] is FuncDef ==> stmts[j]->FuncDef_name
                != name,
    ensures
        lookup(with_definitions(funcs, stmts, i), name) == lookup(funcs, name),
    decreases stmts.len() - i,
{
    if i < stmts.len() {
        match stmts[i as int] {
            StmtView::FuncDef { name: n, params, body } => {
                lemma_other_definitions_keep(
                    funcs.insert(n, FunctionView { params, body: *body }),
                    stmts,
                    i + 1,
                    name,
                );
            },
            _ => {
                lemma_other_definitions_keep(funcs, stmts, i + 1, name);
            },
        }
    }
}

/// An import of a module that the host holds adds the module's function
/// definitions to the importer's, and leaves the importer's scope as it was:
/// whatever the module binds at its top level, the importer does not see it.
pub proof fn lemma_import_adds_functions_only(
    name: Seq<char>,
    state: StateView,
    host: HostView,
    depth: nat,
)
    requires
        host.modules.contains_key(name),
        depth > 0,
    ensures
        after_stmt(StmtView::Import(name), state, host, depth).vars == state.vars,
        after_stmt(StmtView::Import(name), state, host, depth).funcs == with_definitions(
            state.funcs,
            program(lex(host.modules[name])),
            0,
        ),
{
}

/// A loop over at least one index has the outcome of its last iteration: the
/// body evaluated with the variable bound to the last index, behind what the
/// iterations before it have written and read. Where an earlier iteration
/// stops with a fault, so does the loop.
pub proof fn lemma_loop_ends_with_last_iteration(
    body: ExprView,
    var: Seq<char>,
    i: int,
    to: int,
    last: i64,
    funcs: Funcs,
    vars: Vars,
    host: HostView,
    trace: TraceView,
    depth: nat,
)
    requires
        i < to,
        i64::MIN <= i,
        to <= i64::MAX,
    ensures
        ({
            let before = loop_value(body, var, i, to - 1, last, funcs, vars, host, trace, depth);
            loop_value(body, var, i, to, last, funcs, vars, host, trace, depth) == match before.value {
                Err(_) => before,
                Ok(_) => value_of(
                    body,
                    funcs,
                    vars.insert(var, (to - 1) as i64),
                    host,
                    before.trace,
                    depth,
                ),
            }
        }),
    decreases to - i,
{
    let r = value_of(body, funcs, vars.insert(var, i as i64), host, trace, depth);
    let before = loop_value(body, var, i, to - 1, last, funcs, vars, host, trace, depth);
    match r.value {
        Err(_) => {},
        Ok(v) => {
            if i < to - 1 {
                assert(before == loop_value(
                    body,
                    var,
                    i + 1,
                    to - 1,
                    v,
                    funcs,
                    vars,
                    host,
                    r.trace,
                    depth,
                ));
                lemma_loop_ends_with_last_iteration(
                    body,
                    var,
                    i + 1,
                    to,
                    v,
                    funcs,
                    vars,
                    host,
                    r.trace,
                    depth,
                );
            }
        },
    }
}

/// A loop over no index has the value 0, and writes and reads nothing.
pub proof fn lemma_empty_loop(
    body: ExprView,
    var: Seq<char>,
    from: int,
    to: int,
    funcs: Funcs,
    vars: Vars,
    host: HostView,
    trace: TraceView,
    depth: nat,
)
    requires
        from >= to,
    ensures
        loop_value(body, var, from, to, 0, funcs, vars, host, trace, depth) == done(0i64, trace),
{
}

/// A call of a defined function with another number of arguments than the
/// function has parameters stops the evaluation before any argument is
/// evaluated.
pub proof fn lemma_arity_mismatch_stops(
    name: Seq<char>,
    args: Seq<ExprView>,
    funcs: Funcs,
    vars: Vars,
    host: HostView,
    trace: TraceView,
    depth: nat,
)
    requires
        !host.std_funcs.contains_key(name),
        funcs.contains_key(name),
        funcs[name].params.len() != args.len(),
    ensures
        value_of(ExprView::Call(name, args), funcs, vars, host, trace, depth) == stopped::<i64>(
            FaultView::ArityMismatch {
                name,
                expected: funcs[name].params.len(),
                found: args.len(),
            },
            trace,
        ),
{
}

/// A call of a name that is neither built in nor defined stops the
/// evaluation before any argument is evaluated.
pub proof fn lemma_unknown_function_stops(
    name: Seq<char>,
    args: Seq<ExprView>,
    funcs: Funcs,
    vars: Vars,
    host: HostView,
    trace: TraceView,
    depth: nat,
)
    requires
        !host.std_funcs.contains_key(name),
        !funcs.contains_key(name),
    ensures
        value_of(ExprView::Call(name, args), funcs, vars, host, trace, depth) == stopped::<i64>(
            FaultView::UnknownFunction(name),
            trace,
        ),
{
}

} // verus!
