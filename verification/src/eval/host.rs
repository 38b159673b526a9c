//! What an evaluation is given from outside, and what it leaves behind.
//!
//! The evaluator reads and writes nothing by itself. The modules that a
//! program imports and the lines that it reads are handed to it in a
//! [`Host`]; what it prints and reports is written down in a [`Trace`]. Where a
//! module or a line is missing, the evaluation stops with a [`Fault`] that says
//! so, and can be run again once the host has it.

use crate::ast::{Expr, ExprView};
use crate::eval::builtins::{get_std_funcs, std_funcs, StdFunc};
use crate::eval::table::Table;
use crate::view::{lemma_views_push, views};
use vstd::prelude::*;

verus! {

/// A function that a program defines.
#[derive(Debug)]
pub struct Function {
    pub params: Vec<String>,
    pub body: Expr,
}

/// The mathematical value of a [`Function`].
pub struct FunctionView {
    pub params: Seq<Seq<char>>,
    pub body: ExprView,
}

impl View for Function {
    type V = FunctionView;

    open spec fn view(&self) -> FunctionView {
        FunctionView { params: views(self.params@), body: self.body@ }
    }
}

/// Something that an evaluation has written.
#[derive(Debug, PartialEq)]
pub enum Event {
    /// A line of output: a number in decimal.
    Printed(i64),
    /// A diagnostic for an `Error` statement.
    Diagnostic(String),
}

/// The mathematical value of an [`Event`].
pub enum EventView {
    Printed(i64),
    Diagnostic(Seq<char>),
}

impl View for Event {
    type V = EventView;

    open spec fn view(&self) -> EventView {
        match *self {
            Event::Printed(n) => EventView::Printed(n),
            Event::Diagnostic(message) => EventView::Diagnostic(message@),
        }
    }
}

/// Why an evaluation has stopped before its end.
#[derive(Debug, PartialEq)]
pub enum Fault {
    /// A call names a function that is neither built in nor defined.
    UnknownFunction(String),
    /// A call gives a function another number of arguments than it has
    /// parameters.
    ArityMismatch { name: String, expected: usize, found: usize },
    /// An import names a module that the host does not hold.
    MissingModule(String),
    /// `input` was called and the host holds no further line.
    InputNeeded,
    /// Calls and imports are nested deeper than the evaluation was allowed.
    TooDeep,
}

/// The mathematical value of a [`Fault`].
pub enum FaultView {
    UnknownFunction(Seq<char>),
    ArityMismatch { name: Seq<char>, expected: nat, found: nat },
    MissingModule(Seq<char>),
    InputNeeded,
    TooDeep,
}

impl View for Fault {
    type V = FaultView;

    open spec fn view(&self) -> FaultView {
        match *self {
            Fault::UnknownFunction(name) => FaultView::UnknownFunction(name@),
            Fault::ArityMismatch { name, expected, found } => FaultView::ArityMismatch {
                name: name@,
                expected: expected as nat,
                found: found as nat,
            },
            Fault::MissingModule(name) => FaultView::MissingModule(name@),
            Fault::InputNeeded => FaultView::InputNeeded,
            Fault::TooDeep => FaultView::TooDeep,
        }
    }
}

/// What an evaluation is given: the built-in functions, the source text of
/// the modules by name, and the lines of input in the order in which they are
/// read.
pub struct Host {
    pub std_funcs: Table<StdFunc>,
    pub modules: Table<String>,
    pub input: Vec<String>,
}

/// The mathematical value of a [`Host`].
pub struct HostView {
    pub std_funcs: Map<Seq<char>, StdFunc>,
    pub modules: Map<Seq<char>, Seq<char>>,
    pub input: Seq<Seq<char>>,
}

impl View for Host {
    type V = HostView;

    open spec fn view(&self) -> HostView {
        HostView { std_funcs: self.std_funcs@, modules: self.modules@, input: views(self.input@) }
    }
}

impl Host {
    /// A host with the built-in functions, no module and no input.
    pub fn new() -> (host: Host)
        ensures
            host@ == (HostView {
                std_funcs: std_funcs(),
                modules: Map::empty(),
                input: Seq::empty(),
            }),
    {
        let host = Host { std_funcs: get_std_funcs(), modules: Table::new(), input: Vec::new() };
        assert(views(host.input@) =~= Seq::<Seq<char>>::empty());
        host
    }

    /// Gives the host the source text of the module `name`.
    pub fn add_module(&mut self, name: String, text: String)
        ensures
            final(self)@ == (HostView {
                modules: old(self)@.modules.insert(name@, text@),
                ..old(self)@
            }),
    {
        self.modules.insert(name, text);
    }

    /// Gives the host one more line of input, behind those that it holds.
    pub fn push_input(&mut self, line: String)
        ensures
            final(self)@ == (HostView { input: old(self)@.input.push(line@), ..old(self)@ }),
    {
        let ghost before = self.input@;
        self.input.push(line);
        proof {
            lemma_views_push(before, line);
        }
    }
}

/// What an evaluation has written, in order, and how many lines of input it
/// has read.
pub struct Trace {
    pub events: Vec<Event>,
    pub read: usize,
}

/// The mathematical value of a [`Trace`].
pub struct TraceView {
    pub events: Seq<EventView>,
    pub read: nat,
}

impl View for Trace {
    type V = TraceView;

    open spec fn view(&self) -> TraceView {
        TraceView { events: views(self.events@), read: self.read as nat }
    }
}

impl TraceView {
    /// The trace of an evaluation that has done nothing yet.
    pub open spec fn empty() -> TraceView {
        TraceView { events: Seq::empty(), read: 0 }
    }

    /// The trace with one more event.
    pub open spec fn with(self, event: EventView) -> TraceView {
        TraceView { events: self.events.push(event), read: self.read }
    }
}

impl Trace {
    /// The trace of an evaluation that has done nothing yet.
    pub fn new() -> (trace: Trace)
        ensures
            trace@ == TraceView::empty(),
    {
        let trace = Trace { events: Vec::new(), read: 0 };
        assert(views(trace.events@) =~= Seq::<EventView>::empty());
        trace
    }

    /// Writes one event down.
    pub fn record(&mut self, event: Event)
        ensures
            final(self)@ == old(self)@.with(event@),
    {
        let ghost before = self.events@;
        self.events.push(event);
        proof {
            lemma_views_push(before, event);
        }
    }
}

} // verus!
