//! The trace level and the log notifications it governs.

use vstd::prelude::*;

verus! {

/// The parameters of `$/setTrace`.
#[derive(Debug, Clone, Copy, PartialEq, Eq, Structural)]
pub struct SetTraceParams {
    pub value: TraceValue,
}

impl SetTraceParams {
    pub fn value(&self) -> (r: TraceValue)
        ensures
            r == self.value,
    {
        self.value
    }
}

/// How much the server logs to the client.
#[derive(Debug, Clone, Copy, PartialEq, Eq, Structural)]
pub enum TraceValue {
    Off,
    Message,
    Verbose,
}

impl TraceValue {
    pub fn is_off(&self) -> (r: bool)
        ensures
            r == (*self == TraceValue::Off),
    {
        matches!(self, Self::Off)
    }

    pub fn is_message(&self) -> (r: bool)
        ensures
            r == (*self == TraceValue::Message),
    {
        matches!(self, Self::Message)
    }

    pub fn is_verbose(&self) -> (r: bool)
        ensures
            r == (*self == TraceValue::Verbose),
    {
        matches!(self, Self::Verbose)
    }
}

/// The view of an optional text.
pub open spec fn opt_text(o: Option<String>) -> Option<Seq<char>> {
    match o {
        Some(s) => Some(s@),
        None => None,
    }
}

/// The parameters of `$/logTrace`.
#[derive(Debug, Clone)]
pub struct LogTraceParams {
    /// The message to be logged.
    pub message: String,
    /// Additional information, sent only at the verbose trace level.
    pub verbose: Option<String>,
}

impl View for LogTraceParams {
    /// The message and the additional information.
    type V = (Seq<char>, Option<Seq<char>>);

    open spec fn view(&self) -> (Seq<char>, Option<Seq<char>>) {
        (self.message@, opt_text(self.verbose))
    }
}

/// What is sent of a log entry at trace level `trace`: nothing when tracing
/// is off, the message alone at `Message`, everything at `Verbose`.
pub open spec fn traced(
    entry: (Seq<char>, Option<Seq<char>>),
    trace: TraceValue,
) -> Option<(Seq<char>, Option<Seq<char>>)> {
    match trace {
        TraceValue::Off => None,
        TraceValue::Message => Some((entry.0, None)),
        TraceValue::Verbose => Some(entry),
    }
}

impl LogTraceParams {
    pub fn new(message: String, verbose: Option<String>) -> (r: Self)
        ensures
            r@ == (message@, opt_text(verbose)),
    {
        Self { message, verbose }
    }

    /// The entry as sent at trace level `trace`; see [`traced`].
    pub fn with_trace_level(self, trace: TraceValue) -> (r: Option<Self>)
        ensures
            match (r, traced(self@, trace)) {
                (Some(p), Some(q)) => p@ == q,
                (None, None) => true,
                _ => false,
            },
    {
        match trace {
            TraceValue::Off => None,
            TraceValue::Message => Some(Self::new(self.message, None)),
            TraceValue::Verbose => Some(Self::new(self.message, self.verbose)),
        }
    }
}

} // verus!
