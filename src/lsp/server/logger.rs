//! The log worker's decisions.
//!
//! The session queues [`LogEvent`]s; a worker that owns the output takes them
//! in order and asks [`next_log_action`] what to do with each, so that log
//! lines never hold up the handling of client messages.

use crate::lsp::notification::trace::{traced, LogTraceParams, TraceValue};
use crate::lsp::notification::ServerClientNotification;
use vstd::prelude::*;

verus! {

/// An event for the log worker.
#[derive(Debug, Clone)]
pub enum LogEvent {
    /// From now on, log at this trace level.
    SetTrace(TraceValue),
    /// A log entry, to be sent as far as the trace level allows.
    LogMessage(LogTraceParams),
    /// Stop once the events queued before this one are done.
    Shutdown,
}

impl From<LogTraceParams> for LogEvent {
    fn from(v: LogTraceParams) -> (r: Self) {
        Self::LogMessage(v)
    }
}

impl vstd::std_specs::convert::FromSpecImpl<LogTraceParams> for LogEvent {
    open spec fn obeys_from_spec() -> bool {
        true
    }

    open spec fn from_spec(v: LogTraceParams) -> Self {
        LogEvent::LogMessage(v)
    }
}

impl From<TraceValue> for LogEvent {
    fn from(v: TraceValue) -> (r: Self) {
        Self::SetTrace(v)
    }
}

impl vstd::std_specs::convert::FromSpecImpl<TraceValue> for LogEvent {
    open spec fn obeys_from_spec() -> bool {
        true
    }

    open spec fn from_spec(v: TraceValue) -> Self {
        LogEvent::SetTrace(v)
    }
}

impl LogEvent {
    pub fn is_shutdown(&self) -> (r: bool)
        ensures
            r == (*self is Shutdown),
    {
        matches!(self, Self::Shutdown)
    }
}

/// What the worker does with one event.
#[derive(Debug)]
pub enum LogAction {
    /// Stop working.
    Stop,
    /// Nothing to send; take the next event.
    Skip,
    /// Send this notification to the client.
    Write(ServerClientNotification),
}

/// The worker's decision on `event` at trace level `trace`, and the trace
/// level for the next event.
pub fn next_log_action(trace: TraceValue, event: LogEvent) -> (r: (TraceValue, LogAction))
    ensures
        match event {
            LogEvent::Shutdown => r.0 == trace && r.1 is Stop,
            LogEvent::SetTrace(t) => r.0 == t && r.1 is Skip,
            LogEvent::LogMessage(p) => r.0 == trace && match (r.1, traced(p@, trace)) {
                (LogAction::Write(ServerClientNotification::LogTrace(q)), Some(v)) => q@ == v,
                (LogAction::Skip, None) => true,
                _ => false,
            },
        },
{
    match event {
        LogEvent::Shutdown => (trace, LogAction::Stop),
        LogEvent::SetTrace(t) => (t, LogAction::Skip),
        LogEvent::LogMessage(p) => match p.with_trace_level(trace) {
            Some(q) => (trace, LogAction::Write(ServerClientNotification::LogTrace(q))),
            None => (trace, LogAction::Skip),
        },
    }
}

} // verus!
