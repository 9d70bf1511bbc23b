//! The typed events of one execution.
use vstd::prelude::*;

verus! {

/// What happened in an execution.
#[derive(Debug, PartialEq)]
pub enum EventKind {
    /// The first JSON line of the output: a full snapshot.
    Initial(serde_json::Value),
    /// A later JSON line: an incremental patch.
    Patch(serde_json::Value),
    /// A line that is not JSON, as printed by the running program.
    Console(String),
    /// The process exited; `exit_code` is -1 where the platform gave none.
    Complete { exit_code: i32, command: Option<String> },
    /// The process could not be started, or its output could not be read.
    Error(String),
}

/// An event, tagged with the execution it belongs to.
#[derive(Debug, PartialEq)]
pub struct ExecutionEvent {
    pub execution_id: String,
    pub kind: EventKind,
}

/// Why an execution could not run.
#[derive(Debug, Clone, PartialEq)]
pub enum ExecutionFailure {
    /// The requested interpreter is not installed.
    UnknownReindeer,
    /// The source could not be written to scratch storage.
    StagingFailure(String),
    /// The interpreter could not be started.
    SpawnFailure(String),
    /// The exit status of the process could not be had.
    WaitFailure(String),
}

/// The shape of an event, with its payload where that is text.
pub enum EventTag {
    Initial,
    Patch,
    Console(Seq<char>),
    Complete(int, Option<Seq<char>>),
    Error(Seq<char>),
}

/// The text of an optional string.
pub open spec fn opt_view(s: Option<String>) -> Option<Seq<char>> {
    match s {
        Some(t) => Some(t@),
        None => None,
    }
}

impl EventKind {
    /// The shape of this event.
    pub open spec fn tag(&self) -> EventTag {
        match self {
            EventKind::Initial(_) => EventTag::Initial,
            EventKind::Patch(_) => EventTag::Patch,
            EventKind::Console(l) => EventTag::Console(l@),
            EventKind::Complete { exit_code, command } => EventTag::Complete(
                *exit_code as int,
                opt_view(*command),
            ),
            EventKind::Error(m) => EventTag::Error(m@),
        }
    }
}

/// The shape of an optional event.
pub open spec fn opt_tag(e: Option<ExecutionEvent>) -> Option<EventTag> {
    match e {
        Some(ev) => Some(ev.kind.tag()),
        None => None,
    }
}

} // verus!
