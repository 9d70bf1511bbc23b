//! Orchestration of external interpreter runs and the small parsers around
//! them.
//!
//! An execution stages its source under a fresh name (`launch`), starts the
//! interpreter with arguments built from its run mode (`launch`), records its
//! process in the table of running executions (`registry`), and turns every
//! line of the process's output into a typed event (`stream`, `event`) until
//! one completion event ends it. Around that core stand the interpreter and
//! formatter bookkeeping: version tags (`version`), releases (`releases`),
//! known implementations (`config`), `--version` outputs (`detect`),
//! formatter diagnostics (`formatter`), installed archives (`install`),
//! puzzle pages (`aoc`) and the application state (`state`).

pub mod text;
pub mod json;
pub mod event;
pub mod registry;
pub mod stream;
pub mod launch;
pub mod version;
pub mod config;
pub mod releases;
pub mod formatter;
pub mod detect;
pub mod install;
pub mod aoc;
pub mod state;
