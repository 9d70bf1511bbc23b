//! What an execution is launched with: its run mode, the argument vector,
//! the staged source file's name, and the diagnostic command line.
use vstd::prelude::*;
use crate::event::{EventKind, ExecutionEvent};
use crate::text::{join_with, joined, text_eq, views};

verus! {

/// The environment variable that carries the session token to the child.
pub const SESSION_TOKEN_VAR: &'static str = "SANTA_CLI_SESSION_TOKEN";

/// How the interpreter is asked to treat the source.
#[derive(Clone, Copy, Debug, PartialEq, Eq, Structural)]
pub enum RunMode {
    Run,
    Test,
    TestSlow,
    Script,
}

/// The mode that a name asks for; unknown names run as `run`.
pub open spec fn mode_named(name: Seq<char>) -> RunMode {
    if name == "test"@ {
        RunMode::Test
    } else if name == "test-slow"@ {
        RunMode::TestSlow
    } else if name == "script"@ {
        RunMode::Script
    } else {
        RunMode::Run
    }
}

/// The flags that a mode adds after the output-format flags.
pub open spec fn mode_flags(mode: RunMode) -> Seq<Seq<char>> {
    match mode {
        RunMode::Test => seq!["-t"@],
        RunMode::TestSlow => seq!["-t"@, "-s"@],
        _ => Seq::empty(),
    }
}

/// The whole argument vector for a mode and a staged source path.
pub open spec fn launch_args(mode: RunMode, source_path: Seq<char>) -> Seq<Seq<char>> {
    seq!["-o"@, "jsonl"@] + mode_flags(mode) + seq![source_path]
}

/// The name under which a source is staged, from a unique token.
pub open spec fn staging_name(token: Seq<char>) -> Seq<char> {
    "santa-workbench-"@ + token + ".santa"@
}

impl RunMode {
    /// The mode of a name; a name it does not know runs as `run`.
    pub fn from_name(name: &str) -> (r: RunMode)
        ensures
            r == mode_named(name@),
    {
        if text_eq(name, "test") {
            RunMode::Test
        } else if text_eq(name, "test-slow") {
            RunMode::TestSlow
        } else if text_eq(name, "script") {
            RunMode::Script
        } else {
            RunMode::Run
        }
    }
}

/// The arguments of the interpreter: the output-format flag and its value,
/// the mode's flags, and the staged source path last.
pub fn build_args(mode: RunMode, source_path: String) -> (r: Vec<String>)
    ensures
        views(r@) == launch_args(mode, source_path@),
{
    let mut args: Vec<String> = Vec::new();
    args.push(String::from_str("-o"));
    args.push(String::from_str("jsonl"));
    match mode {
        RunMode::Test => {
            args.push(String::from_str("-t"));
        },
        RunMode::TestSlow => {
            args.push(String::from_str("-t"));
            args.push(String::from_str("-s"));
        },
        _ => {},
    }
    args.push(source_path);
    assert(views(args@) =~= launch_args(mode, source_path@));
    args
}

/// The full invocation line, executable then arguments, where diagnostics
/// are asked for.
pub fn diagnostic_command(debug: bool, executable: &str, args: &Vec<String>) -> (r: Option<String>)
    ensures
        debug ==> r is Some && r->0@ == executable@ + " "@ + joined(views(args@), " "@),
        !debug ==> r is None,
{
    if debug {
        let mut line = String::from_str(executable);
        line.append(" ");
        let rest = join_with(args, " ");
        line.append(rest.as_str());
        Some(line)
    } else {
        None
    }
}

/// Relies on `uuid::Uuid::new_v4` and its hyphenated text form: a random
/// identifier written in 36 characters.
#[verifier::external_body]
fn fresh_token() -> (r: String)
    ensures
        r@.len() == 36,
{
    uuid::Uuid::new_v4().to_string()
}

/// The staging name for a given unique token.
pub fn staging_file_name_for(token: &str) -> (r: String)
    ensures
        r@ == staging_name(token@),
{
    let mut name = String::from_str("santa-workbench-");
    name.append(token);
    name.append(".santa");
    name
}

/// A fresh staging name, unique by a random identifier.
pub fn staging_file_name() -> (r: String)
    ensures
        exists|token: Seq<char>| token.len() == 36 && r@ == staging_name(token),
{
    let token = fresh_token();
    staging_file_name_for(token.as_str())
}

/// The single event of an execution whose process could not be started.
pub fn spawn_failure_event(execution_id: String, reason: &str) -> (r: ExecutionEvent)
    ensures
        r.execution_id == execution_id,
        r.kind is Error,
        r.kind->Error_0@ == "spawn failed: "@ + reason@,
{
    let mut message = String::from_str("spawn failed: ");
    message.append(reason);
    ExecutionEvent { execution_id, kind: EventKind::Error(message) }
}

} // verus!
