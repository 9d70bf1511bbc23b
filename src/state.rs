//! What the application keeps: installed interpreters, settings, and the
//! running executions.
use vstd::prelude::*;
use crate::event::ExecutionFailure;
use crate::registry::{IdTable, Registry};

verus! {

/// An installed interpreter.
#[derive(Debug, Clone, PartialEq)]
pub struct Reindeer {
    pub id: String,
    pub name: String,
    pub codename: String,
    pub version: String,
    pub path: String,
}

/// User settings.
#[derive(Debug, Clone, PartialEq)]
pub struct Settings {
    pub aoc_session_token: Option<String>,
    pub default_reindeer: Option<String>,
    pub theme: String,
    pub format_on_save: bool,
    pub formatter_path: Option<String>,
    pub debug_mode: bool,
}

/// The whole state: interpreters by id, settings, running executions.
pub struct AppState {
    pub reindeer: IdTable<Reindeer>,
    pub settings: Settings,
    pub running_processes: Registry,
}

/// What an execution is started with, out of the state.
#[derive(Debug, Clone, PartialEq)]
pub struct LaunchTarget {
    pub executable: String,
    pub session_token: Option<String>,
    pub debug: bool,
}


fn copy_opt(o: &Option<String>) -> (r: Option<String>)
    ensures
        r == *o,
{
    match o {
        Some(t) => Some(t.clone()),
        None => None,
    }
}

impl Settings {
    /// The settings of a first start: dark theme, nothing else set.
    pub fn initial() -> (r: Settings)
        ensures
            r.aoc_session_token is None,
            r.default_reindeer is None,
            r.theme@ == "dark"@,
            !r.format_on_save,
            r.formatter_path is None,
            !r.debug_mode,
    {
        Settings {
            aoc_session_token: None,
            default_reindeer: None,
            theme: String::from_str("dark"),
            format_on_save: false,
            formatter_path: None,
            debug_mode: false,
        }
    }
}

impl AppState {
    /// Each interpreter stands under its own id.
    pub open spec fn wf(&self) -> bool {
        &&& self.reindeer.wf()
        &&& self.running_processes.wf()
        &&& forall|k: Seq<char>| #[trigger] self.reindeer@.contains_key(k) ==> self.reindeer@[k].id@ == k
    }

    /// A state with the given settings, no interpreters and nothing running.
    pub fn with_settings(settings: Settings) -> (r: AppState)
        ensures
            r.wf(),
            r.settings == settings,
            r.reindeer@ == Map::<Seq<char>, Reindeer>::empty(),
            r.running_processes@ == Map::<Seq<char>, u32>::empty(),
    {
        AppState { reindeer: IdTable::new(), settings, running_processes: IdTable::new() }
    }

    /// The state of a first start.
    pub fn initial() -> (r: AppState)
        ensures
            r.wf(),
            r.settings.theme@ == "dark"@,
            r.reindeer@ == Map::<Seq<char>, Reindeer>::empty(),
            r.running_processes@ == Map::<Seq<char>, u32>::empty(),
    {
        AppState::with_settings(Settings::initial())
    }

    /// Adds an interpreter under its id, in place of one with the same id.
    pub fn add_reindeer(&mut self, reindeer: Reindeer)
        requires
            old(self).wf(),
        ensures
            final(self).wf(),
            final(self).reindeer@ == old(self).reindeer@.insert(reindeer.id@, reindeer),
            final(self).settings == old(self).settings,
            final(self).running_processes == old(self).running_processes,
    {
        let id = reindeer.id.clone();
        self.reindeer.insert(id, reindeer);
    }

    /// Removes an interpreter; an unknown id changes nothing.
    pub fn remove_reindeer(&mut self, id: &String)
        requires
            old(self).wf(),
        ensures
            final(self).wf(),
            final(self).reindeer@ == old(self).reindeer@.remove(id@),
            final(self).settings == old(self).settings,
            final(self).running_processes == old(self).running_processes,
    {
        self.reindeer.remove(id);
    }

    /// Executable, session token and diagnostics flag for running an
    /// interpreter; an unknown interpreter is an error.
    pub fn launch_target(&self, reindeer_id: &String) -> (r: Result<LaunchTarget, ExecutionFailure>)
        requires
            self.wf(),
        ensures
            !self.reindeer@.contains_key(reindeer_id@) ==> r == Err::<LaunchTarget, ExecutionFailure>(
                ExecutionFailure::UnknownReindeer,
            ),
            self.reindeer@.contains_key(reindeer_id@) ==> r is Ok && r->Ok_0.executable
                == self.reindeer@[reindeer_id@].path && r->Ok_0.session_token
                == self.settings.aoc_session_token && r->Ok_0.debug == self.settings.debug_mode,
    {
        match self.reindeer.get(reindeer_id) {
            Some(r) => Ok(LaunchTarget {
                executable: r.path.clone(),
                session_token: copy_opt(&self.settings.aoc_session_token),
                debug: self.settings.debug_mode,
            }),
            None => Err(ExecutionFailure::UnknownReindeer),
        }
    }
}

} // verus!
