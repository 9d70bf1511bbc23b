//! The known interpreter implementations: codename, display name, and the
//! repository that publishes their releases.
use vstd::prelude::*;
use crate::text::text_eq;

verus! {

/// Display name and repository of a codename.
pub open spec fn implementation_entry(codename: Seq<char>) -> Option<(Seq<char>, Seq<char>)> {
    if codename == "comet"@ {
        Some(("Comet"@, "eddmann/santa-lang-comet"@))
    } else if codename == "blitzen"@ {
        Some(("Blitzen"@, "eddmann/santa-lang-blitzen"@))
    } else if codename == "dasher"@ {
        Some(("Dasher"@, "eddmann/santa-lang-dasher"@))
    } else if codename == "donner"@ {
        Some(("Donner"@, "eddmann/santa-lang-donner"@))
    } else if codename == "prancer"@ {
        Some(("Prancer"@, "eddmann/santa-lang-prancer"@))
    } else if codename == "vixen"@ {
        Some(("Vixen"@, "eddmann/santa-lang-vixen"@))
    } else {
        None
    }
}

fn entry(codename: &str) -> (r: Option<(&'static str, &'static str)>)
    ensures
        match implementation_entry(codename@) {
            Some(e) => match r {
                Some(p) => p.0@ == e.0 && p.1@ == e.1,
                None => false,
            },
            None => r is None,
        },
{
    if text_eq(codename, "comet") {
        Some(("Comet", "eddmann/santa-lang-comet"))
    } else if text_eq(codename, "blitzen") {
        Some(("Blitzen", "eddmann/santa-lang-blitzen"))
    } else if text_eq(codename, "dasher") {
        Some(("Dasher", "eddmann/santa-lang-dasher"))
    } else if text_eq(codename, "donner") {
        Some(("Donner", "eddmann/santa-lang-donner"))
    } else if text_eq(codename, "prancer") {
        Some(("Prancer", "eddmann/santa-lang-prancer"))
    } else if text_eq(codename, "vixen") {
        Some(("Vixen", "eddmann/santa-lang-vixen"))
    } else {
        None
    }
}

/// The repository that publishes releases of a codename.
pub fn get_repo_for_codename(codename: &str) -> (r: Option<&'static str>)
    ensures
        match implementation_entry(codename@) {
            Some(e) => r is Some && r->0@ == e.1,
            None => r is None,
        },
{
    match entry(codename) {
        Some(e) => Some(e.1),
        None => None,
    }
}

/// The display name of a codename.
pub fn get_name_for_codename(codename: &str) -> (r: Option<&'static str>)
    ensures
        match implementation_entry(codename@) {
            Some(e) => r is Some && r->0@ == e.0,
            None => r is None,
        },
{
    match entry(codename) {
        Some(e) => Some(e.0),
        None => None,
    }
}

} // verus!
