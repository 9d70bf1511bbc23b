//! Recognising an interpreter from what it prints for `--version`.
use vstd::prelude::*;
use crate::text::{contains, contains_text, text_eq, views};

verus! {

/// The words of a text, as `str::split_whitespace` gives them.
pub uninterp spec fn whitespace_words(s: Seq<char>) -> Seq<Seq<char>>;

/// A text in lower case, as `str::to_lowercase` gives it.
pub uninterp spec fn lower_case(s: Seq<char>) -> Seq<char>;

/// Relies on `str::split_whitespace`: the non-empty runs between white
/// space, in order; they depend on the text alone.
#[verifier::external_body]
fn split_words(s: &str) -> (r: Vec<String>)
    ensures
        views(r@) == whitespace_words(s@),
{
    s.split_whitespace().map(|w| w.to_string()).collect()
}

/// Relies on `str::to_lowercase`: the result depends on the text alone.
#[verifier::external_body]
fn to_lower(s: &str) -> (r: String)
    ensures
        r@ == lower_case(s@),
{
    s.to_lowercase()
}

/// Display name and codename of the interpreter whose lower-cased name is
/// `name_part`.
pub open spec fn identity_of(name_part: Seq<char>) -> (Seq<char>, Seq<char>) {
    if contains_text(name_part, "comet"@) {
        ("Comet"@, "comet"@)
    } else if contains_text(name_part, "blitzen"@) {
        ("Blitzen"@, "blitzen"@)
    } else if contains_text(name_part, "dasher"@) {
        ("Dasher"@, "dasher"@)
    } else if contains_text(name_part, "donner"@) {
        ("Donner"@, "donner"@)
    } else if contains_text(name_part, "prancer"@) {
        ("Prancer"@, "prancer"@)
    } else {
        ("Unknown"@, "unknown"@)
    }
}

/// The recognition for `<name> <version>` outputs, which knows Vixen too.
pub open spec fn implementation_identity_of(name_part: Seq<char>) -> (Seq<char>, Seq<char>) {
    if identity_of(name_part).1 == "unknown"@ && contains_text(name_part, "vixen"@) {
        ("Vixen"@, "vixen"@)
    } else {
        identity_of(name_part)
    }
}

/// Display name and codename for a lower-cased interpreter name: the first
/// known codename that it contains, else unknown.
pub fn identity_for(name_part: &str) -> (r: (&'static str, &'static str))
    ensures
        r.0@ == identity_of(name_part@).0,
        r.1@ == identity_of(name_part@).1,
{
    if contains(name_part, "comet") {
        ("Comet", "comet")
    } else if contains(name_part, "blitzen") {
        ("Blitzen", "blitzen")
    } else if contains(name_part, "dasher") {
        ("Dasher", "dasher")
    } else if contains(name_part, "donner") {
        ("Donner", "donner")
    } else if contains(name_part, "prancer") {
        ("Prancer", "prancer")
    } else {
        ("Unknown", "unknown")
    }
}

/// Name part and version of a `--version` output: `santa-lang <Name> <v>`,
/// or `<name> <v>`.
pub open spec fn version_words(output: Seq<char>) -> Option<(Seq<char>, Seq<char>)> {
    let parts = whitespace_words(output);
    if parts.len() >= 3 && parts[0] == "santa-lang"@ {
        Some((lower_case(parts[1]), parts[2]))
    } else if parts.len() >= 2 {
        Some((lower_case(parts[0]), parts[1]))
    } else {
        None
    }
}

/// Display name, codename and version of an interpreter from its
/// `--version` output; an output of fewer than two words is an error.
pub fn parse_reindeer_version(output: &str) -> (r: Result<(String, String, String), String>)
    ensures
        version_words(output@) is None ==> r is Err,
        version_words(output@) is Some ==> r is Ok && ({
            let (name_part, version) = version_words(output@)->0;
            let (name, codename) = identity_of(name_part);
            let (rn, rc, rv) = r->Ok_0;
            rn@ == name && rc@ == codename && rv@ == version
        }),
{
    let parts = split_words(output);
    let ghost ws = whitespace_words(output@);
    assert(parts@.len() == ws.len());
    let (name_part, version) = if parts.len() >= 3 && text_eq(parts[0].as_str(), "santa-lang") {
        assert(parts@[0]@ == ws[0] && parts@[1]@ == ws[1] && parts@[2]@ == ws[2]);
        (to_lower(parts[1].as_str()), parts[2].clone())
    } else if parts.len() >= 2 {
        assert(parts@[0]@ == ws[0] && parts@[1]@ == ws[1]);
        (to_lower(parts[0].as_str()), parts[1].clone())
    } else {
        return Err(String::from_str("Could not parse version output"));
    };
    let (name, codename) = identity_for(name_part.as_str());
    Ok((name.to_string(), codename.to_string(), version))
}

/// Display name, codename and version from a `--version` output of the form
/// `<name> <version>`, in the recognition that knows Vixen too; an
/// output of fewer than two words is an error.
pub fn parse_implementation_version(output: &str) -> (r: Result<(String, String, String), String>)
    ensures
        whitespace_words(output@).len() < 2 ==> r is Err,
        whitespace_words(output@).len() >= 2 ==> r is Ok && ({
            let parts = whitespace_words(output@);
            let (name, codename) = implementation_identity_of(lower_case(parts[0]));
            let (rn, rc, rv) = r->Ok_0;
            rn@ == name && rc@ == codename && rv@ == parts[1]
        }),
{
    let parts = split_words(output);
    let ghost ws = whitespace_words(output@);
    assert(parts@.len() == ws.len());
    if parts.len() < 2 {
        return Err(String::from_str("Could not parse version output"));
    }
    assert(parts@[0]@ == ws[0] && parts@[1]@ == ws[1]);
    let name_part = to_lower(parts[0].as_str());
    let (mut name, mut codename) = identity_for(name_part.as_str());
    if text_eq(codename, "unknown") && contains(name_part.as_str(), "vixen") {
        name = "Vixen";
        codename = "vixen";
    }
    Ok((name.to_string(), codename.to_string(), parts[1].clone()))
}

} // verus!
