//! The source formatter: its installation status, its version, and the
//! reading of its output and diagnostics.
use vstd::prelude::*;
use crate::releases::{latest_version, Release};
use crate::text::{has_prefix, strip_prefix, trim_text, trimmed};
use crate::version::{is_version_less_than, parse_u32, parsed_u32, triple_less, version_of, without_v};

verus! {

/// Whether the formatter is installed, which version, and whether a newer
/// one is published.
#[derive(Debug, Clone, PartialEq)]
pub struct FormatterStatus {
    pub installed: bool,
    pub path: Option<String>,
    pub version: Option<String>,
    pub latest_version: Option<String>,
    pub has_update: bool,
}

/// A position and message that the formatter reported.
#[derive(Debug, Clone, PartialEq)]
pub struct FormatError {
    pub message: String,
    pub line: Option<u32>,
    pub column: Option<u32>,
}

/// The outcome of formatting a source.
#[derive(Debug, Clone, PartialEq)]
pub struct FormatResult {
    pub success: bool,
    pub formatted: Option<String>,
    pub error: Option<FormatError>,
}

/// The banner that precedes the version in the formatter's `-v` output.
pub const VERSION_BANNER: &'static str = "santa-lang Tinsel ";

/// Diagnostics that say `line X, column Y`.
pub const LINE_COLUMN_PATTERN: &'static str = r"line\s+(\d+),?\s*column\s+(\d+)";

/// Diagnostics that begin with `X:Y:`.
pub const PREFIX_POSITION_PATTERN: &'static str = r"^(\d+):(\d+):";

/// The capture groups of the first match of a pattern in a text, as
/// `regex_lite` finds them; `None` where the pattern is invalid or does not
/// match.
pub uninterp spec fn regex_groups(pattern: Seq<char>, text: Seq<char>) -> Option<Seq<Option<Seq<char>>>>;

/// The texts of optional strings.
pub open spec fn opt_views(v: Seq<Option<String>>) -> Seq<Option<Seq<char>>> {
    v.map_values(|o: Option<String>| match o {
        Some(s) => Some(s@),
        None => None,
    })
}

/// Relies on `regex_lite::Regex::new` and `Regex::captures`: the groups of
/// the leftmost match, each absent where it took no part; the outcome
/// depends on the pattern and the text alone.
#[verifier::external_body]
fn regex_captures(pattern: &str, text: &str) -> (r: Option<Vec<Option<String>>>)
    ensures
        match r {
            Some(g) => regex_groups(pattern@, text@) == Some(opt_views(g@)),
            None => regex_groups(pattern@, text@) is None,
        },
{
    let re = regex_lite::Regex::new(pattern).ok()?;
    let caps = re.captures(text)?;
    Some(caps.iter().map(|m| m.map(|m| m.as_str().to_string())).collect())
}

/// The number that capture group `k` holds, if it took part and reads as one.
pub open spec fn group_number(groups: Seq<Option<Seq<char>>>, k: int) -> Option<u32> {
    if 0 <= k < groups.len() {
        match groups[k] {
            Some(t) => parsed_u32(t),
            None => None,
        }
    } else {
        None
    }
}

/// Line, column and message of a diagnostic.
pub open spec fn error_location(stderr: Seq<char>) -> (Option<u32>, Option<u32>, Seq<char>) {
    let t = trimmed(stderr);
    match regex_groups(LINE_COLUMN_PATTERN@, t) {
        Some(g) => (group_number(g, 1), group_number(g, 2), t),
        None => match regex_groups(PREFIX_POSITION_PATTERN@, t) {
            Some(g) => (group_number(g, 1), group_number(g, 2), t),
            None => (None, None, t),
        },
    }
}

/// The number that capture group `k` holds.
pub fn capture_number(groups: &Vec<Option<String>>, k: usize) -> (r: Option<u32>)
    ensures
        r == group_number(opt_views(groups@), k as int),
{
    if k < groups.len() {
        match &groups[k] {
            Some(t) => parse_u32(t.as_str()),
            None => None,
        }
    } else {
        None
    }
}

/// Reads line and column out of a formatter diagnostic: first as
/// `line X, column Y`, then as a leading `X:Y:`. The message is the trimmed
/// diagnostic.
pub fn parse_error_location(stderr: &str) -> (r: (Option<u32>, Option<u32>, String))
    ensures
        r.0 == error_location(stderr@).0,
        r.1 == error_location(stderr@).1,
        r.2@ == error_location(stderr@).2,
{
    let t = trim_text(stderr);
    match regex_captures(LINE_COLUMN_PATTERN, t) {
        Some(g) => (capture_number(&g, 1), capture_number(&g, 2), t.to_string()),
        None => match regex_captures(PREFIX_POSITION_PATTERN, t) {
            Some(g) => (capture_number(&g, 1), capture_number(&g, 2), t.to_string()),
            None => (None, None, t.to_string()),
        },
    }
}

/// The version that the formatter's `-v` output names: the text after the
/// banner, or the whole trimmed output where the banner is missing; nothing
/// where the command failed.
pub open spec fn version_in_output(success: bool, stdout: Seq<char>) -> Option<Seq<char>> {
    let t = trimmed(stdout);
    if !success {
        None
    } else if has_prefix(t, VERSION_BANNER@) {
        Some(t.subrange(VERSION_BANNER@.len() as int, t.len() as int))
    } else {
        Some(t)
    }
}

/// Reads the formatter's version from the outcome of running it with `-v`.
pub fn formatter_version_from_output(success: bool, stdout: &str) -> (r: Option<String>)
    ensures
        match version_in_output(success, stdout@) {
            Some(v) => r is Some && r->0@ == v,
            None => r is None,
        },
{
    if !success {
        return None;
    }
    let t = trim_text(stdout);
    match strip_prefix(t, VERSION_BANNER) {
        Some(v) => Some(v.to_string()),
        None => Some(t.to_string()),
    }
}

impl FormatterStatus {
    /// A formatter found at `path`, of the version it reported.
    pub fn found(path: String, version: Option<String>) -> (r: FormatterStatus)
        ensures
            r.installed,
            r.path == Some(path),
            r.version == version,
            r.latest_version is None,
            !r.has_update,
    {
        FormatterStatus { installed: true, path: Some(path), version, latest_version: None, has_update: false }
    }

    /// No formatter installed.
    pub fn missing() -> (r: FormatterStatus)
        ensures
            !r.installed,
            r.path is None,
            r.version is None,
            r.latest_version is None,
            !r.has_update,
    {
        FormatterStatus { installed: false, path: None, version: None, latest_version: None, has_update: false }
    }
}

/// The status against the published releases: the newest is the first
/// listed, and an update exists where both versions are known and the
/// installed one is older.
pub fn update_status(
    path: Option<String>,
    current_version: Option<String>,
    releases: &Vec<Release>,
) -> (r: FormatterStatus)
    ensures
        r.installed == path is Some,
        r.path == path,
        r.version == current_version,
        releases@.len() == 0 ==> r.latest_version is None,
        releases@.len() > 0 ==> r.latest_version is Some && r.latest_version->0@ == without_v(
            releases@[0].tag_name@,
        ),
        r.has_update == (current_version is Some && releases@.len() > 0 && triple_less(
            version_of(current_version->0@),
            version_of(without_v(releases@[0].tag_name@)),
        )),
{
    let latest = latest_version(releases);
    let has_update = match (&current_version, &latest) {
        (Some(current), Some(newest)) => is_version_less_than(current.as_str(), newest.as_str()),
        _ => false,
    };
    FormatterStatus { installed: path.is_some(), path, version: current_version, latest_version: latest, has_update }
}

/// The result of a formatter run: its output where it succeeded, else the
/// diagnostic read from its error stream.
pub fn format_outcome(success: bool, stdout: String, stderr: &str) -> (r: FormatResult)
    ensures
        r.success == success,
        success ==> r.formatted == Some(stdout) && r.error is None,
        !success ==> r.formatted is None && r.error is Some && ({
            let e = r.error->0;
            let loc = error_location(stderr@);
            e.line == loc.0 && e.column == loc.1 && e.message@ == loc.2
        }),
{
    if success {
        FormatResult { success: true, formatted: Some(stdout), error: None }
    } else {
        let (line, column, message) = parse_error_location(stderr);
        FormatResult { success: false, formatted: None, error: Some(FormatError { message, line, column }) }
    }
}

} // verus!
