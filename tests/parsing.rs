use santa_workbench::aoc::{extract_description, extract_title, has_session_token, join_articles, trim_dashes, AocPuzzle};
use santa_workbench::config::{get_name_for_codename, get_repo_for_codename};
use santa_workbench::detect::{identity_for, parse_implementation_version, parse_reindeer_version};
use santa_workbench::formatter::{
    capture_number, format_outcome, formatter_version_from_output, parse_error_location, update_status, FormatError, FormatterStatus,
};
use santa_workbench::install::{binary_in_archive, is_tarball};
use santa_workbench::releases::{latest_version, supported_releases, Asset, Release};
use santa_workbench::state::{AppState, Reindeer, Settings};
use santa_workbench::text::{contains, ends_with, join_with, strip_prefix, text_eq};
use santa_workbench::version::{is_version_gte_1_0_0, is_version_less_than, parse_u32, parse_version, split_on_dots, strip_v};

fn release(tag: &str) -> Release {
    Release {
        tag_name: tag.to_string(),
        name: format!("Release {}", tag),
        published_at: "2024-12-01T00:00:00Z".to_string(),
        assets: vec![Asset { name: "cli".to_string(), browser_download_url: "https://x/cli".to_string(), size: 10 }],
    }
}

#[test]
fn u32_parsing_follows_from_str() {
    assert_eq!(parse_u32("0"), Some(0));
    assert_eq!(parse_u32("42"), Some(42));
    assert_eq!(parse_u32("+7"), Some(7));
    assert_eq!(parse_u32("4294967295"), Some(u32::MAX));
    assert_eq!(parse_u32("4294967296"), None);
    assert_eq!(parse_u32("99999999999x"), None);
    assert_eq!(parse_u32(""), None);
    assert_eq!(parse_u32("+"), None);
    assert_eq!(parse_u32("-1"), None);
    assert_eq!(parse_u32("1a"), None);
    assert_eq!(parse_u32(" 1"), None);
}

#[test]
fn split_and_strip() {
    assert_eq!(split_on_dots("1.2.3"), vec!["1", "2", "3"]);
    assert_eq!(split_on_dots(""), vec![""]);
    assert_eq!(split_on_dots("a..b."), vec!["a", "", "b", ""]);
    assert_eq!(strip_v("v1.0"), "1.0");
    assert_eq!(strip_v("1.0"), "1.0");
    assert_eq!(strip_v("vv1"), "v1");
}

#[test]
fn version_triples() {
    assert_eq!(parse_version("v1.2.3"), (1, 2, 3));
    assert_eq!(parse_version("1.2.3"), (1, 2, 3));
    assert_eq!(parse_version("1.2"), (1, 2, 0));
    assert_eq!(parse_version("x.5.y"), (0, 5, 0));
    assert_eq!(parse_version(""), (0, 0, 0));
    assert_eq!(parse_version("2.0.1-beta"), (2, 0, 0));
    assert_eq!(parse_version("1.2.3.4"), (1, 2, 3));
}

#[test]
fn version_order() {
    assert!(is_version_less_than("0.9.9", "v1.0.0"));
    assert!(is_version_less_than("1.2.3", "1.2.4"));
    assert!(is_version_less_than("1.2.9", "1.3.0"));
    assert!(!is_version_less_than("1.2.3", "1.2.3"));
    assert!(!is_version_less_than("2.0.0", "1.9.9"));
}

#[test]
fn major_version_gate() {
    assert!(is_version_gte_1_0_0("v1.0.0"));
    assert!(is_version_gte_1_0_0("1.0.0"));
    assert!(is_version_gte_1_0_0("v12.3"));
    assert!(!is_version_gte_1_0_0("v0.9.0"));
    assert!(!is_version_gte_1_0_0("0.0.13"));
    assert!(!is_version_gte_1_0_0("nightly"));
    assert!(!is_version_gte_1_0_0(""));
}

#[test]
fn codename_lookup() {
    assert_eq!(get_repo_for_codename("comet"), Some("eddmann/santa-lang-comet"));
    assert_eq!(get_repo_for_codename("vixen"), Some("eddmann/santa-lang-vixen"));
    assert_eq!(get_name_for_codename("donner"), Some("Donner"));
    assert_eq!(get_name_for_codename("blitzen"), Some("Blitzen"));
    assert_eq!(get_repo_for_codename("rudolph"), None);
    assert_eq!(get_name_for_codename("Comet"), None);
}

#[test]
fn error_location_forms() {
    assert_eq!(
        parse_error_location("  Error at line 5, column 12: unexpected token\n"),
        (Some(5), Some(12), "Error at line 5, column 12: unexpected token".to_string())
    );
    assert_eq!(parse_error_location("line 3 column 4"), (Some(3), Some(4), "line 3 column 4".to_string()));
    assert_eq!(parse_error_location("5:12: bad"), (Some(5), Some(12), "5:12: bad".to_string()));
    assert_eq!(parse_error_location("oops\n"), (None, None, "oops".to_string()));
    assert_eq!(
        parse_error_location("line 99999999999, column 1"),
        (None, Some(1), "line 99999999999, column 1".to_string())
    );
}

#[test]
fn formatter_version_output() {
    assert_eq!(formatter_version_from_output(true, "santa-lang Tinsel 1.4.0\n"), Some("1.4.0".to_string()));
    assert_eq!(formatter_version_from_output(true, "  0.3.1 \n"), Some("0.3.1".to_string()));
    assert_eq!(formatter_version_from_output(false, "santa-lang Tinsel 1.4.0"), None);
}

#[test]
fn formatter_status_and_update() {
    let s = FormatterStatus::found("/f".to_string(), Some("1.0.0".to_string()));
    assert!(s.installed && !s.has_update);
    assert_eq!(s.path, Some("/f".to_string()));
    let m = FormatterStatus::missing();
    assert!(!m.installed && m.path.is_none() && m.version.is_none());

    let rels = vec![release("v1.2.0"), release("v1.1.0")];
    let u = update_status(Some("/f".to_string()), Some("1.1.0".to_string()), &rels);
    assert!(u.installed);
    assert_eq!(u.latest_version, Some("1.2.0".to_string()));
    assert!(u.has_update);
    let same = update_status(Some("/f".to_string()), Some("1.2.0".to_string()), &rels);
    assert!(!same.has_update);
    let none = update_status(None, None, &rels);
    assert!(!none.installed && !none.has_update);
    assert_eq!(none.latest_version, Some("1.2.0".to_string()));
    let empty = update_status(Some("/f".to_string()), Some("1.0.0".to_string()), &Vec::new());
    assert_eq!(empty.latest_version, None);
    assert!(!empty.has_update);
}

#[test]
fn format_outcomes() {
    let ok = format_outcome(true, "x = 1\n".to_string(), "");
    assert!(ok.success);
    assert_eq!(ok.formatted, Some("x = 1\n".to_string()));
    assert!(ok.error.is_none());
    let bad = format_outcome(false, String::new(), "2:7: unexpected\n");
    assert!(!bad.success && bad.formatted.is_none());
    assert_eq!(bad.error, Some(FormatError { message: "2:7: unexpected".to_string(), line: Some(2), column: Some(7) }));
}

#[test]
fn release_filter_and_latest() {
    let rels = vec![release("v1.1.0"), release("v0.9.0"), release("1.0.0"), release("beta")];
    let kept = supported_releases(rels.clone());
    let tags: Vec<&str> = kept.iter().map(|r| r.tag_name.as_str()).collect();
    assert_eq!(tags, vec!["v1.1.0", "1.0.0"]);
    assert_eq!(kept[0], rels[0]);
    assert!(supported_releases(Vec::new()).is_empty());
    assert_eq!(latest_version(&rels), Some("1.1.0".to_string()));
    assert_eq!(latest_version(&Vec::new()), None);
}

#[test]
fn reindeer_version_output() {
    let ok = |a: &str, b: &str, c: &str| Ok((a.to_string(), b.to_string(), c.to_string()));
    assert_eq!(parse_reindeer_version("santa-lang Comet 0.0.13\n"), ok("Comet", "comet", "0.0.13"));
    assert_eq!(parse_reindeer_version("santa-lang-blitzen 1.0.2"), ok("Blitzen", "blitzen", "1.0.2"));
    assert_eq!(parse_reindeer_version("Dasher 1.1.0"), ok("Dasher", "dasher", "1.1.0"));
    assert_eq!(parse_reindeer_version("  DONNER   2.0.0 extra"), ok("Donner", "donner", "2.0.0"));
    assert_eq!(parse_reindeer_version("santa-lang Prancer 1.0.0"), ok("Prancer", "prancer", "1.0.0"));
    assert_eq!(parse_reindeer_version("mystery 3.0"), ok("Unknown", "unknown", "3.0"));
    assert_eq!(parse_reindeer_version("santa-lang 1.0"), ok("Unknown", "unknown", "1.0"));
    assert!(parse_reindeer_version("comet").is_err());
    assert!(parse_reindeer_version("").is_err());
}

#[test]
fn puzzle_page_parts() {
    let page = "<html><body><article class=\"day-desc\"><h2>--- Day 1: Trebuchet?! ---</h2>\
        <p>See <a href=\"/2023/about\">this</a> and <a href='/x'>that</a>.</p></article>\
        <article class=\"day-desc\"><p>Part two</p></article></body></html>";
    assert_eq!(extract_title(page), "Day 1: Trebuchet?!");
    let d = extract_description(page);
    assert!(d.contains("href=\"https://adventofcode.com/2023/about\""));
    assert!(d.contains("href=\"https://adventofcode.com/x\""));
    assert!(d.contains("\n<hr/>\n"));
    assert!(d.ends_with("<p>Part two</p>"));
    assert_eq!(extract_title("<p>no heading</p>"), "Advent of Code Puzzle");
    assert_eq!(extract_description("<p>nothing</p>"), "");
    assert_eq!(trim_dashes("--- a - b ---"), "a - b");
    assert_eq!(trim_dashes("- -"), "");
    let p = AocPuzzle { year: 2023, day: 1, title: "t".to_string(), description_html: d, input: None };
    assert_eq!(p.day, 1);
}

#[test]
fn session_token_presence() {
    assert!(has_session_token(&Some("abc".to_string())));
    assert!(!has_session_token(&Some("  \n".to_string())));
    assert!(!has_session_token(&None));
}

#[test]
fn archive_layout() {
    assert!(is_tarball("santa-cli-linux.tar.gz"));
    assert!(!is_tarball("santa-cli.tar"));
    assert!(!is_tarball("gz"));
    assert_eq!(binary_in_archive(true, true), Some("santa-cli.app/Contents/MacOS/santa-cli"));
    assert_eq!(binary_in_archive(false, true), Some("santa-cli/bin/santa-cli"));
    assert_eq!(binary_in_archive(false, false), None);
}

#[test]
fn text_helpers() {
    assert!(text_eq("abc", "abc"));
    assert!(!text_eq("abc", "abd"));
    assert!(!text_eq("ab", "abc"));
    assert_eq!(strip_prefix("santa-lang Tinsel 1", "santa-lang Tinsel "), Some("1"));
    assert_eq!(strip_prefix("santa", "santa-lang"), None);
    assert!(ends_with("a.tar.gz", ".gz"));
    assert!(contains("santa-lang-comet", "comet"));
    assert!(contains("x", ""));
    assert!(!contains("comet", "comets"));
    assert_eq!(join_with(&vec!["a".to_string(), "b".to_string(), "c".to_string()], ", "), "a, b, c");
    assert_eq!(join_with(&Vec::new(), ", "), "");
}

#[test]
fn state_tables() {
    let mut st = AppState::initial();
    assert_eq!(st.settings.theme, "dark");
    assert!(st.settings.aoc_session_token.is_none() && !st.settings.debug_mode);
    let r = Reindeer {
        id: "r1".to_string(),
        name: "Comet".to_string(),
        codename: "comet".to_string(),
        version: "1.0.0".to_string(),
        path: "/bin/comet".to_string(),
    };
    st.add_reindeer(r.clone());
    assert_eq!(st.reindeer.get(&"r1".to_string()), Some(&r));
    assert!(st.launch_target(&"nope".to_string()).is_err());
    st.settings.aoc_session_token = Some("SECRET-REDACTED".to_string());
    st.settings.debug_mode = true;
    let t = st.launch_target(&"r1".to_string()).unwrap();
    assert_eq!(t.executable, "/bin/comet");
    assert_eq!(t.session_token, Some("SECRET-REDACTED".to_string()));
    assert!(t.debug);
    assert_eq!(st.reindeer.values().len(), 1);
    st.remove_reindeer(&"r1".to_string());
    st.remove_reindeer(&"r1".to_string());
    assert!(st.reindeer.get(&"r1".to_string()).is_none());
    let s = Settings::initial();
    let st2 = AppState::with_settings(s.clone());
    assert_eq!(st2.settings, s);
}

#[test]
fn implementation_version_output() {
    let ok = |a: &str, b: &str, c: &str| Ok((a.to_string(), b.to_string(), c.to_string()));
    assert_eq!(parse_implementation_version("santa-lang-comet 0.0.13"), ok("Comet", "comet", "0.0.13"));
    assert_eq!(parse_implementation_version("Vixen 1.0.0"), ok("Vixen", "vixen", "1.0.0"));
    assert_eq!(parse_implementation_version("santa-lang Comet 0.0.13"), ok("Unknown", "unknown", "Comet"));
    assert!(parse_implementation_version("vixen").is_err());
    assert_eq!(parse_reindeer_version("Vixen 1.0.0"), ok("Unknown", "unknown", "1.0.0"));
}

#[test]
fn identities() {
    assert_eq!(identity_for("santa-lang-dasher"), ("Dasher", "dasher"));
    assert_eq!(identity_for("cometblitzen"), ("Comet", "comet"));
    assert_eq!(identity_for("rudolph"), ("Unknown", "unknown"));
}

#[test]
fn capture_groups_to_numbers() {
    let groups = vec![Some("line 3, column 4".to_string()), Some("3".to_string()), None];
    assert_eq!(capture_number(&groups, 1), Some(3));
    assert_eq!(capture_number(&groups, 2), None);
    assert_eq!(capture_number(&groups, 7), None);
    assert_eq!(capture_number(&groups, 0), None);
}

#[test]
fn articles_joined_with_absolute_links() {
    let parts = vec!["<a href=\"/a\">x</a>".to_string(), "<a href='/b'>y</a><a href=\"https://e/\">z</a>".to_string()];
    assert_eq!(
        join_articles(&parts),
        "<a href=\"https://adventofcode.com/a\">x</a>\n<hr/>\n<a href='https://adventofcode.com/b'>y</a><a href=\"https://e/\">z</a>"
    );
    assert_eq!(join_articles(&Vec::new()), "");
}
