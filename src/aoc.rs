//! Puzzle pages: the title and the description read out of a page's HTML.
use vstd::prelude::*;
use crate::text::{join_with, joined, replace_text, replaced, trim_text, trimmed, views};

verus! {

/// A puzzle, its description as HTML, and the personal input if fetched.
#[derive(Debug, Clone, PartialEq)]
pub struct AocPuzzle {
    pub year: u32,
    pub day: u32,
    pub title: String,
    pub description_html: String,
    pub input: Option<String>,
}

/// The title given to a page that has no heading.
pub const DEFAULT_TITLE: &'static str = "Advent of Code Puzzle";

/// What stands between two description articles.
pub const ARTICLE_SEPARATOR: &'static str = "\n<hr/>\n";

/// The texts of the elements that a CSS selector picks from a page, as
/// `scraper` gives them; `None` where the selector is invalid.
pub uninterp spec fn selected_texts(html: Seq<char>, selector: Seq<char>) -> Option<Seq<Seq<char>>>;

/// The inner HTML of the elements that a CSS selector picks from a page, as
/// `scraper` gives it; `None` where the selector is invalid.
pub uninterp spec fn selected_inner_html(html: Seq<char>, selector: Seq<char>) -> Option<Seq<Seq<char>>>;

/// Relies on `scraper`'s `Html::parse_document`, `Selector::parse`,
/// `Html::select` and `ElementRef::text`: the text of each picked element,
/// in document order; the outcome depends on the page and selector alone.
#[verifier::external_body]
fn select_texts(html: &str, selector: &str) -> (r: Option<Vec<String>>)
    ensures
        match r {
            Some(v) => selected_texts(html@, selector@) == Some(views(v@)),
            None => selected_texts(html@, selector@) is None,
        },
{
    let sel = scraper::Selector::parse(selector).ok()?;
    let doc = scraper::Html::parse_document(html);
    Some(doc.select(&sel).map(|e| e.text().collect::<String>()).collect())
}

/// Relies on `scraper`'s `Html::parse_document`, `Selector::parse`,
/// `Html::select` and `ElementRef::inner_html`: the inner HTML of each
/// picked element, in document order; the outcome depends on the page and
/// selector alone.
#[verifier::external_body]
fn select_inner_html(html: &str, selector: &str) -> (r: Option<Vec<String>>)
    ensures
        match r {
            Some(v) => selected_inner_html(html@, selector@) == Some(views(v@)),
            None => selected_inner_html(html@, selector@) is None,
        },
{
    let sel = scraper::Selector::parse(selector).ok()?;
    let doc = scraper::Html::parse_document(html);
    Some(doc.select(&sel).map(|e| e.inner_html()).collect())
}

/// The characters trimmed from around a title.
pub open spec fn is_dash_or_space(c: char) -> bool {
    c == '-' || c == ' '
}

/// A text without its leading dashes and spaces.
pub open spec fn strip_front(s: Seq<char>) -> Seq<char>
    decreases s.len(),
{
    if s.len() > 0 && is_dash_or_space(s[0]) {
        strip_front(s.drop_first())
    } else {
        s
    }
}

/// A text without its trailing dashes and spaces.
pub open spec fn strip_back(s: Seq<char>) -> Seq<char>
    decreases s.len(),
{
    if s.len() > 0 && is_dash_or_space(s.last()) {
        strip_back(s.drop_last())
    } else {
        s
    }
}

/// The title of a page: its first `h2` heading without the dashes and
/// spaces round it, or the default title.
pub open spec fn title_of(html: Seq<char>) -> Seq<char> {
    match selected_texts(html, "h2"@) {
        Some(ts) => if ts.len() > 0 {
            strip_back(strip_front(ts[0]))
        } else {
            DEFAULT_TITLE@
        },
        None => DEFAULT_TITLE@,
    }
}

/// An article with its site-relative links made absolute.
pub open spec fn absolute_links(s: Seq<char>) -> Seq<char> {
    replaced(
        replaced(s, "href=\"/"@, "href=\"https://adventofcode.com/"@),
        "href='/"@,
        "href='https://adventofcode.com/"@,
    )
}

/// Each article with its links made absolute.
pub open spec fn linkified(parts: Seq<Seq<char>>) -> Seq<Seq<char>> {
    parts.map_values(|p: Seq<char>| absolute_links(p))
}

/// The description of a page: its description articles, links made
/// absolute, joined by a rule.
pub open spec fn description_of(html: Seq<char>) -> Seq<char> {
    match selected_inner_html(html, "article.day-desc"@) {
        Some(parts) => joined(linkified(parts), ARTICLE_SEPARATOR@),
        None => Seq::empty(),
    }
}

/// A text without the dashes and spaces round it.
pub fn trim_dashes(s: &str) -> (r: String)
    ensures
        r@ == strip_back(strip_front(s@)),
{
    let n = s.unicode_len();
    let mut i: usize = 0;
    assert(s@.subrange(0, n as int) =~= s@);
    while i < n && (s.get_char(i) == '-' || s.get_char(i) == ' ')
        invariant
            n == s@.len(),
            i <= n,
            strip_front(s@) == strip_front(s@.subrange(i as int, n as int)),
        decreases n - i,
    {
        assert(s@.subrange(i as int, n as int).drop_first() =~= s@.subrange(i + 1, n as int));
        i = i + 1;
    }
    assert(strip_front(s@) == s@.subrange(i as int, n as int));
    let mut j: usize = n;
    while j > i && (s.get_char(j - 1) == '-' || s.get_char(j - 1) == ' ')
        invariant
            n == s@.len(),
            i <= j <= n,
            strip_back(s@.subrange(i as int, n as int)) == strip_back(s@.subrange(i as int, j as int)),
        decreases j - i,
    {
        assert(s@.subrange(i as int, j as int).drop_last() =~= s@.subrange(i as int, j - 1));
        j = j - 1;
    }
    s.substring_char(i, j).to_string()
}

/// The title of a puzzle page.
pub fn extract_title(html: &str) -> (r: String)
    ensures
        r@ == title_of(html@),
{
    match select_texts(html, "h2") {
        Some(ts) => if ts.len() > 0 {
            trim_dashes(ts[0].as_str())
        } else {
            DEFAULT_TITLE.to_string()
        },
        None => DEFAULT_TITLE.to_string(),
    }
}

/// Description articles, links made absolute, joined by a rule.
pub fn join_articles(parts: &Vec<String>) -> (r: String)
    ensures
        r@ == joined(linkified(views(parts@)), ARTICLE_SEPARATOR@),
{
    let ghost src = views(parts@);
    let mut fixed: Vec<String> = Vec::new();
    let mut i: usize = 0;
    while i < parts.len()
        invariant
            i <= parts@.len(),
            src == views(parts@),
            fixed@.len() == i,
            views(fixed@) == linkified(src.subrange(0, i as int)),
        decreases parts@.len() - i,
    {
        proof {
            reveal_strlit("href=\"/");
            reveal_strlit("href='/");
        }
        let once = replace_text(parts[i].as_str(), "href=\"/", "href=\"https://adventofcode.com/");
        let twice = replace_text(once.as_str(), "href='/", "href='https://adventofcode.com/");
        let ghost prev = fixed@;
        assert(twice@ == absolute_links(src[i as int]));
        fixed.push(twice);
        assert forall|k: int| 0 <= k < i + 1 implies #[trigger] views(fixed@)[k] == linkified(
            src.subrange(0, i + 1),
        )[k] by {
            if k < i {
                assert(fixed@[k] == prev[k]);
                assert(views(prev)[k] == linkified(src.subrange(0, i as int))[k]);
            }
        }
        assert(views(fixed@) =~= linkified(src.subrange(0, i + 1)));
        i = i + 1;
    }
    assert(src.subrange(0, parts@.len() as int) =~= src);
    join_with(&fixed, ARTICLE_SEPARATOR)
}

/// The description of a puzzle page, as HTML.
pub fn extract_description(html: &str) -> (r: String)
    ensures
        r@ == description_of(html@),
{
    match select_inner_html(html, "article.day-desc") {
        Some(parts) => join_articles(&parts),
        None => String::new(),
    }
}

/// Whether a session token is set to something other than white space: only
/// then is the personal input fetched.
pub fn has_session_token(token: &Option<String>) -> (r: bool)
    ensures
        r == (token is Some && trimmed(token->0@).len() > 0),
{
    match token {
        Some(t) => !trim_text(t.as_str()).is_empty(),
        None => false,
    }
}

} // verus!
