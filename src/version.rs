//! Release tags and version numbers: `v1.2.3` read as (1, 2, 3).
use vstd::prelude::*;
use crate::text::views;

verus! {

/// A decimal digit.
pub open spec fn is_digit(c: char) -> bool {
    '0' <= c && c <= '9'
}

/// A text of decimal digits only.
pub open spec fn all_digits(s: Seq<char>) -> bool {
    forall|i: int| 0 <= i < s.len() ==> #[trigger] is_digit(s[i])
}

/// The number that a string of decimal digits writes.
pub open spec fn digits_value(s: Seq<char>) -> nat
    decreases s.len(),
{
    if s.len() == 0 {
        0
    } else {
        digits_value(s.drop_last()) * 10 + ((s.last() as u32 - '0' as u32) as nat)
    }
}

/// What `u32::from_str` makes of a text: an optional `+`, then one or more
/// decimal digits whose value fits.
pub open spec fn parsed_u32(s: Seq<char>) -> Option<u32> {
    let d = if s.len() > 0 && s[0] == '+' { s.drop_first() } else { s };
    if d.len() > 0 && all_digits(d) && digits_value(d) <= u32::MAX {
        Some(digits_value(d) as u32)
    } else {
        None
    }
}

/// The pieces of a text between dots, as `str::split('.')` gives them.
pub open spec fn split_dots(s: Seq<char>) -> Seq<Seq<char>>
    decreases s.len(),
{
    if s.len() == 0 {
        seq![Seq::empty()]
    } else {
        let prev = split_dots(s.drop_last());
        if s.last() == '.' {
            prev.push(Seq::empty())
        } else {
            prev.update(prev.len() - 1, prev.last().push(s.last()))
        }
    }
}

/// A tag without its leading `v`, if it has one.
pub open spec fn without_v(tag: Seq<char>) -> Seq<char> {
    if tag.len() > 0 && tag[0] == 'v' {
        tag.drop_first()
    } else {
        tag
    }
}

/// The `k`-th number of a tag; 0 where it is missing or not a number.
pub open spec fn version_part(tag: Seq<char>, k: int) -> u32 {
    let parts = split_dots(without_v(tag));
    if k < parts.len() {
        match parsed_u32(parts[k]) {
            Some(n) => n,
            None => 0,
        }
    } else {
        0
    }
}

/// The three numbers of a tag.
pub open spec fn version_of(tag: Seq<char>) -> (u32, u32, u32) {
    (version_part(tag, 0), version_part(tag, 1), version_part(tag, 2))
}

/// Lexicographic order on version triples.
pub open spec fn triple_less(a: (u32, u32, u32), b: (u32, u32, u32)) -> bool {
    a.0 < b.0 || (a.0 == b.0 && (a.1 < b.1 || (a.1 == b.1 && a.2 < b.2)))
}

/// Whether the major number of a tag reads as a number of at least 1.
pub open spec fn at_least_first_major(tag: Seq<char>) -> bool {
    match parsed_u32(split_dots(without_v(tag))[0]) {
        Some(m) => m >= 1,
        None => false,
    }
}

proof fn lemma_split_dots_nonempty(s: Seq<char>)
    ensures
        split_dots(s).len() >= 1,
    decreases s.len(),
{
    if s.len() > 0 {
        lemma_split_dots_nonempty(s.drop_last());
    }
}

proof fn lemma_digits_value_grows(s: Seq<char>, i: int)
    requires
        0 <= i <= s.len(),
        all_digits(s),
    ensures
        digits_value(s.subrange(0, i)) <= digits_value(s),
    decreases s.len() - i,
{
    if i < s.len() {
        lemma_digits_value_grows(s, i + 1);
        let p = s.subrange(0, i + 1);
        assert(p.drop_last() =~= s.subrange(0, i));
        assert(is_digit(s[i]));
    } else {
        assert(s.subrange(0, i) =~= s);
    }
}

/// Reads a decimal number as `u32::from_str` does.
pub fn parse_u32(s: &str) -> (r: Option<u32>)
    ensures
        r == parsed_u32(s@),
{
    let n = s.unicode_len();
    let mut start: usize = 0;
    if n > 0 && s.get_char(0) == '+' {
        start = 1;
    }
    let ghost d = if s@.len() > 0 && s@[0] == '+' { s@.drop_first() } else { s@ };
    assert(d =~= s@.subrange(start as int, n as int));
    if start == n {
        return None;
    }
    let mut value: u64 = 0;
    let mut i: usize = start;
    while i < n
        invariant
            n == s@.len(),
            start <= i <= n,
            d == s@.subrange(start as int, n as int),
            d == (if s@.len() > 0 && s@[0] == '+' { s@.drop_first() } else { s@ }),
            all_digits(s@.subrange(start as int, i as int)),
            value as nat == digits_value(s@.subrange(start as int, i as int)),
            value <= u32::MAX,
        decreases n - i,
    {
        let c = s.get_char(i);
        assert(d[i - start] == c);
        if c < '0' || c > '9' {
            assert(!is_digit(d[i - start]));
            return None;
        }
        let ghost p = s@.subrange(start as int, i + 1);
        assert(p.drop_last() =~= s@.subrange(start as int, i as int));
        assert(p.last() == c);
        assert(digits_value(p) == digits_value(p.drop_last()) * 10 + ((c as u32 - '0' as u32) as nat));
        value = value * 10 + ((c as u32 - '0' as u32) as u64);
        assert(all_digits(p)) by {
            assert forall|j: int| 0 <= j < p.len() implies #[trigger] is_digit(p[j]) by {
                if j < p.len() - 1 {
                    assert(p[j] == s@.subrange(start as int, i as int)[j]);
                }
            }
        }
        i = i + 1;
        if value > 4294967295 {
            proof {
                if all_digits(d) {
                    assert(s@.subrange(start as int, i as int) =~= d.subrange(0, i - start));
                    lemma_digits_value_grows(d, i - start);
                }
            }
            return None;
        }
    }
    Some(value as u32)
}

/// The pieces of a text between dots.
pub fn split_on_dots(s: &str) -> (r: Vec<String>)
    ensures
        views(r@) == split_dots(s@),
{
    let n = s.unicode_len();
    let mut pieces: Vec<String> = Vec::new();
    let mut start: usize = 0;
    let mut i: usize = 0;
    assert(s@.subrange(0, 0) =~= Seq::<char>::empty());
    assert(views(pieces@) =~= Seq::<Seq<char>>::empty());
    assert(views(pieces@) + seq![s@.subrange(0, 0)] =~= split_dots(s@.subrange(0, 0)));
    while i < n
        invariant
            n == s@.len(),
            start <= i <= n,
            views(pieces@) + seq![s@.subrange(start as int, i as int)]
                == split_dots(s@.subrange(0, i as int)),
        decreases n - i,
    {
        let c = s.get_char(i);
        let ghost prev_pieces = views(pieces@);
        proof {
            assert(s@.subrange(0, i + 1).drop_last() =~= s@.subrange(0, i as int));
            lemma_split_dots_nonempty(s@.subrange(0, i as int));
        }
        if c == '.' {
            let piece = s.substring_char(start, i).to_string();
            let ghost before = pieces@;
            pieces.push(piece);
            assert(views(pieces@) =~= prev_pieces.push(s@.subrange(start as int, i as int))) by {
                assert(pieces@ == before.push(piece));
                assert forall|j: int| 0 <= j < pieces@.len() implies #[trigger] views(pieces@)[j]
                    == prev_pieces.push(s@.subrange(start as int, i as int))[j] by {
                    if j < before.len() {
                        assert(pieces@[j] == before[j]);
                    }
                }
            }
            start = i + 1;
            assert(s@.subrange(0, i + 1).last() == c);
            assert(s@.subrange(start as int, i + 1) =~= Seq::<char>::empty());
            assert(views(pieces@) + seq![s@.subrange(start as int, i + 1)]
                =~= split_dots(s@.subrange(0, i + 1)));
        } else {
            assert(s@.subrange(start as int, i + 1) =~= s@.subrange(start as int, i as int).push(c));
            assert(views(pieces@) + seq![s@.subrange(start as int, i + 1)]
                =~= split_dots(s@.subrange(0, i + 1)));
        }
        i = i + 1;
    }
    let last = s.substring_char(start, n).to_string();
    let ghost before = pieces@;
    pieces.push(last);
    assert(views(pieces@) =~= views(before).push(s@.subrange(start as int, n as int))) by {
        assert forall|j: int| 0 <= j < pieces@.len() implies #[trigger] views(pieces@)[j]
            == views(before).push(s@.subrange(start as int, n as int))[j] by {
            if j < before.len() {
                assert(pieces@[j] == before[j]);
            }
        }
    }
    assert(s@.subrange(0, n as int) =~= s@);
    assert(views(pieces@) =~= split_dots(s@));
    pieces
}

/// A tag without its leading `v`.
pub fn strip_v(tag: &str) -> (r: &str)
    ensures
        r@ == without_v(tag@),
{
    let n = tag.unicode_len();
    if n > 0 && tag.get_char(0) == 'v' {
        let r = tag.substring_char(1, n);
        assert(r@ =~= tag@.drop_first());
        r
    } else {
        tag
    }
}

/// Reads a version tag (`v1.2.3` or `1.2.3`) as its three numbers; a number
/// that is missing or unreadable counts as 0.
pub fn parse_version(tag: &str) -> (r: (u32, u32, u32))
    ensures
        r == version_of(tag@),
{
    let parts = split_on_dots(strip_v(tag));
    let ghost sp = split_dots(without_v(tag@));
    assert(parts@.len() == sp.len());
    let mut out: [u32; 3] = [0, 0, 0];
    let mut k: usize = 0;
    while k < 3
        invariant
            k <= 3,
            views(parts@) == sp,
            sp == split_dots(without_v(tag@)),
            forall|j: int| 0 <= j < k ==> out@[j] == version_part(tag@, j),
        decreases 3 - k,
    {
        if k < parts.len() {
            assert(parts@[k as int]@ == sp[k as int]);
            out[k] = match parse_u32(parts[k].as_str()) {
                Some(n) => n,
                None => 0,
            };
        } else {
            out[k] = 0;
        }
        k = k + 1;
    }
    (out[0], out[1], out[2])
}

/// Whether the first version comes before the second.
pub fn is_version_less_than(v1: &str, v2: &str) -> (r: bool)
    ensures
        r == triple_less(version_of(v1@), version_of(v2@)),
{
    let (maj1, min1, pat1) = parse_version(v1);
    let (maj2, min2, pat2) = parse_version(v2);
    maj1 < maj2 || (maj1 == maj2 && (min1 < min2 || (min1 == min2 && pat1 < pat2)))
}

/// Whether a release tag is of major version 1 or later.
pub fn is_version_gte_1_0_0(tag: &str) -> (r: bool)
    ensures
        r == at_least_first_major(tag@),
{
    let parts = split_on_dots(strip_v(tag));
    proof {
        lemma_split_dots_nonempty(without_v(tag@));
    }
    assert(parts@[0]@ == split_dots(without_v(tag@))[0]);
    match parse_u32(parts[0].as_str()) {
        Some(m) => m >= 1,
        None => false,
    }
}

} // verus!
