//! Published releases of an interpreter or of the formatter.
use vstd::prelude::*;
use crate::version::{at_least_first_major, is_version_gte_1_0_0, strip_v, without_v};

verus! {

/// A downloadable file of a release.
#[derive(Debug, Clone, PartialEq)]
pub struct Asset {
    pub name: String,
    pub browser_download_url: String,
    pub size: u64,
}

/// A release, as the hosting service lists it.
#[derive(Debug, Clone, PartialEq)]
pub struct Release {
    pub tag_name: String,
    pub name: String,
    pub published_at: String,
    pub assets: Vec<Asset>,
}

/// A release of major version 1 or later.
pub open spec fn is_supported(r: Release) -> bool {
    at_least_first_major(r.tag_name@)
}

/// The releases among `rs` of major version 1 or later, in order.
pub open spec fn supported(rs: Seq<Release>) -> Seq<Release> {
    rs.filter(|x: Release| is_supported(x))
}

/// The releases of major version 1 or later, the first that speak the line
/// protocol, in their order.
pub fn supported_releases(releases: Vec<Release>) -> (r: Vec<Release>)
    ensures
        r@ == supported(releases@),
{
    let ghost all = releases@;
    let mut rest = releases;
    let mut out: Vec<Release> = Vec::new();
    let mut i: usize = 0;
    let n = rest.len();
    while i < n
        invariant
            n == all.len(),
            i <= n,
            rest@ == all.subrange(i as int, n as int),
            out@ == supported(all.subrange(0, i as int)),
        decreases n - i,
    {
        let item = rest.remove(0);
        proof {
            assert(all.subrange(0, i + 1).drop_last() =~= all.subrange(0, i as int));
            assert(item == all[i as int]);
            assert(all.subrange(0, i + 1).last() == item);
            reveal(Seq::filter);
            assert(supported(all.subrange(0, i + 1)) == if is_supported(item) {
                supported(all.subrange(0, i as int)).push(item)
            } else {
                supported(all.subrange(0, i as int))
            });
        }
        if is_version_gte_1_0_0(item.tag_name.as_str()) {
            out.push(item);
        }
        assert(rest@ =~= all.subrange(i + 1, n as int));
        i = i + 1;
    }
    assert(all.subrange(0, n as int) =~= all);
    out
}

/// The version that the newest release carries: the first listed tag,
/// without its leading `v`.
pub fn latest_version(releases: &Vec<Release>) -> (r: Option<String>)
    ensures
        releases@.len() == 0 ==> r is None,
        releases@.len() > 0 ==> r is Some && r->0@ == without_v(releases@[0].tag_name@),
{
    if releases.len() == 0 {
        None
    } else {
        Some(strip_v(releases[0].tag_name.as_str()).to_string())
    }
}

} // verus!
