//! Where a downloaded interpreter ends up.
use vstd::prelude::*;
use crate::text::{ends_with, has_suffix};

verus! {

/// Whether an asset is a gzipped tarball that must be unpacked.
pub fn is_tarball(asset_name: &str) -> (r: bool)
    ensures
        r == has_suffix(asset_name@, ".tar.gz"@),
{
    ends_with(asset_name, ".tar.gz")
}

/// The path of the interpreter inside an unpacked archive, relative to the
/// directory it was unpacked into: inside the macOS app bundle where there
/// is one, else inside the Linux directory; `None` where neither is there.
pub fn binary_in_archive(has_app_bundle: bool, has_cli_dir: bool) -> (r: Option<&'static str>)
    ensures
        has_app_bundle ==> r is Some && r->0@ == "santa-cli.app/Contents/MacOS/santa-cli"@,
        !has_app_bundle && has_cli_dir ==> r is Some && r->0@ == "santa-cli/bin/santa-cli"@,
        !has_app_bundle && !has_cli_dir ==> r is None,
{
    if has_app_bundle {
        Some("santa-cli.app/Contents/MacOS/santa-cli")
    } else if has_cli_dir {
        Some("santa-cli/bin/santa-cli")
    } else {
        None
    }
}

} // verus!
