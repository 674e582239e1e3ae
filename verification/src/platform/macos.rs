//! macOS: a disk image that the user installs from.

use vstd::prelude::*;

verus! {

/// What stands in an asset's name between the app's name and the suffix, and its extension.
pub open spec fn name_parts() -> (Seq<char>, Seq<char>) {
    (""@, "dmg"@)
}

/// There is only one kind of asset: a disk image.
pub fn asset_name_parts() -> (parts: (&'static str, &'static str))
    ensures
        (parts.0@, parts.1@) == name_parts(),
{
    ("", "dmg")
}

} // verus!
