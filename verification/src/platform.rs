//! What the wallet asks of the platform that it runs on.

use vstd::prelude::*;
use vstd::string::StringSliceAdditionalSpecFns;

verus! {

/// Whether the UTF-8 encoding of a path is that of an absolute path: it starts with a slash.
pub open spec fn is_absolute_path(path: Seq<u8>) -> bool {
    path.len() > 0 && path[0] == 0x2f
}

/// Whether a path can be the directory in which the wallet keeps its data: it must be an
/// absolute path, so that it means the same wherever the wallet is started from.
pub fn is_storage_path(path: &str) -> (accepted: bool)
    ensures
        accepted == is_absolute_path(path.spec_bytes()),
{
    let bytes = path.as_bytes();
    bytes.len() > 0 && bytes[0] == 0x2f
}

} // verus!
