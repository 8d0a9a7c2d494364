//! Embedded icon lookup. Icons are not compiled into this build, so every
//! lookup reports that the caller should fall back to an emoji or a file on
//! disk.

use vstd::prelude::*;

verus! {

/// The embedded binary data of a named icon. No icons are embedded in this
/// build, so every name resolves to `None`.
pub fn embedded_icon(name: &str) -> (r: Option<&'static [u8]>)
    ensures
        r is None,
{
    let _ = name;
    None
}

} // verus!
