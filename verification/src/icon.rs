//! Where the brand icon is cached, so the dialog backends that accept a
//! custom icon — osascript on macOS, zenity on Linux — can point at it.
//! Writing the file is the driver's part.

use vstd::prelude::*;
use vstd::string::*;
use crate::text::{owned, strings_view};

verus! {

/// The path components of the cache directory: `$XDG_CACHE_HOME/vudo` when
/// that variable is set and not empty, else `$HOME/.cache/vudo`; `None`
/// means the system's temporary directory.
pub open spec fn cache_parts(xdg: Option<Seq<char>>, home: Option<Seq<char>>) -> Option<
    Seq<Seq<char>>,
> {
    match xdg {
        Some(x) if x.len() > 0 => Some(seq![x, "vudo"@]),
        _ => match home {
            Some(h) => Some(seq![h, ".cache"@, "vudo"@]),
            None => None,
        },
    }
}

/// The cache directory from `XDG_CACHE_HOME` and `HOME` (each `None` when
/// unset or not Unicode), as path components to join.
pub fn cache_dir(xdg: Option<&str>, home: Option<&str>) -> (r: Option<Vec<String>>)
    ensures
        r matches Some(parts) ==> cache_parts(crate::unix::view_opt(xdg), crate::unix::view_opt(home))
            == Some(strings_view(parts@)),
        r is None ==> cache_parts(crate::unix::view_opt(xdg), crate::unix::view_opt(home)) is None,
{
    if let Some(x) = xdg {
        if !x.is_empty() {
            let mut parts: Vec<String> = Vec::new();
            parts.push(owned(x));
            parts.push(owned("vudo"));
            assert(strings_view(parts@) =~= seq![x@, "vudo"@]);
            return Some(parts);
        }
    }
    match home {
        Some(h) => {
            let mut parts: Vec<String> = Vec::new();
            parts.push(owned(h));
            parts.push(owned(".cache"));
            parts.push(owned("vudo"));
            assert(strings_view(parts@) =~= seq![h@, ".cache"@, "vudo"@]);
            Some(parts)
        },
        None => None,
    }
}

/// The cached icon must be (re)written: there is none, or its size differs
/// from the embedded one.
pub open spec fn icon_stale(existing: Option<u64>, size: u64) -> bool {
    match existing {
        Some(n) => n != size,
        None => true,
    }
}

/// Whether the cached icon of `existing` bytes (`None` when there is none)
/// must be rewritten with the embedded `size` bytes.
pub fn needs_write(existing: Option<u64>, size: u64) -> (b: bool)
    ensures
        b == icon_stale(existing, size),
{
    match existing {
        Some(n) => n != size,
        None => true,
    }
}

} // verus!
