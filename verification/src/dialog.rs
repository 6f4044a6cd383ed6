//! Shared formatting of the auth-dialog message, so every backend (zenity,
//! kdialog, pinentry, osascript, Windows MessageBox) presents the same, quickly
//! scannable layout: what will run, and who asked for it.

use vstd::prelude::*;
use vstd::string::*;
use crate::text::owned;

verus! {

/// The "Requested by" part: the actor, marked by whether a terminal is
/// attached.
pub open spec fn who_text(actor: Seq<char>, interactive: Option<bool>) -> Seq<char> {
    match interactive {
        Some(true) => actor + "  \u{00b7} interactive terminal"@,
        Some(false) => "\u{26a0} "@ + actor + "  \u{00b7} no terminal (automation)"@,
        None => actor,
    }
}

/// The information block for `preview` and `actor`.
pub open spec fn info_text(preview: Seq<char>, actor: Seq<char>, interactive: Option<bool>) -> Seq<
    char,
> {
    "Run this command as root:\n\n    "@ + preview + "\n\nRequested by:  "@ + who_text(
        actor,
        interactive,
    )
}

/// The information block shown above the password field / action buttons.
///
/// `interactive` is whether the caller has a controlling terminal — a reliable
/// "a human at a keyboard launched this" signal, independent of the (best-
/// effort) `actor` name.
pub fn info_block(preview: &str, actor: &str, interactive: Option<bool>) -> (out: String)
    ensures
        out@ == info_text(preview@, actor@, interactive),
{
    let mut out = owned("Run this command as root:\n\n    ");
    out.append(preview);
    out.append("\n\nRequested by:  ");
    match interactive {
        Some(true) => {
            out.append(actor);
            out.append("  \u{00b7} interactive terminal");
        },
        Some(false) => {
            out.append("\u{26a0} ");
            out.append(actor);
            out.append("  \u{00b7} no terminal (automation)");
        },
        None => {
            out.append(actor);
        },
    }
    out
}

} // verus!
