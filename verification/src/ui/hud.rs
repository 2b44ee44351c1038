//! The note that is shown for a moment after undo and redo.

use vstd::prelude::*;

use crate::text::{decimal, digits};

verus! {

/// The position in a journal: how many entries lie behind it.
pub open spec fn position(cursor: Option<usize>) -> int {
    match cursor {
        Some(i) => i + 1,
        None => 0,
    }
}

/// Where a journal of so many entries stands, in words.
pub open spec fn position_text(cursor: Option<usize>, total: usize) -> Seq<char> {
    "position "@ + digits(position(cursor) as nat) + " / "@ + digits(total as nat) + "    ↶ "@ + (
    if position(cursor) > 0 {
        "undo available"@
    } else {
        "no undo"@
    }) + "    "@ + (if position(cursor) < total {
        "redo available"@
    } else {
        "no redo"@
    }) + " ↷"@
}

/// Where a journal of so many entries stands.
pub fn cursor_line(cursor: Option<usize>, total: usize) -> (out: String)
    requires
        cursor matches Some(i) ==> i < usize::MAX,
    ensures
        out@ == position_text(cursor, total),
{
    let pos: usize = match cursor {
        Some(i) => i + 1,
        None => 0,
    };
    let mut out: String = "position ".to_string();
    out.append(decimal(pos as u64).as_str());
    out.append(" / ");
    out.append(decimal(total as u64).as_str());
    out.append("    ↶ ");
    out.append(
        if pos > 0 {
            "undo available"
        } else {
            "no undo"
        },
    );
    out.append("    ");
    out.append(
        if pos < total {
            "redo available"
        } else {
            "no redo"
        },
    );
    out.append(" ↷");
    out
}

} // verus!
