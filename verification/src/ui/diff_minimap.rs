//! The minimap beside a diff: one row per row of the diff.

use vstd::prelude::*;

use crate::git::{DiffLine, FileDiff, FileKind, Hunk, LineKind};

verus! {

/// One row of the minimap.
#[derive(Debug, Clone, Copy, PartialEq, Eq, Structural)]
pub struct MinimapRow {
    pub kind: LineKind,
}

/// The rows of a hunk: its header, and its lines.
pub open spec fn hunk_rows(hunk: Hunk) -> Seq<MinimapRow> {
    seq![MinimapRow { kind: LineKind::Meta }] + hunk.lines@.map_values(
        |l: DiffLine| MinimapRow { kind: l.kind },
    )
}

/// The rows of hunks that follow each other.
pub open spec fn hunks_rows(hunks: Seq<Hunk>) -> Seq<MinimapRow>
    decreases hunks.len(),
{
    if hunks.len() == 0 {
        Seq::empty()
    } else {
        hunks_rows(hunks.drop_last()) + hunk_rows(hunks.last())
    }
}

/// The rows of a file. One that is not text has none.
pub open spec fn file_rows(diff: FileDiff) -> Seq<MinimapRow> {
    match diff.kind {
        FileKind::Text { hunks, .. } => hunks_rows(hunks@),
        _ => Seq::empty(),
    }
}

/// The rows of a file: for each hunk one for its header and one for each of
/// its lines. A file that is not text has none.
pub fn rows_for_file(diff: &FileDiff) -> (rows: Vec<MinimapRow>)
    ensures
        rows@ == file_rows(*diff),
{
    let mut rows: Vec<MinimapRow> = Vec::new();
    if let FileKind::Text { hunks, .. } = &diff.kind {
        let mut i: usize = 0;
        while i < hunks.len()
            invariant
                i <= hunks@.len(),
                rows@ == hunks_rows(hunks@.take(i as int)),
            decreases hunks.len() - i,
        {
            let hunk = &hunks[i];
            let ghost start = rows@;
            proof {
                assert(hunks@.take(i + 1).drop_last() == hunks@.take(i as int));
            }
            rows.push(MinimapRow { kind: LineKind::Meta });
            let ghost all = hunk_rows(*hunk);
            let mut j: usize = 0;
            proof {
                assert(rows@ =~= start + all.take(1));
            }
            while j < hunk.lines.len()
                invariant
                    j <= hunk.lines@.len(),
                    all == hunk_rows(*hunk),
                    rows@ == start + all.take(j + 1),
                decreases hunk.lines.len() - j,
            {
                rows.push(MinimapRow { kind: hunk.lines[j].kind });
                proof {
                    assert(all[j + 1] == MinimapRow { kind: hunk.lines@[j as int].kind });
                    assert(rows@ =~= start + all.take(j + 2));
                }
                j += 1;
            }
            proof {
                assert(all.take(all.len() as int) == all);
            }
            i += 1;
        }
        proof {
            assert(hunks@.take(hunks@.len() as int) == hunks@);
        }
    }
    rows
}

/// How many rows the hunks take: one more each than they have lines.
pub open spec fn row_count(hunks: Seq<Hunk>) -> nat
    decreases hunks.len(),
{
    if hunks.len() == 0 {
        0
    } else {
        row_count(hunks.drop_last()) + hunks.last().lines@.len() + 1
    }
}

/// The minimap has as many rows as the diff: each hunk's lines, and a header
/// in front of them.
pub proof fn law_row_count(hunks: Seq<Hunk>)
    ensures
        hunks_rows(hunks).len() == row_count(hunks),
    decreases hunks.len(),
{
    if hunks.len() > 0 {
        law_row_count(hunks.drop_last());
    }
}

/// The colour of a row.
pub fn color_for_kind(kind: LineKind) -> (rgb: (u8, u8, u8))
    ensures
        rgb == (match kind {
            LineKind::Add => (90u8, 180u8, 120u8),
            LineKind::Remove => (220u8, 110u8, 110u8),
            LineKind::Context => (90u8, 90u8, 90u8),
            LineKind::Meta => (90u8, 130u8, 170u8),
        }),
{
    match kind {
        LineKind::Add => (90, 180, 120),
        LineKind::Remove => (220, 110, 110),
        LineKind::Context => (90, 90, 90),
        LineKind::Meta => (90, 130, 170),
    }
}

} // verus!
