//! The diff panel: what it says about a commit and its files, and the rows of
//! a diff.

use vstd::prelude::*;

use crate::git::{DeltaStatus, DiffLine, EntryKind, FileDiff, FileKind, Hunk, LineKind, StatusEntry};
use crate::paths::{plain, same_path};
use crate::text::{
    decimal, digits, lower_ascii, opt_view, pad_start, padded, same, to_lower_ascii, trim, trimmed,
};
use crate::ui::diff_minimap::hunks_rows;

verus! {

/// How many entries satisfy a condition.
pub open spec fn count_of(
    entries: Seq<StatusEntry>,
    f: spec_fn(StatusEntry) -> bool,
) -> nat
    decreases entries.len(),
{
    if entries.len() == 0 {
        0
    } else {
        count_of(entries.drop_last(), f) + (if f(entries.last()) {
            1nat
        } else {
            0
        })
    }
}

/// How many entries are conflicted, staged, not staged, and untracked.
#[derive(Debug, Clone, Copy, PartialEq, Eq, Structural)]
pub struct StatusCounts {
    pub conflicted: usize,
    pub staged: usize,
    pub unstaged: usize,
    pub untracked: usize,
}

/// Counts the entries of each kind.
pub fn count_entries(entries: &[StatusEntry]) -> (c: StatusCounts)
    ensures
        c.conflicted == count_of(entries@, |e: StatusEntry| e.conflicted),
        c.staged == count_of(entries@, |e: StatusEntry| e.staged),
        c.unstaged == count_of(entries@, |e: StatusEntry| e.unstaged),
        c.untracked == count_of(entries@, |e: StatusEntry| e.kind == EntryKind::Untracked),
{
    let ghost is_conflicted = |e: StatusEntry| e.conflicted;
    let ghost is_staged = |e: StatusEntry| e.staged;
    let ghost is_unstaged = |e: StatusEntry| e.unstaged;
    let ghost is_untracked = |e: StatusEntry| e.kind == EntryKind::Untracked;
    let mut c = StatusCounts { conflicted: 0, staged: 0, unstaged: 0, untracked: 0 };
    let mut i: usize = 0;
    while i < entries.len()
        invariant
            i <= entries@.len(),
            is_conflicted == (|e: StatusEntry| e.conflicted),
            is_staged == (|e: StatusEntry| e.staged),
            is_unstaged == (|e: StatusEntry| e.unstaged),
            is_untracked == (|e: StatusEntry| e.kind == EntryKind::Untracked),
            c.conflicted <= i,
            c.staged <= i,
            c.unstaged <= i,
            c.untracked <= i,
            c.conflicted == count_of(entries@.take(i as int), is_conflicted),
            c.staged == count_of(entries@.take(i as int), is_staged),
            c.unstaged == count_of(entries@.take(i as int), is_unstaged),
            c.untracked == count_of(entries@.take(i as int), is_untracked),
        decreases entries.len() - i,
    {
        let e = &entries[i];
        proof {
            assert(entries@.take(i + 1).drop_last() == entries@.take(i as int));
        }
        if e.conflicted {
            c.conflicted += 1;
        }
        if e.staged {
            c.staged += 1;
        }
        if e.unstaged {
            c.unstaged += 1;
        }
        if e.kind == EntryKind::Untracked {
            c.untracked += 1;
        }
        i += 1;
    }
    proof {
        assert(entries@.take(entries@.len() as int) == entries@);
    }
    c
}

/// A list with one more part, if there is anything of it.
pub open spec fn with_part(list: Seq<char>, n: nat, word: Seq<char>) -> Seq<char> {
    if n == 0 {
        list
    } else if list.len() == 0 {
        digits(n) + word
    } else {
        list + " · "@ + digits(n) + word
    }
}

/// The counts of a working tree in words.
pub open spec fn counts_text(c: StatusCounts) -> Seq<char> {
    let none: Seq<char> = Seq::empty();
    let a = with_part(none, c.conflicted as nat, " conflicted"@);
    let b = with_part(a, c.staged as nat, " staged"@);
    let d = with_part(b, c.unstaged as nat, " unstaged"@);
    let e = with_part(d, c.untracked as nat, " untracked"@);
    if e.len() == 0 {
        "No uncommitted changes."@
    } else {
        e
    }
}

fn add_part(list: &mut String, n: usize, word: &str)
    ensures
        final(list)@ == with_part(old(list)@, n as nat, word@),
{
    if n > 0 {
        if !list.as_str().is_empty() {
            list.append(" · ");
            list.append(decimal(n as u64).as_str());
        } else {
            *list = decimal(n as u64);
        }
        list.append(word);
    }
}

/// The counts of a working tree in words.
pub fn working_tree_summary(c: StatusCounts) -> (out: String)
    ensures
        out@ == counts_text(c),
{
    let mut out: String = String::new();
    add_part(&mut out, c.conflicted, " conflicted");
    add_part(&mut out, c.staged, " staged");
    add_part(&mut out, c.unstaged, " unstaged");
    add_part(&mut out, c.untracked, " untracked");
    if out.as_str().is_empty() {
        "No uncommitted changes.".to_string()
    } else {
        out
    }
}

/// What a row of the working tree says about its file.
pub open spec fn entry_stats(entry: StatusEntry) -> Seq<char> {
    if entry.conflicted {
        "conflicted"@
    } else if entry.kind == EntryKind::Untracked {
        "[new]"@
    } else if entry.staged && entry.unstaged {
        "[staged+wt]"@
    } else if entry.staged {
        "[staged]"@
    } else {
        "[wt]"@
    }
}

/// What a row of the working tree says about its file.
pub fn working_tree_stats_str(entry: &StatusEntry) -> (out: String)
    ensures
        out@ == entry_stats(*entry),
{
    if entry.conflicted {
        "conflicted".to_string()
    } else if entry.kind == EntryKind::Untracked {
        "[new]".to_string()
    } else if entry.staged && entry.unstaged {
        "[staged+wt]".to_string()
    } else if entry.staged {
        "[staged]".to_string()
    } else {
        "[wt]".to_string()
    }
}

/// The colour of a row of the working tree.
pub fn working_tree_status_color(kind: EntryKind) -> (rgb: (u8, u8, u8))
    ensures
        rgb == (match kind {
            EntryKind::New | EntryKind::Untracked => (90u8, 180u8, 120u8),
            EntryKind::Modified => (220, 190, 90),
            EntryKind::Deleted => (220, 100, 100),
            EntryKind::Renamed => (150, 150, 220),
            EntryKind::Typechange => (200, 120, 200),
            EntryKind::Conflicted => (255, 80, 80),
        }),
{
    match kind {
        EntryKind::New | EntryKind::Untracked => (90, 180, 120),
        EntryKind::Modified => (220, 190, 90),
        EntryKind::Deleted => (220, 100, 100),
        EntryKind::Renamed => (150, 150, 220),
        EntryKind::Typechange => (200, 120, 200),
        EntryKind::Conflicted => (255, 80, 80),
    }
}

/// The colour of a file of a commit.
pub fn status_color(status: DeltaStatus) -> (rgb: (u8, u8, u8))
    ensures
        rgb == (match status {
            DeltaStatus::Added => (90u8, 200u8, 120u8),
            DeltaStatus::Deleted => (220, 110, 110),
            DeltaStatus::Modified => (210, 200, 120),
            DeltaStatus::Renamed | DeltaStatus::Copied => (150, 170, 230),
            DeltaStatus::Typechange => (180, 150, 230),
            DeltaStatus::Unmodified => (160, 160, 160),
        }),
{
    match status {
        DeltaStatus::Added => (90, 200, 120),
        DeltaStatus::Deleted => (220, 110, 110),
        DeltaStatus::Modified => (210, 200, 120),
        DeltaStatus::Renamed | DeltaStatus::Copied => (150, 170, 230),
        DeltaStatus::Typechange => (180, 150, 230),
        DeltaStatus::Unmodified => (160, 160, 160),
    }
}

/// The extensions that the panel shows as pictures of the working tree.
pub open spec fn is_picture_ext(ext: Seq<char>) -> bool {
    ||| ext == "png"@
    ||| ext == "jpg"@
    ||| ext == "jpeg"@
    ||| ext == "gif"@
    ||| ext == "webp"@
    ||| ext == "bmp"@
    ||| ext == "ico"@
    ||| ext == "tiff"@
    ||| ext == "tif"@
}

/// Whether a file of the working tree is shown as a picture.
pub fn path_looks_like_image(path: &str) -> (r: bool)
    ensures
        r == (match crate::paths::extension(path@) {
            Some(ext) => is_picture_ext(lower_ascii(ext)),
            None => false,
        }),
{
    match crate::paths::extension_of(path) {
        Some(ext) => {
            let e = to_lower_ascii(ext.as_str());
            let e = e.as_str();
            same(e, "png") || same(e, "jpg") || same(e, "jpeg") || same(e, "gif") || same(e, "webp")
                || same(e, "bmp") || same(e, "ico") || same(e, "tiff") || same(e, "tif")
        },
        None => false,
    }
}

/// The numbers of a file's changed lines, or what it is instead of text.
pub open spec fn file_stats(kind: FileKind) -> Seq<char> {
    match kind {
        FileKind::Text { lines_added, lines_removed, truncated, .. } => "+"@ + digits(
            lines_added as nat,
        ) + " −"@ + digits(lines_removed as nat) + (if truncated {
            " …"@
        } else {
            Seq::empty()
        }),
        FileKind::Image { ext } => "["@ + ext@ + "]"@,
        FileKind::Binary => "[bin]"@,
        FileKind::TooLarge => "[large]"@,
    }
}

/// The numbers of a file's changed lines, or what it is instead of text.
pub fn file_stats_str(file: &FileDiff) -> (out: String)
    ensures
        out@ == file_stats(file.kind),
{
    match &file.kind {
        FileKind::Text { lines_added, lines_removed, truncated, .. } => {
            let mut out: String = "+".to_string();
            out.append(decimal(*lines_added as u64).as_str());
            out.append(" −");
            out.append(decimal(*lines_removed as u64).as_str());
            if *truncated {
                out.append(" …");
            }
            proof {
                assert(out@ =~= file_stats(file.kind));
            }
            out
        },
        FileKind::Image { ext } => {
            let mut out: String = "[".to_string();
            out.append(ext.as_str());
            out.append("]");
            out
        },
        FileKind::Binary => "[bin]".to_string(),
        FileKind::TooLarge => "[large]".to_string(),
    }
}

/// A file's row: what happened to it, its path, and its numbers.
pub fn file_row_label(glyph: &str, path: &str, kind: &FileKind) -> (out: String)
    ensures
        out@ == glyph@ + "  "@ + path@ + (match *kind {
            FileKind::Text { lines_added, lines_removed, truncated, .. } => "  (+"@ + digits(
                lines_added as nat,
            ) + " −"@ + digits(lines_removed as nat) + (if truncated {
                ", truncated"@
            } else {
                Seq::empty()
            }) + ")"@,
            FileKind::Image { ext } => "  [image:"@ + ext@ + "]"@,
            FileKind::Binary => "  [binary]"@,
            FileKind::TooLarge => "  [too large to show]"@,
        }),
{
    let mut tail: String = String::new();
    match kind {
        FileKind::Text { lines_added, lines_removed, truncated, .. } => {
            tail = "  (+".to_string();
            tail.append(decimal(*lines_added as u64).as_str());
            tail.append(" −");
            tail.append(decimal(*lines_removed as u64).as_str());
            let ghost so_far = tail@;
            if *truncated {
                tail.append(", truncated");
            }
            proof {
                assert(so_far + Seq::<char>::empty() =~= so_far);
            }
            tail.append(")");
        },
        FileKind::Image { ext } => {
            tail = "  [image:".to_string();
            tail.append(ext.as_str());
            tail.append("]");
        },
        FileKind::Binary => {
            tail = "  [binary]".to_string();
        },
        FileKind::TooLarge => {
            tail = "  [too large to show]".to_string();
        },
    }
    let mut out: String = glyph.to_string();
    out.append("  ");
    out.append(path);
    out.append(tail.as_str());
    out
}

/// The entry of a path in the working tree, the first where there are several.
pub fn selected_working_entry(entries: &[StatusEntry], path: &str) -> (out: Option<StatusEntry>)
    ensures
        match out {
            Some(e) => exists|i: int|
                {
                    &&& 0 <= i < entries@.len()
                    &&& #[trigger] entries@[i] == e
                    &&& plain(e.path@) == plain(path@)
                    &&& forall|j: int|
                        0 <= j < i ==> plain((#[trigger] entries@[j]).path@) != plain(path@)
                },
            None => forall|i: int|
                0 <= i < entries@.len() ==> plain((#[trigger] entries@[i]).path@) != plain(path@),
        },
{
    let mut i: usize = 0;
    while i < entries.len()
        invariant
            i <= entries@.len(),
            forall|j: int| 0 <= j < i ==> plain((#[trigger] entries@[j]).path@) != plain(path@),
        decreases entries.len() - i,
    {
        if same_path(entries[i].path.as_str(), path) {
            return Some(entries[i].duplicate());
        }
        i += 1;
    }
    None
}

/// A trimmed text, where there is anything left of it.
pub open spec fn meaningful(text: Option<Seq<char>>) -> Option<Seq<char>> {
    match text {
        Some(t) => if trim(t).len() > 0 {
            Some(trim(t))
        } else {
            None
        },
        None => None,
    }
}

/// A trimmed text, where there is anything left of it.
pub fn meaningful_text(text: &Option<String>) -> (out: Option<String>)
    ensures
        opt_view(out) == meaningful(opt_view(*text)),
{
    match text {
        Some(t) => {
            let t = trimmed(t.as_str());
            if t.as_str().is_empty() {
                None
            } else {
                Some(t)
            }
        },
        None => None,
    }
}

/// The message of a commit.
pub fn commit_message_text(message: &Option<String>) -> (out: String)
    ensures
        out@ == (match meaningful(opt_view(*message)) {
            Some(m) => m,
            None => "(no commit message)"@,
        }),
{
    match meaningful_text(message) {
        Some(m) => m,
        None => "(no commit message)".to_string(),
    }
}

/// The author of a commit, with the address where it is known. `None` without
/// a name.
pub fn author_hover(name: &Option<String>, email: &Option<String>) -> (out: Option<String>)
    ensures
        opt_view(out) == (match meaningful(opt_view(*name)) {
            Some(n) => Some(
                match meaningful(opt_view(*email)) {
                    Some(e) => n + " <"@ + e + ">"@,
                    None => n,
                },
            ),
            None => None,
        }),
{
    match meaningful_text(name) {
        Some(n) => {
            let mut out = n;
            if let Some(e) = meaningful_text(email) {
                out.append(" <");
                out.append(e.as_str());
                out.append(">");
            }
            Some(out)
        },
        None => None,
    }
}

/// The heading of a diff over several commits.
pub fn combined_heading(count: usize) -> (out: String)
    ensures
        out@ == "✦ Combined diff of "@ + digits(count as nat) + " commits"@,
{
    let mut out: String = "✦ Combined diff of ".to_string();
    out.append(decimal(count as u64).as_str());
    out.append(" commits");
    out
}

/// A row of a file's diff: by the positions of its hunk and its line.
#[derive(Debug, Clone, Copy, PartialEq, Eq, Structural)]
pub enum DetailRow {
    HunkHeader { hunk: usize },
    Line { hunk: usize, line: usize },
    Truncated,
}

/// The rows of hunk `h`, which has `n` lines.
pub open spec fn hunk_detail(h: int, n: nat) -> Seq<DetailRow> {
    seq![DetailRow::HunkHeader { hunk: h as usize }] + Seq::new(
        n,
        |j: int| DetailRow::Line { hunk: h as usize, line: j as usize },
    )
}

/// The rows of hunks that follow each other.
pub open spec fn hunks_detail(hunks: Seq<Hunk>) -> Seq<DetailRow>
    decreases hunks.len(),
{
    if hunks.len() == 0 {
        Seq::empty()
    } else {
        hunks_detail(hunks.drop_last()) + hunk_detail(
            hunks.len() - 1,
            hunks.last().lines@.len(),
        )
    }
}

/// The rows of a file's diff: a header and the lines of each hunk, and a mark
/// where the diff was cut off.
pub fn detail_rows(hunks: &[Hunk], truncated: bool) -> (rows: Vec<DetailRow>)
    ensures
        rows@ == (if truncated {
            hunks_detail(hunks@).push(DetailRow::Truncated)
        } else {
            hunks_detail(hunks@)
        }),
{
    let mut rows: Vec<DetailRow> = Vec::new();
    let mut h: usize = 0;
    while h < hunks.len()
        invariant
            h <= hunks@.len(),
            rows@ == hunks_detail(hunks@.take(h as int)),
        decreases hunks.len() - h,
    {
        let ghost start = rows@;
        let n: usize = hunks[h].lines.len();
        let ghost all = hunk_detail(h as int, n as nat);
        proof {
            assert(hunks@.take(h + 1).drop_last() == hunks@.take(h as int));
        }
        rows.push(DetailRow::HunkHeader { hunk: h });
        proof {
            assert(rows@ =~= start + all.take(1));
        }
        let mut j: usize = 0;
        while j < n
            invariant
                j <= n,
                all == hunk_detail(h as int, n as nat),
                rows@ == start + all.take(j + 1),
            decreases n - j,
        {
            rows.push(DetailRow::Line { hunk: h, line: j });
            proof {
                assert(all[j + 1] == (DetailRow::Line { hunk: h, line: j }));
                assert(rows@ =~= start + all.take(j + 2));
            }
            j += 1;
        }
        proof {
            assert(all.take(all.len() as int) == all);
        }
        h += 1;
    }
    proof {
        assert(hunks@.take(hunks@.len() as int) == hunks@);
    }
    if truncated {
        rows.push(DetailRow::Truncated);
    }
    rows
}

/// What a row of the minimap stands for.
pub open spec fn row_kind(hunks: Seq<Hunk>, row: DetailRow) -> LineKind {
    match row {
        DetailRow::HunkHeader { .. } => LineKind::Meta,
        DetailRow::Line { hunk, line } => hunks[hunk as int].lines@[line as int].kind,
        DetailRow::Truncated => LineKind::Meta,
    }
}

/// Every row of the diff has a row of the minimap, at the same height and of
/// its kind.
pub proof fn law_minimap_follows_rows(hunks: Seq<Hunk>)
    requires
        hunks.len() <= usize::MAX,
        forall|h: int| 0 <= h < hunks.len() ==> (#[trigger] hunks[h]).lines@.len() <= usize::MAX,
    ensures
        hunks_detail(hunks).len() == hunks_rows(hunks).len(),
        forall|i: int|
            0 <= i < hunks_detail(hunks).len() ==> row_kind(
                hunks,
                #[trigger] hunks_detail(hunks)[i],
            ) == hunks_rows(hunks)[i].kind,
    decreases hunks.len(),
{
    if hunks.len() > 0 {
        let init = hunks.drop_last();
        assert forall|h: int| 0 <= h < init.len() implies (#[trigger] init[h]).lines@.len()
            <= usize::MAX by {
            assert(init[h] == hunks[h]);
        }
        law_minimap_follows_rows(init);
        lemma_detail_in_range(init);
        let last = hunks[hunks.len() - 1];
        let n = last.lines@.len();
        let added = hunk_detail(hunks.len() - 1, n);
        assert(last.lines@.len() <= usize::MAX);
        assert forall|i: int| 0 <= i < hunks_detail(hunks).len() implies row_kind(
            hunks,
            #[trigger] hunks_detail(hunks)[i],
        ) == hunks_rows(hunks)[i].kind by {
            if i < hunks_detail(init).len() {
                let row = hunks_detail(init)[i];
                assert(hunks_detail(hunks)[i] == row);
                assert(row_kind(init, row) == hunks_rows(init)[i].kind);
                match row {
                    DetailRow::Line { hunk, line } => {
                        assert(init[hunk as int] == hunks[hunk as int]);
                    },
                    _ => {},
                }
            } else {
                let k = i - hunks_detail(init).len();
                assert(hunks_detail(hunks)[i] == added[k]);
            }
        }
    }
}

proof fn lemma_detail_in_range(hunks: Seq<Hunk>)
    requires
        hunks.len() <= usize::MAX,
    ensures
        forall|i: int|
            0 <= i < hunks_detail(hunks).len() ==> (#[trigger] hunks_detail(
                hunks,
            )[i] matches DetailRow::Line { hunk, line } ==> hunk < hunks.len()),
    decreases hunks.len(),
{
    if hunks.len() > 0 {
        let init = hunks.drop_last();
        lemma_detail_in_range(init);
        let added = hunk_detail(hunks.len() - 1, hunks.last().lines@.len());
        assert forall|i: int| 0 <= i < hunks_detail(hunks).len() implies (#[trigger] hunks_detail(
            hunks,
        )[i] matches DetailRow::Line { hunk, line } ==> hunk < hunks.len()) by {
            if i < hunks_detail(init).len() {
                assert(hunks_detail(hunks)[i] == hunks_detail(init)[i]);
            } else {
                assert(hunks_detail(hunks)[i] == added[i - hunks_detail(init).len()]);
            }
        }
    }
}

/// The character in front of a line.
pub open spec fn line_prefix(kind: LineKind) -> Seq<char> {
    match kind {
        LineKind::Add => "+"@,
        LineKind::Remove => "-"@,
        LineKind::Meta => "·"@,
        LineKind::Context => " "@,
    }
}

/// A line number, four characters wide; blank where there is none.
pub open spec fn gutter_text(n: Option<u32>) -> Seq<char> {
    match n {
        Some(n) => padded(digits(n as nat), ' ', 4),
        None => "    "@,
    }
}

fn gutter(n: Option<u32>) -> (out: String)
    ensures
        out@ == gutter_text(n),
{
    match n {
        Some(n) => pad_start(decimal(n as u64).as_str(), ' ', 4),
        None => "    ".to_string(),
    }
}

/// A line of a diff with its numbers.
pub fn diff_line_text(line: &DiffLine) -> (out: String)
    ensures
        out@ == " "@ + gutter_text(line.old_lineno) + " "@ + gutter_text(line.new_lineno) + " "@
            + line_prefix(line.kind) + " "@ + line.content@,
{
    let prefix: &str = match line.kind {
        LineKind::Add => "+",
        LineKind::Remove => "-",
        LineKind::Meta => "·",
        LineKind::Context => " ",
    };
    let mut out: String = " ".to_string();
    out.append(gutter(line.old_lineno).as_str());
    out.append(" ");
    out.append(gutter(line.new_lineno).as_str());
    out.append(" ");
    out.append(prefix);
    out.append(" ");
    out.append(line.content.as_str());
    out
}

} // verus!
