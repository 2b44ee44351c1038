//! Conflict markers in the merged text of a file.
//!
//! Git writes a conflict as a block of lines: `<<<<<<<`, our lines,
//! `=======`, their lines, `>>>>>>>`. This module finds the blocks and
//! replaces them with one of the sides, or with both.

use vstd::prelude::*;

use crate::text::{
    bytes_of, chars_of, concat, is_line, split_inclusive, split_lines, string_of, text_bytes,
    views,
};

verus! {

/// A conflict block, in characters of the text that holds it. Both sides are
/// whole lines with their line feeds.
pub struct Region {
    pub start: int,
    pub end: int,
    pub ours: Seq<char>,
    pub theirs: Seq<char>,
}

/// What is known of a text after some of its lines.
pub struct Scan {
    pub regions: Seq<Region>,
    /// Where the block that is not ended yet begins.
    pub open: Option<int>,
    pub in_theirs: bool,
    pub ours: Seq<char>,
    pub theirs: Seq<char>,
    /// How many characters were read.
    pub pos: int,
}

/// Whether a line begins with a marker made of `c`.
pub open spec fn is_marker(line: Seq<char>, c: char) -> bool {
    line.len() >= 7 && forall|i: int| 0 <= i < 7 ==> line[i] == c
}

/// A `<<<<<<<` line always begins a block, also inside another one, which is
/// then forgotten. The other two markers count only inside a block.
pub open spec fn scan_line(s: Scan, line: Seq<char>) -> Scan {
    let next = Scan { pos: s.pos + line.len(), ..s };
    if is_marker(line, '<') {
        Scan {
            open: Some(s.pos),
            in_theirs: false,
            ours: Seq::empty(),
            theirs: Seq::empty(),
            ..next
        }
    } else if s.open is None {
        next
    } else if is_marker(line, '=') {
        Scan { in_theirs: true, ..next }
    } else if is_marker(line, '>') {
        Scan {
            regions: s.regions.push(
                Region { start: s.open->0, end: next.pos, ours: s.ours, theirs: s.theirs },
            ),
            open: None,
            in_theirs: false,
            ..next
        }
    } else if s.in_theirs {
        Scan { theirs: s.theirs + line, ..next }
    } else {
        Scan { ours: s.ours + line, ..next }
    }
}

pub open spec fn scan_lines(lines: Seq<Seq<char>>) -> Scan
    decreases lines.len(),
{
    if lines.len() == 0 {
        Scan {
            regions: Seq::empty(),
            open: None,
            in_theirs: false,
            ours: Seq::empty(),
            theirs: Seq::empty(),
            pos: 0,
        }
    } else {
        scan_line(scan_lines(lines.drop_last()), lines.last())
    }
}

/// The conflict blocks of a text, in order.
pub open spec fn regions(text: Seq<char>) -> Seq<Region> {
    scan_lines(split_inclusive(text)).regions
}

/// A conflict block of an editor's text.
#[derive(Clone)]
pub struct ConflictRegion {
    /// Byte range covering the full conflict block, including markers.
    pub start: usize,
    pub end: usize,
    /// The same range in characters, as an editor's cursor counts.
    pub char_start: usize,
    pub char_end: usize,
    pub ours: String,
    pub theirs: String,
}

impl ConflictRegion {
    /// Whether this is the block `r` of `text`.
    pub open spec fn is_region(&self, text: Seq<char>, r: Region) -> bool {
        &&& self.char_start == r.start
        &&& self.char_end == r.end
        &&& 0 <= r.start <= r.end <= text.len()
        &&& self.start == text_bytes(text.take(r.start))
        &&& self.end == text_bytes(text.take(r.end))
        &&& self.ours@ == r.ours
        &&& self.theirs@ == r.theirs
    }
}

/// The conflict blocks of a text.
pub struct ConflictMarkers {
    pub regions: Vec<ConflictRegion>,
}

/// Whether `list` holds the blocks `rs` of `text`.
pub open spec fn are_regions(list: Seq<ConflictRegion>, text: Seq<char>, rs: Seq<Region>) -> bool {
    &&& list.len() == rs.len()
    &&& forall|i: int| 0 <= i < rs.len() ==> (#[trigger] list[i]).is_region(text, rs[i])
}

/// Whether a line begins with a marker made of `c`.
pub fn starts_with_marker(line: &Vec<char>, c: char) -> (r: bool)
    ensures
        r == is_marker(line@, c),
{
    if line.len() < 7 {
        return false;
    }
    let mut i: usize = 0;
    while i < 7
        invariant
            i <= 7 <= line@.len(),
            forall|k: int| 0 <= k < i ==> line@[k] == c,
        decreases 7 - i,
    {
        if line[i] != c {
            return false;
        }
        i += 1;
    }
    true
}

impl ConflictMarkers {
    /// Whether these are the conflict blocks of `text`.
    pub open spec fn describes(&self, text: Seq<char>) -> bool {
        are_regions(self.regions@, text, regions(text))
    }

    /// How many conflict blocks there are.
    pub fn count(&self) -> (n: usize)
        ensures
            n == self.regions@.len(),
    {
        self.regions.len()
    }

    /// Where the conflict blocks begin, in bytes.
    pub fn start_offsets(&self) -> (out: Vec<usize>)
        ensures
            out@ == self.regions@.map_values(|r: ConflictRegion| r.start),
    {
        let mut out: Vec<usize> = Vec::new();
        let mut i: usize = 0;
        while i < self.regions.len()
            invariant
                i <= self.regions@.len(),
                out@ =~= self.regions@.map_values(|r: ConflictRegion| r.start).take(i as int),
            decreases self.regions.len() - i,
        {
            out.push(self.regions[i].start);
            i += 1;
        }
        out
    }

    /// Finds the conflict blocks of a text.
    pub fn scan(text: &str) -> (markers: Self)
        ensures
            markers.describes(text@),
    {
        let lines = split_lines(text);
        let ghost parts = split_inclusive(text@);
        let total: usize = bytes_of(text);
        let chars: usize = chars_of(text).len();
        let mut found: Vec<ConflictRegion> = Vec::new();
        let mut pos: usize = 0;
        let mut char_pos: usize = 0;
        let mut open: Option<(usize, usize)> = None;
        let mut in_theirs: bool = false;
        let mut ours: String = String::new();
        let mut theirs: String = String::new();
        let mut i: usize = 0;
        proof {
            crate::text::lemma_split_inclusive(text@);
        }
        while i < lines.len()
            invariant
                i <= lines@.len(),
                views(lines@) == parts,
                parts == split_inclusive(text@),
                concat(parts) == text@,
                total == text_bytes(text@),
                chars == text@.len(),
                ({
                    let s = scan_lines(parts.take(i as int));
                    &&& are_regions(found@, text@, s.regions)
                    &&& s.pos == char_pos
                    &&& char_pos <= text@.len()
                    &&& text@.take(char_pos as int) == concat(parts.take(i as int))
                    &&& pos == text_bytes(text@.take(char_pos as int))
                    &&& open is Some == s.open is Some
                    &&& open matches Some(at) ==> s.open == Some(at.1 as int) && at.1 <= char_pos
                        && at.0 == text_bytes(text@.take(at.1 as int))
                    &&& in_theirs == s.in_theirs
                    &&& ours@ == s.ours
                    &&& theirs@ == s.theirs
                }),
            decreases lines.len() - i,
        {
            let ghost before = parts.take(i as int);
            let ghost after = parts.take(i + 1);
            let line = chars_of(lines[i].as_str());
            let line_bytes: usize = bytes_of(lines[i].as_str());
            proof {
                assert(after.drop_last() == before);
                assert(after.last() == parts[i as int]);
                assert(views(lines@)[i as int] == lines@[i as int]@);
                assert(concat(after) == concat(before) + line@);
                lemma_prefix(parts, i + 1);
                let n = concat(after).len() as int;
                assert(text@.take(n) == concat(after));
                crate::text::lemma_text_bytes_concat(concat(before), line@);
                crate::text::lemma_text_bytes_concat(text@.take(n), text@.skip(n));
                assert(text@.take(n) + text@.skip(n) == text@);
            }
            if starts_with_marker(&line, '<') {
                open = Some((pos, char_pos));
                in_theirs = false;
                ours = String::new();
                theirs = String::new();
            } else if let Some(at) = open {
                if starts_with_marker(&line, '=') {
                    in_theirs = true;
                } else if starts_with_marker(&line, '>') {
                    found.push(
                        ConflictRegion {
                            start: at.0,
                            end: pos + line_bytes,
                            char_start: at.1,
                            char_end: char_pos + line.len(),
                            ours: ours.clone(),
                            theirs: theirs.clone(),
                        },
                    );
                    open = None;
                    in_theirs = false;
                } else if in_theirs {
                    theirs.append(lines[i].as_str());
                } else {
                    ours.append(lines[i].as_str());
                }
            }
            pos = pos + line_bytes;
            char_pos = char_pos + line.len();
            i += 1;
        }
        proof {
            assert(parts.take(parts.len() as int) == parts);
        }
        ConflictMarkers { regions: found }
    }
}

/// The first pieces of a text make a prefix of it.
proof fn lemma_prefix(parts: Seq<Seq<char>>, n: int)
    requires
        0 <= n <= parts.len(),
    ensures
        concat(parts.take(n)).len() <= concat(parts).len(),
        concat(parts).take(concat(parts.take(n)).len() as int) == concat(parts.take(n)),
    decreases parts.len(),
{
    if n == parts.len() {
        assert(parts.take(n) == parts);
        assert(concat(parts).take(concat(parts).len() as int) == concat(parts));
    } else {
        let init = parts.drop_last();
        lemma_prefix(init, n);
        assert(init.take(n) == parts.take(n));
        let k = concat(parts.take(n)).len() as int;
        assert(concat(parts).take(k) == concat(init).take(k));
    }
}

/// Which side of a conflict block to keep.
#[derive(Clone, Copy, PartialEq, Eq, Debug, Structural)]
pub enum EditorResolution {
    Ours,
    Theirs,
    Both,
}

/// What replaces a block: one side, or ours, a blank line and theirs.
pub open spec fn side(r: Region, choice: EditorResolution) -> Seq<char> {
    match choice {
        EditorResolution::Ours => r.ours,
        EditorResolution::Theirs => r.theirs,
        EditorResolution::Both => if r.ours.len() > 0 {
            r.ours + seq!['\n'] + r.theirs
        } else {
            r.theirs
        },
    }
}

/// The text with one block replaced.
pub open spec fn replaced(text: Seq<char>, r: Region, replacement: Seq<char>) -> Seq<char> {
    text.take(r.start) + replacement + text.skip(r.end)
}

/// Where the last of some blocks ends.
pub open spec fn end_of(rs: Seq<Region>) -> int {
    if rs.len() == 0 {
        0
    } else {
        rs.last().end
    }
}

/// The text up to the end of the last of some blocks, with each replaced.
pub open spec fn resolved_head(
    text: Seq<char>,
    rs: Seq<Region>,
    choice: EditorResolution,
) -> Seq<char>
    decreases rs.len(),
{
    if rs.len() == 0 {
        Seq::empty()
    } else {
        let init = rs.drop_last();
        resolved_head(text, init, choice) + text.subrange(end_of(init), rs.last().start) + side(
            rs.last(),
            choice,
        )
    }
}

/// The text with every block replaced.
pub open spec fn resolved(text: Seq<char>, choice: EditorResolution) -> Seq<char> {
    resolved_head(text, regions(text), choice) + text.skip(end_of(regions(text)))
}

/// Blocks that follow each other in the first `n` characters of a text.
pub open spec fn are_ordered(rs: Seq<Region>, n: int) -> bool {
    &&& forall|i: int| 0 <= i < rs.len() ==> 0 <= (#[trigger] rs[i]).start < rs[i].end <= n
    &&& forall|i: int, j: int| 0 <= i < j < rs.len() ==> (#[trigger] rs[i]).end <= (#[trigger] rs[j]).start
}

pub proof fn lemma_scan_ordered(lines: Seq<Seq<char>>)
    requires
        forall|i: int| 0 <= i < lines.len() ==> is_line(#[trigger] lines[i]),
    ensures
        ({
            let s = scan_lines(lines);
            &&& s.pos == concat(lines).len()
            &&& s.open matches Some(at) ==> 0 <= at < s.pos && are_ordered(s.regions, at)
            &&& are_ordered(s.regions, s.pos)
        }),
    decreases lines.len(),
{
    if lines.len() > 0 {
        let init = lines.drop_last();
        assert forall|i: int| 0 <= i < init.len() implies is_line(#[trigger] init[i]) by {
            assert(init[i] == lines[i]);
        }
        lemma_scan_ordered(init);
        assert(is_line(lines[lines.len() - 1]));
    }
}

/// The blocks of a text lie inside it, one behind the other.
pub proof fn lemma_regions_ordered(text: Seq<char>)
    ensures
        are_ordered(regions(text), text.len() as int),
{
    crate::text::lemma_split_inclusive(text);
    lemma_scan_ordered(split_inclusive(text));
}

/// The text with one block replaced.
pub fn replace_region(text: &str, region: &ConflictRegion, replacement: &str) -> (out: String)
    requires
        region.char_start <= region.char_end <= text@.len(),
    ensures
        out@ == text@.take(region.char_start as int) + replacement@ + text@.skip(
            region.char_end as int,
        ),
{
    let chars = chars_of(text);
    let mut out: String = string_of(&chars, 0, region.char_start);
    out.append(replacement);
    out.append(string_of(&chars, region.char_end, chars.len()).as_str());
    proof {
        assert(text@.subrange(0, region.char_start as int) == text@.take(region.char_start as int));
        assert(text@.subrange(region.char_end as int, text@.len() as int) == text@.skip(
            region.char_end as int,
        ));
    }
    out
}

/// What replaces a block.
fn replacement_for(region: &ConflictRegion, choice: EditorResolution) -> (out: String)
    ensures
        forall|text: Seq<char>, r: Region| region.is_region(text, r) ==> out@ == side(r, choice),
{
    match choice {
        EditorResolution::Ours => region.ours.clone(),
        EditorResolution::Theirs => region.theirs.clone(),
        EditorResolution::Both => {
            let mut out = region.ours.clone();
            if !region.ours.as_str().is_empty() {
                out.push('\n');
                proof {
                    assert(region.ours@.push('\n') == region.ours@ + seq!['\n']);
                }
            } else {
                proof {
                    assert(region.ours@ + region.theirs@ == region.theirs@);
                }
            }
            out.append(region.theirs.as_str());
            out
        },
    }
}

/// Replaces one block of an editor's text. `None` when the text has no such
/// block.
pub fn resolve_region_in_editor(text: &str, region_index: usize, choice: EditorResolution) -> (out:
    Option<String>)
    ensures
        out is Some == (region_index < regions(text@).len()),
        out matches Some(t) ==> ({
            let r = regions(text@)[region_index as int];
            t@ == replaced(text@, r, side(r, choice))
        }),
{
    let markers = ConflictMarkers::scan(text);
    if region_index >= markers.regions.len() {
        return None;
    }
    let region = &markers.regions[region_index];
    let replacement = replacement_for(region, choice);
    proof {
        assert(region.is_region(text@, regions(text@)[region_index as int]));
    }
    Some(replace_region(text, region, replacement.as_str()))
}

/// Replaces every block of an editor's text.
pub fn resolve_all_regions_in_editor(text: &str, choice: EditorResolution) -> (out: String)
    ensures
        out@ == resolved(text@, choice),
{
    let markers = ConflictMarkers::scan(text);
    let ghost rs = regions(text@);
    let chars = chars_of(text);
    let mut out: String = String::new();
    let mut cursor: usize = 0;
    let mut i: usize = 0;
    proof {
        lemma_regions_ordered(text@);
    }
    while i < markers.regions.len()
        invariant
            i <= markers.regions@.len(),
            rs == regions(text@),
            markers.describes(text@),
            are_ordered(rs, text@.len() as int),
            chars@ == text@,
            cursor == end_of(rs.take(i as int)),
            cursor <= text@.len(),
            out@ == resolved_head(text@, rs.take(i as int), choice),
        decreases markers.regions.len() - i,
    {
        let region = &markers.regions[i];
        let ghost init = rs.take(i as int);
        let ghost upto = rs.take(i + 1);
        proof {
            assert(region.is_region(text@, rs[i as int]));
            assert(upto.drop_last() == init);
            assert(upto.last() == rs[i as int]);
            assert(cursor <= rs[i as int].start) by {
                if i > 0 {
                    assert(init.last() == rs[i - 1]);
                }
            }
        }
        out.append(string_of(&chars, cursor, region.char_start).as_str());
        out.append(replacement_for(region, choice).as_str());
        cursor = region.char_end;
        i += 1;
    }
    out.append(string_of(&chars, cursor, chars.len()).as_str());
    proof {
        assert(rs.take(rs.len() as int) == rs);
        assert(text@.subrange(cursor as int, text@.len() as int) == text@.skip(cursor as int));
    }
    out
}

/// Navigation direction for jumps between conflict blocks.
#[derive(Clone, Copy, PartialEq, Eq, Debug, Structural)]
pub enum NavIntent {
    PrevConflict,
    NextConflict,
}

/// Whether block `i` is where a jump from the offset `current` goes: to the
/// nearest block behind (or before) it, and from the last (or first) one
/// around to the other end.
pub open spec fn is_target(
    list: Seq<ConflictRegion>,
    current: int,
    nav: NavIntent,
    i: int,
) -> bool {
    &&& 0 <= i < list.len()
    &&& match nav {
        NavIntent::NextConflict => {
            ||| list[i].start > current && forall|j: int| 0 <= j < i ==> (#[trigger] list[j]).start <= current
            ||| i == 0 && forall|j: int| 0 <= j < list.len() ==> (#[trigger] list[j]).start <= current
        },
        NavIntent::PrevConflict => {
            ||| list[i].start < current && forall|j: int|
                i < j < list.len() ==> (#[trigger] list[j]).start >= current
            ||| i == list.len() - 1 && forall|j: int|
                0 <= j < list.len() ==> (#[trigger] list[j]).start >= current
        },
    }
}

/// Picks the block to jump to from the offset `current` and returns the byte
/// offset at which it starts, or `None` if there is no block.
pub fn pick_marker(markers: &ConflictMarkers, current: usize, nav: NavIntent) -> (out: Option<
    usize,
>)
    ensures
        out is None == (markers.regions@.len() == 0),
        out matches Some(offset) ==> exists|i: int|
            is_target(markers.regions@, current as int, nav, i) && offset
                == #[trigger] markers.regions@[i].start,
{
    let n: usize = markers.regions.len();
    if n == 0 {
        return None;
    }
    match nav {
        NavIntent::NextConflict => {
            let mut i: usize = 0;
            while i < n
                invariant
                    i <= n == markers.regions@.len(),
                    n > 0,
                    nav == NavIntent::NextConflict,
                    forall|j: int| 0 <= j < i ==> (#[trigger] markers.regions@[j]).start <= current,
                decreases n - i,
            {
                if markers.regions[i].start > current {
                    proof {
                        assert(is_target(markers.regions@, current as int, nav, i as int));
                    }
                    return Some(markers.regions[i].start);
                }
                i += 1;
            }
            proof {
                assert(is_target(markers.regions@, current as int, nav, 0));
            }
            Some(markers.regions[0].start)
        },
        NavIntent::PrevConflict => {
            let mut i: usize = n;
            while i > 0
                invariant
                    i <= n == markers.regions@.len(),
                    n > 0,
                    nav == NavIntent::PrevConflict,
                    forall|j: int| i <= j < n ==> (#[trigger] markers.regions@[j]).start >= current,
                decreases i,
            {
                if markers.regions[i - 1].start < current {
                    proof {
                        assert(is_target(markers.regions@, current as int, nav, i - 1));
                    }
                    return Some(markers.regions[i - 1].start);
                }
                i -= 1;
            }
            proof {
                assert(is_target(markers.regions@, current as int, nav, n - 1));
            }
            Some(markers.regions[n - 1].start)
        },
    }
}

} // verus!
