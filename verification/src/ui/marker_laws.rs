//! What resolving conflict blocks does to a text as a whole.

use vstd::prelude::*;

use crate::text::{
    are_lines, concat, is_closed, is_line, lemma_concat_add, lemma_split_concat,
    lemma_split_inclusive, lemma_split_open_line, lines, split_inclusive, strip_ending,
};
use crate::ui::markers::{
    are_ordered, end_of, is_marker, lemma_regions_ordered, regions, replaced, resolved, resolved_head, scan_lines, side,
    EditorResolution, Region,
};
use crate::ui::three_way_laws::{
    are_segments, conflicted_lines, hunks_before, kept_lines, law_conflicted_files_are_read_back,
    lemma_hunks_are_apart, lemma_hunks_counted, lemma_kept_lines, lemma_whole_is_settled,
    lemma_written, written,
};
use crate::ui::three_way::{
    column, composed, conflicts, height, joined, next_number, parse_lines, parsed, picked,
    segment_rows, segment_text, side_lines, Row, Segment,
};

verus! {

/// Whether every block is ended before the next one begins.
pub open spec fn is_well_nested(lines: Seq<Seq<char>>) -> bool {
    forall|i: int|
        0 <= i < lines.len() && is_marker(#[trigger] lines[i], '<') ==> scan_lines(
            lines.take(i),
        ).open is None
}

/// The lines of a text with its blocks resolved: those that are settled, and
/// those of a block that is not ended yet, with the lines of its sides.
struct Kept {
    done: Seq<Seq<char>>,
    pending: Seq<Seq<char>>,
    ours: Seq<Seq<char>>,
    theirs: Seq<Seq<char>>,
}

spec fn chosen(k: Kept, choice: EditorResolution) -> Seq<Seq<char>> {
    match choice {
        EditorResolution::Ours => k.ours,
        EditorResolution::Theirs => k.theirs,
        EditorResolution::Both => if k.ours.len() > 0 {
            k.ours + seq![seq!['\n']] + k.theirs
        } else {
            k.theirs
        },
    }
}

spec fn keep(lines: Seq<Seq<char>>, choice: EditorResolution) -> Kept
    decreases lines.len(),
{
    if lines.len() == 0 {
        Kept {
            done: Seq::empty(),
            pending: Seq::empty(),
            ours: Seq::empty(),
            theirs: Seq::empty(),
        }
    } else {
        let k = keep(lines.drop_last(), choice);
        let s = scan_lines(lines.drop_last());
        let line = lines.last();
        if is_marker(line, '<') {
            Kept {
                done: k.done + k.pending,
                pending: seq![line],
                ours: Seq::empty(),
                theirs: Seq::empty(),
            }
        } else if s.open is None {
            Kept { done: k.done.push(line), ..k }
        } else if is_marker(line, '=') {
            Kept { pending: k.pending.push(line), ..k }
        } else if is_marker(line, '>') {
            Kept { done: k.done + chosen(k, choice), pending: Seq::empty(), ..k }
        } else if s.in_theirs {
            Kept { pending: k.pending.push(line), theirs: k.theirs.push(line), ..k }
        } else {
            Kept { pending: k.pending.push(line), ours: k.ours.push(line), ..k }
        }
    }
}

spec fn all_lines(lines: Seq<Seq<char>>) -> bool {
    forall|i: int| 0 <= i < lines.len() ==> is_line(#[trigger] lines[i])
}

spec fn all_closed(lines: Seq<Seq<char>>) -> bool {
    forall|i: int| 0 <= i < lines.len() ==> is_line(#[trigger] lines[i]) && is_closed(lines[i])
}

/// Whether no line is a marker made of `c`.
spec fn none_marked(lines: Seq<Seq<char>>, c: char) -> bool {
    forall|i: int| 0 <= i < lines.len() ==> !is_marker(#[trigger] lines[i], c)
}

proof fn lemma_drop_last_lines(lines: Seq<Seq<char>>)
    requires
        lines.len() > 0,
    ensures
        all_lines(lines) ==> all_lines(lines.drop_last()),
        all_closed(lines) ==> all_closed(lines.drop_last()),
        is_well_nested(lines) ==> is_well_nested(lines.drop_last()),
{
    let init = lines.drop_last();
    assert forall|i: int| 0 <= i < init.len() implies #[trigger] init[i] == lines[i] && init.take(i)
        == lines.take(i) by {}
}

/// What `keep` settles closes every line and holds no marker.
proof fn lemma_keep_lines(lines: Seq<Seq<char>>, choice: EditorResolution)
    requires
        all_closed(lines),
    ensures
        all_closed(keep(lines, choice).done),
        all_closed(keep(lines, choice).pending),
        all_closed(keep(lines, choice).ours),
        all_closed(keep(lines, choice).theirs),
    decreases lines.len(),
{
    if lines.len() > 0 {
        lemma_drop_last_lines(lines);
        lemma_keep_lines(lines.drop_last(), choice);
        assert(is_line(lines[lines.len() - 1]) && is_closed(lines[lines.len() - 1]));
        assert(is_line(seq!['\n']) && is_closed(seq!['\n']));
    }
}

proof fn lemma_keep_unmarked(lines: Seq<Seq<char>>, choice: EditorResolution)
    requires
        is_well_nested(lines),
    ensures
        ({
            let k = keep(lines, choice);
            let s = scan_lines(lines);
            &&& none_marked(k.done, '<')
            &&& none_marked(k.ours, '<')
            &&& none_marked(k.theirs, '<')
            &&& s.open is None <==> k.pending.len() == 0
            &&& k.pending.len() > 0 ==> none_marked(k.pending.drop_first(), '<')
            &&& none_marked(k.pending, '>')
        }),
    decreases lines.len(),
{
    if lines.len() > 0 {
        let init = lines.drop_last();
        lemma_drop_last_lines(lines);
        lemma_keep_unmarked(init, choice);
        let k = keep(init, choice);
        let line = lines.last();
        assert(lines[lines.len() - 1] == line);
        assert(lines.take(lines.len() - 1) == init);
        assert(!is_marker(seq!['\n'], '<'));
        if is_marker(line, '<') {
            assert(line[0] == '<');
            assert(k.done + k.pending == k.done);
        } else if k.pending.len() > 0 {
            assert(k.pending.push(line).drop_first() == k.pending.drop_first().push(line));
        }
    }
}

/// Blocks that end by `n` are resolved alike in texts that agree up to there.
proof fn lemma_head_prefix(a: Seq<char>, b: Seq<char>, rs: Seq<Region>, choice: EditorResolution)
    requires
        are_ordered(rs, a.len() as int),
        a.len() <= b.len(),
        b.take(a.len() as int) == a,
    ensures
        resolved_head(a, rs, choice) == resolved_head(b, rs, choice),
    decreases rs.len(),
{
    if rs.len() > 0 {
        let init = rs.drop_last();
        assert(are_ordered(init, a.len() as int)) by {
            assert forall|i: int| 0 <= i < init.len() implies #[trigger] init[i] == rs[i] by {}
        }
        lemma_head_prefix(a, b, init, choice);
        let last = rs.last();
        assert(last == rs[rs.len() - 1]);
        assert(end_of(init) <= last.start) by {
            if init.len() > 0 {
                assert(init.last() == rs[rs.len() - 2]);
            }
        }
        assert(a.subrange(end_of(init), last.start) == b.subrange(end_of(init), last.start)) by {
            assert forall|i: int| 0 <= i < a.len() implies a[i] == b[i] by {
                assert(b.take(a.len() as int)[i] == b[i]);
            }
        }
    }
}

proof fn lemma_concat_empty(lines: Seq<Seq<char>>)
    requires
        all_lines(lines),
    ensures
        concat(lines).len() == 0 <==> lines.len() == 0,
{
    if lines.len() > 0 {
        assert(is_line(lines[lines.len() - 1]));
    }
}

proof fn lemma_concat_push(lines: Seq<Seq<char>>, line: Seq<char>)
    ensures
        concat(lines.push(line)) == concat(lines) + line,
{
    assert(lines.push(line).drop_last() == lines);
}

proof fn lemma_chosen(k: Kept, r: Region, choice: EditorResolution)
    requires
        all_lines(k.ours),
        concat(k.ours) == r.ours,
        concat(k.theirs) == r.theirs,
    ensures
        concat(chosen(k, choice)) == side(r, choice),
{
    if choice == EditorResolution::Both {
        lemma_concat_empty(k.ours);
        lemma_concat_add(k.ours + seq![seq!['\n']], k.theirs);
        lemma_concat_push(k.ours, seq!['\n']);
        assert(k.ours.push(seq!['\n']) == k.ours + seq![seq!['\n']]);
    }
}

/// The lines that `keep` yields make up the resolved text.
proof fn lemma_keep_text(lines: Seq<Seq<char>>, choice: EditorResolution)
    requires
        all_lines(lines),
        lines.len() > 0 ==> all_closed(lines.drop_last()),
    ensures
        ({
            let k = keep(lines, choice);
            let s = scan_lines(lines);
            let text = concat(lines);
            &&& s.pos == text.len()
            &&& are_ordered(s.regions, text.len() as int)
            &&& resolved_head(text, s.regions, choice) + text.skip(end_of(s.regions)) == concat(
                k.done + k.pending,
            )
            &&& s.open is None ==> k.pending.len() == 0
            &&& s.open matches Some(at) ==> {
                &&& end_of(s.regions) <= at <= text.len()
                &&& concat(k.done) == resolved_head(text, s.regions, choice) + text.subrange(
                    end_of(s.regions),
                    at,
                )
                &&& concat(k.ours) == s.ours
                &&& concat(k.theirs) == s.theirs
            }
        }),
    decreases lines.len(),
{
    crate::ui::markers::lemma_scan_ordered(lines);
    let k = keep(lines, choice);
    let s = scan_lines(lines);
    let text = concat(lines);
    if lines.len() == 0 {
        assert(k.done + k.pending == Seq::<Seq<char>>::empty());
        assert(resolved_head(text, s.regions, choice) + text.skip(0) == concat(k.done + k.pending));
    } else {
        let init = lines.drop_last();
        let line = lines.last();
        lemma_drop_last_lines(lines);
        if init.len() > 0 {
            lemma_drop_last_lines(init);
        }
        lemma_keep_text(init, choice);
        lemma_keep_lines(init, choice);
        let k0 = keep(init, choice);
        let s0 = scan_lines(init);
        let text0 = concat(init);
        let e = end_of(s0.regions);
        assert(text.take(text0.len() as int) == text0);
        lemma_head_prefix(text0, text, s0.regions, choice);
        assert(0 <= e <= text0.len()) by {
            if s0.regions.len() > 0 {
                assert(s0.regions.last() == s0.regions[s0.regions.len() - 1]);
            }
        }
        assert(text.skip(e) == text0.skip(e) + line);
        let head = resolved_head(text, s0.regions, choice);
        assert(head + text.skip(e) == (head + text0.skip(e)) + line);
        if is_marker(line, '<') {
            assert(k.done + k.pending == (k0.done + k0.pending).push(line));
            lemma_concat_push(k0.done + k0.pending, line);
            assert(text.subrange(e, text0.len() as int) == text0.skip(e));
        } else if s0.open is None {
            assert(k0.pending == Seq::<Seq<char>>::empty());
            assert(k.done + k.pending == (k0.done + k0.pending).push(line));
            lemma_concat_push(k0.done + k0.pending, line);
        } else if is_marker(line, '=') || !is_marker(line, '>') {
            assert(k.done + k.pending == (k0.done + k0.pending).push(line));
            lemma_concat_push(k0.done + k0.pending, line);
            lemma_concat_push(k0.ours, line);
            lemma_concat_push(k0.theirs, line);
            assert(text.subrange(e, s0.open->0) == text0.subrange(e, s0.open->0));
        } else {
            let at = s0.open->0;
            let r = Region { start: at, end: s.pos, ours: s0.ours, theirs: s0.theirs };
            assert(s.regions == s0.regions.push(r));
            assert(s.regions.drop_last() == s0.regions);
            lemma_chosen(k0, r, choice);
            assert(k.done + k.pending == k0.done + chosen(k0, choice));
            lemma_concat_add(k0.done, chosen(k0, choice));
            assert(text.subrange(e, at) == text0.subrange(e, at));
            assert(text.skip(s.pos) == Seq::<char>::empty());
            assert(head + text.subrange(e, at) + side(r, choice) + text.skip(s.pos) == concat(
                k.done + k.pending,
            ));
        }
    }
}

/// Without a `<<<<<<<` line there is no block.
proof fn lemma_scan_unmarked(lines: Seq<Seq<char>>)
    requires
        none_marked(lines, '<'),
    ensures
        scan_lines(lines).open is None,
        scan_lines(lines).regions.len() == 0,
    decreases lines.len(),
{
    if lines.len() > 0 {
        let init = lines.drop_last();
        assert forall|i: int| 0 <= i < init.len() implies !is_marker(#[trigger] init[i], '<') by {
            assert(init[i] == lines[i]);
        }
        lemma_scan_unmarked(init);
        assert(!is_marker(lines[lines.len() - 1], '<'));
    }
}

/// Without a `>>>>>>>` line behind it, a `<<<<<<<` line makes no block.
proof fn lemma_scan_unended(done: Seq<Seq<char>>, pending: Seq<Seq<char>>)
    requires
        none_marked(done, '<'),
        none_marked(pending, '>'),
    ensures
        scan_lines(done + pending).regions.len() == 0,
    decreases pending.len(),
{
    if pending.len() == 0 {
        assert(done + pending == done);
        lemma_scan_unmarked(done);
    } else {
        let init = pending.drop_last();
        assert forall|i: int| 0 <= i < init.len() implies !is_marker(#[trigger] init[i], '>') by {
            assert(init[i] == pending[i]);
        }
        lemma_scan_unended(done, init);
        assert((done + pending).drop_last() == done + init);
        assert((done + pending).last() == pending[pending.len() - 1]);
    }
}

/// Resolving every block leaves none, whichever side is kept, unless a block
/// was begun inside another: the outer `<<<<<<<` line then stays in the text.
pub proof fn law_resolving_all_leaves_no_region(text: Seq<char>, choice: EditorResolution)
    requires
        is_well_nested(split_inclusive(text)),
    ensures
        regions(resolved(text, choice)).len() == 0,
{
    let lines = split_inclusive(text);
    lemma_split_inclusive(text);
    if lines.len() > 0 {
        let init = lines.drop_last();
        assert(all_closed(init)) by {
            assert forall|i: int| 0 <= i < init.len() implies is_line(#[trigger] init[i])
                && is_closed(init[i]) by {
                assert(init[i] == lines[i]);
            }
        }
        lemma_keep_lines(init, choice);
    }
    lemma_keep_text(lines, choice);
    lemma_keep_unmarked(lines, choice);
    let k = keep(lines, choice);
    let out = k.done + k.pending;
    assert(resolved(text, choice) == concat(out));
    assert(are_lines(out)) by {
        if lines.len() > 0 {
            let k0 = keep(lines.drop_last(), choice);
            let line = lines.last();
            assert(is_line(lines[lines.len() - 1]));
            assert(is_line(seq!['\n']) && is_closed(seq!['\n']));
            let s0 = scan_lines(lines.drop_last());
            if !is_marker(line, '<') && s0.open is Some && !is_marker(line, '=') && is_marker(
                line,
                '>',
            ) {
                assert(out == k0.done + chosen(k0, choice));
                assert(all_closed(out));
            } else if !is_marker(line, '<') && s0.open is None {
                lemma_drop_last_lines(lines);
                lemma_keep_unmarked(lines.drop_last(), choice);
                assert(k0.pending.len() == 0);
                assert(out == k0.done.push(line));
            } else {
                assert(out == (k0.done + k0.pending).push(line));
                assert(all_closed(k0.done + k0.pending));
            }
        }
    }
    lemma_split_concat(out);
    lemma_scan_unended(k.done, k.pending);
}

/// The lines of both sides of each hunk, in order.
pub open spec fn hunks(segs: Seq<Segment>) -> Seq<(Seq<Seq<char>>, Seq<Seq<char>>)>
    decreases segs.len(),
{
    if segs.len() == 0 {
        Seq::empty()
    } else {
        let before = hunks(segs.drop_last());
        match segs.last() {
            Segment::Context(_) => before,
            Segment::Conflict { ours, theirs } => before.push((ours, theirs)),
        }
    }
}

/// The lines of both sides of each block, in order.
pub open spec fn region_lines(rs: Seq<Region>) -> Seq<(Seq<Seq<char>>, Seq<Seq<char>>)> {
    rs.map_values(|r: Region| (lines(r.ours), lines(r.theirs)))
}

proof fn lemma_hunks_push(segs: Seq<Segment>, seg: Segment)
    ensures
        hunks(segs.push(seg)) == (match seg {
            Segment::Context(_) => hunks(segs),
            Segment::Conflict { ours, theirs } => hunks(segs).push((ours, theirs)),
        }),
        conflicts(segs.push(seg)) == conflicts(segs) + (if seg is Conflict {
            1nat
        } else {
            0
        }),
{
    assert(segs.push(seg).drop_last() == segs);
}

spec fn stripped(ls: Seq<Seq<char>>) -> Seq<Seq<char>> {
    ls.map_values(|l: Seq<char>| strip_ending(l))
}

/// A marker is one with or without its line ending.
proof fn lemma_marker_stripped(line: Seq<char>, c: char)
    requires
        c != '\n',
        c != '\r',
    ensures
        is_marker(strip_ending(line), c) == is_marker(line, c),
{
    let body = strip_ending(line);
    assert forall|i: int| 0 <= i < body.len() implies body[i] == line[i] by {}
    if is_marker(line, c) && is_closed(line) {
        assert(line[6] == c);
        assert(line.drop_last().last() == line[line.len() - 2]);
        if line.len() == 8 {
            assert(line[6] != '\r');
        }
    }
    if is_marker(body, c) {
        assert forall|i: int| 0 <= i < 7 implies line[i] == c by {
            assert(body[i] == c);
        }
    }
}

/// A line appended to closed lines is one line more.
proof fn lemma_lines_append(text: Seq<char>, line: Seq<char>)
    requires
        text.len() == 0 || is_closed(text),
        is_line(line),
    ensures
        lines(text + line) == lines(text).push(strip_ending(line)),
{
    lemma_split_inclusive(text);
    let parts = split_inclusive(text);
    if parts.len() > 0 {
        assert(concat(parts) == concat(parts.drop_last()) + parts.last());
        assert(is_line(parts[parts.len() - 1]));
        assert(parts.last().last() == text.last());
    }
    lemma_split_open_line(text, line, line.len() as int);
    assert(line.take(line.len() as int) == line);
    assert(lines(text + line) =~= lines(text).push(strip_ending(line)));
}

proof fn lemma_parse_scan(ls: Seq<Seq<char>>)
    requires
        all_lines(ls),
        ls.len() > 0 ==> all_closed(ls.drop_last()),
    ensures
        ({
            let p = parse_lines(stripped(ls));
            let s = scan_lines(ls);
            &&& p.in_conflict == s.open is Some
            &&& s.open is Some ==> {
                &&& p.in_theirs == s.in_theirs
                &&& p.ctx.len() == 0
                &&& all_closed(ls) ==> {
                    &&& s.ours.len() == 0 || is_closed(s.ours)
                    &&& s.theirs.len() == 0 || is_closed(s.theirs)
                    &&& lines(s.ours) == p.ours
                    &&& lines(s.theirs) == p.theirs
                }
            }
            &&& hunks(p.out) == region_lines(s.regions)
            &&& conflicts(p.out) == s.regions.len()
        }),
    decreases ls.len(),
{
    if ls.len() == 0 {
        assert(stripped(ls) == Seq::<Seq<char>>::empty());
        assert(region_lines(Seq::<Region>::empty()) =~= Seq::empty());
    } else {
        let init = ls.drop_last();
        let line = ls.last();
        lemma_drop_last_lines(ls);
        if init.len() > 0 {
            lemma_drop_last_lines(init);
        }
        lemma_parse_scan(init);
        assert(stripped(ls).drop_last() == stripped(init));
        assert(stripped(ls).last() == strip_ending(line));
        assert(is_line(ls[ls.len() - 1]));
        let p0 = parse_lines(stripped(init));
        let s0 = scan_lines(init);
        let s = scan_lines(ls);
        lemma_marker_stripped(line, '<');
        lemma_marker_stripped(line, '=');
        lemma_marker_stripped(line, '>');
        if is_marker(line, '<') {
            lemma_hunks_push(p0.out, Segment::Context(p0.ctx));
            assert(lines(Seq::empty()) =~= Seq::empty());
        } else if s0.open is Some {
            if is_marker(line, '=') {
            } else if is_marker(line, '>') {
                lemma_hunks_push(
                    p0.out,
                    Segment::Conflict { ours: p0.ours, theirs: p0.theirs },
                );
                assert(region_lines(s.regions) =~= region_lines(s0.regions).push(
                    (lines(s0.ours), lines(s0.theirs)),
                ));
            } else {
                lemma_lines_append(s0.ours, line);
                lemma_lines_append(s0.theirs, line);
                if all_closed(ls) {
                    assert(is_closed(ls[ls.len() - 1]));
                    assert((s0.ours + line).last() == line.last());
                    assert((s0.theirs + line).last() == line.last());
                }
            }
        }
    }
}

/// The three-way editor and the text editor see the same conflicts: as many
/// hunks as blocks, and the same lines on both sides of each.
pub proof fn law_hunks_are_regions(text: Seq<char>)
    ensures
        hunks(parsed(text)) == region_lines(regions(text)),
        conflicts(parsed(text)) == regions(text).len(),
{
    let ls = split_inclusive(text);
    lemma_split_inclusive(text);
    if ls.len() > 0 {
        let init = ls.drop_last();
        assert forall|i: int| 0 <= i < init.len() implies is_line(#[trigger] init[i]) && is_closed(
            init[i],
        ) by {
            assert(init[i] == ls[i]);
        }
    }
    lemma_parse_scan(ls);
    assert(stripped(ls) =~= lines(text));
    let p = parse_lines(lines(text));
    lemma_hunks_push(p.out, Segment::Context(p.ctx));
}

/// The pick that stands for a choice.
pub open spec fn pick_of(choice: EditorResolution) -> (bool, bool) {
    match choice {
        EditorResolution::Ours => (true, false),
        EditorResolution::Theirs => (false, true),
        EditorResolution::Both => (true, true),
    }
}

/// Whether every line is ended by a line feed alone.
pub open spec fn has_plain_lines(text: Seq<char>) -> bool {
    forall|i: int|
        0 <= i < split_inclusive(text).len() ==> strip_ending(#[trigger] split_inclusive(text)[i]).push(
            '\n',
        ) == split_inclusive(text)[i]
}

spec fn all_plain(ls: Seq<Seq<char>>) -> bool {
    forall|i: int| 0 <= i < ls.len() ==> strip_ending(#[trigger] ls[i]).push('\n') == ls[i]
}

proof fn lemma_joined_push(ls: Seq<Seq<char>>, line: Seq<char>)
    ensures
        joined(ls.push(line)) == joined(ls) + line.push('\n'),
{
    assert(ls.push(line).drop_last() == ls);
}

proof fn lemma_composed_push(segs: Seq<Segment>, seg: Segment, selections: Seq<(bool, bool)>)
    ensures
        composed(segs.push(seg), selections) == composed(segs, selections) + segment_text(
            seg,
            picked(selections, conflicts(segs)),
        ),
{
    assert(segs.push(seg).drop_last() == segs);
}

/// What the text editor keeps is what the three-way editor composes.
proof fn lemma_composed_keep(
    ls: Seq<Seq<char>>,
    choice: EditorResolution,
    selections: Seq<(bool, bool)>,
)
    requires
        all_plain(ls),
        all_lines(ls),
        is_well_nested(ls),
        scan_lines(ls).regions.len() <= selections.len(),
        forall|i: int| 0 <= i < selections.len() ==> #[trigger] selections[i] == pick_of(choice),
    ensures
        ({
            let p = parse_lines(stripped(ls));
            let k = keep(ls, choice);
            let s = scan_lines(ls);
            &&& concat(k.done) == composed(p.out, selections) + joined(p.ctx)
            &&& p.in_conflict == s.open is Some
            &&& conflicts(p.out) == s.regions.len()
            &&& s.open is Some ==> {
                &&& p.ctx.len() == 0
                &&& p.in_theirs == s.in_theirs
                &&& concat(k.ours) == joined(p.ours)
                &&& concat(k.theirs) == joined(p.theirs)
                &&& k.ours.len() == p.ours.len()
            }
            &&& s.open is None ==> k.pending.len() == 0
        }),
    decreases ls.len(),
{
    if ls.len() == 0 {
        assert(stripped(ls) == Seq::<Seq<char>>::empty());
    } else {
        let init = ls.drop_last();
        let line = ls.last();
        lemma_drop_last_lines(ls);
        assert forall|i: int| 0 <= i < init.len() implies strip_ending(#[trigger] init[i]).push(
            '\n',
        ) == init[i] by {
            assert(init[i] == ls[i]);
        }
        let s0 = scan_lines(init);
        assert(s0.regions.len() <= scan_lines(ls).regions.len());
        lemma_composed_keep(init, choice, selections);
        assert(stripped(ls).drop_last() == stripped(init));
        assert(stripped(ls).last() == strip_ending(line));
        assert(strip_ending(ls[ls.len() - 1]).push('\n') == ls[ls.len() - 1]);
        assert(ls.take(ls.len() - 1) == init);
        assert(ls[ls.len() - 1] == line);
        let p0 = parse_lines(stripped(init));
        let p = parse_lines(stripped(ls));
        let k0 = keep(init, choice);
        let k = keep(ls, choice);
        let body = strip_ending(line);
        lemma_marker_stripped(line, '<');
        lemma_marker_stripped(line, '=');
        lemma_marker_stripped(line, '>');
        if is_marker(line, '<') {
            assert(k0.done + k0.pending == k0.done);
            lemma_composed_push(p0.out, Segment::Context(p0.ctx), selections);
            lemma_hunks_push(p0.out, Segment::Context(p0.ctx));
            assert(composed(p.out, selections) == composed(p0.out, selections) + joined(p0.ctx));
            assert(composed(p.out, selections) + joined(p.ctx) == composed(p.out, selections));
        } else if s0.open is None {
            lemma_concat_push(k0.done, line);
            lemma_joined_push(p0.ctx, body);
            assert(composed(p0.out, selections) + joined(p0.ctx) + line == composed(
                p0.out,
                selections,
            ) + (joined(p0.ctx) + line));
        } else if is_marker(line, '=') {
        } else if is_marker(line, '>') {
            let seg = Segment::Conflict { ours: p0.ours, theirs: p0.theirs };
            lemma_composed_push(p0.out, seg, selections);
            lemma_hunks_push(p0.out, seg);
            lemma_concat_add(k0.done, chosen(k0, choice));
            assert(selections[conflicts(p0.out) as int] == pick_of(choice));
            assert(concat(chosen(k0, choice)) == segment_text(seg, pick_of(choice))) by {
                if choice == EditorResolution::Both {
                    lemma_concat_add(k0.ours + seq![seq!['\n']], k0.theirs);
                    lemma_concat_push(k0.ours, seq!['\n']);
                    assert(k0.ours.push(seq!['\n']) == k0.ours + seq![seq!['\n']]);
                    if k0.ours.len() == 0 {
                        assert(joined(p0.ours) == Seq::<char>::empty());
                        assert(segment_text(seg, (true, true)) == joined(p0.theirs));
                    }
                } else if choice == EditorResolution::Ours {
                    assert(segment_text(seg, (true, false)) == joined(p0.ours));
                } else {
                    assert(segment_text(seg, (false, true)) == joined(p0.theirs));
                }
            }
            assert(composed(p.out, selections) + joined(p.ctx) == composed(p.out, selections));
            assert(composed(p0.out, selections) + joined(p0.ctx) == composed(p0.out, selections));
        } else if s0.in_theirs {
            lemma_concat_push(k0.theirs, line);
            lemma_joined_push(p0.theirs, body);
        } else {
            lemma_concat_push(k0.ours, line);
            lemma_joined_push(p0.ours, body);
        }
    }
}

/// Picking the same side of every hunk in the three-way editor gives what
/// the text editor gives for that side, of a text whose blocks are all ended
/// and whose lines are ended by line feeds.
pub proof fn law_editors_agree(
    text: Seq<char>,
    choice: EditorResolution,
    selections: Seq<(bool, bool)>,
)
    requires
        has_plain_lines(text),
        is_well_nested(split_inclusive(text)),
        scan_lines(split_inclusive(text)).open is None,
        selections.len() == regions(text).len(),
        forall|i: int| 0 <= i < selections.len() ==> #[trigger] selections[i] == pick_of(choice),
    ensures
        composed(parsed(text), selections) == resolved(text, choice),
{
    let ls = split_inclusive(text);
    lemma_split_inclusive(text);
    if ls.len() > 0 {
        let init = ls.drop_last();
        assert forall|i: int| 0 <= i < init.len() implies is_line(#[trigger] init[i]) && is_closed(
            init[i],
        ) by {
            assert(init[i] == ls[i]);
        }
    }
    assert(stripped(ls) =~= lines(text));
    lemma_composed_keep(ls, choice, selections);
    lemma_keep_text(ls, choice);
    let p = parse_lines(lines(text));
    let k = keep(ls, choice);
    lemma_composed_push(p.out, Segment::Context(p.ctx), selections);
    assert(k.done + k.pending == k.done);
    assert(composed(p.out, selections) + joined(Seq::empty()) == composed(p.out, selections));
}

proof fn lemma_parse_unmarked(ls: Seq<Seq<char>>)
    requires
        none_marked(ls, '<'),
    ensures
        parse_lines(ls).out.len() == 0,
        parse_lines(ls).ctx == ls,
        !parse_lines(ls).in_conflict,
    decreases ls.len(),
{
    if ls.len() > 0 {
        let init = ls.drop_last();
        assert forall|i: int| 0 <= i < init.len() implies !is_marker(#[trigger] init[i], '<') by {
            assert(init[i] == ls[i]);
        }
        lemma_parse_unmarked(init);
        assert(!is_marker(ls[ls.len() - 1], '<'));
        assert(init.push(ls.last()) == ls);
    }
}

/// A text without a block is left as it is by the text editor, and is one
/// stretch of context in the three-way editor.
pub proof fn law_text_without_markers(
    text: Seq<char>,
    choice: EditorResolution,
    selections: Seq<(bool, bool)>,
)
    requires
        forall|i: int|
            0 <= i < split_inclusive(text).len() ==> !is_marker(
                #[trigger] split_inclusive(text)[i],
                '<',
            ),
    ensures
        regions(text).len() == 0,
        resolved(text, choice) == text,
        composed(parsed(text), selections) == joined(lines(text)),
        text.len() > 0 ==> parsed(text) == seq![Segment::Context(lines(text))],
{
    let ls = split_inclusive(text);
    lemma_split_inclusive(text);
    lemma_scan_unmarked(ls);
    assert(text.skip(0) == text);
    assert(resolved(text, choice) == text);
    let bodies = lines(text);
    assert forall|i: int| 0 <= i < bodies.len() implies !is_marker(#[trigger] bodies[i], '<') by {
        lemma_marker_stripped(ls[i], '<');
        assert(bodies[i] == strip_ending(ls[i]));
    }
    lemma_parse_unmarked(bodies);
    let p = parse_lines(bodies);
    assert(p.out == Seq::<Segment>::empty());
    if bodies.len() > 0 {
        lemma_composed_push(p.out, Segment::Context(bodies), selections);
        assert(parsed(text) =~= seq![Segment::Context(bodies)]);
        assert(composed(p.out, selections) == Seq::<char>::empty());
        assert(composed(parsed(text), selections) == joined(bodies));
    } else {
        assert(composed(parsed(text), selections) == joined(bodies));
    }
}

/// The lines of one side, over all segments.
pub open spec fn side_text(segs: Seq<Segment>, theirs_side: bool) -> Seq<Seq<char>>
    decreases segs.len(),
{
    if segs.len() == 0 {
        Seq::empty()
    } else {
        side_text(segs.drop_last(), theirs_side) + side_lines(segs.last(), theirs_side)
    }
}

/// The rows of a column that are not fillers.
pub open spec fn numbered(rows: Seq<Row>) -> Seq<(int, Seq<char>)>
    decreases rows.len(),
{
    if rows.len() == 0 {
        Seq::empty()
    } else {
        let before = numbered(rows.drop_last());
        match rows.last().line_no {
            Some(n) => before.push((n, rows.last().text)),
            None => before,
        }
    }
}

proof fn lemma_numbered_add(a: Seq<Row>, b: Seq<Row>)
    ensures
        numbered(a + b) == numbered(a) + numbered(b),
    decreases b.len(),
{
    if b.len() == 0 {
        assert(a + b == a);
        assert(numbered(a) + numbered(b) == numbered(a));
    } else {
        lemma_numbered_add(a, b.drop_last());
        assert((a + b).drop_last() == a + b.drop_last());
        assert((a + b).last() == b.last());
        assert(numbered(a + b) =~= numbered(a) + numbered(b));
    }
}

proof fn lemma_numbered_segment(
    seg: Segment,
    theirs_side: bool,
    first: int,
    region: int,
    n: int,
)
    requires
        0 <= n <= height(seg),
    ensures
        ({
            let ls = side_lines(seg, theirs_side);
            let shown = if n <= ls.len() {
                n
            } else {
                ls.len() as int
            };
            numbered(segment_rows(seg, theirs_side, first, region).take(n)) == Seq::new(
                shown as nat,
                |i: int| (first + i, ls[i]),
            )
        }),
    decreases n,
{
    let all = segment_rows(seg, theirs_side, first, region);
    let ls = side_lines(seg, theirs_side);
    if n > 0 {
        lemma_numbered_segment(seg, theirs_side, first, region, n - 1);
        assert(all.take(n).drop_last() == all.take(n - 1));
        assert(all.take(n).last() == all[n - 1]);
        let shown = if n <= ls.len() {
            n
        } else {
            ls.len() as int
        };
        assert(numbered(all.take(n)) =~= Seq::new(shown as nat, |i: int| (first + i, ls[i])));
    } else {
        assert(numbered(all.take(n)) =~= Seq::new(0, |i: int| (first + i, ls[i])));
    }
}

/// The columns are equally high. Without its fillers each shows the lines of
/// its own side, numbered from one on.
pub proof fn law_columns(segs: Seq<Segment>, theirs_side: bool)
    ensures
        column(segs, true).len() == column(segs, false).len(),
        next_number(segs, theirs_side) == 1 + side_text(segs, theirs_side).len(),
        numbered(column(segs, theirs_side)) == Seq::new(
            side_text(segs, theirs_side).len(),
            |i: int| (1 + i, side_text(segs, theirs_side)[i]),
        ),
    decreases segs.len(),
{
    let whole = side_text(segs, theirs_side);
    if segs.len() == 0 {
        assert(numbered(column(segs, theirs_side)) =~= Seq::new(
            whole.len(),
            |i: int| (1 + i, whole[i]),
        ));
    } else {
        let init = segs.drop_last();
        law_columns(init, theirs_side);
        let first = next_number(init, theirs_side);
        let region = conflicts(init) as int;
        let added = segment_rows(segs.last(), theirs_side, first, region);
        lemma_numbered_add(column(init, theirs_side), added);
        lemma_numbered_segment(segs.last(), theirs_side, first, region, added.len() as int);
        assert(added.take(added.len() as int) == added);
        assert(numbered(column(segs, theirs_side)) =~= Seq::new(
            whole.len(),
            |i: int| (1 + i, whole[i]),
        ));
    }
}

/// Whether a line holds no line ending.
pub open spec fn is_bare(line: Seq<char>) -> bool {
    &&& forall|i: int| 0 <= i < line.len() ==> line[i] != '\n'
    &&& line.len() > 0 ==> line.last() != '\r'
}

proof fn lemma_lines_of_written(ls: Seq<Seq<char>>)
    requires
        forall|i: int| 0 <= i < ls.len() ==> is_bare(#[trigger] ls[i]),
    ensures
        lines(written(ls)) == ls,
        split_inclusive(written(ls)) == ls.map_values(|l: Seq<char>| l + seq!['\n']),
        has_plain_lines(written(ls)),
        stripped(split_inclusive(written(ls))) == ls,
        all_closed(split_inclusive(written(ls))),
{
    let full = ls.map_values(|l: Seq<char>| l + seq!['\n']);
    assert forall|i: int| 0 <= i < full.len() implies is_line(#[trigger] full[i]) && is_closed(
        full[i],
    ) && strip_ending(full[i]) == ls[i] && strip_ending(full[i]).push('\n') == full[i] by {
        assert(is_bare(ls[i]));
        assert(full[i] == ls[i] + seq!['\n']);
        assert(full[i].drop_last() =~= ls[i]);
        assert(ls[i].push('\n') =~= full[i]);
    }
    assert(are_lines(full));
    lemma_split_concat(full);
    assert(stripped(full) =~= ls);
    assert(lines(written(ls)) =~= ls);
}

/// Resolving every hunk of a conflicted file in the text editor leaves its
/// context, and of each hunk the lines of the side that is kept, whatever the
/// sides are called behind the markers. The three-way editor composes the
/// same where the same side is picked everywhere.
pub proof fn law_conflicted_files_are_resolved(
    segs: Seq<Segment>,
    our_name: Seq<char>,
    their_name: Seq<char>,
    choice: EditorResolution,
)
    requires
        are_segments(segs),
        forall|i: int|
            0 <= i < conflicted_lines(segs, our_name, their_name).len() ==> is_bare(
                #[trigger] conflicted_lines(segs, our_name, their_name)[i],
            ),
    ensures
        ({
            let text = written(conflicted_lines(segs, our_name, their_name));
            &&& parsed(text) == segs
            &&& regions(text).len() == hunks_before(segs, segs.len() as int)
            &&& resolved(text, choice) == written(kept_lines(segs, choice))
        }),
{
    let ls = conflicted_lines(segs, our_name, their_name);
    let text = written(ls);
    let full = split_inclusive(text);
    lemma_lines_of_written(ls);
    law_conflicted_files_are_read_back(text, segs, our_name, their_name);
    law_hunks_are_regions(text);
    lemma_hunks_counted(segs);
    let n = regions(text).len();
    let selections = Seq::new(n, |k: int| pick_of(choice));
    assert(is_well_nested(full)) by {
        assert forall|i: int| 0 <= i < full.len() && is_marker(#[trigger] full[i], '<') implies
            scan_lines(full.take(i)).open is None by {
            assert(stripped(full)[i] == ls[i]);
            lemma_marker_stripped(full[i], '<');
            lemma_hunks_are_apart(segs, our_name, their_name, i);
            assert(stripped(full.take(i)) =~= ls.take(i));
            assert forall|k: int| 0 <= k < i implies #[trigger] full.take(i)[k] == full[k] by {}
            if i > 0 {
                lemma_drop_last_lines(full.take(i));
            }
            lemma_parse_scan(full.take(i));
        }
    }
    if full.len() > 0 {
        lemma_drop_last_lines(full);
    }
    lemma_parse_scan(full);
    lemma_whole_is_settled(segs, our_name, their_name);
    law_editors_agree(text, choice, selections);
    lemma_kept_lines(segs, choice, selections);
    lemma_written(kept_lines(segs, choice));
}

/// With one block in a text, resolving that block is resolving all.
pub proof fn law_one_block(text: Seq<char>, choice: EditorResolution)
    requires
        regions(text).len() == 1,
    ensures
        replaced(text, regions(text)[0], side(regions(text)[0], choice)) == resolved(text, choice),
{
    let rs = regions(text);
    lemma_regions_ordered(text);
    assert(rs.drop_last() =~= Seq::empty());
    assert(rs.last() == rs[0]);
    assert(text.subrange(0, rs[0].start) =~= text.take(rs[0].start));
    assert(resolved_head(text, rs.drop_last(), choice) =~= Seq::empty());
    assert(resolved(text, choice) =~= replaced(text, rs[0], side(rs[0], choice)));
}

} // verus!
