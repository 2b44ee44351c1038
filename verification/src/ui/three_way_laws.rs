//! What the three-way editor does with a file as a whole: which hunk a row
//! belongs to, what a pick changes, and how a conflicted text is read.

use vstd::prelude::*;

use crate::text::{concat, lines};
use crate::ui::markers::{is_marker, EditorResolution};
use crate::ui::three_way::{
    column, composed, conflicts, flush, joined, next_number, parse_line, parse_lines, parsed,
    picked, segment_rows, segment_text, Parse, Row, RowKind, Segment,
};

verus! {

/// How many hunks stand before a segment.
pub open spec fn hunks_before(segs: Seq<Segment>, j: int) -> int {
    segs.take(j).filter(|s: Segment| s is Conflict).len() as int
}

/// How many rows a segment needs, so that both of its sides find room.
pub open spec fn rows_of(seg: Segment) -> int {
    match seg {
        Segment::Context(ls) => ls.len() as int,
        Segment::Conflict { ours, theirs } => if ours.len() < theirs.len() {
            theirs.len() as int
        } else {
            ours.len() as int
        },
    }
}

/// How many rows stand above a segment.
pub open spec fn rows_before(segs: Seq<Segment>, j: int) -> int
    decreases j,
{
    if j <= 0 {
        0
    } else {
        rows_before(segs, j - 1) + rows_of(segs[j - 1])
    }
}

/// Whether a row shows line `i` of the context.
pub open spec fn is_context_row(row: Row, ls: Seq<Seq<char>>, i: int) -> bool {
    row.kind == RowKind::Context && row.text == ls[i] && row.line_no is Some && row.region is None
}

/// Whether a row shows nothing, to keep the columns aligned.
pub open spec fn is_filler_row(row: Row) -> bool {
    row.kind == RowKind::Filler && row.text.len() == 0 && row.line_no is None
}

/// Whether the left column shows row `i` of segment `j` where it belongs: a
/// line of theirs or a filler, with the number of its hunk, or a line of the
/// context, with none.
pub open spec fn is_left_row(segs: Seq<Segment>, left: Seq<Row>, j: int, i: int) -> bool {
    let row = left[rows_before(segs, j) + i];
    &&& rows_before(segs, j) + i < left.len()
    &&& match segs[j] {
        Segment::Context(ls) => is_context_row(row, ls, i),
        Segment::Conflict { ours, theirs } => {
            &&& row.region == Some(hunks_before(segs, j))
            &&& i < theirs.len() ==> row.kind == RowKind::ConflictTheirs && row.text == theirs[i]
                && row.line_no is Some
            &&& i >= theirs.len() ==> is_filler_row(row)
        },
    }
}

/// Whether the right column shows row `i` of segment `j` where it belongs: a
/// line of ours or a filler, with the number of its hunk, or a line of the
/// context, with none.
pub open spec fn is_right_row(segs: Seq<Segment>, right: Seq<Row>, j: int, i: int) -> bool {
    let row = right[rows_before(segs, j) + i];
    &&& rows_before(segs, j) + i < right.len()
    &&& match segs[j] {
        Segment::Context(ls) => is_context_row(row, ls, i),
        Segment::Conflict { ours, theirs } => {
            &&& row.region == Some(hunks_before(segs, j))
            &&& i < ours.len() ==> row.kind == RowKind::ConflictOurs && row.text == ours[i]
                && row.line_no is Some
            &&& i >= ours.len() ==> is_filler_row(row)
        },
    }
}

proof fn lemma_hunks_before(segs: Seq<Segment>, j: int)
    requires
        0 <= j <= segs.len(),
    ensures
        hunks_before(segs, j) == conflicts(segs.take(j)),
        j > 0 ==> hunks_before(segs, j) == hunks_before(segs, j - 1) + (if segs[j - 1] is Conflict {
            1int
        } else {
            0
        }),
    decreases j,
{
    reveal(Seq::filter);
    if j > 0 {
        lemma_hunks_before(segs, j - 1);
        assert(segs.take(j).drop_last() =~= segs.take(j - 1));
        assert(segs.take(j).last() == segs[j - 1]);
    }
}

proof fn lemma_hunks_grow(segs: Seq<Segment>, a: int, b: int)
    requires
        0 <= a <= b <= segs.len(),
    ensures
        hunks_before(segs, a) <= hunks_before(segs, b),
    decreases b - a,
{
    if a < b {
        lemma_hunks_grow(segs, a, b - 1);
        lemma_hunks_before(segs, b);
    }
}

proof fn lemma_rows_before(segs: Seq<Segment>, init: Seq<Segment>, j: int)
    requires
        0 <= j <= init.len() <= segs.len(),
        forall|i: int| 0 <= i < init.len() ==> #[trigger] init[i] == segs[i],
    ensures
        rows_before(segs, j) == rows_before(init, j),
        rows_before(segs, j) >= 0,
    decreases j,
{
    if j > 0 {
        lemma_rows_before(segs, init, j - 1);
        assert(init[j - 1] == segs[j - 1]);
    }
}

proof fn lemma_column_len(segs: Seq<Segment>, theirs_side: bool)
    ensures
        column(segs, theirs_side).len() == rows_before(segs, segs.len() as int),
    decreases segs.len(),
{
    if segs.len() > 0 {
        let init = segs.drop_last();
        lemma_column_len(init, theirs_side);
        lemma_rows_before(segs, init, init.len() as int);
    }
}

/// Every row of both columns belongs to its segment: the rows of a hunk carry
/// its number, counted from zero, fillers too, and show the lines of the
/// column's own side; the rows of context belong to no hunk.
pub proof fn law_rows_belong_to_their_hunk(segs: Seq<Segment>, j: int, i: int)
    requires
        0 <= j < segs.len(),
        0 <= i < rows_of(segs[j]),
    ensures
        is_left_row(segs, column(segs, true), j, i),
        is_right_row(segs, column(segs, false), j, i),
    decreases segs.len(),
{
    let init = segs.drop_last();
    lemma_rows_before(segs, init, init.len() as int);
    lemma_column_len(init, true);
    lemma_column_len(init, false);
    if j < init.len() {
        law_rows_belong_to_their_hunk(init, j, i);
        lemma_rows_before(segs, init, j);
        assert(init.take(j) =~= segs.take(j));
    } else {
        lemma_hunks_before(segs, j);
        assert(segs.take(j) =~= init);
        let at = rows_before(segs, j);
        let left = segment_rows(segs.last(), true, next_number(init, true), conflicts(init) as int);
        let right = segment_rows(
            segs.last(),
            false,
            next_number(init, false),
            conflicts(init) as int,
        );
        assert(column(segs, true)[at + i] == left[i]);
        assert(column(segs, false)[at + i] == right[i]);
    }
}

/// There are no other rows than those of the segments, in either column.
pub proof fn law_columns_hold_all_rows(segs: Seq<Segment>)
    ensures
        column(segs, true).len() == rows_before(segs, segs.len() as int),
        column(segs, false).len() == rows_before(segs, segs.len() as int),
{
    lemma_column_len(segs, true);
    lemma_column_len(segs, false);
}

/// Rows of different hunks are told apart by their regions, across the
/// columns too, and later hunks have greater numbers.
pub proof fn law_hunks_do_not_share_rows(segs: Seq<Segment>, a: int, b: int, i: int, k: int)
    requires
        0 <= a < b < segs.len(),
        segs[a] is Conflict,
        segs[b] is Conflict,
        0 <= i < rows_of(segs[a]),
        0 <= k < rows_of(segs[b]),
    ensures
        ({
            let left = column(segs, true);
            let right = column(segs, false);
            let at = rows_before(segs, a) + i;
            let to = rows_before(segs, b) + k;
            &&& left[at].region == right[at].region
            &&& left[to].region == right[to].region
            &&& left[at].region matches Some(x) && (left[to].region matches Some(y) && x < y)
        }),
{
    law_rows_belong_to_their_hunk(segs, a, i);
    law_rows_belong_to_their_hunk(segs, b, k);
    lemma_hunks_before(segs, a + 1);
    lemma_hunks_grow(segs, a + 1, b);
}

/// Lines one below the other, each ended by a line feed.
pub open spec fn written(ls: Seq<Seq<char>>) -> Seq<char> {
    concat(ls.map_values(|l: Seq<char>| l + seq!['\n']))
}

/// Both ways to write lines give the same text.
pub proof fn lemma_written(ls: Seq<Seq<char>>)
    ensures
        joined(ls) == written(ls),
    decreases ls.len(),
{
    let all = ls.map_values(|l: Seq<char>| l + seq!['\n']);
    if ls.len() > 0 {
        lemma_written(ls.drop_last());
        let some = ls.drop_last().map_values(|l: Seq<char>| l + seq!['\n']);
        assert(all.drop_last() =~= some);
        assert(all.last() == ls.last() + seq!['\n']);
        assert(ls.last().push('\n') =~= ls.last() + seq!['\n']);
    }
}

/// Each segment adds its own text to the result: a context its lines, and a
/// hunk what was picked for its own number, ours before theirs, with a blank
/// line between the two. A hunk for which nothing is picked adds nothing.
pub proof fn law_segments_are_composed(
    segs: Seq<Segment>,
    selections: Seq<(bool, bool)>,
    j: int,
)
    requires
        0 <= j < segs.len(),
    ensures
        composed(segs.take(0), selections).len() == 0,
        composed(segs.take(segs.len() as int), selections) == composed(segs, selections),
        ({
            let before = composed(segs.take(j), selections);
            let after = composed(segs.take(j + 1), selections);
            let k = hunks_before(segs, j);
            match segs[j] {
                Segment::Context(ls) => after == before + written(ls),
                Segment::Conflict { ours, theirs } => {
                    &&& k >= selections.len() ==> after == before
                    &&& k < selections.len() && selections[k] == (false, false) ==> after == before
                    &&& k < selections.len() && selections[k] == (true, false) ==> after == before
                        + written(ours)
                    &&& k < selections.len() && selections[k] == (false, true) ==> after == before
                        + written(theirs)
                    &&& k < selections.len() && selections[k] == (true, true) && ours.len() > 0
                        ==> after == before + written(ours) + seq!['\n'] + written(theirs)
                    &&& k < selections.len() && selections[k] == (true, true) && ours.len() == 0
                        ==> after == before + written(theirs)
                },
            }
        }),
{
    assert(segs.take(segs.len() as int) =~= segs);
    lemma_hunks_before(segs, j);
    assert(segs.take(j + 1).drop_last() =~= segs.take(j));
    assert(segs.take(j + 1).last() == segs[j]);
    let before = composed(segs.take(j), selections);
    let after = composed(segs.take(j + 1), selections);
    let pick = picked(selections, conflicts(segs.take(j)));
    assert(after == before + segment_text(segs[j], pick));
    match segs[j] {
        Segment::Context(ls) => {
            lemma_written(ls);
        },
        Segment::Conflict { ours, theirs } => {
            lemma_written(ours);
            lemma_written(theirs);
            if pick.0 && pick.1 && ours.len() > 0 {
                assert(after =~= before + written(ours) + seq!['\n'] + written(theirs));
            } else if pick.0 && pick.1 {
                assert(written(ours).len() == 0);
                assert(after =~= before + written(theirs));
            } else if pick.0 {
                assert(after =~= before + written(ours));
            } else if pick.1 {
                assert(after =~= before + written(theirs));
            } else {
                assert(after =~= before);
            }
        },
    }
}

/// What is picked for a hunk changes nothing of the text before it.
pub proof fn law_picks_act_on_their_hunk(
    segs: Seq<Segment>,
    a: Seq<(bool, bool)>,
    b: Seq<(bool, bool)>,
    j: int,
)
    requires
        0 <= j <= segs.len(),
        a.len() == b.len(),
        forall|k: int| 0 <= k < a.len() && k < hunks_before(segs, j) ==> a[k] == b[k],
    ensures
        composed(segs.take(j), a) == composed(segs.take(j), b),
    decreases j,
{
    if j > 0 {
        lemma_hunks_before(segs, j);
        lemma_hunks_before(segs, j - 1);
        law_picks_act_on_their_hunk(segs, a, b, j - 1);
        assert(segs.take(j).drop_last() =~= segs.take(j - 1));
        assert(segs.take(j).last() == segs[j - 1]);
    }
}

/// A line that begins with seven times the same character, and goes on with
/// a label.
pub open spec fn marker_line(c: char, label: Seq<char>) -> Seq<char> {
    seq![c, c, c, c, c, c, c] + label
}

/// Whether a line does not begin with seven times a character.
pub open spec fn is_unmarked(line: Seq<char>, c: char) -> bool {
    line.len() < 7 || exists|i: int| 0 <= i < 7 && #[trigger] line[i] != c
}

/// Whether lines can stand in a side of a hunk: none of them is a marker.
pub open spec fn are_side_lines(ls: Seq<Seq<char>>) -> bool {
    forall|i: int|
        0 <= i < ls.len() ==> is_unmarked(#[trigger] ls[i], '<') && is_unmarked(ls[i], '=')
            && is_unmarked(ls[i], '>')
}

/// Whether lines can stand outside of hunks: none of them begins one.
pub open spec fn are_context_lines(ls: Seq<Seq<char>>) -> bool {
    ls.len() > 0 && forall|i: int| 0 <= i < ls.len() ==> is_unmarked(#[trigger] ls[i], '<')
}

/// Whether segments are those of a file: the context between two hunks is one
/// segment.
pub open spec fn are_segments(segs: Seq<Segment>) -> bool {
    &&& forall|j: int|
        0 <= j < segs.len() ==> match #[trigger] segs[j] {
            Segment::Context(ls) => are_context_lines(ls),
            Segment::Conflict { ours, theirs } => are_side_lines(ours) && are_side_lines(theirs),
        }
    &&& forall|j: int|
        0 < j < segs.len() && #[trigger] segs[j] is Context ==> segs[j - 1] is Conflict
}

/// The lines of a hunk as Git writes them, the names of the sides behind the
/// markers.
pub open spec fn hunk_lines(
    ours: Seq<Seq<char>>,
    theirs: Seq<Seq<char>>,
    our_name: Seq<char>,
    their_name: Seq<char>,
) -> Seq<Seq<char>> {
    seq![marker_line('<', our_name)] + ours + seq![marker_line('=', Seq::empty())] + theirs
        + seq![marker_line('>', their_name)]
}

/// The lines of a conflicted file as Git writes them.
pub open spec fn conflicted_lines(
    segs: Seq<Segment>,
    our_name: Seq<char>,
    their_name: Seq<char>,
) -> Seq<Seq<char>>
    decreases segs.len(),
{
    if segs.len() == 0 {
        Seq::empty()
    } else {
        conflicted_lines(segs.drop_last(), our_name, their_name) + (match segs.last() {
            Segment::Context(ls) => ls,
            Segment::Conflict { ours, theirs } => hunk_lines(ours, theirs, our_name, their_name),
        })
    }
}

proof fn lemma_markers(c: char, label: Seq<char>, other: char)
    ensures
        is_marker(marker_line(c, label), other) == (c == other),
{
    let line = marker_line(c, label);
    assert(forall|i: int| 0 <= i < 7 ==> line[i] == c);
    assert(line[0] == c);
}

proof fn lemma_unmarked(line: Seq<char>, c: char)
    ensures
        is_unmarked(line, c) == !is_marker(line, c),
{
}

proof fn lemma_parse_context(head: Seq<Seq<char>>, ls: Seq<Seq<char>>)
    requires
        !parse_lines(head).in_conflict,
        forall|i: int| 0 <= i < ls.len() ==> is_unmarked(#[trigger] ls[i], '<'),
    ensures
        parse_lines(head + ls) == (Parse {
            ctx: parse_lines(head).ctx + ls,
            ..parse_lines(head)
        }),
    decreases ls.len(),
{
    if ls.len() == 0 {
        assert(head + ls =~= head);
        assert(parse_lines(head).ctx + ls =~= parse_lines(head).ctx);
    } else {
        let init = ls.drop_last();
        assert forall|i: int| 0 <= i < init.len() implies is_unmarked(#[trigger] init[i], '<') by {
            assert(init[i] == ls[i]);
        }
        lemma_parse_context(head, init);
        assert((head + ls).drop_last() =~= head + init);
        assert((head + ls).last() == ls.last());
        assert(is_unmarked(ls[ls.len() - 1], '<'));
        lemma_unmarked(ls.last(), '<');
        assert((parse_lines(head).ctx + init).push(ls.last()) =~= parse_lines(head).ctx + ls);
    }
}

proof fn lemma_parse_side(head: Seq<Seq<char>>, ls: Seq<Seq<char>>)
    requires
        parse_lines(head).in_conflict,
        are_side_lines(ls),
    ensures
        ({
            let p = parse_lines(head);
            parse_lines(head + ls) == (if p.in_theirs {
                Parse { theirs: p.theirs + ls, ..p }
            } else {
                Parse { ours: p.ours + ls, ..p }
            })
        }),
    decreases ls.len(),
{
    let p = parse_lines(head);
    if ls.len() == 0 {
        assert(head + ls =~= head);
        assert(p.theirs + ls =~= p.theirs);
        assert(p.ours + ls =~= p.ours);
    } else {
        let init = ls.drop_last();
        assert forall|i: int| 0 <= i < init.len() implies is_unmarked(#[trigger] init[i], '<')
            && is_unmarked(init[i], '=') && is_unmarked(init[i], '>') by {
            assert(init[i] == ls[i]);
        }
        lemma_parse_side(head, init);
        assert((head + ls).drop_last() =~= head + init);
        assert((head + ls).last() == ls.last());
        assert(is_unmarked(ls[ls.len() - 1], '<'));
        lemma_unmarked(ls.last(), '<');
        lemma_unmarked(ls.last(), '=');
        lemma_unmarked(ls.last(), '>');
        assert((p.theirs + init).push(ls.last()) =~= p.theirs + ls);
        assert((p.ours + init).push(ls.last()) =~= p.ours + ls);
    }
}

proof fn lemma_parse_push(head: Seq<Seq<char>>, line: Seq<char>)
    ensures
        parse_lines(head + seq![line]) == parse_line(parse_lines(head), line),
{
    assert((head + seq![line]).drop_last() =~= head);
}

proof fn lemma_parse_hunk(
    head: Seq<Seq<char>>,
    ours: Seq<Seq<char>>,
    theirs: Seq<Seq<char>>,
    our_name: Seq<char>,
    their_name: Seq<char>,
)
    requires
        !parse_lines(head).in_conflict,
        are_side_lines(ours),
        are_side_lines(theirs),
    ensures
        ({
            let p = parse_lines(head + hunk_lines(ours, theirs, our_name, their_name));
            &&& p.out == flush(parse_lines(head)).out.push(Segment::Conflict { ours, theirs })
            &&& p.ctx.len() == 0
            &&& !p.in_conflict
        }),
{
    let open = marker_line('<', our_name);
    let middle = marker_line('=', Seq::empty());
    let close = marker_line('>', their_name);
    lemma_markers('<', our_name, '<');
    lemma_markers('=', Seq::empty(), '<');
    lemma_markers('=', Seq::empty(), '=');
    lemma_markers('>', their_name, '<');
    lemma_markers('>', their_name, '=');
    lemma_markers('>', their_name, '>');
    let a = head + seq![open];
    lemma_parse_push(head, open);
    let b = a + ours;
    lemma_parse_side(a, ours);
    assert(Seq::<Seq<char>>::empty() + ours =~= ours);
    let c = b + seq![middle];
    lemma_parse_push(b, middle);
    let d = c + theirs;
    lemma_parse_side(c, theirs);
    assert(Seq::<Seq<char>>::empty() + theirs =~= theirs);
    lemma_parse_push(d, close);
    assert(head + hunk_lines(ours, theirs, our_name, their_name) =~= d + seq![close]);
}

proof fn lemma_init_segments(segs: Seq<Segment>)
    requires
        are_segments(segs),
        segs.len() > 0,
    ensures
        are_segments(segs.drop_last()),
{
    let init = segs.drop_last();
    assert forall|j: int| 0 <= j < init.len() implies match #[trigger] init[j] {
        Segment::Context(ls) => are_context_lines(ls),
        Segment::Conflict { ours, theirs } => are_side_lines(ours) && are_side_lines(theirs),
    } by {
        assert(init[j] == segs[j]);
    }
    assert forall|j: int| 0 < j < init.len() && #[trigger] init[j] is Context implies init[j - 1]
        is Conflict by {
        assert(segs[j] is Context);
    }
}

proof fn lemma_read_back(segs: Seq<Segment>, our_name: Seq<char>, their_name: Seq<char>)
    requires
        are_segments(segs),
    ensures
        ({
            let p = parse_lines(conflicted_lines(segs, our_name, their_name));
            &&& flush(p).out == segs
            &&& !p.in_conflict
            &&& segs.len() == 0 || segs.last() is Conflict ==> p.ctx.len() == 0 && p.out == segs
        }),
    decreases segs.len(),
{
    if segs.len() == 0 {
        assert(flush(parse_lines(Seq::empty())).out =~= segs);
    } else {
        let init = segs.drop_last();
        lemma_init_segments(segs);
        lemma_read_back(init, our_name, their_name);
        let head = conflicted_lines(init, our_name, their_name);
        let last = segs[segs.len() - 1];
        assert(segs =~= init.push(last));
        match last {
            Segment::Context(ls) => {
                if init.len() > 0 {
                    assert(init.last() == segs[segs.len() - 2]);
                }
                lemma_parse_context(head, ls);
                assert(parse_lines(head).ctx + ls =~= ls);
                assert(flush(parse_lines(head + ls)).out =~= segs);
            },
            Segment::Conflict { ours, theirs } => {
                lemma_parse_hunk(head, ours, theirs, our_name, their_name);
            },
        }
    }
}

/// No hunk of a conflicted file begins inside another.
pub proof fn lemma_hunks_are_apart(
    segs: Seq<Segment>,
    our_name: Seq<char>,
    their_name: Seq<char>,
    i: int,
)
    requires
        are_segments(segs),
        0 <= i < conflicted_lines(segs, our_name, their_name).len(),
        is_marker(conflicted_lines(segs, our_name, their_name)[i], '<'),
    ensures
        !parse_lines(conflicted_lines(segs, our_name, their_name).take(i)).in_conflict,
        !parse_lines(conflicted_lines(segs, our_name, their_name)).in_conflict,
    decreases segs.len(),
{
    lemma_read_back(segs, our_name, their_name);
    let init = segs.drop_last();
    lemma_init_segments(segs);
    let head = conflicted_lines(init, our_name, their_name);
    let all = conflicted_lines(segs, our_name, their_name);
    lemma_read_back(init, our_name, their_name);
    if i < head.len() {
        assert(all[i] == head[i]);
        assert(all.take(i) =~= head.take(i));
        lemma_hunks_are_apart(init, our_name, their_name, i);
    } else {
        let k = i - head.len();
        match segs[segs.len() - 1] {
            Segment::Context(ls) => {
                assert(all[i] == ls[k]);
                assert(is_unmarked(ls[k], '<'));
            },
            Segment::Conflict { ours, theirs } => {
                lemma_markers('=', Seq::empty(), '<');
                lemma_markers('>', their_name, '<');
                if k == 0 {
                    assert(all.take(i) =~= head);
                } else if k <= ours.len() {
                    assert(all[i] == ours[k - 1]);
                    assert(is_unmarked(ours[k - 1], '<'));
                } else if k == ours.len() + 1 {
                    assert(all[i] == marker_line('=', Seq::empty()));
                } else if k < ours.len() + 2 + theirs.len() {
                    assert(all[i] == theirs[k - ours.len() - 2]);
                    assert(is_unmarked(theirs[k - ours.len() - 2], '<'));
                } else {
                    assert(all[i] == marker_line('>', their_name));
                }
            },
        }
    }
}

/// The last hunk of a conflicted file is ended.
pub proof fn lemma_whole_is_settled(
    segs: Seq<Segment>,
    our_name: Seq<char>,
    their_name: Seq<char>,
)
    requires
        are_segments(segs),
    ensures
        !parse_lines(conflicted_lines(segs, our_name, their_name)).in_conflict,
{
    lemma_read_back(segs, our_name, their_name);
}

/// Both ways to count hunks give the same number.
pub proof fn lemma_hunks_counted(segs: Seq<Segment>)
    ensures
        hunks_before(segs, segs.len() as int) == conflicts(segs),
{
    lemma_hunks_before(segs, segs.len() as int);
    assert(segs.take(segs.len() as int) =~= segs);
}

/// A conflicted file is read back as it was written: the lines between
/// `<<<<<<<` and `=======` are ours, those up to `>>>>>>>` theirs, and the
/// others context, all in order.
pub proof fn law_conflicted_files_are_read_back(
    text: Seq<char>,
    segs: Seq<Segment>,
    our_name: Seq<char>,
    their_name: Seq<char>,
)
    requires
        are_segments(segs),
        lines(text) == conflicted_lines(segs, our_name, their_name),
    ensures
        parsed(text) == segs,
{
    lemma_read_back(segs, our_name, their_name);
}

/// The lines that stay of a file when one side is kept of every hunk, or
/// both, with a blank line between them.
pub open spec fn kept_lines(segs: Seq<Segment>, choice: EditorResolution) -> Seq<Seq<char>>
    decreases segs.len(),
{
    if segs.len() == 0 {
        Seq::empty()
    } else {
        kept_lines(segs.drop_last(), choice) + (match segs.last() {
            Segment::Context(ls) => ls,
            Segment::Conflict { ours, theirs } => match choice {
                EditorResolution::Ours => ours,
                EditorResolution::Theirs => theirs,
                EditorResolution::Both => if ours.len() == 0 {
                    theirs
                } else {
                    ours + seq![Seq::empty()] + theirs
                },
            },
        })
    }
}

proof fn lemma_joined_add(a: Seq<Seq<char>>, b: Seq<Seq<char>>)
    ensures
        joined(a + b) == joined(a) + joined(b),
    decreases b.len(),
{
    if b.len() == 0 {
        assert(a + b =~= a);
        assert(joined(a) + joined(b) =~= joined(a));
    } else {
        lemma_joined_add(a, b.drop_last());
        assert((a + b).drop_last() =~= a + b.drop_last());
        assert(joined(a + b) =~= joined(a) + joined(b));
    }
}

/// Picking the same of every hunk composes the lines that stay.
pub proof fn lemma_kept_lines(
    segs: Seq<Segment>,
    choice: EditorResolution,
    selections: Seq<(bool, bool)>,
)
    requires
        conflicts(segs) <= selections.len(),
        forall|k: int|
            0 <= k < selections.len() ==> #[trigger] selections[k] == (
                choice != EditorResolution::Theirs,
                choice != EditorResolution::Ours,
            ),
    ensures
        composed(segs, selections) == joined(kept_lines(segs, choice)),
    decreases segs.len(),
{
    if segs.len() > 0 {
        let init = segs.drop_last();
        lemma_kept_lines(init, choice, selections);
        let before = kept_lines(init, choice);
        match segs.last() {
            Segment::Context(ls) => {
                lemma_joined_add(before, ls);
            },
            Segment::Conflict { ours, theirs } => {
                let pick = selections[conflicts(init) as int];
                assert(pick == picked(selections, conflicts(init)));
                match choice {
                    EditorResolution::Ours => {
                        lemma_joined_add(before, ours);
                        assert(segment_text(segs.last(), pick) =~= joined(ours));
                    },
                    EditorResolution::Theirs => {
                        lemma_joined_add(before, theirs);
                        assert(segment_text(segs.last(), pick) =~= joined(theirs));
                    },
                    EditorResolution::Both => {
                        if ours.len() == 0 {
                            lemma_joined_add(before, theirs);
                            assert(segment_text(segs.last(), pick) =~= joined(theirs));
                        } else {
                            let blank = seq![Seq::<char>::empty()];
                            assert(blank.drop_last() =~= Seq::empty());
                            assert(joined(blank.drop_last()) =~= Seq::empty());
                            assert(blank.last().push('\n') =~= seq!['\n']);
                            assert(joined(blank) =~= seq!['\n']);
                            lemma_joined_add(ours, blank);
                            lemma_joined_add(ours + blank, theirs);
                            lemma_joined_add(before, ours + blank + theirs);
                            assert(segment_text(segs.last(), pick) =~= joined(
                                ours + blank + theirs,
                            ));
                        }
                    },
                }
            },
        }
    }
}

} // verus!
