//! The line-by-line three-way editor: parsing a conflicted text into
//! segments, laying the two sides out next to each other, and composing the
//! resolved text from what was picked.

use vstd::prelude::*;

use crate::text::{chars_of, lines, lines_of, views};
use crate::ui::markers::{is_marker, starts_with_marker};
use crate::ui::three_way_laws::{
    is_left_row, is_right_row, law_columns_hold_all_rows, law_rows_belong_to_their_hunk, rows_before,
    rows_of,
};

verus! {

/// A stretch of a conflicted text, by the contents of its lines.
pub enum Segment {
    Context(Seq<Seq<char>>),
    Conflict { ours: Seq<Seq<char>>, theirs: Seq<Seq<char>> },
}

/// One segment of a parsed three-way file: either a block of context lines,
/// or a conflict hunk with the variants of both sides.
#[derive(Debug, Clone, PartialEq, Eq)]
pub enum ThreeWaySegment {
    Context(Vec<String>),
    Conflict { ours: Vec<String>, theirs: Vec<String> },
}

impl View for ThreeWaySegment {
    type V = Segment;

    open spec fn view(&self) -> Segment {
        match self {
            ThreeWaySegment::Context(ls) => Segment::Context(views(ls@)),
            ThreeWaySegment::Conflict { ours, theirs } => Segment::Conflict {
                ours: views(ours@),
                theirs: views(theirs@),
            },
        }
    }
}

/// The segments of a list.
pub open spec fn segments(list: Seq<ThreeWaySegment>) -> Seq<Segment> {
    list.map_values(|s: ThreeWaySegment| s@)
}

/// What is known of a text after some of its lines.
pub struct Parse {
    pub out: Seq<Segment>,
    pub ctx: Seq<Seq<char>>,
    pub in_conflict: bool,
    pub in_theirs: bool,
    pub ours: Seq<Seq<char>>,
    pub theirs: Seq<Seq<char>>,
}

/// Puts the context lines that were gathered into a segment of their own.
pub open spec fn flush(p: Parse) -> Parse {
    if p.ctx.len() > 0 {
        Parse { out: p.out.push(Segment::Context(p.ctx)), ctx: Seq::empty(), ..p }
    } else {
        p
    }
}

/// The markers count as they do in `scan_line`.
pub open spec fn parse_line(p: Parse, line: Seq<char>) -> Parse {
    if is_marker(line, '<') {
        Parse {
            in_conflict: true,
            in_theirs: false,
            ours: Seq::empty(),
            theirs: Seq::empty(),
            ..flush(p)
        }
    } else if !p.in_conflict {
        Parse { ctx: p.ctx.push(line), ..p }
    } else if is_marker(line, '=') {
        Parse { in_theirs: true, ..p }
    } else if is_marker(line, '>') {
        Parse {
            out: p.out.push(Segment::Conflict { ours: p.ours, theirs: p.theirs }),
            in_conflict: false,
            in_theirs: false,
            ours: Seq::empty(),
            theirs: Seq::empty(),
            ..p
        }
    } else if p.in_theirs {
        Parse { theirs: p.theirs.push(line), ..p }
    } else {
        Parse { ours: p.ours.push(line), ..p }
    }
}

pub open spec fn parse_lines(ls: Seq<Seq<char>>) -> Parse
    decreases ls.len(),
{
    if ls.len() == 0 {
        Parse {
            out: Seq::empty(),
            ctx: Seq::empty(),
            in_conflict: false,
            in_theirs: false,
            ours: Seq::empty(),
            theirs: Seq::empty(),
        }
    } else {
        parse_line(parse_lines(ls.drop_last()), ls.last())
    }
}

/// The segments of a text. The lines of a hunk that is not ended are in none.
pub open spec fn parsed(text: Seq<char>) -> Seq<Segment> {
    flush(parse_lines(lines(text))).out
}

/// Puts the context lines that were gathered into a segment of their own.
fn flush_context(ctx: Vec<String>, out: &mut Vec<ThreeWaySegment>)
    ensures
        segments(final(out)@) == (if ctx@.len() > 0 {
            segments(old(out)@).push(Segment::Context(views(ctx@)))
        } else {
            segments(old(out)@)
        }),
{
    if ctx.len() > 0 {
        let ghost before = out@;
        let seg = ThreeWaySegment::Context(ctx);
        out.push(seg);
        proof {
            assert(segments(out@) == segments(before).push(seg@));
        }
    }
}

/// Appends a string to a list.
fn push_line(list: &mut Vec<String>, line: String)
    ensures
        views(final(list)@) == views(old(list)@).push(line@),
{
    let ghost before = list@;
    list.push(line);
    proof {
        assert(views(list@) == views(before).push(line@));
    }
}

impl ThreeWaySegment {
    /// Parses a text into its segments.
    pub fn parse(text: &str) -> (out: Vec<ThreeWaySegment>)
        ensures
            segments(out@) == parsed(text@),
    {
        let all = lines_of(text);
        let ghost ls = lines(text@);
        let mut out: Vec<ThreeWaySegment> = Vec::new();
        let mut ctx: Vec<String> = Vec::new();
        let mut in_conflict: bool = false;
        let mut in_theirs: bool = false;
        let mut ours: Vec<String> = Vec::new();
        let mut theirs: Vec<String> = Vec::new();
        let mut i: usize = 0;
        while i < all.len()
            invariant
                i <= all@.len(),
                views(all@) == ls,
                ({
                    let p = parse_lines(ls.take(i as int));
                    &&& segments(out@) == p.out
                    &&& views(ctx@) == p.ctx
                    &&& in_conflict == p.in_conflict
                    &&& in_theirs == p.in_theirs
                    &&& views(ours@) == p.ours
                    &&& views(theirs@) == p.theirs
                }),
            decreases all.len() - i,
        {
            let line = chars_of(all[i].as_str());
            proof {
                assert(ls.take(i + 1).drop_last() == ls.take(i as int));
                assert(views(all@)[i as int] == all@[i as int]@);
            }
            if starts_with_marker(&line, '<') {
                flush_context(ctx, &mut out);
                ctx = Vec::new();
                in_conflict = true;
                in_theirs = false;
                ours = Vec::new();
                theirs = Vec::new();
            } else if !in_conflict {
                push_line(&mut ctx, all[i].clone());
            } else if starts_with_marker(&line, '=') {
                in_theirs = true;
            } else if starts_with_marker(&line, '>') {
                let ghost before = out@;
                let seg = ThreeWaySegment::Conflict { ours, theirs };
                out.push(seg);
                proof {
                    assert(segments(out@) == segments(before).push(seg@));
                }
                in_conflict = false;
                in_theirs = false;
                ours = Vec::new();
                theirs = Vec::new();
            } else if in_theirs {
                push_line(&mut theirs, all[i].clone());
            } else {
                push_line(&mut ours, all[i].clone());
            }
            i += 1;
        }
        proof {
            assert(ls.take(ls.len() as int) == ls);
        }
        flush_context(ctx, &mut out);
        out
    }

    pub fn is_conflict(&self) -> (r: bool)
        ensures
            r == self@ is Conflict,
    {
        match self {
            ThreeWaySegment::Context(_) => false,
            ThreeWaySegment::Conflict { .. } => true,
        }
    }
}

/// Lines put one below the other, each with a line feed.
pub open spec fn joined(ls: Seq<Seq<char>>) -> Seq<char>
    decreases ls.len(),
{
    if ls.len() == 0 {
        Seq::empty()
    } else {
        joined(ls.drop_last()) + ls.last().push('\n')
    }
}

/// How many hunks there are.
pub open spec fn conflicts(segs: Seq<Segment>) -> nat
    decreases segs.len(),
{
    if segs.len() == 0 {
        0
    } else {
        conflicts(segs.drop_last()) + (if segs.last() is Conflict {
            1nat
        } else {
            0
        })
    }
}

/// What was picked for hunk `k`: whether ours, whether theirs.
pub open spec fn picked(selections: Seq<(bool, bool)>, k: nat) -> (bool, bool) {
    if k < selections.len() {
        selections[k as int]
    } else {
        (false, false)
    }
}

/// What a segment contributes to the resolved text. Two picked sides are
/// kept apart by a blank line.
pub open spec fn segment_text(seg: Segment, pick: (bool, bool)) -> Seq<char> {
    match seg {
        Segment::Context(ls) => joined(ls),
        Segment::Conflict { ours, theirs } => {
            let head = if pick.0 {
                joined(ours)
            } else {
                Seq::empty()
            };
            let gap = if pick.0 && pick.1 && ours.len() > 0 {
                seq!['\n']
            } else {
                Seq::empty()
            };
            let tail = if pick.1 {
                joined(theirs)
            } else {
                Seq::empty()
            };
            head + gap + tail
        },
    }
}

/// The resolved text.
pub open spec fn composed(segs: Seq<Segment>, selections: Seq<(bool, bool)>) -> Seq<char>
    decreases segs.len(),
{
    if segs.len() == 0 {
        Seq::empty()
    } else {
        let init = segs.drop_last();
        composed(init, selections) + segment_text(
            segs.last(),
            picked(selections, conflicts(init)),
        )
    }
}

/// Appends lines, each with a line feed.
fn append_lines(out: &mut String, ls: &Vec<String>)
    ensures
        final(out)@ == old(out)@ + joined(views(ls@)),
{
    let ghost start = out@;
    let mut i: usize = 0;
    proof {
        assert(start + joined(views(ls@).take(0)) == start);
    }
    while i < ls.len()
        invariant
            i <= ls@.len(),
            out@ == start + joined(views(ls@).take(i as int)),
        decreases ls.len() - i,
    {
        proof {
            assert(views(ls@).take(i + 1).drop_last() == views(ls@).take(i as int));
            assert(views(ls@)[i as int] == ls@[i as int]@);
        }
        out.append(ls[i].as_str());
        out.push('\n');
        proof {
            assert(out@ == start + joined(views(ls@).take(i as int)) + ls@[i as int]@.push('\n'));
        }
        i += 1;
    }
    proof {
        assert(views(ls@).take(ls@.len() as int) == views(ls@));
    }
}

/// Composes the resolved text from the segments and one pair of flags per
/// hunk (ours picked, theirs picked). A hunk without a pair, or with neither
/// side picked, is left out.
pub fn compose_three_way_resolution(
    segs: &[ThreeWaySegment],
    selections: &[(bool, bool)],
) -> (out: String)
    ensures
        out@ == composed(segments(segs@), selections@),
{
    let mut out: String = String::new();
    let mut k: usize = 0;
    let mut i: usize = 0;
    let ghost all = segments(segs@);
    while i < segs.len()
        invariant
            i <= segs@.len(),
            all == segments(segs@),
            k == conflicts(all.take(i as int)),
            k <= i,
            out@ == composed(all.take(i as int), selections@),
        decreases segs.len() - i,
    {
        proof {
            assert(all.take(i + 1).drop_last() == all.take(i as int));
            assert(all.take(i + 1).last() == segs@[i as int]@);
        }
        let ghost start = out@;
        match &segs[i] {
            ThreeWaySegment::Context(ls) => {
                append_lines(&mut out, ls);
            },
            ThreeWaySegment::Conflict { ours, theirs } => {
                let pick = if k < selections.len() {
                    selections[k]
                } else {
                    (false, false)
                };
                if pick.0 {
                    append_lines(&mut out, ours);
                }
                if pick.1 {
                    if pick.0 && ours.len() > 0 {
                        out.push('\n');
                    }
                    append_lines(&mut out, theirs);
                }
                k += 1;
                proof {
                    assert(out@ == start + segment_text(segs@[i as int]@, pick));
                }
            },
        }
        i += 1;
    }
    proof {
        assert(all.take(all.len() as int) == all);
    }
    out
}

/// How many hunks there are.
pub fn region_count(segs: &[ThreeWaySegment]) -> (n: usize)
    ensures
        n == conflicts(segments(segs@)),
{
    let mut n: usize = 0;
    let mut i: usize = 0;
    let ghost all = segments(segs@);
    while i < segs.len()
        invariant
            i <= segs@.len(),
            all == segments(segs@),
            n == conflicts(all.take(i as int)),
            n <= i,
        decreases segs.len() - i,
    {
        proof {
            assert(all.take(i + 1).drop_last() == all.take(i as int));
            assert(all.take(i + 1).last() == segs@[i as int]@);
        }
        if segs[i].is_conflict() {
            n += 1;
        }
        i += 1;
    }
    proof {
        assert(all.take(all.len() as int) == all);
    }
    n
}

#[derive(Debug, Clone, Copy, PartialEq, Eq, Structural)]
pub enum RowKind {
    Context,
    ConflictOurs,
    ConflictTheirs,
    /// Inserted to keep the two columns aligned when one side of a hunk has
    /// more lines than the other.
    Filler,
}

/// A row of one column.
pub struct Row {
    pub line_no: Option<int>,
    pub kind: RowKind,
    pub text: Seq<char>,
    pub region: Option<int>,
}

#[derive(Debug, Clone, PartialEq, Eq)]
pub struct NumberedRow {
    pub line_no: Option<usize>,
    pub kind: RowKind,
    pub text: String,
    /// Region index for conflict rows and filler rows.
    pub region: Option<usize>,
}

/// A number that may be missing.
pub open spec fn as_index(n: Option<usize>) -> Option<int> {
    match n {
        Some(n) => Some(n as int),
        None => None,
    }
}

impl View for NumberedRow {
    type V = Row;

    open spec fn view(&self) -> Row {
        Row {
            line_no: as_index(self.line_no),
            kind: self.kind,
            text: self.text@,
            region: as_index(self.region),
        }
    }
}

/// The rows of a list.
pub open spec fn rows(list: Seq<NumberedRow>) -> Seq<Row> {
    list.map_values(|r: NumberedRow| r@)
}

/// The lines that a segment shows on one side.
pub open spec fn side_lines(seg: Segment, theirs_side: bool) -> Seq<Seq<char>> {
    match seg {
        Segment::Context(ls) => ls,
        Segment::Conflict { ours, theirs } => if theirs_side {
            theirs
        } else {
            ours
        },
    }
}

/// How many rows a segment takes, on either side.
pub open spec fn height(seg: Segment) -> nat {
    match seg {
        Segment::Context(ls) => ls.len(),
        Segment::Conflict { ours, theirs } => if ours.len() >= theirs.len() {
            ours.len()
        } else {
            theirs.len()
        },
    }
}

/// Row `i` of a stretch of rows that starts with the lines `ls`, numbered
/// from `first` on, and goes on with fillers.
pub open spec fn side_row(
    ls: Seq<Seq<char>>,
    kind: RowKind,
    first: int,
    region: Option<int>,
    i: int,
) -> Row {
    if i < ls.len() {
        Row { line_no: Some(first + i), kind, text: ls[i], region }
    } else {
        Row { line_no: None, kind: RowKind::Filler, text: Seq::empty(), region }
    }
}

/// Row `i` of a segment, on one side, whose first line has the number `first`.
pub open spec fn segment_row(
    seg: Segment,
    theirs_side: bool,
    first: int,
    region: int,
    i: int,
) -> Row {
    let kind = if seg is Context {
        RowKind::Context
    } else if theirs_side {
        RowKind::ConflictTheirs
    } else {
        RowKind::ConflictOurs
    };
    let region = if seg is Context {
        None
    } else {
        Some(region)
    };
    side_row(side_lines(seg, theirs_side), kind, first, region, i)
}

/// The rows of a segment, on one side.
pub open spec fn segment_rows(
    seg: Segment,
    theirs_side: bool,
    first: int,
    region: int,
) -> Seq<Row> {
    Seq::new(height(seg), |i: int| segment_row(seg, theirs_side, first, region, i))
}

/// The number of the line that follows the segments on one side. Numbers
/// start at one.
pub open spec fn next_number(segs: Seq<Segment>, theirs_side: bool) -> int
    decreases segs.len(),
{
    if segs.len() == 0 {
        1
    } else {
        next_number(segs.drop_last(), theirs_side) + side_lines(segs.last(), theirs_side).len()
    }
}

/// The column of one side.
pub open spec fn column(segs: Seq<Segment>, theirs_side: bool) -> Seq<Row>
    decreases segs.len(),
{
    if segs.len() == 0 {
        Seq::empty()
    } else {
        let init = segs.drop_last();
        column(init, theirs_side) + segment_rows(
            segs.last(),
            theirs_side,
            next_number(init, theirs_side),
            conflicts(init) as int,
        )
    }
}

/// Appends the rows of one side of a segment: `ls` are its lines, which get
/// numbers from `first` on, and fillers complete them to `high` rows.
fn append_rows(
    out: &mut Vec<NumberedRow>,
    ls: &Vec<String>,
    high: usize,
    kind: RowKind,
    first: usize,
    region: Option<usize>,
)
    requires
        first + ls@.len() <= usize::MAX,
        ls@.len() <= high,
    ensures
        rows(final(out)@) == rows(old(out)@) + Seq::new(
            high as nat,
            |i: int| side_row(views(ls@), kind, first as int, as_index(region), i),
        ),
{
    let ghost start = rows(out@);
    let ghost added = Seq::new(
        high as nat,
        |i: int| side_row(views(ls@), kind, first as int, as_index(region), i),
    );
    let mut i: usize = 0;
    proof {
        assert(start + added.take(0) == start);
    }
    while i < high
        invariant
            i <= high,
            ls@.len() <= high,
            first + ls@.len() <= usize::MAX,
            added.len() == high,
            forall|k: int|
                0 <= k < high ==> #[trigger] added[k] == side_row(
                    views(ls@),
                    kind,
                    first as int,
                    as_index(region),
                    k,
                ),
            rows(out@) == start + added.take(i as int),
        decreases high - i,
    {
        let row = if i < ls.len() {
            NumberedRow { line_no: Some(first + i), kind, text: ls[i].clone(), region }
        } else {
            NumberedRow { line_no: None, kind: RowKind::Filler, text: String::new(), region }
        };
        let ghost before = out@;
        out.push(row);
        proof {
            assert(rows(out@) == rows(before).push(row@));
            assert(row@ == added[i as int]);
            assert(added.take(i + 1) == added.take(i as int).push(added[i as int]));
        }
        i += 1;
    }
    proof {
        assert(added.take(high as int) == added);
    }
}

proof fn lemma_next_number(segs: Seq<Segment>, n: int, theirs_side: bool)
    requires
        0 <= n <= segs.len(),
    ensures
        1 <= next_number(segs.take(n), theirs_side) <= next_number(segs, theirs_side),
    decreases segs.len(),
{
    if n == segs.len() {
        assert(segs.take(n) == segs);
        if n > 0 {
            lemma_next_number(segs.drop_last(), n - 1, theirs_side);
            assert(segs.drop_last().take(n - 1) == segs.drop_last());
        }
    } else {
        lemma_next_number(segs.drop_last(), n, theirs_side);
        assert(segs.drop_last().take(n) == segs.take(n));
    }
}

/// Builds the rows of the two columns, theirs on the left and ours on the
/// right. Fillers inside each hunk make the columns equally high.
pub fn layout_three_way_rows(segs: &[ThreeWaySegment]) -> (out: (
    Vec<NumberedRow>,
    Vec<NumberedRow>,
))
    requires
        next_number(segments(segs@), true) <= usize::MAX,
        next_number(segments(segs@), false) <= usize::MAX,
    ensures
        rows(out.0@) == column(segments(segs@), true),
        rows(out.1@) == column(segments(segs@), false),
        out.0@.len() == out.1@.len() == rows_before(segments(segs@), segs@.len() as int),
        forall|j: int, i: int|
            0 <= j < segs@.len() && 0 <= i < rows_of(segs@[j]@) ==> #[trigger] is_left_row(
                segments(segs@),
                rows(out.0@),
                j,
                i,
            ),
        forall|j: int, i: int|
            0 <= j < segs@.len() && 0 <= i < rows_of(segs@[j]@) ==> #[trigger] is_right_row(
                segments(segs@),
                rows(out.1@),
                j,
                i,
            ),
{
    let mut left: Vec<NumberedRow> = Vec::new();
    let mut right: Vec<NumberedRow> = Vec::new();
    let mut left_no: usize = 1;
    let mut right_no: usize = 1;
    let mut region: usize = 0;
    let mut i: usize = 0;
    let ghost all = segments(segs@);
    while i < segs.len()
        invariant
            i <= segs@.len(),
            all == segments(segs@),
            next_number(all, true) <= usize::MAX,
            next_number(all, false) <= usize::MAX,
            region == conflicts(all.take(i as int)),
            region <= i,
            left_no == next_number(all.take(i as int), true),
            right_no == next_number(all.take(i as int), false),
            rows(left@) == column(all.take(i as int), true),
            rows(right@) == column(all.take(i as int), false),
        decreases segs.len() - i,
    {
        proof {
            assert(all.take(i + 1).drop_last() == all.take(i as int));
            assert(all.take(i + 1).last() == segs@[i as int]@);
            lemma_next_number(all, i + 1, true);
            lemma_next_number(all, i + 1, false);
        }
        let ghost seg = segs@[i as int]@;
        let ghost old_left = rows(left@);
        let ghost old_right = rows(right@);
        match &segs[i] {
            ThreeWaySegment::Context(ls) => {
                append_rows(&mut left, ls, ls.len(), RowKind::Context, left_no, None);
                append_rows(&mut right, ls, ls.len(), RowKind::Context, right_no, None);
                proof {
                    assert(rows(left@) == old_left + segment_rows(
                        seg,
                        true,
                        left_no as int,
                        region as int,
                    ));
                    assert(rows(right@) == old_right + segment_rows(
                        seg,
                        false,
                        right_no as int,
                        region as int,
                    ));
                }
                left_no += ls.len();
                right_no += ls.len();
            },
            ThreeWaySegment::Conflict { ours, theirs } => {
                let high: usize = if ours.len() >= theirs.len() {
                    ours.len()
                } else {
                    theirs.len()
                };
                append_rows(
                    &mut left,
                    theirs,
                    high,
                    RowKind::ConflictTheirs,
                    left_no,
                    Some(region),
                );
                append_rows(
                    &mut right,
                    ours,
                    high,
                    RowKind::ConflictOurs,
                    right_no,
                    Some(region),
                );
                proof {
                    assert(rows(left@) == old_left + segment_rows(
                        seg,
                        true,
                        left_no as int,
                        region as int,
                    ));
                    assert(rows(right@) == old_right + segment_rows(
                        seg,
                        false,
                        right_no as int,
                        region as int,
                    ));
                }
                left_no += theirs.len();
                right_no += ours.len();
                region += 1;
            },
        }
        i += 1;
    }
    proof {
        assert(all.take(all.len() as int) == all);
        law_columns_hold_all_rows(all);
        assert forall|j: int, i: int|
            0 <= j < segs@.len() && 0 <= i < rows_of(segs@[j]@) implies #[trigger] is_left_row(
            all,
            rows(left@),
            j,
            i,
        ) by {
            law_rows_belong_to_their_hunk(all, j, i);
        }
        assert forall|j: int, i: int|
            0 <= j < segs@.len() && 0 <= i < rows_of(segs@[j]@) implies #[trigger] is_right_row(
            all,
            rows(right@),
            j,
            i,
        ) by {
            law_rows_belong_to_their_hunk(all, j, i);
        }
    }
    (left, right)
}

/// The three-way state of one file.
#[derive(Clone, Debug, PartialEq, Eq)]
pub struct ThreeWayState {
    /// Per hunk: ours picked, theirs picked.
    pub selections: Vec<(bool, bool)>,
    /// The hunk to scroll into view when the editor is drawn next.
    pub scroll_to_region: Option<usize>,
    /// The hunk that was navigated to last.
    pub cursor_region: usize,
}

impl Default for ThreeWayState {
    fn default() -> (s: Self)
        ensures
            s.selections@.len() == 0,
            s.scroll_to_region is None,
            s.cursor_region == 0,
    {
        ThreeWayState { selections: Vec::new(), scroll_to_region: None, cursor_region: 0 }
    }
}

impl ThreeWayState {
    /// Whether the state fits a text with `count` hunks.
    pub open spec fn fits(&self, count: nat) -> bool {
        &&& self.selections@.len() == count
        &&& count > 0 ==> self.cursor_region < count
        &&& count == 0 ==> self.cursor_region == 0
    }

    /// Adapts the state to a text with `count` hunks. Picks are kept; a hunk
    /// without one starts with ours picked.
    pub fn sync(&mut self, count: usize)
        ensures
            final(self).fits(count as nat),
            final(self).selections@ == Seq::new(
                count as nat,
                |i: int|
                    if i < old(self).selections@.len() {
                        old(self).selections@[i]
                    } else {
                        (true, false)
                    },
            ),
            final(self).scroll_to_region == old(self).scroll_to_region,
            final(self).cursor_region == (if old(self).cursor_region < count {
                old(self).cursor_region as int
            } else if count > 0 {
                count - 1
            } else {
                0
            }),
    {
        let ghost picks = self.selections@;
        if self.selections.len() > count {
            self.selections.truncate(count);
        }
        while self.selections.len() < count
            invariant
                self.selections@.len() <= count,
                self.selections@.len() >= (if picks.len() <= count {
                    picks.len()
                } else {
                    count as nat
                }),
                forall|i: int|
                    0 <= i < self.selections@.len() ==> #[trigger] self.selections@[i] == (if i
                        < picks.len() {
                        picks[i]
                    } else {
                        (true, false)
                    }),
                self.scroll_to_region == old(self).scroll_to_region,
                self.cursor_region == old(self).cursor_region,
            decreases count - self.selections.len(),
        {
            self.selections.push((true, false));
        }
        if self.cursor_region >= count {
            self.cursor_region = if count > 0 {
                count - 1
            } else {
                0
            };
        }
        proof {
            assert(self.selections@ =~= Seq::new(
                count as nat,
                |i: int|
                    if i < picks.len() {
                        picks[i]
                    } else {
                        (true, false)
                    },
            ));
        }
    }

    /// Moves to the next hunk, from the last one around to the first.
    pub fn next_region(&mut self, count: usize)
        requires
            old(self).fits(count as nat),
            count > 0,
        ensures
            final(self).fits(count as nat),
            final(self).selections == old(self).selections,
            final(self).cursor_region == (old(self).cursor_region + 1) % (count as int),
            final(self).scroll_to_region == Some(final(self).cursor_region),
    {
        let next: usize = if self.cursor_region + 1 < count {
            self.cursor_region + 1
        } else {
            0
        };
        proof {
            if self.cursor_region + 1 < count {
                vstd::arithmetic::div_mod::lemma_small_mod((self.cursor_region + 1) as nat, count as nat);
            } else {
                vstd::arithmetic::div_mod::lemma_mod_self_0(count as int);
            }
        }
        self.cursor_region = next;
        self.scroll_to_region = Some(next);
    }

    /// Moves to the previous hunk, from the first one around to the last.
    pub fn previous_region(&mut self, count: usize)
        requires
            old(self).fits(count as nat),
            count > 0,
        ensures
            final(self).fits(count as nat),
            final(self).selections == old(self).selections,
            final(self).cursor_region == (if old(self).cursor_region == 0 {
                count - 1
            } else {
                old(self).cursor_region - 1
            }),
            final(self).scroll_to_region == Some(final(self).cursor_region),
    {
        let next: usize = if self.cursor_region == 0 {
            count - 1
        } else {
            self.cursor_region - 1
        };
        self.cursor_region = next;
        self.scroll_to_region = Some(next);
    }

    /// Sets whether one side of a hunk is picked. Nothing changes when there
    /// is no such hunk.
    pub fn pick(&mut self, region: usize, theirs_side: bool, flag: bool)
        ensures
            final(self).cursor_region == old(self).cursor_region,
            final(self).scroll_to_region == old(self).scroll_to_region,
            final(self).selections@ == (if region < old(self).selections@.len() {
                let was = old(self).selections@[region as int];
                old(self).selections@.update(
                    region as int,
                    if theirs_side {
                        (was.0, flag)
                    } else {
                        (flag, was.1)
                    },
                )
            } else {
                old(self).selections@
            }),
    {
        if region < self.selections.len() {
            let was = self.selections[region];
            let now = if theirs_side {
                (was.0, flag)
            } else {
                (flag, was.1)
            };
            self.selections.set(region, now);
        }
    }

    /// Goes back to ours for every hunk, and to the first hunk.
    pub fn reset(&mut self, count: usize)
        ensures
            final(self).fits(count as nat),
            final(self).selections@ == Seq::new(count as nat, |i: int| (true, false)),
            final(self).cursor_region == 0,
            final(self).scroll_to_region is None,
    {
        let mut picks: Vec<(bool, bool)> = Vec::new();
        while picks.len() < count
            invariant
                picks@.len() <= count,
                forall|i: int| 0 <= i < picks@.len() ==> #[trigger] picks@[i] == (true, false),
            decreases count - picks.len(),
        {
            picks.push((true, false));
        }
        proof {
            assert(picks@ =~= Seq::new(count as nat, |i: int| (true, false)));
        }
        self.selections = picks;
        self.cursor_region = 0;
        self.scroll_to_region = None;
    }
}

} // verus!
