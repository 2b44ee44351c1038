//! The lanes of the commit graph: the lines that a row draws.

use vstd::prelude::*;

use crate::git::Oid;
use crate::ui::graph::RefLabel;

verus! {

/// A commit of the graph. `lanes_below` are the lanes that go on below it,
/// `incoming_lanes` those that end in it from above, and `edges_out` those
/// that lead to its parents.
#[derive(Debug, Clone)]
pub struct GraphRow {
    pub oid: Oid,
    pub lane: u16,
    pub lanes_below: Vec<u16>,
    pub incoming_lanes: Vec<u16>,
    pub edges_out: Vec<u16>,
    pub refs: Vec<RefLabel>,
    pub summary: String,
    pub author: String,
    pub author_email: String,
    pub timestamp: i64,
}

/// A line in one half of a row: from the column of a lane at its upper end to
/// that of a lane at its lower end, in the colour of a lane. A line that
/// changes its column is a curve.
#[derive(Debug, Clone, Copy, PartialEq, Eq, Structural)]
pub struct LaneSegment {
    pub in_top_half: bool,
    pub from: u16,
    pub to: u16,
    pub lane: u16,
}

/// The column of a lane: lanes beyond the last column share it.
pub open spec fn column_of(lane: u16, cap: u16) -> u16 {
    if lane <= cap {
        lane
    } else {
        cap
    }
}

/// The column of a lane.
pub fn lane_column(lane: u16, cap: u16) -> (c: u16)
    ensures
        c == column_of(lane, cap),
{
    if lane <= cap {
        lane
    } else {
        cap
    }
}

/// The line of a lane that comes from above. It ends in the commit if the
/// commit lists it, and else goes straight on.
pub open spec fn upper_segment(row: GraphRow, lane: u16, cap: u16) -> LaneSegment {
    LaneSegment {
        in_top_half: true,
        from: column_of(lane, cap),
        to: if row.incoming_lanes@.contains(lane) {
            column_of(row.lane, cap)
        } else {
            column_of(lane, cap)
        },
        lane,
    }
}

/// The lines of the upper half, one for each lane of the row above.
pub open spec fn upper_segments(row: GraphRow, lanes: Seq<u16>, cap: u16) -> Seq<LaneSegment> {
    lanes.map_values(|lane: u16| upper_segment(row, lane, cap))
}

/// Whether a lane goes past the commit: it comes from above, goes on below,
/// and is not the commit's own.
pub open spec fn passes(row: GraphRow, above: Seq<u16>, lane: u16) -> bool {
    lane != row.lane && above.contains(lane)
}

/// A straight line of a lane.
pub open spec fn straight(in_top_half: bool, lane: u16, cap: u16) -> LaneSegment {
    LaneSegment { in_top_half, from: column_of(lane, cap), to: column_of(lane, cap), lane }
}

/// The lines that go past the commit, among the given lanes.
pub open spec fn passing_segments(
    row: GraphRow,
    above: Seq<u16>,
    lanes: Seq<u16>,
    cap: u16,
) -> Seq<LaneSegment>
    decreases lanes.len(),
{
    if lanes.len() == 0 {
        Seq::empty()
    } else {
        let before = passing_segments(row, above, lanes.drop_last(), cap);
        if passes(row, above, lanes.last()) {
            before.push(straight(false, lanes.last(), cap))
        } else {
            before
        }
    }
}

/// The lines from the commit to its parents.
pub open spec fn outgoing_segments(row: GraphRow, cap: u16) -> Seq<LaneSegment> {
    row.edges_out@.map_values(
        |target: u16|
            LaneSegment {
                in_top_half: false,
                from: column_of(row.lane, cap),
                to: column_of(target, cap),
                lane: target,
            },
    )
}

/// The lanes that come from the row above.
pub open spec fn lanes_above(previous: Option<GraphRow>) -> Seq<u16> {
    match previous {
        Some(p) => p.lanes_below@,
        None => Seq::empty(),
    }
}

/// The lines of a row. The first row may have a line that leads up to the
/// working tree.
pub open spec fn segments(
    row: GraphRow,
    previous: Option<GraphRow>,
    connector: Option<u16>,
    cap: u16,
) -> Seq<LaneSegment> {
    let upper = match (previous, connector) {
        (Some(p), _) => upper_segments(row, p.lanes_below@, cap),
        (None, Some(lane)) => seq![straight(true, lane, cap)],
        (None, None) => Seq::empty(),
    };
    upper + passing_segments(row, lanes_above(previous), row.lanes_below@, cap)
        + outgoing_segments(row, cap)
}

fn listed(lanes: &Vec<u16>, lane: u16) -> (r: bool)
    ensures
        r == lanes@.contains(lane),
{
    let mut i: usize = 0;
    while i < lanes.len()
        invariant
            i <= lanes@.len(),
            forall|k: int| 0 <= k < i ==> lanes@[k] != lane,
        decreases lanes.len() - i,
    {
        if lanes[i] == lane {
            return true;
        }
        i += 1;
    }
    false
}

/// The smaller of a lane and the last column.
pub open spec fn capped(lane: u16, cap: u16) -> u16 {
    if cap < lane {
        cap
    } else {
        lane
    }
}

/// The lanes that go past the commit, in order: they come from above, go on
/// below, and are not the commit's own.
pub open spec fn passing_lanes(row: GraphRow, above: Seq<u16>) -> Seq<u16> {
    row.lanes_below@.filter(|lane: u16| above.contains(lane) && lane != row.lane)
}

/// How many lines the upper half of a row has: one for each lane of the row
/// above, and in the first row one if it leads up to the working tree.
pub open spec fn upper_count(previous: Option<GraphRow>, connector: Option<u16>) -> int {
    match previous {
        Some(p) => p.lanes_below@.len() as int,
        None => if connector is Some {
            1
        } else {
            0
        },
    }
}

/// Whether a line of the upper half is the `k`-th of its row: that of the
/// `k`-th lane of the row above, which runs into the commit where the commit
/// lists it and stays in its column where it does not, or the straight line
/// up to the working tree.
pub open spec fn is_upper_line(
    s: LaneSegment,
    row: GraphRow,
    previous: Option<GraphRow>,
    connector: Option<u16>,
    cap: u16,
    k: int,
) -> bool {
    &&& s.in_top_half
    &&& s.from == capped(s.lane, cap)
    &&& match previous {
        Some(p) => {
            &&& s.lane == p.lanes_below@[k]
            &&& row.incoming_lanes@.contains(s.lane) ==> s.to == capped(row.lane, cap)
            &&& !row.incoming_lanes@.contains(s.lane) ==> s.to == s.from
        },
        None => connector == Some(s.lane) && s.to == s.from,
    }
}

/// Whether a line of the lower half goes straight down a lane.
pub open spec fn is_passing_line(s: LaneSegment, lane: u16, cap: u16) -> bool {
    !s.in_top_half && s.lane == lane && s.from == capped(lane, cap) && s.to == capped(lane, cap)
}

/// Whether a line of the lower half leads from the commit into the lane of a
/// parent.
pub open spec fn is_line_to_parent(s: LaneSegment, row: GraphRow, target: u16, cap: u16) -> bool {
    !s.in_top_half && s.lane == target && s.from == capped(row.lane, cap) && s.to == capped(
        target,
        cap,
    )
}

/// Whether these are the lines of a row: those of the upper half, then the
/// straight ones of the lanes that go past, then one to each parent, and no
/// others.
pub open spec fn draws_row(
    lines: Seq<LaneSegment>,
    row: GraphRow,
    previous: Option<GraphRow>,
    connector: Option<u16>,
    cap: u16,
) -> bool {
    let above = match previous {
        Some(p) => p.lanes_below@,
        None => Seq::empty(),
    };
    let upper = upper_count(previous, connector);
    let passing = passing_lanes(row, above);
    &&& lines.len() == upper + passing.len() + row.edges_out@.len()
    &&& forall|k: int|
        0 <= k < upper ==> is_upper_line(#[trigger] lines[k], row, previous, connector, cap, k)
    &&& forall|k: int|
        0 <= k < passing.len() ==> is_passing_line(lines[upper + k], #[trigger] passing[k], cap)
    &&& forall|k: int|
        0 <= k < row.edges_out@.len() ==> is_line_to_parent(
            lines[upper + passing.len() + k],
            row,
            #[trigger] row.edges_out@[k],
            cap,
        )
}

proof fn lemma_passing_lanes(row: GraphRow, above: Seq<u16>, lanes: Seq<u16>, cap: u16)
    ensures
        ({
            let p = |lane: u16| above.contains(lane) && lane != row.lane;
            let lines = passing_segments(row, above, lanes, cap);
            &&& lines.len() == lanes.filter(p).len()
            &&& forall|k: int|
                0 <= k < lines.len() ==> is_passing_line(#[trigger] lines[k], lanes.filter(p)[k], cap)
        }),
    decreases lanes.len(),
{
    reveal(Seq::filter);
    let p = |lane: u16| above.contains(lane) && lane != row.lane;
    if lanes.len() > 0 {
        let init = lanes.drop_last();
        lemma_passing_lanes(row, above, init, cap);
        let before = passing_segments(row, above, init, cap);
        let lines = passing_segments(row, above, lanes, cap);
        assert forall|k: int| 0 <= k < lines.len() implies is_passing_line(
            #[trigger] lines[k],
            lanes.filter(p)[k],
            cap,
        ) by {
            if k < before.len() {
                assert(lines[k] == before[k]);
                assert(lanes.filter(p)[k] == init.filter(p)[k]);
            }
        }
    }
}

/// A row is drawn as its commit lies in the graph: each lane of the row above
/// comes in once, each lane that goes past runs straight on, and each edge of
/// the commit is one line from the commit's column to that of the parent's
/// lane, on whichever side that is.
pub proof fn law_rows_are_drawn(
    row: GraphRow,
    previous: Option<GraphRow>,
    connector: Option<u16>,
    cap: u16,
)
    ensures
        draws_row(segments(row, previous, connector, cap), row, previous, connector, cap),
{
    let above = lanes_above(previous);
    lemma_passing_lanes(row, above, row.lanes_below@, cap);
    let lines = segments(row, previous, connector, cap);
    let upper = upper_count(previous, connector);
    let passing = passing_lanes(row, above);
    let straight_ones = passing_segments(row, above, row.lanes_below@, cap);
    let p = |lane: u16| above.contains(lane) && lane != row.lane;
    assert(passing == row.lanes_below@.filter(p));
    assert forall|k: int| 0 <= k < passing.len() implies is_passing_line(
        lines[upper + k],
        #[trigger] passing[k],
        cap,
    ) by {
        assert(lines[upper + k] == straight_ones[k]);
    }
    assert forall|k: int| 0 <= k < row.edges_out@.len() implies is_line_to_parent(
        lines[upper + passing.len() + k],
        row,
        #[trigger] row.edges_out@[k],
        cap,
    ) by {
        assert(lines[upper + passing.len() + k] == outgoing_segments(row, cap)[k]);
    }
}

/// What a line ends in below is what the next row takes over: where a lane
/// goes on below a row, the row under it begins a line in the column of that
/// lane.
pub proof fn law_rows_join(
    row: GraphRow,
    next: GraphRow,
    connector: Option<u16>,
    cap: u16,
    k: int,
)
    requires
        0 <= k < row.edges_out@.len(),
        row.lanes_below@.contains(row.edges_out@[k]),
    ensures
        exists|i: int|
            0 <= i < row.lanes_below@.len() && row.lanes_below@[i] == row.edges_out@[k] && (
            #[trigger] segments(next, Some(row), connector, cap)[i]).in_top_half && segments(
                next,
                Some(row),
                connector,
                cap,
            )[i].from == capped(row.edges_out@[k], cap),
{
    let i = choose|i: int| 0 <= i < row.lanes_below@.len() && row.lanes_below@[i] == row.edges_out@[k];
    law_rows_are_drawn(next, Some(row), connector, cap);
    let lines = segments(next, Some(row), connector, cap);
    assert(is_upper_line(lines[i], next, Some(row), connector, cap, i));
}

/// The lines of a row.
pub fn row_segments(
    row: &GraphRow,
    previous: Option<&GraphRow>,
    connector: Option<u16>,
    cap: u16,
) -> (out: Vec<LaneSegment>)
    ensures
        out@ == segments(
            *row,
            match previous {
                Some(p) => Some(*p),
                None => None,
            },
            connector,
            cap,
        ),
        draws_row(
            out@,
            *row,
            match previous {
                Some(p) => Some(*p),
                None => None,
            },
            connector,
            cap,
        ),
{
    let none: Vec<u16> = Vec::new();
    let mut out: Vec<LaneSegment> = Vec::new();
    let above: &Vec<u16> = match previous {
        Some(p) => &p.lanes_below,
        None => &none,
    };
    let own: u16 = lane_column(row.lane, cap);
    let mut i: usize = 0;
    while i < above.len()
        invariant
            i <= above@.len(),
            own == column_of(row.lane, cap),
            out@ =~= upper_segments(*row, above@.take(i as int), cap),
        decreases above.len() - i,
    {
        let lane: u16 = above[i];
        let column: u16 = lane_column(lane, cap);
        let to: u16 = if listed(&row.incoming_lanes, lane) {
            own
        } else {
            column
        };
        out.push(LaneSegment { in_top_half: true, from: column, to, lane });
        i += 1;
    }
    proof {
        assert(above@.take(above@.len() as int) == above@);
    }
    if previous.is_none() {
        if let Some(lane) = connector {
            let column: u16 = lane_column(lane, cap);
            out.push(LaneSegment { in_top_half: true, from: column, to: column, lane });
        }
    }
    let ghost upper = out@;
    i = 0;
    proof {
        assert(out@ =~= upper + passing_segments(*row, above@, row.lanes_below@.take(0), cap));
    }
    while i < row.lanes_below.len()
        invariant
            i <= row.lanes_below@.len(),
            out@ == upper + passing_segments(
                *row,
                above@,
                row.lanes_below@.take(i as int),
                cap,
            ),
        decreases row.lanes_below.len() - i,
    {
        let lane: u16 = row.lanes_below[i];
        let ghost lanes = row.lanes_below@;
        let ghost before = passing_segments(*row, above@, lanes.take(i as int), cap);
        proof {
            assert(lanes.take(i + 1).drop_last() == lanes.take(i as int));
        }
        if lane != row.lane && listed(above, lane) {
            let column: u16 = lane_column(lane, cap);
            out.push(LaneSegment { in_top_half: false, from: column, to: column, lane });
            proof {
                assert(out@ =~= upper + before.push(straight(false, lane, cap)));
            }
        }
        i += 1;
    }
    proof {
        assert(row.lanes_below@.take(row.lanes_below@.len() as int) == row.lanes_below@);
    }
    let ghost passing = out@;
    let ghost edges = outgoing_segments(*row, cap);
    i = 0;
    proof {
        assert(out@ =~= passing + edges.take(0));
    }
    while i < row.edges_out.len()
        invariant
            i <= row.edges_out@.len(),
            own == column_of(row.lane, cap),
            edges == outgoing_segments(*row, cap),
            out@ == passing + edges.take(i as int),
        decreases row.edges_out.len() - i,
    {
        let target: u16 = row.edges_out[i];
        let ghost before = out@;
        out.push(
            LaneSegment { in_top_half: false, from: own, to: lane_column(target, cap), lane: target },
        );
        proof {
            assert(out@ =~= passing + edges.take(i + 1));
        }
        i += 1;
    }
    proof {
        assert(edges.take(edges.len() as int) == edges);
        law_rows_are_drawn(
            *row,
            match previous {
                Some(p) => Some(*p),
                None => None,
            },
            connector,
            cap,
        );
    }
    out
}

/// No line leaves the columns up to the last.
pub proof fn law_lines_stay_in_columns(
    row: GraphRow,
    previous: Option<GraphRow>,
    connector: Option<u16>,
    cap: u16,
    k: int,
)
    requires
        0 <= k < segments(row, previous, connector, cap).len(),
    ensures
        segments(row, previous, connector, cap)[k].from <= cap,
        segments(row, previous, connector, cap)[k].to <= cap,
{
    lemma_passing(row, lanes_above(previous), row.lanes_below@, cap);
}

proof fn lemma_passing(row: GraphRow, above: Seq<u16>, lanes: Seq<u16>, cap: u16)
    ensures
        forall|k: int|
            0 <= k < passing_segments(row, above, lanes, cap).len() ==> (
            #[trigger] passing_segments(row, above, lanes, cap)[k]).from <= cap
                && passing_segments(row, above, lanes, cap)[k].to <= cap,
    decreases lanes.len(),
{
    if lanes.len() > 0 {
        lemma_passing(row, above, lanes.drop_last(), cap);
        let before = passing_segments(row, above, lanes.drop_last(), cap);
        let now = passing_segments(row, above, lanes, cap);
        assert forall|k: int| 0 <= k < now.len() implies (#[trigger] now[k]).from <= cap
            && now[k].to <= cap by {
            if k < before.len() {
                assert(now[k] == before[k]);
            }
        }
    }
}

/// A lane that a commit lists as ending in it is drawn into the commit's
/// column, and every other lane from above stays in its own.
pub proof fn law_lanes_from_above(
    row: GraphRow,
    previous: GraphRow,
    connector: Option<u16>,
    cap: u16,
    k: int,
)
    requires
        0 <= k < previous.lanes_below@.len(),
    ensures
        ({
            let s = segments(row, Some(previous), connector, cap)[k];
            let lane = previous.lanes_below@[k];
            &&& s.in_top_half && s.lane == lane && s.from == column_of(lane, cap)
            &&& row.incoming_lanes@.contains(lane) ==> s.to == column_of(row.lane, cap)
            &&& !row.incoming_lanes@.contains(lane) ==> s.to == s.from
        }),
{
}

} // verus!
