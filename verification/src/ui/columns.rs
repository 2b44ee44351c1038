//! Which columns the commit graph shows.

use vstd::prelude::*;

verus! {

/// A column of the commit graph.
#[derive(Debug, Clone, Copy, PartialEq, Eq, Structural)]
pub enum Column {
    Graph,
    Refs,
    Message,
    Author,
    Date,
    Sha,
}

/// A switch of the column picker.
#[derive(Debug, Clone, Copy, PartialEq, Eq, Structural)]
pub enum Switch {
    Refs,
    Graph,
    Message,
    Author,
    Date,
    Sha,
    CompactGraph,
    SmartBranches,
}

/// Which columns are shown, and how.
#[derive(Debug, Clone, Copy, PartialEq, Eq, Structural)]
pub struct ColumnPrefs {
    pub show_refs: bool,
    pub show_graph: bool,
    pub show_message: bool,
    pub show_author: bool,
    pub show_date: bool,
    pub show_sha: bool,
    /// Narrower lanes.
    pub compact_graph: bool,
    pub smart_branches: bool,
}

impl ColumnPrefs {
    /// The full layout.
    pub open spec fn full() -> ColumnPrefs {
        ColumnPrefs {
            show_refs: true,
            show_graph: true,
            show_message: true,
            show_author: true,
            show_date: true,
            show_sha: false,
            compact_graph: false,
            smart_branches: true,
        }
    }

    /// The layout of the graph and the message alone.
    pub open spec fn narrow() -> ColumnPrefs {
        ColumnPrefs {
            show_refs: false,
            show_graph: true,
            show_message: true,
            show_author: false,
            show_date: false,
            show_sha: false,
            compact_graph: true,
            smart_branches: true,
        }
    }

    /// The full layout.
    pub fn default_full() -> (p: ColumnPrefs)
        ensures
            p == ColumnPrefs::full(),
    {
        ColumnPrefs {
            show_refs: true,
            show_graph: true,
            show_message: true,
            show_author: true,
            show_date: true,
            show_sha: false,
            compact_graph: false,
            smart_branches: true,
        }
    }

    /// The compact layout: the graph and the message only.
    pub fn compact() -> (p: ColumnPrefs)
        ensures
            p == ColumnPrefs::narrow(),
    {
        ColumnPrefs {
            show_refs: false,
            show_graph: true,
            show_message: true,
            show_author: false,
            show_date: false,
            show_sha: false,
            compact_graph: true,
            smart_branches: true,
        }
    }

    /// Whether a switch is on.
    pub open spec fn is_on(self, switch: Switch) -> bool {
        match switch {
            Switch::Refs => self.show_refs,
            Switch::Graph => self.show_graph,
            Switch::Message => self.show_message,
            Switch::Author => self.show_author,
            Switch::Date => self.show_date,
            Switch::Sha => self.show_sha,
            Switch::CompactGraph => self.compact_graph,
            Switch::SmartBranches => self.smart_branches,
        }
    }

    /// Whether a switch is on.
    pub fn on(&self, switch: Switch) -> (r: bool)
        ensures
            r == self.is_on(switch),
    {
        match switch {
            Switch::Refs => self.show_refs,
            Switch::Graph => self.show_graph,
            Switch::Message => self.show_message,
            Switch::Author => self.show_author,
            Switch::Date => self.show_date,
            Switch::Sha => self.show_sha,
            Switch::CompactGraph => self.compact_graph,
            Switch::SmartBranches => self.smart_branches,
        }
    }

    /// Turns a switch over. The others stay as they are.
    pub fn toggle(&mut self, switch: Switch)
        ensures
            forall|s: Switch|
                #[trigger] final(self).is_on(s) == (if s == switch {
                    !old(self).is_on(s)
                } else {
                    old(self).is_on(s)
                }),
    {
        match switch {
            Switch::Refs => self.show_refs = !self.show_refs,
            Switch::Graph => self.show_graph = !self.show_graph,
            Switch::Message => self.show_message = !self.show_message,
            Switch::Author => self.show_author = !self.show_author,
            Switch::Date => self.show_date = !self.show_date,
            Switch::Sha => self.show_sha = !self.show_sha,
            Switch::CompactGraph => self.compact_graph = !self.compact_graph,
            Switch::SmartBranches => self.smart_branches = !self.smart_branches,
        }
    }

    /// Applies what was clicked in the picker. The widths of the columns go
    /// back to what they are by themselves where the result says so: with a
    /// new layout, or when that alone was asked for.
    pub fn reset(&mut self, to_default: bool, to_compact: bool, widths: bool) -> (clear_widths: bool)
        ensures
            *final(self) == (if to_compact {
                ColumnPrefs::narrow()
            } else if to_default {
                ColumnPrefs::full()
            } else {
                *old(self)
            }),
            clear_widths == (to_default || to_compact || widths),
    {
        if to_default {
            *self = ColumnPrefs::default_full();
        }
        if to_compact {
            *self = ColumnPrefs::compact();
        }
        to_default || to_compact || widths
    }
}

impl Default for ColumnPrefs {
    fn default() -> (p: ColumnPrefs)
        ensures
            p == ColumnPrefs::full(),
    {
        ColumnPrefs::default_full()
    }
}

/// Turning a switch over twice changes nothing.
pub proof fn law_toggle_twice(before: ColumnPrefs, once: ColumnPrefs, twice: ColumnPrefs, switch: Switch)
    requires
        forall|s: Switch|
            #[trigger] once.is_on(s) == (if s == switch {
                !before.is_on(s)
            } else {
                before.is_on(s)
            }),
        forall|s: Switch|
            #[trigger] twice.is_on(s) == (if s == switch {
                !once.is_on(s)
            } else {
                once.is_on(s)
            }),
    ensures
        twice == before,
{
    assert(twice.is_on(Switch::Refs) == before.is_on(Switch::Refs));
    assert(twice.is_on(Switch::Graph) == before.is_on(Switch::Graph));
    assert(twice.is_on(Switch::Message) == before.is_on(Switch::Message));
    assert(twice.is_on(Switch::Author) == before.is_on(Switch::Author));
    assert(twice.is_on(Switch::Date) == before.is_on(Switch::Date));
    assert(twice.is_on(Switch::Sha) == before.is_on(Switch::Sha));
    assert(twice.is_on(Switch::CompactGraph) == before.is_on(Switch::CompactGraph));
    assert(twice.is_on(Switch::SmartBranches) == before.is_on(Switch::SmartBranches));
}

/// The name of a switch.
pub open spec fn switch_text(switch: Switch) -> Seq<char> {
    match switch {
        Switch::Refs => "Branch / Tag"@,
        Switch::Graph => "Graph"@,
        Switch::Message => "Commit message"@,
        Switch::Author => "Author"@,
        Switch::Date => "Date / Time"@,
        Switch::Sha => "Sha"@,
        Switch::CompactGraph => "Compact Graph Column"@,
        Switch::SmartBranches => "Smart Branch Visibility"@,
    }
}

/// The line of a switch in the picker, with a tick if it is on.
pub fn switch_label(switch: Switch, on: bool) -> (out: String)
    ensures
        out@ == (if on {
            "✓ "@
        } else {
            "   "@
        }) + switch_text(switch),
{
    let mut out: String = if on {
        "✓ ".to_string()
    } else {
        "   ".to_string()
    };
    let name: &str = match switch {
        Switch::Refs => "Branch / Tag",
        Switch::Graph => "Graph",
        Switch::Message => "Commit message",
        Switch::Author => "Author",
        Switch::Date => "Date / Time",
        Switch::Sha => "Sha",
        Switch::CompactGraph => "Compact Graph Column",
        Switch::SmartBranches => "Smart Branch Visibility",
    };
    out.append(name);
    out
}

/// Whether the picker stays open: it closes on Escape, with its window, or
/// with "Done".
pub fn stays_open(window_open: bool, escape: bool, done: bool) -> (r: bool)
    ensures
        r == (window_open && !escape && !done),
{
    window_open && !escape && !done
}

/// Whether the column of names takes room: it does where it is shown, and
/// keeps a narrow strip for the checked-out commit where it is not.
pub open spec fn refs_take_room(prefs: ColumnPrefs, has_head: bool) -> bool {
    prefs.show_refs || has_head
}

/// Whether a column is in a row.
pub open spec fn is_shown(prefs: ColumnPrefs, has_head: bool, column: Column) -> bool {
    match column {
        Column::Graph => prefs.show_graph,
        Column::Refs => refs_take_room(prefs, has_head),
        Column::Message => prefs.show_message,
        Column::Author => prefs.show_author,
        Column::Date => prefs.show_date,
        Column::Sha => prefs.show_sha,
    }
}

/// All columns, from the left. The graph stands first, so that it stays where
/// it is however wide the names grow.
pub open spec fn all_columns() -> Seq<Column> {
    seq![
        Column::Graph,
        Column::Refs,
        Column::Message,
        Column::Author,
        Column::Date,
        Column::Sha,
    ]
}

/// The columns of a row, from the left.
pub fn columns(prefs: &ColumnPrefs, has_head: bool) -> (out: Vec<Column>)
    ensures
        out@ == all_columns().filter(|c: Column| is_shown(*prefs, has_head, c)),
{
    let mut out: Vec<Column> = Vec::new();
    let ghost keep = |c: Column| is_shown(*prefs, has_head, c);
    proof {
        reveal(Seq::filter);
        let a = all_columns();
        let a5 = a.drop_last();
        let a4 = a5.drop_last();
        let a3 = a4.drop_last();
        let a2 = a3.drop_last();
        let a1 = a2.drop_last();
        assert(a1.drop_last() =~= Seq::empty());
        assert(a1.drop_last().filter(keep) =~= Seq::empty());
        assert(a1.filter(keep) == if keep(Column::Graph) {
            a1.drop_last().filter(keep).push(Column::Graph)
        } else {
            a1.drop_last().filter(keep)
        });
        assert(a2.filter(keep) == if keep(Column::Refs) {
            a1.filter(keep).push(Column::Refs)
        } else {
            a1.filter(keep)
        });
        assert(a3.filter(keep) == if keep(Column::Message) {
            a2.filter(keep).push(Column::Message)
        } else {
            a2.filter(keep)
        });
        assert(a4.filter(keep) == if keep(Column::Author) {
            a3.filter(keep).push(Column::Author)
        } else {
            a3.filter(keep)
        });
        assert(a5.filter(keep) == if keep(Column::Date) {
            a4.filter(keep).push(Column::Date)
        } else {
            a4.filter(keep)
        });
    }
    if prefs.show_graph {
        out.push(Column::Graph);
    }
    if prefs.show_refs || has_head {
        out.push(Column::Refs);
    }
    if prefs.show_message {
        out.push(Column::Message);
    }
    if prefs.show_author {
        out.push(Column::Author);
    }
    if prefs.show_date {
        out.push(Column::Date);
    }
    if prefs.show_sha {
        out.push(Column::Sha);
    }
    out
}

/// The heading of a column.
pub fn column_title(column: Column) -> (r: &'static str)
    ensures
        r@ == (match column {
            Column::Graph => "Graph"@,
            Column::Refs => "Branch"@,
            Column::Message => "Message"@,
            Column::Author => "Author"@,
            Column::Date => "Date"@,
            Column::Sha => "SHA"@,
        }),
{
    match column {
        Column::Graph => "Graph",
        Column::Refs => "Branch",
        Column::Message => "Message",
        Column::Author => "Author",
        Column::Date => "Date",
        Column::Sha => "SHA",
    }
}

/// Whether the width of a column can be dragged. The message takes what is
/// left, and the strip of the checked-out commit has its own width.
pub fn has_handle(prefs: &ColumnPrefs, column: Column) -> (r: bool)
    ensures
        r == (match column {
            Column::Graph => prefs.show_graph,
            Column::Refs => prefs.show_refs,
            Column::Message => false,
            Column::Author => prefs.show_author,
            Column::Date => prefs.show_date,
            Column::Sha => prefs.show_sha,
        }),
{
    match column {
        Column::Graph => prefs.show_graph,
        Column::Refs => prefs.show_refs,
        Column::Message => false,
        Column::Author => prefs.show_author,
        Column::Date => prefs.show_date,
        Column::Sha => prefs.show_sha,
    }
}

} // verus!
