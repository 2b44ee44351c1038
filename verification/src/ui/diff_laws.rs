//! What the diff panel shows of a diff as a whole.

use vstd::prelude::*;

use crate::git::{Hunk, LineKind, StatusEntry};
use crate::text::{digits, trim};
use crate::ui::diff_minimap::{hunk_rows, hunks_rows, row_count, MinimapRow};
use crate::ui::diff_view::{
    count_of, counts_text, entry_stats, hunk_detail, hunks_detail, line_prefix, meaningful,
    DetailRow, StatusCounts,
};

verus! {

/// Hunks stand one below the other, each with its header above its lines, in
/// the diff and in the minimap beside it: the header of a hunk follows all
/// rows of the hunks before it, and its lines follow in order.
pub proof fn law_hunks_follow_each_other(hunks: Seq<Hunk>, h: int, j: int)
    requires
        hunks.len() <= usize::MAX,
        0 <= h < hunks.len(),
        0 <= j < hunks[h].lines@.len() <= usize::MAX,
    ensures
        ({
            let at = row_count(hunks.take(h)) as int;
            let line = hunks[h].lines@[j];
            &&& hunks_detail(hunks)[at] == (DetailRow::HunkHeader { hunk: h as usize })
            &&& hunks_detail(hunks)[at + 1 + j] == (DetailRow::Line {
                hunk: h as usize,
                line: j as usize,
            })
            &&& hunks_rows(hunks)[at] == (MinimapRow { kind: LineKind::Meta })
            &&& hunks_rows(hunks)[at + 1 + j] == (MinimapRow { kind: line.kind })
        }),
        hunks_detail(hunks).len() == row_count(hunks),
        hunks_rows(hunks).len() == row_count(hunks),
    decreases hunks.len(),
{
    lemma_lengths(hunks);
    let init = hunks.drop_last();
    lemma_lengths(init);
    if h < init.len() {
        lemma_lengths(hunks.take(h + 1));
        assert(init[h] == hunks[h]);
        law_hunks_follow_each_other(init, h, j);
        assert(init.take(h) =~= hunks.take(h));
        lemma_below(init, h, j);
    } else {
        assert(hunks.take(h) =~= init);
        let rows = hunk_detail(h, hunks[h].lines@.len());
        let map = hunk_rows(hunks[h]);
        let at = row_count(init) as int;
        assert(hunks_detail(hunks)[at] == rows[0]);
        assert(hunks_detail(hunks)[at + 1 + j] == rows[1 + j]);
        assert(hunks_rows(hunks)[at] == map[0]);
        assert(hunks_rows(hunks)[at + 1 + j] == map[1 + j]);
    }
}

proof fn lemma_lengths(hunks: Seq<Hunk>)
    ensures
        hunks_detail(hunks).len() == row_count(hunks),
        hunks_rows(hunks).len() == row_count(hunks),
    decreases hunks.len(),
{
    if hunks.len() > 0 {
        lemma_lengths(hunks.drop_last());
    }
}

proof fn lemma_below(hunks: Seq<Hunk>, h: int, j: int)
    requires
        0 <= h < hunks.len(),
        0 <= j < hunks[h].lines@.len(),
    ensures
        row_count(hunks.take(h)) + 1 + j < row_count(hunks),
    decreases hunks.len(),
{
    if h == hunks.len() - 1 {
        assert(hunks.take(h) =~= hunks.drop_last());
    } else {
        lemma_below(hunks.drop_last(), h, j);
        assert(hunks.drop_last().take(h) =~= hunks.take(h));
    }
}

/// Entries are counted one by one.
pub proof fn law_entries_are_counted(entries: Seq<StatusEntry>, f: spec_fn(StatusEntry) -> bool)
    ensures
        count_of(entries, f) == entries.filter(f).len(),
    decreases entries.len(),
{
    reveal(Seq::filter);
    if entries.len() > 0 {
        law_entries_are_counted(entries.drop_last(), f);
    }
}

/// A list of counts leaves out what there is none of, and says so if that is
/// everything. Conflicts stand first and unknown files last.
pub proof fn law_counts_leave_out_nothing(c: StatusCounts)
    ensures
        c.conflicted == 0 && c.staged == 0 && c.unstaged == 0 && c.untracked == 0 ==> counts_text(c)
            == "No uncommitted changes."@,
        c.conflicted > 0 ==> starts_with(
            counts_text(c),
            digits(c.conflicted as nat) + " conflicted"@,
        ),
        c.conflicted == 0 && c.staged > 0 ==> starts_with(
            counts_text(c),
            digits(c.staged as nat) + " staged"@,
        ),
        c.conflicted == 0 && c.staged == 0 && c.unstaged > 0 ==> starts_with(
            counts_text(c),
            digits(c.unstaged as nat) + " unstaged"@,
        ),
        c.untracked > 0 ==> ends_with(counts_text(c), digits(c.untracked as nat) + " untracked"@),
        c.untracked == 0 && c.unstaged > 0 ==> ends_with(
            counts_text(c),
            digits(c.unstaged as nat) + " unstaged"@,
        ),
        c.untracked == 0 && c.unstaged == 0 && c.staged > 0 ==> ends_with(
            counts_text(c),
            digits(c.staged as nat) + " staged"@,
        ),
{
    reveal_strlit(" conflicted");
    reveal_strlit(" staged");
    reveal_strlit(" unstaged");
    reveal_strlit(" untracked");
    let a = crate::ui::diff_view::with_part(Seq::empty(), c.conflicted as nat, " conflicted"@);
    let b = crate::ui::diff_view::with_part(a, c.staged as nat, " staged"@);
    let d = crate::ui::diff_view::with_part(b, c.unstaged as nat, " unstaged"@);
    let e = crate::ui::diff_view::with_part(d, c.untracked as nat, " untracked"@);
    let first = digits(c.conflicted as nat) + " conflicted"@;
    let second = digits(c.staged as nat) + " staged"@;
    let third = digits(c.unstaged as nat) + " unstaged"@;
    let fourth = digits(c.untracked as nat) + " untracked"@;
    if c.conflicted > 0 {
        assert(starts_with(a, first)) by {
            assert(a.take(first.len() as int) =~= first);
        }
        lemma_grows(a, c.staged as nat, " staged"@, first);
        lemma_grows(b, c.unstaged as nat, " unstaged"@, first);
        lemma_grows(d, c.untracked as nat, " untracked"@, first);
    }
    if c.conflicted == 0 && c.staged > 0 {
        assert(b.take(second.len() as int) =~= second);
        lemma_grows(b, c.unstaged as nat, " unstaged"@, second);
        lemma_grows(d, c.untracked as nat, " untracked"@, second);
    }
    if c.conflicted == 0 && c.staged == 0 && c.unstaged > 0 {
        assert(d.take(third.len() as int) =~= third);
        lemma_grows(d, c.untracked as nat, " untracked"@, third);
    }
    if c.untracked > 0 {
        assert(e.skip(e.len() - fourth.len()) =~= fourth);
    }
    if c.untracked == 0 && c.unstaged > 0 {
        assert(e.skip(e.len() - third.len()) =~= third);
    }
    if c.untracked == 0 && c.unstaged == 0 && c.staged > 0 {
        assert(e.skip(e.len() - second.len()) =~= second);
    }
}

/// Whether a text begins with another.
pub open spec fn starts_with(text: Seq<char>, head: Seq<char>) -> bool {
    head.len() <= text.len() && text.take(head.len() as int) == head
}

/// Whether a text ends in another.
pub open spec fn ends_with(text: Seq<char>, tail: Seq<char>) -> bool {
    tail.len() <= text.len() && text.skip(text.len() - tail.len()) == tail
}

proof fn lemma_grows(list: Seq<char>, n: nat, word: Seq<char>, head: Seq<char>)
    requires
        starts_with(list, head),
        head.len() > 0,
    ensures
        starts_with(crate::ui::diff_view::with_part(list, n, word), head),
{
    let all = crate::ui::diff_view::with_part(list, n, word);
    assert(all.take(head.len() as int) =~= list.take(head.len() as int));
}

/// A row says of a file that it is conflicted where it is, that it is new
/// where Git does not know it, and else where its changes are.
pub proof fn law_rows_tell_where_changes_are(e: StatusEntry)
    ensures
        entry_stats(e) == "conflicted"@ <==> e.conflicted,
        entry_stats(e) == "[new]"@ <==> !e.conflicted && e.kind is Untracked,
        entry_stats(e) == "[staged+wt]"@ <==> !e.conflicted && !(e.kind is Untracked) && e.staged
            && e.unstaged,
        entry_stats(e) == "[staged]"@ <==> !e.conflicted && !(e.kind is Untracked) && e.staged
            && !e.unstaged,
        entry_stats(e) == "[wt]"@ <==> !e.conflicted && !(e.kind is Untracked) && !e.staged,
{
    reveal_strlit("conflicted");
    reveal_strlit("[new]");
    reveal_strlit("[staged+wt]");
    reveal_strlit("[staged]");
    reveal_strlit("[wt]");
    assert("conflicted"@.len() == 10 && "[new]"@.len() == 5 && "[staged+wt]"@.len() == 11
        && "[staged]"@.len() == 8 && "[wt]"@.len() == 4);
}

/// Added lines stand behind a plus, removed lines behind a minus, and no
/// others do.
pub proof fn law_line_signs(kind: LineKind)
    ensures
        line_prefix(kind) == seq!['+'] <==> kind is Add,
        line_prefix(kind) == seq!['-'] <==> kind is Remove,
        line_prefix(kind) == seq![' '] <==> kind is Context,
        line_prefix(kind).len() == 1,
{
    reveal_strlit("+");
    reveal_strlit("-");
    reveal_strlit("·");
    reveal_strlit(" ");
    assert("+"@ =~= seq!['+']);
    assert("-"@ =~= seq!['-']);
    assert(" "@ =~= seq![' ']);
    assert("·"@[0] == '·');
    assert(seq!['+'][0] == '+' && seq!['-'][0] == '-' && seq![' '][0] == ' ');
}

/// A text is left out just where it is blank.
pub proof fn law_blank_texts_are_left_out(text: Seq<char>)
    ensures
        meaningful(Some(text)) is None <==> trim(text).len() == 0,
        meaningful(Some(text)) matches Some(t) ==> t == trim(text),
        meaningful(None) is None,
{
}

} // verus!
