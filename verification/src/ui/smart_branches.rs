//! Smart branch visibility: a branch that is shown further up, by a
//! descendant, is not shown again.

use vstd::prelude::*;

use crate::text::{chars_of, opt_view, same, string_of};
use crate::ui::columns::ColumnPrefs;
use crate::ui::graph::{
    chips_of, is_chip_of, ref_chips, remote_name, remote_of, RefChip, RefLabel,
};
use crate::ui::graph_lanes::GraphRow;

verus! {

/// The name of a remote branch without that of its remote: what stands behind
/// the first `/`. A name without one is left as it is.
pub open spec fn without_remote(name: Seq<char>) -> Seq<char> {
    let n = remote_of(name).len() as int;
    if n < name.len() {
        name.skip(n + 1)
    } else {
        name
    }
}

fn branch_behind_remote(name: &str) -> (out: String)
    ensures
        out@ == without_remote(name@),
{
    let n: usize = chars_of(remote_name(name).as_str()).len();
    let chars = chars_of(name);
    if n < chars.len() {
        let out = string_of(&chars, n + 1, chars.len());
        proof {
            assert(out@ =~= name@.skip(n + 1));
        }
        out
    } else {
        name.to_string()
    }
}

/// The branch that a chip shows. A tag is none.
pub open spec fn chip_branch(refs: Seq<RefLabel>, chip: RefChip) -> Option<Seq<char>> {
    match chip {
        RefChip::Synced { local, .. } => Some(refs[local as int].short@),
        RefChip::Local { local } => Some(refs[local as int].short@),
        RefChip::Remote { remote } => Some(without_remote(refs[remote as int].short@)),
        RefChip::Tag { .. } => None,
    }
}

fn branch_of_chip(refs: &[RefLabel], chip: RefChip) -> (out: Option<String>)
    requires
        is_chip_of(refs@, chip),
    ensures
        opt_view(out) == chip_branch(refs@, chip),
{
    match chip {
        RefChip::Synced { local, remote: _ } => Some(refs[local].short.clone()),
        RefChip::Local { local } => Some(refs[local].short.clone()),
        RefChip::Remote { remote } => Some(branch_behind_remote(refs[remote].short.as_str())),
        RefChip::Tag { tag: _ } => None,
    }
}

/// Whether the commit of row `d` descends from that of row `i`, which is
/// further down. `parents` has the rows of the parents of each commit.
pub open spec fn is_descendant(parents: Seq<Vec<usize>>, d: int, i: int) -> bool
    decreases i - d,
{
    &&& 0 <= d < i
    &&& d < parents.len()
    &&& exists|k: int|
        0 <= k < parents[d]@.len() && d < #[trigger] parents[d]@[k] <= i && (parents[d]@[k] == i
            || is_descendant(parents, parents[d]@[k] as int, i))
}

fn descendants(parents: &[Vec<usize>], i: usize) -> (marks: Vec<bool>)
    requires
        i < parents@.len(),
    ensures
        marks@.len() == i,
        forall|d: int| 0 <= d < i ==> #[trigger] marks@[d] == is_descendant(parents@, d, i as int),
{
    let mut marks: Vec<bool> = Vec::new();
    let mut d: usize = 0;
    while d < i
        invariant
            d <= i,
            marks@.len() == d,
        decreases i - d,
    {
        marks.push(false);
        d += 1;
    }
    while d > 0
        invariant
            d <= i < parents@.len(),
            marks@.len() == i,
            forall|e: int|
                d <= e < i ==> #[trigger] marks@[e] == is_descendant(parents@, e, i as int),
        decreases d,
    {
        d -= 1;
        let list: &Vec<usize> = &parents[d];
        let mut found = false;
        let mut k: usize = 0;
        while k < list.len()
            invariant
                d < i < parents@.len(),
                *list == parents@[d as int],
                k <= list@.len(),
                marks@.len() == i,
                forall|e: int|
                    d < e < i ==> #[trigger] marks@[e] == is_descendant(parents@, e, i as int),
                found == exists|j: int|
                    0 <= j < k && d < #[trigger] list@[j] <= i && (list@[j] == i
                        || is_descendant(parents@, list@[j] as int, i as int)),
            decreases list.len() - k,
        {
            let p: usize = list[k];
            if d < p && p <= i && (p == i || marks[p]) {
                found = true;
            }
            k += 1;
        }
        marks.set(d, found);
    }
    marks
}

/// Whether a row with these names shows a branch.
pub open spec fn shows_branch(refs: Seq<RefLabel>, branch: Seq<char>) -> bool {
    exists|c: int|
        0 <= c < chips_of(refs).len() && chip_branch(refs, #[trigger] chips_of(refs)[c]) == Some(
            branch,
        )
}

fn row_shows(refs: &[RefLabel], branch: &str) -> (r: bool)
    ensures
        r == shows_branch(refs@, branch@),
{
    let chips = ref_chips(refs);
    let mut c: usize = 0;
    while c < chips.len()
        invariant
            c <= chips@.len(),
            chips@ == chips_of(refs@),
            forall|k: int| 0 <= k < chips@.len() ==> is_chip_of(refs@, #[trigger] chips@[k]),
            forall|k: int|
                0 <= k < c ==> chip_branch(refs@, #[trigger] chips@[k]) != Some(branch@),
        decreases chips.len() - c,
    {
        if let Some(name) = branch_of_chip(refs, chips[c]) {
            if same(name.as_str(), branch) {
                return true;
            }
        }
        c += 1;
    }
    false
}

/// Whether a branch is hidden on row `i`: a descendant shows it.
pub open spec fn is_hidden(
    rows: Seq<GraphRow>,
    parents: Seq<Vec<usize>>,
    i: int,
    branch: Seq<char>,
) -> bool {
    exists|d: int|
        #[trigger] is_descendant(parents, d, i) && d < rows.len() && shows_branch(
            rows[d].refs@,
            branch,
        )
}

/// The first `n` chips of row `i` but for those whose branch is hidden.
pub open spec fn smart_chips(
    rows: Seq<GraphRow>,
    parents: Seq<Vec<usize>>,
    i: int,
    n: int,
) -> Seq<RefChip>
    decreases n,
{
    if n <= 0 {
        Seq::empty()
    } else {
        let before = smart_chips(rows, parents, i, n - 1);
        let chip = chips_of(rows[i].refs@)[n - 1];
        match chip_branch(rows[i].refs@, chip) {
            Some(branch) if is_hidden(rows, parents, i, branch) => before,
            _ => before.push(chip),
        }
    }
}

/// The chips that row `i` shows.
pub open spec fn shown_chips(
    rows: Seq<GraphRow>,
    parents: Seq<Vec<usize>>,
    i: int,
    smart: bool,
) -> Seq<RefChip> {
    let all = chips_of(rows[i].refs@);
    if smart {
        smart_chips(rows, parents, i, all.len() as int)
    } else {
        all
    }
}

/// The chips that a row shows. `parents` has the rows of the parents of each
/// commit.
pub fn visible_chips(
    rows: &[GraphRow],
    parents: &[Vec<usize>],
    i: usize,
    prefs: &ColumnPrefs,
) -> (out: Vec<RefChip>)
    requires
        i < rows@.len(),
        parents@.len() == rows@.len(),
    ensures
        out@ == shown_chips(rows@, parents@, i as int, prefs.smart_branches),
{
    let refs: &[RefLabel] = rows[i].refs.as_slice();
    let chips = ref_chips(refs);
    if !prefs.smart_branches || chips.len() == 0 {
        return chips;
    }
    let marks = descendants(parents, i);
    let mut out: Vec<RefChip> = Vec::new();
    let mut c: usize = 0;
    while c < chips.len()
        invariant
            i < rows@.len(),
            parents@.len() == rows@.len(),
            refs@ == rows@[i as int].refs@,
            chips@ == chips_of(refs@),
            forall|k: int| 0 <= k < chips@.len() ==> is_chip_of(refs@, #[trigger] chips@[k]),
            marks@.len() == i,
            forall|d: int|
                0 <= d < i ==> #[trigger] marks@[d] == is_descendant(parents@, d, i as int),
            c <= chips@.len(),
            out@ == smart_chips(rows@, parents@, i as int, c as int),
        decreases chips.len() - c,
    {
        let hidden = match branch_of_chip(refs, chips[c]) {
            Some(branch) => shown_above(rows, parents, i, &marks, branch.as_str()),
            None => false,
        };
        if !hidden {
            out.push(chips[c]);
        }
        c += 1;
    }
    out
}

fn shown_above(
    rows: &[GraphRow],
    parents: &[Vec<usize>],
    i: usize,
    marks: &Vec<bool>,
    branch: &str,
) -> (r: bool)
    requires
        i < rows@.len(),
        marks@.len() == i,
        forall|d: int|
            0 <= d < i ==> #[trigger] marks@[d] == is_descendant(parents@, d, i as int),
    ensures
        r == is_hidden(rows@, parents@, i as int, branch@),
{
    let mut d: usize = 0;
    while d < i
        invariant
            d <= i < rows@.len(),
            marks@.len() == i,
            forall|e: int|
                0 <= e < i ==> #[trigger] marks@[e] == is_descendant(parents@, e, i as int),
            forall|e: int|
                0 <= e < d && #[trigger] is_descendant(parents@, e, i as int) ==> !shows_branch(
                    rows@[e].refs@,
                    branch@,
                ),
        decreases i - d,
    {
        if marks[d] && row_shows(rows[d].refs.as_slice(), branch) {
            proof {
                assert(is_descendant(parents@, d as int, i as int));
            }
            return true;
        }
        d += 1;
    }
    false
}

proof fn lemma_descends(parents: Seq<Vec<usize>>, a: int, b: int, c: int)
    requires
        is_descendant(parents, a, b),
        is_descendant(parents, b, c),
    ensures
        is_descendant(parents, a, c),
    decreases b - a,
{
    let k = choose|k: int|
        0 <= k < parents[a]@.len() && a < #[trigger] parents[a]@[k] <= b && (parents[a]@[k] == b
            || is_descendant(parents, parents[a]@[k] as int, b));
    let p = parents[a]@[k] as int;
    if p != b {
        lemma_descends(parents, p, b, c);
    }
}

/// A branch that is hidden on a row is shown by a descendant of that row, on
/// which it is not hidden in turn.
pub proof fn law_hidden_branches_are_shown(
    rows: Seq<GraphRow>,
    parents: Seq<Vec<usize>>,
    i: int,
    branch: Seq<char>,
)
    requires
        is_hidden(rows, parents, i, branch),
    ensures
        exists|d: int|
            #[trigger] is_descendant(parents, d, i) && d < rows.len() && shows_branch(
                rows[d].refs@,
                branch,
            ) && !is_hidden(rows, parents, d, branch),
    decreases i,
{
    let d = choose|d: int|
        #[trigger] is_descendant(parents, d, i) && d < rows.len() && shows_branch(
            rows[d].refs@,
            branch,
        );
    if is_hidden(rows, parents, d, branch) {
        law_hidden_branches_are_shown(rows, parents, d, branch);
        let e = choose|e: int|
            #[trigger] is_descendant(parents, e, d) && e < rows.len() && shows_branch(
                rows[e].refs@,
                branch,
            ) && !is_hidden(rows, parents, e, branch);
        lemma_descends(parents, e, d, i);
    }
}

/// A commit descends from its parents, and from what these descend from.
pub proof fn law_descent(parents: Seq<Vec<usize>>, a: int, b: int, c: int)
    requires
        0 <= a < b < parents.len(),
    ensures
        parents[a]@.contains(b as usize) && b <= usize::MAX ==> is_descendant(parents, a, b),
        is_descendant(parents, a, b) && is_descendant(parents, b, c) ==> is_descendant(
            parents,
            a,
            c,
        ),
        parents[a]@.len() == 0 ==> !is_descendant(parents, a, b),
        !is_descendant(parents, b, a),
{
    if parents[a]@.contains(b as usize) && b <= usize::MAX {
        let k = choose|k: int| 0 <= k < parents[a]@.len() && parents[a]@[k] == b as usize;
        assert(parents[a]@[k] == b);
    }
    if is_descendant(parents, a, b) && is_descendant(parents, b, c) {
        lemma_descends(parents, a, b, c);
    }
}

/// Whether a chip stays where a row is thinned out: a tag does, and a branch
/// that no descendant shows.
pub open spec fn stays(
    rows: Seq<GraphRow>,
    parents: Seq<Vec<usize>>,
    i: int,
    chip: RefChip,
) -> bool {
    chip is Tag || !is_hidden(rows, parents, i, chip_branch(rows[i].refs@, chip)->0)
}

proof fn lemma_smart_chips(rows: Seq<GraphRow>, parents: Seq<Vec<usize>>, i: int, n: int)
    requires
        0 <= n <= chips_of(rows[i].refs@).len(),
    ensures
        smart_chips(rows, parents, i, n) == chips_of(rows[i].refs@).take(n).filter(
            |chip: RefChip| stays(rows, parents, i, chip),
        ),
    decreases n,
{
    reveal(Seq::filter);
    let all = chips_of(rows[i].refs@);
    if n > 0 {
        lemma_smart_chips(rows, parents, i, n - 1);
        assert(all.take(n).drop_last() =~= all.take(n - 1));
        assert(all.take(n).last() == all[n - 1]);
    } else {
        assert(all.take(0) =~= Seq::empty());
    }
}

/// A row shows all its chips, or, where it is thinned out, those that stay,
/// in the same order. Tags always stay.
pub proof fn law_shown_chips(rows: Seq<GraphRow>, parents: Seq<Vec<usize>>, i: int)
    ensures
        shown_chips(rows, parents, i, false) == chips_of(rows[i].refs@),
        shown_chips(rows, parents, i, true) == chips_of(rows[i].refs@).filter(
            |chip: RefChip| stays(rows, parents, i, chip),
        ),
{
    let all = chips_of(rows[i].refs@);
    lemma_smart_chips(rows, parents, i, all.len() as int);
    assert(all.take(all.len() as int) =~= all);
}

/// A remote branch stands for the branch behind the name of its remote, and a
/// shared chip for its local branch.
pub proof fn law_branches_of_chips(
    refs: Seq<RefLabel>,
    local: usize,
    remote: usize,
    host: Seq<char>,
    branch: Seq<char>,
)
    requires
        local < refs.len(),
        remote < refs.len(),
        refs[remote as int].short@ == host + seq!['/'] + branch,
        forall|k: int| 0 <= k < host.len() ==> host[k] != '/',
    ensures
        chip_branch(refs, RefChip::Remote { remote }) == Some(branch),
        chip_branch(refs, RefChip::Synced { local, remote }) == Some(refs[local as int].short@),
        chip_branch(refs, RefChip::Local { local }) == Some(refs[local as int].short@),
        chip_branch(refs, RefChip::Tag { tag: local }) is None,
{
    let name = refs[remote as int].short@;
    crate::ui::graph_laws::law_remote_of_a_branch(name);
    let n = remote_of(name).len() as int;
    if n < host.len() {
        assert(name[n] == host[n]);
    }
    if n > host.len() {
        assert(name[host.len() as int] == '/');
        assert(remote_of(name)[host.len() as int] == name.take(n)[host.len() as int]);
    }
    assert(name.skip(n + 1) =~= branch);
}

/// A branch is hidden in a row just where a descendant of the row has a chip
/// of it.
pub proof fn law_hidden_by_descendants(
    rows: Seq<GraphRow>,
    parents: Seq<Vec<usize>>,
    i: int,
    branch: Seq<char>,
    d: int,
    c: int,
)
    ensures
        is_descendant(parents, d, i) && 0 <= d < rows.len() && 0 <= c < chips_of(
            rows[d].refs@,
        ).len() && chip_branch(rows[d].refs@, chips_of(rows[d].refs@)[c]) == Some(branch)
            ==> is_hidden(rows, parents, i, branch),
        is_hidden(rows, parents, i, branch) ==> exists|d: int, c: int|
            #[trigger] is_descendant(parents, d, i) && 0 <= d < rows.len() && 0 <= c < chips_of(
                rows[d].refs@,
            ).len() && chip_branch(rows[d].refs@, #[trigger] chips_of(rows[d].refs@)[c]) == Some(
                branch,
            ),
{
    if is_descendant(parents, d, i) && 0 <= d < rows.len() && 0 <= c < chips_of(
        rows[d].refs@,
    ).len() && chip_branch(rows[d].refs@, chips_of(rows[d].refs@)[c]) == Some(branch) {
        assert(shows_branch(rows[d].refs@, branch));
    }
    if is_hidden(rows, parents, i, branch) {
        let d = choose|d: int|
            #[trigger] is_descendant(parents, d, i) && d < rows.len() && shows_branch(
                rows[d].refs@,
                branch,
            );
        let refs = rows[d].refs@;
        let c = choose|c: int|
            0 <= c < chips_of(refs).len() && chip_branch(refs, #[trigger] chips_of(refs)[c]) == Some(
                branch,
            );
        assert(is_descendant(parents, d, i) && chip_branch(refs, chips_of(refs)[c]) == Some(branch));
    }
}

} // verus!
