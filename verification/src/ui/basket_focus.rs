//! The file picker of the commit basket: a fuzzy filter over paths, and the
//! cursor that moves through what it lets pass.

use vstd::prelude::*;

use crate::text::{blank, chars_of, is_blank, trim, trimmed};

verus! {

/// Modal state of the file picker.
#[derive(Debug, Clone, PartialEq, Eq)]
pub struct BasketFocusModalState {
    /// Current fuzzy query.
    pub query: String,
    /// Index into the filtered list.
    pub selected: usize,
}

impl Default for BasketFocusModalState {
    fn default() -> (s: Self)
        ensures
            s.query@.len() == 0,
            s.selected == 0,
    {
        BasketFocusModalState { query: String::new(), selected: 0 }
    }
}

/// What the picker produced.
#[derive(Debug, Clone, PartialEq, Eq)]
pub enum FocusPickerOutcome {
    /// Show only this path.
    Picked(String),
    /// The picker was dismissed.
    Cancelled,
}

/// A text in small letters, by the rules of Unicode.
pub uninterp spec fn lowercase(s: Seq<char>) -> Seq<char>;

/// `str::to_lowercase`, whose result depends on the text alone.
#[verifier::external_body]
fn to_lowercase(text: &str) -> (out: String)
    ensures
        out@ == lowercase(text@),
{
    text.to_lowercase()
}

/// The first position from `from` on at which a character stands, or -1.
pub open spec fn find_char(text: Seq<char>, from: int, c: char) -> int
    decreases text.len() - from,
{
    if from < 0 || from >= text.len() {
        -1
    } else if text[from] == c {
        from
    } else {
        find_char(text, from + 1, c)
    }
}

/// How far a query is matched: behind which character, where its first and
/// its last character were found, and with which points.
pub struct Progress {
    pub cursor: int,
    pub first: Option<int>,
    pub last: Option<int>,
    pub points: int,
}

/// Whether a segment of a path starts at a position.
pub open spec fn starts_segment(path: Seq<char>, index: int) -> bool {
    index == 0 || path[index - 1] == '/'
}

/// The points for a match at `index`: eight right behind the match before,
/// six at the start of a path segment, and an eighth of the distance less.
pub open spec fn points_at(path: Seq<char>, last: Option<int>, index: int) -> int {
    (if last == Some(index - 1) {
        8int
    } else {
        0
    }) + (if starts_segment(path, index) {
        6int
    } else {
        0
    }) - index / 8
}

/// Matches the characters of a query one after the other, each at the first
/// place behind the one before. Spaces are passed over.
pub open spec fn matched(path: Seq<char>, query: Seq<char>) -> Option<Progress>
    decreases query.len(),
{
    if query.len() == 0 {
        Some(Progress { cursor: 0, first: None, last: None, points: 0 })
    } else {
        match matched(path, query.drop_last()) {
            None => None,
            Some(p) => if query.last() == ' ' {
                Some(p)
            } else {
                let index = find_char(path, p.cursor, query.last());
                if index < 0 {
                    None
                } else {
                    Some(
                        Progress {
                            cursor: index + 1,
                            first: if p.first is Some {
                                p.first
                            } else {
                                Some(index)
                            },
                            last: Some(index),
                            points: p.points + points_at(path, p.last, index),
                        },
                    )
                }
            },
        }
    }
}

/// What a match is worth. A query that begins where a segment of the path
/// begins is worth six more.
pub open spec fn worth(path: Seq<char>, p: Progress) -> int {
    p.points + (if p.first matches Some(i) && starts_segment(path, i) {
        6int
    } else {
        0
    })
}

/// A number, or the end of the range of `i32` that it is beyond.
pub open spec fn clamped(n: int) -> i32 {
    if n < i32::MIN {
        i32::MIN
    } else if n > i32::MAX {
        i32::MAX
    } else {
        n as i32
    }
}

/// The score of a path and a query, both in small letters.
pub open spec fn match_score(path: Seq<char>, query: Seq<char>) -> Option<i32> {
    match matched(path, query) {
        Some(p) => Some(clamped(worth(path, p))),
        None => None,
    }
}

/// The score of a path. A blank query fits every path.
pub open spec fn path_score(path: Seq<char>, query: Seq<char>) -> Option<i32> {
    if is_blank(query) {
        Some(0)
    } else {
        match_score(lowercase(path), lowercase(query))
    }
}

/// The score of a path and a query, both in small letters.
pub fn score_lowered(path: &str, query: &str) -> (out: Option<i32>)
    ensures
        out == match_score(path@, query@),
{
    let text = chars_of(path);
    let wanted = chars_of(query);
    let mut cursor: usize = 0;
    let mut points: i128 = 0;
    let mut first: Option<usize> = None;
    let mut last: Option<usize> = None;
    let mut i: usize = 0;
    while i < wanted.len()
        invariant
            text@ == path@,
            wanted@ == query@,
            i <= wanted@.len(),
            cursor <= text@.len(),
            last matches Some(l) ==> l < cursor,
            first matches Some(f) ==> f < text@.len(),
            -(i * 0x4000_0000_0000_0000) <= points <= i * 14,
            matched(path@, query@.take(i as int)) == Some(
                Progress {
                    cursor: cursor as int,
                    first: position(first),
                    last: position(last),
                    points: points as int,
                },
            ),
        decreases wanted.len() - i,
    {
        let c: char = wanted[i];
        proof {
            assert(query@.take(i + 1).drop_last() == query@.take(i as int));
            lemma_matched_prefix(path@, query@, i + 1);
        }
        if c != ' ' {
            let start: usize = cursor;
            while cursor < text.len() && text[cursor] != c
                invariant
                    start <= cursor <= text@.len(),
                    find_char(text@, start as int, c) == find_char(text@, cursor as int, c),
                decreases text.len() - cursor,
            {
                cursor += 1;
            }
            if cursor >= text.len() {
                return None;
            }
            let index: usize = cursor;
            cursor += 1;
            if let Some(prev) = last {
                if index == prev + 1 {
                    points += 8;
                }
            }
            if index == 0 || text[index - 1] == '/' {
                points += 6;
            }
            points -= (index / 8) as i128;
            if first.is_none() {
                first = Some(index);
            }
            last = Some(index);
        }
        i += 1;
    }
    proof {
        assert(query@.take(query@.len() as int) == query@);
    }
    if let Some(f) = first {
        if f == 0 || text[f - 1] == '/' {
            points += 6;
        }
    }
    Some(
        if points < i32::MIN as i128 {
            i32::MIN
        } else if points > i32::MAX as i128 {
            i32::MAX
        } else {
            points as i32
        },
    )
}

spec fn position(at: Option<usize>) -> Option<int> {
    match at {
        Some(i) => Some(i as int),
        None => None,
    }
}

/// A query whose first characters do not match does not match.
proof fn lemma_matched_prefix(path: Seq<char>, query: Seq<char>, n: int)
    requires
        0 <= n <= query.len(),
    ensures
        matched(path, query.take(n)) is None ==> matched(path, query) is None,
    decreases query.len() - n,
{
    if n == query.len() {
        assert(query.take(n) == query);
    } else {
        lemma_matched_prefix(path, query, n + 1);
        assert(query.take(n + 1).drop_last() == query.take(n));
    }
}

/// Whether the characters of a query stand in a path at the given positions,
/// one behind the other. Spaces stand nowhere.
pub open spec fn stands_at(path: Seq<char>, query: Seq<char>, at: Seq<int>) -> bool {
    &&& at.len() == query.len()
    &&& forall|k: int|
        0 <= k < query.len() && query[k] != ' ' ==> 0 <= #[trigger] at[k] < path.len()
            && path[at[k]] == query[k]
    &&& forall|j: int, k: int|
        0 <= j < k < query.len() && query[j] != ' ' && query[k] != ' ' ==> #[trigger] at[j]
            < #[trigger] at[k]
}

proof fn lemma_find_char(text: Seq<char>, from: int, c: char)
    requires
        0 <= from,
    ensures
        find_char(text, from, c) >= 0 ==> from <= find_char(text, from, c) < text.len()
            && text[find_char(text, from, c)] == c,
        forall|i: int|
            from <= i < text.len() && text[i] == c ==> 0 <= find_char(text, from, c) <= i,
    decreases text.len() - from,
{
    if from < text.len() && text[from] != c {
        lemma_find_char(text, from + 1, c);
    }
}

proof fn lemma_matched_stands(path: Seq<char>, query: Seq<char>) -> (at: Seq<int>)
    requires
        matched(path, query) is Some,
    ensures
        stands_at(path, query, at),
        matched(path, query)->0.cursor >= 0,
        forall|k: int|
            0 <= k < query.len() && query[k] != ' ' ==> #[trigger] at[k] < matched(
                path,
                query,
            )->0.cursor,
    decreases query.len(),
{
    if query.len() == 0 {
        Seq::empty()
    } else {
        let init = query.drop_last();
        let before = lemma_matched_stands(path, init);
        let p = matched(path, init)->0;
        lemma_find_char(path, p.cursor, query.last());
        let at = before.push(find_char(path, p.cursor, query.last()));
        assert forall|k: int| 0 <= k < query.len() && query[k] != ' ' implies 0 <= #[trigger] at[k]
            < path.len() && path[at[k]] == query[k] by {
            if k < init.len() {
                assert(at[k] == before[k]);
                assert(init[k] == query[k]);
            }
        }
        assert forall|j: int, k: int|
            0 <= j < k < query.len() && query[j] != ' ' && query[k] != ' ' implies #[trigger] at[j]
            < #[trigger] at[k] by {
            assert(at[j] == before[j]);
            assert(init[j] == query[j]);
            if k < init.len() {
                assert(at[k] == before[k]);
                assert(init[k] == query[k]);
            }
        }
        assert forall|k: int| 0 <= k < query.len() && query[k] != ' ' implies #[trigger] at[k]
            < matched(path, query)->0.cursor by {
            if k < init.len() {
                assert(at[k] == before[k]);
                assert(init[k] == query[k]);
            }
        }
        at
    }
}

proof fn lemma_stands_matched(path: Seq<char>, query: Seq<char>, at: Seq<int>, n: int)
    requires
        stands_at(path, query, at),
        0 <= n <= query.len(),
    ensures
        matched(path, query.take(n)) is Some,
        matched(path, query.take(n))->0.cursor >= 0,
        forall|k: int|
            n <= k < query.len() && query[k] != ' ' ==> matched(path, query.take(n))->0.cursor
                <= #[trigger] at[k],
    decreases n,
{
    if n > 0 {
        lemma_stands_matched(path, query, at, n - 1);
        assert(query.take(n).drop_last() == query.take(n - 1));
        assert(query.take(n).last() == query[n - 1]);
        let p = matched(path, query.take(n - 1))->0;
        if query[n - 1] != ' ' {
            assert(p.cursor <= at[n - 1]);
            lemma_find_char(path, p.cursor, query[n - 1]);
            assert forall|k: int| n <= k < query.len() && query[k] != ' ' implies matched(
                path,
                query.take(n),
            )->0.cursor <= #[trigger] at[k] by {
                assert(at[n - 1] < at[k]);
            }
        }
    }
}

/// A path has a score just where the characters of the query stand in it in
/// their order, whatever stands between them.
pub proof fn law_matches_are_subsequences(path: Seq<char>, query: Seq<char>)
    ensures
        match_score(path, query) is Some <==> exists|at: Seq<int>|
            #[trigger] stands_at(path, query, at),
{
    if matched(path, query) is Some {
        let at = lemma_matched_stands(path, query);
        assert(stands_at(path, query, at));
    }
    if exists|at: Seq<int>| #[trigger] stands_at(path, query, at) {
        let at = choose|at: Seq<int>| #[trigger] stands_at(path, query, at);
        lemma_stands_matched(path, query, at, query.len() as int);
        assert(query.take(query.len() as int) == query);
    }
}

/// Of two paths with as many points for a query, or more for the first, the
/// first is the better one where the query begins at the start of one of its
/// segments, and in the middle of a segment of the other.
pub proof fn law_segment_start_wins(path: Seq<char>, other: Seq<char>, query: Seq<char>)
    requires
        matched(path, query) matches Some(p) && p.first matches Some(i) && starts_segment(path, i),
        matched(other, query) matches Some(q) && q.first matches Some(j) && !starts_segment(
            other,
            j,
        ),
        matched(path, query)->0.points >= matched(other, query)->0.points,
    ensures
        worth(path, matched(path, query)->0) > worth(other, matched(other, query)->0),
        match_score(path, query)->0 >= match_score(other, query)->0,
        i32::MIN <= worth(path, matched(path, query)->0) <= i32::MAX && i32::MIN <= worth(
            other,
            matched(other, query)->0,
        ) <= i32::MAX ==> match_score(path, query)->0 > match_score(other, query)->0,
{
}

/// The score of a path: higher is better, `None` does not match.
pub fn fuzzy_score(path: &str, query: &str) -> (out: Option<i32>)
    ensures
        out == path_score(path@, query@),
{
    if blank(query) {
        return Some(0);
    }
    score_lowered(to_lowercase(path).as_str(), to_lowercase(query).as_str())
}

/// Whether the item `i` goes before the item `j`: by the higher score, and
/// items of one score in their order.
pub open spec fn goes_before(scores: Seq<Option<i32>>, i: int, j: int) -> bool {
    scores[i]->0 > scores[j]->0 || (scores[i]->0 == scores[j]->0 && i < j)
}

/// Whether `order` lists the items with a score, the best first.
pub open spec fn is_ranking(scores: Seq<Option<i32>>, order: Seq<usize>) -> bool {
    &&& forall|k: int|
        0 <= k < order.len() ==> (#[trigger] order[k]) < scores.len()
            && scores[order[k] as int] is Some
    &&& forall|j: int, k: int|
        0 <= j < k < order.len() ==> goes_before(
            scores,
            (#[trigger] order[j]) as int,
            (#[trigger] order[k]) as int,
        )
    &&& forall|i: int|
        0 <= i < scores.len() && scores[i] is Some ==> exists|k: int|
            0 <= k < order.len() && #[trigger] order[k] == i
}

/// Lists the items with a score, the best first.
pub fn ranking(scores: &[Option<i32>]) -> (order: Vec<usize>)
    ensures
        is_ranking(scores@, order@),
{
    let mut order: Vec<usize> = Vec::new();
    let mut i: usize = 0;
    while i < scores.len()
        invariant
            i <= scores@.len(),
            is_ranking(scores@.take(i as int), order@),
        decreases scores.len() - i,
    {
        let ghost before = scores@.take(i as int);
        let ghost after = scores@.take(i + 1);
        let ghost was = order@;
        proof {
            assert forall|k: int| 0 <= k < i implies #[trigger] after[k] == before[k] by {}
        }
        if let Some(score) = scores[i] {
            let mut at: usize = order.len();
            while at > 0 && below(scores, order[at - 1], score)
                invariant
                    at <= order@.len(),
                    order@ == was,
                    i < scores@.len(),
                    scores@[i as int] == Some(score),
                    before == scores@.take(i as int),
                    is_ranking(before, order@),
                    forall|k: int|
                        at <= k < order@.len() ==> scores@[(#[trigger] order@[k]) as int]->0
                            < score,
                decreases at,
            {
                at -= 1;
            }
            proof {
                assert(at > 0 ==> before[was[at - 1] as int]->0 >= score);
            }
            order.insert(at, i);
            proof {
                lemma_insert_ranked(before, after, was, order@, at as int, i);
            }
        } else {
            proof {
                assert(is_ranking(after, order@)) by {
                    assert forall|k: int| 0 <= k < after.len() && after[k] is Some implies exists|
                        m: int,
                    |
                        0 <= m < order@.len() && #[trigger] order@[m] == k by {
                        assert(before[k] is Some);
                    }
                }
            }
        }
        i += 1;
    }
    proof {
        assert(scores@.take(scores@.len() as int) == scores@);
    }
    order
}

fn below(scores: &[Option<i32>], i: usize, score: i32) -> (r: bool)
    requires
        i < scores@.len(),
        scores@[i as int] is Some,
    ensures
        r == (scores@[i as int]->0 < score),
{
    match scores[i] {
        Some(s) => s < score,
        None => false,
    }
}

proof fn lemma_insert_ranked(
    before: Seq<Option<i32>>,
    after: Seq<Option<i32>>,
    was: Seq<usize>,
    now: Seq<usize>,
    at: int,
    i: usize,
)
    requires
        is_ranking(before, was),
        after.len() == before.len() + 1,
        i == before.len(),
        forall|k: int| 0 <= k < before.len() ==> #[trigger] after[k] == before[k],
        after[i as int] is Some,
        0 <= at <= was.len(),
        now == was.insert(at, i),
        forall|k: int| at <= k < was.len() ==> after[(#[trigger] was[k]) as int]->0 < after[i as int]->0,
        at > 0 ==> before[was[at - 1] as int]->0 >= after[i as int]->0,
    ensures
        is_ranking(after, now),
{
    assert forall|k: int| 0 <= k < now.len() implies #[trigger] now[k] == (if k < at {
        was[k]
    } else if k == at {
        i
    } else {
        was[k - 1]
    }) by {}
    assert forall|j: int, k: int| 0 <= j < k < now.len() implies goes_before(
        after,
        (#[trigger] now[j]) as int,
        (#[trigger] now[k]) as int,
    ) by {
        if k == at {
            if j < at - 1 {
                assert(goes_before(before, was[j] as int, was[at - 1] as int));
            }
        } else if j != at {
            let a = if j < at {
                j
            } else {
                j - 1
            };
            let b = if k < at {
                k
            } else {
                k - 1
            };
            assert(goes_before(before, was[a] as int, was[b] as int));
        } else {
            assert(was[k - 1] == now[k]);
        }
    }
    assert forall|x: int| 0 <= x < after.len() && after[x] is Some implies exists|m: int|
        0 <= m < now.len() && #[trigger] now[m] == x by {
        if x == i {
            assert(now[at] == x);
        } else {
            assert(before[x] is Some);
            let m = choose|m: int| 0 <= m < was.len() && #[trigger] was[m] == x;
            let shifted = if m < at {
                m
            } else {
                m + 1
            };
            assert(now[shifted] == x);
        }
    }
}

proof fn lemma_rankings_agree(scores: Seq<Option<i32>>, a: Seq<usize>, b: Seq<usize>, k: int)
    requires
        is_ranking(scores, a),
        is_ranking(scores, b),
        0 <= k < a.len(),
    ensures
        k < b.len(),
        a[k] == b[k],
    decreases k,
{
    assert forall|j: int| 0 <= j < k implies j < b.len() && #[trigger] a[j] == b[j] by {
        lemma_rankings_agree(scores, a, b, j);
    }
    let x = a[k] as int;
    let m = choose|m: int| 0 <= m < b.len() && #[trigger] b[m] == x;
    if m < k {
        assert(a[m] == b[m]);
        assert(goes_before(scores, a[m] as int, a[k] as int));
    } else if m > k {
        let y = b[k] as int;
        assert(goes_before(scores, b[k] as int, b[m] as int));
        let n = choose|n: int| 0 <= n < a.len() && #[trigger] a[n] == y;
        if n < k {
            assert(a[n] == b[n]);
            assert(goes_before(scores, b[n] as int, b[k] as int));
        } else if n > k {
            assert(goes_before(scores, a[k] as int, a[n] as int));
        }
    }
}

/// There is one ranking only, so a filter's result is determined.
pub proof fn law_ranking_is_unique(scores: Seq<Option<i32>>, a: Seq<usize>, b: Seq<usize>)
    requires
        is_ranking(scores, a),
        is_ranking(scores, b),
    ensures
        a == b,
{
    assert forall|k: int| 0 <= k < a.len() implies k < b.len() && #[trigger] a[k] == b[k] by {
        lemma_rankings_agree(scores, a, b, k);
    }
    assert forall|k: int| 0 <= k < b.len() implies k < a.len() && #[trigger] b[k] == a[k] by {
        lemma_rankings_agree(scores, b, a, k);
    }
    if a.len() < b.len() {
        lemma_rankings_agree(scores, b, a, a.len() as int);
    } else if b.len() < a.len() {
        lemma_rankings_agree(scores, a, b, b.len() as int);
    }
    assert(a =~= b);
}

/// A blank query lets every path pass, in the order given.
pub proof fn law_blank_query_keeps_order(paths: Seq<String>, query: Seq<char>, order: Seq<usize>)
    requires
        is_blank(query),
        is_ranking(path_scores(paths, query), order),
        paths.len() <= usize::MAX,
    ensures
        order == Seq::new(paths.len(), |i: int| i as usize),
{
    let all = Seq::new(paths.len(), |i: int| i as usize);
    let scores = path_scores(paths, query);
    assert forall|i: int| 0 <= i < scores.len() implies #[trigger] scores[i] == Some(0i32) by {}
    assert(is_ranking(scores, all)) by {
        assert forall|i: int| 0 <= i < scores.len() && scores[i] is Some implies exists|k: int|
            0 <= k < all.len() && #[trigger] all[k] == i by {
            assert(all[i] == i);
        }
    }
    law_ranking_is_unique(scores, order, all);
}

/// The scores of some paths.
pub open spec fn path_scores(paths: Seq<String>, query: Seq<char>) -> Seq<Option<i32>> {
    paths.map_values(|p: String| path_score(p@, query))
}

/// The paths that match a query, the best first.
pub fn filter<'a>(paths: &'a [String], query: &str) -> (out: Vec<&'a String>)
    ensures
        exists|order: Seq<usize>|
            {
                &&& is_ranking(path_scores(paths@, trim(query@)), order)
                &&& out@.len() == order.len()
                &&& forall|k: int|
                    0 <= k < out@.len() ==> *(#[trigger] out@[k]) == paths@[order[k] as int]
            },
{
    let q = trimmed(query);
    let mut scores: Vec<Option<i32>> = Vec::new();
    let mut i: usize = 0;
    while i < paths.len()
        invariant
            i <= paths@.len(),
            q@ == trim(query@),
            scores@.len() == i,
            forall|k: int| 0 <= k < i ==> #[trigger] scores@[k] == path_score(paths@[k]@, q@),
        decreases paths.len() - i,
    {
        scores.push(fuzzy_score(paths[i].as_str(), q.as_str()));
        i += 1;
    }
    proof {
        assert(scores@ =~= path_scores(paths@, trim(query@)));
    }
    let order = ranking(scores.as_slice());
    let mut out: Vec<&'a String> = Vec::new();
    let mut k: usize = 0;
    while k < order.len()
        invariant
            k <= order@.len(),
            scores@.len() == paths@.len(),
            is_ranking(scores@, order@),
            out@.len() == k,
            forall|j: int| 0 <= j < k ==> *(#[trigger] out@[j]) == paths@[order@[j] as int],
        decreases order.len() - k,
    {
        out.push(&paths[order[k]]);
        k += 1;
    }
    out
}

/// The keys that went down.
#[derive(Debug, Clone, Copy, PartialEq, Eq, Structural)]
pub struct PickerKeys {
    pub up: bool,
    pub down: bool,
    pub enter: bool,
    pub esc: bool,
}

/// Where the cursor stands in a list of `count` rows after the arrow keys.
pub open spec fn cursor_after(selected: int, count: int, up: bool, down: bool) -> int {
    let a = if up && selected > 0 {
        selected - 1
    } else {
        selected
    };
    if down && a + 1 < count {
        a + 1
    } else {
        a
    }
}

impl BasketFocusModalState {
    /// Brings the cursor back into a list of `count` rows.
    pub fn clamp(&mut self, count: usize)
        ensures
            final(self).query == old(self).query,
            final(self).selected == (if old(self).selected < count {
                old(self).selected as int
            } else if count > 0 {
                count - 1
            } else {
                0
            }),
    {
        if self.selected >= count {
            self.selected = if count > 0 {
                count - 1
            } else {
                0
            };
        }
    }

    /// Takes over what was typed. A changed query puts the cursor on top.
    pub fn type_query(&mut self, query: String)
        ensures
            final(self).query@ == query@,
            final(self).selected == (if query@ == old(self).query@ {
                old(self).selected
            } else {
                0
            }),
    {
        if self.query != query {
            self.selected = 0;
        }
        self.query = query;
    }

    /// Moves the cursor, picks the path under it, or dismisses the picker.
    /// Keys go before the clicks, which gave `clicked`.
    pub fn handle_keys(
        &mut self,
        keys: PickerKeys,
        matches: &Vec<&String>,
        clicked: Option<FocusPickerOutcome>,
    ) -> (out: Option<FocusPickerOutcome>)
        ensures
            final(self).query == old(self).query,
            final(self).selected == cursor_after(
                old(self).selected as int,
                matches@.len() as int,
                keys.up,
                keys.down,
            ),
            if keys.esc {
                out == Some(FocusPickerOutcome::Cancelled)
            } else if keys.enter && final(self).selected < matches@.len() {
                out matches Some(FocusPickerOutcome::Picked(p)) && p@
                    == matches@[final(self).selected as int]@
            } else {
                out == clicked
            },
    {
        if keys.up && self.selected > 0 {
            self.selected -= 1;
        }
        if keys.down && matches.len() > 0 && self.selected < matches.len() - 1 {
            self.selected += 1;
        }
        let mut out = clicked;
        if keys.enter && self.selected < matches.len() {
            out = Some(FocusPickerOutcome::Picked(matches[self.selected].clone()));
        }
        if keys.esc {
            out = Some(FocusPickerOutcome::Cancelled);
        }
        out
    }
}

/// Better paths come first in a ranking, and of paths with the same score the
/// one that was listed first. Those that do not match are not in it.
pub proof fn law_better_paths_come_first(
    scores: Seq<Option<i32>>,
    order: Seq<usize>,
    a: int,
    b: int,
)
    requires
        is_ranking(scores, order),
        0 <= a < order.len(),
        0 <= b < order.len(),
        a != b,
    ensures
        scores[order[a] as int] is Some,
        scores[order[a] as int]->0 > scores[order[b] as int]->0 ==> a < b,
        scores[order[a] as int] == scores[order[b] as int] && order[a] < order[b] ==> a < b,
{
    if b < a {
        assert(goes_before(scores, order[b] as int, order[a] as int));
    }
}

/// A match is worth eight points more right behind the one before, six more
/// at the start of a segment of the path, and one less for every eight
/// characters that it stands further behind.
pub proof fn law_points(path: Seq<char>, last: Option<int>, i: int, j: int)
    requires
        0 <= i < path.len(),
        0 <= j < path.len(),
        last is None || (last->0 != i - 1 && last->0 != j - 1),
    ensures
        points_at(path, Some(i - 1), i) == points_at(path, last, i) + 8,
        (i == 0 || path[i - 1] == '/') && j == i + 8 && path[j - 1] != '/' ==> points_at(
            path,
            last,
            i,
        ) == points_at(path, last, j) + 7,
        i > 0 && path[i - 1] != '/' && j == i + 8 && path[j - 1] != '/' ==> points_at(path, last, i)
            == points_at(path, last, j) + 1,
        0 < i < 8 && path[i - 1] != '/' ==> points_at(path, last, i) == 0,
{
}

/// What was matched first is remembered, and the last match is the one behind
/// which the next is looked for.
pub proof fn law_matches_are_looked_for_behind(path: Seq<char>, query: Seq<char>)
    requires
        query.len() > 0,
        query.last() != ' ',
        matched(path, query) is Some,
    ensures
        matched(path, query.drop_last()) is Some,
        ({
            let before = matched(path, query.drop_last())->0;
            let after = matched(path, query)->0;
            &&& after.last matches Some(i) && {
                &&& before.cursor <= i < path.len()
                &&& path[i] == query.last()
                &&& after.cursor == i + 1
                &&& after.points == before.points + points_at(path, before.last, i)
                &&& forall|k: int| before.cursor <= k < i ==> path[k] != query.last()
                &&& before.first is None ==> after.first == Some(i)
            }
            &&& before.first is Some ==> after.first == before.first
        }),
{
    let at = lemma_matched_stands(path, query.drop_last());
    lemma_find_char(path, matched(path, query.drop_last())->0.cursor, query.last());
}

/// The cursor moves by a row at most, up for the one key and down for the
/// other, and stays in the list.
pub proof fn law_cursor_stays_in_the_list(selected: int, count: int)
    requires
        0 <= selected < count,
    ensures
        cursor_after(selected, count, false, false) == selected,
        selected > 0 ==> cursor_after(selected, count, true, false) == selected - 1,
        selected == 0 ==> cursor_after(selected, count, true, false) == 0,
        selected + 1 < count ==> cursor_after(selected, count, false, true) == selected + 1,
        selected + 1 == count ==> cursor_after(selected, count, false, true) == selected,
        selected > 0 ==> cursor_after(selected, count, true, true) == selected,
{
}

/// A part of a path begins at its front and behind each slash.
pub proof fn law_parts_begin_behind_slashes(path: Seq<char>, index: int)
    requires
        0 <= index < path.len(),
    ensures
        starts_segment(path, 0),
        index > 0 ==> (starts_segment(path, index) <==> path[index - 1] == '/'),
{
}

/// A match that begins where a part of the path does is worth six points more,
/// and otherwise what its characters are.
pub proof fn law_worth(path: Seq<char>, p: Progress)
    ensures
        p.first is None ==> worth(path, p) == p.points,
        p.first matches Some(i) ==> worth(path, p) == p.points + (if i == 0 || path[i - 1] == '/' {
            6int
        } else {
            0
        }),
{
}

} // verus!
