//! What the smaller panels show, over all that they are given.

use vstd::prelude::*;

use crate::calendar::date_text;
use crate::config::UiLanguage;
use crate::git::{Hunk, LineKind};
use crate::paths::{components, last_index, lemma_last_index};
use crate::providers::types::{IssueSummary, PullRequestSummary};
use crate::text::{digits, first_chars, is_blank, lower_char};
use crate::ui::activity_log::{delta_text, deltas_text, RefDelta};
use crate::ui::basket_squash::{confirms, SquashInput};
use crate::ui::blame::{copied_line, copied_lines, day_text, fnv, truncated, BlameLine};
use crate::ui::chrome::upper_ascii;
use crate::ui::columns::{is_shown, switch_text, Column, ColumnPrefs, Switch};
use crate::ui::diff_minimap::{hunk_rows, hunks_rows};
use crate::ui::file_groups::{
    dir_name, holds, is_group, is_grouping, leaf_name, less, DirGroup,
};
use crate::ui::file_preview::State;
use crate::ui::find_fix::{
    has_hit, hits_of, is_by_file, is_file_group, least, FileHits, WorkingTreeMatch,
};
use crate::ui::fonts::family_order;
use crate::ui::forge::{first_issue, first_pull_request, numbered};
use crate::ui::forge_labels::{speaks, Labels};
use crate::ui::hud::position_text;
use crate::ui::preview_cache::{stored, Key};

verus! {

/// A path is its directory, a slash and its name. One without a slash lies
/// in `.`.
pub proof fn law_paths_are_split(path: Seq<char>)
    ensures
        path.contains('/') ==> dir_name(path) + seq!['/'] + leaf_name(path) == path,
        !path.contains('/') ==> dir_name(path) == "."@ && leaf_name(path) == path,
        !leaf_name(path).contains('/'),
{
    lemma_last_index(path, '/');
    let at = last_index(path, '/');
    if at >= 0 {
        assert(path.contains('/'));
        assert(dir_name(path) + seq!['/'] + leaf_name(path) =~= path);
    } else {
        assert(leaf_name(path) =~= path);
    }
    assert forall|i: int| 0 <= i < leaf_name(path).len() implies leaf_name(path)[i] != '/' by {
        assert(leaf_name(path)[i] == path[at + 1 + i]);
    }
}

/// Texts are ordered by the first character in which they differ, and one that
/// another begins with goes before it.
pub proof fn law_order_of_texts(a: Seq<char>, b: Seq<char>, k: int)
    requires
        0 <= k <= a.len(),
        k <= b.len(),
        a.take(k) == b.take(k),
    ensures
        k < a.len() && k < b.len() && (a[k] as u32) < (b[k] as u32) ==> less(a, b) && !less(b, a),
        k == a.len() && k < b.len() ==> less(a, b) && !less(b, a),
        k == a.len() && k == b.len() ==> !less(a, b),
    decreases k,
{
    if k > 0 {
        assert(a.take(k)[0] == a[0]);
        assert(b.take(k)[0] == b[0]);
        assert(a.drop_first().take(k - 1) =~= a.take(k).drop_first());
        assert(b.drop_first().take(k - 1) =~= b.take(k).drop_first());
        law_order_of_texts(a.drop_first(), b.drop_first(), k - 1);
    }
}

/// Two things of a grouped list stand in one group just where they have the
/// same key, and none stands in two.
pub proof fn law_groups_are_by_key(keys: Seq<Seq<char>>, groups: Seq<DirGroup>, i: int, j: int, g: int, h: int)
    requires
        is_grouping(keys, groups),
        0 <= i < keys.len(),
        0 <= j < keys.len(),
        0 <= g < groups.len(),
        0 <= h < groups.len(),
        holds(groups[g], i),
        holds(groups[h], j),
    ensures
        g == h <==> keys[i] == keys[j],
        groups[g].dir@ == keys[i],
        g < h ==> less(keys[i], keys[j]),
{
    assert(is_group(keys, groups[g]));
    assert(is_group(keys, groups[h]));
    let k = choose|k: int| 0 <= k < groups[g].files@.len() && #[trigger] groups[g].files@[k] == i;
    let l = choose|l: int| 0 <= l < groups[h].files@.len() && #[trigger] groups[h].files@[l] == j;
    assert(keys[groups[g].files@[k] as int] == groups[g].dir@);
    assert(keys[groups[h].files@[l] as int] == groups[h].dir@);
    crate::ui::file_groups::lemma_less_irreflexive(keys[i]);
    if g < h {
        assert(less(groups[g].dir@, groups[h].dir@));
    } else if h < g {
        assert(less(groups[h].dir@, groups[g].dir@));
    }
}

/// Hits of a text stand together just where they are in one file.
pub proof fn law_hits_are_by_file(
    hits: Seq<WorkingTreeMatch>,
    groups: Seq<FileHits>,
    i: int,
    j: int,
    g: int,
)
    requires
        is_by_file(hits, groups),
        0 <= i < hits.len(),
        0 <= j < hits.len(),
        0 <= g < groups.len(),
        has_hit(groups[g], i),
        has_hit(groups[g], j),
    ensures
        components(hits[i].path@) == components(hits[j].path@),
        components(groups[g].path@) == components(hits[i].path@),
{
    assert(is_file_group(hits, groups[g]));
    let k = choose|k: int| 0 <= k < groups[g].hits@.len() && #[trigger] groups[g].hits@[k] == i;
    let l = choose|l: int| 0 <= l < groups[g].hits@.len() && #[trigger] groups[g].hits@[l] == j;
    assert(components(hits[groups[g].hits@[k] as int].path@) == components(groups[g].path@));
    assert(components(hits[groups[g].hits@[l] as int].path@) == components(groups[g].path@));
}

/// A heading names what was searched and how many hits there are: one hit, or
/// several hits.
pub proof fn law_hit_headings(name: Seq<char>, n: nat)
    ensures
        n == 1 ==> hits_of(name, n) == name + " — "@ + digits(1) + " hit"@,
        n != 1 ==> hits_of(name, n) == name + " — "@ + digits(n) + " hit"@ + "s"@,
{
    reveal_strlit("");
    if n == 1 {
        assert(hits_of(name, n) =~= name + " — "@ + digits(1) + " hit"@);
    }
}

/// The smaller of two numbers.
pub proof fn law_least(a: nat, b: nat)
    ensures
        least(a, b) <= a,
        least(a, b) <= b,
        least(a, b) == a || least(a, b) == b,
{
}

/// A column is shown just where its switch is on. The names of branches are
/// shown too where there is a head.
pub proof fn law_columns_follow_switches(prefs: ColumnPrefs, has_head: bool)
    ensures
        is_shown(prefs, has_head, Column::Graph) <==> prefs.is_on(Switch::Graph),
        is_shown(prefs, has_head, Column::Message) <==> prefs.is_on(Switch::Message),
        is_shown(prefs, has_head, Column::Author) <==> prefs.is_on(Switch::Author),
        is_shown(prefs, has_head, Column::Date) <==> prefs.is_on(Switch::Date),
        is_shown(prefs, has_head, Column::Sha) <==> prefs.is_on(Switch::Sha),
        is_shown(prefs, has_head, Column::Refs) <==> prefs.is_on(Switch::Refs) || has_head,
        prefs.is_on(Switch::Refs) == prefs.show_refs,
        prefs.is_on(Switch::Graph) == prefs.show_graph,
        prefs.is_on(Switch::Message) == prefs.show_message,
        prefs.is_on(Switch::Author) == prefs.show_author,
        prefs.is_on(Switch::Date) == prefs.show_date,
        prefs.is_on(Switch::Sha) == prefs.show_sha,
        prefs.is_on(Switch::CompactGraph) == prefs.compact_graph,
        prefs.is_on(Switch::SmartBranches) == prefs.smart_branches,
{
}

/// Of the two sets of columns the full one shows whatever the narrow one does,
/// and neither shows the names of commits. Only the narrow one is compact.
pub proof fn law_sets_of_columns(has_head: bool, column: Column)
    ensures
        is_shown(ColumnPrefs::narrow(), has_head, column) ==> is_shown(
            ColumnPrefs::full(),
            has_head,
            column,
        ),
        is_shown(ColumnPrefs::full(), has_head, column) <==> column != Column::Sha,
        is_shown(ColumnPrefs::narrow(), false, column) <==> column == Column::Graph || column
            == Column::Message,
        ColumnPrefs::narrow().is_on(Switch::CompactGraph),
        !ColumnPrefs::full().is_on(Switch::CompactGraph),
        ColumnPrefs::full().is_on(Switch::SmartBranches),
        ColumnPrefs::narrow().is_on(Switch::SmartBranches),
{
}

/// No two switches have the same name.
pub proof fn law_switches_have_own_names(a: Switch, b: Switch)
    ensures
        switch_text(a) == switch_text(b) <==> a == b,
{
    reveal_strlit("Branch / Tag");
    reveal_strlit("Graph");
    reveal_strlit("Commit message");
    reveal_strlit("Author");
    reveal_strlit("Date / Time");
    reveal_strlit("Sha");
    reveal_strlit("Compact Graph Column");
    reveal_strlit("Smart Branch Visibility");
    assert("Branch / Tag"@.len() == 12 && "Graph"@.len() == 5 && "Commit message"@.len() == 14
        && "Author"@.len() == 6 && "Date / Time"@.len() == 11 && "Sha"@.len() == 3
        && "Compact Graph Column"@.len() == 20 && "Smart Branch Visibility"@.len() == 23);
}

/// A text that fits stays as it is. One that does not is cut to the width, the
/// last place taken by an ellipsis.
pub proof fn law_cut_texts(s: Seq<char>, max: nat)
    ensures
        s.len() <= max ==> truncated(s, max) == s,
        s.len() > max && max > 0 ==> truncated(s, max).len() == max && truncated(s, max).drop_last()
            == s.take(max - 1) && truncated(s, max).last() == '…',
        s.len() > max && max == 0 ==> truncated(s, max) == seq!['…'],
{
    if s.len() > max && max > 0 {
        assert(truncated(s, max).drop_last() =~= s.take(max - 1));
    }
    if s.len() > max && max == 0 {
        assert(truncated(s, max) =~= seq!['…']);
    }
}

/// A time is shown by its day: the same for all times of one day, and blank
/// where there is none.
pub proof fn law_days_of_lines(day: int, second: int)
    requires
        day >= 0,
        0 <= second < 86400,
    ensures
        day * 86400 + second > 0 ==> day_text(day * 86400 + second) == date_text(day),
        is_all_spaces(day_text(-second)),
        day_text(-second).len() == 10,
{
    reveal_strlit("          ");
    assert((day * 86400 + second) / 86400 == day);
}

/// Whether a text is made of spaces alone.
pub open spec fn is_all_spaces(s: Seq<char>) -> bool {
    forall|i: int| 0 <= i < s.len() ==> #[trigger] s[i] == ' '
}

/// A copied line gives the commit, the author, the day, the number and the
/// content, with tabs between them.
pub proof fn law_copied_line(line: BlameLine)
    ensures
        copied_lines(seq![line]) == copied_line(line),
        copied_line(line) == first_chars(line.commit.sha@, 8) + seq!['\t'] + line.commit.author@
            + seq!['\t'] + day_text(line.commit.author_time as int) + seq!['\t'] + digits(
            line.line_no as nat,
        ) + seq!['\t'] + line.content@,
{
    reveal_strlit("\t");
    assert("\t"@ =~= seq!['\t']);
}

/// Lines are copied one below the other, all of them and in their order.
pub proof fn law_copied_lines(a: Seq<BlameLine>, b: Seq<BlameLine>)
    requires
        a.len() > 0,
        b.len() > 0,
    ensures
        copied_lines(a + b) == copied_lines(a) + seq!['\n'] + copied_lines(b),
    decreases b.len(),
{
    reveal_strlit("\n");
    assert("\n"@ =~= seq!['\n']);
    assert((a + b).drop_last() =~= a + b.drop_last());
    assert((a + b).last() == b.last());
    if b.len() == 1 {
        assert(a + b.drop_last() =~= a);
        assert(copied_lines(a + b) =~= copied_lines(a) + seq!['\n'] + copied_lines(b));
    } else {
        law_copied_lines(a, b.drop_last());
        assert(copied_lines(a + b) =~= copied_lines(a) + seq!['\n'] + copied_lines(b));
    }
}

/// The hash of nothing is the offset basis, and each byte is mixed in by an
/// exclusive or and a product modulo 2^64.
pub proof fn law_hash(bytes: Seq<u8>, b: u8)
    ensures
        fnv(Seq::empty()) == 0xcbf29ce484222325u64,
        fnv(bytes.push(b)) == ((fnv(bytes) ^ (b as u64)) * 0x100000001b3int) % 0x1_0000_0000_0000_0000,
{
    assert(bytes.push(b).drop_last() =~= bytes);
}

/// A change of a reference tells where it pointed before and where it points
/// now, by seven characters; a reference that is not there has a sign of its
/// own.
pub proof fn law_changes_of_references(d: RefDelta)
    ensures
        d.before is Some && d.after is Some ==> delta_text(d) == d.refname@ + ": "@ + first_chars(
            d.before->0@,
            7,
        ) + " → "@ + first_chars(d.after->0@, 7),
        d.before is None && d.after is Some ==> delta_text(d) == d.refname@ + ": "@ + "∅"@ + " → "@
            + first_chars(d.after->0@, 7),
        d.before is Some && d.after is None ==> delta_text(d) == d.refname@ + ": "@ + first_chars(
            d.before->0@,
            7,
        ) + " → "@ + "∅"@,
        deltas_text(seq![d]) == delta_text(d),
        deltas_text(Seq::empty()).len() == 0,
{
    let one = seq![d].map_values(|x: RefDelta| delta_text(x));
    assert(one =~= seq![delta_text(d)]);
    let none = Seq::<RefDelta>::empty().map_values(|x: RefDelta| delta_text(x));
    assert(none =~= Seq::empty());
}

/// Letters of ASCII are put in upper case, and nothing else changes.
pub proof fn law_upper_case(s: Seq<char>, i: int)
    requires
        0 <= i < s.len(),
    ensures
        upper_ascii(s).len() == s.len(),
        !('a' <= upper_ascii(s)[i] <= 'z'),
        lower_char(upper_ascii(s)[i]) == lower_char(s[i]),
        !('a' <= s[i] <= 'z') ==> upper_ascii(s)[i] == s[i],
{
}

/// A blank message is never taken. Another is, by the keys at any time, and by
/// the button unless the question is given up at the same time.
pub proof fn law_confirmation(message: Seq<char>, input: SquashInput)
    ensures
        confirms(message, input) ==> !is_blank(message) && (input.confirm_keys || input.squash),
        !is_blank(message) && input.confirm_keys ==> confirms(message, input),
        !is_blank(message) && input.squash && !input.cancel && !input.escape ==> confirms(
            message,
            input,
        ),
        !input.confirm_keys && (input.cancel || input.escape) ==> !confirms(message, input),
{
}

/// The rows of a minimap follow the diff: a row for the head of each hunk, and
/// one of the same kind for each of its lines.
pub proof fn law_rows_follow_the_diff(a: Seq<Hunk>, hunk: Hunk, b: Seq<Hunk>, i: int)
    requires
        0 <= i < hunk.lines@.len(),
    ensures
        hunks_rows(a + seq![hunk] + b) == hunks_rows(a) + hunks_rows(seq![hunk]) + hunks_rows(b),
        hunks_rows(seq![hunk]).len() == 1 + hunk.lines@.len(),
        hunks_rows(seq![hunk])[0].kind == LineKind::Meta,
        hunks_rows(seq![hunk])[1 + i].kind == hunk.lines@[i].kind,
{
    lemma_rows_added(a, seq![hunk]);
    lemma_rows_added(a + seq![hunk], b);
    assert(seq![hunk].drop_last() =~= Seq::empty());
    assert(seq![hunk].last() == hunk);
    assert(hunks_rows(seq![hunk].drop_last()).len() == 0);
    assert(hunks_rows(seq![hunk]) =~= hunk_rows(hunk));
}

proof fn lemma_rows_added(a: Seq<Hunk>, b: Seq<Hunk>)
    ensures
        hunks_rows(a + b) == hunks_rows(a) + hunks_rows(b),
    decreases b.len(),
{
    if b.len() == 0 {
        assert(a + b =~= a);
        assert(hunks_rows(a) + hunks_rows(b) =~= hunks_rows(a));
    } else {
        lemma_rows_added(a, b.drop_last());
        assert((a + b).drop_last() =~= a + b.drop_last());
        assert(hunks_rows(a + b) =~= hunks_rows(a) + hunks_rows(b));
    }
}

/// The pull request that is found by its number is the first of that number,
/// and none is found only where there is none.
pub proof fn law_found_pull_request(list: Seq<PullRequestSummary>, number: u64)
    ensures
        -1 <= first_pull_request(list, number) < list.len(),
        first_pull_request(list, number) >= 0 ==> list[first_pull_request(list, number)].number
            == number,
        forall|k: int|
            0 <= k < list.len() && (#[trigger] list[k]).number == number ==> 0
                <= first_pull_request(list, number) <= k,
    decreases list.len(),
{
    if list.len() > 0 {
        let init = list.drop_last();
        law_found_pull_request(init, number);
        assert forall|k: int| 0 <= k < list.len() && (#[trigger] list[k]).number
            == number implies 0 <= first_pull_request(list, number) <= k by {
            if k < init.len() {
                assert(init[k].number == number);
            }
        }
    }
}

/// The issue that is found by its number is the first of that number, and none
/// is found only where there is none.
pub proof fn law_found_issue(list: Seq<IssueSummary>, number: u64)
    ensures
        -1 <= first_issue(list, number) < list.len(),
        first_issue(list, number) >= 0 ==> list[first_issue(list, number)].number == number,
        forall|k: int|
            0 <= k < list.len() && (#[trigger] list[k]).number == number ==> 0 <= first_issue(
                list,
                number,
            ) <= k,
    decreases list.len(),
{
    if list.len() > 0 {
        let init = list.drop_last();
        law_found_issue(init, number);
        assert forall|k: int| 0 <= k < list.len() && (#[trigger] list[k]).number
            == number implies 0 <= first_issue(list, number) <= k by {
            if k < init.len() {
                assert(init[k].number == number);
            }
        }
    }
}

/// A title stands behind a number sign, the number and a space.
pub proof fn law_numbered_titles(number: u64, title: Seq<char>)
    ensures
        numbered(number, title) == seq!['#'] + digits(number as nat) + seq![' '] + title,
{
    reveal_strlit("#");
    reveal_strlit(" ");
    assert("#"@ =~= seq!['#']);
    assert(" "@ =~= seq![' ']);
}

/// At the start of a journal nothing can be undone, at its end nothing can be
/// done again, and in between both can.
pub proof fn law_positions(i: usize, total: usize)
    requires
        i < total,
    ensures
        position_text(None, total) == "position "@ + digits(0) + " / "@ + digits(total as nat)
            + "    ↶ "@ + "no undo"@ + "    "@ + "redo available"@ + " ↷"@,
        i + 1 < total ==> position_text(Some(i), total) == "position "@ + digits((i + 1) as nat)
            + " / "@ + digits(total as nat) + "    ↶ "@ + "undo available"@ + "    "@
            + "redo available"@ + " ↷"@,
        i + 1 == total ==> position_text(Some(i), total) == "position "@ + digits(total as nat)
            + " / "@ + digits(total as nat) + "    ↶ "@ + "undo available"@ + "    "@ + "no redo"@
            + " ↷"@,
{
}

/// The font of the interface comes first, then that of a language that needs
/// one, then the fonts that were there, in their order.
pub proof fn law_order_of_fonts(defaults: Seq<Seq<char>>, a: Seq<char>, b: Seq<char>)
    ensures
        family_order(defaults, None, None) == defaults,
        family_order(defaults, Some(a), None) == seq![a] + defaults,
        family_order(defaults, None, Some(b)) == seq![b] + defaults,
        family_order(defaults, Some(a), Some(b)) == seq![a, b] + defaults,
{
    assert(family_order(defaults, None, None) =~= defaults);
    assert(family_order(defaults, Some(a), None) =~= seq![a] + defaults);
    assert(family_order(defaults, None, Some(b)) =~= seq![b] + defaults);
    assert(family_order(defaults, Some(a), Some(b)) =~= seq![a, b] + defaults);
}

/// What a cache holds after results came in: of each key the last result, and
/// of the other keys what it held.
pub proof fn law_last_results_are_kept(
    map: Map<Key, State>,
    results: Seq<(Key, State)>,
    key: Key,
    at: int,
)
    requires
        -1 <= at < results.len(),
        at >= 0 ==> results[at].0 == key,
        forall|k: int| at < k < results.len() ==> (#[trigger] results[k]).0 != key,
    ensures
        at >= 0 ==> stored(map, results).contains_key(key) && stored(map, results)[key]
            == results[at].1,
        at < 0 ==> (stored(map, results).contains_key(key) <==> map.contains_key(key)),
        at < 0 && map.contains_key(key) ==> stored(map, results)[key] == map[key],
    decreases results.len(),
{
    if results.len() > 0 && at < results.len() - 1 {
        let init = results.drop_last();
        assert(results[results.len() - 1].0 != key);
        law_last_results_are_kept(map, init, key, at);
    }
}

/// The labels of pull requests and of issues are different, and so are those
/// of what can be copied, in every language.
pub proof fn law_labels_differ(l: Labels, language: UiLanguage)
    requires
        speaks(l, language),
    ensures
        l.new_pr@ != l.new_issue@,
        l.pull_requests@ != l.issues@,
        l.pull_request@ != l.issue@,
        l.empty_prs@ != l.empty_issues@,
        l.create_pr@ != l.create_issue@,
        l.copy_url@ != l.copy_mcp@,
        l.head_branch@ == "From"@,
        l.base_branch@ == "To"@,
        language is Korean ==> l.cancel@ == "취소"@,
        !(language is Korean) ==> l.cancel@ == "Cancel"@,
{
    reveal_strlit("PR 만들기");
    reveal_strlit("이슈 만들기");
    reveal_strlit("풀 리퀘스트");
    reveal_strlit("이슈");
    reveal_strlit("열린 PR이 없습니다.");
    reveal_strlit("열린 이슈가 없습니다.");
    reveal_strlit("PR 생성");
    reveal_strlit("이슈 생성");
    reveal_strlit("URL 복사");
    reveal_strlit("MCP JSON 복사");
    reveal_strlit("New PR");
    reveal_strlit("New Issue");
    reveal_strlit("Pull Requests");
    reveal_strlit("Issues");
    reveal_strlit("Pull Request");
    reveal_strlit("Issue");
    reveal_strlit("No open pull requests.");
    reveal_strlit("No open issues.");
    reveal_strlit("Create PR");
    reveal_strlit("Create issue");
    reveal_strlit("Copy URL");
    reveal_strlit("Copy MCP JSON");
    assert(l.pull_request@[0] != l.issue@[0]);
    assert(l.pull_requests@[0] != l.issues@[0]);
    assert(l.new_pr@.len() != l.new_issue@.len() || l.new_pr@[0] != l.new_issue@[0]);
    assert(l.empty_prs@.len() != l.empty_issues@.len() || l.empty_prs@[3] != l.empty_issues@[3]);
    assert(l.create_pr@.len() != l.create_issue@.len() || l.create_pr@[0] != l.create_issue@[0]);
    assert(l.copy_url@.len() != l.copy_mcp@.len());
}

/// Changes of references stand one behind the other, apart by dots.
pub proof fn law_lists_of_changes(a: Seq<RefDelta>, d: RefDelta)
    requires
        a.len() > 0,
    ensures
        deltas_text(a.push(d)) == deltas_text(a) + seq![' ', '·', ' '] + delta_text(d),
{
    reveal_strlit(" · ");
    assert(" · "@ =~= seq![' ', '·', ' ']);
    let f = |x: RefDelta| delta_text(x);
    assert(a.push(d).map_values(f).drop_last() =~= a.map_values(f));
}

/// Things of a group keep their order, and none stands in it twice.
pub proof fn law_groups_keep_the_order(
    keys: Seq<Seq<char>>,
    groups: Seq<DirGroup>,
    hits: Seq<WorkingTreeMatch>,
    files: Seq<FileHits>,
    g: int,
    j: int,
    k: int,
)
    ensures
        is_grouping(keys, groups) && 0 <= g < groups.len() && 0 <= j < k < groups[g].files@.len()
            ==> groups[g].files@[j] < groups[g].files@[k],
        is_by_file(hits, files) && 0 <= g < files.len() && 0 <= j < k < files[g].hits@.len()
            ==> files[g].hits@[j] < files[g].hits@[k],
{
    if is_grouping(keys, groups) && 0 <= g < groups.len() {
        assert(is_group(keys, groups[g]));
    }
    if is_by_file(hits, files) && 0 <= g < files.len() {
        assert(is_file_group(hits, files[g]));
    }
}

/// The names of the switches.
pub proof fn law_names_of_switches()
    ensures
        switch_text(Switch::Refs) == "Branch / Tag"@,
        switch_text(Switch::Graph) == "Graph"@,
        switch_text(Switch::Message) == "Commit message"@,
        switch_text(Switch::Author) == "Author"@,
        switch_text(Switch::Date) == "Date / Time"@,
        switch_text(Switch::Sha) == "Sha"@,
        switch_text(Switch::CompactGraph) == "Compact Graph Column"@,
        switch_text(Switch::SmartBranches) == "Smart Branch Visibility"@,
{
}

} // verus!
