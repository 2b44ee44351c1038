//! Things of a list, grouped by a text: files by the directory they lie in.

use vstd::prelude::*;

use crate::paths::last_index;
use crate::text::{chars_of, decimal, digits, same, string_of, views};

verus! {

/// Whether a text goes before another, by the first character in which they
/// differ.
pub open spec fn less(a: Seq<char>, b: Seq<char>) -> bool
    decreases a.len(),
{
    if b.len() == 0 {
        false
    } else if a.len() == 0 {
        true
    } else if a[0] != b[0] {
        (a[0] as u32) < (b[0] as u32)
    } else {
        less(a.drop_first(), b.drop_first())
    }
}

proof fn lemma_code(a: char, b: char)
    ensures
        a as u32 == b as u32 ==> a == b,
{
}

/// No text goes before itself.
pub proof fn lemma_less_irreflexive(a: Seq<char>)
    ensures
        !less(a, a),
    decreases a.len(),
{
    if a.len() > 0 {
        lemma_less_irreflexive(a.drop_first());
    }
}

proof fn lemma_less_transitive(a: Seq<char>, b: Seq<char>, c: Seq<char>)
    requires
        less(a, b),
        less(b, c),
    ensures
        less(a, c),
    decreases a.len(),
{
    if a.len() > 0 && b.len() > 0 && c.len() > 0 && a[0] == b[0] && b[0] == c[0] {
        lemma_less_transitive(a.drop_first(), b.drop_first(), c.drop_first());
    }
}

/// Of two different texts one goes before the other.
pub proof fn lemma_less_total(a: Seq<char>, b: Seq<char>)
    ensures
        less(a, b) || a == b || less(b, a),
    decreases a.len(),
{
    if a.len() > 0 && b.len() > 0 {
        if a[0] == b[0] {
            lemma_less_total(a.drop_first(), b.drop_first());
            if a.drop_first() == b.drop_first() {
                assert(a =~= seq![a[0]] + a.drop_first());
                assert(b =~= seq![b[0]] + b.drop_first());
            }
        } else {
            lemma_code(a[0], b[0]);
        }
    } else if a.len() == 0 && b.len() == 0 {
        assert(a =~= b);
    }
}

/// Whether a text goes before another.
pub fn goes_before(a: &str, b: &str) -> (r: bool)
    ensures
        r == less(a@, b@),
{
    let x = chars_of(a);
    let y = chars_of(b);
    let mut i: usize = 0;
    proof {
        assert(a@.skip(0) == a@);
        assert(b@.skip(0) == b@);
    }
    while i < x.len() && i < y.len()
        invariant
            x@ == a@,
            y@ == b@,
            i <= x@.len(),
            i <= y@.len(),
            less(a@, b@) == less(a@.skip(i as int), b@.skip(i as int)),
        decreases x.len() - i,
    {
        if x[i] != y[i] {
            return (x[i] as u32) < (y[i] as u32);
        }
        proof {
            assert(a@.skip(i as int).drop_first() == a@.skip(i + 1));
            assert(b@.skip(i as int).drop_first() == b@.skip(i + 1));
        }
        i += 1;
    }
    i < y.len()
}

/// The directory of a path, `.` where it has none.
pub open spec fn dir_name(path: Seq<char>) -> Seq<char> {
    if last_index(path, '/') >= 0 {
        path.take(last_index(path, '/'))
    } else {
        "."@
    }
}

/// What a path ends in, behind the last `/`.
pub open spec fn leaf_name(path: Seq<char>) -> Seq<char> {
    path.skip(last_index(path, '/') + 1)
}

fn last_slash(chars: &Vec<char>) -> (at: Option<usize>)
    ensures
        at matches Some(i) ==> i == last_index(chars@, '/') && i < chars@.len(),
        at is None ==> last_index(chars@, '/') == -1,
{
    let mut i: usize = chars.len();
    proof {
        assert(chars@.take(chars@.len() as int) == chars@);
    }
    while i > 0
        invariant
            i <= chars@.len(),
            last_index(chars@, '/') == last_index(chars@.take(i as int), '/'),
        decreases i,
    {
        proof {
            assert(chars@.take(i as int).drop_last() == chars@.take(i - 1));
        }
        if chars[i - 1] == '/' {
            return Some(i - 1);
        }
        i -= 1;
    }
    None
}

/// The directory of a path, `.` where it has none.
pub fn dir_name_of(path: &str) -> (out: String)
    ensures
        out@ == dir_name(path@),
{
    let chars = chars_of(path);
    match last_slash(&chars) {
        Some(i) => {
            proof {
                assert(path@.subrange(0, i as int) == path@.take(i as int));
            }
            string_of(&chars, 0, i)
        },
        None => ".".to_string(),
    }
}

/// What a path ends in, behind the last `/`.
pub fn leaf_name_of(path: &str) -> (out: String)
    ensures
        out@ == leaf_name(path@),
{
    let chars = chars_of(path);
    let n: usize = chars.len();
    let from: usize = match last_slash(&chars) {
        Some(i) => i + 1,
        None => 0,
    };
    proof {
        assert(path@.subrange(from as int, path@.len() as int) == path@.skip(from as int));
    }
    string_of(&chars, from, n)
}

/// What goes under one text, by its positions in the list: for files, the
/// directory.
#[derive(Debug, Clone, PartialEq, Eq)]
pub struct DirGroup {
    pub dir: String,
    pub files: Vec<usize>,
}

/// Whether a group holds what goes under its own text, in order, and at least
/// one thing.
pub open spec fn is_group(keys: Seq<Seq<char>>, g: DirGroup) -> bool {
    &&& g.files@.len() > 0
    &&& forall|k: int|
        0 <= k < g.files@.len() ==> (#[trigger] g.files@[k]) < keys.len()
            && keys[g.files@[k] as int] == g.dir@
    &&& forall|j: int, k: int|
        0 <= j < k < g.files@.len() ==> (#[trigger] g.files@[j]) < (#[trigger] g.files@[k])
}

/// Whether a group holds the thing `i`.
pub open spec fn holds(g: DirGroup, i: int) -> bool {
    exists|k: int| 0 <= k < g.files@.len() && #[trigger] g.files@[k] == i
}

/// Whether one of the groups holds the thing `i`.
pub open spec fn is_listed(groups: Seq<DirGroup>, i: int) -> bool {
    exists|g: int| 0 <= g < groups.len() && #[trigger] holds(groups[g], i)
}

/// Whether groups are the things of a list, by their texts: the texts in
/// order, each of them once, and every thing under its own.
pub open spec fn is_grouping(keys: Seq<Seq<char>>, groups: Seq<DirGroup>) -> bool {
    &&& forall|i: int| 0 <= i < groups.len() ==> is_group(keys, #[trigger] groups[i])
    &&& forall|i: int, j: int|
        0 <= i < j < groups.len() ==> less((#[trigger] groups[i]).dir@, (#[trigger] groups[j]).dir@)
    &&& forall|i: int| 0 <= i < keys.len() ==> #[trigger] is_listed(groups, i)
}

/// The directories of a list of files.
pub open spec fn dir_names(paths: Seq<Seq<char>>) -> Seq<Seq<char>> {
    paths.map_values(|p: Seq<char>| dir_name(p))
}

/// Groups the files of a list by their directories.
pub fn group_by_dir(paths: &[String]) -> (groups: Vec<DirGroup>)
    ensures
        is_grouping(dir_names(views(paths@)), groups@),
{
    let mut dirs: Vec<String> = Vec::new();
    let mut i: usize = 0;
    while i < paths.len()
        invariant
            i <= paths@.len(),
            views(dirs@) =~= dir_names(views(paths@)).take(i as int),
        decreases paths.len() - i,
    {
        let ghost before = dirs@;
        let dir = dir_name_of(paths[i].as_str());
        dirs.push(dir);
        proof {
            assert(views(dirs@) =~= views(before).push(dir@));
        }
        i += 1;
    }
    proof {
        assert(views(dirs@) =~= dir_names(views(paths@)));
    }
    group_by_key(dirs.as_slice())
}

/// Groups things by their texts.
pub fn group_by_key(keys: &[String]) -> (groups: Vec<DirGroup>)
    ensures
        is_grouping(views(keys@), groups@),
{
    let mut groups: Vec<DirGroup> = Vec::new();
    let ghost all = views(keys@);
    let mut i: usize = 0;
    while i < keys.len()
        invariant
            i <= keys@.len(),
            all == views(keys@),
            is_grouping(all.take(i as int), groups@),
        decreases keys.len() - i,
    {
        let dir = keys[i].clone();
        let ghost before = all.take(i as int);
        let ghost after = all.take(i + 1);
        let ghost was = groups@;
        let mut at: usize = 0;
        while at < groups.len() && goes_before(groups[at].dir.as_str(), dir.as_str())
            invariant
                at <= groups@.len(),
                groups@ == was,
                forall|k: int| 0 <= k < at ==> less((#[trigger] groups@[k]).dir@, dir@),
            decreases groups.len() - at,
        {
            at += 1;
        }
        proof {
            assert(all[i as int] == keys@[i as int]@);
            assert(before =~= after.take(i as int));
            assert(dir@ == after[i as int]);
            if at < was.len() {
                lemma_less_total(was[at as int].dir@, dir@);
            }
        }
        if at < groups.len() && same(groups[at].dir.as_str(), dir.as_str()) {
            let mut group = groups.remove(at);
            group.files.push(i);
            groups.insert(at, group);
            proof {
                lemma_joined_group(before, after, was, groups@, at as int, i);
            }
        } else {
            let mut files: Vec<usize> = Vec::new();
            files.push(i);
            let group = DirGroup { dir, files };
            groups.insert(at, group);
            proof {
                lemma_new_group(before, after, was, groups@, at as int, i);
            }
        }
        i += 1;
    }
    proof {
        assert(all.take(all.len() as int) == all);
    }
    groups
}

proof fn lemma_group_grows(before: Seq<Seq<char>>, after: Seq<Seq<char>>, g: DirGroup)
    requires
        is_group(before, g),
        before.len() <= after.len(),
        forall|k: int| 0 <= k < before.len() ==> #[trigger] after[k] == before[k],
    ensures
        is_group(after, g),
{
    assert forall|k: int| 0 <= k < g.files@.len() implies (#[trigger] g.files@[k]) < after.len()
        && after[g.files@[k] as int] == g.dir@ by {
        assert(after[g.files@[k] as int] == before[g.files@[k] as int]);
    }
}

proof fn lemma_joined_group(
    before: Seq<Seq<char>>,
    after: Seq<Seq<char>>,
    was: Seq<DirGroup>,
    now: Seq<DirGroup>,
    at: int,
    i: usize,
)
    requires
        is_grouping(before, was),
        after.len() == before.len() + 1,
        i == before.len(),
        before == after.take(i as int),
        0 <= at < was.len(),
        now.len() == was.len(),
        forall|k: int| 0 <= k < was.len() && k != at ==> now[k] == #[trigger] was[k],
        now[at].dir == was[at].dir,
        now[at].files@ == was[at].files@.push(i),
        after[i as int] == was[at].dir@,
    ensures
        is_grouping(after, now),
{
    assert forall|k: int| 0 <= k < before.len() implies #[trigger] after[k] == before[k] by {}
    assert forall|k: int| 0 <= k < now.len() implies is_group(after, #[trigger] now[k]) by {
        assert(is_group(before, was[k]));
        lemma_group_grows(before, after, was[k]);
    }
    assert forall|j: int, k: int| 0 <= j < k < now.len() implies less(
        (#[trigger] now[j]).dir@,
        (#[trigger] now[k]).dir@,
    ) by {
        assert(less(was[j].dir@, was[k].dir@));
    }
    assert forall|x: int| 0 <= x < after.len() implies #[trigger] is_listed(now, x) by {
        if x == i {
            assert(now[at].files@[was[at].files@.len() as int] == x);
            assert(holds(now[at], x));
        } else {
            assert(is_listed(was, x));
            let g = choose|g: int| 0 <= g < was.len() && #[trigger] holds(was[g], x);
            let k = choose|k: int| 0 <= k < was[g].files@.len() && #[trigger] was[g].files@[k] == x;
            assert(now[g].files@[k] == x);
            assert(holds(now[g], x));
        }
    }
}

proof fn lemma_new_group(
    before: Seq<Seq<char>>,
    after: Seq<Seq<char>>,
    was: Seq<DirGroup>,
    now: Seq<DirGroup>,
    at: int,
    i: usize,
)
    requires
        is_grouping(before, was),
        after.len() == before.len() + 1,
        i == before.len(),
        before == after.take(i as int),
        0 <= at <= was.len(),
        now.len() == was.len() + 1,
        now == was.insert(at, now[at]),
        now[at].files@ == seq![i],
        after[i as int] == now[at].dir@,
        forall|k: int| 0 <= k < at ==> less((#[trigger] was[k]).dir@, now[at].dir@),
        at < was.len() ==> less(now[at].dir@, was[at].dir@),
    ensures
        is_grouping(after, now),
{
    assert forall|k: int| 0 <= k < before.len() implies #[trigger] after[k] == before[k] by {}
    assert forall|k: int| 0 <= k < now.len() implies #[trigger] now[k] == (if k < at {
        was[k]
    } else if k == at {
        now[at]
    } else {
        was[k - 1]
    }) by {}
    assert forall|k: int| 0 <= k < now.len() implies is_group(after, #[trigger] now[k]) by {
        if k < at {
            lemma_group_grows(before, after, was[k]);
        } else if k > at {
            lemma_group_grows(before, after, was[k - 1]);
        }
    }
    assert forall|j: int, k: int| 0 <= j < k < now.len() implies less(
        (#[trigger] now[j]).dir@,
        (#[trigger] now[k]).dir@,
    ) by {
        if j == at {
            if k - 1 > at {
                lemma_less_transitive(now[at].dir@, was[at].dir@, was[k - 1].dir@);
            }
        } else if k != at {
            let a = if j < at {
                j
            } else {
                j - 1
            };
            let b = if k < at {
                k
            } else {
                k - 1
            };
            assert(less(was[a].dir@, was[b].dir@));
        } else {
            assert(less(was[j].dir@, now[at].dir@));
        }
    }
    assert forall|x: int| 0 <= x < after.len() implies #[trigger] is_listed(now, x) by {
        if x == i {
            assert(now[at].files@[0] == x);
            assert(holds(now[at], x));
        } else {
            assert(is_listed(was, x));
            let g = choose|g: int| 0 <= g < was.len() && #[trigger] holds(was[g], x);
            let shifted = if g < at {
                g
            } else {
                g + 1
            };
            assert(now[shifted] == was[g]);
            assert(holds(now[shifted], x));
        }
    }
}

/// The heading of a directory's group.
pub fn group_heading(group: &DirGroup) -> (out: String)
    ensures
        out@ == (if group.dir@ == "."@ {
            "(root)"@
        } else {
            "📁 "@ + group.dir@ + "/"@
        }) + "  ("@ + digits(group.files@.len()) + ")"@,
{
    let mut out: String = String::new();
    if same(group.dir.as_str(), ".") {
        out = "(root)".to_string();
    } else {
        out = "📁 ".to_string();
        out.append(group.dir.as_str());
        out.append("/");
    }
    out.append("  (");
    out.append(decimal(group.files.len() as u64).as_str());
    out.append(")");
    out
}

} // verus!
