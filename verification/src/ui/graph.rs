//! The commit graph: the chips of a commit's branches and tags, the menu of a
//! commit, the lines of its lanes, and the pictures of its authors.

use vstd::prelude::*;

use crate::actions::CommitAction;
use crate::git::{EntryKind, StatusEntry};
use crate::text::{chars_of, decimal, digits, same, string_of};
use crate::ui::graph_menu::WorkingTreeEntry;
use crate::ui::diff_view::{
    count_entries, count_of, counts_text, working_tree_summary, StatusCounts,
};

verus! {

/// What a name points to a commit as.
#[derive(Debug, Clone, Copy, PartialEq, Eq, Structural)]
pub enum RefKind {
    LocalBranch,
    RemoteBranch,
    Tag,
}

/// A name that points to a commit.
#[derive(Debug, Clone, PartialEq, Eq)]
pub struct RefLabel {
    pub short: String,
    pub kind: RefKind,
}

/// A chip of a commit, by the positions of its names.
#[derive(Debug, Clone, Copy, PartialEq, Eq, Structural)]
pub enum RefChip {
    /// A local branch and the remote branch that it is level with.
    Synced { local: usize, remote: usize },
    Local { local: usize },
    Remote { remote: usize },
    Tag { tag: usize },
}

/// Whether a remote branch is called as a local one: anything, a `/`, and the
/// name of the local branch.
pub open spec fn is_remote_of(remote: Seq<char>, local: Seq<char>) -> bool {
    let tail = "/"@ + local;
    remote.len() >= tail.len() && remote.skip(remote.len() - tail.len()) == tail
}

fn goes_with(remote: &str, local: &str) -> (r: bool)
    ensures
        r == is_remote_of(remote@, local@),
{
    proof {
        reveal_strlit("/");
    }
    let name = chars_of(remote);
    let n: usize = name.len();
    let m: usize = chars_of(local).len();
    if n <= m {
        return false;
    }
    let tail = string_of(&name, n - m, n);
    let r = name[n - m - 1] == '/' && same(tail.as_str(), local);
    proof {
        let at = n - m - 1;
        let wanted = "/"@ + local@;
        let rest = remote@.skip(at);
        assert(tail@ == remote@.subrange(n - m, n as int));
        if r {
            assert(rest =~= wanted);
        }
        if rest == wanted {
            assert(rest[0] == wanted[0]);
            assert forall|i: int| 0 <= i < m implies tail@[i] == local@[i] by {
                assert(rest[i + 1] == wanted[i + 1]);
            }
            assert(tail@ =~= local@);
        }
    }
    r
}

/// What a branch name begins with, before the first `/`.
pub open spec fn remote_of(name: Seq<char>) -> Seq<char>
    decreases name.len(),
{
    if name.len() == 0 || name[0] == '/' {
        Seq::empty()
    } else {
        seq![name[0]] + remote_of(name.drop_first())
    }
}

/// Whether the remote branch `j` may go with the local branch `i`.
pub open spec fn pairs_with(refs: Seq<RefLabel>, used: Set<int>, i: int, j: int) -> bool {
    &&& refs[j].kind == RefKind::RemoteBranch
    &&& !used.contains(j)
    &&& is_remote_of(refs[j].short@, refs[i].short@)
}

/// The first remote branch that goes with the local branch `i`, among the
/// first `n` names, or -1.
pub open spec fn first_pair(refs: Seq<RefLabel>, used: Set<int>, i: int, n: int) -> int
    decreases n,
{
    if n <= 0 {
        -1
    } else {
        let before = first_pair(refs, used, i, n - 1);
        if before >= 0 {
            before
        } else if pairs_with(refs, used, i, n - 1) {
            n - 1
        } else {
            -1
        }
    }
}

/// The chips of local branches, and the remote branches that are on them.
pub struct Chips {
    pub chips: Seq<RefChip>,
    pub used: Set<int>,
}

/// The chips of the local branches among the first `n` names. A local branch
/// shares its chip with the first remote branch of its name that is on no
/// chip yet.
pub open spec fn local_chips(refs: Seq<RefLabel>, n: int) -> Chips
    decreases n,
{
    if n <= 0 {
        Chips { chips: Seq::empty(), used: Set::empty() }
    } else {
        let c = local_chips(refs, n - 1);
        let i = n - 1;
        if refs[i].kind != RefKind::LocalBranch {
            c
        } else {
            let j = first_pair(refs, c.used, i, refs.len() as int);
            if j >= 0 {
                Chips {
                    chips: c.chips.push(RefChip::Synced { local: i as usize, remote: j as usize }),
                    used: c.used.insert(j),
                }
            } else {
                Chips { chips: c.chips.push(RefChip::Local { local: i as usize }), ..c }
            }
        }
    }
}

/// The chips of the remote branches that are on none yet.
pub open spec fn remote_chips(refs: Seq<RefLabel>, used: Set<int>, n: int) -> Seq<RefChip>
    decreases n,
{
    if n <= 0 {
        Seq::empty()
    } else {
        let before = remote_chips(refs, used, n - 1);
        if refs[n - 1].kind == RefKind::RemoteBranch && !used.contains(n - 1) {
            before.push(RefChip::Remote { remote: (n - 1) as usize })
        } else {
            before
        }
    }
}

/// The chips of the tags.
pub open spec fn tag_chips(refs: Seq<RefLabel>, n: int) -> Seq<RefChip>
    decreases n,
{
    if n <= 0 {
        Seq::empty()
    } else {
        let before = tag_chips(refs, n - 1);
        if refs[n - 1].kind == RefKind::Tag {
            before.push(RefChip::Tag { tag: (n - 1) as usize })
        } else {
            before
        }
    }
}

/// The chips of a commit: local branches, remote branches, and tags.
pub open spec fn chips_of(refs: Seq<RefLabel>) -> Seq<RefChip> {
    let n = refs.len() as int;
    let c = local_chips(refs, n);
    c.chips + remote_chips(refs, c.used, n) + tag_chips(refs, n)
}

/// Whether the names that a chip is of are there.
pub open spec fn is_chip_of(refs: Seq<RefLabel>, chip: RefChip) -> bool {
    match chip {
        RefChip::Synced { local, remote } => local < refs.len() && remote < refs.len(),
        RefChip::Local { local } => local < refs.len(),
        RefChip::Remote { remote } => remote < refs.len(),
        RefChip::Tag { tag } => tag < refs.len(),
    }
}

proof fn lemma_chips_are_there(refs: Seq<RefLabel>, used: Set<int>, n: int)
    requires
        0 <= n <= refs.len() <= usize::MAX,
    ensures
        forall|k: int|
            0 <= k < local_chips(refs, n).chips.len() ==> is_chip_of(
                refs,
                #[trigger] local_chips(refs, n).chips[k],
            ),
        forall|k: int|
            0 <= k < remote_chips(refs, used, n).len() ==> is_chip_of(
                refs,
                #[trigger] remote_chips(refs, used, n)[k],
            ),
        forall|k: int|
            0 <= k < tag_chips(refs, n).len() ==> is_chip_of(
                refs,
                #[trigger] tag_chips(refs, n)[k],
            ),
    decreases n,
{
    if n > 0 {
        lemma_chips_are_there(refs, used, n - 1);
        lemma_first_pair(refs, local_chips(refs, n - 1).used, n - 1, refs.len() as int);
        let remotes = remote_chips(refs, used, n - 1);
        assert forall|k: int| 0 <= k < remote_chips(refs, used, n).len() implies is_chip_of(
            refs,
            #[trigger] remote_chips(refs, used, n)[k],
        ) by {
            assert(k < remotes.len() ==> remote_chips(refs, used, n)[k] == remotes[k]);
        }
        let tags = tag_chips(refs, n - 1);
        assert forall|k: int| 0 <= k < tag_chips(refs, n).len() implies is_chip_of(
            refs,
            #[trigger] tag_chips(refs, n)[k],
        ) by {
            assert(k < tags.len() ==> tag_chips(refs, n)[k] == tags[k]);
        }
    }
}

/// The positions that are ticked.
spec fn ticked(flags: Seq<bool>) -> Set<int> {
    Set::new(|j: int| 0 <= j < flags.len() && flags[j])
}

fn find_pair(refs: &[RefLabel], used: &Vec<bool>, i: usize) -> (at: Option<usize>)
    requires
        i < refs@.len(),
        used@.len() == refs@.len(),
    ensures
        at matches Some(j) ==> j == first_pair(
            refs@,
            ticked(used@),
            i as int,
            refs@.len() as int,
        ) && j < refs@.len(),
        at is None ==> first_pair(refs@, ticked(used@), i as int, refs@.len() as int) == -1,
{
    let mut found: Option<usize> = None;
    let mut j: usize = 0;
    while j < refs.len()
        invariant
            j <= refs@.len(),
            i < refs@.len(),
            used@.len() == refs@.len(),
            found matches Some(k) ==> k == first_pair(refs@, ticked(used@), i as int, j as int) && k
                < j,
            found is None ==> first_pair(refs@, ticked(used@), i as int, j as int) == -1,
        decreases refs.len() - j,
    {
        if found.is_none() && refs[j].kind == RefKind::RemoteBranch && !used[j] {
            if goes_with(refs[j].short.as_str(), refs[i].short.as_str()) {
                found = Some(j);
            }
        }
        j += 1;
    }
    found
}

/// The chips of a commit. A local branch and the remote branch of its name
/// share one.
pub fn ref_chips(refs: &[RefLabel]) -> (out: Vec<RefChip>)
    ensures
        out@ == chips_of(refs@),
        forall|k: int| 0 <= k < out@.len() ==> is_chip_of(refs@, #[trigger] out@[k]),
{
    let n: usize = refs.len();
    proof {
        let c = local_chips(refs@, n as int);
        lemma_chips_are_there(refs@, c.used, n as int);
    }
    let mut out: Vec<RefChip> = Vec::new();
    let mut used: Vec<bool> = Vec::new();
    let mut i: usize = 0;
    while i < n
        invariant
            i <= n,
            used@.len() == i,
            forall|k: int| 0 <= k < i ==> !#[trigger] used@[k],
        decreases n - i,
    {
        used.push(false);
        i += 1;
    }
    proof {
        assert(ticked(used@) =~= Set::empty());
    }
    i = 0;
    while i < n
        invariant
            i <= n == refs@.len(),
            used@.len() == n,
            out@ == local_chips(refs@, i as int).chips,
            ticked(used@) == local_chips(refs@, i as int).used,
        decreases n - i,
    {
        if refs[i].kind == RefKind::LocalBranch {
            match find_pair(refs, &used, i) {
                Some(j) => {
                    let ghost before = used@;
                    used.set(j, true);
                    proof {
                        assert(ticked(used@) =~= ticked(before).insert(j as int));
                    }
                    out.push(RefChip::Synced { local: i, remote: j });
                },
                None => {
                    out.push(RefChip::Local { local: i });
                },
            }
        }
        i += 1;
    }
    let ghost locals = out@;
    let ghost taken = local_chips(refs@, n as int).used;
    i = 0;
    proof {
        assert(out@ =~= locals + remote_chips(refs@, taken, 0));
    }
    while i < n
        invariant
            i <= n == refs@.len(),
            used@.len() == n,
            ticked(used@) == taken,
            out@ == locals + remote_chips(refs@, taken, i as int),
        decreases n - i,
    {
        let ghost before = remote_chips(refs@, taken, i as int);
        if refs[i].kind == RefKind::RemoteBranch && !used[i] {
            proof {
                assert(!taken.contains(i as int));
                assert((locals + before).push(RefChip::Remote { remote: i }) =~= locals + before.push(
                    RefChip::Remote { remote: i },
                ));
            }
            out.push(RefChip::Remote { remote: i });
        } else {
            proof {
                assert(used@[i as int] ==> taken.contains(i as int));
            }
        }
        i += 1;
    }
    let ghost branches = out@;
    i = 0;
    proof {
        assert(out@ =~= branches + tag_chips(refs@, 0));
    }
    while i < n
        invariant
            i <= n == refs@.len(),
            out@ == branches + tag_chips(refs@, i as int),
        decreases n - i,
    {
        let ghost before = tag_chips(refs@, i as int);
        if refs[i].kind == RefKind::Tag {
            proof {
                assert((branches + before).push(RefChip::Tag { tag: i }) =~= branches + before.push(
                    RefChip::Tag { tag: i },
                ));
            }
            out.push(RefChip::Tag { tag: i });
        }
        i += 1;
    }
    out
}

/// Whether a chip shows the name `i`.
pub open spec fn shows(chip: RefChip, i: int) -> bool {
    match chip {
        RefChip::Synced { local, remote } => local == i || remote == i,
        RefChip::Local { local } => local == i,
        RefChip::Remote { remote } => remote == i,
        RefChip::Tag { tag } => tag == i,
    }
}

/// How many of the chips show the name `i`.
pub open spec fn times_shown(chips: Seq<RefChip>, i: int) -> nat
    decreases chips.len(),
{
    if chips.len() == 0 {
        0
    } else {
        times_shown(chips.drop_last(), i) + (if shows(chips.last(), i) {
            1nat
        } else {
            0
        })
    }
}

proof fn lemma_shown_push(chips: Seq<RefChip>, chip: RefChip, i: int)
    ensures
        times_shown(chips.push(chip), i) == times_shown(chips, i) + (if shows(chip, i) {
            1nat
        } else {
            0
        }),
{
    assert(chips.push(chip).drop_last() == chips);
}

proof fn lemma_shown_add(a: Seq<RefChip>, b: Seq<RefChip>, i: int)
    ensures
        times_shown(a + b, i) == times_shown(a, i) + times_shown(b, i),
    decreases b.len(),
{
    if b.len() == 0 {
        assert(a + b == a);
    } else {
        lemma_shown_add(a, b.drop_last(), i);
        assert((a + b).drop_last() == a + b.drop_last());
    }
}

proof fn lemma_first_pair(refs: Seq<RefLabel>, used: Set<int>, i: int, n: int)
    requires
        0 <= n <= refs.len(),
    ensures
        -1 <= first_pair(refs, used, i, n) < n,
        first_pair(refs, used, i, n) >= 0 ==> pairs_with(
            refs,
            used,
            i,
            first_pair(refs, used, i, n),
        ),
    decreases n,
{
    if n > 0 {
        lemma_first_pair(refs, used, i, n - 1);
    }
}

/// How often the local chips show a name: once if it is a local branch, and
/// once if it is a remote branch that goes with one.
proof fn lemma_local_chips(refs: Seq<RefLabel>, n: int, i: int)
    requires
        0 <= n <= refs.len() <= usize::MAX,
        0 <= i < refs.len(),
    ensures
        ({
            let c = local_chips(refs, n);
            &&& c.used.contains(i) ==> refs[i].kind == RefKind::RemoteBranch
            &&& times_shown(c.chips, i) == (if (i < n && refs[i].kind == RefKind::LocalBranch)
                || c.used.contains(i) {
                1nat
            } else {
                0
            })
        }),
    decreases n,
{
    if n > 0 {
        lemma_local_chips(refs, n - 1, i);
        let c = local_chips(refs, n - 1);
        let at = n - 1;
        if refs[at].kind == RefKind::LocalBranch {
            let j = first_pair(refs, c.used, at, refs.len() as int);
            lemma_first_pair(refs, c.used, at, refs.len() as int);
            let chip = if j >= 0 {
                RefChip::Synced { local: at as usize, remote: j as usize }
            } else {
                RefChip::Local { local: at as usize }
            };
            lemma_shown_push(c.chips, chip, i);
        }
    }
}

proof fn lemma_remote_chips(refs: Seq<RefLabel>, used: Set<int>, n: int, i: int)
    requires
        0 <= n <= refs.len() <= usize::MAX,
        0 <= i < refs.len(),
    ensures
        times_shown(remote_chips(refs, used, n), i) == (if i < n && refs[i].kind
            == RefKind::RemoteBranch && !used.contains(i) {
            1nat
        } else {
            0
        }),
    decreases n,
{
    if n > 0 {
        lemma_remote_chips(refs, used, n - 1, i);
        lemma_shown_push(
            remote_chips(refs, used, n - 1),
            RefChip::Remote { remote: (n - 1) as usize },
            i,
        );
    }
}

proof fn lemma_tag_chips(refs: Seq<RefLabel>, n: int, i: int)
    requires
        0 <= n <= refs.len() <= usize::MAX,
        0 <= i < refs.len(),
    ensures
        times_shown(tag_chips(refs, n), i) == (if i < n && refs[i].kind == RefKind::Tag {
            1nat
        } else {
            0
        }),
    decreases n,
{
    if n > 0 {
        lemma_tag_chips(refs, n - 1, i);
        lemma_shown_push(tag_chips(refs, n - 1), RefChip::Tag { tag: (n - 1) as usize }, i);
    }
}

/// Every name of a commit is on one chip, and on no other.
pub proof fn law_every_ref_is_shown_once(refs: Seq<RefLabel>, i: int)
    requires
        refs.len() <= usize::MAX,
        0 <= i < refs.len(),
    ensures
        times_shown(chips_of(refs), i) == 1,
{
    let n = refs.len() as int;
    let c = local_chips(refs, n);
    lemma_local_chips(refs, n, i);
    lemma_remote_chips(refs, c.used, n, i);
    lemma_tag_chips(refs, n, i);
    lemma_shown_add(c.chips, remote_chips(refs, c.used, n), i);
    lemma_shown_add(c.chips + remote_chips(refs, c.used, n), tag_chips(refs, n), i);
}

/// The texts of a chip: both halves of a shared one, or one text and nothing.
pub fn chip_texts(refs: &[RefLabel], chip: RefChip) -> (out: (String, String))
    requires
        is_chip_of(refs@, chip),
    ensures
        match chip {
            RefChip::Synced { local, remote } => {
                &&& out.0@ == "← "@ + refs@[local as int].short@
                &&& out.1@ == remote_of(refs@[remote as int].short@) + " →"@
            },
            RefChip::Local { local } => out.0@ == refs@[local as int].short@ && out.1@.len() == 0,
            RefChip::Remote { remote } => out.0@ == refs@[remote as int].short@ && out.1@.len()
                == 0,
            RefChip::Tag { tag } => out.0@ == refs@[tag as int].short@ && out.1@.len() == 0,
        },
{
    match chip {
        RefChip::Synced { local, remote } => {
            let mut left: String = "← ".to_string();
            left.append(refs[local].short.as_str());
            let mut right: String = remote_name(refs[remote].short.as_str());
            right.append(" →");
            (left, right)
        },
        RefChip::Local { local } => (refs[local].short.clone(), String::new()),
        RefChip::Remote { remote } => (refs[remote].short.clone(), String::new()),
        RefChip::Tag { tag } => (refs[tag].short.clone(), String::new()),
    }
}

/// What a branch name begins with, before the first `/`.
pub fn remote_name(name: &str) -> (out: String)
    ensures
        out@ == remote_of(name@),
{
    let chars = chars_of(name);
    let mut i: usize = 0;
    proof {
        assert(name@.skip(0) == name@);
        assert(name@.take(0) + remote_of(name@) =~= remote_of(name@));
    }
    while i < chars.len() && chars[i] != '/'
        invariant
            chars@ == name@,
            i <= chars@.len(),
            remote_of(name@) == name@.take(i as int) + remote_of(name@.skip(i as int)),
        decreases chars.len() - i,
    {
        proof {
            let rest = name@.skip(i as int);
            assert(rest.drop_first() == name@.skip(i + 1));
            assert(name@.take(i as int) + (seq![rest[0]] + remote_of(rest.drop_first()))
                =~= name@.take(i + 1) + remote_of(name@.skip(i + 1)));
        }
        i += 1;
    }
    let out = string_of(&chars, 0, i);
    proof {
        assert(remote_of(name@.skip(i as int)) =~= Seq::empty());
        assert(out@ =~= remote_of(name@));
    }
    out
}

/// The hash of some bytes from a seed: for each, the hash so far is combined
/// with the byte and multiplied.
pub open spec fn fnv32(bytes: Seq<u8>, seed: u32) -> u32
    decreases bytes.len(),
{
    if bytes.len() == 0 {
        seed
    } else {
        (fnv32(bytes.drop_last(), seed) ^ (bytes.last() as u32)).wrapping_mul(0x0100_0193)
    }
}

/// The 32-bit FNV-1a hash of some bytes.
pub fn fnv1a(bytes: &[u8], seed: u32) -> (h: u32)
    ensures
        h == fnv32(bytes@, seed),
{
    let mut h: u32 = seed;
    let mut i: usize = 0;
    while i < bytes.len()
        invariant
            i <= bytes@.len(),
            h == fnv32(bytes@.take(i as int), seed),
        decreases bytes.len() - i,
    {
        proof {
            assert(bytes@.take(i + 1).drop_last() == bytes@.take(i as int));
        }
        h = (h ^ (bytes[i] as u32)).wrapping_mul(0x0100_0193);
        i += 1;
    }
    proof {
        assert(bytes@.take(bytes@.len() as int) == bytes@);
    }
    h
}

/// The same hash of the bytes in reverse.
pub fn fnv1a_reverse(bytes: &[u8], seed: u32) -> (h: u32)
    ensures
        h == fnv32(bytes@.reverse(), seed),
{
    let ghost back = bytes@.reverse();
    let mut h: u32 = seed;
    let mut i: usize = bytes.len();
    while i > 0
        invariant
            i <= bytes@.len(),
            back == bytes@.reverse(),
            h == fnv32(back.take(bytes@.len() - i), seed),
        decreases i,
    {
        proof {
            let k = bytes@.len() - i;
            assert(back.take(k + 1).drop_last() == back.take(k));
            assert(back[k] == bytes@[i - 1]);
        }
        h = (h ^ (bytes[i - 1] as u32)).wrapping_mul(0x0100_0193);
        i -= 1;
    }
    proof {
        assert(back.take(back.len() as int) == back);
    }
    h
}

/// The text that an author's picture is made from: the address, or else the
/// name.
pub open spec fn avatar_key(email: Seq<char>, name: Seq<char>) -> Seq<char> {
    if email.len() > 0 {
        email
    } else {
        name
    }
}

/// Whether a cell of the picture is filled: five rows of five cells, of which
/// the right two mirror the left two.
pub open spec fn cell_filled(bits: u64, row: int, col: int) -> bool {
    let c = if col < 3 {
        col
    } else {
        4 - col
    };
    ((bits >> ((row * 3 + c) as u64)) & 1) == 1
}

/// The bits of an author's picture.
pub open spec fn avatar_bits(bytes: Seq<u8>) -> u64 {
    ((fnv32(bytes, 0xcbf2_9ce4) as u64) << 32u64) | (fnv32(bytes.reverse(), 0x01eb_5c5b) as u64)
}

/// An author's picture: its hue in degrees, and which of its cells are
/// filled, row by row.
pub struct Identicon {
    pub hue: u32,
    pub cells: Vec<bool>,
}

/// Makes an author's picture.
pub fn identicon(email: &str, name: &str) -> (out: Identicon)
    ensures
        ({
            let bytes = vstd::utf8::encode_utf8(avatar_key(email@, name@));
            &&& out.hue == fnv32(bytes, 0x811c_9dc5) % 360
            &&& out.cells@.len() == 25
            &&& forall|r: int, c: int|
                0 <= r < 5 && 0 <= c < 5 ==> out.cells@[#[trigger] cell_index(r, c)] == cell_filled(
                    avatar_bits(bytes),
                    r,
                    c,
                )
        }),
{
    let key: &str = if !email.is_empty() {
        email
    } else {
        name
    };
    let bytes = key.as_bytes();
    let hue: u32 = fnv1a(bytes, 0x811c_9dc5) % 360;
    let a: u32 = fnv1a(bytes, 0xcbf2_9ce4);
    let b: u32 = fnv1a_reverse(bytes, 0x01eb_5c5b);
    let bits: u64 = ((a as u64) << 32u64) | (b as u64);
    let mut cells: Vec<bool> = Vec::new();
    let mut i: usize = 0;
    while i < 25
        invariant
            i <= 25,
            cells@.len() == i,
            forall|k: int| 0 <= k < i ==> #[trigger] cells@[k] == cell_filled(bits, k / 5, k % 5),
        decreases 25 - i,
    {
        let row: u64 = (i / 5) as u64;
        let col: u64 = (i % 5) as u64;
        let c: u64 = if col < 3 {
            col
        } else {
            4 - col
        };
        cells.push(((bits >> (row * 3 + c)) & 1) == 1);
        i += 1;
    }
    proof {
        assert forall|r: int, c: int| 0 <= r < 5 && 0 <= c < 5 implies cells@[#[trigger] cell_index(
            r,
            c,
        )] == cell_filled(bits, r, c) by {
            let k = cell_index(r, c);
            assert(k / 5 == r && k % 5 == c);
            assert(cells@[k] == cell_filled(bits, k / 5, k % 5));
        }
    }
    Identicon { hue, cells }
}

/// Where a cell stands, row by row.
pub open spec fn cell_index(row: int, col: int) -> int {
    row * 5 + col
}

/// An author's picture is the same from left and right.
pub proof fn law_identicon_is_symmetric(bits: u64, row: int, col: int)
    requires
        0 <= row < 5,
        0 <= col < 5,
    ensures
        cell_filled(bits, row, col) == cell_filled(bits, row, 4 - col),
{
}

/// The colours of the lanes, which repeat after twelve.
pub open spec fn lane_rgb(lane: u16) -> (u8, u8, u8) {
    let k = lane % 12;
    if k == 0 {
        (255, 183, 178)
    } else if k == 1 {
        (255, 207, 175)
    } else if k == 2 {
        (255, 231, 175)
    } else if k == 3 {
        (206, 232, 185)
    } else if k == 4 {
        (180, 225, 219)
    } else if k == 5 {
        (180, 210, 236)
    } else if k == 6 {
        (204, 190, 236)
    } else if k == 7 {
        (240, 190, 220)
    } else if k == 8 {
        (195, 225, 205)
    } else if k == 9 {
        (235, 205, 185)
    } else if k == 10 {
        (215, 225, 250)
    } else {
        (235, 230, 190)
    }
}

/// The colour of a lane.
pub fn lane_color(lane: u16) -> (rgb: (u8, u8, u8))
    ensures
        rgb == lane_rgb(lane),
{
    let palette: [(u8, u8, u8); 12] = [
        (255, 183, 178),
        (255, 207, 175),
        (255, 231, 175),
        (206, 232, 185),
        (180, 225, 219),
        (180, 210, 236),
        (204, 190, 236),
        (240, 190, 220),
        (195, 225, 205),
        (235, 205, 185),
        (215, 225, 250),
        (235, 230, 190),
    ];
    palette[(lane % 12) as usize]
}

/// How long before `now` a time lies, in short.
pub open spec fn short_age_text(seconds: int) -> Seq<char> {
    if seconds < 60 {
        "now"@
    } else if seconds < 3600 {
        digits((seconds / 60) as nat) + "m"@
    } else if seconds < 86400 {
        digits((seconds / 3600) as nat) + "h"@
    } else if seconds < 2592000 {
        digits((seconds / 86400) as nat) + "d"@
    } else {
        digits((seconds / 2592000) as nat) + "mo"@
    }
}

/// How long before `now` a time lies, in short.
pub fn relative_time(ts: i64, now: i64) -> (out: String)
    requires
        i64::MIN <= now - ts <= i64::MAX,
    ensures
        out@ == short_age_text(now - ts),
{
    let diff: i64 = now - ts;
    if diff < 60 {
        return "now".to_string();
    }
    let (n, unit): (i64, &str) = if diff < 3600 {
        (diff / 60, "m")
    } else if diff < 86400 {
        (diff / 3600, "h")
    } else if diff < 2592000 {
        (diff / 86400, "d")
    } else {
        (diff / 2592000, "mo")
    };
    let mut out: String = decimal(n as u64);
    out.append(unit);
    out
}

/// How many files of the working tree are changed, and how.
#[derive(Debug, Clone, Copy, PartialEq, Eq, Structural)]
pub struct WorkingTreeSummary {
    pub staged: usize,
    pub unstaged: usize,
    pub untracked: usize,
    pub conflicted: usize,
}

impl WorkingTreeSummary {
    /// Whether there is any change.
    pub fn has_changes(&self) -> (r: bool)
        ensures
            r == (self.staged > 0 || self.unstaged > 0 || self.untracked > 0 || self.conflicted
                > 0),
    {
        self.staged > 0 || self.unstaged > 0 || self.untracked > 0 || self.conflicted > 0
    }

    /// The changes in words.
    pub fn message(&self) -> (out: String)
        ensures
            out@ == (if self.staged > 0 || self.unstaged > 0 || self.untracked > 0
                || self.conflicted > 0 {
                counts_text(
                    StatusCounts {
                        conflicted: self.conflicted,
                        staged: self.staged,
                        unstaged: self.unstaged,
                        untracked: self.untracked,
                    },
                )
            } else {
                "clean"@
            }),
    {
        if self.has_changes() {
            working_tree_summary(
                StatusCounts {
                    conflicted: self.conflicted,
                    staged: self.staged,
                    unstaged: self.unstaged,
                    untracked: self.untracked,
                },
            )
        } else {
            "clean".to_string()
        }
    }
}

/// Counts the changes of the working tree.
pub fn summarize_working_tree(entries: &[StatusEntry]) -> (s: WorkingTreeSummary)
    ensures
        s.staged == count_of(entries@, |e: StatusEntry| e.staged),
        s.unstaged == count_of(entries@, |e: StatusEntry| e.unstaged),
        s.untracked == count_of(entries@, |e: StatusEntry| e.kind == EntryKind::Untracked),
        s.conflicted == count_of(entries@, |e: StatusEntry| e.conflicted),
{
    let c = count_entries(entries);
    WorkingTreeSummary {
        staged: c.staged,
        unstaged: c.unstaged,
        untracked: c.untracked,
        conflicted: c.conflicted,
    }
}

/// What happened in the graph in one frame.
#[derive(Debug, Clone)]
pub struct GraphInteraction {
    pub clicked: Option<usize>,
    pub action: Option<CommitAction>,
    pub clear_commit_selection: bool,
    pub open_commit: bool,
}

impl Default for GraphInteraction {
    fn default() -> (r: GraphInteraction)
        ensures
            r.clicked is None,
            r.action is None,
            !r.clear_commit_selection,
            !r.open_commit,
    {
        GraphInteraction {
            clicked: None,
            action: None,
            clear_commit_selection: false,
            open_commit: false,
        }
    }
}

impl GraphInteraction {
    /// A commit was clicked: its row becomes the selected one.
    pub fn click_commit(&mut self, selected_row: &mut Option<usize>, row: usize)
        ensures
            *final(selected_row) == Some(row),
            *final(self) == (GraphInteraction { clicked: Some(row), ..*old(self) }),
    {
        *selected_row = Some(row);
        self.clicked = Some(row);
    }

    /// The working tree was clicked: it becomes the selected row, and no
    /// commit is.
    pub fn click_working_tree(&mut self, selected_row: &mut Option<usize>, working: &mut bool)
        ensures
            *final(selected_row) is None,
            *final(working),
            *final(self) == (GraphInteraction {
                clicked: None,
                clear_commit_selection: true,
                ..*old(self)
            }),
    {
        *working = true;
        self.clear_commit_selection = true;
        self.clicked = None;
        *selected_row = None;
    }

    /// An entry of the working tree's menu was picked.
    pub fn pick_working_tree_entry(&mut self, entry: WorkingTreeEntry)
        ensures
            *final(self) == (match entry {
                WorkingTreeEntry::Commit => (GraphInteraction { open_commit: true, ..*old(self) }),
                WorkingTreeEntry::CreateStash => (GraphInteraction {
                    action: Some(CommitAction::StashPushPrompt),
                    ..*old(self)
                }),
            }),
    {
        match entry {
            WorkingTreeEntry::Commit => {
                self.open_commit = true;
            },
            WorkingTreeEntry::CreateStash => {
                self.action = Some(CommitAction::StashPushPrompt);
            },
        }
    }
}

/// Whether there is nothing to show: no commit, and no change.
pub fn is_empty(row_count: usize, working: Option<&[StatusEntry]>) -> (r: bool)
    ensures
        r == (row_count == 0 && (working matches Some(entries) ==> entries@.len() == 0)),
{
    row_count == 0 && match working {
        Some(entries) => entries.len() == 0,
        None => true,
    }
}

/// The changes that the row of the working tree stands for, if it is shown.
pub fn working_tree_row(working: Option<&[StatusEntry]>) -> (r: Option<WorkingTreeSummary>)
    ensures
        match working {
            Some(entries) => {
                let s = WorkingTreeSummary {
                    staged: count_of(entries@, |e: StatusEntry| e.staged) as usize,
                    unstaged: count_of(entries@, |e: StatusEntry| e.unstaged) as usize,
                    untracked: count_of(
                        entries@,
                        |e: StatusEntry| e.kind == EntryKind::Untracked,
                    ) as usize,
                    conflicted: count_of(entries@, |e: StatusEntry| e.conflicted) as usize,
                };
                r == (if s.staged > 0 || s.unstaged > 0 || s.untracked > 0 || s.conflicted > 0 {
                    Some(s)
                } else {
                    None
                })
            },
            None => r is None,
        },
{
    match working {
        Some(entries) => {
            let s = summarize_working_tree(entries);
            if s.has_changes() {
                Some(s)
            } else {
                None
            }
        },
        None => None,
    }
}

/// The lane that joins a commit to the row of the working tree: that of the
/// first commit, where the row is shown.
pub fn connector_lane(row: usize, lane: u16, working_shown: bool) -> (r: Option<u16>)
    ensures
        r == (if row == 0 && working_shown {
            Some(lane)
        } else {
            None
        }),
{
    if row == 0 && working_shown {
        Some(lane)
    } else {
        None
    }
}

/// The chips of the working tree.
pub fn working_tree_chips(summary: &WorkingTreeSummary) -> (out: Vec<&'static str>)
    ensures
        out@.len() == (if summary.conflicted > 0 {
            2int
        } else {
            1
        }),
        out@[0]@ == "WORKTREE"@,
        summary.conflicted > 0 ==> out@[1]@ == "CONFLICT"@,
{
    let mut out: Vec<&'static str> = Vec::new();
    out.push("WORKTREE");
    if summary.conflicted > 0 {
        out.push("CONFLICT");
    }
    out
}

} // verus!
