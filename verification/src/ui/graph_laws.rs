//! What the commit graph shows of a commit: the chips of its names, and its
//! colours and ages.

use vstd::prelude::*;

use crate::text::digits;
use crate::ui::graph::{
    chips_of, first_pair, fnv32, is_remote_of, lane_rgb, local_chips, pairs_with, remote_chips,
    remote_of, short_age_text, tag_chips, RefChip, RefKind, RefLabel,
};

verus! {

/// Whether a remote branch has the name of a local one, behind that of its
/// remote.
pub open spec fn has_name_of(remote: Seq<char>, local: Seq<char>) -> bool {
    exists|head: Seq<char>| remote == #[trigger] (head + seq!['/']) + local
}

proof fn lemma_has_name_of(remote: Seq<char>, local: Seq<char>)
    ensures
        has_name_of(remote, local) <==> is_remote_of(remote, local),
{
    reveal_strlit("/");
    let tail = "/"@ + local;
    assert(tail =~= seq!['/'] + local);
    if is_remote_of(remote, local) {
        let head = remote.take(remote.len() - tail.len());
        assert(remote =~= head + tail);
        assert(remote =~= (head + seq!['/']) + local);
    }
    if has_name_of(remote, local) {
        let head = choose|head: Seq<char>| remote == #[trigger] (head + seq!['/']) + local;
        assert(remote.skip(remote.len() - tail.len()) =~= tail);
    }
}

/// Whether a chip is of names of the right kinds: a shared one is of a local
/// branch and of a remote branch of its name.
pub open spec fn is_of_its_kind(refs: Seq<RefLabel>, chip: RefChip) -> bool {
    match chip {
        RefChip::Synced { local, remote } => {
            &&& local < refs.len() && remote < refs.len()
            &&& refs[local as int].kind is LocalBranch
            &&& refs[remote as int].kind is RemoteBranch
            &&& has_name_of(refs[remote as int].short@, refs[local as int].short@)
        },
        RefChip::Local { local } => local < refs.len() && refs[local as int].kind is LocalBranch,
        RefChip::Remote { remote } => remote < refs.len() && refs[remote as int].kind
            is RemoteBranch,
        RefChip::Tag { tag } => tag < refs.len() && refs[tag as int].kind is Tag,
    }
}

proof fn lemma_pair(refs: Seq<RefLabel>, used: Set<int>, i: int, n: int)
    requires
        0 <= n <= refs.len(),
    ensures
        -1 <= first_pair(refs, used, i, n) < n,
        first_pair(refs, used, i, n) >= 0 ==> pairs_with(
            refs,
            used,
            i,
            first_pair(refs, used, i, n),
        ),
        first_pair(refs, used, i, n) == -1 ==> forall|j: int|
            0 <= j < n ==> !#[trigger] pairs_with(refs, used, i, j),
    decreases n,
{
    if n > 0 {
        lemma_pair(refs, used, i, n - 1);
    }
}

proof fn lemma_locals(refs: Seq<RefLabel>, n: int)
    requires
        0 <= n <= refs.len() <= usize::MAX,
    ensures
        ({
            let c = local_chips(refs, n);
            &&& forall|k: int| 0 <= k < c.chips.len() ==> is_of_its_kind(refs, #[trigger] c.chips[k])
            &&& forall|k: int|
                0 <= k < c.chips.len() ==> (#[trigger] c.chips[k] is Synced || c.chips[k] is Local)
            &&& forall|k: int, j: int|
                #![trigger c.chips[k], refs[j]]
                0 <= k < c.chips.len() && c.chips[k] is Local && 0 <= j < refs.len()
                    && refs[j].kind is RemoteBranch && !c.used.contains(j) ==> !is_remote_of(
                    refs[j].short@,
                    refs[c.chips[k]->Local_local as int].short@,
                )
        }),
    decreases n,
{
    if n > 0 {
        lemma_locals(refs, n - 1);
        let c = local_chips(refs, n - 1);
        let now = local_chips(refs, n);
        let i = n - 1;
        if refs[i].kind == RefKind::LocalBranch {
            lemma_pair(refs, c.used, i, refs.len() as int);
            let j = first_pair(refs, c.used, i, refs.len() as int);
            if j >= 0 {
                lemma_has_name_of(refs[j].short@, refs[i].short@);
            } else {
                assert forall|x: int|
                    0 <= x < refs.len() && (#[trigger] refs[x]).kind is RemoteBranch
                        && !now.used.contains(x) implies !is_remote_of(
                    refs[x].short@,
                    refs[i].short@,
                ) by {
                    assert(!pairs_with(refs, c.used, i, x));
                }
            }
            assert forall|k: int| 0 <= k < now.chips.len() implies is_of_its_kind(
                refs,
                #[trigger] now.chips[k],
            ) && (now.chips[k] is Synced || now.chips[k] is Local) by {
                if k < c.chips.len() {
                    assert(now.chips[k] == c.chips[k]);
                }
            }
            assert forall|k: int, x: int|
                #![trigger now.chips[k], refs[x]]
                0 <= k < now.chips.len() && now.chips[k] is Local && 0 <= x < refs.len()
                    && refs[x].kind is RemoteBranch && !now.used.contains(x) implies !is_remote_of(
                refs[x].short@,
                refs[now.chips[k]->Local_local as int].short@,
            ) by {
                if k < c.chips.len() {
                    assert(now.chips[k] == c.chips[k]);
                    assert(!c.used.contains(x));
                }
            }
        }
    }
}

proof fn lemma_others(refs: Seq<RefLabel>, used: Set<int>, n: int)
    requires
        0 <= n <= refs.len() <= usize::MAX,
    ensures
        forall|k: int|
            0 <= k < remote_chips(refs, used, n).len() ==> {
                let chip = #[trigger] remote_chips(refs, used, n)[k];
                chip is Remote && is_of_its_kind(refs, chip) && !used.contains(
                    chip->Remote_remote as int,
                )
            },
        forall|k: int|
            0 <= k < tag_chips(refs, n).len() ==> {
                let chip = #[trigger] tag_chips(refs, n)[k];
                chip is Tag && is_of_its_kind(refs, chip)
            },
    decreases n,
{
    if n > 0 {
        lemma_others(refs, used, n - 1);
        let remotes = remote_chips(refs, used, n - 1);
        let tags = tag_chips(refs, n - 1);
        assert forall|k: int| 0 <= k < remote_chips(refs, used, n).len() implies {
            let chip = #[trigger] remote_chips(refs, used, n)[k];
            chip is Remote && is_of_its_kind(refs, chip) && !used.contains(
                chip->Remote_remote as int,
            )
        } by {
            assert(k < remotes.len() ==> remote_chips(refs, used, n)[k] == remotes[k]);
        }
        assert forall|k: int| 0 <= k < tag_chips(refs, n).len() implies {
            let chip = #[trigger] tag_chips(refs, n)[k];
            chip is Tag && is_of_its_kind(refs, chip)
        } by {
            assert(k < tags.len() ==> tag_chips(refs, n)[k] == tags[k]);
        }
    }
}

/// A chip shows names of its own kind, and only a remote branch of the same
/// name shares the chip of a local one. Where such a remote branch is left
/// over, the local branch does not stand alone.
pub proof fn law_chips_are_of_their_kinds(refs: Seq<RefLabel>, a: int, b: int)
    requires
        refs.len() <= usize::MAX,
        0 <= a < chips_of(refs).len(),
        0 <= b < chips_of(refs).len(),
    ensures
        is_of_its_kind(refs, chips_of(refs)[a]),
        (chips_of(refs)[a] matches RefChip::Local { local } && (chips_of(
            refs,
        )[b] matches RefChip::Remote { remote } && has_name_of(
            refs[remote as int].short@,
            refs[local as int].short@,
        ))) ==> false,
{
    let n = refs.len() as int;
    let c = local_chips(refs, n);
    lemma_locals(refs, n);
    lemma_others(refs, c.used, n);
    let remotes = remote_chips(refs, c.used, n);
    let tags = tag_chips(refs, n);
    let all = chips_of(refs);
    lemma_chip_part(c.chips, remotes, tags, a);
    lemma_chip_part(c.chips, remotes, tags, b);
    if let RefChip::Local { local } = all[a] {
        if let RefChip::Remote { remote } = all[b] {
            lemma_has_name_of(refs[remote as int].short@, refs[local as int].short@);
            assert(a < c.chips.len());
            assert(all[a] == c.chips[a]);
            assert(!c.used.contains(remote as int));
            assert(refs[remote as int].kind is RemoteBranch);
        }
    }
}

proof fn lemma_chip_part(a: Seq<RefChip>, b: Seq<RefChip>, c: Seq<RefChip>, k: int)
    requires
        0 <= k < a.len() + b.len() + c.len(),
    ensures
        k < a.len() ==> (a + b + c)[k] == a[k],
        a.len() <= k < a.len() + b.len() ==> (a + b + c)[k] == b[k - a.len()],
        a.len() + b.len() <= k ==> (a + b + c)[k] == c[k - a.len() - b.len()],
{
}

/// The remote of a branch is what its name begins with, up to the first `/`.
pub proof fn law_remote_of_a_branch(name: Seq<char>)
    ensures
        remote_of(name).len() <= name.len(),
        name.take(remote_of(name).len() as int) == remote_of(name),
        forall|i: int| 0 <= i < remote_of(name).len() ==> remote_of(name)[i] != '/',
        remote_of(name).len() < name.len() ==> name[remote_of(name).len() as int] == '/',
    decreases name.len(),
{
    if name.len() == 0 || name[0] == '/' {
        assert(name.take(0) =~= remote_of(name));
    } else {
        let rest = name.drop_first();
        law_remote_of_a_branch(rest);
        let n = remote_of(rest).len() as int;
        assert(name.take(n + 1) =~= remote_of(name)) by {
            assert forall|i: int| 0 <= i < n + 1 implies name[i] == remote_of(name)[i] by {
                if i > 0 {
                    assert(rest.take(n)[i - 1] == name[i]);
                }
            }
        }
        if n < rest.len() {
            assert(rest[n] == name[n + 1]);
        }
        assert forall|i: int| 0 <= i < remote_of(name).len() implies remote_of(name)[i] != '/' by {
            if i > 0 {
                assert(remote_of(name)[i] == remote_of(rest)[i - 1]);
            }
        }
    }
}

/// Twelve lanes beside each other have twelve colours, which then repeat.
pub proof fn law_lane_colours(a: u16, b: u16)
    ensures
        lane_rgb(a) == lane_rgb(b) <==> a % 12 == b % 12,
{
}

/// An age is told in the largest unit that fits into it, and how often that
/// fits.
pub proof fn law_short_ages(seconds: int, n: nat)
    ensures
        seconds < 60 ==> short_age_text(seconds) == "now"@,
        60 <= seconds < 3600 && n * 60 <= seconds < (n + 1) * 60 ==> short_age_text(seconds)
            == digits(n) + "m"@,
        3600 <= seconds < 86400 && n * 3600 <= seconds < (n + 1) * 3600 ==> short_age_text(
            seconds,
        ) == digits(n) + "h"@,
        86400 <= seconds < 30 * 86400 && n * 86400 <= seconds < (n + 1) * 86400 ==> short_age_text(
            seconds,
        ) == digits(n) + "d"@,
        30 * 86400 <= seconds && n * 2592000 <= seconds < (n + 1) * 2592000 ==> short_age_text(
            seconds,
        ) == digits(n) + "mo"@,
{
}

/// Hashing goes on where it stopped: the hash of two pieces is that of the
/// second from the hash of the first.
pub proof fn law_hashes_go_on(a: Seq<u8>, b: Seq<u8>, seed: u32)
    ensures
        fnv32(a + b, seed) == fnv32(b, fnv32(a, seed)),
        fnv32(Seq::empty(), seed) == seed,
        b.len() == 1 ==> fnv32(b, seed) == ((seed ^ (b[0] as u32)).wrapping_mul(16777619)),
    decreases b.len(),
{
    if b.len() == 0 {
        assert(a + b =~= a);
    } else {
        law_hashes_go_on(a, b.drop_last(), seed);
        assert((a + b).drop_last() =~= a + b.drop_last());
        if b.len() == 1 {
            assert(b.drop_last() =~= Seq::empty());
        }
    }
}

} // verus!
