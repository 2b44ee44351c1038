//! The per-hunk conflict editor: what each hunk becomes, how many are left,
//! and where the keyboard cursor goes.

use vstd::prelude::*;

use crate::git::{ConflictHunkKind, HunkResolution, HunkResolutionState};
use crate::text::{chars_of, decimal, digits, string_of};
use crate::ui::conflicts::{plural, plural_ending};

verus! {

/// The short labels of the sides.
#[derive(Clone, Debug, PartialEq, Eq)]
pub struct SideLabels {
    pub ours_short: String,
    pub theirs_short: String,
}

/// What was done to a hunk.
#[derive(Debug, Clone, PartialEq, Eq)]
pub enum HunkIntent {
    /// Set a hunk to a fixed resolution.
    SetHunk { index: usize, resolution: HunkResolution },
    /// Open the inline editor of a hunk, which shows `seed` at first.
    OpenCustom { index: usize, seed: String },
    /// Text was typed into the inline editor of a hunk.
    EditCustom { index: usize, text: String },
    /// Close the inline editor of a hunk.
    CloseCustom { index: usize },
    /// Move the cursor to the next or previous pending hunk.
    NavPending { forward: bool },
    /// Set the hunk under the cursor.
    SetActive { resolution: HunkResolution },
}

/// How many of the hunks are not pending.
pub open spec fn count_resolved(list: Seq<HunkResolutionState>) -> nat
    decreases list.len(),
{
    if list.len() == 0 {
        0
    } else {
        count_resolved(list.drop_last()) + (if list.last().resolution != HunkResolution::Pending {
            1nat
        } else {
            0
        })
    }
}

/// Every hunk is either pending or counted as resolved.
pub proof fn law_hunks_are_pending_or_resolved(list: Seq<HunkResolutionState>)
    ensures
        count_resolved(list) == list.filter(
            |s: HunkResolutionState| !(s.resolution is Pending),
        ).len(),
        count_resolved(list) + list.filter(|s: HunkResolutionState| s.resolution is Pending).len()
            == list.len(),
    decreases list.len(),
{
    reveal(Seq::filter);
    if list.len() > 0 {
        law_hunks_are_pending_or_resolved(list.drop_last());
    }
}

/// How many of the hunks are not pending.
pub fn resolved_count(resolutions: &[HunkResolutionState]) -> (n: usize)
    ensures
        n == count_resolved(resolutions@),
        n == resolutions@.filter(|s: HunkResolutionState| !(s.resolution is Pending)).len(),
{
    let mut n: usize = 0;
    let mut i: usize = 0;
    while i < resolutions.len()
        invariant
            i <= resolutions@.len(),
            n <= i,
            n == count_resolved(resolutions@.take(i as int)),
        decreases resolutions.len() - i,
    {
        proof {
            assert(resolutions@.take(i + 1).drop_last() == resolutions@.take(i as int));
        }
        if resolutions[i].resolution != HunkResolution::Pending {
            n += 1;
        }
        i += 1;
    }
    proof {
        assert(resolutions@.take(resolutions@.len() as int) == resolutions@);
        law_hunks_are_pending_or_resolved(resolutions@);
    }
    n
}

/// The header: how many hunks are resolved, and how many are left.
pub fn progress_text(resolved: usize, total: usize) -> (out: (String, String))
    ensures
        out.0@ == "Resolving "@ + digits(resolved as nat) + " of "@ + digits(total as nat)
            + " hunk"@ + plural(total as nat),
        out.1@ == "·  Pending "@ + digits(
            if resolved <= total {
                (total - resolved) as nat
            } else {
                0
            },
        ) + "  ·  Resolved "@ + digits(resolved as nat),
{
    let mut title: String = "Resolving ".to_string();
    title.append(decimal(resolved as u64).as_str());
    title.append(" of ");
    title.append(decimal(total as u64).as_str());
    title.append(" hunk");
    title.append(plural_ending(total));
    let left: usize = if resolved <= total {
        total - resolved
    } else {
        0
    };
    let mut detail: String = "·  Pending ".to_string();
    detail.append(decimal(left as u64).as_str());
    detail.append("  ·  Resolved ");
    detail.append(decimal(resolved as u64).as_str());
    (title, detail)
}

/// What a hunk becomes in the saved file. Both sides are joined by a line
/// feed where ours does not end in one.
pub open spec fn hunk_text(chunk: ConflictHunkKind, state: HunkResolutionState) -> Seq<char> {
    match chunk {
        ConflictHunkKind::Context(_) => Seq::empty(),
        ConflictHunkKind::Conflict { ours, theirs, .. } => match state.resolution {
            HunkResolution::Pending => Seq::empty(),
            HunkResolution::Ours => ours@,
            HunkResolution::Theirs => theirs@,
            HunkResolution::Both => if ours@.len() > 0 && ours@.last() != '\n' {
                ours@ + seq!['\n'] + theirs@
            } else {
                ours@ + theirs@
            },
            HunkResolution::Custom => state.custom_text@,
        },
    }
}

/// Whether a text is two sides one below the other: ours first, then theirs,
/// which begins on a line of its own, and no more than the line feed that it
/// takes for that.
pub open spec fn is_both(text: Seq<char>, ours: Seq<char>, theirs: Seq<char>) -> bool {
    let ends = ours.len() == 0 || ours[ours.len() - 1] == '\n';
    &&& ends ==> text == ours + theirs
    &&& !ends ==> text == ours + seq!['\n'] + theirs
}

/// A hunk becomes what it is resolved to: our side, their side, both of them
/// one below the other, or what was typed. Exchanging the sides of a hunk
/// exchanges what ours and theirs mean, and leaves the rest.
pub proof fn law_hunks_become_what_was_chosen(
    chunk: ConflictHunkKind,
    swapped: ConflictHunkKind,
    state: HunkResolutionState,
    other: HunkResolutionState,
)
    requires
        chunk is Conflict,
        swapped is Conflict,
        swapped->ours@ == chunk->theirs@,
        swapped->theirs@ == chunk->ours@,
    ensures
        state.resolution is Ours ==> hunk_text(chunk, state) == chunk->ours@,
        state.resolution is Theirs ==> hunk_text(chunk, state) == chunk->theirs@,
        state.resolution is Both ==> is_both(
            hunk_text(chunk, state),
            chunk->ours@,
            chunk->theirs@,
        ),
        state.resolution is Custom ==> hunk_text(chunk, state) == state.custom_text@,
        state.resolution is Pending ==> hunk_text(chunk, state).len() == 0,
        state.resolution is Ours && other.resolution is Theirs ==> hunk_text(chunk, state)
            == hunk_text(swapped, other),
        state.resolution is Custom ==> hunk_text(chunk, state) == hunk_text(swapped, state),
{
}

/// What a hunk becomes in the saved file.
pub fn preview_text(chunk: &ConflictHunkKind, state: &HunkResolutionState) -> (out: String)
    ensures
        out@ == hunk_text(*chunk, *state),
        chunk is Context || state.resolution is Pending ==> out@.len() == 0,
        chunk is Conflict && state.resolution is Ours ==> out@ == chunk->ours@,
        chunk is Conflict && state.resolution is Theirs ==> out@ == chunk->theirs@,
        chunk is Conflict && state.resolution is Custom ==> out@ == state.custom_text@,
        chunk is Conflict && state.resolution is Both ==> is_both(
            out@,
            chunk->ours@,
            chunk->theirs@,
        ),
{
    match chunk {
        ConflictHunkKind::Context(_) => String::new(),
        ConflictHunkKind::Conflict { ours, theirs, .. } => match state.resolution {
            HunkResolution::Pending => String::new(),
            HunkResolution::Ours => ours.clone(),
            HunkResolution::Theirs => theirs.clone(),
            HunkResolution::Both => {
                let chars = chars_of(ours.as_str());
                let mut out: String = ours.clone();
                if chars.len() > 0 && chars[chars.len() - 1] != '\n' {
                    out.push('\n');
                    proof {
                        assert(ours@.push('\n') == ours@ + seq!['\n']);
                    }
                }
                out.append(theirs.as_str());
                out
            },
            HunkResolution::Custom => state.custom_text.clone(),
        },
    }
}

/// A text without one line feed at its end.
pub open spec fn without_feed(s: Seq<char>) -> Seq<char> {
    if s.len() > 0 && s.last() == '\n' {
        s.drop_last()
    } else {
        s
    }
}

/// A text as a pane shows it, without the line feed at its end.
pub fn shown_text(text: &str) -> (out: String)
    ensures
        out@ == without_feed(text@),
        text@ == out@ || text@ == out@ + seq!['\n'],
        text@.len() > 0 && text@[text@.len() - 1] == '\n' ==> out@.len() < text@.len(),
{
    let chars = chars_of(text);
    let mut n: usize = chars.len();
    if n > 0 && chars[n - 1] == '\n' {
        n -= 1;
    }
    let out = string_of(&chars, 0, n);
    proof {
        assert(out@ == without_feed(text@));
        if text@.len() > 0 && text@.last() == '\n' {
            assert(text@ =~= out@ + seq!['\n']);
        }
    }
    out
}

/// One side of a hunk as its pane shows it.
pub fn side_display(text: &str) -> (out: String)
    ensures
        out@ == (if text@.len() == 0 {
            "(empty)"@
        } else {
            without_feed(text@)
        }),
{
    if text.is_empty() {
        "(empty)".to_string()
    } else {
        shown_text(text)
    }
}

/// The preview under a hunk. One that is pending shows nothing yet.
pub fn preview_display(chunk: &ConflictHunkKind, state: &HunkResolutionState) -> (out: String)
    ensures
        out@ == (if state.resolution == HunkResolution::Pending {
            "(nothing yet)"@
        } else if hunk_text(*chunk, *state).len() == 0 {
            "(empty — this hunk will be dropped)"@
        } else {
            without_feed(hunk_text(*chunk, *state))
        }),
        state.resolution is Ours && chunk is Conflict && chunk->ours@.len() > 0 ==> out@
            == without_feed(chunk->ours@),
        state.resolution is Theirs && chunk is Conflict && chunk->theirs@.len() > 0 ==> out@
            == without_feed(chunk->theirs@),
        state.resolution is Custom && chunk is Conflict && state.custom_text@.len() > 0 ==> out@
            == without_feed(state.custom_text@),
{
    if state.resolution == HunkResolution::Pending {
        return "(nothing yet)".to_string();
    }
    let preview = preview_text(chunk, state);
    if preview.as_str().is_empty() {
        "(empty — this hunk will be dropped)".to_string()
    } else {
        shown_text(preview.as_str())
    }
}

/// A click on the button of a hunk's inline editor, which is then opened or
/// closed. It opens with what was typed before, or else with `default_seed`.
pub fn toggle_custom(
    index: usize,
    state: &HunkResolutionState,
    default_seed: String,
    open: &mut bool,
) -> (intent: HunkIntent)
    ensures
        *final(open) == !*old(open),
        *old(open) ==> intent == (HunkIntent::CloseCustom { index }),
        !*old(open) ==> (intent matches HunkIntent::OpenCustom { index: i, seed } && i == index
            && seed@ == (if state.custom_text@.len() == 0 {
            default_seed@
        } else {
            state.custom_text@
        })),
{
    let was: bool = *open;
    *open = !was;
    if was {
        HunkIntent::CloseCustom { index }
    } else if state.custom_text.as_str().is_empty() {
        HunkIntent::OpenCustom { index, seed: default_seed }
    } else {
        HunkIntent::OpenCustom { index, seed: state.custom_text.clone() }
    }
}

/// The label of a resolution.
pub fn resolution_label(resolution: HunkResolution) -> (out: &'static str)
    ensures
        out@ == (match resolution {
            HunkResolution::Pending => "● Pending"@,
            HunkResolution::Ours => "● Ours"@,
            HunkResolution::Theirs => "● Theirs"@,
            HunkResolution::Both => "● Both"@,
            HunkResolution::Custom => "● Custom"@,
        }),
{
    match resolution {
        HunkResolution::Pending => "● Pending",
        HunkResolution::Ours => "● Ours",
        HunkResolution::Theirs => "● Theirs",
        HunkResolution::Both => "● Both",
        HunkResolution::Custom => "● Custom",
    }
}

/// The shortcut keys that went down.
#[derive(Clone, Copy, Debug, PartialEq, Eq, Structural)]
pub struct HunkKeys {
    pub one: bool,
    pub two: bool,
    pub three: bool,
    pub n: bool,
    pub p: bool,
}

/// What the shortcut keys ask for, in the order of the keys.
pub open spec fn key_intents(keys: HunkKeys) -> Seq<HunkIntent> {
    let none: Seq<HunkIntent> = Seq::empty();
    let a = if keys.one {
        none.push(HunkIntent::SetActive { resolution: HunkResolution::Ours })
    } else {
        none
    };
    let b = if keys.two {
        a.push(HunkIntent::SetActive { resolution: HunkResolution::Theirs })
    } else {
        a
    };
    let c = if keys.three {
        b.push(HunkIntent::SetActive { resolution: HunkResolution::Both })
    } else {
        b
    };
    let d = if keys.n {
        c.push(HunkIntent::NavPending { forward: true })
    } else {
        c
    };
    if keys.p {
        d.push(HunkIntent::NavPending { forward: false })
    } else {
        d
    }
}

/// Each key asks for its own thing: 1 for ours, 2 for theirs, 3 for both, N
/// for the next pending hunk and P for the previous one. A key that is not
/// down asks for nothing, and nothing is asked for twice.
pub proof fn law_keys_ask_for_their_own(keys: HunkKeys)
    ensures
        ({
            let asked = key_intents(keys);
            let ours = HunkIntent::SetActive { resolution: HunkResolution::Ours };
            let theirs = HunkIntent::SetActive { resolution: HunkResolution::Theirs };
            let both = HunkIntent::SetActive { resolution: HunkResolution::Both };
            let next = HunkIntent::NavPending { forward: true };
            let previous = HunkIntent::NavPending { forward: false };
            &&& asked.contains(ours) <==> keys.one
            &&& asked.contains(theirs) <==> keys.two
            &&& asked.contains(both) <==> keys.three
            &&& asked.contains(next) <==> keys.n
            &&& asked.contains(previous) <==> keys.p
            &&& asked.no_duplicates()
            &&& forall|i: int|
                0 <= i < asked.len() ==> (#[trigger] asked[i] == ours || asked[i] == theirs
                    || asked[i] == both || asked[i] == next || asked[i] == previous)
        }),
{
    let none: Seq<HunkIntent> = Seq::empty();
    let ours = HunkIntent::SetActive { resolution: HunkResolution::Ours };
    let theirs = HunkIntent::SetActive { resolution: HunkResolution::Theirs };
    let both = HunkIntent::SetActive { resolution: HunkResolution::Both };
    let next = HunkIntent::NavPending { forward: true };
    let previous = HunkIntent::NavPending { forward: false };
    let a = asked_if(none, keys.one, ours);
    let b = asked_if(a, keys.two, theirs);
    let c = asked_if(b, keys.three, both);
    let d = asked_if(c, keys.n, next);
    let asked = asked_if(d, keys.p, previous);
    assert(asked == key_intents(keys));
    lemma_asked_if(none, keys.one, ours);
    lemma_asked_if(a, keys.two, theirs);
    lemma_asked_if(b, keys.three, both);
    lemma_asked_if(c, keys.n, next);
    lemma_asked_if(d, keys.p, previous);
    assert forall|i: int| 0 <= i < asked.len() implies (#[trigger] asked[i] == ours || asked[i]
        == theirs || asked[i] == both || asked[i] == next || asked[i] == previous) by {
        assert(asked.contains(asked[i]));
    }
}

spec fn asked_if(list: Seq<HunkIntent>, down: bool, intent: HunkIntent) -> Seq<HunkIntent> {
    if down {
        list.push(intent)
    } else {
        list
    }
}

proof fn lemma_asked_if(list: Seq<HunkIntent>, down: bool, intent: HunkIntent)
    ensures
        forall|x: HunkIntent| #[trigger]
            asked_if(list, down, intent).contains(x) <==> list.contains(x) || (down && x == intent),
        list.no_duplicates() && !list.contains(intent) ==> asked_if(
            list,
            down,
            intent,
        ).no_duplicates(),
{
    let all = asked_if(list, down, intent);
    assert forall|x: HunkIntent| #[trigger] all.contains(x) <==> list.contains(x) || (down && x
        == intent) by {
        if list.contains(x) {
            let i = choose|i: int| 0 <= i < list.len() && list[i] == x;
            assert(all[i] == x);
        }
        if down {
            assert(all[list.len() as int] == intent);
        }
        if all.contains(x) && !list.contains(x) {
            let i = choose|i: int| 0 <= i < all.len() && all[i] == x;
            if i < list.len() {
                assert(list[i] == x);
            }
        }
    }
}

/// Appends what the shortcut keys ask for. They count only where there are
/// conflicts, and not while text is typed.
pub fn handle_shortcuts(
    keys: HunkKeys,
    has_conflicts: bool,
    text_focus: bool,
    intents: &mut Vec<HunkIntent>,
)
    ensures
        final(intents)@ == (if has_conflicts && !text_focus {
            old(intents)@ + key_intents(keys)
        } else {
            old(intents)@
        }),
{
    if !has_conflicts || text_focus {
        return;
    }
    let ghost start = intents@;
    if keys.one {
        intents.push(HunkIntent::SetActive { resolution: HunkResolution::Ours });
    }
    if keys.two {
        intents.push(HunkIntent::SetActive { resolution: HunkResolution::Theirs });
    }
    if keys.three {
        intents.push(HunkIntent::SetActive { resolution: HunkResolution::Both });
    }
    if keys.n {
        intents.push(HunkIntent::NavPending { forward: true });
    }
    if keys.p {
        intents.push(HunkIntent::NavPending { forward: false });
    }
    proof {
        assert(intents@ =~= start + key_intents(keys));
    }
}

/// The hunk that lies `step` hunks away, around the end of the list.
pub open spec fn hunk_at(n: int, start: int, forward: bool, step: int) -> int {
    if forward {
        (start + step) % n
    } else {
        (start + n - step) % n
    }
}

/// Whether a hunk is pending.
pub open spec fn is_pending(list: Seq<HunkResolutionState>, i: int) -> bool {
    list[i].resolution == HunkResolution::Pending
}

/// Where the cursor is taken to be when it is nowhere.
pub open spec fn start_of(from: Option<usize>) -> int {
    match from {
        Some(i) => i as int,
        None => 0,
    }
}

/// Whether `step` is the first step that reaches a pending hunk.
pub open spec fn is_first_pending(
    list: Seq<HunkResolutionState>,
    start: int,
    forward: bool,
    step: int,
) -> bool {
    let n = list.len() as int;
    &&& 1 <= step <= n
    &&& is_pending(list, hunk_at(n, start, forward, step))
    &&& forall|k: int| 1 <= k < step ==> !is_pending(list, #[trigger] hunk_at(n, start, forward, k))
}

/// Whether a hunk is the nearest pending one from where the cursor is, on in
/// the list or back, around its ends.
pub open spec fn is_nearest_pending(
    list: Seq<HunkResolutionState>,
    start: int,
    forward: bool,
    to: int,
) -> bool {
    let n = list.len() as int;
    &&& 0 <= to < n
    &&& list[to].resolution is Pending
    &&& forward && to > start ==> forall|i: int|
        start < i < to ==> !((#[trigger] list[i]).resolution is Pending)
    &&& forward && to <= start ==> forall|i: int|
        start < i < n || 0 <= i < to ==> !((#[trigger] list[i]).resolution is Pending)
    &&& !forward && to < start ==> forall|i: int|
        to < i < start ==> !((#[trigger] list[i]).resolution is Pending)
    &&& !forward && to >= start ==> forall|i: int|
        0 <= i < start || to < i < n ==> !((#[trigger] list[i]).resolution is Pending)
}

/// The hunk that the cursor goes to is the nearest pending one: behind the
/// cursor if it moves on and there is one, and else the first of all; before
/// the cursor if it moves back and there is one, and else the last of all.
pub proof fn law_nearest_pending_hunk(
    list: Seq<HunkResolutionState>,
    start: int,
    forward: bool,
    step: int,
)
    requires
        0 <= start < list.len(),
        is_first_pending(list, start, forward, step),
    ensures
        is_nearest_pending(list, start, forward, hunk_at(list.len() as int, start, forward, step)),
{
    let n = list.len() as int;
    vstd::arithmetic::div_mod::lemma_small_mod(start as nat, n as nat);
    lemma_hunk_at(n, start, forward, step);
    let to = hunk_at(n, start, forward, step);
    assert(is_pending(list, to));
    assert forall|i: int|
        0 <= i < n && i != to && (if forward {
            (to > start && start < i < to) || (to <= start && (start < i || i < to))
        } else {
            (to < start && to < i < start) || (to >= start && (i < start || to < i))
        }) implies !((#[trigger] list[i]).resolution is Pending) by {
        let k = if forward {
            if i > start {
                i - start
            } else {
                i - start + n
            }
        } else {
            if i < start {
                start - i
            } else {
                start - i + n
            }
        };
        lemma_hunk_at(n, start, forward, k);
        assert(1 <= k < step);
        assert(!is_pending(list, hunk_at(n, start, forward, k)));
        assert(hunk_at(n, start, forward, k) == i);
    }
}

/// Moves on to the next pending hunk, or back to the previous one, around the
/// end of the list. The hunk under the cursor itself comes last. `None` when
/// nothing is pending.
pub fn next_pending(
    resolutions: &[HunkResolutionState],
    from: Option<usize>,
    forward: bool,
) -> (out: Option<usize>)
    ensures
        out is None <==> forall|i: int|
            0 <= i < resolutions@.len() ==> !#[trigger] is_pending(resolutions@, i),
        out matches Some(idx) ==> idx < resolutions@.len() && exists|step: int|
            #[trigger] is_first_pending(resolutions@, start_of(from), forward, step) && idx
                == hunk_at(resolutions@.len() as int, start_of(from), forward, step),
        out matches Some(idx) ==> ({
            let start = match from {
                Some(i) => i as int,
                None => 0,
            };
            start < resolutions@.len() ==> is_nearest_pending(
                resolutions@,
                start,
                forward,
                idx as int,
            )
        }),
{
    let n: usize = resolutions.len();
    if n == 0 {
        return None;
    }
    let start: usize = match from {
        Some(i) => i,
        None => 0,
    };
    let base: usize = start % n;
    let mut step: usize = 1;
    let mut rounds: usize = 0;
    while rounds < n
        invariant
            n == resolutions@.len(),
            n > 0,
            start == start_of(from),
            base == start as int % n as int,
            0 <= rounds <= n,
            rounds < n ==> step == rounds + 1,
            forall|k: int|
                1 <= k <= rounds ==> !is_pending(
                    resolutions@,
                    #[trigger] hunk_at(n as int, start as int, forward, k),
                ),
        decreases n - rounds,
    {
        let idx: usize = if forward {
            if step < n - base {
                base + step
            } else {
                step - (n - base)
            }
        } else if step <= base {
            base - step
        } else {
            base + (n - step)
        };
        proof {
            lemma_hunk_at(n as int, start as int, forward, step as int);
            assert(idx == hunk_at(n as int, start as int, forward, step as int));
        }
        if resolutions[idx].resolution == HunkResolution::Pending {
            proof {
                assert(is_pending(resolutions@, idx as int));
                assert(is_first_pending(resolutions@, start as int, forward, step as int));
                if start < n {
                    law_nearest_pending_hunk(resolutions@, start as int, forward, step as int);
                }
            }
            return Some(idx);
        }
        rounds += 1;
        if rounds < n {
            step += 1;
        }
    }
    proof {
        assert forall|i: int| 0 <= i < n implies !#[trigger] is_pending(resolutions@, i) by {
            let step = lemma_reaches(n as int, start as int, forward, i);
            assert(!is_pending(resolutions@, hunk_at(n as int, start as int, forward, step)));
        }
    }
    None
}

/// `hunk_at` from the remainder of the start.
proof fn lemma_hunk_at(n: int, start: int, forward: bool, step: int)
    requires
        n > 0,
        start >= 0,
        1 <= step <= n,
    ensures
        ({
            let base = start % n;
            hunk_at(n, start, forward, step) == (if forward {
                if base + step < n {
                    base + step
                } else {
                    base + step - n
                }
            } else {
                if step <= base {
                    base - step
                } else {
                    base + n - step
                }
            })
        }),
{
    let base = start % n;
    let q = start / n;
    vstd::arithmetic::div_mod::lemma_fundamental_div_mod(start, n);
    if forward {
        vstd::arithmetic::div_mod::lemma_mod_multiples_vanish(q, base + step, n);
        assert(start + step == n * q + (base + step));
        if base + step < n {
            vstd::arithmetic::div_mod::lemma_small_mod((base + step) as nat, n as nat);
        } else {
            vstd::arithmetic::div_mod::lemma_mod_multiples_vanish(1, base + step - n, n);
            vstd::arithmetic::div_mod::lemma_small_mod((base + step - n) as nat, n as nat);
        }
    } else {
        let rest = base + n - step;
        vstd::arithmetic::div_mod::lemma_mod_multiples_vanish(q, rest, n);
        assert(start + n - step == n * q + rest);
        if step <= base {
            vstd::arithmetic::div_mod::lemma_mod_multiples_vanish(1, base - step, n);
            vstd::arithmetic::div_mod::lemma_small_mod((base - step) as nat, n as nat);
        } else {
            vstd::arithmetic::div_mod::lemma_small_mod(rest as nat, n as nat);
        }
    }
}

/// Every hunk is reached within one round.
proof fn lemma_reaches(n: int, start: int, forward: bool, i: int) -> (step: int)
    requires
        n > 0,
        start >= 0,
        0 <= i < n,
    ensures
        1 <= step <= n,
        hunk_at(n, start, forward, step) == i,
{
    let base = start % n;
    let step = if forward {
        if i > base {
            i - base
        } else {
            i - base + n
        }
    } else {
        if i < base {
            base - i
        } else {
            base - i + n
        }
    };
    lemma_hunk_at(n, start, forward, step);
    step
}

} // verus!
