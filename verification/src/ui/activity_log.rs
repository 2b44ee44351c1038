//! The log of what was done to a repository.

use vstd::prelude::*;

use crate::text::{
    decimal, digits, first_chars, join_with, opt_view, separated, take_chars, views,
};

verus! {

/// What became of an operation.
#[derive(Debug, Clone, Copy, PartialEq, Eq, Structural)]
pub enum ActivityOutcome {
    NoOp,
    FastForward,
    NonLinear,
    PossibleConflict,
}

/// How serious a hint is.
#[derive(Debug, Clone, Copy, PartialEq, Eq, Structural)]
pub enum HintSeverity {
    Info,
    Warn,
    Danger,
}

/// How a name moved.
#[derive(Debug, Clone)]
pub struct RefDelta {
    pub refname: String,
    pub before: Option<String>,
    pub after: Option<String>,
}

/// The first seven characters of a name.
pub fn shorten(s: &str) -> (out: String)
    ensures
        out@ == first_chars(s@, 7),
{
    take_chars(s, 7)
}

/// A commit in short, or the sign for none.
pub open spec fn short_or_none(name: Option<Seq<char>>) -> Seq<char> {
    match name {
        Some(n) => first_chars(n, 7),
        None => "∅"@,
    }
}

/// One move in words.
pub open spec fn delta_text(d: RefDelta) -> Seq<char> {
    d.refname@ + ": "@ + short_or_none(opt_view(d.before)) + " → "@ + short_or_none(
        opt_view(d.after),
    )
}

/// All moves in words, one after the other.
pub open spec fn deltas_text(deltas: Seq<RefDelta>) -> Seq<char> {
    separated(deltas.map_values(|d: RefDelta| delta_text(d)), " · "@)
}

fn short_of(name: &Option<String>) -> (out: String)
    ensures
        out@ == short_or_none(opt_view(*name)),
{
    match name {
        Some(n) => shorten(n.as_str()),
        None => "∅".to_string(),
    }
}

fn describe(d: &RefDelta) -> (out: String)
    ensures
        out@ == delta_text(*d),
{
    let mut out: String = d.refname.clone();
    out.append(": ");
    out.append(short_of(&d.before).as_str());
    out.append(" → ");
    out.append(short_of(&d.after).as_str());
    out
}

/// The moves of an entry in one line.
pub fn ref_deltas_line(deltas: &[RefDelta]) -> (out: String)
    ensures
        out@ == deltas_text(deltas@),
{
    let ghost all = deltas@.map_values(|d: RefDelta| delta_text(d));
    let mut parts: Vec<String> = Vec::new();
    let mut i: usize = 0;
    while i < deltas.len()
        invariant
            i <= deltas@.len(),
            all == deltas@.map_values(|d: RefDelta| delta_text(d)),
            views(parts@) =~= all.take(i as int),
        decreases deltas.len() - i,
    {
        let ghost before = parts@;
        let one = describe(&deltas[i]);
        parts.push(one);
        proof {
            assert(views(parts@) =~= views(before).push(one@));
        }
        i += 1;
    }
    proof {
        assert(views(parts@) =~= all);
    }
    join_with(parts.as_slice(), " · ")
}

/// Where the log stands, counted from zero and from one.
pub fn cursor_text(cursor: usize) -> (out: String)
    requires
        cursor < usize::MAX,
    ensures
        out@ == "cursor @ #"@ + digits(cursor as nat) + " (1-based: "@ + digits((cursor + 1) as nat)
            + ")"@,
{
    let mut out: String = "cursor @ #".to_string();
    out.append(decimal(cursor as u64).as_str());
    out.append(" (1-based: ");
    out.append(decimal((cursor + 1) as u64).as_str());
    out.append(")");
    out
}

/// The sign of a hint.
pub fn severity_icon(s: HintSeverity) -> (r: &'static str)
    ensures
        r@ == (match s {
            HintSeverity::Info => "ℹ"@,
            HintSeverity::Warn => "⚠"@,
            HintSeverity::Danger => "🛑"@,
        }),
{
    match s {
        HintSeverity::Info => "ℹ",
        HintSeverity::Warn => "⚠",
        HintSeverity::Danger => "🛑",
    }
}

/// The colour of a hint.
pub fn severity_color(s: HintSeverity) -> (rgb: (u8, u8, u8))
    ensures
        rgb == (match s {
            HintSeverity::Info => (120u8, 170u8, 220u8),
            HintSeverity::Warn => (230u8, 190u8, 90u8),
            HintSeverity::Danger => (240u8, 110u8, 110u8),
        }),
{
    match s {
        HintSeverity::Info => (120, 170, 220),
        HintSeverity::Warn => (230, 190, 90),
        HintSeverity::Danger => (240, 110, 110),
    }
}

/// The colour of an outcome.
pub fn outcome_color(o: ActivityOutcome) -> (rgb: (u8, u8, u8))
    ensures
        rgb == (match o {
            ActivityOutcome::NoOp => (140u8, 140u8, 140u8),
            ActivityOutcome::FastForward => (90u8, 200u8, 120u8),
            ActivityOutcome::NonLinear => (220u8, 180u8, 90u8),
            ActivityOutcome::PossibleConflict => (230u8, 110u8, 110u8),
        }),
{
    match o {
        ActivityOutcome::NoOp => (140, 140, 140),
        ActivityOutcome::FastForward => (90, 200, 120),
        ActivityOutcome::NonLinear => (220, 180, 90),
        ActivityOutcome::PossibleConflict => (230, 110, 110),
    }
}

/// The name of an outcome.
pub fn outcome_name(o: ActivityOutcome) -> (r: &'static str)
    ensures
        r@ == (match o {
            ActivityOutcome::NoOp => "NoOp"@,
            ActivityOutcome::FastForward => "FastForward"@,
            ActivityOutcome::NonLinear => "NonLinear"@,
            ActivityOutcome::PossibleConflict => "PossibleConflict"@,
        }),
{
    match o {
        ActivityOutcome::NoOp => "NoOp",
        ActivityOutcome::FastForward => "FastForward",
        ActivityOutcome::NonLinear => "NonLinear",
        ActivityOutcome::PossibleConflict => "PossibleConflict",
    }
}

/// What is said after the log was copied.
pub fn copied_text(bytes: usize) -> (out: String)
    ensures
        out@ == "Copied "@ + digits(bytes as nat) + " bytes of activity JSON"@,
{
    let mut out: String = "Copied ".to_string();
    out.append(decimal(bytes as u64).as_str());
    out.append(" bytes of activity JSON");
    out
}

} // verus!
