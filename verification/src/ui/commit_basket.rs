//! The bar of the commits in the basket.

use vstd::prelude::*;

use crate::text::{decimal, digits};

verus! {

/// What was clicked in the bar.
#[derive(Debug, Clone, Copy, PartialEq, Eq, Structural)]
pub enum BasketIntent {
    ShowCombinedDiff,
    FocusFile,
    RevertToWorkingTree,
    SquashIntoOne,
    Clear,
}

/// What the bar says, if it is shown: from two commits on.
pub fn bar_text(count: usize) -> (out: Option<String>)
    ensures
        out is Some <==> count >= 2,
        out matches Some(text) ==> text@ == "✓ "@ + digits(count as nat) + " commits selected"@,
{
    if count < 2 {
        return None;
    }
    let mut out: String = "✓ ".to_string();
    out.append(decimal(count as u64).as_str());
    out.append(" commits selected");
    Some(out)
}

/// What a button of the bar says.
pub fn button_text(intent: BasketIntent) -> (r: &'static str)
    ensures
        r@ == (match intent {
            BasketIntent::ShowCombinedDiff => "✦ Combined diff"@,
            BasketIntent::FocusFile => "🔍 Focus file…"@,
            BasketIntent::RevertToWorkingTree => "↺ Revert to WT"@,
            BasketIntent::SquashIntoOne => "⇩ Squash into one"@,
            BasketIntent::Clear => "✕ Clear"@,
        }),
{
    match intent {
        BasketIntent::ShowCombinedDiff => "✦ Combined diff",
        BasketIntent::FocusFile => "🔍 Focus file…",
        BasketIntent::RevertToWorkingTree => "↺ Revert to WT",
        BasketIntent::SquashIntoOne => "⇩ Squash into one",
        BasketIntent::Clear => "✕ Clear",
    }
}

} // verus!
