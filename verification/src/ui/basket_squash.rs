//! The question before the commits of the basket become one.

use vstd::prelude::*;

use crate::text::{blank, decimal, digits, is_blank};

verus! {

/// The state of the question.
#[derive(Debug, Clone)]
pub struct BasketSquashConfirmState {
    pub message: String,
    pub backup_tag_preview: String,
    pub commit_count: usize,
}

/// The answer.
#[derive(Debug, Clone)]
pub enum BasketSquashConfirmOutcome {
    /// Go on, with a message.
    Confirmed { message: String },
    Cancelled,
}

/// What was clicked and pressed in a frame.
#[derive(Debug, Clone, Copy)]
pub struct SquashInput {
    pub squash: bool,
    pub cancel: bool,
    pub escape: bool,
    /// Enter together with the command key.
    pub confirm_keys: bool,
}

/// Whether a frame confirms: the keys win over everything, and the button
/// wins where nothing cancels. A message is needed.
pub open spec fn confirms(message: Seq<char>, input: SquashInput) -> bool {
    !is_blank(message) && (input.confirm_keys || (input.squash && !input.cancel && !input.escape))
}

impl BasketSquashConfirmState {
    /// Whether the commits can be put together: with a message.
    pub fn can_confirm(&self) -> (r: bool)
        ensures
            r == !is_blank(self.message@),
    {
        !blank(self.message.as_str())
    }

    /// The warning above the question.
    pub fn warning(&self) -> (out: String)
        ensures
            out@ == "⚠ This rewrites history for "@ + digits(self.commit_count as nat)
                + " commits."@,
    {
        let mut out: String = "⚠ This rewrites history for ".to_string();
        out.append(decimal(self.commit_count as u64).as_str());
        out.append(" commits.");
        out
    }

    /// The answer of a frame, if there is one.
    pub fn answer(&self, input: SquashInput) -> (r: Option<BasketSquashConfirmOutcome>)
        ensures
            confirms(self.message@, input) ==> (r matches Some(
                BasketSquashConfirmOutcome::Confirmed { message },
            ) && message@ == self.message@),
            !confirms(self.message@, input) && (input.cancel || input.escape) ==> (r matches Some(
                BasketSquashConfirmOutcome::Cancelled,
            )),
            !confirms(self.message@, input) && !input.cancel && !input.escape ==> r is None,
    {
        let mut outcome: Option<BasketSquashConfirmOutcome> = None;
        let can = self.can_confirm();
        if can && input.squash {
            outcome = Some(
                BasketSquashConfirmOutcome::Confirmed { message: self.message.clone() },
            );
        }
        if input.cancel {
            outcome = Some(BasketSquashConfirmOutcome::Cancelled);
        }
        if input.escape {
            outcome = Some(BasketSquashConfirmOutcome::Cancelled);
        }
        if input.confirm_keys && can {
            outcome = Some(
                BasketSquashConfirmOutcome::Confirmed { message: self.message.clone() },
            );
        }
        outcome
    }
}

} // verus!
