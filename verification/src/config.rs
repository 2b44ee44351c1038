//! The settings that the panels depend on.

use vstd::prelude::*;

verus! {

/// The language of the panels, once it is settled.
#[derive(Debug, Clone, Copy, PartialEq, Eq, Structural)]
pub enum UiLanguage {
    English,
    Korean,
    Japanese,
    Chinese,
    /// Any other.
    Other,
}

} // verus!
