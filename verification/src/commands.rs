//! Argument and result types of commands that the application runs outside
//! the library (onboarding, passive highlights, plan approval).
use vstd::prelude::*;

verus! {

/// Whether onboarding content was seeded, and the thoughts it created.
pub struct SeedResult {
    pub seeded: bool,
    pub thought_ids: Vec<String>,
}

/// A request to look for a passive highlight in some text.
pub struct DetectPassiveHighlightArgs {
    pub text: String,
}

/// A report that a passive highlight of some kind was inaccurate.
pub struct IncrementPassiveHighlightInaccuracyArgs {
    pub kind: String,
}

} // verus!
