//! MD016: a rule number that never had a rule.
use vstd::prelude::*;
use crate::document::Document;
use crate::violation::Violation;

verus! {

/// Placeholder for MD016, a number that never had a rule.
pub struct MD016;

impl MD016 {
    /// The rule's identifier.
    pub fn id(&self) -> (r: &'static str)
        ensures
            r@ == "MD016"@,
    {
        "MD016"
    }

    /// The rule's name.
    pub fn name(&self) -> (r: &'static str)
        ensures
            r@ == "gap"@,
    {
        "gap"
    }

    /// What the rule checks.
    pub fn description(&self) -> (r: &'static str)
        ensures
            r@ == "Gap in rule numbering (never existed)"@,
    {
        "Gap in rule numbering (never existed)"
    }

    /// A rule that never existed reports nothing.
    pub fn check(&self, document: &Document) -> (r: Vec<Violation>)
        ensures
            r@.len() == 0,
    {
        Vec::new()
    }
}

} // verus!
