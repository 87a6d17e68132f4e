//! MD017: a removed rule, covered by MD018 to MD021.
use vstd::prelude::*;
use crate::document::Document;
use crate::violation::Violation;

verus! {

/// Placeholder for the removed rule MD017 (covered by MD018 to MD021).
pub struct MD017;

impl MD017 {
    /// The rule's identifier.
    pub fn id(&self) -> (r: &'static str)
        ensures
            r@ == "MD017"@,
    {
        "MD017"
    }

    /// The rule's name.
    pub fn name(&self) -> (r: &'static str)
        ensures
            r@ == "removed"@,
    {
        "removed"
    }

    /// What the rule checks.
    pub fn description(&self) -> (r: &'static str)
        ensures
            r@ == "Removed rule (functionality covered by MD018-MD021)"@,
    {
        "Removed rule (functionality covered by MD018-MD021)"
    }

    /// A removed rule reports nothing.
    pub fn check(&self, document: &Document) -> (r: Vec<Violation>)
        ensures
            r@.len() == 0,
    {
        Vec::new()
    }
}

} // verus!
