//! MD015: a removed rule, merged into MD013.
use vstd::prelude::*;
use crate::document::Document;
use crate::violation::Violation;

verus! {

/// Placeholder for the removed rule MD015 (merged into MD013).
pub struct MD015;

impl MD015 {
    /// The rule's identifier.
    pub fn id(&self) -> (r: &'static str)
        ensures
            r@ == "MD015"@,
    {
        "MD015"
    }

    /// The rule's name.
    pub fn name(&self) -> (r: &'static str)
        ensures
            r@ == "removed"@,
    {
        "removed"
    }

    /// What the rule checks.
    pub fn description(&self) -> (r: &'static str)
        ensures
            r@ == "Removed rule (functionality merged into MD013)"@,
    {
        "Removed rule (functionality merged into MD013)"
    }

    /// A removed rule reports nothing.
    pub fn check(&self, document: &Document) -> (r: Vec<Violation>)
        ensures
            r@.len() == 0,
    {
        Vec::new()
    }
}

} // verus!
