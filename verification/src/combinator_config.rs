//! The single-table configuration: one list of conditions per slot, where
//! the place of a condition in its list is the variant it stands for.

use crate::pattern::Pattern;
use crate::workspace::{
    anchored, compile_anchored, matches_regex, pattern_matches, rule_compiles, ConfigError,
};
use vstd::prelude::*;

verus! {

/// Where the variants of each slot start in the one sprite sheet, and the
/// conditions of each slot's variants.
pub struct CombinatorConfig {
    pub ini_row_start: u32,
    pub mid_row_start: u32,
    pub fin_row_start: u32,
    pub ini_variants: Vec<Condition>,
    pub mid_variants: Vec<Condition>,
    pub fin_variants: Vec<Condition>,
}

/// When a variant applies.
pub enum Condition {
    /// The variant applies to the triples whose whole match string the
    /// pattern matches.
    Regex(Pattern),
}

impl Condition {
    /// Whether the condition holds of a triple. No condition holds of a triple
    /// outside the tables.
    pub open spec fn spec_matches(&self, ini: int, mid: int, fin: int) -> bool {
        match self {
            Condition::Regex(p) => pattern_matches(p@, ini, mid, fin),
        }
    }

    /// Decides whether the condition holds of the triple.
    pub fn matches(&self, ini: u32, mid: u32, fin: u32) -> (b: bool)
        ensures
            b == self.spec_matches(ini as int, mid as int, fin as int),
    {
        match self {
            Condition::Regex(exp) => matches_regex(exp, ini, mid, fin),
        }
    }

    /// Compiles `pattern`, anchored at both ends, into a condition. Fails
    /// exactly when the regex engine refuses the pattern as written or
    /// between the anchors.
    pub fn from_pattern(pattern: &str) -> (r: Result<Condition, ConfigError>)
        ensures
            r is Ok <==> rule_compiles(pattern@),
            r matches Ok(c) ==> c matches Condition::Regex(p) && p@ == anchored(pattern@),
            r matches Err(e) ==> e matches ConfigError::BadPattern { pattern: given, .. }
                && given@ == pattern@,
    {
        match compile_anchored(pattern) {
            Ok(p) => Ok(Condition::Regex(p)),
            Err(e) => Err(e),
        }
    }
}

} // verus!
