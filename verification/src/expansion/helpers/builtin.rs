//! The built-in expansion helpers: the default uniform-random rule
//! selector and the default no-op logger.

use vstd::prelude::*;

use crate::expansion::helpers::{ExpansionLogger, RuleSelector};
use crate::grammar::{NonterminalValue, Rule, TerminalValue};

verus! {

/// Default rule selector. Randomly selects one of the matching rules for
/// every encountered non-terminal symbol, with uniform probability over
/// their positions.
pub struct UniformRandomRuleSelector;

/// Relies on rand's `Rng::gen_range` on the thread-local generator, over
/// the range `0..n`: it returns a value of that range, which is non-empty
/// since `n > 0`.
#[verifier::external_body]
fn random_index_below(n: usize) -> (r: usize)
    requires
        n > 0,
    ensures
        r < n,
{
    rand::Rng::gen_range(&mut rand::thread_rng(), 0..n)
}

impl<Nt: NonterminalValue, T: TerminalValue> RuleSelector<Nt, T> for UniformRandomRuleSelector {
    fn select_matching_rule<'a>(&self, matching_rules: &Vec<&'a Rule<Nt, T>>) -> (selected: Option<
        &'a Rule<Nt, T>,
    >) {
        if matching_rules.len() == 0 {
            None
        } else {
            let selected_rule_idx = random_index_below(matching_rules.len());
            Some(matching_rules[selected_rule_idx])
        }
    }
}

impl UniformRandomRuleSelector {
    /// Builds the selector.
    #[must_use]
    pub fn new() -> (r: Self)
        ensures
            r == UniformRandomRuleSelector,
    {
        Self
    }
}

impl Default for UniformRandomRuleSelector {
    fn default() -> (r: Self)
        ensures
            r == UniformRandomRuleSelector,
    {
        Self::new()
    }
}

/// Default logger. Does nothing.
pub struct NullExpansionLogger;

impl<Nt: NonterminalValue, T: TerminalValue> ExpansionLogger<Nt, T> for NullExpansionLogger {
}

} // verus!
