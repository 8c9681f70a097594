//! The two extension points of the expansion engine: rule selection
//! strategies and step observation (logging).

use vstd::prelude::*;

use crate::expansion::model::{has_rule_for, rule_matches};
use crate::grammar::{NonterminalValue, Rule, Symbol, TerminalValue};

pub mod builtin;

verus! {

/// The matching predicate on rules for the non-terminal value `value`.
pub open spec fn matches_value_pred<Nt: NonterminalValue, T>(value: Nt) -> spec_fn(
    Rule<Nt, T>,
) -> bool {
    |rule: Rule<Nt, T>| rule_matches(rule, value)
}

/// The subsequence of `rules` whose patterns equal `value`, in original
/// order.
pub open spec fn matching_rules_of<Nt: NonterminalValue, T>(
    rules: Seq<Rule<Nt, T>>,
    value: Nt,
) -> Seq<Rule<Nt, T>> {
    rules.filter(matches_value_pred(value))
}

/// The rules that a sequence of references points at, in order.
pub open spec fn rules_of_refs<'a, Nt, T>(refs: Seq<&'a Rule<Nt, T>>) -> Seq<Rule<Nt, T>> {
    refs.map_values(|rule: &Rule<Nt, T>| *rule)
}

/// Every element of a filtered sequence comes from the sequence that was
/// filtered.
proof fn lemma_filter_elements_in<A>(s: Seq<A>, pred: spec_fn(A) -> bool, j: int)
    requires
        0 <= j < s.filter(pred).len(),
    ensures
        exists|k: int| 0 <= k < s.len() && s[k] == s.filter(pred)[j],
    decreases s.len(),
{
    reveal(Seq::filter);
    if s.len() > 0 {
        let sub = s.drop_last().filter(pred);
        if pred(s.last()) {
            if j < sub.len() {
                lemma_filter_elements_in(s.drop_last(), pred, j);
                let k = choose|k: int|
                    0 <= k < s.drop_last().len() && s.drop_last()[k] == s.drop_last().filter(
                        pred,
                    )[j];
                assert(s[k] == s.filter(pred)[j]);
            } else {
                assert(s[s.len() - 1] == s.filter(pred)[j]);
            }
        } else {
            lemma_filter_elements_in(s.drop_last(), pred, j);
            let k = choose|k: int|
                0 <= k < s.drop_last().len() && s.drop_last()[k] == s.drop_last().filter(pred)[j];
            assert(s[k] == s.filter(pred)[j]);
        }
    }
}

/// Implement this trait to provide custom rule selection logic.
///
/// A selector answers one question: of all the rules that match a given
/// non-terminal value, which one is to be applied now? The two helper
/// methods decompose the default answer; most implementations only provide
/// [`select_matching_rule`](RuleSelector::select_matching_rule).
pub trait RuleSelector<Nt: NonterminalValue, T: TerminalValue> {
    /// Returns the rule of `all_rules` to apply now for `nonterm_value`,
    /// or `None` exactly when no rule of `all_rules` matches it.
    fn select_rule<'a>(&self, all_rules: &'a Vec<Rule<Nt, T>>, nonterm_value: &Nt) -> (selected:
        Option<&'a Rule<Nt, T>>)
        ensures
            selected matches Some(rule) ==> rule_matches(*rule, *nonterm_value) && exists|k: int|
                0 <= k < all_rules@.len() && all_rules@[k] == *rule,
            selected is None ==> !has_rule_for(all_rules@, *nonterm_value),
    {
        let matching = self.find_matching_rules(all_rules, nonterm_value);
        let selected = self.select_matching_rule(&matching);
        proof {
            let pred = matches_value_pred::<Nt, T>(*nonterm_value);
            let ms = matching_rules_of(all_rules@, *nonterm_value);
            match selected {
                Some(rule) => {
                    let j = choose|j: int|
                        0 <= j < matching@.len() && matching@[j] == rule;
                    assert(ms[j] == *rule);
                    all_rules@.lemma_filter_pred(pred, j);
                    lemma_filter_elements_in(all_rules@, pred, j);
                },
                None => {
                    if has_rule_for(all_rules@, *nonterm_value) {
                        let k = choose|k: int|
                            0 <= k < all_rules@.len() && rule_matches(all_rules@[k], *nonterm_value);
                        all_rules@.lemma_filter_contains(pred, k);
                        assert(ms.contains(all_rules@[k]));
                    }
                },
            }
        }
        selected
    }

    /// Returns the subsequence of `all_rules` whose patterns equal
    /// `nonterm_value`, preserving the original order. No side effects.
    fn find_matching_rules<'a>(&self, all_rules: &'a Vec<Rule<Nt, T>>, nonterm_value: &Nt) -> (
        matching: Vec<&'a Rule<Nt, T>>)
        ensures
            rules_of_refs(matching@) == matching_rules_of(all_rules@, *nonterm_value),
    {
        let mut matching: Vec<&'a Rule<Nt, T>> = Vec::new();
        let mut idx: usize = 0;
        while idx < all_rules.len()
            invariant
                idx <= all_rules.len(),
                rules_of_refs(matching@) == matching_rules_of(
                    all_rules@.take(idx as int),
                    *nonterm_value,
                ),
            decreases all_rules.len() - idx,
        {
            let ghost pred = matches_value_pred::<Nt, T>(*nonterm_value);
            let ghost prefix = all_rules@.take(idx as int);
            let ghost prefix_next = all_rules@.take(idx as int + 1);
            let rule = &all_rules[idx];
            proof {
                reveal(Seq::filter);
                assert(prefix_next.drop_last() =~= prefix);
                assert(prefix_next.last() == all_rules@[idx as int]);
            }
            if rule.pattern.eq_value(nonterm_value) {
                matching.push(rule);
                proof {
                    assert(rules_of_refs(matching@) =~= prefix.filter(pred).push(*rule));
                    assert(prefix_next.filter(pred) == prefix.filter(pred).push(
                        prefix_next.last(),
                    ));
                }
            } else {
                proof {
                    assert(prefix_next.filter(pred) == prefix.filter(pred));
                }
            }
            idx += 1;
        }
        proof {
            assert(all_rules@.take(all_rules@.len() as int) =~= all_rules@);
        }
        matching
    }

    /// Given the subsequence of matching rules that
    /// [`find_matching_rules`](RuleSelector::find_matching_rules) produced,
    /// chooses the one to apply, or returns `None` exactly when the
    /// subsequence is empty.
    fn select_matching_rule<'a>(&self, matching_rules: &Vec<&'a Rule<Nt, T>>) -> (selected: Option<
        &'a Rule<Nt, T>,
    >)
        ensures
            (selected is Some) == (matching_rules@.len() > 0),
            selected matches Some(rule) ==> exists|j: int|
                0 <= j < matching_rules@.len() && matching_rules@[j] == rule,
    ;
}

/// Implement this trait to log or otherwise observe individual steps during
/// expansion. Every method is a no-op by default; loggers have no influence
/// on control flow.
pub trait ExpansionLogger<Nt: NonterminalValue, T: TerminalValue> {
    /// Called after each successful rewrite step, with the non-terminal
    /// value just expanded and the rule that was applied.
    fn on_nonterm_expanded(&mut self, _expanded_nonterm_value: &Nt, _rule: &Rule<Nt, T>) {
    }

    /// Called when a non-terminal value has no applicable rule, just before
    /// the engine fails.
    fn on_nonterm_expansion_failed(&mut self, _expanded_nonterm_value: &Nt) {
    }

    /// Called with the final all-terminal sequence when expansion succeeds.
    fn on_input_fully_expanded(&mut self, _expansion_result: &Vec<T>) {
    }

    /// Called with the current working sequence and the budget when the
    /// iteration budget is exhausted.
    fn on_max_iterations_reached(&mut self, _current_state: &Vec<Symbol<Nt, T>>, _iterations: usize) {
    }
}

} // verus!
