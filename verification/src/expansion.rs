//! The expansion engine: the rewrite loop, its configuration and builder,
//! and the error taxonomy of failed expansions.

use vstd::prelude::*;

use crate::grammar::{NonterminalValue, Rule, Symbol, TerminalValue};

pub mod error;
pub mod helpers;
pub mod model;

pub use error::Error;
pub use error::ErrorKind;
pub use helpers::builtin::NullExpansionLogger;
pub use helpers::builtin::UniformRandomRuleSelector;
pub use helpers::ExpansionLogger;
pub use helpers::RuleSelector;

use model::{
    all_terminal, has_rule_for, is_leftmost_nonterminal, one_step, step_at, steps_to,
    terminal_payloads,
};
use model::{
    lemma_all_terminal_no_step, lemma_leftmost_nonterminal_unique, lemma_steps_to_extend,
    lemma_stuck_no_step,
};

verus! {

/// The default iteration budget of an [`Expander`].
const DEFAULT_MAX_ITERATIONS: usize = 1024;

/// The immutable configuration of an [`Expander`]: the rule set, the rule
/// selection strategy, the step observer, and the iteration budget.
pub struct ExpanderConfig<Nt, T, RS, EL> where
    Nt: NonterminalValue,
    T: TerminalValue,
    RS: RuleSelector<Nt, T>,
    EL: ExpansionLogger<Nt, T>,
 {
    rules: Vec<Rule<Nt, T>>,
    rule_selector: RS,
    logger: EL,
    max_iterations: usize,
}

/// The expansion engine: owns an immutable rule set, a rule selector, a
/// logger and an iteration budget, and drives the rewrite loop over caller
/// supplied input sequences.
pub struct Expander<Nt, T, RS, EL> where
    Nt: NonterminalValue,
    T: TerminalValue,
    RS: RuleSelector<Nt, T>,
    EL: ExpansionLogger<Nt, T>,
 {
    config: ExpanderConfig<Nt, T, RS, EL>,
}

impl<Nt, T, RS, EL> Expander<Nt, T, RS, EL> where
    Nt: NonterminalValue,
    T: TerminalValue,
    RS: RuleSelector<Nt, T>,
    EL: ExpansionLogger<Nt, T>,
 {
    /// The rule set this expander applies.
    pub closed spec fn rules(&self) -> Seq<Rule<Nt, T>> {
        self.config.rules@
    }

    /// The rule selection strategy this expander consults.
    pub closed spec fn rule_selector(&self) -> RS {
        self.config.rule_selector
    }

    /// The logger this expander notifies.
    pub closed spec fn logger(&self) -> EL {
        self.config.logger
    }

    /// The iteration budget of one `expand` call.
    pub closed spec fn max_iterations(&self) -> usize {
        self.config.max_iterations
    }

    /// Expands `input` by repeatedly rewriting its leftmost non-terminal
    /// with a selected rule, until the sequence is all-terminal (`Ok` with
    /// the terminal payloads), a non-terminal has no applicable rule, or
    /// the iteration budget is exhausted (`Err` carrying the working
    /// sequence at that moment).
    pub fn expand(&mut self, input: Vec<Symbol<Nt, T>>) -> (result: Result<
        Vec<T>,
        Error<Nt, T>,
    >)
        ensures
            final(self).rules() == old(self).rules(),
            final(self).rule_selector() == old(self).rule_selector(),
            final(self).max_iterations() == old(self).max_iterations(),
            result matches Ok(output) ==> exists|s: Seq<Symbol<Nt, T>>, n: nat|
                n < old(self).max_iterations() && #[trigger] steps_to(
                    old(self).rules(),
                    input@,
                    s,
                    n,
                ) && all_terminal(s) && output@ == terminal_payloads(s),
            result matches Err(Error { state: st, kind: ErrorKind::NontermExpansionFailed(v) })
                ==> {
                &&& exists|n: nat|
                    n < old(self).max_iterations() && #[trigger] steps_to(
                        old(self).rules(),
                        input@,
                        st@,
                        n,
                    )
                &&& exists|i: int|
                    is_leftmost_nonterminal(st@, i) && st@[i] == Symbol::<Nt, T>::Nonterminal(v)
                &&& !has_rule_for(old(self).rules(), v)
            },
            result matches Err(Error { state: st, kind: ErrorKind::MaxIterationsReached(b) }) ==> b
                == old(self).max_iterations() && steps_to(
                old(self).rules(),
                input@,
                st@,
                old(self).max_iterations() as nat,
            ),
            old(self).max_iterations() >= 1 && all_terminal(input@) ==> (result matches Ok(output)
                && output@ == terminal_payloads(input@)),
            old(self).max_iterations() >= 1 ==> forall|i: int|
                #[trigger] is_leftmost_nonterminal(input@, i) && !has_rule_for(
                    old(self).rules(),
                    input@[i]->Nonterminal_0,
                ) ==> (result matches Err(e) && e.state@ == input@ && e.kind == ErrorKind::<
                    Nt,
                >::NontermExpansionFailed(input@[i]->Nonterminal_0)),
    {
        expand_input(
            input,
            &self.config.rules,
            &self.config.rule_selector,
            &mut self.config.logger,
            self.config.max_iterations,
        )
    }

    fn new(config: ExpanderConfig<Nt, T, RS, EL>) -> (r: Self)
        ensures
            r.rules() == config.rules@,
            r.rule_selector() == config.rule_selector,
            r.logger() == config.logger,
            r.max_iterations() == config.max_iterations,
    {
        Self { config }
    }
}

/// Assembles an [`Expander`]'s configuration fluently and produces the
/// immutable engine on completion.
pub struct ExpanderBuilder<Nt, T, RS, EL> where
    Nt: NonterminalValue,
    T: TerminalValue,
    RS: RuleSelector<Nt, T>,
    EL: ExpansionLogger<Nt, T>,
 {
    config: ExpanderConfig<Nt, T, RS, EL>,
}

impl<Nt, T> ExpanderBuilder<Nt, T, UniformRandomRuleSelector, NullExpansionLogger> where
    Nt: NonterminalValue,
    T: TerminalValue,
 {
    /// Starts a configuration with no rules, the uniform-random selector,
    /// the no-op logger and the default iteration budget.
    pub fn new() -> (r: Self)
        ensures
            r.rules() == Seq::<Rule<Nt, T>>::empty(),
            r.rule_selector() == UniformRandomRuleSelector,
            r.logger() == NullExpansionLogger,
            r.max_iterations() == 1024usize,
    {
        Self::from(Vec::new())
    }

    /// Starts a configuration with the given rules, the uniform-random
    /// selector, the no-op logger and the default iteration budget.
    pub fn from(rules: Vec<Rule<Nt, T>>) -> (r: Self)
        ensures
            r.rules() == rules@,
            r.rule_selector() == UniformRandomRuleSelector,
            r.logger() == NullExpansionLogger,
            r.max_iterations() == 1024usize,
    {
        Self {
            config: ExpanderConfig {
                rules,
                rule_selector: UniformRandomRuleSelector,
                logger: NullExpansionLogger,
                max_iterations: DEFAULT_MAX_ITERATIONS,
            },
        }
    }
}

impl<Nt, T, RS, EL> ExpanderBuilder<Nt, T, RS, EL> where
    Nt: NonterminalValue,
    T: TerminalValue,
    RS: RuleSelector<Nt, T>,
    EL: ExpansionLogger<Nt, T>,
 {
    /// The rules collected so far.
    pub closed spec fn rules(&self) -> Seq<Rule<Nt, T>> {
        self.config.rules@
    }

    /// The rule selection strategy configured so far.
    pub closed spec fn rule_selector(&self) -> RS {
        self.config.rule_selector
    }

    /// The logger configured so far.
    pub closed spec fn logger(&self) -> EL {
        self.config.logger
    }

    /// The iteration budget configured so far.
    pub closed spec fn max_iterations(&self) -> usize {
        self.config.max_iterations
    }

    /// Finishes the configuration and produces the engine.
    pub fn build(self) -> (r: Expander<Nt, T, RS, EL>)
        ensures
            r.rules() == self.rules(),
            r.rule_selector() == self.rule_selector(),
            r.logger() == self.logger(),
            r.max_iterations() == self.max_iterations(),
    {
        Expander::new(self.config)
    }

    /// Appends the rule `pattern -> replacement` to the rule set.
    pub fn with_new_rule(self, pattern: Nt, replacement: Vec<Symbol<Nt, T>>) -> (r: Self)
        ensures
            r.rules() == self.rules().push(Rule { pattern, replacement }),
            r.rule_selector() == self.rule_selector(),
            r.logger() == self.logger(),
            r.max_iterations() == self.max_iterations(),
    {
        self.with_rule(Rule::new(pattern, replacement))
    }

    /// Appends one rule to the rule set.
    pub fn with_rule(self, rule: Rule<Nt, T>) -> (r: Self)
        ensures
            r.rules() == self.rules().push(rule),
            r.rule_selector() == self.rule_selector(),
            r.logger() == self.logger(),
            r.max_iterations() == self.max_iterations(),
    {
        let mut config = self.config;
        config.rules.push(rule);
        ExpanderBuilder { config }
    }

    /// Appends a whole collection of rules to the rule set, in order.
    pub fn with_rules(self, rules: Vec<Rule<Nt, T>>) -> (r: Self)
        ensures
            r.rules() == self.rules() + rules@,
            r.rule_selector() == self.rule_selector(),
            r.logger() == self.logger(),
            r.max_iterations() == self.max_iterations(),
    {
        let mut config = self.config;
        let mut new_rules = rules;
        config.rules.append(&mut new_rules);
        ExpanderBuilder { config }
    }

    /// Replaces the rule selection strategy.
    pub fn with_rule_selector<NewRS: RuleSelector<Nt, T>>(self, rule_selector: NewRS) -> (r:
        ExpanderBuilder<Nt, T, NewRS, EL>)
        ensures
            r.rules() == self.rules(),
            r.rule_selector() == rule_selector,
            r.logger() == self.logger(),
            r.max_iterations() == self.max_iterations(),
    {
        ExpanderBuilder {
            config: ExpanderConfig {
                rules: self.config.rules,
                rule_selector,
                logger: self.config.logger,
                max_iterations: self.config.max_iterations,
            },
        }
    }

    /// Replaces the logger.
    pub fn with_logger<NewEL: ExpansionLogger<Nt, T>>(self, logger: NewEL) -> (r: ExpanderBuilder<
        Nt,
        T,
        RS,
        NewEL,
    >)
        ensures
            r.rules() == self.rules(),
            r.rule_selector() == self.rule_selector(),
            r.logger() == logger,
            r.max_iterations() == self.max_iterations(),
    {
        ExpanderBuilder {
            config: ExpanderConfig {
                rules: self.config.rules,
                rule_selector: self.config.rule_selector,
                logger,
                max_iterations: self.config.max_iterations,
            },
        }
    }

    /// Replaces the iteration budget.
    pub fn with_max_iterations(self, max_iterations: usize) -> (r: Self)
        ensures
            r.rules() == self.rules(),
            r.rule_selector() == self.rule_selector(),
            r.logger() == self.logger(),
            r.max_iterations() == max_iterations,
    {
        ExpanderBuilder {
            config: ExpanderConfig {
                rules: self.config.rules,
                rule_selector: self.config.rule_selector,
                logger: self.config.logger,
                max_iterations,
            },
        }
    }
}

/// Returns the position of the leftmost non-terminal of `input`, or `None`
/// when the sequence is all-terminal.
fn find_first_nonterminal<Nt, T>(input: &Vec<Symbol<Nt, T>>) -> (r: Option<usize>)
    ensures
        match r {
            Some(i) => is_leftmost_nonterminal(input@, i as int),
            None => all_terminal(input@),
        },
{
    let mut idx: usize = 0;
    while idx < input.len()
        invariant
            idx <= input.len(),
            forall|j: int| 0 <= j < idx ==> input@[j] is Terminal,
        decreases input.len() - idx,
    {
        if input[idx].is_nonterminal() {
            return Some(idx);
        }
        idx += 1;
    }
    None
}

/// Replaces the single symbol at position `at` with the whole `replacement`
/// sequence, preserving everything else in order.
fn splice_replace<Nt: NonterminalValue, T: TerminalValue>(
    input: Vec<Symbol<Nt, T>>,
    at: usize,
    replacement: &Vec<Symbol<Nt, T>>,
) -> (r: Vec<Symbol<Nt, T>>)
    requires
        at < input@.len(),
    ensures
        r@ == input@.take(at as int) + replacement@ + input@.skip(at as int + 1),
{
    let mut out: Vec<Symbol<Nt, T>> = Vec::new();
    let mut i: usize = 0;
    while i < at
        invariant
            i <= at < input@.len(),
            out@ == input@.take(i as int),
        decreases at - i,
    {
        out.push(input[i].dup());
        proof {
            assert(out@ =~= input@.take(i as int + 1));
        }
        i += 1;
    }
    let mut j: usize = 0;
    while j < replacement.len()
        invariant
            at < input@.len(),
            j <= replacement@.len(),
            out@ == input@.take(at as int) + replacement@.take(j as int),
        decreases replacement@.len() - j,
    {
        out.push(replacement[j].dup());
        proof {
            assert(out@ =~= input@.take(at as int) + replacement@.take(j as int + 1));
        }
        j += 1;
    }
    proof {
        assert(replacement@.take(replacement@.len() as int) =~= replacement@);
    }
    let input_len = input.len();
    let mut k: usize = at + 1;
    while k < input_len
        invariant
            input_len == input@.len(),
            at < input@.len(),
            at + 1 <= k <= input@.len(),
            out@ == input@.take(at as int) + replacement@ + input@.subrange(at as int + 1, k as int),
        decreases input@.len() - k,
    {
        out.push(input[k].dup());
        proof {
            assert(out@ =~= input@.take(at as int) + replacement@ + input@.subrange(
                at as int + 1,
                k as int + 1,
            ));
        }
        k += 1;
    }
    proof {
        assert(input@.subrange(at as int + 1, input@.len() as int) =~= input@.skip(at as int + 1));
    }
    out
}

/// Unwraps the terminal payload of every symbol of an all-terminal
/// sequence, in order.
fn unwrap_terminals<Nt: NonterminalValue, T: TerminalValue>(input: Vec<Symbol<Nt, T>>) -> (r: Vec<
    T,
>)
    requires
        all_terminal(input@),
    ensures
        r@ == terminal_payloads(input@),
{
    let mut out: Vec<T> = Vec::new();
    let mut i: usize = 0;
    while i < input.len()
        invariant
            i <= input.len(),
            all_terminal(input@),
            out@ == terminal_payloads(input@.take(i as int)),
        decreases input.len() - i,
    {
        out.push(input[i].dup().unwrap_term());
        proof {
            assert(out@ =~= terminal_payloads(input@.take(i as int + 1)));
        }
        i += 1;
    }
    proof {
        assert(input@.take(input@.len() as int) =~= input@);
    }
    out
}

/// Any derivation out of a sequence that admits no rewrite step is the
/// empty derivation.
proof fn lemma_no_step_stays<Nt: NonterminalValue, T>(
    rules: Seq<Rule<Nt, T>>,
    s0: Seq<Symbol<Nt, T>>,
    s: Seq<Symbol<Nt, T>>,
    n: nat,
)
    requires
        steps_to(rules, s0, s, n),
        forall|t: Seq<Symbol<Nt, T>>| !one_step(rules, s0, t),
    ensures
        n == 0,
        s == s0,
{
    if n > 0 {
        let mid = choose|mid: Seq<Symbol<Nt, T>>|
            #[trigger] one_step(rules, s0, mid) && steps_to(rules, mid, s, (n - 1) as nat);
        assert(false);
    }
}

/// The rewrite loop. Starting from `input`, repeatedly rewrites the
/// leftmost non-terminal with the rule chosen by `rule_selector`, notifying
/// `logger` of every outcome, until the sequence is all-terminal (`Ok` with
/// the terminal payloads, in order), a non-terminal has no applicable rule,
/// or `max_iterations` rewrite attempts have been spent (`Err` carrying the
/// working sequence at that moment).
pub fn expand_input<Nt, T, RS, EL>(
    input: Vec<Symbol<Nt, T>>,
    rules: &Vec<Rule<Nt, T>>,
    rule_selector: &RS,
    logger: &mut EL,
    max_iterations: usize,
) -> (result: Result<Vec<T>, Error<Nt, T>>) where
    Nt: NonterminalValue,
    T: TerminalValue,
    RS: RuleSelector<Nt, T>,
    EL: ExpansionLogger<Nt, T>,

    ensures
        result matches Ok(output) ==> exists|s: Seq<Symbol<Nt, T>>, n: nat|
            n < max_iterations && #[trigger] steps_to(rules@, input@, s, n) && all_terminal(s)
                && output@ == terminal_payloads(s),
        result matches Err(Error { state: st, kind: ErrorKind::NontermExpansionFailed(v) }) ==> {
            &&& exists|n: nat| n < max_iterations && #[trigger] steps_to(rules@, input@, st@, n)
            &&& exists|i: int|
                is_leftmost_nonterminal(st@, i) && st@[i] == Symbol::<Nt, T>::Nonterminal(v)
            &&& !has_rule_for(rules@, v)
        },
        result matches Err(Error { state: st, kind: ErrorKind::MaxIterationsReached(b) }) ==> b
            == max_iterations && steps_to(rules@, input@, st@, max_iterations as nat),
        max_iterations >= 1 && all_terminal(input@) ==> (result matches Ok(output) && output@
            == terminal_payloads(input@)),
        max_iterations >= 1 ==> forall|i: int|
            #[trigger] is_leftmost_nonterminal(input@, i) && !has_rule_for(
                rules@,
                input@[i]->Nonterminal_0,
            ) ==> (result matches Err(e) && e.state@ == input@ && e.kind == ErrorKind::<
                Nt,
            >::NontermExpansionFailed(input@[i]->Nonterminal_0)),
{
    let mut working = input;
    let ghost s0 = working@;
    let mut iteration: usize = 0;
    while iteration < max_iterations
        invariant
            iteration <= max_iterations,
            s0 == input@,
            steps_to(rules@, s0, working@, iteration as nat),
        decreases max_iterations - iteration,
    {
        match find_first_nonterminal(&working) {
            None => {
                let ghost fin = working@;
                let output = unwrap_terminals(working);
                logger.on_input_fully_expanded(&output);
                proof {
                    assert(steps_to(rules@, s0, fin, iteration as nat) && all_terminal(fin)
                        && output@ == terminal_payloads(fin));
                    if all_terminal(s0) {
                        lemma_all_terminal_no_step(rules@, s0);
                        lemma_no_step_stays(rules@, s0, fin, iteration as nat);
                    }
                    assert forall|i: int|
                        #[trigger] is_leftmost_nonterminal(s0, i) && !has_rule_for(
                            rules@,
                            s0[i]->Nonterminal_0,
                        ) implies false by {
                        lemma_stuck_no_step(rules@, s0, i);
                        lemma_no_step_stays(rules@, s0, fin, iteration as nat);
                    }
                }
                return Ok(output);
            },
            Some(first_nonterm_idx) => {
                let first_nonterm_value = working[first_nonterm_idx].dup().unwrap_nonterm();
                match rule_selector.select_rule(rules, &first_nonterm_value) {
                    Some(selected_rule) => {
                        let ghost before = working@;
                        working = splice_replace(
                            working,
                            first_nonterm_idx,
                            &selected_rule.replacement,
                        );
                        logger.on_nonterm_expanded(&first_nonterm_value, selected_rule);
                        proof {
                            let k = choose|k: int|
                                0 <= k < rules@.len() && rules@[k] == *selected_rule;
                            assert(step_at(rules@, before, working@, first_nonterm_idx as int, k));
                            assert(one_step(rules@, before, working@));
                            lemma_steps_to_extend(rules@, s0, before, working@, iteration as nat);
                        }
                    },
                    None => {
                        logger.on_nonterm_expansion_failed(&first_nonterm_value);
                        proof {
                            assert(working@[first_nonterm_idx as int] == Symbol::<
                                Nt,
                                T,
                            >::Nonterminal(first_nonterm_value));
                            if all_terminal(s0) {
                                lemma_all_terminal_no_step(rules@, s0);
                                lemma_no_step_stays(rules@, s0, working@, iteration as nat);
                            }
                            assert forall|i: int|
                                #[trigger] is_leftmost_nonterminal(s0, i) && !has_rule_for(
                                    rules@,
                                    s0[i]->Nonterminal_0,
                                ) implies working@ == s0 && s0[i]->Nonterminal_0
                                == first_nonterm_value by {
                                lemma_stuck_no_step(rules@, s0, i);
                                lemma_no_step_stays(rules@, s0, working@, iteration as nat);
                                lemma_leftmost_nonterminal_unique(
                                    s0,
                                    i,
                                    first_nonterm_idx as int,
                                );
                            }
                        }
                        return Err(
                            Error::nonterm_expansion_failed(working, first_nonterm_value),
                        );
                    },
                }
            },
        }
        iteration += 1;
    }
    logger.on_max_iterations_reached(&working, max_iterations);
    proof {
        if max_iterations >= 1 {
            if all_terminal(s0) {
                lemma_all_terminal_no_step(rules@, s0);
                lemma_no_step_stays(rules@, s0, working@, max_iterations as nat);
            }
            assert forall|i: int|
                #[trigger] is_leftmost_nonterminal(s0, i) && !has_rule_for(
                    rules@,
                    s0[i]->Nonterminal_0,
                ) implies false by {
                lemma_stuck_no_step(rules@, s0, i);
                lemma_no_step_stays(rules@, s0, working@, max_iterations as nat);
            }
        }
    }
    Err(Error::max_iterations_reached(working, max_iterations))
}

} // verus!
