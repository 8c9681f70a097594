//! The mathematical model of grammar expansion: what a single rewrite
//! step is, and what it means for one working sequence to derive another
//! in a given number of steps. The contracts of the expansion engine are
//! stated over these definitions.

use vstd::prelude::*;

use crate::grammar::{NonterminalValue, Rule, Symbol};

verus! {

/// Holds when every symbol of `s` is terminal, i.e. expansion of `s` is
/// complete.
pub open spec fn all_terminal<Nt, T>(s: Seq<Symbol<Nt, T>>) -> bool {
    forall|i: int| 0 <= i < s.len() ==> s[i] is Terminal
}

/// The terminal payloads of `s`, in order. Meaningful when `all_terminal(s)`
/// holds.
pub open spec fn terminal_payloads<Nt, T>(s: Seq<Symbol<Nt, T>>) -> Seq<T> {
    s.map_values(|sym: Symbol<Nt, T>| sym->Terminal_0)
}

/// Holds when position `i` carries the leftmost non-terminal of `s`:
/// `s[i]` is a non-terminal and everything before it is terminal.
pub open spec fn is_leftmost_nonterminal<Nt, T>(s: Seq<Symbol<Nt, T>>, i: int) -> bool {
    &&& 0 <= i < s.len()
    &&& s[i] is Nonterminal
    &&& forall|j: int| 0 <= j < i ==> s[j] is Terminal
}

/// Holds when `rule` applies to the non-terminal value `value`, i.e. its
/// pattern equals `value` under the value type's equality.
pub open spec fn rule_matches<Nt: NonterminalValue, T>(rule: Rule<Nt, T>, value: Nt) -> bool {
    rule.pattern.eq_value_spec(&value)
}

/// Holds when at least one rule of `rules` applies to `value`.
pub open spec fn has_rule_for<Nt: NonterminalValue, T>(
    rules: Seq<Rule<Nt, T>>,
    value: Nt,
) -> bool {
    exists|k: int| 0 <= k < rules.len() && rule_matches(rules[k], value)
}

/// Holds when `t` is the result of rewriting `s` at its leftmost
/// non-terminal, position `i`, with rule number `k` of `rules`: the single
/// symbol at `i` is replaced by the rule's whole replacement sequence.
pub open spec fn step_at<Nt: NonterminalValue, T>(
    rules: Seq<Rule<Nt, T>>,
    s: Seq<Symbol<Nt, T>>,
    t: Seq<Symbol<Nt, T>>,
    i: int,
    k: int,
) -> bool {
    &&& is_leftmost_nonterminal(s, i)
    &&& 0 <= k < rules.len()
    &&& rule_matches(rules[k], s[i]->Nonterminal_0)
    &&& t == s.take(i) + rules[k].replacement@ + s.skip(i + 1)
}

/// Holds when `t` follows from `s` by one rewrite step under `rules`.
pub open spec fn one_step<Nt: NonterminalValue, T>(
    rules: Seq<Rule<Nt, T>>,
    s: Seq<Symbol<Nt, T>>,
    t: Seq<Symbol<Nt, T>>,
) -> bool {
    exists|i: int, k: int| step_at(rules, s, t, i, k)
}

/// Holds when `t` follows from `s` by exactly `n` rewrite steps under
/// `rules`.
pub open spec fn steps_to<Nt: NonterminalValue, T>(
    rules: Seq<Rule<Nt, T>>,
    s: Seq<Symbol<Nt, T>>,
    t: Seq<Symbol<Nt, T>>,
    n: nat,
) -> bool
    decreases n,
{
    if n == 0 {
        t == s
    } else {
        exists|mid: Seq<Symbol<Nt, T>>|
            #[trigger] one_step(rules, s, mid) && steps_to(rules, mid, t, (n - 1) as nat)
    }
}

/// The leftmost non-terminal of a sequence sits at one position only.
pub proof fn lemma_leftmost_nonterminal_unique<Nt, T>(s: Seq<Symbol<Nt, T>>, i: int, j: int)
    requires
        is_leftmost_nonterminal(s, i),
        is_leftmost_nonterminal(s, j),
    ensures
        i == j,
{
}

/// A sequence of only terminal symbols admits no rewrite step: once
/// expansion is complete, no rule application can change the sequence.
pub proof fn lemma_all_terminal_no_step<Nt: NonterminalValue, T>(
    rules: Seq<Rule<Nt, T>>,
    s: Seq<Symbol<Nt, T>>,
)
    requires
        all_terminal(s),
    ensures
        forall|t: Seq<Symbol<Nt, T>>| !one_step(rules, s, t),
{
    assert forall|t: Seq<Symbol<Nt, T>>| !one_step(rules, s, t) by {
        if one_step(rules, s, t) {
            let (i, k) = choose|i: int, k: int| step_at(rules, s, t, i, k);
            assert(s[i] is Terminal);
        }
    }
}

/// A sequence whose leftmost non-terminal has no applicable rule admits no
/// rewrite step: expansion from it is stuck.
pub proof fn lemma_stuck_no_step<Nt: NonterminalValue, T>(
    rules: Seq<Rule<Nt, T>>,
    s: Seq<Symbol<Nt, T>>,
    i: int,
)
    requires
        is_leftmost_nonterminal(s, i),
        !has_rule_for(rules, s[i]->Nonterminal_0),
    ensures
        forall|t: Seq<Symbol<Nt, T>>| !one_step(rules, s, t),
{
    assert forall|t: Seq<Symbol<Nt, T>>| !one_step(rules, s, t) by {
        if one_step(rules, s, t) {
            let (i2, k) = choose|i2: int, k: int| step_at(rules, s, t, i2, k);
            lemma_leftmost_nonterminal_unique(s, i, i2);
            assert(rule_matches(rules[k], s[i]->Nonterminal_0));
        }
    }
}

/// A rewrite step acts on the leftmost non-terminal only: everything to
/// its left is terminal already and is carried over unchanged.
pub proof fn lemma_one_step_preserves_prefix<Nt: NonterminalValue, T>(
    rules: Seq<Rule<Nt, T>>,
    s: Seq<Symbol<Nt, T>>,
    t: Seq<Symbol<Nt, T>>,
    i: int,
)
    requires
        one_step(rules, s, t),
        is_leftmost_nonterminal(s, i),
    ensures
        t.take(i) == s.take(i),
        forall|j: int| 0 <= j < i ==> t[j] is Terminal,
{
    let (i2, k) = choose|i2: int, k: int| step_at(rules, s, t, i2, k);
    lemma_leftmost_nonterminal_unique(s, i, i2);
    assert(t == s.take(i) + rules[k].replacement@ + s.skip(i + 1));
    assert(t.take(i) =~= s.take(i));
    assert forall|j: int| 0 <= j < i implies t[j] is Terminal by {
        assert(t[j] == s.take(i)[j]);
    }
}

/// Extends a derivation by one step at its end.
pub proof fn lemma_steps_to_extend<Nt: NonterminalValue, T>(
    rules: Seq<Rule<Nt, T>>,
    s0: Seq<Symbol<Nt, T>>,
    s1: Seq<Symbol<Nt, T>>,
    s2: Seq<Symbol<Nt, T>>,
    n: nat,
)
    requires
        steps_to(rules, s0, s1, n),
        one_step(rules, s1, s2),
    ensures
        steps_to(rules, s0, s2, n + 1),
    decreases n,
{
    if n == 0 {
        assert(s1 == s0);
        assert(steps_to(rules, s2, s2, 0));
        assert(one_step(rules, s0, s2) && steps_to(rules, s2, s2, 0));
    } else {
        let mid = choose|mid: Seq<Symbol<Nt, T>>|
            #[trigger] one_step(rules, s0, mid) && steps_to(rules, mid, s1, (n - 1) as nat);
        lemma_steps_to_extend(rules, mid, s1, s2, (n - 1) as nat);
        assert(one_step(rules, s0, mid) && steps_to(rules, mid, s2, n));
    }
}

} // verus!
