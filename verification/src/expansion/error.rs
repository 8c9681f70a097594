//! The error taxonomy of expansion: the two failure kinds and the error
//! value that carries the working sequence at the moment of failure.

use vstd::prelude::*;

use crate::grammar::{NonterminalValue, Symbol, TerminalValue};

verus! {

/// Enumerates the kinds of possible errors during expansion.
#[derive(Debug, Clone, Copy)]
pub enum ErrorKind<Nt: NonterminalValue> {
    /// A non-terminal value had no applicable rule at selection time; the
    /// value is carried here.
    NontermExpansionFailed(Nt),
    /// The rewrite loop did not reach an all-terminal sequence within the
    /// configured iteration budget; the budget is carried here.
    MaxIterationsReached(usize),
}

/// Used as the error variant of expansion results.
///
/// The reason for the error can be determined via the [`kind`](Error::kind)
/// field; [`state`](Error::state) holds the working sequence at the time of
/// failure.
#[derive(Debug)]
pub struct Error<Nt: NonterminalValue, T: TerminalValue> {
    /// The working sequence at the moment of failure.
    pub state: Vec<Symbol<Nt, T>>,
    /// The kind of failure.
    pub kind: ErrorKind<Nt>,
}

impl<Nt: NonterminalValue, T: TerminalValue> Error<Nt, T> {
    /// Builds the error reporting that `expanded_nonterm_value` had no
    /// applicable rule, with the working sequence at that moment.
    pub fn nonterm_expansion_failed(
        state: Vec<Symbol<Nt, T>>,
        expanded_nonterm_value: Nt,
    ) -> (r: Self)
        ensures
            r.state == state,
            r.kind == ErrorKind::NontermExpansionFailed(expanded_nonterm_value),
    {
        Self::new(state, ErrorKind::NontermExpansionFailed(expanded_nonterm_value))
    }

    /// Builds the error reporting that the iteration budget `iterations`
    /// was exhausted, with the working sequence at that moment.
    pub fn max_iterations_reached(state: Vec<Symbol<Nt, T>>, iterations: usize) -> (r: Self)
        ensures
            r.state == state,
            r.kind == ErrorKind::<Nt>::MaxIterationsReached(iterations),
    {
        Self::new(state, ErrorKind::MaxIterationsReached(iterations))
    }

    fn new(state: Vec<Symbol<Nt, T>>, kind: ErrorKind<Nt>) -> (r: Self)
        ensures
            r.state == state,
            r.kind == kind,
    {
        Self { state, kind }
    }
}

} // verus!
