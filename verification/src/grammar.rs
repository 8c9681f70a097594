//! The grammar data model: terminal and non-terminal symbol values,
//! [`Symbol`], and [`Rule`].

use vstd::prelude::*;

verus! {

/// Capability required of terminal symbol value types: values can be
/// duplicated without changing them.
///
/// Implement this for a type to use it as the terminal payload of a
/// [`Symbol`]; non-terminal payloads additionally need [`NonterminalValue`].
pub trait TerminalValue: Sized {
    /// Returns a duplicate of the value, equal to the original.
    fn dup(&self) -> (r: Self)
        ensures
            r == *self,
    ;
}

/// Capability required of non-terminal symbol value types: on top of
/// duplication, values can be compared, so that rules can be matched
/// against the non-terminal symbols of a working sequence.
pub trait NonterminalValue: TerminalValue {
    /// The meaning of equality for this type: `eq_value` returns exactly
    /// this relation, and rule matching is defined by it.
    spec fn eq_value_spec(&self, other: &Self) -> bool;

    /// Decides `eq_value_spec`.
    fn eq_value(&self, other: &Self) -> (r: bool)
        ensures
            r == self.eq_value_spec(other),
    ;
}

impl TerminalValue for i32 {
    fn dup(&self) -> (r: Self) {
        *self
    }
}

impl NonterminalValue for i32 {
    open spec fn eq_value_spec(&self, other: &Self) -> bool {
        *self == *other
    }

    fn eq_value(&self, other: &Self) -> (r: bool) {
        *self == *other
    }
}

impl TerminalValue for i64 {
    fn dup(&self) -> (r: Self) {
        *self
    }
}

impl NonterminalValue for i64 {
    open spec fn eq_value_spec(&self, other: &Self) -> bool {
        *self == *other
    }

    fn eq_value(&self, other: &Self) -> (r: bool) {
        *self == *other
    }
}

impl TerminalValue for u32 {
    fn dup(&self) -> (r: Self) {
        *self
    }
}

impl NonterminalValue for u32 {
    open spec fn eq_value_spec(&self, other: &Self) -> bool {
        *self == *other
    }

    fn eq_value(&self, other: &Self) -> (r: bool) {
        *self == *other
    }
}

impl TerminalValue for u64 {
    fn dup(&self) -> (r: Self) {
        *self
    }
}

impl NonterminalValue for u64 {
    open spec fn eq_value_spec(&self, other: &Self) -> bool {
        *self == *other
    }

    fn eq_value(&self, other: &Self) -> (r: bool) {
        *self == *other
    }
}

impl TerminalValue for usize {
    fn dup(&self) -> (r: Self) {
        *self
    }
}

impl NonterminalValue for usize {
    open spec fn eq_value_spec(&self, other: &Self) -> bool {
        *self == *other
    }

    fn eq_value(&self, other: &Self) -> (r: bool) {
        *self == *other
    }
}

impl TerminalValue for bool {
    fn dup(&self) -> (r: Self) {
        *self
    }
}

impl NonterminalValue for bool {
    open spec fn eq_value_spec(&self, other: &Self) -> bool {
        *self == *other
    }

    fn eq_value(&self, other: &Self) -> (r: bool) {
        *self == *other
    }
}

impl TerminalValue for char {
    fn dup(&self) -> (r: Self) {
        *self
    }
}

impl NonterminalValue for char {
    open spec fn eq_value_spec(&self, other: &Self) -> bool {
        *self == *other
    }

    fn eq_value(&self, other: &Self) -> (r: bool) {
        *self == *other
    }
}

/// Relies on `str`'s `PartialEq`: `==` on string slices compares their
/// contents, so it decides equality of the character sequences.
#[verifier::external_body]
fn str_eq(a: &str, b: &str) -> (r: bool)
    ensures
        r == (a@ == b@),
{
    a == b
}

impl<'a> TerminalValue for &'a str {
    fn dup(&self) -> (r: Self) {
        *self
    }
}

impl<'a> NonterminalValue for &'a str {
    open spec fn eq_value_spec(&self, other: &Self) -> bool {
        self@ == other@
    }

    fn eq_value(&self, other: &Self) -> (r: bool) {
        str_eq(*self, *other)
    }
}

impl TerminalValue for String {
    fn dup(&self) -> (r: Self) {
        self.clone()
    }
}

impl NonterminalValue for String {
    open spec fn eq_value_spec(&self, other: &Self) -> bool {
        self@ == other@
    }

    fn eq_value(&self, other: &Self) -> (r: bool) {
        *self == *other
    }
}

/// A symbol of a grammar sequence: either a non-terminal, still subject
/// to rewriting, or a terminal, which is final output.
#[derive(Debug, Clone, Copy, PartialEq)]
pub enum Symbol<Nt, T> {
    /// A value identifying a grammar category that can be expanded further.
    /// Non-terminals can appear on the left-hand side of rules and never
    /// appear in a successful expansion result.
    Nonterminal(Nt),
    /// A value that is final output. Terminals are never replaced during
    /// expansion and are the only symbols in a successful expansion result.
    Terminal(T),
}

impl<Nt, T> Symbol<Nt, T> {
    /// Returns `true` if the symbol is [`Terminal`](Symbol::Terminal).
    pub fn is_terminal(&self) -> (r: bool)
        ensures
            r == (self is Terminal),
    {
        match self {
            Symbol::Terminal(_) => true,
            Symbol::Nonterminal(_) => false,
        }
    }

    /// Returns `true` if the symbol is [`Nonterminal`](Symbol::Nonterminal).
    pub fn is_nonterminal(&self) -> (r: bool)
        ensures
            r == (self is Nonterminal),
    {
        !self.is_terminal()
    }

    /// Returns the contained [`Nonterminal`](Symbol::Nonterminal) value,
    /// consuming the symbol. Must only be called on non-terminal symbols.
    pub fn unwrap_nonterm(self) -> (r: Nt)
        requires
            self is Nonterminal,
        ensures
            r == self->Nonterminal_0,
    {
        self.expect_nonterm("unwrap_nonterm() must be used only on non-terminal symbols")
    }

    /// Returns the contained [`Nonterminal`](Symbol::Nonterminal) value,
    /// consuming the symbol. The message names the caller's intent; the
    /// symbol must be a non-terminal.
    pub fn expect_nonterm(self, message: &'static str) -> (r: Nt)
        requires
            self is Nonterminal,
        ensures
            r == self->Nonterminal_0,
    {
        match self {
            Symbol::Nonterminal(value) => value,
            Symbol::Terminal(_) => vstd::pervasive::unreached(),
        }
    }

    /// Returns the contained [`Terminal`](Symbol::Terminal) value,
    /// consuming the symbol. Must only be called on terminal symbols.
    pub fn unwrap_term(self) -> (r: T)
        requires
            self is Terminal,
        ensures
            r == self->Terminal_0,
    {
        self.expect_term("unwrap_term() must be used only on terminal symbols")
    }

    /// Returns the contained [`Terminal`](Symbol::Terminal) value,
    /// consuming the symbol. The message names the caller's intent; the
    /// symbol must be a terminal.
    pub fn expect_term(self, message: &'static str) -> (r: T)
        requires
            self is Terminal,
        ensures
            r == self->Terminal_0,
    {
        match self {
            Symbol::Terminal(value) => value,
            Symbol::Nonterminal(_) => vstd::pervasive::unreached(),
        }
    }
}

impl<Nt: NonterminalValue, T: TerminalValue> Symbol<Nt, T> {
    /// Returns a duplicate of the symbol, equal to the original.
    pub fn dup(&self) -> (r: Self)
        ensures
            r == *self,
    {
        match self {
            Symbol::Nonterminal(value) => Symbol::Nonterminal(value.dup()),
            Symbol::Terminal(value) => Symbol::Terminal(value.dup()),
        }
    }
}

/// A rule (or production) of a context-free grammar.
#[derive(Debug, Clone, PartialEq)]
pub struct Rule<Nt, T> {
    /// Left-hand side of the rule: the single non-terminal symbol value
    /// this rule may replace.
    pub pattern: Nt,
    /// Right-hand side of the rule: the sequence of symbols with which an
    /// encountered `pattern` is replaced. It may be empty (the non-terminal
    /// vanishes) and may contain further non-terminals.
    pub replacement: Vec<Symbol<Nt, T>>,
}

impl<Nt, T> Rule<Nt, T> {
    /// Builds the rule `pattern -> replacement`.
    pub fn new(pattern: Nt, replacement: Vec<Symbol<Nt, T>>) -> (r: Self)
        ensures
            r.pattern == pattern,
            r.replacement == replacement,
    {
        Self { pattern, replacement }
    }
}

} // verus!
