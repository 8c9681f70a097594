//! Tools for generating sequences (typically text) from context-free
//! rewriting grammars: a starting sequence of [`Symbol`]s is rewritten,
//! leftmost non-terminal first, with rules chosen by a pluggable
//! [`RuleSelector`], until only terminal symbols remain or the engine
//! reports a typed failure.

pub mod expansion;
pub mod grammar;

pub use expansion::expand_input;
pub use expansion::Error;
pub use expansion::ErrorKind;
pub use expansion::Expander;
pub use expansion::ExpanderBuilder;
pub use expansion::ExpanderConfig;
pub use expansion::ExpansionLogger;
pub use expansion::NullExpansionLogger;
pub use expansion::RuleSelector;
pub use expansion::UniformRandomRuleSelector;
pub use grammar::NonterminalValue;
pub use grammar::Rule;
pub use grammar::Symbol;
pub use grammar::TerminalValue;
