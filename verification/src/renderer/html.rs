//! HTML: attributes, tokens and the tokenizer that produces them.

pub mod attribute;
pub mod automaton;
pub mod folding;
pub mod names;
pub mod token;
