//! Styling for trees of markup-like nodes: a forgiving stylesheet parser
//! that turns text into rules of typed, cascading properties, and an
//! observable document tree that reports every change to a listener.
mod text;

pub mod tokenizer;
pub mod values;
pub mod keywords;
pub mod props;
pub mod style;
pub mod css_text;
pub mod selector;
pub mod sheet;
pub mod document;
