//! The core of a citation processor: the layered locale store with its term
//! lookup, the evaluator that turns a style element into an intermediate
//! representation, and the pass that moves punctuation into quotations.

pub mod text;
pub mod lang;
pub mod assoc;
pub mod terms;
pub mod locale;
pub mod locale_store;
pub mod locale_laws;
pub mod formatting;
pub mod inline;
pub mod style;
pub mod ir;
pub mod reference;
pub mod output;
pub mod proc_spec;
pub mod proc;
pub mod proc_laws;
pub mod punctuation_spec;
pub mod punctuation_laws;
pub mod punctuation_conservation;
pub mod punctuation;
pub mod views;
