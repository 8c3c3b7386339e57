//! A two-dimensional, toroidally wrapped cellular automaton engine: a dense
//! grid of small-integer cell states, a life-like rule evaluator with optional
//! multi-state aging, and a generation-stepping transition function.

pub mod automaton;
pub mod model;
pub mod rules;

pub use automaton::Automaton;
pub use rules::Rules;
