//! Propositional-logic formulas: parsing, canonical rendering, variable
//! collection and exhaustive tautology checking, verified with Verus.
//!
//! * [`formula`] is the mathematical model: what a formula is, what it
//!   evaluates to, which variables it mentions and how it is rendered.
//! * [`node`] holds the executable formula tree; [`render`], [`evaluate`],
//!   [`variables`] and [`tautology`] hold its operations, each with a
//!   contract over the model.
//! * [`grammar`] says how a text is read, [`derivation`] which texts spell
//!   which formula, and [`parser`] is the executable parser.
//! * [`report`] puts the operations together for one line of text.
//! * [`shape`], [`round_trip`], [`characterization`] and [`exhaustive`] hold
//!   what is proved of the grammar and of the tautology check.

pub mod assignment;
pub mod characterization;
pub mod derivation;
pub mod evaluate;
pub mod exhaustive;
pub mod formula;
pub mod grammar;
pub mod names;
pub mod node;
pub mod parser;
pub mod proposition_set;
pub mod render;
pub mod report;
pub mod round_trip;
pub mod shape;
pub mod tautology;
pub mod tokens;
pub mod variables;
pub mod whitespace;
