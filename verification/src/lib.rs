//! Deterministic L-systems: a small grammar for axioms and production rules,
//! a rewriting engine, and a stack-based turtle interpreter whose behaviour
//! is stated and proved with Verus.
//!
//! Text is read by [`grammar`], rewritten by [`rewrite`] under a
//! [`rules::RuleSet`], and held with a replaying cursor by [`koch::Koch`].
//! A [`turtle::Turtle`] applies one symbol per tick; [`brackets`] says when it
//! can do so for ever; [`catalog`] holds the built-in systems.

pub mod brackets;
pub mod catalog;
pub mod grammar;
pub mod koch;
pub mod rewrite;
pub mod rules;
pub mod symbol;
pub mod turtle;

pub use crate::catalog::KochModel;
pub use crate::grammar::ParseError;
pub use crate::koch::Koch;
pub use crate::rules::RuleSet;
pub use crate::symbol::TurtleStep;
pub use crate::turtle::{Moves, Turtle};
