//! A retained-mode widget toolkit core: a tree of composable elements that
//! negotiate geometry through a one-dimensional flexible-box allocator (the
//! `Ring`), react to input events propagated top-down with consume-or-forward
//! semantics, and can have their geometry temporarily overridden by a
//! time-driven animation engine.
//!
//! All geometry is integer pixel arithmetic; fractional sizes are expressed in
//! thousandths (per-mille) of a reference length, so every computation is
//! exact and deterministic.

pub mod arith;
pub mod geometry;
pub mod ring;
pub mod action;
pub mod shared;
pub mod render;
pub mod basic;
pub mod animation;
pub mod node;
pub mod clock;
