//! Selection and lookup gadgets for arithmetic circuits.
//!
//! The crate models, at witness level, the combinatorial core of "pick one of
//! many candidate values from boolean selector wires": a two-way
//! conditional-select capability, a multi-way selection engine built as a
//! binary tree of two-way selects, and small fixed-table lookups indexed by
//! two or three bits. Each entry point carries a contract that pins the
//! selected value down exactly.

pub mod boolean;
pub mod error;
pub mod fp;
pub mod lookup;
pub mod select;
