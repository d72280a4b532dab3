//! Generation of selector-dispatch code for multi-module router contracts.
//!
//! Functions collected from several modules are turned into a balanced
//! binary search over their 4-byte selectors, and that search is rendered as
//! nested `if lt(sig, ..)` guards over `switch` blocks.

pub mod cli;
pub mod collect;
pub mod entry;
pub mod naming;
pub mod outside;
pub mod render;
pub mod router;
pub mod tree;
