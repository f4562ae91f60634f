//! The use-cases as decision machines: each takes what the last effect returned
//! and says which effect comes next, so the order of effects and every early exit
//! are verified while the effects themselves stay with the caller.
use vstd::prelude::*;

pub mod auth;
pub mod cart;
pub mod catalog;
pub mod orders;

verus! {
} // verus!
