//! A verified commerce core: money, catalog, carts, orders, users, and the
//! decisions of the workflows that move them through storage.
use vstd::prelude::*;

pub mod api;
pub mod cart;
pub mod catalog;
pub mod clock;
pub mod errors;
pub mod hasher;
pub mod ids;
pub mod money;
pub mod order;
pub mod ports;
pub mod rows;
pub mod text;
pub mod user;
pub mod workflows;

verus! {
} // verus!
