//! Ports: the effects the workflows are allowed to have, stated as the values that
//! cross them.
use vstd::prelude::*;

use crate::catalog::CategoryId;
use crate::errors::RepoError;
use crate::user::{Password, PasswordHash, UtcTimestamp};

verus! {

/// The source of the current time.
pub trait Clock {
    fn now(&self) -> UtcTimestamp;
}

/// The source of fresh identifiers.
pub trait IdGen {
    fn next(&self) -> String;
}

/// Password hashing and checking. A mismatch is an expected outcome (`Ok(false)`),
/// not an error; errors mean a misconfigured hasher or corrupt stored data.
pub trait PasswordHasher {
    fn hash(&self, password: &Password) -> Result<PasswordHash, RepoError>;

    fn verify(&self, password: &Password, stored: &PasswordHash) -> Result<bool, RepoError>;
}

/// What a product listing is restricted to; `None` means unfiltered.
#[derive(Debug, Clone, Default)]
pub struct ProductFilter {
    pub search: Option<String>,
    pub category_id: Option<CategoryId>,
}

/// Two optional search texts are the same text, or both absent.
pub open spec fn same_search(a: Option<String>, b: Option<String>) -> bool {
    match (a, b) {
        (Some(x), Some(y)) => x@ == y@,
        (None, None) => true,
        _ => false,
    }
}

/// The outcome of an atomic conditional stock decrement. The failure carries the
/// stock that was actually there.
#[derive(Debug, Clone, Copy, PartialEq, Eq, Structural)]
pub enum StockReservation {
    Reserved,
    Insufficient { available: u32 },
}

/// The stock a failed reservation reports: what the product row holds, or nothing
/// when the row is gone or holds a count outside `u32`.
pub open spec fn spec_available(stock: Option<i64>) -> u32 {
    match stock {
        Some(s) => if 0 <= s <= u32::MAX { s as u32 } else { 0 },
        None => 0,
    }
}

/// Decides a reservation from the conditional update (`Some` with the remaining
/// stock when it matched) and, when it did not match, the stock read afterwards.
pub fn stock_reservation(updated: Option<i64>, stock_after: Option<i64>) -> (r: StockReservation)
    ensures
        updated is Some ==> r == StockReservation::Reserved,
        updated is None ==> r == (StockReservation::Insufficient { available: spec_available(stock_after) }),
{
    if updated.is_some() {
        return StockReservation::Reserved;
    }
    let available: u32 = match stock_after {
        Some(s) => if 0 <= s && s <= 4294967295i64 { s as u32 } else { 0 },
        None => 0,
    };
    StockReservation::Insufficient { available }
}

} // verus!
