//! The error taxonomy: one enum per use-case, each variant carrying the data a
//! caller needs to react.
use vstd::prelude::*;

use crate::catalog::ProductId;
use crate::order::OrderId;
use crate::text::{push_str, string_of};
use crate::user::Email;

verus! {

/// Infrastructure failure, stated without the adapter's own error types.
#[derive(Debug, PartialEq, Eq)]
pub enum RepoError {
    /// The store could not be reached or the query failed; the cause is described.
    Unavailable(String),
    /// A stored row does not satisfy the domain's invariants.
    Corrupt(String),
}

#[derive(Debug, PartialEq, Eq)]
pub enum RegisterError {
    EmailTaken { email: Email },
    Repo(RepoError),
}

#[derive(Debug, PartialEq, Eq)]
pub enum LoginError {
    /// Deliberately identical for "no such user" and "wrong password".
    InvalidCredentials,
    Repo(RepoError),
}

#[derive(Debug, PartialEq, Eq)]
pub enum ProductError {
    NotFound { product_id: ProductId },
    Repo(RepoError),
}

#[derive(Debug, PartialEq, Eq)]
pub enum CartError {
    ProductNotFound { product_id: ProductId },
    Repo(RepoError),
}

#[derive(Debug, PartialEq, Eq)]
pub enum CheckoutError {
    CartEmpty,
    /// Carries `available` so a client can say how many are left.
    InsufficientStock { product_id: ProductId, requested: u32, available: u32 },
    Repo(RepoError),
}

#[derive(Debug, PartialEq, Eq)]
pub enum OrderLookupError {
    NotFound { order_id: OrderId },
    Repo(RepoError),
}

impl RepoError {
    pub open spec fn spec_message(&self) -> Seq<char> {
        match self {
            RepoError::Unavailable(_) => "storage unavailable"@,
            RepoError::Corrupt(m) => "stored data violates a domain invariant: "@ + m@,
        }
    }

    /// The human-readable description; the cause of `Unavailable` is kept for the log only.
    pub fn message(&self) -> (s: String)
        ensures
            s@ == self.spec_message(),
    {
        match self {
            RepoError::Unavailable(_) => string_of("storage unavailable"),
            RepoError::Corrupt(m) => {
                let mut s = string_of("stored data violates a domain invariant: ");
                push_str(&mut s, m);
                s
            },
        }
    }

    /// A copy of the error.
    pub fn duplicate(&self) -> (r: RepoError)
        ensures
            r == *self,
    {
        match self {
            RepoError::Unavailable(m) => RepoError::Unavailable(m.clone()),
            RepoError::Corrupt(m) => RepoError::Corrupt(m.clone()),
        }
    }
}

impl RegisterError {
    pub fn message(&self) -> (s: String)
        ensures
            s@ == match self {
                RegisterError::EmailTaken { email } => "email "@ + email@ + " is already registered"@,
                RegisterError::Repo(e) => e.spec_message(),
            },
    {
        match self {
            RegisterError::EmailTaken { email } => {
                let mut s = string_of("email ");
                push_str(&mut s, &string_of(email.as_ref()));
                push_str(&mut s, &string_of(" is already registered"));
                s
            },
            RegisterError::Repo(e) => e.message(),
        }
    }
}

impl LoginError {
    pub fn message(&self) -> (s: String)
        ensures
            s@ == match self {
                LoginError::InvalidCredentials => "invalid credentials"@,
                LoginError::Repo(e) => e.spec_message(),
            },
    {
        match self {
            LoginError::InvalidCredentials => string_of("invalid credentials"),
            LoginError::Repo(e) => e.message(),
        }
    }
}

impl ProductError {
    pub fn message(&self) -> (s: String)
        ensures
            s@ == match self {
                ProductError::NotFound { product_id } => "product "@ + product_id@ + " not found"@,
                ProductError::Repo(e) => e.spec_message(),
            },
    {
        match self {
            ProductError::NotFound { product_id } => {
                let mut s = string_of("product ");
                push_str(&mut s, &string_of(product_id.as_ref()));
                push_str(&mut s, &string_of(" not found"));
                s
            },
            ProductError::Repo(e) => e.message(),
        }
    }
}

impl CartError {
    pub fn message(&self) -> (s: String)
        ensures
            s@ == match self {
                CartError::ProductNotFound { product_id } => "product "@ + product_id@
                    + " not found"@,
                CartError::Repo(e) => e.spec_message(),
            },
    {
        match self {
            CartError::ProductNotFound { product_id } => {
                let mut s = string_of("product ");
                push_str(&mut s, &string_of(product_id.as_ref()));
                push_str(&mut s, &string_of(" not found"));
                s
            },
            CartError::Repo(e) => e.message(),
        }
    }
}

impl CheckoutError {
    pub fn message(&self) -> (s: String)
        ensures
            s@ == match self {
                CheckoutError::CartEmpty => "cannot check out an empty cart"@,
                CheckoutError::InsufficientStock { product_id, requested, available } =>
                    "insufficient stock for "@ + product_id@ + ": requested "@
                    + crate::text::spec_int_decimal(*requested as int) + ", "@
                    + crate::text::spec_int_decimal(*available as int) + " available"@,
                CheckoutError::Repo(e) => e.spec_message(),
            },
    {
        match self {
            CheckoutError::CartEmpty => string_of("cannot check out an empty cart"),
            CheckoutError::InsufficientStock { product_id, requested, available } => {
                let mut s = string_of("insufficient stock for ");
                push_str(&mut s, &string_of(product_id.as_ref()));
                push_str(&mut s, &string_of(": requested "));
                push_str(&mut s, &crate::text::int_to_decimal(*requested as i64));
                push_str(&mut s, &string_of(", "));
                push_str(&mut s, &crate::text::int_to_decimal(*available as i64));
                push_str(&mut s, &string_of(" available"));
                s
            },
            CheckoutError::Repo(e) => e.message(),
        }
    }
}

impl OrderLookupError {
    pub fn message(&self) -> (s: String)
        ensures
            s@ == match self {
                OrderLookupError::NotFound { order_id } => "order "@ + order_id@ + " not found"@,
                OrderLookupError::Repo(e) => e.spec_message(),
            },
    {
        match self {
            OrderLookupError::NotFound { order_id } => {
                let mut s = string_of("order ");
                push_str(&mut s, &string_of(order_id.as_ref()));
                push_str(&mut s, &string_of(" not found"));
                s
            },
            OrderLookupError::Repo(e) => e.message(),
        }
    }
}

} // verus!
