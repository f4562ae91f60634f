//! Money: integer minor units, never floats.
//!
//! `Cents` is a non-negative amount in US cents. Its non-negativity is a property
//! of the representation (`u32`); arithmetic is either checked (returning
//! `MoneyError::ArithmeticOverflow`) or saturating, never wrapping.
use vstd::prelude::*;

use crate::text::{int_to_decimal, spec_int_decimal};

verus! {

/// A non-negative amount in the smallest currency unit (US cents).
#[derive(Debug, Clone, Copy, PartialEq, Eq, PartialOrd, Ord, Hash, Structural)]
pub struct Cents(u32);

/// Why a monetary value could not be built or computed.
#[derive(Debug, Clone, Copy, PartialEq, Eq, Structural)]
pub enum MoneyError {
    /// The signed input was below zero.
    Negative(i64),
    /// The signed input was above the representable maximum.
    Overflow(i64),
    /// A checked sum or product did not fit.
    ArithmeticOverflow,
}

impl View for Cents {
    type V = u32;

    closed spec fn view(&self) -> u32 {
        self.0
    }
}

/// Saturating addition of two amounts: a capped total is visible, a wrapped one is not.
pub open spec fn sat_add(a: u32, b: u32) -> u32 {
    if a + b > u32::MAX {
        u32::MAX
    } else {
        (a + b) as u32
    }
}

/// Left fold of `sat_add` over a sequence of amounts, starting at zero.
pub open spec fn saturating_sum(s: Seq<u32>) -> u32
    decreases s.len(),
{
    if s.len() == 0 {
        0
    } else {
        sat_add(saturating_sum(s.drop_last()), s.last())
    }
}

/// The mathematical (unbounded) sum of a sequence of amounts.
pub open spec fn plain_sum(s: Seq<u32>) -> int
    decreases s.len(),
{
    if s.len() == 0 {
        0
    } else {
        plain_sum(s.drop_last()) + s.last()
    }
}

/// The amounts of a sequence of `Cents`.
pub open spec fn amounts(s: Seq<Cents>) -> Seq<u32> {
    s.map_values(|c: Cents| c@)
}

/// The smaller of an unbounded integer and `u32::MAX`.
pub open spec fn cap(x: int) -> int {
    if x > u32::MAX {
        u32::MAX as int
    } else {
        x
    }
}

pub proof fn lemma_plain_sum_nonneg(s: Seq<u32>)
    ensures
        plain_sum(s) >= 0,
    decreases s.len(),
{
    if s.len() > 0 {
        lemma_plain_sum_nonneg(s.drop_last());
    }
}

/// A saturating sum is the unbounded sum, capped at `u32::MAX`.
pub proof fn lemma_saturating_sum_is_capped_sum(s: Seq<u32>)
    ensures
        saturating_sum(s) as int == cap(plain_sum(s)),
    decreases s.len(),
{
    if s.len() > 0 {
        lemma_saturating_sum_is_capped_sum(s.drop_last());
        lemma_plain_sum_nonneg(s.drop_last());
    }
}

pub proof fn lemma_plain_sum_dominates(s: Seq<u32>, i: int)
    requires
        0 <= i < s.len(),
    ensures
        s[i] <= plain_sum(s),
    decreases s.len(),
{
    lemma_plain_sum_nonneg(s.drop_last());
    if i < s.len() - 1 {
        lemma_plain_sum_dominates(s.drop_last(), i);
    }
}

/// Law: a total is never less than any of its parts.
pub proof fn law_sum_dominates_parts(s: Seq<u32>, i: int)
    requires
        0 <= i < s.len(),
    ensures
        s[i] <= saturating_sum(s),
{
    lemma_plain_sum_dominates(s, i);
    lemma_saturating_sum_is_capped_sum(s);
}

proof fn lemma_plain_sum_remove(s: Seq<u32>, i: int)
    requires
        0 <= i < s.len(),
    ensures
        plain_sum(s) == plain_sum(s.remove(i)) + s[i],
    decreases s.len(),
{
    if i == s.len() - 1 {
        assert(s.remove(i) =~= s.drop_last());
    } else {
        lemma_plain_sum_remove(s.drop_last(), i);
        assert(s.remove(i).drop_last() =~= s.drop_last().remove(i));
        assert(s.remove(i).last() == s.last());
    }
}

proof fn lemma_plain_sum_permutation(a: Seq<u32>, b: Seq<u32>)
    requires
        a.to_multiset() == b.to_multiset(),
    ensures
        plain_sum(a) == plain_sum(b),
    decreases a.len(),
{
    broadcast use vstd::seq_lib::group_to_multiset_ensures;

    if a.len() == 0 {
        assert(b.to_multiset().len() == 0);
        assert(b =~= Seq::<u32>::empty());
    } else {
        let x = a.last();
        assert(a.drop_last().push(x) =~= a);
        assert(a.to_multiset().count(x) > 0);
        assert(b.contains(x));
        let i = choose|i: int| 0 <= i < b.len() && b[i] == x;
        assert(a.drop_last().to_multiset() =~= a.to_multiset().remove(x));
        lemma_plain_sum_permutation(a.drop_last(), b.remove(i));
        lemma_plain_sum_remove(b, i);
    }
}

/// Mapping both sides of a permutation keeps them a permutation.
pub proof fn lemma_map_keeps_permutation<A, B>(a: Seq<A>, b: Seq<A>, f: spec_fn(A) -> B)
    requires
        a.to_multiset() == b.to_multiset(),
    ensures
        a.map_values(f).to_multiset() == b.map_values(f).to_multiset(),
    decreases a.len(),
{
    broadcast use vstd::seq_lib::group_to_multiset_ensures;

    if a.len() == 0 {
        assert(b.to_multiset().len() == 0);
        assert(b =~= Seq::<A>::empty());
        assert(a.map_values(f) =~= b.map_values(f));
    } else {
        let x = a.last();
        assert(a.drop_last().push(x) =~= a);
        assert(a.to_multiset().count(x) > 0);
        assert(b.contains(x));
        let i = choose|i: int| 0 <= i < b.len() && b[i] == x;
        assert(a.drop_last().to_multiset() =~= a.to_multiset().remove(x));
        lemma_map_keeps_permutation(a.drop_last(), b.remove(i), f);
        let fa = a.map_values(f);
        let fb = b.map_values(f);
        assert(a.drop_last().map_values(f).push(f(x)) =~= fa);
        assert(b.remove(i).map_values(f) =~= fb.remove(i));
        assert(fb[i] == f(x));
        assert(fb.remove(i).to_multiset() =~= fb.to_multiset().remove(f(x)));
        assert(fb.to_multiset().count(f(x)) > 0) by {
            assert(fb.contains(f(x)));
        }
        assert(fb.to_multiset().remove(f(x)).insert(f(x)) =~= fb.to_multiset());
    }
}

/// Law: summation order does not change the total: any rearrangement of the
/// amounts sums to the same.
pub proof fn law_sum_is_order_independent(a: Seq<u32>, b: Seq<u32>)
    requires
        a.to_multiset() == b.to_multiset(),
    ensures
        saturating_sum(a) == saturating_sum(b),
{
    lemma_plain_sum_permutation(a, b);
    lemma_saturating_sum_is_capped_sum(a);
    lemma_saturating_sum_is_capped_sum(b);
}

impl Cents {
    /// The zero amount.
    pub fn zero() -> (c: Self)
        ensures
            c@ == 0,
    {
        Cents(0)
    }

    pub fn new(amount: u32) -> (c: Self)
        ensures
            c@ == amount,
    {
        Cents(amount)
    }

    /// The boundary parser: signed, unbounded input becomes a `Cents` or an error.
    pub fn try_from_i64(amount: i64) -> (r: Result<Self, MoneyError>)
        ensures
            match r {
                Ok(c) => 0 <= amount <= u32::MAX && c@ == amount,
                Err(e) => (amount < 0 && e == MoneyError::Negative(amount)) || (amount
                    > u32::MAX && e == MoneyError::Overflow(amount)),
            },
    {
        if amount < 0 {
            Err(MoneyError::Negative(amount))
        } else if amount > 4294967295i64 {
            Err(MoneyError::Overflow(amount))
        } else {
            Ok(Cents(amount as u32))
        }
    }

    pub fn get(self) -> (v: u32)
        ensures
            v == self@,
    {
        self.0
    }

    pub fn as_i64(self) -> (v: i64)
        ensures
            v == self@,
    {
        self.0 as i64
    }

    /// Checked multiplication by a count. Returns an error rather than wrapping.
    pub fn checked_mul(self, factor: u32) -> (r: Result<Self, MoneyError>)
        ensures
            match r {
                Ok(c) => c@ == self@ * factor,
                Err(e) => self@ * factor > u32::MAX && e == MoneyError::ArithmeticOverflow,
            },
    {
        match self.0.checked_mul(factor) {
            Some(v) => Ok(Cents(v)),
            None => Err(MoneyError::ArithmeticOverflow),
        }
    }

    /// Checked addition. Returns an error rather than wrapping.
    pub fn checked_add(self, other: Self) -> (r: Result<Self, MoneyError>)
        ensures
            match r {
                Ok(c) => c@ == self@ + other@,
                Err(e) => self@ + other@ > u32::MAX && e == MoneyError::ArithmeticOverflow,
            },
    {
        match self.0.checked_add(other.0) {
            Some(v) => Ok(Cents(v)),
            None => Err(MoneyError::ArithmeticOverflow),
        }
    }

    /// Saturating addition, the operation behind `+` and `sum`.
    pub fn saturating_add(self, rhs: Self) -> (c: Self)
        ensures
            c@ == sat_add(self@, rhs@),
    {
        Cents(self.0.saturating_add(rhs.0))
    }

    /// The saturating total of a list of amounts.
    pub fn sum(parts: &[Cents]) -> (total: Self)
        ensures
            total@ == saturating_sum(amounts(parts@)),
    {
        let mut total = Cents(0);
        let mut i: usize = 0;
        while i < parts.len()
            invariant
                i <= parts.len(),
                total@ == saturating_sum(amounts(parts@.subrange(0, i as int))),
            decreases parts.len() - i,
        {
            let ghost before = parts@.subrange(0, i as int);
            total = total.saturating_add(parts[i]);
            proof {
                let after = parts@.subrange(0, i + 1);
                assert(amounts(after).drop_last() =~= amounts(before));
            }
            i = i + 1;
        }
        proof {
            assert(parts@.subrange(0, parts.len() as int) =~= parts@);
        }
        total
    }

    /// Renders the amount as dollars and two-digit cents, e.g. `1999.00`.
    pub fn display_string(self) -> (s: String)
        ensures
            s@ == spec_int_decimal((self@ / 100) as int) + seq!['.'] + spec_two_digits(self@ % 100),
    {
        let mut s = int_to_decimal((self.0 / 100) as i64);
        let cents = self.0 % 100;
        let tens = char_digit(cents / 10);
        let ones = char_digit(cents % 10);
        crate::text::push_char(&mut s, '.');
        crate::text::push_char(&mut s, tens);
        crate::text::push_char(&mut s, ones);
        s
    }
}

/// A number below one hundred written with exactly two decimal digits.
pub open spec fn spec_two_digits(n: u32) -> Seq<char> {
    seq![crate::text::spec_digit_char((n / 10) as nat), crate::text::spec_digit_char((n % 10) as nat)]
}

fn char_digit(d: u32) -> (c: char)
    requires
        d < 10,
    ensures
        c == crate::text::spec_digit_char(d as nat),
{
    crate::text::digit_char(d as u8)
}

impl MoneyError {
    /// The human-readable description of the failure.
    pub fn message(&self) -> (s: String)
        ensures
            s@ == self.spec_message(),
    {
        match self {
            MoneyError::Negative(v) => {
                let mut s = crate::text::string_of("monetary amount ");
                crate::text::push_str(&mut s, &int_to_decimal(*v));
                crate::text::push_str(&mut s, &crate::text::string_of(" is negative"));
                s
            },
            MoneyError::Overflow(v) => {
                let mut s = crate::text::string_of("monetary amount ");
                crate::text::push_str(&mut s, &int_to_decimal(*v));
                crate::text::push_str(
                    &mut s,
                    &crate::text::string_of(" exceeds the representable maximum"),
                );
                s
            },
            MoneyError::ArithmeticOverflow => crate::text::string_of(
                "monetary arithmetic overflowed",
            ),
        }
    }

    pub open spec fn spec_message(&self) -> Seq<char> {
        match self {
            MoneyError::Negative(v) => "monetary amount "@ + spec_int_decimal(*v as int)
                + " is negative"@,
            MoneyError::Overflow(v) => "monetary amount "@ + spec_int_decimal(*v as int)
                + " exceeds the representable maximum"@,
            MoneyError::ArithmeticOverflow => "monetary arithmetic overflowed"@,
        }
    }
}

impl core::ops::Add for Cents {
    type Output = Cents;

    fn add(self, rhs: Cents) -> (c: Cents) {
        self.saturating_add(rhs)
    }
}

impl vstd::std_specs::ops::AddSpecImpl for Cents {
    open spec fn obeys_add_spec() -> bool {
        true
    }

    open spec fn add_req(self, rhs: Cents) -> bool {
        true
    }

    closed spec fn add_spec(self, rhs: Cents) -> Cents {
        Cents(sat_add(self.0, rhs.0))
    }
}

} // verus!
