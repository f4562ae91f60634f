//! Cart pricing: a pure function of the cart's contents.
use vstd::prelude::*;

use crate::catalog::Product;
use crate::money::{amounts, saturating_sum, Cents};

verus! {

/// A line quantity, between 1 and 99 inclusive.
#[derive(Debug, Clone, Copy, PartialEq, Eq, PartialOrd, Ord, Hash, Structural)]
pub struct Quantity(u32);

/// Why a number is not a valid `Quantity`.
#[derive(Debug, Clone, Copy, PartialEq, Eq, Structural)]
pub enum QuantityError {
    /// Below the minimum of 1.
    GreaterOrEqualViolated,
    /// Above the maximum of 99.
    LessOrEqualViolated,
}

impl View for Quantity {
    type V = u32;

    closed spec fn view(&self) -> u32 {
        self.0
    }
}

impl Quantity {
    #[verifier::type_invariant]
    spec fn in_range(self) -> bool {
        1 <= self.0 <= 99
    }

    pub fn try_new(value: u32) -> (r: Result<Self, QuantityError>)
        ensures
            match r {
                Ok(q) => 1 <= value <= 99 && q@ == value,
                Err(e) => (value < 1 && e == QuantityError::GreaterOrEqualViolated) || (value > 99
                    && e == QuantityError::LessOrEqualViolated),
            },
    {
        if value < 1 {
            Err(QuantityError::GreaterOrEqualViolated)
        } else if value > 99 {
            Err(QuantityError::LessOrEqualViolated)
        } else {
            Ok(Quantity(value))
        }
    }

    pub fn into_inner(self) -> (v: u32)
        ensures
            v == self@,
            1 <= v <= 99,
    {
        proof {
            use_type_invariant(&self);
        }
        self.0
    }
}

impl QuantityError {
    /// The human-readable description of the failure.
    pub fn message(&self) -> (s: String)
        ensures
            s@ == self.spec_message(),
    {
        match self {
            QuantityError::GreaterOrEqualViolated => crate::text::string_of(
                "Quantity is too small. The value must be greater or equal to 1.",
            ),
            QuantityError::LessOrEqualViolated => crate::text::string_of(
                "Quantity is too big. The value must be less or equal to 99.",
            ),
        }
    }

    pub open spec fn spec_message(&self) -> Seq<char> {
        match self {
            QuantityError::GreaterOrEqualViolated => "Quantity is too small. The value must be greater or equal to 1."@,
            QuantityError::LessOrEqualViolated => "Quantity is too big. The value must be less or equal to 99."@,
        }
    }
}

/// A priced line of a cart.
#[derive(Debug, Clone, PartialEq, Eq)]
pub struct CartLine {
    pub product: Product,
    pub quantity: Quantity,
    pub line_total_cents: Cents,
}

/// A priced cart: its lines and their total.
#[derive(Debug, Clone, PartialEq, Eq)]
pub struct CartView {
    pub lines: Vec<CartLine>,
    pub total_cents: Cents,
}

/// Price times quantity, saturating at the largest representable amount.
pub open spec fn spec_line_total(price: u32, quantity: u32) -> u32 {
    if price * quantity > u32::MAX {
        u32::MAX
    } else {
        (price * quantity) as u32
    }
}

/// The line totals of a list of cart items.
pub open spec fn item_totals(items: Seq<(Product, Quantity)>) -> Seq<u32> {
    items.map_values(|it: (Product, Quantity)| spec_line_total(it.0.price_cents@, it.1@))
}

/// The total of a list of cart items.
pub open spec fn spec_cart_total(items: Seq<(Product, Quantity)>) -> u32 {
    saturating_sum(item_totals(items))
}

/// The line totals of priced lines.
pub open spec fn line_totals(lines: Seq<CartLine>) -> Seq<u32> {
    lines.map_values(|l: CartLine| l.line_total_cents@)
}

/// Price times quantity. Saturates rather than wrapping when the product does not fit.
pub fn line_total(price: Cents, quantity: Quantity) -> (c: Cents)
    ensures
        c@ == spec_line_total(price@, quantity@),
{
    match price.checked_mul(quantity.into_inner()) {
        Ok(c) => c,
        Err(_) => Cents::new(4294967295u32),
    }
}

/// `lines` are the items priced one for one, in order.
pub open spec fn priced(lines: Seq<CartLine>, items: Seq<(Product, Quantity)>) -> bool {
    &&& lines.len() == items.len()
    &&& forall|i: int|
        0 <= i < items.len() ==> {
            &&& (#[trigger] lines[i]).product == items[i].0
            &&& lines[i].quantity == items[i].1
            &&& 1 <= lines[i].quantity@ <= 99
            &&& lines[i].line_total_cents@ == spec_line_total(items[i].0.price_cents@, items[i].1@)
        }
}

/// Builds the priced view of a cart. Same items in, same view out.
pub fn make_cart_view(items: &[(Product, Quantity)]) -> (view: CartView)
    ensures
        priced(view.lines@, items@),
        view.total_cents@ == saturating_sum(line_totals(view.lines@)),
        view.total_cents@ == spec_cart_total(items@),
{
    let mut lines: Vec<CartLine> = Vec::new();
    let mut totals: Vec<Cents> = Vec::new();
    let mut i: usize = 0;
    while i < items.len()
        invariant
            i <= items@.len(),
            lines@.len() == i,
            totals@.len() == i,
            forall|j: int|
                0 <= j < i ==> {
                    &&& (#[trigger] lines@[j]).product == items@[j].0
                    &&& lines@[j].quantity == items@[j].1
                    &&& 1 <= lines@[j].quantity@ <= 99
                    &&& lines@[j].line_total_cents@ == spec_line_total(
                        items@[j].0.price_cents@,
                        items@[j].1@,
                    )
                    &&& totals@[j] == lines@[j].line_total_cents
                },
        decreases items.len() - i,
    {
        let (product, quantity) = &items[i];
        proof {
            use_type_invariant(quantity);
        }
        let total = line_total(product.price_cents, *quantity);
        lines.push(CartLine { line_total_cents: total, product: product.clone(), quantity: *quantity });
        totals.push(total);
        i = i + 1;
    }
    let total_cents = Cents::sum(totals.as_slice());
    proof {
        assert(amounts(totals@) =~= line_totals(lines@));
        assert(line_totals(lines@) =~= item_totals(items@));
    }
    CartView { lines, total_cents }
}

/// Law: a cart is a bag, not a list: any rearrangement of its items has the same
/// total.
pub proof fn law_total_is_invariant_under_reordering(items: Seq<(Product, Quantity)>, reordered: Seq<(Product, Quantity)>)
    requires
        reordered.to_multiset() == items.to_multiset(),
    ensures
        spec_cart_total(reordered) == spec_cart_total(items),
{
    crate::money::lemma_map_keeps_permutation(
        reordered,
        items,
        |it: (Product, Quantity)| spec_line_total(it.0.price_cents@, it.1@),
    );
    crate::money::law_sum_is_order_independent(item_totals(reordered), item_totals(items));
}

/// Law: when price times quantity fits, a line total is exactly price times quantity.
pub proof fn law_line_total_is_price_times_quantity(price: u32, quantity: u32)
    requires
        price * quantity <= u32::MAX,
    ensures
        spec_line_total(price, quantity) == price * quantity,
{
}

/// Law: an empty cart totals zero.
pub proof fn law_empty_cart_totals_zero()
    ensures
        spec_cart_total(Seq::<(Product, Quantity)>::empty()) == 0,
{
    assert(item_totals(Seq::<(Product, Quantity)>::empty()) =~= Seq::<u32>::empty());
}

} // verus!
