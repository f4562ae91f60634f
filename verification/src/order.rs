//! Orders, and the non-empty invariant that makes an order without lines unrepresentable.
use vstd::prelude::*;
use vstd::std_specs::iter::IteratorSpec;

use crate::cart::{spec_line_total, CartLine, Quantity};
use crate::catalog::{result_view, spec_validated, DisplayName, ProductId};
use crate::money::{amounts, saturating_sum, Cents};
use crate::text::{sanitize_checked, spec_text_error_message, text_error_message, CaseMap, TextError};
use crate::user::{UserId, UtcTimestamp};

verus! {

/// An order identifier: trimmed, non-empty, at most 64 characters.
#[derive(Debug, PartialEq, Eq, PartialOrd, Ord, Hash)]
pub struct OrderId(String);

impl View for OrderId {
    type V = Seq<char>;

    closed spec fn view(&self) -> Seq<char> {
        self.0@
    }
}

impl OrderId {
    pub fn try_new(raw: &str) -> (r: Result<Self, TextError>)
        ensures
            result_view(r) == spec_validated(raw@, CaseMap::Keep, 64),
    {
        match sanitize_checked(raw, CaseMap::Keep, 64) {
            Ok(v) => Ok(OrderId(v)),
            Err(e) => Err(e),
        }
    }

    pub fn as_ref(&self) -> (s: &str)
        ensures
            s@ == self@,
    {
        self.0.as_str()
    }

    pub fn into_inner(self) -> (s: String)
        ensures
            s@ == self@,
    {
        self.0
    }

    pub fn same_as(&self, other: &OrderId) -> (r: bool)
        ensures
            r == (self@ == other@),
    {
        crate::text::same_text(&self.0, &other.0)
    }

    pub fn error_message(e: TextError) -> (s: String)
        ensures
            s@ == spec_text_error_message("OrderId"@, 64, e),
    {
        text_error_message("OrderId", 64, e)
    }
}

impl Clone for OrderId {
    fn clone(&self) -> (r: Self)
        ensures
            r == *self,
    {
        OrderId(self.0.clone())
    }
}

/// A vector that holds at least one element.
#[derive(Debug, PartialEq, Eq)]
pub struct NonEmpty<T>(Vec<T>);

/// The list that should have become a `NonEmpty` was empty.
#[derive(Debug, Clone, Copy, PartialEq, Eq, Structural)]
pub struct Empty;

impl<T> View for NonEmpty<T> {
    type V = Seq<T>;

    closed spec fn view(&self) -> Seq<T> {
        self.0@
    }
}

impl<T> NonEmpty<T> {
    #[verifier::type_invariant]
    spec fn not_empty(self) -> bool {
        self.0@.len() > 0
    }

    /// Fallible construction from a list: empty lists are refused.
    pub fn try_from_vec(items: Vec<T>) -> (r: Result<Self, Empty>)
        ensures
            match r {
                Ok(ne) => items@.len() > 0 && ne@ == items@,
                Err(_) => items@.len() == 0,
            },
    {
        if items.len() == 0 {
            return Err(Empty);
        }
        Ok(NonEmpty(items))
    }

    /// Infallible construction from a head plus a (possibly empty) tail.
    pub fn new(head: T, tail: Vec<T>) -> (ne: Self)
        ensures
            ne@ == seq![head] + tail@,
    {
        let mut items: Vec<T> = Vec::new();
        items.push(head);
        let mut tail = tail;
        items.append(&mut tail);
        NonEmpty(items)
    }

    pub fn as_slice(&self) -> (s: &[T])
        ensures
            s@ == self@,
    {
        self.0.as_slice()
    }

    /// Total: there is always a first element.
    pub fn first(&self) -> (x: &T)
        ensures
            self@.len() > 0,
            *x == self@[0],
    {
        proof {
            use_type_invariant(self);
        }
        &self.0[0]
    }

    pub fn len(&self) -> (n: usize)
        ensures
            n == self@.len(),
            n > 0,
    {
        proof {
            use_type_invariant(self);
        }
        self.0.len()
    }

    /// Always false: emptiness is not a state this type can reach.
    pub fn is_empty(&self) -> (b: bool)
        ensures
            !b,
            self@.len() > 0,
    {
        proof {
            use_type_invariant(self);
        }
        false
    }

    pub fn iter(&self) -> (it: std::slice::Iter<'_, T>)
        ensures
            IteratorSpec::remaining(&it) == self@.as_ref(),
    {
        self.0.as_slice().iter()
    }

    /// Applies `f` to every element, in order; the result is non-empty too.
    pub fn map<U, F: Fn(&T) -> U>(&self, f: F) -> (r: NonEmpty<U>)
        requires
            forall|i: int| 0 <= i < self@.len() ==> call_requires(f, (&self@[i],)),
        ensures
            r@.len() == self@.len(),
            forall|i: int| 0 <= i < self@.len() ==> call_ensures(f, (&self@[i],), #[trigger] r@[i]),
    {
        proof {
            use_type_invariant(self);
        }
        let mut out: Vec<U> = Vec::new();
        let mut i: usize = 0;
        while i < self.0.len()
            invariant
                i <= self@.len(),
                self@ == self.0@,
                out@.len() == i,
                forall|j: int| 0 <= j < self@.len() ==> call_requires(f, (&self@[j],)),
                forall|j: int| 0 <= j < i ==> call_ensures(f, (&self@[j],), #[trigger] out@[j]),
            decreases self.0.len() - i,
        {
            out.push(f(&self.0[i]));
            i = i + 1;
        }
        NonEmpty(out)
    }

    /// The elements as a plain vector.
    pub fn into_vec(self) -> (v: Vec<T>)
        ensures
            v@ == self@,
    {
        self.0
    }
}

impl<T> TryFrom<Vec<T>> for NonEmpty<T> {
    type Error = Empty;

    fn try_from(items: Vec<T>) -> (r: Result<Self, Empty>)
        ensures
            match r {
                Ok(ne) => items@.len() > 0 && ne@ == items@,
                Err(_) => items@.len() == 0,
            },
    {
        if items.len() == 0 {
            return Err(Empty);
        }
        Ok(NonEmpty(items))
    }
}

impl<T> vstd::std_specs::convert::TryFromSpecImpl<Vec<T>> for NonEmpty<T> {
    open spec fn obeys_try_from_spec() -> bool {
        true
    }

    closed spec fn try_from_spec(v: Vec<T>) -> Result<Self, Empty> {
        if v@.len() == 0 {
            Err(Empty)
        } else {
            Ok(NonEmpty(v))
        }
    }
}

impl<T> From<NonEmpty<T>> for Vec<T> {
    fn from(value: NonEmpty<T>) -> (v: Vec<T>) {
        value.0
    }
}

impl<T> vstd::std_specs::convert::FromSpecImpl<NonEmpty<T>> for Vec<T> {
    open spec fn obeys_from_spec() -> bool {
        true
    }

    closed spec fn from_spec(value: NonEmpty<T>) -> Vec<T> {
        value.0
    }
}

impl Empty {
    pub fn message(&self) -> (s: String)
        ensures
            s@ == "expected at least one element, got none"@,
    {
        crate::text::string_of("expected at least one element, got none")
    }
}

// ---------------------------------------------------------------------------
// Order
// ---------------------------------------------------------------------------

/// A line as it was at the moment of purchase: name and unit price are snapshotted.
#[derive(Debug, PartialEq, Eq)]
pub struct OrderLine {
    pub product_id: ProductId,
    pub name: DisplayName,
    pub unit_price_cents: Cents,
    pub quantity: Quantity,
}

impl Clone for OrderLine {
    fn clone(&self) -> (r: Self)
        ensures
            r == *self,
    {
        OrderLine {
            product_id: self.product_id.clone(),
            name: self.name.clone(),
            unit_price_cents: self.unit_price_cents,
            quantity: self.quantity,
        }
    }
}

/// The mathematical view of an order line.
pub struct OrderLineView {
    pub product_id: Seq<char>,
    pub name: Seq<char>,
    pub unit_price_cents: u32,
    pub quantity: u32,
}

impl View for OrderLine {
    type V = OrderLineView;

    open spec fn view(&self) -> OrderLineView {
        OrderLineView {
            product_id: self.product_id@,
            name: self.name@,
            unit_price_cents: self.unit_price_cents@,
            quantity: self.quantity@,
        }
    }
}

impl OrderLine {
    /// Unit price times quantity, saturating when it does not fit.
    pub fn line_total(&self) -> (c: Cents)
        ensures
            c@ == spec_line_total(self.unit_price_cents@, self.quantity@),
    {
        match self.unit_price_cents.checked_mul(self.quantity.into_inner()) {
            Ok(c) => c,
            Err(_) => Cents::new(4294967295u32),
        }
    }
}

/// A placed order. Its total is derived from its lines, never supplied.
#[derive(Debug, PartialEq, Eq)]
pub struct Order {
    pub id: OrderId,
    pub user_id: UserId,
    pub lines: NonEmpty<OrderLine>,
    pub total_cents: Cents,
    pub placed_at: UtcTimestamp,
}

impl Clone for Order {
    fn clone(&self) -> (r: Self)
        ensures
            r@ == self@,
    {
        let lines = self.lines.map(clone_line);
        proof {
            assert(lines@ =~= self.lines@);
        }
        Order {
            id: self.id.clone(),
            user_id: self.user_id.clone(),
            lines,
            total_cents: self.total_cents,
            placed_at: self.placed_at,
        }
    }
}

fn clone_line(line: &OrderLine) -> (r: OrderLine)
    ensures
        r == *line,
{
    line.clone()
}

/// The mathematical view of an order.
pub struct OrderView {
    pub id: Seq<char>,
    pub user_id: Seq<char>,
    pub lines: Seq<OrderLineView>,
    pub total_cents: u32,
    pub placed_at: UtcTimestamp,
}

impl View for Order {
    type V = OrderView;

    open spec fn view(&self) -> OrderView {
        OrderView {
            id: self.id@,
            user_id: self.user_id@,
            lines: self.lines@.map_values(|l: OrderLine| l@),
            total_cents: self.total_cents@,
            placed_at: self.placed_at,
        }
    }
}

/// The line totals of order lines.
pub open spec fn order_line_totals(lines: Seq<OrderLine>) -> Seq<u32> {
    lines.map_values(|l: OrderLine| spec_line_total(l.unit_price_cents@, l.quantity@))
}

/// The total of a list of order lines.
pub open spec fn spec_order_total(lines: Seq<OrderLine>) -> u32 {
    saturating_sum(order_line_totals(lines))
}

/// The total of order lines given by their views: the saturating sum of unit price
/// times quantity.
pub open spec fn lines_total(lines: Seq<OrderLineView>) -> u32 {
    saturating_sum(lines.map_values(|l: OrderLineView| spec_line_total(l.unit_price_cents, l.quantity)))
}

/// The total of order lines is the total of their views.
pub proof fn lemma_order_total_by_views(lines: Seq<OrderLine>)
    ensures
        spec_order_total(lines) == lines_total(lines.map_values(|l: OrderLine| l@)),
{
    assert(order_line_totals(lines) =~= lines.map_values(|l: OrderLine| l@).map_values(
        |l: OrderLineView| spec_line_total(l.unit_price_cents, l.quantity),
    ));
}

/// The snapshot of a priced cart line at purchase time.
pub open spec fn snapshot(line: CartLine) -> OrderLine {
    OrderLine {
        product_id: line.product.id,
        name: line.product.name,
        unit_price_cents: line.product.price_cents,
        quantity: line.quantity,
    }
}

impl Order {
    /// The only constructor: `total_cents` is computed from `lines`.
    pub fn place(
        id: OrderId,
        user_id: UserId,
        lines: NonEmpty<OrderLine>,
        placed_at: UtcTimestamp,
    ) -> (o: Self)
        ensures
            o.id == id,
            o.user_id == user_id,
            o.lines == lines,
            o.placed_at == placed_at,
            o.total_cents@ == spec_order_total(lines@),
    {
        let total_cents = order_total(lines.as_slice());
        Order { id, user_id, lines, total_cents, placed_at }
    }
}

/// Why an order given by its parts was refused.
#[derive(Debug, Clone, Copy, PartialEq, Eq, Structural)]
pub enum OrderDecodeError {
    /// The order had no lines.
    NoLines,
    /// The stated total is not the one the lines give.
    TotalMismatch,
}

impl OrderDecodeError {
    pub fn message(&self) -> (s: String)
        ensures
            s@ == match self {
                OrderDecodeError::NoLines => "expected at least one element, got none"@,
                OrderDecodeError::TotalMismatch => "total_cents does not match the order's lines"@,
            },
    {
        match self {
            OrderDecodeError::NoLines => crate::text::string_of("expected at least one element, got none"),
            OrderDecodeError::TotalMismatch => crate::text::string_of("total_cents does not match the order's lines"),
        }
    }
}

impl Order {
    /// An order read back from its parts (as a wire form carries them): the lines
    /// must be non-empty and the stated total must be the one the lines give, so a
    /// decoded order keeps the same invariants as a placed one.
    pub fn from_parts(
        id: OrderId,
        user_id: UserId,
        lines: Vec<OrderLine>,
        total_cents: Cents,
        placed_at: UtcTimestamp,
    ) -> (r: Result<Order, OrderDecodeError>)
        ensures
            lines@.len() == 0 ==> r == Err::<Order, OrderDecodeError>(OrderDecodeError::NoLines),
            lines@.len() > 0 && total_cents@ != spec_order_total(lines@) ==> r == Err::<
                Order,
                OrderDecodeError,
            >(OrderDecodeError::TotalMismatch),
            lines@.len() > 0 && total_cents@ == spec_order_total(lines@) ==> (r matches Ok(o) && o.id
                == id && o.user_id == user_id && o.lines@ == lines@ && o.total_cents == total_cents
                && o.placed_at == placed_at),
    {
        let lines = match NonEmpty::try_from_vec(lines) {
            Ok(ne) => ne,
            Err(_) => return Err(OrderDecodeError::NoLines),
        };
        let derived = order_total(lines.as_slice());
        if derived.get() != total_cents.get() {
            return Err(OrderDecodeError::TotalMismatch);
        }
        Ok(Order { id, user_id, lines, total_cents, placed_at })
    }
}

/// Snapshot of priced cart lines into order lines, in order.
pub fn to_order_lines(cart_lines: &NonEmpty<CartLine>) -> (r: NonEmpty<OrderLine>)
    ensures
        r@.len() == cart_lines@.len(),
        forall|i: int| 0 <= i < cart_lines@.len() ==> #[trigger] r@[i] == snapshot(cart_lines@[i]),
{
    cart_lines.map(snapshot_line)
}

/// The order line that records a priced cart line.
fn snapshot_line(line: &CartLine) -> (o: OrderLine)
    ensures
        o == snapshot(*line),
{
    OrderLine {
        product_id: line.product.id.clone(),
        name: line.product.name.clone(),
        unit_price_cents: line.product.price_cents,
        quantity: line.quantity,
    }
}

/// The saturating sum of the lines' totals.
pub fn order_total(lines: &[OrderLine]) -> (c: Cents)
    ensures
        c@ == spec_order_total(lines@),
{
    let mut totals: Vec<Cents> = Vec::new();
    let mut i: usize = 0;
    while i < lines.len()
        invariant
            i <= lines@.len(),
            totals@.len() == i,
            forall|j: int|
                0 <= j < i ==> (#[trigger] totals@[j])@ == spec_line_total(
                    lines@[j].unit_price_cents@,
                    lines@[j].quantity@,
                ),
        decreases lines.len() - i,
    {
        totals.push(lines[i].line_total());
        i = i + 1;
    }
    proof {
        assert(amounts(totals@) =~= order_line_totals(lines@));
    }
    Cents::sum(totals.as_slice())
}

/// Law: snapshotting preserves every line, in order, with its quantity and unit price,
/// so the order's total is the cart's total.
pub proof fn law_snapshot_preserves_total(cart: Seq<CartLine>, order: Seq<OrderLine>)
    requires
        order.len() == cart.len(),
        forall|i: int| 0 <= i < cart.len() ==> #[trigger] order[i] == snapshot(cart[i]),
        forall|i: int| 0 <= i < cart.len() ==> (#[trigger] cart[i]).line_total_cents@
            == spec_line_total(cart[i].product.price_cents@, cart[i].quantity@),
    ensures
        spec_order_total(order) == saturating_sum(crate::cart::line_totals(cart)),
{
    assert(order_line_totals(order) =~= crate::cart::line_totals(cart));
}

} // verus!
