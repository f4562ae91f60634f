//! Checkout, and the order look-ups.
use vstd::prelude::*;

use crate::cart::{make_cart_view, priced, CartLine};
use crate::cart::Quantity;
use crate::catalog::{spec_validated, Product, ProductId};
use crate::errors::{CheckoutError, OrderLookupError, RepoError};
use crate::order::{snapshot, spec_order_total, to_order_lines, NonEmpty, Order, OrderId};
use crate::ports::StockReservation;
use crate::text::{push_str, spec_text_error_message, string_of, CaseMap, TextError};
use crate::user::{UserId, UtcTimestamp};

verus! {

/// Where a checkout stands: which effect it is waiting on, and what it has so far.
pub enum CheckoutPhase {
    /// Waiting for the transaction to open.
    Beginning,
    /// Waiting for the cart's items, read inside the transaction.
    LoadingCart,
    /// Waiting for the stock reservation of `lines[next]`; the lines before it
    /// are reserved.
    Reserving { lines: NonEmpty<CartLine>, next: usize },
    /// Every line is reserved; waiting for an order id.
    DrawingId { lines: NonEmpty<CartLine> },
    /// Waiting for the time of purchase.
    ReadingClock { lines: NonEmpty<CartLine>, id: OrderId },
    /// Waiting for the order to be written.
    Inserting { order: Order },
    /// Waiting for the cart to be cleared.
    Clearing { order: Order },
    /// Waiting for the commit.
    Committing { order: Order },
    /// Done; nothing more is awaited.
    Finished,
}

/// The effect a checkout asks for next. Every effect but `Finish` runs inside the
/// transaction opened by `Begin`; `Finish` with an error means the transaction is
/// dropped uncommitted, which rolls back every reservation made.
pub enum CheckoutAction {
    Begin,
    LoadCart { user_id: UserId },
    ReserveStock { product_id: ProductId, quantity: Quantity },
    DrawOrderId,
    ReadClock,
    InsertOrder { order: Order },
    ClearCart { user_id: UserId },
    Commit,
    Finish { result: Result<Order, CheckoutError> },
}

/// What the last effect returned.
pub enum CheckoutEvent {
    /// The effect failed in the store.
    Failed(RepoError),
    Begun,
    CartLoaded(Vec<(Product, Quantity)>),
    Reservation(StockReservation),
    OrderIdDrawn(String),
    ClockRead(UtcTimestamp),
    /// The write (order, cart clearing or commit) went through.
    Written,
}

/// A checkout in progress for one user: read cart, reserve stock line by line,
/// write the order, clear the cart, commit.
pub struct Checkout {
    user_id: UserId,
    phase: CheckoutPhase,
}

/// The event is the one the phase waits for (a store failure can end any phase).
pub open spec fn checkout_awaits(phase: CheckoutPhase, event: CheckoutEvent) -> bool {
    match event {
        CheckoutEvent::Failed(_) => !(phase is Finished),
        CheckoutEvent::Begun => phase is Beginning,
        CheckoutEvent::CartLoaded(_) => phase is LoadingCart,
        CheckoutEvent::Reservation(_) => phase is Reserving,
        CheckoutEvent::OrderIdDrawn(_) => phase is DrawingId,
        CheckoutEvent::ClockRead(_) => phase is ReadingClock,
        CheckoutEvent::Written => phase is Inserting || phase is Clearing || phase is Committing,
    }
}

/// The order snapshots the lines, in order.
pub open spec fn snapshots(order_lines: Seq<crate::order::OrderLine>, lines: Seq<CartLine>) -> bool {
    &&& order_lines.len() == lines.len()
    &&& forall|i: int| 0 <= i < lines.len() ==> #[trigger] order_lines[i] == snapshot(lines[i])
}

/// The message of an id that the generator produced and `OrderId` refused.
pub open spec fn garbage_id_message(e: TextError) -> Seq<char> {
    "id generator produced garbage: "@ + spec_text_error_message("OrderId"@, 64, e)
}

/// One step of a checkout: from phase `s` and event `e` to phase `t` and action `a`.
pub open spec fn checkout_step(s: CheckoutPhase, user_id: UserId, e: CheckoutEvent, t: CheckoutPhase, a: CheckoutAction) -> bool {
    match e {
        CheckoutEvent::Failed(err) => t is Finished && a == (CheckoutAction::Finish {
            result: Err(CheckoutError::Repo(err)),
        }),
        CheckoutEvent::Begun => t is LoadingCart && a == (CheckoutAction::LoadCart { user_id }),
        CheckoutEvent::CartLoaded(items) => if items@.len() == 0 {
            t is Finished && a == (CheckoutAction::Finish { result: Err(CheckoutError::CartEmpty) })
        } else {
            &&& t matches CheckoutPhase::Reserving { lines, next }
            &&& next == 0
            &&& priced(lines@, items@)
            &&& a == (CheckoutAction::ReserveStock {
                product_id: lines@[0].product.id,
                quantity: lines@[0].quantity,
            })
        },
        CheckoutEvent::Reservation(r) => match s {
            CheckoutPhase::Reserving { lines, next } => match r {
                StockReservation::Insufficient { available } => t is Finished && a == (
                CheckoutAction::Finish {
                    result: Err(
                        CheckoutError::InsufficientStock {
                            product_id: lines@[next as int].product.id,
                            requested: lines@[next as int].quantity@,
                            available,
                        },
                    ),
                }),
                StockReservation::Reserved => if next + 1 < lines@.len() {
                    &&& t matches CheckoutPhase::Reserving { lines: l, next: n }
                    &&& l == lines
                    &&& n == next + 1
                    &&& a == (CheckoutAction::ReserveStock {
                        product_id: lines@[next + 1].product.id,
                        quantity: lines@[next + 1].quantity,
                    })
                } else {
                    t == (CheckoutPhase::DrawingId { lines }) && a is DrawOrderId
                },
            },
            _ => false,
        },
        CheckoutEvent::OrderIdDrawn(raw) => match s {
            CheckoutPhase::DrawingId { lines } => match spec_validated(raw@, CaseMap::Keep, 64) {
                Err(err) => {
                    &&& t is Finished
                    &&& a matches CheckoutAction::Finish {
                        result: Err(CheckoutError::Repo(RepoError::Corrupt(m))),
                    }
                    &&& m@ == garbage_id_message(err)
                },
                Ok(v) => {
                    &&& t matches CheckoutPhase::ReadingClock { lines: l, id }
                    &&& l == lines
                    &&& id@ == v
                    &&& a is ReadClock
                },
            },
            _ => false,
        },
        CheckoutEvent::ClockRead(time) => match s {
            CheckoutPhase::ReadingClock { lines, id } => {
                &&& t matches CheckoutPhase::Inserting { order }
                &&& order.id == id
                &&& order.user_id == user_id
                &&& order.placed_at == time
                &&& snapshots(order.lines@, lines@)
                &&& order.total_cents@ == spec_order_total(order.lines@)
                &&& a matches CheckoutAction::InsertOrder { order: o }
                &&& o@ == order@
            },
            _ => false,
        },
        CheckoutEvent::Written => match s {
            CheckoutPhase::Inserting { order } => t == (CheckoutPhase::Clearing { order }) && a
                == (CheckoutAction::ClearCart { user_id }),
            CheckoutPhase::Clearing { order } => t == (CheckoutPhase::Committing { order })
                && a is Commit,
            CheckoutPhase::Committing { order } => t is Finished && a == (CheckoutAction::Finish {
                result: Ok(order),
            }),
            _ => false,
        },
    }
}

impl Checkout {
    #[verifier::type_invariant]
    spec fn well_formed(self) -> bool {
        match self.phase {
            CheckoutPhase::Reserving { lines, next } => next < lines@.len(),
            _ => true,
        }
    }

    pub closed spec fn user_id(self) -> UserId {
        self.user_id
    }

    pub closed spec fn phase(self) -> CheckoutPhase {
        self.phase
    }

    /// Starts a checkout: the first effect is opening the transaction.
    pub fn start(user_id: UserId) -> (r: (Checkout, CheckoutAction))
        ensures
            r.0.user_id() == user_id,
            r.0.phase() is Beginning,
            r.1 is Begin,
    {
        (Checkout { user_id, phase: CheckoutPhase::Beginning }, CheckoutAction::Begin)
    }

    /// Whether `event` is one this checkout waits for.
    pub fn awaits(&self, event: &CheckoutEvent) -> (b: bool)
        ensures
            b == checkout_awaits(self.phase(), *event),
    {
        match event {
            CheckoutEvent::Failed(_) => !matches!(self.phase, CheckoutPhase::Finished),
            CheckoutEvent::Begun => matches!(self.phase, CheckoutPhase::Beginning),
            CheckoutEvent::CartLoaded(_) => matches!(self.phase, CheckoutPhase::LoadingCart),
            CheckoutEvent::Reservation(_) => matches!(self.phase, CheckoutPhase::Reserving { .. }),
            CheckoutEvent::OrderIdDrawn(_) => matches!(self.phase, CheckoutPhase::DrawingId { .. }),
            CheckoutEvent::ClockRead(_) => matches!(self.phase, CheckoutPhase::ReadingClock { .. }),
            CheckoutEvent::Written => matches!(
                self.phase,
                CheckoutPhase::Inserting { .. } | CheckoutPhase::Clearing { .. }
                    | CheckoutPhase::Committing { .. }
            ),
        }
    }

    /// Advances the checkout by the result of the effect it asked for.
    pub fn step(self, event: CheckoutEvent) -> (r: (Checkout, CheckoutAction))
        requires
            checkout_awaits(self.phase(), event),
        ensures
            r.0.user_id() == self.user_id(),
            checkout_step(self.phase(), self.user_id(), event, r.0.phase(), r.1),
    {
        proof {
            use_type_invariant(&self);
        }
        let Checkout { user_id, phase } = self;
        match event {
            CheckoutEvent::Failed(err) => {
                (
                    Checkout { user_id, phase: CheckoutPhase::Finished },
                    CheckoutAction::Finish { result: Err(CheckoutError::Repo(err)) },
                )
            },
            CheckoutEvent::Begun => {
                let load = CheckoutAction::LoadCart { user_id: user_id.clone() };
                (Checkout { user_id, phase: CheckoutPhase::LoadingCart }, load)
            },
            CheckoutEvent::CartLoaded(items) => {
                let view = make_cart_view(items.as_slice());
                match NonEmpty::try_from_vec(view.lines) {
                    Err(_) => (
                        Checkout { user_id, phase: CheckoutPhase::Finished },
                        CheckoutAction::Finish { result: Err(CheckoutError::CartEmpty) },
                    ),
                    Ok(lines) => {
                        let first = lines.first();
                        let reserve = CheckoutAction::ReserveStock {
                            product_id: first.product.id.clone(),
                            quantity: first.quantity,
                        };
                        (Checkout { user_id, phase: CheckoutPhase::Reserving { lines, next: 0 } }, reserve)
                    },
                }
            },
            CheckoutEvent::Reservation(r) => {
                match phase {
                    CheckoutPhase::Reserving { lines, next } => {
                        match r {
                            StockReservation::Insufficient { available } => {
                                let line = &lines.as_slice()[next];
                                let failure = CheckoutError::InsufficientStock {
                                    product_id: line.product.id.clone(),
                                    requested: line.quantity.into_inner(),
                                    available,
                                };
                                (
                                    Checkout { user_id, phase: CheckoutPhase::Finished },
                                    CheckoutAction::Finish { result: Err(failure) },
                                )
                            },
                            StockReservation::Reserved => {
                                if next < lines.len() - 1 {
                                    let line = &lines.as_slice()[next + 1];
                                    let reserve = CheckoutAction::ReserveStock {
                                        product_id: line.product.id.clone(),
                                        quantity: line.quantity,
                                    };
                                    (
                                        Checkout {
                                            user_id,
                                            phase: CheckoutPhase::Reserving { lines, next: next + 1 },
                                        },
                                        reserve,
                                    )
                                } else {
                                    (
                                        Checkout { user_id, phase: CheckoutPhase::DrawingId { lines } },
                                        CheckoutAction::DrawOrderId,
                                    )
                                }
                            },
                        }
                    },
                    _ => {
                        proof {
                            assert(false);
                        }
                        (Checkout { user_id, phase: CheckoutPhase::Finished }, CheckoutAction::Commit)
                    },
                }
            },
            CheckoutEvent::OrderIdDrawn(raw) => {
                match phase {
                    CheckoutPhase::DrawingId { lines } => {
                        match OrderId::try_new(raw.as_str()) {
                            Err(e) => {
                                let mut m = string_of("id generator produced garbage: ");
                                push_str(&mut m, &OrderId::error_message(e));
                                (
                                    Checkout { user_id, phase: CheckoutPhase::Finished },
                                    CheckoutAction::Finish {
                                        result: Err(CheckoutError::Repo(RepoError::Corrupt(m))),
                                    },
                                )
                            },
                            Ok(id) => (
                                Checkout { user_id, phase: CheckoutPhase::ReadingClock { lines, id } },
                                CheckoutAction::ReadClock,
                            ),
                        }
                    },
                    _ => {
                        proof {
                            assert(false);
                        }
                        (Checkout { user_id, phase: CheckoutPhase::Finished }, CheckoutAction::Commit)
                    },
                }
            },
            CheckoutEvent::ClockRead(time) => {
                match phase {
                    CheckoutPhase::ReadingClock { lines, id } => {
                        let order_lines = to_order_lines(&lines);
                        let order = Order::place(id, user_id.clone(), order_lines, time);
                        let insert = CheckoutAction::InsertOrder { order: order.clone() };
                        (Checkout { user_id, phase: CheckoutPhase::Inserting { order } }, insert)
                    },
                    _ => {
                        proof {
                            assert(false);
                        }
                        (Checkout { user_id, phase: CheckoutPhase::Finished }, CheckoutAction::Commit)
                    },
                }
            },
            CheckoutEvent::Written => {
                match phase {
                    CheckoutPhase::Inserting { order } => {
                        let clear = CheckoutAction::ClearCart { user_id: user_id.clone() };
                        (Checkout { user_id, phase: CheckoutPhase::Clearing { order } }, clear)
                    },
                    CheckoutPhase::Clearing { order } => (
                        Checkout { user_id, phase: CheckoutPhase::Committing { order } },
                        CheckoutAction::Commit,
                    ),
                    CheckoutPhase::Committing { order } => (
                        Checkout { user_id, phase: CheckoutPhase::Finished },
                        CheckoutAction::Finish { result: Ok(order) },
                    ),
                    _ => {
                        proof {
                            assert(false);
                        }
                        (Checkout { user_id, phase: CheckoutPhase::Finished }, CheckoutAction::Commit)
                    },
                }
            },
        }
    }
}


// ---------------------------------------------------------------------------
// Runs of a checkout
// ---------------------------------------------------------------------------

/// A run of a checkout for `user_id`: it starts at `Beginning` with `Begin`, and
/// every event is one the phase waits for and moves `phases[i]` to `phases[i + 1]`,
/// asking for `actions[i + 1]`.
pub open spec fn checkout_run(
    user_id: UserId,
    phases: Seq<CheckoutPhase>,
    events: Seq<CheckoutEvent>,
    actions: Seq<CheckoutAction>,
) -> bool {
    &&& phases.len() == events.len() + 1
    &&& actions.len() == events.len() + 1
    &&& phases[0] is Beginning
    &&& actions[0] is Begin
    &&& forall|i: int|
        0 <= i < events.len() ==> {
            &&& checkout_awaits(phases[i], #[trigger] events[i])
            &&& checkout_step(phases[i], user_id, events[i], phases[i + 1], actions[i + 1])
        }
}

/// The lines whose stock reservation was confirmed during the first `i` events, in
/// the order the confirmations came.
pub open spec fn confirmed(phases: Seq<CheckoutPhase>, events: Seq<CheckoutEvent>, i: int) -> Seq<CartLine>
    decreases i,
{
    if i <= 0 {
        Seq::empty()
    } else {
        let before = confirmed(phases, events, i - 1);
        match (phases[i - 1], events[i - 1]) {
            (
                CheckoutPhase::Reserving { lines, next },
                CheckoutEvent::Reservation(StockReservation::Reserved),
            ) => before.push(lines@[next as int]),
            _ => before,
        }
    }
}

/// The cart items loaded during the first `i` events (the last load, if any).
pub open spec fn loaded(events: Seq<CheckoutEvent>, i: int) -> Seq<(Product, Quantity)>
    decreases i,
{
    if i <= 0 {
        Seq::empty()
    } else {
        match events[i - 1] {
            CheckoutEvent::CartLoaded(items) => items@,
            _ => loaded(events, i - 1),
        }
    }
}

/// What holds at every point of a run.
pub open spec fn run_invariant(user_id: UserId, phases: Seq<CheckoutPhase>, events: Seq<CheckoutEvent>, i: int) -> bool {
    let done = confirmed(phases, events, i);
    let items = loaded(events, i);
    match phases[i] {
        CheckoutPhase::Beginning => done.len() == 0,
        CheckoutPhase::LoadingCart => done.len() == 0,
        CheckoutPhase::Reserving { lines, next } => {
            &&& next < lines@.len()
            &&& done == lines@.take(next as int)
            &&& priced(lines@, items)
        },
        CheckoutPhase::DrawingId { lines } => done == lines@ && priced(lines@, items),
        CheckoutPhase::ReadingClock { lines, id } => done == lines@ && priced(lines@, items),
        CheckoutPhase::Inserting { order } => {
            &&& order.user_id == user_id
            &&& snapshots(order.lines@, done)
            &&& order.total_cents@ == spec_order_total(order.lines@)
            &&& priced(done, items)
        },
        CheckoutPhase::Clearing { order } => {
            &&& order.user_id == user_id
            &&& snapshots(order.lines@, done)
            &&& order.total_cents@ == spec_order_total(order.lines@)
            &&& priced(done, items)
        },
        CheckoutPhase::Committing { order } => {
            &&& order.user_id == user_id
            &&& snapshots(order.lines@, done)
            &&& order.total_cents@ == spec_order_total(order.lines@)
            &&& priced(done, items)
        },
        CheckoutPhase::Finished => true,
    }
}

proof fn lemma_run_invariant(
    user_id: UserId,
    phases: Seq<CheckoutPhase>,
    events: Seq<CheckoutEvent>,
    actions: Seq<CheckoutAction>,
    i: int,
)
    requires
        checkout_run(user_id, phases, events, actions),
        0 <= i <= events.len(),
    ensures
        run_invariant(user_id, phases, events, i),
    decreases i,
{
    if i > 0 {
        let k = i - 1;
        lemma_run_invariant(user_id, phases, events, actions, k);
        assert(checkout_awaits(phases[k], events[k]));
        assert(checkout_step(phases[k], user_id, events[k], phases[k + 1], actions[k + 1]));
        let done = confirmed(phases, events, k);
        let items = loaded(events, k);
        match events[k] {
            CheckoutEvent::Failed(_) => {},
            CheckoutEvent::Begun => {
                assert(confirmed(phases, events, i) == done);
            },
            CheckoutEvent::CartLoaded(new_items) => {
                assert(confirmed(phases, events, i) == done);
                assert(loaded(events, i) == new_items@);
                if new_items@.len() > 0 {
                    assert(phases[k + 1] matches CheckoutPhase::Reserving { lines, next } && next == 0
                        && lines@.take(0) =~= done);
                }
            },
            CheckoutEvent::Reservation(r) => {
                assert(loaded(events, i) == items);
                if let CheckoutPhase::Reserving { lines, next } = phases[k] {
                    if r is Reserved {
                        assert(confirmed(phases, events, i) == done.push(lines@[next as int]));
                        assert(lines@.take(next as int).push(lines@[next as int]) =~= lines@.take(next + 1));
                        if next + 1 >= lines@.len() {
                            assert(lines@.take(next + 1) =~= lines@);
                        }
                    }
                }
            },
            CheckoutEvent::OrderIdDrawn(_) => {
                assert(confirmed(phases, events, i) == done);
                assert(loaded(events, i) == items);
            },
            CheckoutEvent::ClockRead(_) => {
                assert(confirmed(phases, events, i) == done);
                assert(loaded(events, i) == items);
            },
            CheckoutEvent::Written => {
                assert(confirmed(phases, events, i) == done);
                assert(loaded(events, i) == items);
            },
        }
    }
}

/// Law: a checkout commits only after every line of its order had its stock
/// reservation confirmed, one confirmation per line, in the order of the lines.
pub proof fn law_commit_follows_every_reservation(
    user_id: UserId,
    phases: Seq<CheckoutPhase>,
    events: Seq<CheckoutEvent>,
    actions: Seq<CheckoutAction>,
    i: int,
)
    requires
        checkout_run(user_id, phases, events, actions),
        0 <= i <= events.len(),
        actions[i] is Commit,
    ensures
        phases[i] matches CheckoutPhase::Committing { order } && snapshots(
            order.lines@,
            confirmed(phases, events, i),
        ),
{
    let k = i - 1;
    assert(checkout_step(phases[k], user_id, events[k], phases[k + 1], actions[k + 1]));
    lemma_run_invariant(user_id, phases, events, actions, i);
}

/// Law: once a checkout finishes, successfully or not, it waits for nothing more:
/// a failed checkout never goes on to commit.
pub proof fn law_finish_ends_the_run(
    user_id: UserId,
    phases: Seq<CheckoutPhase>,
    events: Seq<CheckoutEvent>,
    actions: Seq<CheckoutAction>,
    i: int,
)
    requires
        checkout_run(user_id, phases, events, actions),
        0 <= i <= events.len(),
        actions[i] is Finish,
    ensures
        phases[i] is Finished,
        i == events.len(),
{
    let k = i - 1;
    assert(checkout_step(phases[k], user_id, events[k], phases[k + 1], actions[k + 1]));
    if i < events.len() {
        assert(checkout_awaits(phases[i], events[i]));
    }
}

/// Law: a successful checkout's order costs what the loaded cart cost.
pub proof fn law_order_total_is_cart_total(
    user_id: UserId,
    phases: Seq<CheckoutPhase>,
    events: Seq<CheckoutEvent>,
    actions: Seq<CheckoutAction>,
    i: int,
)
    requires
        checkout_run(user_id, phases, events, actions),
        0 <= i <= events.len(),
        actions[i] matches CheckoutAction::Finish { result: Ok(_) },
    ensures
        actions[i] matches CheckoutAction::Finish { result: Ok(order) } && order.total_cents@
            == crate::cart::spec_cart_total(loaded(events, i)),
        actions[i] matches CheckoutAction::Finish { result: Ok(order) } && order.user_id
            == user_id,
{
    let k = i - 1;
    assert(checkout_step(phases[k], user_id, events[k], phases[k + 1], actions[k + 1]));
    lemma_run_invariant(user_id, phases, events, actions, k);
    if let CheckoutPhase::Committing { order } = phases[k] {
        let done = confirmed(phases, events, k);
        let items = loaded(events, k);
        assert(loaded(events, i) == items);
        crate::order::law_snapshot_preserves_total(done, order.lines@);
        assert(crate::cart::line_totals(done) =~= crate::cart::item_totals(items));
    }
}

/// An order looked up by id and owner; absence is `NotFound` for that id, whether
/// the order does not exist or belongs to someone else.
pub fn found_order(order_id: &OrderId, found: Option<Order>) -> (r: Result<Order, OrderLookupError>)
    ensures
        match found {
            Some(o) => r == Ok::<Order, OrderLookupError>(o),
            None => r == Err::<Order, OrderLookupError>(OrderLookupError::NotFound { order_id: *order_id }),
        },
{
    match found {
        Some(o) => Ok(o),
        None => Err(OrderLookupError::NotFound { order_id: order_id.clone() }),
    }
}

} // verus!
