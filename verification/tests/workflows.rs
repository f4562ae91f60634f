use ecommerce::cart::Quantity;
use ecommerce::catalog::{Category, CategoryId, DisplayName, Product, ProductId, Sku, Slug};
use ecommerce::clock::SystemClock;
use ecommerce::errors::{CartError, CheckoutError, LoginError, OrderLookupError, ProductError, RegisterError, RepoError};
use ecommerce::ids::UuidGen;
use ecommerce::money::Cents;
use ecommerce::order::{Order, OrderId};
use ecommerce::ports::{stock_reservation, Clock, IdGen, StockReservation};
use ecommerce::rows::{first_order, order_line_rows, order_row, OrderLineRow, OrderRow};
use ecommerce::text::TextError;
use ecommerce::user::{Email, PasswordHash, SessionToken, User, UserId, UtcTimestamp};
use ecommerce::workflows::auth::{AuthAction, AuthEvent, Login, Registration};
use ecommerce::workflows::cart::require_product;
use ecommerce::workflows::catalog::{browse_after_lookup, browse_start, found_product, BrowseQuery, BrowseStep};
use ecommerce::workflows::orders::{found_order, Checkout, CheckoutAction, CheckoutEvent};

fn product(id: &str, price: u32) -> Product {
    Product {
        id: ProductId::try_new(id).unwrap(),
        sku: Sku::try_new(&format!("sku-{id}")).unwrap(),
        name: DisplayName::try_new(&format!("Product {id}")).unwrap(),
        description: String::new(),
        price_cents: Cents::new(price),
        category_id: CategoryId::try_new("audio").unwrap(),
        stock: 5,
    }
}

fn qty(n: u32) -> Quantity {
    Quantity::try_new(n).unwrap()
}

fn user_id() -> UserId {
    UserId::try_new("u-1").unwrap()
}

fn begun_checkout() -> Checkout {
    let (checkout, action) = Checkout::start(user_id());
    assert!(matches!(action, CheckoutAction::Begin));
    let (checkout, action) = checkout.step(CheckoutEvent::Begun);
    assert!(matches!(action, CheckoutAction::LoadCart { ref user_id } if user_id.as_ref() == "u-1"));
    checkout
}

fn expect_finish(action: CheckoutAction) -> Result<Order, CheckoutError> {
    match action {
        CheckoutAction::Finish { result } => result,
        _ => panic!("expected the checkout to finish"),
    }
}

#[test]
fn checkout_of_an_empty_cart_finishes_with_cart_empty() {
    let checkout = begun_checkout();
    let (checkout, action) = checkout.step(CheckoutEvent::CartLoaded(vec![]));
    assert_eq!(expect_finish(action), Err(CheckoutError::CartEmpty));
    assert!(!checkout.awaits(&CheckoutEvent::Written));
}

#[test]
fn a_full_checkout_reserves_every_line_then_writes_and_commits() {
    let checkout = begun_checkout();
    let items = vec![(product("p-a", 1000), qty(2)), (product("p-b", 250), qty(4))];
    let (checkout, action) = checkout.step(CheckoutEvent::CartLoaded(items));
    match action {
        CheckoutAction::ReserveStock { product_id, quantity } => {
            assert_eq!(product_id.as_ref(), "p-a");
            assert_eq!(quantity.into_inner(), 2);
        },
        _ => panic!("expected a reservation"),
    }
    let (checkout, action) = checkout.step(CheckoutEvent::Reservation(StockReservation::Reserved));
    assert!(matches!(action, CheckoutAction::ReserveStock { ref product_id, .. } if product_id.as_ref() == "p-b"));
    let (checkout, action) = checkout.step(CheckoutEvent::Reservation(StockReservation::Reserved));
    assert!(matches!(action, CheckoutAction::DrawOrderId));
    let (checkout, action) = checkout.step(CheckoutEvent::OrderIdDrawn("o-1".to_owned()));
    assert!(matches!(action, CheckoutAction::ReadClock));
    let now = UtcTimestamp { secs: 1_700_000_000, nanos: 0 };
    let (checkout, action) = checkout.step(CheckoutEvent::ClockRead(now));
    let inserted = match action {
        CheckoutAction::InsertOrder { order } => order,
        _ => panic!("expected the order to be written"),
    };
    assert_eq!(inserted.id.as_ref(), "o-1");
    assert_eq!(inserted.user_id.as_ref(), "u-1");
    assert_eq!(inserted.total_cents, Cents::new(3000));
    assert_eq!(inserted.placed_at, now);
    assert_eq!(inserted.lines.len(), 2);
    let (checkout, action) = checkout.step(CheckoutEvent::Written);
    assert!(matches!(action, CheckoutAction::ClearCart { ref user_id } if user_id.as_ref() == "u-1"));
    let (checkout, action) = checkout.step(CheckoutEvent::Written);
    assert!(matches!(action, CheckoutAction::Commit));
    let (checkout, action) = checkout.step(CheckoutEvent::Written);
    assert_eq!(expect_finish(action), Ok(inserted));
    assert!(!checkout.awaits(&CheckoutEvent::Failed(RepoError::Unavailable("late".to_owned()))));
}

#[test]
fn insufficient_stock_ends_the_checkout_before_any_write() {
    let checkout = begun_checkout();
    let items = vec![(product("p-a", 1000), qty(1)), (product("p-headphones", 250), qty(50))];
    let (checkout, _) = checkout.step(CheckoutEvent::CartLoaded(items));
    let (checkout, _) = checkout.step(CheckoutEvent::Reservation(StockReservation::Reserved));
    let (checkout, action) =
        checkout.step(CheckoutEvent::Reservation(StockReservation::Insufficient { available: 3 }));
    assert_eq!(
        expect_finish(action),
        Err(CheckoutError::InsufficientStock {
            product_id: ProductId::try_new("p-headphones").unwrap(),
            requested: 50,
            available: 3,
        })
    );
    assert!(!checkout.awaits(&CheckoutEvent::Written));
}

#[test]
fn a_store_failure_ends_the_checkout_with_that_failure() {
    let checkout = begun_checkout();
    let failure = RepoError::Unavailable("connection reset".to_owned());
    let (_, action) = checkout.step(CheckoutEvent::Failed(failure));
    assert_eq!(
        expect_finish(action),
        Err(CheckoutError::Repo(RepoError::Unavailable("connection reset".to_owned())))
    );
}

#[test]
fn a_garbage_order_id_is_corruption() {
    let checkout = begun_checkout();
    let (checkout, _) = checkout.step(CheckoutEvent::CartLoaded(vec![(product("p-a", 1), qty(1))]));
    let (checkout, _) = checkout.step(CheckoutEvent::Reservation(StockReservation::Reserved));
    let (_, action) = checkout.step(CheckoutEvent::OrderIdDrawn("   ".to_owned()));
    let expected = format!("id generator produced garbage: {}", OrderId::error_message(TextError::NotEmptyViolated));
    assert_eq!(expect_finish(action), Err(CheckoutError::Repo(RepoError::Corrupt(expected))));
}

#[test]
fn a_checkout_ignores_events_it_does_not_wait_for() {
    let (checkout, _) = Checkout::start(user_id());
    assert!(checkout.awaits(&CheckoutEvent::Begun));
    assert!(!checkout.awaits(&CheckoutEvent::Written));
    assert!(!checkout.awaits(&CheckoutEvent::CartLoaded(vec![])));
}

fn stored_user(email: &str) -> User {
    User {
        id: UserId::try_new("u-9").unwrap(),
        email: Email::try_new(email).unwrap(),
        password_hash: PasswordHash::try_new("aa:bb").unwrap(),
        created_at: UtcTimestamp { secs: 5, nanos: 0 },
    }
}

#[test]
fn registration_creates_the_user_then_a_session() {
    let email = Email::try_new("Alice@Example.com").unwrap();
    let (reg, action) = Registration::start(email);
    assert!(matches!(action, AuthAction::FindUser { ref email } if email.as_ref() == "alice@example.com"));
    let (reg, action) = reg.step(AuthEvent::UserFound(None));
    assert!(matches!(action, AuthAction::DrawId));
    let (reg, action) = reg.step(AuthEvent::IdDrawn("u-new".to_owned()));
    assert!(matches!(action, AuthAction::HashPassword));
    let (reg, action) = reg.step(AuthEvent::Hashed(PasswordHash::try_new("01:02").unwrap()));
    assert!(matches!(action, AuthAction::ReadClock));
    let (reg, action) = reg.step(AuthEvent::ClockRead(UtcTimestamp { secs: 42, nanos: 7 }));
    match action {
        AuthAction::InsertUser { user } => {
            assert_eq!(user.id.as_ref(), "u-new");
            assert_eq!(user.email.as_ref(), "alice@example.com");
            assert_eq!(user.password_hash.as_ref(), "01:02");
            assert_eq!(user.created_at, UtcTimestamp { secs: 42, nanos: 7 });
        },
        _ => panic!("expected the user to be written"),
    }
    let (reg, action) = reg.step(AuthEvent::Written);
    assert!(matches!(action, AuthAction::DrawId));
    let (reg, action) = reg.step(AuthEvent::IdDrawn("tok-1".to_owned()));
    assert!(matches!(action, AuthAction::CreateSession { ref token, ref user_id }
        if token.as_ref() == "tok-1" && user_id.as_ref() == "u-new"));
    let (_, action) = reg.step(AuthEvent::Written);
    match action {
        AuthAction::Finish { result: Ok(session) } => {
            assert_eq!(session.token.as_ref(), "tok-1");
            assert_eq!(session.user_id.as_ref(), "u-new");
            assert_eq!(session.email.as_ref(), "alice@example.com");
        },
        _ => panic!("expected a session"),
    }
}

#[test]
fn registering_a_taken_email_fails_with_email_taken() {
    let (reg, _) = Registration::start(Email::try_new("bob@example.com").unwrap());
    let (_, action) = reg.step(AuthEvent::UserFound(Some(stored_user("bob@example.com"))));
    match action {
        AuthAction::Finish { result } => assert_eq!(
            result,
            Err(RegisterError::EmailTaken { email: Email::try_new("bob@example.com").unwrap() })
        ),
        _ => panic!("expected the registration to finish"),
    }
}

#[test]
fn a_garbage_session_token_is_corruption() {
    let (login, _) = Login::start(Email::try_new("bob@example.com").unwrap());
    let (login, _) = login.step(AuthEvent::UserFound(Some(stored_user("bob@example.com"))));
    let (login, _) = login.step(AuthEvent::Verified(true));
    let (_, action) = login.step(AuthEvent::IdDrawn("".to_owned()));
    let expected = format!(
        "id generator produced an invalid token: {}",
        SessionToken::error_message(TextError::NotEmptyViolated)
    );
    match action {
        AuthAction::Finish { result } => {
            assert_eq!(result, Err(LoginError::Repo(RepoError::Corrupt(expected))))
        },
        _ => panic!("expected the login to finish"),
    }
}

fn login_failure(events: Vec<AuthEvent>) -> Result<(), LoginError> {
    let (mut login, _) = Login::start(Email::try_new("bob@example.com").unwrap());
    for event in events {
        let (next, action) = login.step(event);
        if let AuthAction::Finish { result } = action {
            return result.map(|_| ());
        }
        login = next;
    }
    Ok(())
}

#[test]
fn wrong_password_and_unknown_email_end_alike() {
    let unknown = login_failure(vec![AuthEvent::UserFound(None)]);
    let wrong = login_failure(vec![
        AuthEvent::UserFound(Some(stored_user("bob@example.com"))),
        AuthEvent::Verified(false),
    ]);
    assert_eq!(unknown, Err(LoginError::InvalidCredentials));
    assert_eq!(unknown, wrong);
}

#[test]
fn a_login_checks_the_stored_hash_then_opens_a_session() {
    let (login, _) = Login::start(Email::try_new("bob@example.com").unwrap());
    let (login, action) = login.step(AuthEvent::UserFound(Some(stored_user("bob@example.com"))));
    assert!(matches!(action, AuthAction::VerifyPassword { ref stored } if stored.as_ref() == "aa:bb"));
    let (login, action) = login.step(AuthEvent::Verified(true));
    assert!(matches!(action, AuthAction::DrawId));
    let (login, _) = login.step(AuthEvent::IdDrawn("tok-2".to_owned()));
    let (_, action) = login.step(AuthEvent::Written);
    assert!(matches!(action, AuthAction::Finish { result: Ok(ref s) } if s.user_id.as_ref() == "u-9"));
}

#[test]
fn setting_an_unknown_product_fails_with_product_not_found() {
    let id = ProductId::try_new("p-none").unwrap();
    assert_eq!(require_product(&id, &None), Err(CartError::ProductNotFound { product_id: ProductId::try_new("p-none").unwrap() }));
    assert_eq!(require_product(&id, &Some(product("p-none", 1))), Ok(()));
}

#[test]
fn browsing_resolves_a_category_slug_first() {
    let query = BrowseQuery { search: Some("head".to_owned()), category_slug: Some("audio".to_owned()) };
    assert!(matches!(browse_start(&query), BrowseStep::FindCategory { ref slug } if slug == "audio"));
    let audio = Category {
        id: CategoryId::try_new("c-audio").unwrap(),
        name: DisplayName::try_new("Audio").unwrap(),
        slug: Slug::try_new("audio").unwrap(),
        parent_id: None,
    };
    match browse_after_lookup(&query, Some(audio)) {
        BrowseStep::List { filter } => {
            assert_eq!(filter.search.as_deref(), Some("head"));
            assert_eq!(filter.category_id.map(|c| c.into_inner()), Some("c-audio".to_owned()));
        },
        _ => panic!("expected a listing"),
    }
}

#[test]
fn an_unknown_category_yields_no_products_not_an_error() {
    let query = BrowseQuery { search: None, category_slug: Some("nope".to_owned()) };
    assert!(matches!(browse_after_lookup(&query, None), BrowseStep::NoProducts));
    let plain = BrowseQuery { search: None, category_slug: None };
    assert!(matches!(browse_start(&plain), BrowseStep::List { ref filter } if filter.search.is_none() && filter.category_id.is_none()));
}

#[test]
fn missing_products_and_orders_are_not_found() {
    let id = ProductId::try_new("p-1").unwrap();
    assert_eq!(found_product(&id, None), Err(ProductError::NotFound { product_id: ProductId::try_new("p-1").unwrap() }));
    let order_id = OrderId::try_new("o-404").unwrap();
    assert_eq!(found_order(&order_id, None), Err(OrderLookupError::NotFound { order_id: OrderId::try_new("o-404").unwrap() }));
}

#[test]
fn a_failed_reservation_reports_the_stock_there_is() {
    assert_eq!(stock_reservation(Some(2), None), StockReservation::Reserved);
    assert_eq!(stock_reservation(None, Some(3)), StockReservation::Insufficient { available: 3 });
    assert_eq!(stock_reservation(None, None), StockReservation::Insufficient { available: 0 });
    assert_eq!(stock_reservation(None, Some(-1)), StockReservation::Insufficient { available: 0 });
    assert_eq!(stock_reservation(None, Some(i64::MAX)), StockReservation::Insufficient { available: 0 });
}

#[test]
fn an_order_written_as_rows_reads_back() {
    let checkout = begun_checkout();
    let (checkout, _) = checkout.step(CheckoutEvent::CartLoaded(vec![(product("p-a", 1000), qty(2))]));
    let (checkout, _) = checkout.step(CheckoutEvent::Reservation(StockReservation::Reserved));
    let (checkout, _) = checkout.step(CheckoutEvent::OrderIdDrawn("o-7".to_owned()));
    let (_, action) = checkout.step(CheckoutEvent::ClockRead(UtcTimestamp { secs: 9, nanos: 0 }));
    let order = match action {
        CheckoutAction::InsertOrder { order } => order,
        _ => panic!("expected the order to be written"),
    };
    let row: OrderRow = order_row(&order);
    let lines: Vec<OrderLineRow> = order_line_rows(&order);
    assert_eq!(first_order(vec![row], lines), Ok(Some(order)));
    assert_eq!(first_order(vec![], vec![]), Ok(None));
}

#[test]
fn generated_ids_are_hyphenated_uuids_and_valid_ids() {
    let id = UuidGen.next();
    assert_eq!(id.len(), 36);
    assert_eq!(id.chars().nth(14), Some('4'));
    assert!(UserId::try_new(&id).is_ok());
    assert!(SessionToken::try_new(&id).is_ok());
    assert_ne!(UuidGen.next(), id);
}

#[test]
fn the_system_clock_reads_a_plausible_time() {
    let now = SystemClock.now();
    assert!(now.secs > 1_600_000_000);
    assert!(now.nanos < 2_000_000_000);
}

#[test]
fn a_user_written_as_a_row_reads_back() {
    let user = stored_user("carol@example.com");
    let row = ecommerce::rows::user_row(&user);
    assert_eq!(row.email, "carol@example.com");
    assert_eq!(ecommerce::rows::user_from_row(row), Ok(user));
}

#[test]
fn an_order_row_without_lines_is_corruption() {
    let row = OrderRow {
        id: "o-1".to_owned(),
        user_id: "u-1".to_owned(),
        total_cents: 0,
        placed_at: UtcTimestamp { secs: 0, nanos: 0 },
    };
    assert_eq!(first_order(vec![row], vec![]), Err(RepoError::Corrupt("order o-1 has no lines".to_owned())));
}

#[test]
fn a_stored_total_that_disagrees_with_the_lines_is_corruption() {
    let row = OrderRow {
        id: "o-1".to_owned(),
        user_id: "u-1".to_owned(),
        total_cents: 0,
        placed_at: UtcTimestamp { secs: 0, nanos: 0 },
    };
    let line = OrderLineRow {
        order_id: "o-1".to_owned(),
        product_id: "p-1".to_owned(),
        name: "Thing".to_owned(),
        unit_price_cents: 100,
        quantity: 1,
    };
    assert_eq!(
        first_order(vec![row], vec![line]),
        Err(RepoError::Corrupt("orders.total_cents: does not match the order's lines".to_owned()))
    );
}
