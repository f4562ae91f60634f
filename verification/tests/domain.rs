use ecommerce::cart::{make_cart_view, line_total, Quantity, QuantityError};
use ecommerce::catalog::{build_category_tree, Category, CategoryId, CategoryTree, DisplayName, Product, ProductId, Sku, Slug};
use ecommerce::money::{Cents, MoneyError};
use ecommerce::order::{order_total, to_order_lines, NonEmpty, Order, OrderDecodeError, OrderId, OrderLine};
use ecommerce::text::TextError;
use ecommerce::user::{Email, Password, UserId, UtcTimestamp};

fn category(id: &str, parent: Option<&str>) -> Category {
    Category {
        id: CategoryId::try_new(id).expect("valid test id"),
        name: DisplayName::try_new(id).expect("valid test name"),
        slug: Slug::try_new(id).expect("valid test slug"),
        parent_id: parent.map(|p| CategoryId::try_new(p).expect("valid test parent")),
    }
}

fn count_nodes(nodes: &[CategoryTree]) -> usize {
    nodes.iter().map(|n| 1 + count_nodes(&n.children)).sum()
}

fn collect_ids(nodes: &[CategoryTree], out: &mut Vec<String>) {
    for node in nodes {
        out.push(node.id.clone());
        collect_ids(&node.children, out);
    }
}

fn product(id: u32, price: u32) -> Product {
    Product {
        id: ProductId::try_new(&format!("p-{id}")).expect("valid id"),
        sku: Sku::try_new(&format!("sku-{id}")).expect("valid sku"),
        name: DisplayName::try_new(&format!("Product {id}")).expect("valid name"),
        description: String::new(),
        price_cents: Cents::new(price),
        category_id: CategoryId::try_new("cat").expect("valid category"),
        stock: 10,
    }
}

fn line(price: u32, qty: u32) -> OrderLine {
    OrderLine {
        product_id: ProductId::try_new("p-1").expect("valid"),
        name: DisplayName::try_new("Thing").expect("valid"),
        unit_price_cents: Cents::new(price),
        quantity: Quantity::try_new(qty).expect("in range"),
    }
}

#[test]
fn quantity_rejects_out_of_range_values() {
    assert!(Quantity::try_new(0).is_err());
    assert!(Quantity::try_new(100).is_err());
    assert!(Quantity::try_new(1).is_ok());
    assert!(Quantity::try_new(99).is_ok());
}

#[test]
fn an_empty_cart_totals_zero() {
    let view = make_cart_view(&[]);
    assert_eq!(view.total_cents, Cents::zero());
    assert!(view.lines.is_empty());
}

#[test]
fn nests_children_under_parents() {
    let cats = vec![
        category("electronics", None),
        category("laptops", Some("electronics")),
        category("audio", Some("electronics")),
        category("books", None),
    ];
    let tree = build_category_tree(&cats);

    assert_eq!(tree.len(), 2);
    let electronics = tree
        .iter()
        .find(|n| n.slug == "electronics")
        .expect("electronics is a root");
    let mut child_slugs: Vec<&str> = electronics.children.iter().map(|c| c.slug.as_str()).collect();
    child_slugs.sort_unstable();
    assert_eq!(child_slugs, vec!["audio", "laptops"]);
}

#[test]
fn a_missing_parent_makes_a_root() {
    let cats = vec![category("laptops", Some("nonexistent"))];
    assert_eq!(count_nodes(&build_category_tree(&cats)), 1);
}

#[test]
fn a_two_node_cycle_is_not_dropped() {
    let cats = vec![category("a", Some("b")), category("b", Some("a"))];
    assert_eq!(count_nodes(&build_category_tree(&cats)), 2);
}

#[test]
fn a_self_parenting_category_becomes_a_root() {
    let cats = vec![category("a", Some("a"))];
    assert_eq!(count_nodes(&build_category_tree(&cats)), 1);
}

#[test]
fn negative_amounts_are_rejected() {
    assert!(matches!(Cents::try_from_i64(-1), Err(MoneyError::Negative(-1))));
}

#[test]
fn oversized_amounts_are_rejected() {
    assert!(matches!(Cents::try_from_i64(i64::MAX), Err(MoneyError::Overflow(_))));
}

#[test]
fn an_empty_order_cannot_be_constructed() {
    let empty: Vec<OrderLine> = Vec::new();
    assert!(NonEmpty::try_from(empty).is_err());
}

#[test]
fn an_empty_line_list_cannot_be_deserialized() {
    // The invariant holds across the wire: decoding goes through `Order::from_parts`.
    let json = r#"{"id":"o-1","user_id":"u-1","lines":[],"total_cents":0,"placed_at":"2026-01-01T00:00:00Z"}"#;
    let value: serde_json::Value = serde_json::from_str(json).expect("well-formed JSON");
    let placed_at = chrono::DateTime::parse_from_rfc3339(value["placed_at"].as_str().unwrap()).unwrap();
    let lines: Vec<OrderLine> = value["lines"].as_array().unwrap().iter().map(|_| line(1, 1)).collect();
    let decoded = Order::from_parts(
        OrderId::try_new(value["id"].as_str().unwrap()).unwrap(),
        UserId::try_new(value["user_id"].as_str().unwrap()).unwrap(),
        lines,
        Cents::new(value["total_cents"].as_u64().unwrap() as u32),
        UtcTimestamp { secs: placed_at.timestamp(), nanos: placed_at.timestamp_subsec_nanos() },
    );
    assert_eq!(decoded.err(), Some(OrderDecodeError::NoLines));
}

#[test]
fn a_decoded_order_keeps_a_derived_total() {
    let id = || OrderId::try_new("o-1").unwrap();
    let user = || UserId::try_new("u-1").unwrap();
    let at = UtcTimestamp { secs: 0, nanos: 0 };
    let ok = Order::from_parts(id(), user(), vec![line(1000, 2), line(250, 4)], Cents::new(3000), at);
    assert_eq!(ok.map(|o| o.total_cents), Ok(Cents::new(3000)));
    let wrong = Order::from_parts(id(), user(), vec![line(1000, 2)], Cents::new(1), at);
    assert_eq!(wrong.err(), Some(OrderDecodeError::TotalMismatch));
}

#[test]
fn any_rearrangement_of_a_cart_keeps_its_total() {
    let items = vec![
        (product(1, 100), Quantity::try_new(1).unwrap()),
        (product(2, 7), Quantity::try_new(9).unwrap()),
        (product(3, 30), Quantity::try_new(4).unwrap()),
    ];
    let rotated = vec![items[1].clone(), items[2].clone(), items[0].clone()];
    assert_eq!(make_cart_view(&items).total_cents, make_cart_view(&rotated).total_cents);
}

#[test]
fn total_is_derived_from_lines_not_supplied() {
    let lines = NonEmpty::new(line(1000, 2), vec![line(250, 4)]);
    let order = Order::place(
        OrderId::try_new("o-1").expect("valid"),
        UserId::try_new("u-1").expect("valid"),
        lines,
        UtcTimestamp { secs: 0, nanos: 0 },
    );
    assert_eq!(order.total_cents, Cents::new(2000 + 1000));
}

#[test]
fn email_is_normalised_on_construction() {
    let email = Email::try_new("  Alice@Example.COM  ").expect("valid");
    assert_eq!(email.as_ref(), "alice@example.com");
}

#[test]
fn malformed_emails_are_rejected() {
    for bad in [
        "",
        "no-at-sign",
        "@example.com",
        "alice@",
        "alice@localhost",
        "two@at@example.com",
        "alice space@example.com",
        "alice@.com",
        "alice@example.",
    ] {
        assert!(Email::try_new(bad).is_err(), "should reject {bad:?}");
    }
}

#[test]
fn a_password_never_prints_its_contents() {
    let password = Password::try_from("correct horse battery staple".to_owned()).expect("long enough");
    let rendered = password.redacted();
    assert!(!rendered.contains("horse"), "leaked: {rendered}");
}

#[test]
fn short_passwords_are_rejected() {
    assert!(Password::try_from("short".to_owned()).is_err());
    assert!(Password::try_from("just long".to_owned()).is_ok());
}

// ---------------------------------------------------------------------------
// Further cases
// ---------------------------------------------------------------------------

#[test]
fn quantity_errors_name_the_bound() {
    assert_eq!(Quantity::try_new(0), Err(QuantityError::GreaterOrEqualViolated));
    assert_eq!(Quantity::try_new(100), Err(QuantityError::LessOrEqualViolated));
    assert_eq!(Quantity::try_new(42).map(|q| q.into_inner()), Ok(42));
}

#[test]
fn a_cart_total_is_the_sum_of_its_line_totals() {
    let items = vec![
        (product(1, 1250), Quantity::try_new(2).unwrap()),
        (product(2, 999), Quantity::try_new(3).unwrap()),
    ];
    let view = make_cart_view(&items);
    assert_eq!(view.lines.len(), 2);
    assert_eq!(view.lines[0].line_total_cents, Cents::new(2500));
    assert_eq!(view.lines[1].line_total_cents, Cents::new(2997));
    assert_eq!(view.total_cents, Cents::new(5497));
}

#[test]
fn reversing_a_cart_keeps_its_total() {
    let mut items = vec![
        (product(1, 100), Quantity::try_new(1).unwrap()),
        (product(2, 7), Quantity::try_new(9).unwrap()),
        (product(3, 30), Quantity::try_new(4).unwrap()),
    ];
    let forward = make_cart_view(&items).total_cents;
    items.reverse();
    assert_eq!(forward, make_cart_view(&items).total_cents);
    assert_eq!(forward, Cents::new(100 + 63 + 120));
}

#[test]
fn a_line_total_saturates_instead_of_wrapping() {
    let q = Quantity::try_new(2).unwrap();
    assert_eq!(line_total(Cents::new(u32::MAX), q), Cents::new(u32::MAX));
    assert_eq!(line_total(Cents::new(21), q), Cents::new(42));
}

#[test]
fn money_parses_exactly_the_u32_range() {
    assert_eq!(Cents::try_from_i64(0).map(Cents::get), Ok(0));
    assert_eq!(Cents::try_from_i64(i64::from(u32::MAX)).map(Cents::as_i64), Ok(i64::from(u32::MAX)));
    assert!(matches!(Cents::try_from_i64(i64::from(u32::MAX) + 1), Err(MoneyError::Overflow(_))));
}

#[test]
fn money_arithmetic_is_checked() {
    assert_eq!(Cents::new(3).checked_add(Cents::new(4)), Ok(Cents::new(7)));
    assert!(Cents::new(u32::MAX).checked_add(Cents::new(1)).is_err());
    assert_eq!(Cents::new(5).checked_mul(6), Ok(Cents::new(30)));
    assert!(Cents::new(u32::MAX).checked_mul(2).is_err());
    assert_eq!(Cents::sum(&[Cents::new(1), Cents::new(2), Cents::new(3)]), Cents::new(6));
    assert_eq!(Cents::sum(&[Cents::new(u32::MAX), Cents::new(1)]), Cents::new(u32::MAX));
}

#[test]
fn every_category_appears_exactly_once_even_with_cycles() {
    let cats = vec![
        category("c0", Some("c1")),
        category("c1", Some("c2")),
        category("c2", Some("c0")),
        category("c3", Some("c3")),
        category("c4", None),
        category("c5", Some("c4")),
        category("c6", Some("c9")),
    ];
    let tree = build_category_tree(&cats);
    assert_eq!(count_nodes(&tree), cats.len());
    let mut ids = Vec::new();
    collect_ids(&tree, &mut ids);
    ids.sort();
    ids.dedup();
    assert_eq!(ids.len(), cats.len());
}

#[test]
fn roots_come_first_in_input_order() {
    let cats = vec![category("b", None), category("x", Some("b")), category("a", None)];
    let tree = build_category_tree(&cats);
    assert_eq!(tree.len(), 2);
    assert_eq!(tree[0].id, "b");
    assert_eq!(tree[1].id, "a");
    assert_eq!(tree[0].children.len(), 1);
    assert_eq!(tree[0].children[0].id, "x");
}

#[test]
fn snapshotting_keeps_every_line_and_the_total() {
    let items = vec![
        (product(1, 1000), Quantity::try_new(2).unwrap()),
        (product(2, 250), Quantity::try_new(4).unwrap()),
    ];
    let view = make_cart_view(&items);
    let lines = NonEmpty::try_from(view.lines.clone()).expect("non-empty");
    let order_lines = to_order_lines(&lines);
    assert_eq!(order_lines.len(), 2);
    assert_eq!(order_lines.as_slice()[1].unit_price_cents, Cents::new(250));
    assert_eq!(order_total(order_lines.as_slice()), view.total_cents);
}

#[test]
fn identifiers_are_trimmed_and_bounded() {
    assert_eq!(ProductId::try_new("  p-1 ").map(|p| p.into_inner()), Ok("p-1".to_owned()));
    assert_eq!(ProductId::try_new("   ").err(), Some(TextError::NotEmptyViolated));
    assert_eq!(ProductId::try_new(&"x".repeat(65)).err(), Some(TextError::LenCharMaxViolated));
    assert_eq!(Sku::try_new(" ab-1 ").map(|s| s.into_inner()), Ok("AB-1".to_owned()));
    assert_eq!(Slug::try_new(" Home-Audio ").map(|s| s.into_inner()), Ok("home-audio".to_owned()));
}

#[test]
fn a_normalised_email_normalises_to_itself() {
    let once = Email::try_new("Bob@Example.com").expect("valid");
    let twice = Email::try_new(once.as_ref()).expect("already valid");
    assert_eq!(once, twice);
    let noisy = Email::try_new("  BOB@example.COM ").expect("valid");
    assert_eq!(once, noisy);
}

#[test]
fn a_non_empty_list_gives_back_its_elements() {
    let lines = NonEmpty::new(line(1, 1), vec![line(2, 2)]);
    assert_eq!(lines.first().unit_price_cents, Cents::new(1));
    assert!(!lines.is_empty());
    let v: Vec<OrderLine> = lines.into();
    assert_eq!(v.len(), 2);
    assert_eq!(v[1].quantity.into_inner(), 2);
}

#[test]
fn money_renders_as_units_and_hundredths() {
    assert_eq!(Cents::new(199900).display_string(), "1999.00");
    assert_eq!(Cents::new(5).display_string(), "0.05");
}

#[test]
fn a_sum_is_never_below_any_part() {
    let parts = [Cents::new(5), Cents::new(u32::MAX - 1), Cents::new(9)];
    let total = Cents::sum(&parts);
    for part in parts {
        assert!(total >= part);
    }
    assert_eq!(total, Cents::new(u32::MAX));
}

#[test]
fn children_and_grafts_come_in_input_order() {
    let cats = vec![
        category("electronics", None),
        category("laptops", Some("electronics")),
        category("audio", Some("electronics")),
        category("y", Some("x")),
        category("x", Some("y")),
        category("q", Some("p")),
        category("p", Some("q")),
    ];
    let tree = build_category_tree(&cats);
    let children: Vec<&str> = tree[0].children.iter().map(|c| c.id.as_str()).collect();
    assert_eq!(children, vec!["laptops", "audio"]);
    let grafts: Vec<&str> = tree[1..].iter().map(|t| t.id.as_str()).collect();
    assert_eq!(grafts, vec!["y", "q"]);
    assert_eq!(tree[1].children[0].id, "x");
}
