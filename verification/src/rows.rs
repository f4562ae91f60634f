//! The boundary with storage: flat rows as the store holds them, and the only way
//! across into domain values. Every refusal becomes `RepoError::Corrupt`, naming
//! the column that failed.
use vstd::prelude::*;

use crate::cart::{CartLine, Quantity, QuantityError};
use crate::catalog::{
    spec_validated, Category, CategoryId, CategoryView, DisplayName, Product, ProductId,
    ProductView, Sku, Slug,
};
use crate::errors::RepoError;
use crate::money::{Cents, MoneyError};
use crate::order::{spec_order_total, NonEmpty, Order, OrderId, OrderLine, OrderLineView, OrderView};
use crate::text::{push_str, spec_text_error_message, string_of, CaseMap, TextError};
use crate::user::{Email, PasswordHash, User, UserId, UserView, UtcTimestamp};

verus! {

/// A `products` row.
#[derive(Debug)]
pub struct ProductRow {
    pub id: String,
    pub sku: String,
    pub name: String,
    pub description: String,
    pub price_cents: i64,
    pub category_id: String,
    pub stock: i64,
}

/// A `categories` row.
#[derive(Debug)]
pub struct CategoryRow {
    pub id: String,
    pub name: String,
    pub slug: String,
    pub parent_id: Option<String>,
}

/// A `users` row.
#[derive(Debug)]
pub struct UserRow {
    pub id: String,
    pub email: String,
    pub password_hash: String,
    pub created_at: UtcTimestamp,
}

/// A cart item: a product joined to a quantity.
#[derive(Debug)]
pub struct CartItemRow {
    pub product: ProductRow,
    pub quantity: i64,
}

/// An `orders` row.
#[derive(Debug)]
pub struct OrderRow {
    pub id: String,
    pub user_id: String,
    pub total_cents: i64,
    pub placed_at: UtcTimestamp,
}

/// An `order_lines` row.
#[derive(Debug)]
pub struct OrderLineRow {
    pub order_id: String,
    pub product_id: String,
    pub name: String,
    pub unit_price_cents: i64,
    pub quantity: i64,
}

// ---------------------------------------------------------------------------
// Specifications
// ---------------------------------------------------------------------------

/// The message `u32::try_from` gives for a value out of range.
pub open spec fn out_of_range_message() -> Seq<char> {
    "out of range integral type conversion attempted"@
}

/// Why a stored order total is refused: a total is derived from the lines, never
/// taken on trust.
pub open spec fn total_mismatch_message() -> Seq<char> {
    "does not match the order's lines"@
}

/// `field: reason`, the shape of every corruption message.
pub open spec fn corrupt_message(field: Seq<char>, reason: Seq<char>) -> Seq<char> {
    field + ": "@ + reason
}

/// A validated text column: its value, or the corruption message naming the column.
pub open spec fn text_column(
    field: Seq<char>,
    kind_name: Seq<char>,
    raw: Seq<char>,
    case: CaseMap,
    max: nat,
) -> Result<Seq<char>, Seq<char>> {
    match spec_validated(raw, case, max) {
        Ok(v) => Ok(v),
        Err(e) => Err(corrupt_message(field, spec_text_error_message(kind_name, max, e))),
    }
}

/// A money column.
pub open spec fn money_column(field: Seq<char>, raw: i64) -> Result<u32, Seq<char>> {
    if raw < 0 {
        Err(corrupt_message(field, MoneyError::Negative(raw).spec_message()))
    } else if raw > u32::MAX {
        Err(corrupt_message(field, MoneyError::Overflow(raw).spec_message()))
    } else {
        Ok(raw as u32)
    }
}

/// An unsigned 32-bit column.
pub open spec fn u32_column(field: Seq<char>, raw: i64) -> Result<u32, Seq<char>> {
    if 0 <= raw <= u32::MAX {
        Ok(raw as u32)
    } else {
        Err(corrupt_message(field, out_of_range_message()))
    }
}

/// A quantity column: first an unsigned 32-bit value, then within 1..=99.
pub open spec fn quantity_column(field: Seq<char>, raw: i64) -> Result<u32, Seq<char>> {
    match u32_column(field, raw) {
        Err(m) => Err(m),
        Ok(q) => if q < 1 {
            Err(corrupt_message(field, QuantityError::GreaterOrEqualViolated.spec_message()))
        } else if q > 99 {
            Err(corrupt_message(field, QuantityError::LessOrEqualViolated.spec_message()))
        } else {
            Ok(q)
        },
    }
}

/// What a product row becomes; columns are checked in declaration order.
pub open spec fn spec_product_from_row(row: ProductRow) -> Result<ProductView, Seq<char>> {
    match text_column("products.id"@, "ProductId"@, row.id@, CaseMap::Keep, 64) {
        Err(m) => Err(m),
        Ok(id) => match text_column("products.sku"@, "Sku"@, row.sku@, CaseMap::Upper, 32) {
            Err(m) => Err(m),
            Ok(sku) => match text_column(
                "products.name"@,
                "DisplayName"@,
                row.name@,
                CaseMap::Keep,
                200,
            ) {
                Err(m) => Err(m),
                Ok(name) => match money_column("products.price_cents"@, row.price_cents) {
                    Err(m) => Err(m),
                    Ok(price) => match text_column(
                        "products.category_id"@,
                        "CategoryId"@,
                        row.category_id@,
                        CaseMap::Keep,
                        64,
                    ) {
                        Err(m) => Err(m),
                        Ok(category_id) => match u32_column("products.stock"@, row.stock) {
                            Err(m) => Err(m),
                            Ok(stock) => Ok(
                                ProductView {
                                    id,
                                    sku,
                                    name,
                                    description: row.description@,
                                    price_cents: price,
                                    category_id,
                                    stock,
                                },
                            ),
                        },
                    },
                },
            },
        },
    }
}

/// What a category row becomes.
pub open spec fn spec_category_from_row(row: CategoryRow) -> Result<CategoryView, Seq<char>> {
    match text_column("categories.id"@, "CategoryId"@, row.id@, CaseMap::Keep, 64) {
        Err(m) => Err(m),
        Ok(id) => match text_column("categories.name"@, "DisplayName"@, row.name@, CaseMap::Keep, 200) {
            Err(m) => Err(m),
            Ok(name) => match text_column("categories.slug"@, "Slug"@, row.slug@, CaseMap::Lower, 64) {
                Err(m) => Err(m),
                Ok(slug) => match row.parent_id {
                    None => Ok(CategoryView { id, name, slug, parent_id: None }),
                    Some(p) => match text_column(
                        "categories.parent_id"@,
                        "CategoryId"@,
                        p@,
                        CaseMap::Keep,
                        64,
                    ) {
                        Err(m) => Err(m),
                        Ok(parent) => Ok(CategoryView { id, name, slug, parent_id: Some(parent) }),
                    },
                },
            },
        },
    }
}

/// What a user row becomes.
pub open spec fn spec_user_from_row(row: UserRow) -> Result<UserView, Seq<char>> {
    match text_column("users.id"@, "UserId"@, row.id@, CaseMap::Keep, 64) {
        Err(m) => Err(m),
        Ok(id) => match crate::user::spec_email(row.email@) {
            Err(e) => Err(corrupt_message("users.email"@, spec_text_error_message("Email"@, 254, e))),
            Ok(email) => match crate::text::spec_check_len(row.password_hash@, 512) {
                Some(e) => Err(
                    corrupt_message(
                        "users.password_hash"@,
                        spec_text_error_message("PasswordHash"@, 512, e),
                    ),
                ),
                None => Ok(
                    UserView {
                        id,
                        email,
                        password_hash: row.password_hash@,
                        created_at: row.created_at,
                    },
                ),
            },
        },
    }
}

/// What an order line row becomes.
pub open spec fn spec_line_from_row(row: OrderLineRow) -> Result<OrderLineView, Seq<char>> {
    match text_column("order_lines.product_id"@, "ProductId"@, row.product_id@, CaseMap::Keep, 64) {
        Err(m) => Err(m),
        Ok(product_id) => match text_column(
            "order_lines.name"@,
            "DisplayName"@,
            row.name@,
            CaseMap::Keep,
            200,
        ) {
            Err(m) => Err(m),
            Ok(name) => match money_column("order_lines.unit_price_cents"@, row.unit_price_cents) {
                Err(m) => Err(m),
                Ok(price) => match quantity_column("order_lines.quantity"@, row.quantity) {
                    Err(m) => Err(m),
                    Ok(q) => Ok(
                        OrderLineView { product_id, name, unit_price_cents: price, quantity: q },
                    ),
                },
            },
        },
    }
}

/// All line rows, each tagged with its raw order id; the first failing row decides the error.
pub open spec fn spec_lines(rows: Seq<OrderLineRow>) -> Result<Seq<(Seq<char>, OrderLineView)>, Seq<char>>
    decreases rows.len(),
{
    if rows.len() == 0 {
        Ok(Seq::empty())
    } else {
        match spec_lines(rows.drop_last()) {
            Err(m) => Err(m),
            Ok(ls) => match spec_line_from_row(rows.last()) {
                Err(m) => Err(m),
                Ok(l) => Ok(ls.push((rows.last().order_id@, l))),
            },
        }
    }
}

/// The lines tagged with `order_id`, in order.
pub open spec fn own_lines(lines: Seq<(Seq<char>, OrderLineView)>, order_id: Seq<char>) -> Seq<OrderLineView>
    decreases lines.len(),
{
    if lines.len() == 0 {
        Seq::empty()
    } else if lines.last().0 == order_id {
        own_lines(lines.drop_last(), order_id).push(lines.last().1)
    } else {
        own_lines(lines.drop_last(), order_id)
    }
}

/// What an order row becomes, given all the lines.
pub open spec fn spec_order_from_row(row: OrderRow, lines: Seq<(Seq<char>, OrderLineView)>) -> Result<OrderView, Seq<char>> {
    let own = own_lines(lines, row.id@);
    if own.len() == 0 {
        Err("order "@ + row.id@ + " has no lines"@)
    } else {
        match text_column("orders.id"@, "OrderId"@, row.id@, CaseMap::Keep, 64) {
            Err(m) => Err(m),
            Ok(id) => match text_column("orders.user_id"@, "UserId"@, row.user_id@, CaseMap::Keep, 64) {
                Err(m) => Err(m),
                Ok(user_id) => match money_column("orders.total_cents"@, row.total_cents) {
                    Err(m) => Err(m),
                    Ok(total) => if total != crate::order::lines_total(own) {
                        Err(corrupt_message("orders.total_cents"@, total_mismatch_message()))
                    } else {
                        Ok(
                            OrderView {
                                id,
                                user_id,
                                lines: own,
                                total_cents: total,
                                placed_at: row.placed_at,
                            },
                        )
                    },
                },
            },
        }
    }
}

/// All order rows; the first failing row decides the error.
pub open spec fn spec_orders(rows: Seq<OrderRow>, lines: Seq<(Seq<char>, OrderLineView)>) -> Result<Seq<OrderView>, Seq<char>>
    decreases rows.len(),
{
    if rows.len() == 0 {
        Ok(Seq::empty())
    } else {
        match spec_orders(rows.drop_last(), lines) {
            Err(m) => Err(m),
            Ok(os) => match spec_order_from_row(rows.last(), lines) {
                Err(m) => Err(m),
                Ok(o) => Ok(os.push(o)),
            },
        }
    }
}

/// What `assemble_orders` returns: line rows are parsed first, then orders in turn.
pub open spec fn spec_assemble(orders: Seq<OrderRow>, lines: Seq<OrderLineRow>) -> Result<Seq<OrderView>, Seq<char>> {
    match spec_lines(lines) {
        Err(m) => Err(m),
        Ok(ls) => spec_orders(orders, ls),
    }
}

/// The view of a conversion result: `Corrupt` messages as text.
pub open spec fn converted<T: View>(r: Result<T, RepoError>) -> Result<T::V, Seq<char>> {
    match r {
        Ok(v) => Ok(v@),
        Err(RepoError::Corrupt(m)) => Err(m@),
        Err(RepoError::Unavailable(m)) => Err(m@),
    }
}

// ---------------------------------------------------------------------------
// Conversions
// ---------------------------------------------------------------------------

/// `RepoError::Corrupt("field: reason")`.
fn corrupt(field: &str, reason: String) -> (e: RepoError)
    ensures
        e is Corrupt,
        e->Corrupt_0@ == corrupt_message(field@, reason@),
{
    let mut m = string_of(field);
    push_str(&mut m, &string_of(": "));
    push_str(&mut m, &reason);
    RepoError::Corrupt(m)
}

fn money_from(field: &str, raw: i64) -> (r: Result<Cents, RepoError>)
    ensures
        converted(r) == money_column(field@, raw),
        r is Ok || r->Err_0 is Corrupt,
{
    match Cents::try_from_i64(raw) {
        Ok(c) => Ok(c),
        Err(e) => Err(corrupt(field, e.message())),
    }
}

fn u32_from(field: &str, raw: i64) -> (r: Result<u32, RepoError>)
    ensures
        match r {
            Ok(v) => u32_column(field@, raw) == Ok::<u32, Seq<char>>(v),
            Err(RepoError::Corrupt(m)) => u32_column(field@, raw) == Err::<u32, Seq<char>>(m@),
            Err(RepoError::Unavailable(_)) => false,
        },
{
    if 0 <= raw && raw <= 4294967295i64 {
        Ok(raw as u32)
    } else {
        Err(corrupt(field, string_of("out of range integral type conversion attempted")))
    }
}

fn quantity_from(field: &str, raw: i64) -> (r: Result<Quantity, RepoError>)
    ensures
        converted(r) == quantity_column(field@, raw),
        r is Ok || r->Err_0 is Corrupt,
{
    match u32_from(field, raw) {
        Err(e) => Err(e),
        Ok(q) => match Quantity::try_new(q) {
            Ok(quantity) => Ok(quantity),
            Err(e) => Err(corrupt(field, e.message())),
        },
    }
}

pub fn product_from_row(row: ProductRow) -> (r: Result<Product, RepoError>)
    ensures
        converted(r) == spec_product_from_row(row),
        r is Ok || r->Err_0 is Corrupt,
{
    let id = match ProductId::try_new(row.id.as_str()) {
        Ok(v) => v,
        Err(e) => return Err(corrupt("products.id", ProductId::error_message(e))),
    };
    let sku = match Sku::try_new(row.sku.as_str()) {
        Ok(v) => v,
        Err(e) => return Err(corrupt("products.sku", Sku::error_message(e))),
    };
    let name = match DisplayName::try_new(row.name.as_str()) {
        Ok(v) => v,
        Err(e) => return Err(corrupt("products.name", DisplayName::error_message(e))),
    };
    let price_cents = match money_from("products.price_cents", row.price_cents) {
        Ok(v) => v,
        Err(e) => return Err(e),
    };
    let category_id = match CategoryId::try_new(row.category_id.as_str()) {
        Ok(v) => v,
        Err(e) => return Err(corrupt("products.category_id", CategoryId::error_message(e))),
    };
    let stock = match u32_from("products.stock", row.stock) {
        Ok(v) => v,
        Err(e) => return Err(e),
    };
    Ok(Product { id, sku, name, description: row.description, price_cents, category_id, stock })
}

pub fn category_from_row(row: CategoryRow) -> (r: Result<Category, RepoError>)
    ensures
        converted(r) == spec_category_from_row(row),
        r is Ok || r->Err_0 is Corrupt,
{
    let id = match CategoryId::try_new(row.id.as_str()) {
        Ok(v) => v,
        Err(e) => return Err(corrupt("categories.id", CategoryId::error_message(e))),
    };
    let name = match DisplayName::try_new(row.name.as_str()) {
        Ok(v) => v,
        Err(e) => return Err(corrupt("categories.name", DisplayName::error_message(e))),
    };
    let slug = match Slug::try_new(row.slug.as_str()) {
        Ok(v) => v,
        Err(e) => return Err(corrupt("categories.slug", Slug::error_message(e))),
    };
    let parent_id = match &row.parent_id {
        None => None,
        Some(p) => match CategoryId::try_new(p.as_str()) {
            Ok(v) => Some(v),
            Err(e) => return Err(corrupt("categories.parent_id", CategoryId::error_message(e))),
        },
    };
    Ok(Category { id, name, slug, parent_id })
}

pub fn user_from_row(row: UserRow) -> (r: Result<User, RepoError>)
    ensures
        converted(r) == spec_user_from_row(row),
        r is Ok || r->Err_0 is Corrupt,
{
    let id = match UserId::try_new(row.id.as_str()) {
        Ok(v) => v,
        Err(e) => return Err(corrupt("users.id", UserId::error_message(e))),
    };
    let email = match Email::try_new(row.email.as_str()) {
        Ok(v) => v,
        Err(e) => return Err(corrupt("users.email", Email::error_message(e))),
    };
    let password_hash = match PasswordHash::try_new(row.password_hash.as_str()) {
        Ok(v) => v,
        Err(e) => return Err(corrupt("users.password_hash", PasswordHash::error_message(e))),
    };
    Ok(User { id, email, password_hash, created_at: row.created_at })
}

/// What a cart item row becomes: the quantity is checked before the product.
pub open spec fn spec_cart_item_from_row(row: CartItemRow) -> Result<(ProductView, u32), Seq<char>> {
    match quantity_column("cart_items.quantity"@, row.quantity) {
        Err(m) => Err(m),
        Ok(q) => match spec_product_from_row(row.product) {
            Err(m) => Err(m),
            Ok(p) => Ok((p, q)),
        },
    }
}

/// The view of a converted cart item.
pub open spec fn converted_item(r: Result<(Product, Quantity), RepoError>) -> Result<(ProductView, u32), Seq<char>> {
    match r {
        Ok(pq) => Ok((pq.0@, pq.1@)),
        Err(RepoError::Corrupt(m)) => Err(m@),
        Err(RepoError::Unavailable(m)) => Err(m@),
    }
}

/// A cart item row becomes a product and a quantity.
pub fn cart_item_from_row(row: CartItemRow) -> (r: Result<(Product, Quantity), RepoError>)
    ensures
        converted_item(r) == spec_cart_item_from_row(row),
        r is Ok || r->Err_0 is Corrupt,
{
    let quantity = match quantity_from("cart_items.quantity", row.quantity) {
        Ok(q) => q,
        Err(e) => return Err(e),
    };
    match product_from_row(row.product) {
        Ok(p) => Ok((p, quantity)),
        Err(e) => Err(e),
    }
}

pub fn order_line_from_row(row: OrderLineRow) -> (r: Result<OrderLine, RepoError>)
    ensures
        converted(r) == spec_line_from_row(row),
        r is Ok || r->Err_0 is Corrupt,
{
    order_line_from(&row)
}

fn order_line_from(row: &OrderLineRow) -> (r: Result<OrderLine, RepoError>)
    ensures
        converted(r) == spec_line_from_row(*row),
        r is Ok || r->Err_0 is Corrupt,
{
    let product_id = match ProductId::try_new(row.product_id.as_str()) {
        Ok(v) => v,
        Err(e) => return Err(corrupt("order_lines.product_id", ProductId::error_message(e))),
    };
    let name = match DisplayName::try_new(row.name.as_str()) {
        Ok(v) => v,
        Err(e) => return Err(corrupt("order_lines.name", DisplayName::error_message(e))),
    };
    let unit_price_cents = match money_from("order_lines.unit_price_cents", row.unit_price_cents) {
        Ok(v) => v,
        Err(e) => return Err(e),
    };
    let quantity = match quantity_from("order_lines.quantity", row.quantity) {
        Ok(v) => v,
        Err(e) => return Err(e),
    };
    Ok(OrderLine { product_id, name, unit_price_cents, quantity })
}

/// The view of tagged lines.
pub open spec fn tagged_view(lines: Seq<(String, OrderLine)>) -> Seq<(Seq<char>, OrderLineView)> {
    lines.map_values(|p: (String, OrderLine)| (p.0@, p.1@))
}

proof fn lemma_lines_error_propagates(rows: Seq<OrderLineRow>, k: int)
    requires
        0 <= k <= rows.len(),
        spec_lines(rows.subrange(0, k)) is Err,
    ensures
        spec_lines(rows) == spec_lines(rows.subrange(0, k)),
    decreases rows.len() - k,
{
    if k < rows.len() {
        assert(rows.subrange(0, k + 1).drop_last() =~= rows.subrange(0, k));
        assert(spec_lines(rows.subrange(0, k + 1)) == spec_lines(rows.subrange(0, k)));
        lemma_lines_error_propagates(rows, k + 1);
    } else {
        assert(rows.subrange(0, k) =~= rows);
    }
}

proof fn lemma_orders_error_propagates(
    rows: Seq<OrderRow>,
    lines: Seq<(Seq<char>, OrderLineView)>,
    k: int,
)
    requires
        0 <= k <= rows.len(),
        spec_orders(rows.subrange(0, k), lines) is Err,
    ensures
        spec_orders(rows, lines) == spec_orders(rows.subrange(0, k), lines),
    decreases rows.len() - k,
{
    if k < rows.len() {
        assert(rows.subrange(0, k + 1).drop_last() =~= rows.subrange(0, k));
        assert(spec_orders(rows.subrange(0, k + 1), lines) == spec_orders(rows.subrange(0, k), lines));
        lemma_orders_error_propagates(rows, lines, k + 1);
    } else {
        assert(rows.subrange(0, k) =~= rows);
    }
}

/// Reassembles orders from two flat result sets: every line row is parsed first,
/// then each order row takes the lines tagged with its id, in order.
/// An order row without lines is corruption, not an empty order.
pub fn assemble_orders(order_rows: Vec<OrderRow>, line_rows: Vec<OrderLineRow>) -> (r: Result<
    Vec<Order>,
    RepoError,
>)
    ensures
        match r {
            Ok(os) => spec_assemble(order_rows@, line_rows@) == Ok::<Seq<OrderView>, Seq<char>>(
                os@.map_values(|o: Order| o@),
            ),
            Err(RepoError::Corrupt(m)) => spec_assemble(order_rows@, line_rows@) == Err::<
                Seq<OrderView>,
                Seq<char>,
            >(m@),
            Err(RepoError::Unavailable(_)) => false,
        },
        r is Ok ==> forall|i: int|
            0 <= i < r->Ok_0@.len() ==> (#[trigger] r->Ok_0@[i]).total_cents@ == spec_order_total(
                r->Ok_0@[i].lines@,
            ),
{
    let mut lines: Vec<(String, OrderLine)> = Vec::new();
    let mut i: usize = 0;
    proof {
        assert(line_rows@.subrange(0, 0) =~= Seq::<OrderLineRow>::empty());
        assert(tagged_view(lines@) =~= Seq::<(Seq<char>, OrderLineView)>::empty());
    }
    while i < line_rows.len()
        invariant
            i <= line_rows@.len(),
            spec_lines(line_rows@.subrange(0, i as int)) == Ok::<
                Seq<(Seq<char>, OrderLineView)>,
                Seq<char>,
            >(tagged_view(lines@)),
        decreases line_rows.len() - i,
    {
        let row = &line_rows[i];
        proof {
            assert(line_rows@.subrange(0, i + 1).drop_last() =~= line_rows@.subrange(0, i as int));
        }
        match order_line_from(row) {
            Ok(line) => {
                let ghost before = lines@;
                lines.push((row.order_id.clone(), line));
                proof {
                    assert(tagged_view(lines@) =~= tagged_view(before).push(
                        (row.order_id@, line@),
                    ));
                }
            },
            Err(e) => {
                proof {
                    lemma_lines_error_propagates(line_rows@, i + 1);
                }
                return Err(e);
            },
        }
        i = i + 1;
    }
    proof {
        assert(line_rows@.subrange(0, line_rows@.len() as int) =~= line_rows@);
    }
    let ghost tagged = tagged_view(lines@);
    let mut orders: Vec<Order> = Vec::new();
    let mut k: usize = 0;
    proof {
        assert(order_rows@.subrange(0, 0) =~= Seq::<OrderRow>::empty());
        assert(orders@.map_values(|o: Order| o@) =~= Seq::<OrderView>::empty());
    }
    while k < order_rows.len()
        invariant
            k <= order_rows@.len(),
            tagged == tagged_view(lines@),
            spec_lines(line_rows@) == Ok::<Seq<(Seq<char>, OrderLineView)>, Seq<char>>(tagged),
            spec_orders(order_rows@.subrange(0, k as int), tagged) == Ok::<
                Seq<OrderView>,
                Seq<char>,
            >(orders@.map_values(|o: Order| o@)),
            forall|i: int|
                0 <= i < orders@.len() ==> (#[trigger] orders@[i]).total_cents@ == spec_order_total(
                    orders@[i].lines@,
                ),
        decreases order_rows.len() - k,
    {
        let row = &order_rows[k];
        proof {
            assert(order_rows@.subrange(0, k + 1).drop_last() =~= order_rows@.subrange(0, k as int));
        }
        match order_from_row(row, &lines) {
            Ok(order) => {
                let ghost before = orders@;
                orders.push(order);
                proof {
                    assert(orders@.map_values(|o: Order| o@) =~= before.map_values(|o: Order| o@).push(
                        order@,
                    ));
                }
            },
            Err(e) => {
                proof {
                    lemma_orders_error_propagates(order_rows@, tagged, k + 1);
                }
                return Err(e);
            },
        }
        k = k + 1;
    }
    proof {
        assert(order_rows@.subrange(0, order_rows@.len() as int) =~= order_rows@);
    }
    Ok(orders)
}

/// One order row, with the lines tagged with its id.
fn order_from_row(row: &OrderRow, lines: &Vec<(String, OrderLine)>) -> (r: Result<Order, RepoError>)
    ensures
        converted(r) == spec_order_from_row(*row, tagged_view(lines@)),
        r is Ok || r->Err_0 is Corrupt,
        r is Ok ==> r->Ok_0.total_cents@ == spec_order_total(r->Ok_0.lines@),
{
    let mut own: Vec<OrderLine> = Vec::new();
    let mut j: usize = 0;
    while j < lines.len()
        invariant
            j <= lines@.len(),
            own@.map_values(|l: OrderLine| l@) == own_lines(
                tagged_view(lines@.subrange(0, j as int)),
                row.id@,
            ),
        decreases lines.len() - j,
    {
        let ghost before = own@;
        proof {
            assert(tagged_view(lines@.subrange(0, j + 1)).drop_last() =~= tagged_view(
                lines@.subrange(0, j as int),
            ));
            assert(tagged_view(lines@.subrange(0, j + 1)).last() == (lines@[j as int].0@, lines@[j as int].1@));
        }
        if crate::text::same_text(&lines[j].0, &row.id) {
            own.push(lines[j].1.clone());
            proof {
                assert(own@.map_values(|l: OrderLine| l@) =~= before.map_values(|l: OrderLine| l@).push(
                    lines@[j as int].1@,
                ));
            }
        }
        j = j + 1;
    }
    proof {
        assert(lines@.subrange(0, lines@.len() as int) =~= lines@);
    }
    let ghost own_view = own@.map_values(|l: OrderLine| l@);
    let non_empty = match NonEmpty::try_from_vec(own) {
        Ok(ne) => ne,
        Err(_) => {
            let mut m = string_of("order ");
            push_str(&mut m, &row.id);
            push_str(&mut m, &string_of(" has no lines"));
            return Err(RepoError::Corrupt(m));
        },
    };
    let id = match OrderId::try_new(row.id.as_str()) {
        Ok(v) => v,
        Err(e) => return Err(corrupt("orders.id", OrderId::error_message(e))),
    };
    let user_id = match UserId::try_new(row.user_id.as_str()) {
        Ok(v) => v,
        Err(e) => return Err(corrupt("orders.user_id", UserId::error_message(e))),
    };
    let total_cents = match money_from("orders.total_cents", row.total_cents) {
        Ok(v) => v,
        Err(e) => return Err(e),
    };
    let derived = crate::order::order_total(non_empty.as_slice());
    proof {
        assert(non_empty@.map_values(|l: OrderLine| l@) =~= own_view);
        crate::order::lemma_order_total_by_views(non_empty@);
        reveal_strlit("does not match the order's lines");
    }
    if total_cents.get() != derived.get() {
        return Err(corrupt("orders.total_cents", string_of("does not match the order's lines")));
    }
    let order = Order { id, user_id, lines: non_empty, total_cents, placed_at: row.placed_at };
    proof {
        assert(order@.lines =~= own_view);
    }
    Ok(order)
}

/// The order of a look-up by id and owner: the first of the assembled orders, if
/// any; a row that does not parse is corruption.
pub fn first_order(order_rows: Vec<OrderRow>, line_rows: Vec<OrderLineRow>) -> (r: Result<Option<Order>, RepoError>)
    ensures
        match spec_assemble(order_rows@, line_rows@) {
            Ok(os) => r matches Ok(found) && (os.len() == 0 ==> found is None) && (os.len() > 0
                ==> (found matches Some(o) && o@ == os[0])),
            Err(m) => r matches Err(RepoError::Corrupt(e)) && e@ == m,
        },
        r matches Ok(Some(o)) ==> o.total_cents@ == spec_order_total(o.lines@),
{
    match assemble_orders(order_rows, line_rows) {
        Ok(orders) => {
            if orders.len() == 0 {
                Ok(None)
            } else {
                let mut orders = orders;
                let first = orders.remove(0);
                Ok(Some(first))
            }
        },
        Err(e) => Err(e),
    }
}

/// `row` is what storing the order `o` writes to `orders`.
pub open spec fn row_written_as(o: OrderView, row: OrderRow) -> bool {
    &&& row.id@ == o.id
    &&& row.user_id@ == o.user_id
    &&& row.total_cents == o.total_cents
    &&& row.placed_at == o.placed_at
}

/// `rows` are what storing the order `o` writes to `order_lines`, one per line, in
/// order, each tagged with the order's id.
pub open spec fn lines_written_as(o: OrderView, rows: Seq<OrderLineRow>) -> bool {
    &&& rows.len() == o.lines.len()
    &&& forall|i: int|
        0 <= i < rows.len() ==> {
            &&& (#[trigger] rows[i]).order_id@ == o.id
            &&& rows[i].product_id@ == o.lines[i].product_id
            &&& rows[i].name@ == o.lines[i].name
            &&& rows[i].unit_price_cents == o.lines[i].unit_price_cents
            &&& rows[i].quantity == o.lines[i].quantity
        }
}

/// The `orders` row that stores an order.
pub fn order_row(order: &Order) -> (row: OrderRow)
    ensures
        row_written_as(order@, row),
{
    OrderRow {
        id: string_of(order.id.as_ref()),
        user_id: string_of(order.user_id.as_ref()),
        total_cents: order.total_cents.as_i64(),
        placed_at: order.placed_at,
    }
}

/// The `order_lines` rows that store an order's lines, in order.
pub fn order_line_rows(order: &Order) -> (rows: Vec<OrderLineRow>)
    ensures
        lines_written_as(order@, rows@),
{
    let lines = order.lines.as_slice();
    let mut rows: Vec<OrderLineRow> = Vec::new();
    let mut i: usize = 0;
    while i < lines.len()
        invariant
            i <= lines@.len(),
            lines@ == order.lines@,
            rows@.len() == i,
            forall|j: int|
                0 <= j < i ==> {
                    &&& (#[trigger] rows@[j]).order_id@ == order.id@
                    &&& rows@[j].product_id@ == order.lines@[j].product_id@
                    &&& rows@[j].name@ == order.lines@[j].name@
                    &&& rows@[j].unit_price_cents == order.lines@[j].unit_price_cents@
                    &&& rows@[j].quantity == order.lines@[j].quantity@
                },
        decreases lines.len() - i,
    {
        let line = &lines[i];
        rows.push(OrderLineRow {
            order_id: string_of(order.id.as_ref()),
            product_id: string_of(line.product_id.as_ref()),
            name: string_of(line.name.as_ref()),
            unit_price_cents: line.unit_price_cents.as_i64(),
            quantity: line.quantity.into_inner() as i64,
        });
        i = i + 1;
    }
    rows
}

/// Text as a type that trims and bounds it keeps it: validating it again changes
/// nothing.
pub open spec fn canonical(v: Seq<char>, max: nat) -> bool {
    spec_validated(v, CaseMap::Keep, max) == Ok::<Seq<char>, TextError>(v)
}

/// An order as its types keep it: identifiers and names canonical, at least one
/// line, quantities from 1 to 99, and the total derived from the lines.
pub open spec fn order_is_canonical(o: OrderView) -> bool {
    &&& o.total_cents == crate::order::lines_total(o.lines)
    &&& canonical(o.id, 64)
    &&& canonical(o.user_id, 64)
    &&& o.lines.len() > 0
    &&& forall|i: int|
        0 <= i < o.lines.len() ==> {
            &&& canonical((#[trigger] o.lines[i]).product_id, 64)
            &&& canonical(o.lines[i].name, 200)
            &&& 1 <= o.lines[i].quantity <= 99
        }
}

proof fn lemma_written_lines_parse(o: OrderView, rows: Seq<OrderLineRow>, k: int)
    requires
        order_is_canonical(o),
        lines_written_as(o, rows),
        0 <= k <= rows.len(),
    ensures
        spec_lines(rows.take(k)) == Ok::<Seq<(Seq<char>, OrderLineView)>, Seq<char>>(
            o.lines.take(k).map_values(|l: OrderLineView| (o.id, l)),
        ),
    decreases k,
{
    if k == 0 {
        assert(rows.take(0) =~= Seq::<OrderLineRow>::empty());
        assert(o.lines.take(0).map_values(|l: OrderLineView| (o.id, l)) =~= Seq::empty());
    } else {
        lemma_written_lines_parse(o, rows, k - 1);
        assert(rows.take(k).drop_last() =~= rows.take(k - 1));
        assert(rows.take(k).last() == rows[k - 1]);
        let r = rows[k - 1];
        let l = o.lines[k - 1];
        assert(spec_line_from_row(r) == Ok::<OrderLineView, Seq<char>>(l));
        assert(o.lines.take(k).map_values(|l: OrderLineView| (o.id, l)) =~= o.lines.take(k - 1).map_values(
            |l: OrderLineView| (o.id, l),
        ).push((o.id, l)));
    }
}

proof fn lemma_own_lines_all(o: OrderView, k: int)
    requires
        0 <= k <= o.lines.len(),
    ensures
        own_lines(o.lines.take(k).map_values(|l: OrderLineView| (o.id, l)), o.id) == o.lines.take(k),
    decreases k,
{
    let tagged = o.lines.take(k).map_values(|l: OrderLineView| (o.id, l));
    if k == 0 {
        assert(tagged =~= Seq::empty());
        assert(o.lines.take(0) =~= Seq::<OrderLineView>::empty());
    } else {
        lemma_own_lines_all(o, k - 1);
        assert(tagged.drop_last() =~= o.lines.take(k - 1).map_values(|l: OrderLineView| (o.id, l)));
        assert(o.lines.take(k) =~= o.lines.take(k - 1).push(o.lines[k - 1]));
    }
}

/// Law: an order written as its `orders` row and its `order_lines` rows is read
/// back, by the same assembly every look-up uses, as exactly that order.
pub proof fn law_a_written_order_reads_back(o: OrderView, row: OrderRow, lines: Seq<OrderLineRow>)
    requires
        order_is_canonical(o),
        row_written_as(o, row),
        lines_written_as(o, lines),
    ensures
        spec_assemble(seq![row], lines) == Ok::<Seq<OrderView>, Seq<char>>(seq![o]),
{
    lemma_written_lines_parse(o, lines, lines.len() as int);
    assert(lines.take(lines.len() as int) =~= lines);
    assert(o.lines.take(o.lines.len() as int) =~= o.lines);
    lemma_own_lines_all(o, o.lines.len() as int);
    let tagged = o.lines.map_values(|l: OrderLineView| (o.id, l));
    assert(o.lines.take(o.lines.len() as int).map_values(|l: OrderLineView| (o.id, l)) =~= tagged);
    assert(spec_lines(lines) == Ok::<Seq<(Seq<char>, OrderLineView)>, Seq<char>>(tagged));
    assert(own_lines(tagged, row.id@) == o.lines);
    assert(spec_order_from_row(row, tagged) == Ok::<OrderView, Seq<char>>(o));
    assert(seq![row].drop_last() =~= Seq::<OrderRow>::empty());
    assert(seq![row].last() == row);
    assert(spec_orders(Seq::<OrderRow>::empty(), tagged) == Ok::<Seq<OrderView>, Seq<char>>(Seq::empty()));
    assert(Seq::<OrderView>::empty().push(o) =~= seq![o]);
    assert(spec_orders(seq![row], tagged) == Ok::<Seq<OrderView>, Seq<char>>(seq![o]));
}

/// An order's lines, each tagged with the order's id.
pub open spec fn tag_lines(o: OrderView) -> Seq<(Seq<char>, OrderLineView)> {
    o.lines.map_values(|l: OrderLineView| (o.id, l))
}

/// Line rows of several orders, written one order after the other.
pub open spec fn concat_groups(groups: Seq<Seq<OrderLineRow>>) -> Seq<OrderLineRow>
    decreases groups.len(),
{
    if groups.len() == 0 {
        Seq::empty()
    } else {
        concat_groups(groups.drop_last()) + groups.last()
    }
}

/// The tagged lines of several orders, one order after the other.
pub open spec fn tagged_orders(os: Seq<OrderView>) -> Seq<(Seq<char>, OrderLineView)>
    decreases os.len(),
{
    if os.len() == 0 {
        Seq::empty()
    } else {
        tagged_orders(os.drop_last()) + tag_lines(os.last())
    }
}

proof fn lemma_lines_concat(
    a: Seq<OrderLineRow>,
    b: Seq<OrderLineRow>,
    ta: Seq<(Seq<char>, OrderLineView)>,
    tb: Seq<(Seq<char>, OrderLineView)>,
)
    requires
        spec_lines(a) == Ok::<Seq<(Seq<char>, OrderLineView)>, Seq<char>>(ta),
        spec_lines(b) == Ok::<Seq<(Seq<char>, OrderLineView)>, Seq<char>>(tb),
    ensures
        spec_lines(a + b) == Ok::<Seq<(Seq<char>, OrderLineView)>, Seq<char>>(ta + tb),
    decreases b.len(),
{
    if b.len() == 0 {
        assert(a + b =~= a);
        assert(ta + tb =~= ta);
    } else {
        let b1 = b.drop_last();
        if let Ok(tb1) = spec_lines(b1) {
            lemma_lines_concat(a, b1, ta, tb1);
            assert((a + b).drop_last() =~= a + b1);
            assert((a + b).last() == b.last());
            if let Ok(l) = spec_line_from_row(b.last()) {
                assert((ta + tb1).push((b.last().order_id@, l)) =~= ta + tb);
            }
        }
    }
}

proof fn lemma_parse_written_orders(os: Seq<OrderView>, groups: Seq<Seq<OrderLineRow>>, n: int)
    requires
        groups.len() == os.len(),
        0 <= n <= os.len(),
        forall|i: int|
            0 <= i < os.len() ==> order_is_canonical(#[trigger] os[i]) && lines_written_as(
                os[i],
                groups[i],
            ),
    ensures
        spec_lines(concat_groups(groups.take(n))) == Ok::<Seq<(Seq<char>, OrderLineView)>, Seq<char>>(
            tagged_orders(os.take(n)),
        ),
    decreases n,
{
    if n == 0 {
        assert(groups.take(0) =~= Seq::<Seq<OrderLineRow>>::empty());
        assert(os.take(0) =~= Seq::<OrderView>::empty());
    } else {
        lemma_parse_written_orders(os, groups, n - 1);
        assert(groups.take(n).drop_last() =~= groups.take(n - 1));
        assert(os.take(n).drop_last() =~= os.take(n - 1));
        let o = os[n - 1];
        let g = groups[n - 1];
        assert(order_is_canonical(o) && lines_written_as(o, g));
        lemma_written_lines_parse(o, g, g.len() as int);
        assert(g.take(g.len() as int) =~= g);
        assert(o.lines.take(o.lines.len() as int) =~= o.lines);
        lemma_lines_concat(concat_groups(groups.take(n - 1)), g, tagged_orders(os.take(n - 1)), tag_lines(o));
    }
}

proof fn lemma_own_concat(
    a: Seq<(Seq<char>, OrderLineView)>,
    b: Seq<(Seq<char>, OrderLineView)>,
    x: Seq<char>,
)
    ensures
        own_lines(a + b, x) == own_lines(a, x) + own_lines(b, x),
    decreases b.len(),
{
    if b.len() == 0 {
        assert(a + b =~= a);
        assert(own_lines(b, x) =~= Seq::<OrderLineView>::empty());
        assert(own_lines(a, x) + own_lines(b, x) =~= own_lines(a, x));
    } else {
        lemma_own_concat(a, b.drop_last(), x);
        assert((a + b).drop_last() =~= a + b.drop_last());
        assert((a + b).last() == b.last());
        if b.last().0 == x {
            assert((own_lines(a, x) + own_lines(b.drop_last(), x)).push(b.last().1) =~= own_lines(a, x)
                + own_lines(b.drop_last(), x).push(b.last().1));
        }
    }
}

proof fn lemma_own_other(o: OrderView, x: Seq<char>, k: int)
    requires
        o.id != x,
        0 <= k <= o.lines.len(),
    ensures
        own_lines(o.lines.take(k).map_values(|l: OrderLineView| (o.id, l)), x).len() == 0,
    decreases k,
{
    let t = o.lines.take(k).map_values(|l: OrderLineView| (o.id, l));
    if k > 0 {
        lemma_own_other(o, x, k - 1);
        assert(t.drop_last() =~= o.lines.take(k - 1).map_values(|l: OrderLineView| (o.id, l)));
    }
}

proof fn lemma_own_in_orders(os: Seq<OrderView>, n: int, i: int)
    requires
        0 <= n <= os.len(),
        0 <= i < os.len(),
        forall|a: int, b: int| 0 <= a < b < os.len() ==> (#[trigger] os[a]).id != (#[trigger] os[b]).id,
    ensures
        own_lines(tagged_orders(os.take(n)), os[i].id) == (if i < n {
            os[i].lines
        } else {
            Seq::<OrderLineView>::empty()
        }),
    decreases n,
{
    let x = os[i].id;
    if n == 0 {
        assert(os.take(0) =~= Seq::<OrderView>::empty());
        assert(own_lines(Seq::<(Seq<char>, OrderLineView)>::empty(), x) =~= Seq::<OrderLineView>::empty());
    } else {
        lemma_own_in_orders(os, n - 1, i);
        assert(os.take(n).drop_last() =~= os.take(n - 1));
        let o = os[n - 1];
        lemma_own_concat(tagged_orders(os.take(n - 1)), tag_lines(o), x);
        assert(o.lines.take(o.lines.len() as int) =~= o.lines);
        if n - 1 == i {
            lemma_own_lines_all(o, o.lines.len() as int);
            assert(Seq::<OrderLineView>::empty() + o.lines =~= o.lines);
        } else {
            if n - 1 < i {
                assert(os[n - 1].id != os[i].id);
            } else {
                assert(os[i].id != os[n - 1].id);
            }
            lemma_own_other(o, x, o.lines.len() as int);
            assert(own_lines(tag_lines(o), x) =~= Seq::<OrderLineView>::empty());
            assert(own_lines(tagged_orders(os.take(n - 1)), x) + Seq::<OrderLineView>::empty()
                =~= own_lines(tagged_orders(os.take(n - 1)), x));
        }
    }
}

proof fn lemma_orders_all(os: Seq<OrderView>, rows: Seq<OrderRow>, t: Seq<(Seq<char>, OrderLineView)>, m: int)
    requires
        rows.len() == os.len(),
        0 <= m <= os.len(),
        forall|i: int| 0 <= i < os.len() ==> spec_order_from_row(#[trigger] rows[i], t) == Ok::<OrderView, Seq<char>>(os[i]),
    ensures
        spec_orders(rows.take(m), t) == Ok::<Seq<OrderView>, Seq<char>>(os.take(m)),
    decreases m,
{
    if m == 0 {
        assert(rows.take(0) =~= Seq::<OrderRow>::empty());
        assert(os.take(0) =~= Seq::<OrderView>::empty());
    } else {
        lemma_orders_all(os, rows, t, m - 1);
        assert(rows.take(m).drop_last() =~= rows.take(m - 1));
        assert(rows.take(m).last() == rows[m - 1]);
        assert(spec_order_from_row(rows[m - 1], t) == Ok::<OrderView, Seq<char>>(os[m - 1]));
        assert(os.take(m - 1).push(os[m - 1]) =~= os.take(m));
    }
}

/// Law: orders written side by side (each its `orders` row, and all their
/// `order_lines` rows one order after the other) are read back, by the assembly
/// every look-up uses, as exactly those orders, in order: each takes the lines of
/// its own id and no others.
pub proof fn law_written_orders_read_back(os: Seq<OrderView>, rows: Seq<OrderRow>, groups: Seq<Seq<OrderLineRow>>)
    requires
        rows.len() == os.len(),
        groups.len() == os.len(),
        forall|i: int|
            0 <= i < os.len() ==> order_is_canonical(#[trigger] os[i]) && row_written_as(os[i], rows[i])
                && lines_written_as(os[i], groups[i]),
        forall|a: int, b: int| 0 <= a < b < os.len() ==> (#[trigger] os[a]).id != (#[trigger] os[b]).id,
    ensures
        spec_assemble(rows, concat_groups(groups)) == Ok::<Seq<OrderView>, Seq<char>>(os),
{
    let n = os.len() as int;
    lemma_parse_written_orders(os, groups, n);
    assert(groups.take(n) =~= groups);
    assert(os.take(n) =~= os);
    let t = tagged_orders(os);
    assert forall|i: int| 0 <= i < os.len() implies spec_order_from_row(#[trigger] rows[i], t) == Ok::<
        OrderView,
        Seq<char>,
    >(os[i]) by {
        lemma_own_in_orders(os, n, i);
        assert(order_is_canonical(os[i]) && row_written_as(os[i], rows[i]));
        assert(own_lines(t, rows[i].id@) == os[i].lines);
    }
    lemma_orders_all(os, rows, t, n);
    assert(rows.take(n) =~= rows);
}

/// `row` is what storing the user `u` writes to `users`.
pub open spec fn user_row_written_as(u: UserView, row: UserRow) -> bool {
    &&& row.id@ == u.id
    &&& row.email@ == u.email
    &&& row.password_hash@ == u.password_hash
    &&& row.created_at == u.created_at
}

/// The `users` row that stores a user.
pub fn user_row(user: &User) -> (row: UserRow)
    ensures
        user_row_written_as(user@, row),
{
    UserRow {
        id: string_of(user.id.as_ref()),
        email: string_of(user.email.as_ref()),
        password_hash: string_of(user.password_hash.as_ref()),
        created_at: user.created_at,
    }
}

/// A user as its types keep it: a canonical id, an email that normalises to
/// itself, a stored hash of 1 to 512 characters.
pub open spec fn user_is_canonical(u: UserView) -> bool {
    &&& canonical(u.id, 64)
    &&& crate::user::spec_email(u.email) == Ok::<Seq<char>, TextError>(u.email)
    &&& crate::text::spec_check_len(u.password_hash, 512) is None
}

/// Law: a user written as a `users` row is read back as exactly that user.
pub proof fn law_a_written_user_reads_back(u: UserView, row: UserRow)
    requires
        user_is_canonical(u),
        user_row_written_as(u, row),
    ensures
        spec_user_from_row(row) == Ok::<UserView, Seq<char>>(u),
{
}

/// Law: a product row is read column for column. When it is accepted, the id, name
/// and category are its columns trimmed, the SKU its column trimmed and upper-cased,
/// the description its column as is, and the price and stock exactly its
/// `price_cents` and `stock` columns. It is accepted exactly when every text column
/// validates, the price lies in `0..=u32::MAX` and the stock does too.
pub proof fn law_product_rows_read_column_for_column(row: ProductRow)
    ensures
        spec_product_from_row(row) matches Ok(p) ==> {
            &&& p.id == crate::text::spec_trim(row.id@)
            &&& p.sku == crate::text::spec_to_uppercase(crate::text::spec_trim(row.sku@))
            &&& p.name == crate::text::spec_trim(row.name@)
            &&& p.description == row.description@
            &&& p.price_cents == row.price_cents
            &&& p.category_id == crate::text::spec_trim(row.category_id@)
            &&& p.stock == row.stock
        },
        spec_product_from_row(row) is Ok <==> {
            &&& spec_validated(row.id@, CaseMap::Keep, 64) is Ok
            &&& spec_validated(row.sku@, CaseMap::Upper, 32) is Ok
            &&& spec_validated(row.name@, CaseMap::Keep, 200) is Ok
            &&& 0 <= row.price_cents <= u32::MAX
            &&& spec_validated(row.category_id@, CaseMap::Keep, 64) is Ok
            &&& 0 <= row.stock <= u32::MAX
        },
{
}

/// Law: a category row is read column for column, its parent included. When it is
/// accepted, the id and name are their columns trimmed, the slug its column trimmed
/// and lower-cased, and the parent is absent exactly when the `parent_id` column is
/// NULL, and otherwise that column trimmed. It is accepted exactly when every
/// present column validates.
pub proof fn law_category_rows_read_column_for_column(row: CategoryRow)
    ensures
        spec_category_from_row(row) matches Ok(c) ==> {
            &&& c.id == crate::text::spec_trim(row.id@)
            &&& c.name == crate::text::spec_trim(row.name@)
            &&& c.slug == crate::text::spec_to_lowercase(crate::text::spec_trim(row.slug@))
            &&& (row.parent_id is None <==> c.parent_id is None)
            &&& (row.parent_id matches Some(p) ==> c.parent_id == Some(crate::text::spec_trim(p@)))
        },
        spec_category_from_row(row) is Ok <==> {
            &&& spec_validated(row.id@, CaseMap::Keep, 64) is Ok
            &&& spec_validated(row.name@, CaseMap::Keep, 200) is Ok
            &&& spec_validated(row.slug@, CaseMap::Lower, 64) is Ok
            &&& (row.parent_id matches Some(p) ==> spec_validated(p@, CaseMap::Keep, 64) is Ok)
        },
{
}

/// Law: a cart item row is read as its product row and its quantity column: when it
/// is accepted, the quantity is exactly the `quantity` column and the product is
/// what the product row reads as. It is accepted exactly when the quantity lies in
/// `1..=99` and the product row is accepted.
pub proof fn law_cart_items_keep_their_quantity(row: CartItemRow)
    ensures
        spec_cart_item_from_row(row) matches Ok((p, q)) ==> q == row.quantity
            && spec_product_from_row(row.product) == Ok::<ProductView, Seq<char>>(p),
        spec_cart_item_from_row(row) is Ok <==> (1 <= row.quantity <= 99
            && spec_product_from_row(row.product) is Ok),
{
}

/// The quantity of a cart line as the store holds it.
pub fn cart_line_quantity(line: &CartLine) -> (q: i64)
    ensures
        q == line.quantity@,
{
    line.quantity.into_inner() as i64
}

} // verus!
