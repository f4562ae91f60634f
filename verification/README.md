# ecommerce

A small shop backend — catalog, carts, checkout, accounts — whose core is a
Verus-verified library.

## Layout

- `src/` — the verified library.
  - `money`, `cart`, `catalog`, `order`, `user`, `text`: the domain types, their
    validation, pricing, and the category forest.
  - `rows`: flat storage rows and the only way from them to domain values, plus
    the rows an order or a user is written as.
  - `hasher`, `ids`, `clock`: password hashing (scrypt), identifiers (UUID v4) and
    time, behind small trusted wrappers.
  - `ports`: the effect interfaces and the stock-reservation decision.
  - `workflows`: checkout, registration and login as decision machines (each step
    takes what the last effect returned and names the next effect), and the
    decisions of the catalog, cart and order look-ups.
  - `api`: how each failure is answered over HTTP, bearer-token parsing, and the
    request and response shapes.
- `tests/` — tests of the library.
- `app/` — the HTTP service: axum handlers, SQLite repositories (sqlx), the async
  loops that drive the decision machines, and the JSON shapes.

The service reads `PORT` and `DATABASE_URL` at startup.
