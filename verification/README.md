# marketplace_kit

The building blocks of a small online marketplace — input validation, the
request/response trust boundary, business rules, slugs, URL handling, rate
limiting, payments, and the decisions of the cart, order, listing, product,
category, wallet, account, cache and storage services — written in Verus with
their behaviour stated as contracts and proved.

Layout:

- `src/` — the verified library.
  - `text.rs`, `keyed.rs` — string helpers and a text-keyed map, with their specs.
  - `converter.rs` — `u32` values stored in `i32` columns (order-preserving shift).
  - `input_types/` — parsers for raw user input (quantities, phone numbers,
    identifiers, bounded texts, currencies, form bodies) and query checks.
    Email, price and slug input types are not provided: the input factory has
    no `parse_email`, `parse_price` or `parse_slug`.
  - `trust_boundary/` — validated paths, headers, cookies and bodies; the
    request model; responses that always carry the security headers.
  - `logic.rs` — ownership, roles, the order state machine, stock and limits.
  - `slug.rs`, `url_normalizer.rs`, `path_prefix.rs` — URL texts.
  - `ratelimit.rs` — a sliding-window limiter per IP.
  - `payment.rs` — the mock provider and the Stripe call/reply decisions.
  - `services/` — what each service decides around its database queries,
    and the HS256 session tokens of accounts (`jsonwebtoken`).
- `tests/` — tests of the library.
- `app/` — the I/O around it: PostgreSQL repositories (sqlx), HTTP calls to
  Stripe (reqwest), axum middleware, the clock and the environment.
