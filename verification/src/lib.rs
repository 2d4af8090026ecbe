//! Verified building blocks for a small web marketplace: input parsing,
//! business rules, the HTTP trust boundary, and the pure parts of the
//! cart, order, wallet, listing, product, category and payment services.
use vstd::prelude::*;

pub mod converter;
pub mod input_types;
pub mod keyed;
pub mod logic;
pub mod path_prefix;
pub mod payment;
pub mod ratelimit;
pub mod services;
pub mod slug;
pub mod text;
pub mod trust_boundary;
pub mod url_normalizer;

verus! {
} // verus!
