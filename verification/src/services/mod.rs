//! The decisions of the marketplace services (cart, orders, wallet, listings,
//! products, categories, knowledge base, storage, accounts and cache); the
//! database work around them is done by the application.
pub mod auth;
pub mod cache;
pub mod cart;
pub mod categories;
pub mod common;
pub mod knowledge;
pub mod listings;
pub mod orders;
pub mod products;
pub mod storage;
pub mod wallet;
