//! Parsers that turn raw user input into values that are valid by construction.
pub mod currency;
pub mod error;
pub mod id_types;
pub mod phone;
pub mod quantity;
pub mod text_types;
pub mod parser;
pub mod factory;
