//! Order book, price normalisation and venue logic of a dual-venue market maker.
pub mod clock;
pub mod exchange;
pub mod monitor;
pub mod normalization_laws;
pub mod order_book;
pub mod text;
pub mod text_laws;
pub mod types;
