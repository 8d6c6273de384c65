//! Laptop-store backend logic: catalog filtering, similarity-ranked
//! recommendations, response shaping and the shopping assistant's rules.

pub mod text;
pub mod catalog;
pub mod scoring;
pub mod filter;
pub mod query;
pub mod rank;
pub mod response;
pub mod engine;
pub mod laws;
pub mod storefront;
pub mod chat;
pub mod account;
pub mod payment;
pub mod suggestion;
pub mod admin;
