//! Invoices, payments and webhooks.
//!
//! The decisions of an invoice service, apart from its database, its HTTP server and its
//! clients. What takes several turns with the outside is a row of steps: [`routes::payments`]
//! pays an invoice, [`routes::invoices`] makes one, and [`psp`] charges a card. What holds of
//! payments as a whole is in [`ledger`], what holds of customers, invoices and endpoints in
//! [`registry`], and what holds of webhook deliveries in [`queue`].
pub mod api_keys;
pub mod clock;
pub mod config;
pub mod digest;
pub mod error;
pub mod ids;
pub mod json;
pub mod ledger;
pub mod listing;
pub mod mock_psp;
pub mod models;
pub mod psp;
pub mod queue;
pub mod registry;
pub mod routes;
pub mod secrets;
pub mod text;
pub mod webhooks;
