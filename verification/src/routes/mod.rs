//! What the service does for each request.
pub mod customers;
pub mod invoices;
pub mod payments;
pub mod webhook_endpoints;
