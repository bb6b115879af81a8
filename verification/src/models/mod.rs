//! The records that the service keeps, and the requests that it takes.
pub mod customer;
pub mod invoice;
pub mod payment;
pub mod webhook;
