//! Webhook endpoints and deliveries.
use vstd::prelude::*;

verus! {

/// Where a business wants to hear of events. Times are in microseconds since the Unix
/// epoch.
pub struct WebhookEndpoint {
    pub id: u128,
    pub business_id: u128,
    pub url: String,
    pub secret: String,
    pub active: bool,
    pub created_at: i64,
}

/// The request for a new endpoint.
pub struct CreateWebhookEndpointRequest {
    pub url: String,
}

/// A delivery that is due, with the address and the secret of its endpoint.
pub struct WebhookDeliveryRow {
    pub id: u128,
    pub webhook_endpoint_id: u128,
    pub event_type: String,
    pub payload: String,
    pub status: String,
    pub attempt_count: i32,
    pub url: String,
    pub secret: String,
}

} // verus!
