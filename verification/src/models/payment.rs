//! Payment attempts.
use vstd::prelude::*;

use crate::text::optional_text;

verus! {

/// An attempt to pay an invoice. Times are in microseconds since the Unix epoch.
pub struct PaymentAttempt {
    pub id: u128,
    pub invoice_id: u128,
    pub idempotency_key: String,
    pub card_token: String,
    pub status: String,
    pub psp_ref: Option<String>,
    pub failure_code: Option<String>,
    pub request_hash: String,
    pub created_at: i64,
    pub updated_at: i64,
}

/// The value of a [`PaymentAttempt`].
pub struct PaymentAttemptView {
    pub id: u128,
    pub invoice_id: u128,
    pub idempotency_key: Seq<char>,
    pub card_token: Seq<char>,
    pub status: Seq<char>,
    pub psp_ref: Option<Seq<char>>,
    pub failure_code: Option<Seq<char>>,
    pub request_hash: Seq<char>,
    pub created_at: i64,
    pub updated_at: i64,
}

impl View for PaymentAttempt {
    type V = PaymentAttemptView;

    open spec fn view(&self) -> PaymentAttemptView {
        PaymentAttemptView {
            id: self.id,
            invoice_id: self.invoice_id,
            idempotency_key: self.idempotency_key@,
            card_token: self.card_token@,
            status: self.status@,
            psp_ref: optional_text(self.psp_ref),
            failure_code: optional_text(self.failure_code),
            request_hash: self.request_hash@,
            created_at: self.created_at,
            updated_at: self.updated_at,
        }
    }
}

/// The request to pay an invoice.
pub struct PayInvoiceRequest {
    pub card_token: String,
}

/// Nothing of an attempt is lost in its value.
pub proof fn attempts_are_shown_whole(attempt: PaymentAttempt)
    ensures
        attempt@.id == attempt.id,
        attempt@.invoice_id == attempt.invoice_id,
        attempt@.idempotency_key == attempt.idempotency_key@,
        attempt@.card_token == attempt.card_token@,
        attempt@.status == attempt.status@,
        attempt.psp_ref matches Some(text) ==> attempt@.psp_ref == Some(text@),
        attempt.psp_ref is None ==> attempt@.psp_ref is None,
        attempt.failure_code matches Some(text) ==> attempt@.failure_code == Some(text@),
        attempt.failure_code is None ==> attempt@.failure_code is None,
        attempt@.request_hash == attempt.request_hash@,
        attempt@.created_at == attempt.created_at,
        attempt@.updated_at == attempt.updated_at,
{
}

} // verus!
