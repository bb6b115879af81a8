//! Paying an invoice.
//!
//! A payment is a row of steps. Each step names what is to be done next, against the
//! database or the PSP, and [`pay`] says from what came of it which step follows. The
//! pending attempt is recorded and committed before the PSP is asked, so that a second
//! payment of the same invoice finds it.
use vstd::prelude::*;
use vstd::utf8::encode_utf8;

use crate::digest::{digest_text, hex_text, sha256, text_digest};
use crate::error::{AppError, AppErrorView, DbFailure, DbFailureView};
use crate::ids::{format_uuid, uuid_text};
use crate::json::{json_text, new_object, no_fields, object_text, put_optional_text, put_text,
    text_or_null, JsonValue};
use crate::models::invoice::{optional_invoice, Invoice, InvoiceView};
use crate::models::payment::{PayInvoiceRequest, PaymentAttempt, PaymentAttemptView};
use crate::psp::{PspResult, PspResultView};
use crate::routes::invoices::{invoice_not_found, no_invoice, states_differ};
use crate::text::{join3, optional_text, same_text};
use crate::webhooks::{WebhookEvent, WebhookEventView};

verus! {

/// The answer to a payment: an HTTP status and the attempt.
pub struct PayResponse {
    pub status_code: u16,
    pub attempt: PaymentAttempt,
}

/// The value of a [`PayResponse`].
pub struct PayResponseView {
    pub status_code: u16,
    pub attempt: PaymentAttemptView,
}

impl View for PayResponse {
    type V = PayResponseView;

    open spec fn view(&self) -> PayResponseView {
        PayResponseView { status_code: self.status_code, attempt: self.attempt@ }
    }
}

/// The value of the result of a payment.
pub open spec fn pay_result(result: Result<PayResponse, AppError>) -> Result<
    PayResponseView,
    AppErrorView,
> {
    match result {
        Ok(response) => Ok(response@),
        Err(error) => Err(error@),
    }
}

/// What a payment is about.
pub struct PayContext {
    pub business_id: u128,
    pub invoice_id: u128,
    pub idempotency_key: String,
    pub card_token: String,
    pub request_hash: String,
}

/// The value of a [`PayContext`].
pub struct PayContextView {
    pub business_id: u128,
    pub invoice_id: u128,
    pub idempotency_key: Seq<char>,
    pub card_token: Seq<char>,
    pub request_hash: Seq<char>,
}

impl View for PayContext {
    type V = PayContextView;

    open spec fn view(&self) -> PayContextView {
        PayContextView {
            business_id: self.business_id,
            invoice_id: self.invoice_id,
            idempotency_key: self.idempotency_key@,
            card_token: self.card_token@,
            request_hash: self.request_hash@,
        }
    }
}

/// How an attempt ended, and the state that the invoice moves to, if it moves.
pub struct AttemptOutcome {
    pub status: String,
    pub psp_ref: Option<String>,
    pub failure_code: Option<String>,
    pub new_invoice_state: Option<String>,
}

/// The value of an [`AttemptOutcome`].
pub struct AttemptOutcomeView {
    pub status: Seq<char>,
    pub psp_ref: Option<Seq<char>>,
    pub failure_code: Option<Seq<char>>,
    pub new_invoice_state: Option<Seq<char>>,
}

impl View for AttemptOutcome {
    type V = AttemptOutcomeView;

    open spec fn view(&self) -> AttemptOutcomeView {
        AttemptOutcomeView {
            status: self.status@,
            psp_ref: optional_text(self.psp_ref),
            failure_code: optional_text(self.failure_code),
            new_invoice_state: optional_text(self.new_invoice_state),
        }
    }
}

/// What a payment does next.
pub enum PayStep {
    /// Look for an attempt with the idempotency key.
    FindAttempt { ctx: PayContext },
    /// Open a transaction, and read the invoice of the business under a row lock.
    LockInvoice { ctx: PayContext },
    /// Move the invoice to `open`.
    OpenInvoice { ctx: PayContext },
    /// Record a pending attempt.
    InsertAttempt { ctx: PayContext },
    /// Commit the transaction, which gives the lock up.
    CommitAttempt { ctx: PayContext, attempt_id: u128 },
    /// Ask the PSP to charge the card.
    Charge { ctx: PayContext, attempt_id: u128 },
    /// Open a transaction, and record how the attempt ended.
    RecordOutcome { ctx: PayContext, attempt_id: u128, outcome: AttemptOutcome },
    /// Move the invoice to `new_state`, if it is still `open`.
    MoveInvoice {
        ctx: PayContext,
        new_state: String,
        attempt_id: u128,
        outcome: AttemptOutcome,
        attempt: PaymentAttempt,
    },
    /// Commit the transaction.
    CommitOutcome {
        ctx: PayContext,
        attempt_id: u128,
        outcome: AttemptOutcome,
        attempt: PaymentAttempt,
    },
    /// Tell the endpoints of the business, without waiting for them.
    Announce { event: WebhookEvent, response: PayResponse },
    /// Nothing more: this is the answer. A transaction that is still open is rolled back.
    Finished { result: Result<PayResponse, AppError> },
}

/// The value of a [`PayStep`].
pub enum PayStepView {
    FindAttempt { ctx: PayContextView },
    LockInvoice { ctx: PayContextView },
    OpenInvoice { ctx: PayContextView },
    InsertAttempt { ctx: PayContextView },
    CommitAttempt { ctx: PayContextView, attempt_id: u128 },
    Charge { ctx: PayContextView, attempt_id: u128 },
    RecordOutcome { ctx: PayContextView, attempt_id: u128, outcome: AttemptOutcomeView },
    MoveInvoice {
        ctx: PayContextView,
        new_state: Seq<char>,
        attempt_id: u128,
        outcome: AttemptOutcomeView,
        attempt: PaymentAttemptView,
    },
    CommitOutcome {
        ctx: PayContextView,
        attempt_id: u128,
        outcome: AttemptOutcomeView,
        attempt: PaymentAttemptView,
    },
    Announce { event: WebhookEventView, response: PayResponseView },
    Finished { result: Result<PayResponseView, AppErrorView> },
}

impl View for PayStep {
    type V = PayStepView;

    open spec fn view(&self) -> PayStepView {
        match self {
            PayStep::FindAttempt { ctx } => PayStepView::FindAttempt { ctx: ctx@ },
            PayStep::LockInvoice { ctx } => PayStepView::LockInvoice { ctx: ctx@ },
            PayStep::OpenInvoice { ctx } => PayStepView::OpenInvoice { ctx: ctx@ },
            PayStep::InsertAttempt { ctx } => PayStepView::InsertAttempt { ctx: ctx@ },
            PayStep::CommitAttempt { ctx, attempt_id } => PayStepView::CommitAttempt {
                ctx: ctx@,
                attempt_id: *attempt_id,
            },
            PayStep::Charge { ctx, attempt_id } => PayStepView::Charge {
                ctx: ctx@,
                attempt_id: *attempt_id,
            },
            PayStep::RecordOutcome { ctx, attempt_id, outcome } => PayStepView::RecordOutcome {
                ctx: ctx@,
                attempt_id: *attempt_id,
                outcome: outcome@,
            },
            PayStep::MoveInvoice { ctx, new_state, attempt_id, outcome, attempt } =>
                PayStepView::MoveInvoice {
                ctx: ctx@,
                new_state: new_state@,
                attempt_id: *attempt_id,
                outcome: outcome@,
                attempt: attempt@,
            },
            PayStep::CommitOutcome { ctx, attempt_id, outcome, attempt } =>
                PayStepView::CommitOutcome {
                ctx: ctx@,
                attempt_id: *attempt_id,
                outcome: outcome@,
                attempt: attempt@,
            },
            PayStep::Announce { event, response } => PayStepView::Announce {
                event: event@,
                response: response@,
            },
            PayStep::Finished { result } => PayStepView::Finished { result: pay_result(*result) },
        }
    }
}

/// An attempt that was found by its idempotency key, and the business whose invoice it is
/// for.
pub struct FoundAttempt {
    pub business_id: u128,
    pub attempt: PaymentAttempt,
}

/// The value of a [`FoundAttempt`].
pub struct FoundAttemptView {
    pub business_id: u128,
    pub attempt: PaymentAttemptView,
}

impl View for FoundAttempt {
    type V = FoundAttemptView;

    open spec fn view(&self) -> FoundAttemptView {
        FoundAttemptView { business_id: self.business_id, attempt: self.attempt@ }
    }
}

/// What came of a step of a payment.
pub enum PayReply {
    /// The attempt with the idempotency key, if there is one.
    Attempt { found: Option<FoundAttempt> },
    /// The invoice, if the business has it.
    Invoice { locked: Option<Invoice> },
    /// The pending attempt, as it was recorded.
    Inserted { attempt: PaymentAttempt },
    /// How the charge ended.
    Charged { result: PspResult },
    /// The attempt, as it was recorded in the end.
    Recorded { attempt: PaymentAttempt },
    /// It is done.
    Done,
    /// The database failed.
    DbFailed { failure: DbFailure },
}

/// The value of a [`PayReply`].
pub enum PayReplyView {
    Attempt { found: Option<FoundAttemptView> },
    Invoice { locked: Option<InvoiceView> },
    Inserted { attempt: PaymentAttemptView },
    Charged { result: PspResultView },
    Recorded { attempt: PaymentAttemptView },
    Done,
    DbFailed { failure: DbFailureView },
}

impl View for PayReply {
    type V = PayReplyView;

    open spec fn view(&self) -> PayReplyView {
        match self {
            PayReply::Attempt { found } => PayReplyView::Attempt {
                found: match found {
                    Some(f) => Some(f@),
                    None => None,
                },
            },
            PayReply::Invoice { locked } => PayReplyView::Invoice {
                locked: optional_invoice(*locked),
            },
            PayReply::Inserted { attempt } => PayReplyView::Inserted { attempt: attempt@ },
            PayReply::Charged { result } => PayReplyView::Charged { result: result@ },
            PayReply::Recorded { attempt } => PayReplyView::Recorded { attempt: attempt@ },
            PayReply::Done => PayReplyView::Done,
            PayReply::DbFailed { failure } => PayReplyView::DbFailed { failure: failure@ },
        }
    }
}

/// The HTTP status that answers an attempt with the given status.
pub open spec fn attempt_status_code(status: Seq<char>) -> u16 {
    if status == "succeeded"@ {
        200
    } else {
        402
    }
}

/// The answer to a request whose idempotency key was used before, for `attempt`: the attempt
/// itself, if the request is the same one.
pub open spec fn repeated_answer(attempt: PaymentAttemptView, request_hash: Seq<char>) -> Result<
    PayResponseView,
    AppErrorView,
> {
    if attempt.request_hash != request_hash {
        Err(AppErrorView::Unprocessable("Idempotency-Key reused with a different request body"@))
    } else {
        Ok(PayResponseView { status_code: attempt_status_code(attempt.status), attempt })
    }
}

/// Why an invoice in the given state cannot be paid, if it cannot.
pub open spec fn pay_refusal(state: Seq<char>) -> Option<AppErrorView> {
    if state == "draft"@ || state == "open"@ {
        None
    } else if state == "paid"@ {
        Some(AppErrorView::Conflict("Invoice is already paid"@))
    } else {
        Some(AppErrorView::Unprocessable("Cannot pay an invoice in state '"@ + state + "'"@))
    }
}

/// How an attempt ends, by how its charge ended. Only a charge that succeeded moves the
/// invoice.
pub open spec fn outcome_of(result: PspResultView) -> AttemptOutcomeView {
    match result {
        PspResultView::Succeeded { psp_ref } => AttemptOutcomeView {
            status: "succeeded"@,
            psp_ref: Some(psp_ref),
            failure_code: None,
            new_invoice_state: Some("paid"@),
        },
        PspResultView::Failed { code } => failed_outcome(code),
        PspResultView::Timeout => failed_outcome("psp_timeout"@),
        PspResultView::NetworkError(_) => failed_outcome("network_error"@),
    }
}

/// A failed attempt.
pub open spec fn failed_outcome(code: Seq<char>) -> AttemptOutcomeView {
    AttemptOutcomeView {
        status: "failed"@,
        psp_ref: None,
        failure_code: Some(code),
        new_invoice_state: None,
    }
}

/// The event that tells how an attempt ended.
pub open spec fn payment_event(
    business_id: u128,
    invoice_id: u128,
    attempt_id: u128,
    outcome: AttemptOutcomeView,
) -> WebhookEventView {
    let event_type = if outcome.status == "succeeded"@ {
        "invoice.paid"@
    } else {
        "invoice.payment_failed"@
    };
    WebhookEventView {
        business_id,
        event_type,
        payload: json_text(
            map![
                "event"@ => JsonValue::Text(event_type),
                "invoice_id"@ => JsonValue::Text(uuid_text(invoice_id)),
                "payment_attempt_id"@ => JsonValue::Text(uuid_text(attempt_id)),
                "status"@ => JsonValue::Text(outcome.status),
                "failure_code"@ => text_or_null(outcome.failure_code),
            ],
        ),
    }
}

/// A payment that ends with an error.
pub open spec fn refused(error: AppErrorView) -> PayStepView {
    PayStepView::Finished { result: Err(error) }
}

/// The first step of a payment: a request without an idempotency key is refused.
pub open spec fn pay_begin(
    business_id: u128,
    invoice_id: u128,
    idempotency_key: Option<Seq<char>>,
    card_token: Seq<char>,
) -> PayStepView {
    match idempotency_key {
        None => refused(AppErrorView::Unprocessable("Idempotency-Key header is required"@)),
        Some(key) => PayStepView::FindAttempt {
            ctx: PayContextView {
                business_id,
                invoice_id,
                idempotency_key: key,
                card_token,
                request_hash: text_digest(card_token),
            },
        },
    }
}

/// The step that follows `step` when `reply` has come of it. A reply that does not belong to
/// the step leaves it as it is.
pub open spec fn pay_next(step: PayStepView, reply: PayReplyView) -> PayStepView {
    match (step, reply) {
        // The PSP is no database, events are announced in the background, and a payment that
        // is over stays over.
        (PayStepView::Charge { .. }, PayReplyView::DbFailed { .. }) => step,
        (PayStepView::Announce { .. }, PayReplyView::DbFailed { .. }) => step,
        (PayStepView::Finished { .. }, _) => step,
        (PayStepView::InsertAttempt { .. }, PayReplyView::DbFailed { failure }) =>
            if failure.is_unique_violation() {
                refused(
                    AppErrorView::Conflict(
                        "Another payment attempt is already active for this invoice"@,
                    ),
                )
            } else {
                refused(AppErrorView::Database(failure))
            },
        (_, PayReplyView::DbFailed { failure }) => refused(AppErrorView::Database(failure)),
        (PayStepView::FindAttempt { ctx }, PayReplyView::Attempt { found }) => match found {
            // An attempt of another business is out of sight.
            Some(f) => if f.business_id == ctx.business_id {
                PayStepView::Finished { result: repeated_answer(f.attempt, ctx.request_hash) }
            } else {
                PayStepView::LockInvoice { ctx }
            },
            None => PayStepView::LockInvoice { ctx },
        },
        (PayStepView::LockInvoice { ctx }, PayReplyView::Invoice { locked }) => match locked {
            None => refused(invoice_not_found(ctx.invoice_id)),
            Some(invoice) => match pay_refusal(invoice.state) {
                Some(error) => refused(error),
                // The first attempt to pay a draft opens it.
                None => if invoice.state == "draft"@ {
                    PayStepView::OpenInvoice { ctx }
                } else {
                    PayStepView::InsertAttempt { ctx }
                },
            },
        },
        (PayStepView::OpenInvoice { ctx }, PayReplyView::Done) => PayStepView::InsertAttempt {
            ctx,
        },
        (PayStepView::InsertAttempt { ctx }, PayReplyView::Inserted { attempt }) =>
            PayStepView::CommitAttempt { ctx, attempt_id: attempt.id },
        (PayStepView::CommitAttempt { ctx, attempt_id }, PayReplyView::Done) =>
            PayStepView::Charge { ctx, attempt_id },
        (PayStepView::Charge { ctx, attempt_id }, PayReplyView::Charged { result }) =>
            PayStepView::RecordOutcome { ctx, attempt_id, outcome: outcome_of(result) },
        (
            PayStepView::RecordOutcome { ctx, attempt_id, outcome },
            PayReplyView::Recorded { attempt },
        ) => match outcome.new_invoice_state {
            Some(new_state) => PayStepView::MoveInvoice {
                ctx,
                new_state,
                attempt_id,
                outcome,
                attempt,
            },
            None => PayStepView::CommitOutcome { ctx, attempt_id, outcome, attempt },
        },
        (
            PayStepView::MoveInvoice { ctx, new_state, attempt_id, outcome, attempt },
            PayReplyView::Done,
        ) => PayStepView::CommitOutcome { ctx, attempt_id, outcome, attempt },
        (
            PayStepView::CommitOutcome { ctx, attempt_id, outcome, attempt },
            PayReplyView::Done,
        ) => PayStepView::Announce {
            event: payment_event(ctx.business_id, ctx.invoice_id, attempt_id, outcome),
            response: PayResponseView {
                status_code: attempt_status_code(outcome.status),
                attempt,
            },
        },
        (PayStepView::Announce { event, response }, PayReplyView::Done) => PayStepView::Finished {
            result: Ok(response),
        },
        _ => step,
    }
}

/// The hash by which a repeated request is told from another one.
pub fn hash_request(card_token: &str) -> (res: String)
    ensures
        res@ == text_digest(card_token@),
        res@ == hex_text(sha256(encode_utf8(card_token@))),
{
    digest_text(card_token)
}

fn status_code_for(status: &String) -> (res: u16)
    ensures
        res == attempt_status_code(status@),
{
    if same_text(status, "succeeded") {
        200
    } else {
        402
    }
}

/// The answer to a request whose idempotency key was used before, for `attempt`.
pub fn idempotency_response(attempt: PaymentAttempt, request_hash: &String) -> (res: Result<
    PayResponse,
    AppError,
>)
    ensures
        pay_result(res) == repeated_answer(attempt@, request_hash@),
{
    if attempt.request_hash != *request_hash {
        return Err(
            AppError::Unprocessable(
                "Idempotency-Key reused with a different request body".to_string(),
            ),
        );
    }
    let status_code = status_code_for(&attempt.status);
    Ok(PayResponse { status_code, attempt })
}

fn check_payable(state: &String) -> (res: Option<AppError>)
    ensures
        (match res {
            Some(error) => Some(error@),
            None => None,
        }) == pay_refusal(state@),
{
    if same_text(state, "draft") || same_text(state, "open") {
        None
    } else if same_text(state, "paid") {
        Some(AppError::Conflict("Invoice is already paid".to_string()))
    } else {
        Some(
            AppError::Unprocessable(
                join3("Cannot pay an invoice in state '", state.as_str(), "'"),
            ),
        )
    }
}

fn fail(code: String) -> (res: AttemptOutcome)
    ensures
        res@ == failed_outcome(code@),
{
    AttemptOutcome {
        status: "failed".to_string(),
        psp_ref: None,
        failure_code: Some(code),
        new_invoice_state: None,
    }
}

/// How an attempt ends, by how its charge ended.
pub fn attempt_outcome(result: PspResult) -> (res: AttemptOutcome)
    ensures
        res@ == outcome_of(result@),
        result matches PspResult::Succeeded { psp_ref } ==> res.status@ == "succeeded"@ && (
        res.psp_ref matches Some(kept) && kept@ == psp_ref@),
        !(result is Succeeded) ==> res.status@ == "failed"@ && res.psp_ref is None
            && res.new_invoice_state is None,
        result matches PspResult::Failed { code } ==> (res.failure_code matches Some(kept) && kept@
            == code@),
{
    match result {
        PspResult::Succeeded { psp_ref } => AttemptOutcome {
            status: "succeeded".to_string(),
            psp_ref: Some(psp_ref),
            failure_code: None,
            new_invoice_state: Some("paid".to_string()),
        },
        PspResult::Failed { code } => fail(code),
        PspResult::Timeout => fail("psp_timeout".to_string()),
        PspResult::NetworkError(_) => fail("network_error".to_string()),
    }
}

fn announce(
    business_id: u128,
    invoice_id: u128,
    attempt_id: u128,
    outcome: &AttemptOutcome,
) -> (res: WebhookEvent)
    ensures
        res@ == payment_event(business_id, invoice_id, attempt_id, outcome@),
{
    let event_type = if same_text(&outcome.status, "succeeded") {
        "invoice.paid"
    } else {
        "invoice.payment_failed"
    };
    let invoice = format_uuid(invoice_id);
    let attempt = format_uuid(attempt_id);
    let mut object = new_object();
    put_text(&mut object, "event", event_type);
    put_text(&mut object, "invoice_id", invoice.as_str());
    put_text(&mut object, "payment_attempt_id", attempt.as_str());
    put_text(&mut object, "status", outcome.status.as_str());
    put_optional_text(&mut object, "failure_code", &outcome.failure_code);
    let payload = object_text(object);
    WebhookEvent { business_id, event_type: event_type.to_string(), payload }
}

/// Starts to pay the invoice `invoice_id` of the business `business_id`.
pub fn begin_payment(
    business_id: u128,
    invoice_id: u128,
    idempotency_key: Option<String>,
    request: PayInvoiceRequest,
) -> (res: PayStep)
    ensures
        res@ == pay_begin(
            business_id,
            invoice_id,
            optional_text(idempotency_key),
            request.card_token@,
        ),
        idempotency_key matches Some(key) ==> (res matches PayStep::FindAttempt { ctx }
            && ctx.business_id == business_id && ctx.invoice_id == invoice_id
            && ctx.idempotency_key@ == key@ && ctx.card_token@ == request.card_token@
            && ctx.request_hash@ == hex_text(sha256(encode_utf8(request.card_token@)))),
        idempotency_key is None ==> (res matches PayStep::Finished { result } && (
        result matches Err(error) && error@.status_code() == 422)),
{
    match idempotency_key {
        None => PayStep::Finished {
            result: Err(AppError::Unprocessable("Idempotency-Key header is required".to_string())),
        },
        Some(key) => {
            let request_hash = hash_request(request.card_token.as_str());
            PayStep::FindAttempt {
                ctx: PayContext {
                    business_id,
                    invoice_id,
                    idempotency_key: key,
                    card_token: request.card_token,
                    request_hash,
                },
            }
        },
    }
}

fn refuse(error: AppError) -> (res: PayStep)
    ensures
        res@ == refused(error@),
{
    PayStep::Finished { result: Err(error) }
}

fn after_failure(step: PayStep, failure: DbFailure) -> (res: PayStep)
    ensures
        res@ == pay_next(step@, PayReplyView::DbFailed { failure: failure@ }),
{
    match step {
        PayStep::Charge { ctx, attempt_id } => PayStep::Charge { ctx, attempt_id },
        PayStep::Announce { event, response } => PayStep::Announce { event, response },
        PayStep::Finished { result } => PayStep::Finished { result },
        PayStep::InsertAttempt { .. } => if failure.is_unique_violation() {
            refuse(
                AppError::Conflict(
                    "Another payment attempt is already active for this invoice".to_string(),
                ),
            )
        } else {
            refuse(AppError::Database(failure))
        },
        _ => refuse(AppError::Database(failure)),
    }
}

fn after_lookup(ctx: PayContext, found: Option<FoundAttempt>) -> (res: PayStep)
    ensures
        res@ == pay_next(
            PayStepView::FindAttempt { ctx: ctx@ },
            PayReplyView::Attempt {
                found: match found {
                    Some(f) => Some(f@),
                    None => None,
                },
            },
        ),
{
    match found {
        Some(f) => if f.business_id == ctx.business_id {
            PayStep::Finished { result: idempotency_response(f.attempt, &ctx.request_hash) }
        } else {
            PayStep::LockInvoice { ctx }
        },
        None => PayStep::LockInvoice { ctx },
    }
}

fn after_lock(ctx: PayContext, locked: Option<Invoice>) -> (res: PayStep)
    ensures
        res@ == pay_next(
            PayStepView::LockInvoice { ctx: ctx@ },
            PayReplyView::Invoice { locked: optional_invoice(locked) },
        ),
{
    match locked {
        None => refuse(no_invoice(ctx.invoice_id)),
        Some(invoice) => match check_payable(&invoice.state) {
            Some(error) => refuse(error),
            None => if same_text(&invoice.state, "draft") {
                PayStep::OpenInvoice { ctx }
            } else {
                PayStep::InsertAttempt { ctx }
            },
        },
    }
}

/// The step that follows `step` when `reply` has come of it.
pub fn pay(step: PayStep, reply: PayReply) -> (res: PayStep)
    ensures
        res@ == pay_next(step@, reply@),
        step matches PayStep::Charge { ctx, attempt_id } ==> (reply matches PayReply::Charged {
            result,
        } ==> (res matches PayStep::RecordOutcome { ctx: kept, attempt_id: id, outcome } && kept@
            == ctx@ && id == attempt_id && (result matches PspResult::Succeeded { psp_ref } ==> (
        outcome.psp_ref matches Some(given) && given@ == psp_ref@)) && (
        result matches PspResult::Failed { code } ==> (outcome.failure_code matches Some(given)
            && given@ == code@)))),
        step matches PayStep::CommitOutcome { ctx, attempt_id, outcome, attempt } ==> (reply is Done
            ==> (res matches PayStep::Announce { event, response } && event.business_id
            == ctx.business_id && response.attempt == attempt)),
{
    match reply {
        PayReply::DbFailed { failure } => after_failure(step, failure),
        PayReply::Attempt { found } => match step {
            PayStep::FindAttempt { ctx } => after_lookup(ctx, found),
            other => other,
        },
        PayReply::Invoice { locked } => match step {
            PayStep::LockInvoice { ctx } => after_lock(ctx, locked),
            other => other,
        },
        PayReply::Inserted { attempt } => match step {
            PayStep::InsertAttempt { ctx } => PayStep::CommitAttempt {
                ctx,
                attempt_id: attempt.id,
            },
            other => other,
        },
        PayReply::Charged { result } => match step {
            PayStep::Charge { ctx, attempt_id } => PayStep::RecordOutcome {
                ctx,
                attempt_id,
                outcome: attempt_outcome(result),
            },
            other => other,
        },
        PayReply::Recorded { attempt } => match step {
            PayStep::RecordOutcome { ctx, attempt_id, outcome } => {
                match outcome.new_invoice_state.clone() {
                    Some(new_state) => PayStep::MoveInvoice {
                        ctx,
                        new_state,
                        attempt_id,
                        outcome,
                        attempt,
                    },
                    None => PayStep::CommitOutcome { ctx, attempt_id, outcome, attempt },
                }
            },
            other => other,
        },
        PayReply::Done => match step {
            PayStep::OpenInvoice { ctx } => PayStep::InsertAttempt { ctx },
            PayStep::CommitAttempt { ctx, attempt_id } => PayStep::Charge { ctx, attempt_id },
            PayStep::MoveInvoice { ctx, new_state, attempt_id, outcome, attempt } =>
                PayStep::CommitOutcome { ctx, attempt_id, outcome, attempt },
            PayStep::CommitOutcome { ctx, attempt_id, outcome, attempt } => {
                let event = announce(ctx.business_id, ctx.invoice_id, attempt_id, &outcome);
                let status_code = status_code_for(&outcome.status);
                PayStep::Announce { event, response: PayResponse { status_code, attempt } }
            },
            PayStep::Announce { event, response } => PayStep::Finished { result: Ok(response) },
            other => other,
        },
    }
}

/// Whether `reply` is one that can come of `step`.
pub open spec fn reply_fits(step: PayStepView, reply: PayReplyView) -> bool {
    match step {
        PayStepView::FindAttempt { .. } => reply is Attempt || reply is DbFailed,
        PayStepView::LockInvoice { .. } => reply is Invoice || reply is DbFailed,
        PayStepView::OpenInvoice { .. } => reply is Done || reply is DbFailed,
        PayStepView::InsertAttempt { .. } => reply is Inserted || reply is DbFailed,
        PayStepView::CommitAttempt { .. } => reply is Done || reply is DbFailed,
        PayStepView::Charge { .. } => reply is Charged,
        PayStepView::RecordOutcome { .. } => reply is Recorded || reply is DbFailed,
        PayStepView::MoveInvoice { .. } => reply is Done || reply is DbFailed,
        PayStepView::CommitOutcome { .. } => reply is Done || reply is DbFailed,
        PayStepView::Announce { .. } => reply is Done,
        PayStepView::Finished { .. } => false,
    }
}

/// How many steps a payment can still make.
pub open spec fn steps_left(step: PayStepView) -> nat {
    match step {
        PayStepView::FindAttempt { .. } => 10,
        PayStepView::LockInvoice { .. } => 9,
        PayStepView::OpenInvoice { .. } => 8,
        PayStepView::InsertAttempt { .. } => 7,
        PayStepView::CommitAttempt { .. } => 6,
        PayStepView::Charge { .. } => 5,
        PayStepView::RecordOutcome { .. } => 4,
        PayStepView::MoveInvoice { .. } => 3,
        PayStepView::CommitOutcome { .. } => 2,
        PayStepView::Announce { .. } => 1,
        PayStepView::Finished { .. } => 0,
    }
}

/// A payment does not hang: every reply that can come of a step takes it on, and it is over
/// after ten steps at most. It never comes to the same step twice, so it asks the PSP once
/// at most.
pub proof fn payments_go_forward(step: PayStepView, reply: PayReplyView)
    requires
        reply_fits(step, reply),
    ensures
        steps_left(pay_next(step, reply)) < steps_left(step),
{
}

/// The PSP is asked only after the pending attempt was committed.
pub proof fn charges_follow_the_commit(step: PayStepView, reply: PayReplyView)
    requires
        pay_next(step, reply) is Charge,
    ensures
        step is Charge || (step is CommitAttempt && reply is Done),
{
}

/// A payment is about what was asked for: its first step looks for the idempotency key of the
/// request as it stands, and keeps the business, the invoice and the card token of the
/// request, and the digest of that token. Without a key there is no payment.
pub proof fn payments_are_about_their_request(
    business_id: u128,
    invoice_id: u128,
    key: Seq<char>,
    card_token: Seq<char>,
)
    ensures
        pay_begin(business_id, invoice_id, Some(key), card_token)
            matches PayStepView::FindAttempt { ctx } && ctx.business_id == business_id
            && ctx.invoice_id == invoice_id && ctx.idempotency_key == key && ctx.card_token
            == card_token && ctx.request_hash == hex_text(sha256(encode_utf8(card_token))),
        pay_begin(business_id, invoice_id, None, card_token) == (PayStepView::Finished {
            result: Err(AppErrorView::Unprocessable("Idempotency-Key header is required"@)),
        }),
{
}

/// Requests that differ in their key, their card, their invoice or their business are about
/// different payments.
pub proof fn different_requests_are_different_payments(
    a: (u128, u128, Seq<char>, Seq<char>),
    b: (u128, u128, Seq<char>, Seq<char>),
)
    requires
        pay_begin(a.0, a.1, Some(a.2), a.3) == pay_begin(b.0, b.1, Some(b.2), b.3),
    ensures
        a == b,
{
}

/// What a lookup decides: a payment whose key nobody has used, or another business, goes on
/// unchanged; the same request again is answered with the attempt that was found, and another
/// request under the same key is refused.
pub proof fn lookups_decide(ctx: PayContextView, business_id: u128, attempt: PaymentAttemptView)
    ensures
        pay_next(PayStepView::FindAttempt { ctx }, PayReplyView::Attempt { found: None }) == (
        PayStepView::LockInvoice { ctx }),
        ({
            let next = pay_next(
                PayStepView::FindAttempt { ctx },
                PayReplyView::Attempt { found: Some(FoundAttemptView { business_id, attempt }) },
            );
            &&& business_id != ctx.business_id ==> next == (PayStepView::LockInvoice { ctx })
            &&& business_id == ctx.business_id && attempt.request_hash != ctx.request_hash ==> next
                == (PayStepView::Finished {
                result: Err(
                    AppErrorView::Unprocessable(
                        "Idempotency-Key reused with a different request body"@,
                    ),
                ),
            })
            &&& business_id == ctx.business_id && attempt.request_hash == ctx.request_hash
                && attempt.status == "succeeded"@ ==> next == (PayStepView::Finished {
                result: Ok(PayResponseView { status_code: 200, attempt }),
            })
            &&& business_id == ctx.business_id && attempt.request_hash == ctx.request_hash
                && attempt.status != "succeeded"@ ==> next == (PayStepView::Finished {
                result: Ok(PayResponseView { status_code: 402, attempt }),
            })
        }),
{
}

/// The answer to a repeated request: the attempt itself, if the request is the same.
pub proof fn repetitions_get_the_attempt(attempt: PaymentAttemptView, request_hash: Seq<char>)
    ensures
        repeated_answer(attempt, request_hash) is Ok <==> attempt.request_hash == request_hash,
        repeated_answer(attempt, request_hash) matches Ok(response) ==> response.attempt == attempt
            && (response.status_code == 200 <==> attempt.status == "succeeded"@) && (
        response.status_code == 402 <==> attempt.status != "succeeded"@),
        repeated_answer(attempt, request_hash) matches Err(error) ==> error
            == AppErrorView::Unprocessable(
            "Idempotency-Key reused with a different request body"@,
        ),
{
}

/// What the invoice decides, as it is read under its lock: a draft is opened first, an open one
/// is paid at once, a paid one is a conflict, and no other can be paid. An invoice that the
/// business does not have is not found.
pub proof fn invoices_decide(ctx: PayContextView, invoice: InvoiceView)
    ensures
        pay_next(PayStepView::LockInvoice { ctx }, PayReplyView::Invoice { locked: None }) == (
        PayStepView::Finished {
            result: Err(
                AppErrorView::NotFound("Invoice "@ + uuid_text(ctx.invoice_id) + " not found"@),
            ),
        }),
        ({
            let next = pay_next(
                PayStepView::LockInvoice { ctx },
                PayReplyView::Invoice { locked: Some(invoice) },
            );
            &&& invoice.state == "draft"@ ==> next == (PayStepView::OpenInvoice { ctx })
            &&& invoice.state == "open"@ ==> next == (PayStepView::InsertAttempt { ctx })
            &&& invoice.state == "paid"@ ==> next == (PayStepView::Finished {
                result: Err(AppErrorView::Conflict("Invoice is already paid"@)),
            })
            &&& invoice.state != "draft"@ && invoice.state != "open"@ && invoice.state != "paid"@
                ==> next == (PayStepView::Finished {
                result: Err(
                    AppErrorView::Unprocessable(
                        "Cannot pay an invoice in state '"@ + invoice.state + "'"@,
                    ),
                ),
            })
        }),
{
    states_differ();
}

/// A payment goes to the PSP with what it is about, and with the attempt that was recorded for
/// it.
pub proof fn attempts_are_charged_as_recorded(
    ctx: PayContextView,
    attempt: PaymentAttemptView,
    attempt_id: u128,
)
    ensures
        pay_next(PayStepView::CommitAttempt { ctx, attempt_id }, PayReplyView::Done) == (
        PayStepView::Charge { ctx, attempt_id }),
        pay_next(PayStepView::OpenInvoice { ctx }, PayReplyView::Done) == (
        PayStepView::InsertAttempt { ctx }),
        pay_next(
            pay_next(PayStepView::InsertAttempt { ctx }, PayReplyView::Inserted { attempt }),
            PayReplyView::Done,
        ) == (PayStepView::Charge { ctx, attempt_id: attempt.id }),
        pay_next(PayStepView::InsertAttempt { ctx }, PayReplyView::Inserted { attempt }) == (
        PayStepView::CommitAttempt { ctx, attempt_id: attempt.id }),
{
}

/// What is recorded is how the charge ended: one that succeeded with the reference of the PSP,
/// one that was refused with the code of the PSP, and one without an answer as a timeout or a
/// network error. Only one that succeeded moves the invoice.
pub proof fn charges_are_recorded_as_they_ended(
    ctx: PayContextView,
    attempt_id: u128,
    result: PspResultView,
)
    ensures
        pay_next(PayStepView::Charge { ctx, attempt_id }, PayReplyView::Charged { result })
            matches PayStepView::RecordOutcome { ctx: kept, attempt_id: id, outcome } && kept == ctx
            && id == attempt_id && (result matches PspResultView::Succeeded { psp_ref }
            ==> outcome.status == "succeeded"@ && outcome.psp_ref == Some(psp_ref)
            && outcome.failure_code is None && outcome.new_invoice_state == Some("paid"@)) && (
        result matches PspResultView::Failed { code } ==> outcome.status == "failed"@
            && outcome.psp_ref is None && outcome.failure_code == Some(code)
            && outcome.new_invoice_state is None) && (result is Timeout ==> outcome.status
            == "failed"@ && outcome.psp_ref is None && outcome.failure_code == Some(
            "psp_timeout"@,
        ) && outcome.new_invoice_state is None) && (result is NetworkError ==> outcome.status
            == "failed"@ && outcome.psp_ref is None && outcome.failure_code == Some(
            "network_error"@,
        ) && outcome.new_invoice_state is None),
{
}

/// Charges with different references, or refused with different codes, are recorded
/// differently.
pub proof fn different_charges_are_recorded_differently(
    a: Seq<char>,
    b: Seq<char>,
)
    ensures
        outcome_of(PspResultView::Succeeded { psp_ref: a }) == outcome_of(
            PspResultView::Succeeded { psp_ref: b },
        ) ==> a == b,
        outcome_of(PspResultView::Failed { code: a }) == outcome_of(
            PspResultView::Failed { code: b },
        ) ==> a == b,
        outcome_of(PspResultView::Succeeded { psp_ref: a }) != outcome_of(
            PspResultView::Failed { code: b },
        ),
{
}

/// Once an attempt is recorded, the invoice moves to the state of the outcome, if it moves; then
/// the payment is announced to its own business and answered with the attempt as it was
/// recorded. The event is `invoice.paid` exactly where the attempt succeeded, and names the
/// invoice and the attempt, with its status and its failure code.
pub proof fn recorded_attempts_are_announced(
    ctx: PayContextView,
    attempt_id: u128,
    outcome: AttemptOutcomeView,
    attempt: PaymentAttemptView,
)
    ensures
        ({
            let recorded = pay_next(
                PayStepView::RecordOutcome { ctx, attempt_id, outcome },
                PayReplyView::Recorded { attempt },
            );
            let moved = if outcome.new_invoice_state is Some {
                pay_next(recorded, PayReplyView::Done)
            } else {
                recorded
            };
            let announced = pay_next(moved, PayReplyView::Done);
            let event_type = if outcome.status == "succeeded"@ {
                "invoice.paid"@
            } else {
                "invoice.payment_failed"@
            };
            &&& outcome.new_invoice_state matches Some(state)
                ==> recorded matches PayStepView::MoveInvoice { ctx: kept, new_state, .. }
                && kept.invoice_id == ctx.invoice_id && new_state == state
            &&& outcome.new_invoice_state is None ==> recorded is CommitOutcome
            &&& moved is CommitOutcome
            &&& announced matches PayStepView::Announce { event, response }
            &&& event.business_id == ctx.business_id
            &&& event.event_type == event_type
            &&& event.payload == json_text(
                map![
                    "event"@ => JsonValue::Text(event_type),
                    "invoice_id"@ => JsonValue::Text(uuid_text(ctx.invoice_id)),
                    "payment_attempt_id"@ => JsonValue::Text(uuid_text(attempt_id)),
                    "status"@ => JsonValue::Text(outcome.status),
                    "failure_code"@ => match outcome.failure_code {
                        Some(code) => JsonValue::Text(code),
                        None => JsonValue::Null,
                    },
                ],
            )
            &&& response.attempt == attempt
            &&& response.status_code == (if outcome.status == "succeeded"@ {
                200int
            } else {
                402
            })
            &&& pay_next(announced, PayReplyView::Done) == (PayStepView::Finished {
                result: Ok(response),
            })
        }),
{
}

/// From the PSP to the answer: a charge that succeeded is announced as paid, to the business
/// that pays, and answered with the HTTP status 200; any other as failed, with 402. The answer
/// holds the attempt as it was recorded.
pub proof fn charges_are_told_to_their_business(
    ctx: PayContextView,
    attempt_id: u128,
    result: PspResultView,
    attempt: PaymentAttemptView,
)
    ensures
        ({
            let recorded = pay_next(
                pay_next(PayStepView::Charge { ctx, attempt_id }, PayReplyView::Charged { result }),
                PayReplyView::Recorded { attempt },
            );
            let committed = if result is Succeeded {
                pay_next(recorded, PayReplyView::Done)
            } else {
                recorded
            };
            &&& pay_next(committed, PayReplyView::Done) matches PayStepView::Announce {
                event,
                response,
            }
            &&& event.business_id == ctx.business_id
            &&& event.event_type == "invoice.paid"@ <==> result is Succeeded
            &&& event.event_type == "invoice.payment_failed"@ <==> !(result is Succeeded)
            &&& response.status_code == 200 <==> result is Succeeded
            &&& response.status_code == 402 <==> !(result is Succeeded)
            &&& response.attempt == attempt
        }),
{
    reveal_strlit("succeeded");
    reveal_strlit("failed");
    reveal_strlit("invoice.paid");
    reveal_strlit("invoice.payment_failed");
    assert("succeeded"@.len() == 9);
    assert("failed"@.len() == 6);
    assert("invoice.paid"@.len() == 12);
    assert("invoice.payment_failed"@.len() == 22);
}

/// A failure of the database ends a payment with that failure; only where a unique index
/// refuses the attempt is it a conflict. At the PSP, after the commit and at the end there is
/// nothing left for it to fail.
pub proof fn failures_end_payments(step: PayStepView, failure: DbFailureView)
    ensures
        ({
            let next = pay_next(step, PayReplyView::DbFailed { failure });
            &&& step is Charge || step is Announce || step is Finished ==> next == step
            &&& step is InsertAttempt && failure.code == Some("23505"@) ==> next == (
            PayStepView::Finished {
                result: Err(
                    AppErrorView::Conflict(
                        "Another payment attempt is already active for this invoice"@,
                    ),
                ),
            })
            &&& !(step is Charge || step is Announce || step is Finished) && !(step is InsertAttempt
                && failure.code == Some("23505"@)) ==> next == (PayStepView::Finished {
                result: Err(AppErrorView::Database(failure)),
            })
        }),
{
}

/// A payment that is over stays over, and a reply that does not belong to a step leaves it as
/// it is.
pub proof fn other_replies_change_nothing(step: PayStepView, reply: PayReplyView)
    requires
        !reply_fits(step, reply),
    ensures
        pay_next(step, reply) == step,
{
}

/// Nothing of a payment is lost in its value.
pub proof fn payments_are_shown_whole(
    ctx: PayContext,
    outcome: AttemptOutcome,
    response: PayResponse,
    found: FoundAttempt,
    attempt: PaymentAttempt,
    id: u128,
    state: String,
    event: WebhookEvent,
    error: AppError,
)
    ensures
        ctx@.business_id == ctx.business_id,
        ctx@.invoice_id == ctx.invoice_id,
        ctx@.idempotency_key == ctx.idempotency_key@,
        ctx@.card_token == ctx.card_token@,
        ctx@.request_hash == ctx.request_hash@,
        outcome@.status == outcome.status@,
        outcome.psp_ref matches Some(text) ==> outcome@.psp_ref == Some(text@),
        outcome.psp_ref is None ==> outcome@.psp_ref is None,
        outcome.failure_code matches Some(text) ==> outcome@.failure_code == Some(text@),
        outcome.failure_code is None ==> outcome@.failure_code is None,
        outcome.new_invoice_state matches Some(text) ==> outcome@.new_invoice_state == Some(text@),
        outcome.new_invoice_state is None ==> outcome@.new_invoice_state is None,
        response@.status_code == response.status_code,
        response@.attempt == response.attempt@,
        found@.business_id == found.business_id,
        found@.attempt == found.attempt@,
        (PayStep::FindAttempt { ctx })@ == (PayStepView::FindAttempt { ctx: ctx@ }),
        (PayStep::LockInvoice { ctx })@ == (PayStepView::LockInvoice { ctx: ctx@ }),
        (PayStep::OpenInvoice { ctx })@ == (PayStepView::OpenInvoice { ctx: ctx@ }),
        (PayStep::InsertAttempt { ctx })@ == (PayStepView::InsertAttempt { ctx: ctx@ }),
        (PayStep::CommitAttempt { ctx, attempt_id: id })@ == (PayStepView::CommitAttempt {
            ctx: ctx@,
            attempt_id: id,
        }),
        (PayStep::Charge { ctx, attempt_id: id })@ == (PayStepView::Charge {
            ctx: ctx@,
            attempt_id: id,
        }),
        (PayStep::RecordOutcome { ctx, attempt_id: id, outcome })@ == (PayStepView::RecordOutcome {
            ctx: ctx@,
            attempt_id: id,
            outcome: outcome@,
        }),
        (PayStep::MoveInvoice { ctx, new_state: state, attempt_id: id, outcome, attempt })@ == (
        PayStepView::MoveInvoice {
            ctx: ctx@,
            new_state: state@,
            attempt_id: id,
            outcome: outcome@,
            attempt: attempt@,
        }),
        (PayStep::CommitOutcome { ctx, attempt_id: id, outcome, attempt })@ == (
        PayStepView::CommitOutcome {
            ctx: ctx@,
            attempt_id: id,
            outcome: outcome@,
            attempt: attempt@,
        }),
        (PayStep::Announce { event, response })@ == (PayStepView::Announce {
            event: event@,
            response: response@,
        }),
        (PayStep::Finished { result: Ok(response) })@ == (PayStepView::Finished {
            result: Ok(response@),
        }),
        (PayStep::Finished { result: Err(error) })@ == (PayStepView::Finished {
            result: Err(error@),
        }),
        pay_result(Ok(response)) == Ok::<PayResponseView, AppErrorView>(response@),
        pay_result(Err(error)) == Err::<PayResponseView, AppErrorView>(error@),
{
}

/// Nothing of a reply to a payment is lost in its value.
pub proof fn pay_replies_are_shown_whole(
    found: FoundAttempt,
    invoice: Invoice,
    attempt: PaymentAttempt,
    result: PspResult,
    failure: DbFailure,
)
    ensures
        (PayReply::Attempt { found: Some(found) })@ == (PayReplyView::Attempt {
            found: Some(found@),
        }),
        (PayReply::Attempt { found: None })@ == (PayReplyView::Attempt { found: None }),
        (PayReply::Invoice { locked: Some(invoice) })@ == (PayReplyView::Invoice {
            locked: Some(invoice@),
        }),
        (PayReply::Invoice { locked: None })@ == (PayReplyView::Invoice { locked: None }),
        (PayReply::Inserted { attempt })@ == (PayReplyView::Inserted { attempt: attempt@ }),
        (PayReply::Charged { result })@ == (PayReplyView::Charged { result: result@ }),
        (PayReply::Recorded { attempt })@ == (PayReplyView::Recorded { attempt: attempt@ }),
        PayReply::Done@ == PayReplyView::Done,
        (PayReply::DbFailed { failure })@ == (PayReplyView::DbFailed { failure: failure@ }),
{
}

} // verus!
