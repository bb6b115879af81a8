//! Payments, run against tables in memory and the mock PSP.

use invoice_service::error::{AppError, DbFailure};
use invoice_service::mock_psp::{self, MockReply};
use invoice_service::models::customer::Customer;
use invoice_service::models::invoice::{CreateInvoiceRequest, CreateLineItem, Invoice, LineItem};
use invoice_service::models::payment::{PayInvoiceRequest, PaymentAttempt};
use invoice_service::psp::{self, ChargeReply, ChargeStep, PspResult};
use invoice_service::routes::invoices::{self, CreateReply, CreateStep};
use invoice_service::routes::payments::{
    attempt_outcome, begin_payment, hash_request, idempotency_response, pay, FoundAttempt, PayReply,
    PayResponse, PayStep,
};
use invoice_service::webhooks::WebhookEvent;

const BUSINESS: u128 = 77;
const CLIENT_TIMEOUT_MILLIS: u64 = 10_000;

fn same_invoice(invoice: &Invoice) -> Invoice {
    Invoice {
        id: invoice.id,
        business_id: invoice.business_id,
        customer_id: invoice.customer_id,
        state: invoice.state.clone(),
        total_cents: invoice.total_cents,
        due_date: invoice.due_date,
        created_at: invoice.created_at,
        updated_at: invoice.updated_at,
    }
}

fn same_attempt(attempt: &PaymentAttempt) -> PaymentAttempt {
    PaymentAttempt {
        id: attempt.id,
        invoice_id: attempt.invoice_id,
        idempotency_key: attempt.idempotency_key.clone(),
        card_token: attempt.card_token.clone(),
        status: attempt.status.clone(),
        psp_ref: attempt.psp_ref.clone(),
        failure_code: attempt.failure_code.clone(),
        request_hash: attempt.request_hash.clone(),
        created_at: attempt.created_at,
        updated_at: attempt.updated_at,
    }
}

fn failure(code: &str) -> DbFailure {
    DbFailure {
        code: Some(code.to_string()),
        message: "refused".to_string(),
    }
}

/// The tables, and what was asked of the PSP.
struct Tables {
    invoices: Vec<Invoice>,
    lines: Vec<LineItem>,
    attempts: Vec<PaymentAttempt>,
    charges: Vec<String>,
    events: Vec<WebhookEvent>,
    last_id: u128,
    clock: i64,
}

impl Tables {
    fn new() -> Tables {
        Tables {
            invoices: Vec::new(),
            lines: Vec::new(),
            attempts: Vec::new(),
            charges: Vec::new(),
            events: Vec::new(),
            last_id: 1000,
            clock: 1_700_000_000_000_000,
        }
    }

    fn fresh_id(&mut self) -> u128 {
        self.last_id += 1;
        self.last_id
    }

    fn now(&mut self) -> i64 {
        self.clock += 1;
        self.clock
    }

    fn create_invoice(&mut self, business_id: u128) -> u128 {
        let request = CreateInvoiceRequest {
            customer_id: 5,
            due_date: 741_442,
            line_items: vec![CreateLineItem {
                description: "Widget".to_string(),
                quantity: 2,
                unit_amount_cents: 1000,
            }],
        };
        assert!(invoices::amounts_fit(&request.line_items));
        let mut step = invoices::begin_invoice(business_id, request);
        loop {
            let reply = match &step {
                CreateStep::FindCustomer { new } => CreateReply::Customer {
                    found: Some(Customer {
                        id: new.customer_id,
                        business_id,
                        name: "Test User".to_string(),
                        email: "test@example.com".to_string(),
                        created_at: 0,
                    }),
                },
                CreateStep::InsertInvoice { new } => {
                    let id = self.fresh_id();
                    let now = self.now();
                    let invoice = Invoice {
                        id,
                        business_id: new.business_id,
                        customer_id: new.customer_id,
                        state: "draft".to_string(),
                        total_cents: new.total_cents,
                        due_date: new.due_date,
                        created_at: now,
                        updated_at: now,
                    };
                    self.invoices.push(same_invoice(&invoice));
                    CreateReply::InsertedInvoice { invoice }
                }
                CreateStep::InsertLine { invoice, .. } => {
                    let id = self.fresh_id();
                    let line = step.line().unwrap();
                    let item = |id: u128| LineItem {
                        id,
                        invoice_id: invoice.id,
                        description: line.description.clone(),
                        quantity: line.quantity,
                        unit_amount_cents: line.unit_amount_cents,
                        amount_cents: line.amount_cents,
                    };
                    self.lines.push(item(id));
                    CreateReply::InsertedLine { item: item(id) }
                }
                CreateStep::Commit { .. } => CreateReply::Done,
                CreateStep::Announce { event, .. } => {
                    self.events.push(WebhookEvent {
                        business_id: event.business_id,
                        event_type: event.event_type.clone(),
                        payload: event.payload.clone(),
                    });
                    CreateReply::Done
                }
                CreateStep::Finished { result } => match result {
                    Ok(created) => {
                        assert_eq!(created.status_code, 201);
                        return created.body.invoice.id;
                    }
                    Err(_) => panic!("the invoice was refused"),
                },
            };
            step = invoices::create(step, reply);
        }
    }

    fn invoice(&self, id: u128) -> &Invoice {
        self.invoices.iter().find(|i| i.id == id).unwrap()
    }

    fn move_invoice(&mut self, id: u128, state: &str) {
        let now = self.now();
        let invoice = self.invoices.iter_mut().find(|i| i.id == id).unwrap();
        invoice.state = state.to_string();
        invoice.updated_at = now;
    }

    fn open(&mut self, business_id: u128, id: u128) -> u16 {
        let locked = self
            .invoices
            .iter()
            .find(|i| i.id == id && i.business_id == business_id)
            .map(same_invoice);
        match invoices::open_invoice(id, &locked) {
            Ok(state) => {
                self.move_invoice(id, &state);
                200
            }
            Err(error) => error.status_code(),
        }
    }

    /// Charges a card as the service does: by HTTP, with a timeout of ten seconds.
    fn charge(&mut self, card_token: &str) -> PspResult {
        let mut step = psp::begin_charge("http://psp", card_token);
        let mut answer = None;
        loop {
            let reply = match step {
                ChargeStep::Send { url, body } => {
                    assert_eq!(url, "http://psp/charge");
                    let body: serde_json::Value = serde_json::from_str(&body).unwrap();
                    let token = body["card_token"].as_str().unwrap().to_string();
                    self.charges.push(token.clone());
                    match mock_psp::charge(&token) {
                        MockReply::Answer {
                            delay_millis,
                            response,
                        } => {
                            if delay_millis > CLIENT_TIMEOUT_MILLIS {
                                ChargeReply::SendFailed {
                                    timed_out: true,
                                    message: "operation timed out".to_string(),
                                }
                            } else {
                                answer = Some(response);
                                ChargeReply::Status { code: 200 }
                            }
                        }
                        MockReply::Breakdown { error } => {
                            assert_eq!(error, "internal server error");
                            ChargeReply::Status { code: 500 }
                        }
                    }
                }
                ChargeStep::ReadBody => ChargeReply::Body {
                    response: answer.take().unwrap(),
                },
                ChargeStep::Finished { result } => return result,
            };
            step = psp::charge(reply);
        }
    }

    /// Does what one step asks for.
    fn perform(&mut self, step: &PayStep) -> PayReply {
        match step {
            PayStep::FindAttempt { ctx } => PayReply::Attempt {
                found: self
                    .attempts
                    .iter()
                    .find(|a| a.idempotency_key == ctx.idempotency_key)
                    .map(|a| FoundAttempt {
                        business_id: self.invoice(a.invoice_id).business_id,
                        attempt: same_attempt(a),
                    }),
            },
            PayStep::LockInvoice { ctx } => PayReply::Invoice {
                locked: self
                    .invoices
                    .iter()
                    .find(|i| i.id == ctx.invoice_id && i.business_id == ctx.business_id)
                    .map(same_invoice),
            },
            PayStep::OpenInvoice { ctx } => {
                self.move_invoice(ctx.invoice_id, "open");
                PayReply::Done
            }
            PayStep::InsertAttempt { ctx } => {
                let taken = self.attempts.iter().any(|a| {
                    a.idempotency_key == ctx.idempotency_key
                        || a.invoice_id == ctx.invoice_id
                            && (a.status == "pending" || a.status == "succeeded")
                });
                if taken {
                    return PayReply::DbFailed {
                        failure: failure("23505"),
                    };
                }
                let id = self.fresh_id();
                let now = self.now();
                let attempt = PaymentAttempt {
                    id,
                    invoice_id: ctx.invoice_id,
                    idempotency_key: ctx.idempotency_key.clone(),
                    card_token: ctx.card_token.clone(),
                    status: "pending".to_string(),
                    psp_ref: None,
                    failure_code: None,
                    request_hash: ctx.request_hash.clone(),
                    created_at: now,
                    updated_at: now,
                };
                self.attempts.push(same_attempt(&attempt));
                PayReply::Inserted { attempt }
            }
            PayStep::CommitAttempt { .. } | PayStep::CommitOutcome { .. } => PayReply::Done,
            PayStep::Charge { ctx, .. } => {
                let card_token = ctx.card_token.clone();
                PayReply::Charged {
                    result: self.charge(&card_token),
                }
            }
            PayStep::RecordOutcome {
                attempt_id,
                outcome,
                ..
            } => {
                let now = self.now();
                let attempt = self
                    .attempts
                    .iter_mut()
                    .find(|a| a.id == *attempt_id)
                    .unwrap();
                attempt.status = outcome.status.clone();
                attempt.psp_ref = outcome.psp_ref.clone();
                attempt.failure_code = outcome.failure_code.clone();
                attempt.updated_at = now;
                PayReply::Recorded {
                    attempt: same_attempt(attempt),
                }
            }
            PayStep::MoveInvoice { ctx, new_state, .. } => {
                if self.invoice(ctx.invoice_id).state == "open" {
                    let state = new_state.clone();
                    self.move_invoice(ctx.invoice_id, &state);
                }
                PayReply::Done
            }
            PayStep::Announce { event, .. } => {
                self.events.push(WebhookEvent {
                    business_id: event.business_id,
                    event_type: event.event_type.clone(),
                    payload: event.payload.clone(),
                });
                PayReply::Done
            }
            PayStep::Finished { .. } => unreachable!("the payment is over"),
        }
    }

    /// Takes a payment on by one unit: a transaction as a whole, or a single step.
    fn advance(&mut self, step: PayStep) -> PayStep {
        let before: Vec<Invoice> = self.invoices.iter().map(same_invoice).collect();
        let mut step = step;
        loop {
            let reply = self.perform(&step);
            step = pay(step, reply);
            match &step {
                PayStep::OpenInvoice { .. }
                | PayStep::InsertAttempt { .. }
                | PayStep::CommitAttempt { .. }
                | PayStep::MoveInvoice { .. }
                | PayStep::CommitOutcome { .. } => {}
                PayStep::Finished { result } => {
                    // A transaction that did not come to its commit leaves nothing behind.
                    if result.is_err() {
                        self.invoices = before;
                    }
                    return step;
                }
                _ => return step,
            }
        }
    }

    fn run(&mut self, step: PayStep) -> Result<PayResponse, AppError> {
        let mut step = step;
        loop {
            match step {
                PayStep::Finished { result } => return result,
                other => step = self.advance(other),
            }
        }
    }

    fn pay_invoice(
        &mut self,
        business_id: u128,
        invoice_id: u128,
        key: &str,
        card_token: &str,
    ) -> Result<PayResponse, AppError> {
        let step = begin(business_id, invoice_id, Some(key), card_token);
        self.run(step)
    }
}

fn begin(business_id: u128, invoice_id: u128, key: Option<&str>, card_token: &str) -> PayStep {
    begin_payment(
        business_id,
        invoice_id,
        key.map(|k| k.to_string()),
        PayInvoiceRequest {
            card_token: card_token.to_string(),
        },
    )
}

fn status(result: &Result<PayResponse, AppError>) -> u16 {
    match result {
        Ok(response) => response.status_code,
        Err(error) => error.status_code(),
    }
}

fn message(error: &AppError) -> &str {
    match error {
        AppError::Unprocessable(text) | AppError::NotFound(text) | AppError::Conflict(text) => text,
        AppError::Database(failure) => &failure.message,
    }
}

fn refusal(result: Result<PayResponse, AppError>) -> AppError {
    match result {
        Ok(_) => panic!("the payment was not refused"),
        Err(error) => error,
    }
}

fn answer(result: Result<PayResponse, AppError>) -> PayResponse {
    match result {
        Ok(response) => response,
        Err(error) => panic!("the payment was refused: {}", message(&error)),
    }
}

#[test]
fn test_concurrent_payments_no_double_charge() {
    let mut tables = Tables::new();
    let invoice_id = tables.create_invoice(BUSINESS);

    let concurrency = 10_usize;
    let mut steps: Vec<PayStep> = (0..concurrency)
        .map(|i| {
            begin(
                BUSINESS,
                invoice_id,
                Some(&format!("concurrent-test-{i}-{invoice_id}")),
                "tok_success",
            )
        })
        .collect();
    // All of them go on in turn, so that each looks for its key before any is recorded.
    let mut results = Vec::new();
    while !steps.is_empty() {
        let mut left = Vec::new();
        for step in steps {
            match tables.advance(step) {
                PayStep::Finished { result } => results.push(result),
                other => left.push(other),
            }
        }
        steps = left;
    }

    let successes = results.iter().filter(|r| status(r) == 200).count();
    let conflicts = results.iter().filter(|r| status(r) == 409).count();
    assert_eq!(successes, 1, "exactly one payment should succeed");
    assert_eq!(
        conflicts,
        concurrency - 1,
        "all other requests should be rejected with 409"
    );
    assert_eq!(
        tables.invoice(invoice_id).state,
        "paid",
        "invoice must be in paid state"
    );
    assert_eq!(tables.charges.len(), 1);
}

#[test]
fn test_idempotent_payment() {
    let mut tables = Tables::new();
    let invoice_id = tables.create_invoice(BUSINESS);
    let idem_key = format!("idempotency-test-{invoice_id}");

    let first = answer(tables.pay_invoice(BUSINESS, invoice_id, &idem_key, "tok_success"));
    assert_eq!(first.status_code, 200);

    let second = answer(tables.pay_invoice(BUSINESS, invoice_id, &idem_key, "tok_success"));
    assert_eq!(
        second.status_code, 200,
        "idempotency retry must return 200"
    );
    assert_eq!(
        first.attempt.id, second.attempt.id,
        "both responses must refer to the same payment attempt"
    );
    assert_eq!(first.attempt.status, "succeeded");
    assert_eq!(second.attempt.status, "succeeded");
    assert_eq!(first.attempt.psp_ref, second.attempt.psp_ref);
    assert_eq!(tables.charges.len(), 1);
}

#[test]
fn test_idempotency_key_mismatch_rejected() {
    let mut tables = Tables::new();
    let invoice_id = tables.create_invoice(BUSINESS);
    let idem_key = format!("mismatch-test-{invoice_id}");

    let first = tables.pay_invoice(BUSINESS, invoice_id, &idem_key, "tok_card_declined");
    assert_eq!(status(&first), 402);

    let second = tables.pay_invoice(BUSINESS, invoice_id, &idem_key, "tok_success");
    assert_eq!(
        status(&second),
        422,
        "reused key with different body must return 422"
    );
    assert_eq!(
        message(&refusal(second)),
        "Idempotency-Key reused with a different request body"
    );
    // The attempt that is there is not modified.
    assert_eq!(tables.attempts.len(), 1);
    assert_eq!(tables.attempts[0].card_token, "tok_card_declined");
    assert_eq!(tables.attempts[0].status, "failed");
    assert_eq!(tables.charges.len(), 1);
}

#[test]
fn test_psp_timeout_invoice_stays_open() {
    let mut tables = Tables::new();
    let invoice_id = tables.create_invoice(BUSINESS);
    assert_eq!(tables.open(BUSINESS, invoice_id), 200);

    let paid = answer(tables.pay_invoice(
        BUSINESS,
        invoice_id,
        &format!("timeout-test-{invoice_id}"),
        "tok_timeout",
    ));
    assert_eq!(
        paid.status_code, 402,
        "timeout should result in a failed payment (402)"
    );
    assert_eq!(paid.attempt.status, "failed");
    assert_eq!(paid.attempt.failure_code.as_deref(), Some("psp_timeout"));
    assert_eq!(
        tables.invoice(invoice_id).state,
        "open",
        "invoice must stay open after PSP timeout"
    );
}

#[test]
fn test_psp_network_error_invoice_stays_open() {
    let mut tables = Tables::new();
    let invoice_id = tables.create_invoice(BUSINESS);

    let paid = answer(tables.pay_invoice(
        BUSINESS,
        invoice_id,
        &format!("net-err-test-{invoice_id}"),
        "tok_network_error",
    ));
    assert_eq!(paid.status_code, 402);
    assert_eq!(paid.attempt.status, "failed");
    assert_eq!(paid.attempt.failure_code.as_deref(), Some("network_error"));
    assert_eq!(tables.invoice(invoice_id).state, "open");
}

#[test]
fn test_pay_already_paid_invoice_rejected() {
    let mut tables = Tables::new();
    let invoice_id = tables.create_invoice(BUSINESS);

    let first = tables.pay_invoice(
        BUSINESS,
        invoice_id,
        &format!("first-pay-{invoice_id}"),
        "tok_success",
    );
    assert_eq!(status(&first), 200);

    let second = tables.pay_invoice(
        BUSINESS,
        invoice_id,
        &format!("second-pay-{invoice_id}"),
        "tok_success",
    );
    assert_eq!(
        status(&second),
        409,
        "paying an already-paid invoice must return 409"
    );
    assert_eq!(message(&refusal(second)), "Invoice is already paid");
    assert_eq!(tables.attempts.len(), 1);
    assert_eq!(tables.charges.len(), 1);
}

#[test]
fn a_failed_payment_can_be_retried_with_a_new_key() {
    let mut tables = Tables::new();
    let invoice_id = tables.create_invoice(BUSINESS);

    let declined = answer(tables.pay_invoice(BUSINESS, invoice_id, "one", "tok_card_declined"));
    assert_eq!(declined.status_code, 402);
    assert_eq!(declined.attempt.failure_code.as_deref(), Some("card_declined"));
    let poor = answer(tables.pay_invoice(BUSINESS, invoice_id, "two", "tok_insufficient_funds"));
    assert_eq!(poor.status_code, 402);
    assert_eq!(
        poor.attempt.failure_code.as_deref(),
        Some("insufficient_funds")
    );
    assert_eq!(tables.invoice(invoice_id).state, "open");

    let paid = answer(tables.pay_invoice(BUSINESS, invoice_id, "three", "tok_success"));
    assert_eq!(paid.status_code, 200);
    assert_eq!(tables.invoice(invoice_id).state, "paid");
    assert_eq!(tables.invoice(invoice_id).total_cents, 2000);
    assert_eq!(tables.lines.len(), 1);
    assert_eq!(tables.lines[0].amount_cents, 2000);

    // The first attempt is still there to be asked for, as it ended.
    let again = answer(tables.pay_invoice(BUSINESS, invoice_id, "one", "tok_card_declined"));
    assert_eq!(again.status_code, 402);
    assert_eq!(again.attempt.id, declined.attempt.id);
    assert_eq!(tables.charges.len(), 3);
}

#[test]
fn a_pending_attempt_stands_in_the_way() {
    let mut tables = Tables::new();
    let invoice_id = tables.create_invoice(BUSINESS);

    // The first payment breaks down once its attempt is recorded.
    let looked = tables.advance(begin(BUSINESS, invoice_id, Some("lost"), "tok_success"));
    let at_psp = tables.advance(looked);
    assert!(matches!(at_psp, PayStep::Charge { .. }));
    assert_eq!(tables.invoice(invoice_id).state, "open");
    assert!(tables.charges.is_empty());

    let rival = tables.pay_invoice(BUSINESS, invoice_id, "rival", "tok_success");
    assert_eq!(status(&rival), 409);
    assert_eq!(
        message(&refusal(rival)),
        "Another payment attempt is already active for this invoice"
    );
    assert!(tables.charges.is_empty());

    // The same request again is answered with the pending attempt.
    let same = answer(tables.pay_invoice(BUSINESS, invoice_id, "lost", "tok_success"));
    assert_eq!(same.status_code, 402);
    assert_eq!(same.attempt.status, "pending");
}

#[test]
fn payments_without_a_key_are_refused() {
    let mut tables = Tables::new();
    let invoice_id = tables.create_invoice(BUSINESS);
    let step = begin(BUSINESS, invoice_id, None, "tok_success");
    let result = tables.run(step);
    assert_eq!(status(&result), 422);
    assert_eq!(
        message(&refusal(result)),
        "Idempotency-Key header is required"
    );
}

#[test]
fn invoices_of_others_are_not_found() {
    let mut tables = Tables::new();
    let invoice_id = tables.create_invoice(BUSINESS);
    let result = tables.pay_invoice(BUSINESS + 1, invoice_id, "k", "tok_success");
    assert_eq!(status(&result), 404);
    assert_eq!(
        message(&refusal(result)),
        "Invoice 00000000-0000-0000-0000-0000000003e9 not found"
    );
    assert!(tables.attempts.is_empty());
}

#[test]
fn attempts_of_others_are_out_of_sight() {
    let mut tables = Tables::new();
    let theirs = tables.create_invoice(BUSINESS);
    let ours = tables.create_invoice(BUSINESS + 1);
    let first = answer(tables.pay_invoice(BUSINESS, theirs, "shared", "tok_success"));
    assert_eq!(first.status_code, 200);

    // The key is taken, so nothing is charged; but the attempt is not shown.
    let second = tables.pay_invoice(BUSINESS + 1, ours, "shared", "tok_success");
    assert_eq!(status(&second), 409);
    assert_eq!(tables.charges.len(), 1);
    assert_eq!(tables.invoice(ours).state, "draft");
}

#[test]
fn voided_and_uncollectible_invoices_are_not_paid() {
    for state in ["void", "uncollectible"] {
        let mut tables = Tables::new();
        let invoice_id = tables.create_invoice(BUSINESS);
        tables.move_invoice(invoice_id, state);
        let result = tables.pay_invoice(BUSINESS, invoice_id, "k", "tok_success");
        assert_eq!(status(&result), 422);
        assert_eq!(
            message(&refusal(result)),
            format!("Cannot pay an invoice in state '{state}'")
        );
        assert!(tables.charges.is_empty());
        assert_eq!(tables.invoice(invoice_id).state, state);
    }
}

#[test]
fn an_invoice_that_is_voided_in_between_stays_void() {
    let mut tables = Tables::new();
    let invoice_id = tables.create_invoice(BUSINESS);
    let looked = tables.advance(begin(BUSINESS, invoice_id, Some("k"), "tok_success"));
    let at_psp = tables.advance(looked);
    tables.move_invoice(invoice_id, "void");
    let result = answer(tables.run(at_psp));
    assert_eq!(result.status_code, 200);
    assert_eq!(result.attempt.status, "succeeded");
    assert_eq!(tables.invoice(invoice_id).state, "void");
}

#[test]
fn payments_are_announced() {
    let mut tables = Tables::new();
    let invoice_id = tables.create_invoice(BUSINESS);
    let failed = answer(tables.pay_invoice(BUSINESS, invoice_id, "a", "tok_card_declined"));
    let paid = answer(tables.pay_invoice(BUSINESS, invoice_id, "b", "tok_success"));

    let text = |id: u128| uuid::Uuid::from_u128(id).to_string();
    assert_eq!(tables.events.len(), 3);
    assert_eq!(tables.events[0].event_type, "invoice.created");
    assert_eq!(
        tables.events[0].payload,
        format!(
            "{{\"business_id\":\"{}\",\"event\":\"invoice.created\",\"invoice_id\":\"{}\",\"state\":\"draft\",\"total_cents\":2000}}",
            text(BUSINESS),
            text(invoice_id)
        )
    );
    assert_eq!(tables.events[1].business_id, BUSINESS);
    assert_eq!(tables.events[1].event_type, "invoice.payment_failed");
    assert_eq!(
        tables.events[1].payload,
        format!(
            "{{\"event\":\"invoice.payment_failed\",\"failure_code\":\"card_declined\",\"invoice_id\":\"{}\",\"payment_attempt_id\":\"{}\",\"status\":\"failed\"}}",
            text(invoice_id),
            text(failed.attempt.id)
        )
    );
    assert_eq!(tables.events[2].event_type, "invoice.paid");
    assert_eq!(
        tables.events[2].payload,
        format!(
            "{{\"event\":\"invoice.paid\",\"failure_code\":null,\"invoice_id\":\"{}\",\"payment_attempt_id\":\"{}\",\"status\":\"succeeded\"}}",
            text(invoice_id),
            text(paid.attempt.id)
        )
    );
}

#[test]
fn failures_of_the_database_end_a_payment() {
    let step = begin(BUSINESS, 9, Some("k"), "tok_success");
    let ended = pay(
        step,
        PayReply::DbFailed {
            failure: failure("57P01"),
        },
    );
    match ended {
        PayStep::Finished { result } => {
            let error = refusal(result);
            assert_eq!(error.status_code(), 500);
            assert!(matches!(error, AppError::Database(_)));
        }
        _ => panic!("the payment goes on"),
    }

    // At the PSP there is no database to fail.
    let mut tables = Tables::new();
    let invoice_id = tables.create_invoice(BUSINESS);
    let looked = tables.advance(begin(BUSINESS, invoice_id, Some("k"), "tok_success"));
    let at_psp = tables.advance(looked);
    let still = pay(
        at_psp,
        PayReply::DbFailed {
            failure: failure("57P01"),
        },
    );
    assert!(matches!(still, PayStep::Charge { .. }));
}

#[test]
fn another_failure_of_the_insertion_is_no_conflict() {
    let mut tables = Tables::new();
    let invoice_id = tables.create_invoice(BUSINESS);
    tables.move_invoice(invoice_id, "open");
    let found = pay(
        begin(BUSINESS, invoice_id, Some("k"), "tok_success"),
        PayReply::Attempt { found: None },
    );
    let locked = pay(
        found,
        PayReply::Invoice {
            locked: Some(same_invoice(tables.invoice(invoice_id))),
        },
    );
    assert!(matches!(locked, PayStep::InsertAttempt { .. }));
    match pay(
        locked,
        PayReply::DbFailed {
            failure: DbFailure {
                code: None,
                message: "connection reset".to_string(),
            },
        },
    ) {
        PayStep::Finished { result } => assert_eq!(status(&result), 500),
        _ => panic!("the payment goes on"),
    }
}

#[test]
fn replies_that_do_not_belong_change_nothing() {
    let step = begin(BUSINESS, 9, Some("k"), "tok_success");
    let step = pay(step, PayReply::Done);
    let step = pay(step, PayReply::Invoice { locked: None });
    assert!(matches!(step, PayStep::FindAttempt { .. }));
}

#[test]
fn requests_are_hashed_by_their_card() {
    assert_eq!(
        hash_request("tok_success"),
        "3b02ebb78a6fff1dc8f7dfd4da780b73d82379f491e4c7aaa5c2006a75ee25f7"
    );
    assert_eq!(
        hash_request("tok_card_declined"),
        "6c0057d4046aa9c6376d6b22d40f94543627511ecbf55e10695eb5a8e2a0aacb"
    );
    assert_eq!(
        hash_request(""),
        "e3b0c44298fc1c149afbf4c8996fb92427ae41e4649b934ca495991b7852b855"
    );
    assert_eq!(
        hash_request("tok_\u{e9}"),
        "10f9ee161c6b00e91e44c76f7d993d2ab096d5dc4e00c122436d1f26b4b53f2c"
    );
}

#[test]
fn repeated_requests_are_answered_by_the_status_of_the_attempt() {
    let attempt = |status: &str| PaymentAttempt {
        id: 3,
        invoice_id: 4,
        idempotency_key: "k".to_string(),
        card_token: "tok_success".to_string(),
        status: status.to_string(),
        psp_ref: None,
        failure_code: None,
        request_hash: hash_request("tok_success"),
        created_at: 0,
        updated_at: 0,
    };
    let hash = hash_request("tok_success");
    for (name, code) in [("succeeded", 200), ("failed", 402), ("pending", 402)] {
        let response = answer(idempotency_response(attempt(name), &hash));
        assert_eq!(response.status_code, code);
        assert_eq!(response.attempt.id, 3);
    }
    let other = hash_request("tok_card_declined");
    assert_eq!(
        status(&idempotency_response(attempt("succeeded"), &other)),
        422
    );
}

#[test]
fn outcomes_follow_the_charge() {
    let paid = attempt_outcome(PspResult::Succeeded {
        psp_ref: "ref-1".to_string(),
    });
    assert_eq!(paid.status, "succeeded");
    assert_eq!(paid.psp_ref.as_deref(), Some("ref-1"));
    assert_eq!(paid.failure_code, None);
    assert_eq!(paid.new_invoice_state.as_deref(), Some("paid"));

    let failed = attempt_outcome(PspResult::Failed {
        code: "card_declined".to_string(),
    });
    assert_eq!(failed.status, "failed");
    assert_eq!(failed.psp_ref, None);
    assert_eq!(failed.failure_code.as_deref(), Some("card_declined"));
    assert_eq!(failed.new_invoice_state, None);

    let late = attempt_outcome(PspResult::Timeout);
    assert_eq!(late.failure_code.as_deref(), Some("psp_timeout"));
    assert_eq!(late.new_invoice_state, None);

    let broken = attempt_outcome(PspResult::NetworkError("reset".to_string()));
    assert_eq!(broken.failure_code.as_deref(), Some("network_error"));
    assert_eq!(broken.new_invoice_state, None);
}

#[test]
fn a_payment_is_over_after_ten_steps() {
    let mut tables = Tables::new();
    let invoice_id = tables.create_invoice(BUSINESS);
    let mut step = begin(BUSINESS, invoice_id, Some("k"), "tok_success");
    let mut steps = 0;
    let mut committed = false;
    while !matches!(step, PayStep::Finished { .. }) {
        if matches!(step, PayStep::CommitAttempt { .. }) {
            committed = true;
        }
        if matches!(step, PayStep::Charge { .. }) {
            assert!(committed);
        }
        let reply = tables.perform(&step);
        step = pay(step, reply);
        steps += 1;
    }
    assert_eq!(steps, 10);
    assert_eq!(tables.invoice(invoice_id).state, "paid");
}
