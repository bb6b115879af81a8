//! What holds of payments as a whole, however they are interleaved.
//!
//! A ledger is what the database holds, what the PSP has been asked for, and the payments
//! that are under way. The database answers by its tables: no two attempts have the same
//! idempotency key, and of the attempts to pay an invoice at most one is pending or has
//! succeeded, for a unique index refuses the row of another. A transaction shows its writes
//! when it commits, and none of them if it does not. Every decision is that of the steps of
//! a payment and of the moves of an invoice.
use vstd::prelude::*;

use crate::digest::text_digest;
use crate::error::{unique_violation, AppErrorView, DbFailureView};
use crate::listing::{listings_exist, Listed};
use crate::models::invoice::InvoiceView;
use crate::models::payment::PaymentAttemptView;
use crate::psp::PspResultView;
use crate::routes::invoices::{given_up, invoice_not_found, is_listing, is_state, is_terminal,
    is_wanted, may_move, opened, states_differ, voided};
use crate::routes::payments::{attempt_status_code, outcome_of, pay_begin, pay_next, pay_refusal,
    refused, repeated_answer, FoundAttemptView, PayContextView, PayReplyView, PayResponseView,
    PayStepView};

verus! {

/// What the database holds, what the PSP has been asked for, and the payments under way.
pub struct Ledger {
    /// The invoices, by their ids.
    pub invoices: Map<u128, InvoiceView>,
    /// The attempts, by their ids.
    pub attempts: Map<u128, PaymentAttemptView>,
    /// The attempts that the PSP has been asked to charge, in order.
    pub charges: Seq<u128>,
    /// The step that each payment under way has come to.
    pub payments: Map<int, PayStepView>,
}

/// Something that happens.
pub enum LedgerEvent {
    /// An invoice is made.
    Create { invoice: InvoiceView },
    /// An invoice is opened, voided or given up.
    Open { business_id: u128, id: u128, now: i64 },
    Void { business_id: u128, id: u128, now: i64 },
    GiveUp { business_id: u128, id: u128, now: i64 },
    /// A request to pay an invoice comes in.
    Arrive {
        payment: int,
        business_id: u128,
        invoice_id: u128,
        idempotency_key: Option<Seq<char>>,
        card_token: Seq<char>,
    },
    /// A payment looks for an attempt with its idempotency key.
    Lookup { payment: int },
    /// A payment reads its invoice and records an attempt, in one transaction.
    Start { payment: int, attempt_id: u128, now: i64 },
    /// A payment asks the PSP, which answers.
    Ask { payment: int, result: PspResultView },
    /// A payment records how its attempt ended, in one transaction.
    Record { payment: int, now: i64 },
    /// The database fails a payment.
    Fail { payment: int, failure: DbFailureView },
    /// The service breaks down in the middle of a payment.
    Crash { payment: int },
}

/// Whether an attempt with the given status stands in the way of another.
pub open spec fn is_active(status: Seq<char>) -> bool {
    status == "pending"@ || status == "succeeded"@
}

/// The attempt that a payment records.
pub open spec fn pending_attempt(
    ctx: PayContextView,
    attempt_id: u128,
    now: i64,
) -> PaymentAttemptView {
    PaymentAttemptView {
        id: attempt_id,
        invoice_id: ctx.invoice_id,
        idempotency_key: ctx.idempotency_key,
        card_token: ctx.card_token,
        status: "pending"@,
        psp_ref: None,
        failure_code: None,
        request_hash: ctx.request_hash,
        created_at: now,
        updated_at: now,
    }
}

impl Ledger {
    /// The ledger before anything has happened.
    pub open spec fn empty() -> Ledger {
        Ledger {
            invoices: Map::empty(),
            attempts: Map::empty(),
            charges: Seq::empty(),
            payments: Map::empty(),
        }
    }

    /// The invoice `id`, if the business has it.
    pub open spec fn find_invoice(self, id: u128, business_id: u128) -> Option<InvoiceView> {
        if self.invoices.contains_key(id) && self.invoices[id].business_id == business_id {
            Some(self.invoices[id])
        } else {
            None
        }
    }

    /// Whether some attempt has the given idempotency key.
    pub open spec fn key_is_used(self, key: Seq<char>) -> bool {
        exists|id: u128| #[trigger]
            self.attempts.contains_key(id) && self.attempts[id].idempotency_key == key
    }

    /// The attempt with the given idempotency key, and the business whose invoice it is for.
    pub open spec fn find_attempt(self, key: Seq<char>) -> Option<FoundAttemptView> {
        if self.key_is_used(key) {
            let id = choose|id: u128| #[trigger]
                self.attempts.contains_key(id) && self.attempts[id].idempotency_key == key;
            Some(
                FoundAttemptView {
                    business_id: self.invoices[self.attempts[id].invoice_id].business_id,
                    attempt: self.attempts[id],
                },
            )
        } else {
            None
        }
    }

    /// Whether some attempt to pay the invoice is pending or has succeeded.
    pub open spec fn has_active_attempt(self, invoice_id: u128) -> bool {
        exists|id: u128| #[trigger]
            self.attempts.contains_key(id) && self.attempts[id].invoice_id == invoice_id
                && is_active(self.attempts[id].status)
    }

    /// Whether some attempt to pay the invoice has succeeded.
    pub open spec fn has_succeeded_attempt(self, invoice_id: u128) -> bool {
        exists|id: u128| #[trigger]
            self.attempts.contains_key(id) && self.attempts[id].invoice_id == invoice_id
                && self.attempts[id].status == "succeeded"@
    }

    /// What comes of recording the attempt `row`.
    pub open spec fn insert_reply(self, row: PaymentAttemptView) -> PayReplyView {
        if self.key_is_used(row.idempotency_key) || self.has_active_attempt(row.invoice_id) {
            PayReplyView::DbFailed { failure: unique_violation() }
        } else {
            PayReplyView::Inserted { attempt: row }
        }
    }

    /// Where the first transaction of a payment leads, from the lock to the commit.
    pub open spec fn started(self, ctx: PayContextView, attempt_id: u128, now: i64) -> PayStepView {
        let locked = pay_next(
            PayStepView::LockInvoice { ctx },
            PayReplyView::Invoice { locked: self.find_invoice(ctx.invoice_id, ctx.business_id) },
        );
        let open = if locked is OpenInvoice {
            pay_next(locked, PayReplyView::Done)
        } else {
            locked
        };
        let inserted = if open is InsertAttempt {
            pay_next(open, self.insert_reply(pending_attempt(ctx, attempt_id, now)))
        } else {
            open
        };
        if inserted is CommitAttempt {
            pay_next(inserted, PayReplyView::Done)
        } else {
            inserted
        }
    }

    /// The attempt as its payment records it in the end.
    pub open spec fn settled_attempt(self, step: PayStepView, now: i64) -> PaymentAttemptView {
        let outcome = step->RecordOutcome_outcome;
        PaymentAttemptView {
            status: outcome.status,
            psp_ref: outcome.psp_ref,
            failure_code: outcome.failure_code,
            updated_at: now,
            ..self.attempts[step->RecordOutcome_attempt_id]
        }
    }

    /// The ledger with the payment at the given step.
    pub open spec fn at(self, payment: int, step: PayStepView) -> Ledger {
        Ledger { payments: self.payments.insert(payment, step), ..self }
    }

    /// The ledger with the invoice in the given state.
    pub open spec fn moved(self, id: u128, state: Seq<char>, now: i64) -> Ledger {
        Ledger {
            invoices: self.invoices.insert(
                id,
                InvoiceView { state, updated_at: now, ..self.invoices[id] },
            ),
            ..self
        }
    }

    /// The ledger after the first transaction of a payment. Nothing is left of a transaction
    /// that does not come to its commit.
    pub open spec fn start(
        self,
        payment: int,
        ctx: PayContextView,
        attempt_id: u128,
        now: i64,
    ) -> Ledger {
        let step = self.started(ctx, attempt_id, now);
        if step is Charge {
            let recorded = Ledger {
                attempts: self.attempts.insert(attempt_id, pending_attempt(ctx, attempt_id, now)),
                ..self
            };
            let opened = if self.invoices[ctx.invoice_id].state == "draft"@ {
                recorded.moved(ctx.invoice_id, "open"@, now)
            } else {
                recorded
            };
            opened.at(payment, step)
        } else {
            self.at(payment, step)
        }
    }

    /// The ledger after the last transaction of a payment.
    pub open spec fn record(self, payment: int, step: PayStepView, now: i64) -> Ledger {
        let attempt = self.settled_attempt(step, now);
        let id = step->RecordOutcome_attempt_id;
        let invoice_id = step->RecordOutcome_ctx.invoice_id;
        let recorded = pay_next(step, PayReplyView::Recorded { attempt });
        let with_attempt = Ledger { attempts: self.attempts.insert(id, attempt), ..self };
        if recorded is MoveInvoice {
            let with_invoice = if self.invoices.contains_key(invoice_id)
                && self.invoices[invoice_id].state == "open"@ {
                with_attempt.moved(invoice_id, recorded->MoveInvoice_new_state, now)
            } else {
                with_attempt
            };
            with_invoice.at(
                payment,
                pay_next(pay_next(recorded, PayReplyView::Done), PayReplyView::Done),
            )
        } else {
            with_attempt.at(payment, pay_next(recorded, PayReplyView::Done))
        }
    }

    /// The ledger after `event`. What cannot happen leaves it as it is.
    pub open spec fn after(self, event: LedgerEvent) -> Ledger {
        match event {
            LedgerEvent::Create { invoice } => if !self.invoices.contains_key(invoice.id)
                && invoice.state == "draft"@ {
                Ledger { invoices: self.invoices.insert(invoice.id, invoice), ..self }
            } else {
                self
            },
            LedgerEvent::Open { business_id, id, now } => match opened(
                id,
                self.find_invoice(id, business_id),
            ) {
                Ok(state) => self.moved(id, state, now),
                Err(_) => self,
            },
            LedgerEvent::Void { business_id, id, now } => match voided(
                id,
                self.find_invoice(id, business_id),
            ) {
                Ok(state) => self.moved(id, state, now),
                Err(_) => self,
            },
            LedgerEvent::GiveUp { business_id, id, now } => match given_up(
                id,
                self.find_invoice(id, business_id),
            ) {
                Ok(state) => self.moved(id, state, now),
                Err(_) => self,
            },
            LedgerEvent::Arrive { payment, business_id, invoice_id, idempotency_key, card_token } =>
                if self.payments.contains_key(payment) {
                    self
                } else {
                    self.at(
                        payment,
                        pay_begin(business_id, invoice_id, idempotency_key, card_token),
                    )
                },
            LedgerEvent::Lookup { payment } => if self.payments.contains_key(payment) {
                match self.payments[payment] {
                    PayStepView::FindAttempt { ctx } => self.at(
                        payment,
                        pay_next(
                            self.payments[payment],
                            PayReplyView::Attempt { found: self.find_attempt(ctx.idempotency_key) },
                        ),
                    ),
                    _ => self,
                }
            } else {
                self
            },
            LedgerEvent::Start { payment, attempt_id, now } => if self.payments.contains_key(
                payment,
            ) && !self.attempts.contains_key(attempt_id) {
                match self.payments[payment] {
                    PayStepView::LockInvoice { ctx } => self.start(payment, ctx, attempt_id, now),
                    _ => self,
                }
            } else {
                self
            },
            LedgerEvent::Ask { payment, result } => if self.payments.contains_key(payment) {
                match self.payments[payment] {
                    PayStepView::Charge { ctx, attempt_id } => Ledger {
                        charges: self.charges.push(attempt_id),
                        ..self.at(
                            payment,
                            pay_next(self.payments[payment], PayReplyView::Charged { result }),
                        )
                    },
                    _ => self,
                }
            } else {
                self
            },
            LedgerEvent::Record { payment, now } => if self.payments.contains_key(payment)
                && self.payments[payment] is RecordOutcome {
                self.record(payment, self.payments[payment], now)
            } else {
                self
            },
            LedgerEvent::Fail { payment, failure } => if self.payments.contains_key(payment) {
                self.at(
                    payment,
                    pay_next(self.payments[payment], PayReplyView::DbFailed { failure }),
                )
            } else {
                self
            },
            LedgerEvent::Crash { payment } => Ledger {
                payments: self.payments.remove(payment),
                ..self
            },
        }
    }

    /// The ledger after a row of events.
    pub open spec fn after_all(self, events: Seq<LedgerEvent>) -> Ledger
        decreases events.len(),
    {
        if events.len() == 0 {
            self
        } else {
            self.after_all(events.drop_last()).after(events.last())
        }
    }

    /// The attempt that the payment answers for, while it is at the PSP or back from it.
    pub open spec fn attempt_in_hand(self, payment: int) -> Option<u128> {
        if self.payments.contains_key(payment) {
            match self.payments[payment] {
                PayStepView::Charge { attempt_id, .. } => Some(attempt_id),
                PayStepView::RecordOutcome { attempt_id, .. } => Some(attempt_id),
                _ => None,
            }
        } else {
            None
        }
    }

    /// The invoice that the payment is about, while it is at the PSP or back from it.
    pub open spec fn invoice_in_hand(self, payment: int) -> u128 {
        match self.payments[payment] {
            PayStepView::Charge { ctx, .. } => ctx.invoice_id,
            PayStepView::RecordOutcome { ctx, .. } => ctx.invoice_id,
            _ => 0,
        }
    }

    /// The attempts are kept by their ids, for invoices that are there.
    pub open spec fn attempts_are_sound(self) -> bool {
        forall|id: u128| #[trigger]
            self.attempts.contains_key(id) ==> self.attempts[id].id == id
                && self.invoices.contains_key(self.attempts[id].invoice_id)
    }

    /// No two attempts have the same idempotency key.
    pub open spec fn keys_are_unique(self) -> bool {
        forall|a: u128, b: u128| #[trigger]
            self.attempts.contains_key(a) && #[trigger] self.attempts.contains_key(b)
                && self.attempts[a].idempotency_key == self.attempts[b].idempotency_key ==> a == b
    }

    /// Of the attempts to pay an invoice at most one is pending or has succeeded.
    pub open spec fn active_attempts_are_unique(self) -> bool {
        forall|a: u128, b: u128| #[trigger]
            self.attempts.contains_key(a) && #[trigger] self.attempts.contains_key(b)
                && self.attempts[a].invoice_id == self.attempts[b].invoice_id && is_active(
                self.attempts[a].status,
            ) && is_active(self.attempts[b].status) ==> a == b
    }

    /// A payment that is at the PSP or back from it has a pending attempt of its own.
    pub open spec fn payments_have_attempts(self) -> bool {
        &&& forall|p: int|
            (#[trigger] self.attempt_in_hand(p)) matches Some(id) ==> self.attempts.contains_key(
                id,
            ) && self.attempts[id].status == "pending"@ && self.attempts[id].invoice_id
                == self.invoice_in_hand(p)
        &&& forall|p: int, q: int|
            (#[trigger] self.attempt_in_hand(p)) is Some && (#[trigger] self.attempt_in_hand(q))
                == self.attempt_in_hand(p) ==> p == q
        &&& forall|p: int|
            #![trigger self.payments[p]]
            self.payments.contains_key(p) && self.payments[p] is RecordOutcome ==> exists|
                result: PspResultView,
            |
                self.payments[p]->RecordOutcome_outcome == #[trigger] outcome_of(result)
    }

    /// The PSP has been asked at most once for an attempt, and only for attempts that were
    /// recorded before.
    pub open spec fn charges_are_unique(self) -> bool {
        &&& self.charges.no_duplicates()
        &&& forall|i: int|
            0 <= i < self.charges.len() ==> self.attempts.contains_key(#[trigger] self.charges[i])
        &&& forall|p: int|
            #![trigger self.payments[p]]
            self.payments.contains_key(p) && self.payments[p] is Charge
                ==> !self.charges.contains(self.payments[p]->Charge_attempt_id)
    }

    /// A paid invoice has an attempt that succeeded, and an attempt that succeeded was
    /// charged.
    pub open spec fn payments_are_backed(self) -> bool {
        &&& forall|id: u128| #[trigger]
            self.invoices.contains_key(id) && self.invoices[id].state == "paid"@
                ==> self.has_succeeded_attempt(id)
        &&& forall|id: u128| #[trigger]
            self.attempts.contains_key(id) && self.attempts[id].status == "succeeded"@
                ==> self.charges.contains(id)
        &&& forall|p: int|
            #![trigger self.payments[p]]
            self.payments.contains_key(p) && self.payments[p] is RecordOutcome
                ==> self.charges.contains(self.payments[p]->RecordOutcome_attempt_id)
    }

    /// The hash of every request is that of its card token.
    pub open spec fn requests_are_hashed(self) -> bool {
        &&& forall|id: u128| #[trigger]
            self.attempts.contains_key(id) ==> self.attempts[id].request_hash == text_digest(
                self.attempts[id].card_token,
            )
        &&& forall|p: int| #[trigger]
            self.payments.contains_key(p) ==> match self.payments[p] {
                PayStepView::FindAttempt { ctx } => ctx.request_hash == text_digest(ctx.card_token),
                PayStepView::LockInvoice { ctx } => ctx.request_hash == text_digest(ctx.card_token),
                _ => true,
            }
    }

    /// What holds of every ledger.
    pub open spec fn is_sound(self) -> bool {
        &&& self.attempts_are_sound()
        &&& self.keys_are_unique()
        &&& self.active_attempts_are_unique()
        &&& self.payments_have_attempts()
        &&& self.charges_are_unique()
        &&& self.payments_are_backed()
    }
}

/// The names of the statuses of an attempt tell them apart.
pub proof fn statuses_differ()
    ensures
        "pending"@ != "succeeded"@,
        "pending"@ != "failed"@,
        "succeeded"@ != "failed"@,
{
    reveal_strlit("pending");
    reveal_strlit("succeeded");
    reveal_strlit("failed");
    assert("pending"@.len() == 7);
    assert("succeeded"@.len() == 9);
    assert("failed"@.len() == 6);
}

proof fn moving_keeps_sound(l: Ledger, id: u128, state: Seq<char>, now: i64)
    requires
        l.is_sound(),
        l.invoices.contains_key(id),
        state == "paid"@ ==> l.has_succeeded_attempt(id),
    ensures
        l.moved(id, state, now).is_sound(),
{
    let m = l.moved(id, state, now);
    assert forall|p: int| #[trigger] m.attempt_in_hand(p) == l.attempt_in_hand(p) by {}
    assert forall|p: int| m.invoice_in_hand(p) == #[trigger] l.invoice_in_hand(p) by {}
    assert(m.payments_have_attempts());
    assert forall|i: u128| #[trigger] m.invoices.contains_key(i) && m.invoices[i].state
        == "paid"@ implies m.has_succeeded_attempt(i) by {
        assert(l.invoices.contains_key(i));
        assert(l.has_succeeded_attempt(i));
        let a = choose|a: u128| #[trigger]
            l.attempts.contains_key(a) && l.attempts[a].invoice_id == i && l.attempts[a].status
                == "succeeded"@;
        assert(m.attempts.contains_key(a));
    }
}

/// Whether a step is neither at the PSP nor back from it.
spec fn is_quiet(step: PayStepView) -> bool {
    !(step is Charge) && !(step is RecordOutcome)
}

proof fn resting_keeps_sound(l: Ledger, m: Ledger, payment: int)
    requires
        l.is_sound(),
        m.invoices == l.invoices,
        m.attempts == l.attempts,
        m.charges == l.charges,
        forall|p: int|
            #![trigger m.payments.contains_key(p)]
            #![trigger m.payments[p]]
            p != payment ==> m.payments.contains_key(p) == l.payments.contains_key(p)
                && m.payments[p] == l.payments[p],
        m.payments.contains_key(payment) ==> is_quiet(m.payments[payment]),
    ensures
        m.is_sound(),
{
    assert forall|p: int| (#[trigger] m.attempt_in_hand(p)) is Some implies p != payment
        && m.attempt_in_hand(p) == l.attempt_in_hand(p) && m.invoice_in_hand(p)
        == l.invoice_in_hand(p) by {}
    assert(m.payments_have_attempts()) by {
        assert forall|p: int, q: int|
            (#[trigger] m.attempt_in_hand(p)) is Some && (#[trigger] m.attempt_in_hand(q))
                == m.attempt_in_hand(p) implies p == q by {
            assert(l.attempt_in_hand(p) == m.attempt_in_hand(p));
            assert(l.attempt_in_hand(q) == m.attempt_in_hand(q));
        }
        assert forall|p: int|
            #![trigger m.payments[p]]
            m.payments.contains_key(p) && m.payments[p] is RecordOutcome implies exists|
            result: PspResultView,
        |
            m.payments[p]->RecordOutcome_outcome == #[trigger] outcome_of(result) by {
            assert(l.payments[p] == m.payments[p]);
        }
    }
    assert(m.charges_are_unique()) by {
        assert forall|p: int|
            #![trigger m.payments[p]]
            m.payments.contains_key(p) && m.payments[p] is Charge implies !m.charges.contains(
            m.payments[p]->Charge_attempt_id,
        ) by {
            assert(l.payments[p] == m.payments[p]);
        }
    }
    assert(m.payments_are_backed()) by {
        assert forall|i: u128| #[trigger] m.invoices.contains_key(i) && m.invoices[i].state
            == "paid"@ implies m.has_succeeded_attempt(i) by {
            assert(l.has_succeeded_attempt(i));
            let a = choose|a: u128| #[trigger]
                l.attempts.contains_key(a) && l.attempts[a].invoice_id == i
                    && l.attempts[a].status == "succeeded"@;
            assert(m.attempts.contains_key(a));
        }
        assert forall|p: int|
            #![trigger m.payments[p]]
            m.payments.contains_key(p) && m.payments[p] is RecordOutcome implies m.charges.contains(
            m.payments[p]->RecordOutcome_attempt_id,
        ) by {
            assert(l.payments[p] == m.payments[p]);
        }
    }
}

/// Where the first transaction of a payment leads: to the PSP, if the business has the
/// invoice, the invoice is a draft or open, no attempt stands in the way and the idempotency
/// key is new; and to a refusal otherwise.
pub proof fn first_transaction(l: Ledger, ctx: PayContextView, attempt_id: u128, now: i64)
    ensures
        l.started(ctx, attempt_id, now) == (match l.find_invoice(
            ctx.invoice_id,
            ctx.business_id,
        ) {
            None => refused(invoice_not_found(ctx.invoice_id)),
            Some(invoice) => match pay_refusal(invoice.state) {
                Some(error) => refused(error),
                None => if l.key_is_used(ctx.idempotency_key) || l.has_active_attempt(
                    ctx.invoice_id,
                ) {
                    refused(
                        AppErrorView::Conflict(
                            "Another payment attempt is already active for this invoice"@,
                        ),
                    )
                } else {
                    PayStepView::Charge { ctx, attempt_id }
                },
            },
        }),
{
    assert(unique_violation().is_unique_violation());
}

proof fn starting_keeps_sound(
    l: Ledger,
    payment: int,
    ctx: PayContextView,
    attempt_id: u128,
    now: i64,
)
    requires
        l.is_sound(),
        l.payments.contains_key(payment),
        l.payments[payment] == (PayStepView::LockInvoice { ctx }),
        !l.attempts.contains_key(attempt_id),
    ensures
        l.start(payment, ctx, attempt_id, now).is_sound(),
{
    let step = l.started(ctx, attempt_id, now);
    let m = l.start(payment, ctx, attempt_id, now);
    first_transaction(l, ctx, attempt_id, now);
    if !(step is Charge) {
        resting_keeps_sound(l, m, payment);
    } else {
        states_differ();
        let row = pending_attempt(ctx, attempt_id, now);
        let invoice = l.invoices[ctx.invoice_id];
        assert(l.invoices.contains_key(ctx.invoice_id));
        assert(m.attempts == l.attempts.insert(attempt_id, row));
        assert(m.payments == l.payments.insert(payment, step));
        assert(m.charges == l.charges);
        assert(step == (PayStepView::Charge { ctx, attempt_id }));
        assert forall|id: u128| #[trigger] m.attempts.contains_key(id) implies id == attempt_id
            || l.attempts.contains_key(id) by {}
        assert(m.attempts_are_sound());
        assert(m.keys_are_unique()) by {
            assert forall|a: u128, b: u128| #[trigger]
                m.attempts.contains_key(a) && #[trigger] m.attempts.contains_key(b)
                    && m.attempts[a].idempotency_key == m.attempts[b].idempotency_key implies a
                == b by {
                if a != attempt_id {
                    assert(l.attempts.contains_key(a));
                }
                if b != attempt_id {
                    assert(l.attempts.contains_key(b));
                }
            }
        }
        assert(m.active_attempts_are_unique()) by {
            assert forall|a: u128, b: u128| #[trigger]
                m.attempts.contains_key(a) && #[trigger] m.attempts.contains_key(b)
                    && m.attempts[a].invoice_id == m.attempts[b].invoice_id && is_active(
                    m.attempts[a].status,
                ) && is_active(m.attempts[b].status) implies a == b by {
                if a != attempt_id {
                    assert(l.attempts.contains_key(a));
                }
                if b != attempt_id {
                    assert(l.attempts.contains_key(b));
                }
            }
        }
        assert(m.payments_have_attempts()) by {
            assert forall|p: int| p != payment implies #[trigger] m.attempt_in_hand(p)
                == l.attempt_in_hand(p) by {}
            assert forall|p: int| p != payment implies #[trigger] m.invoice_in_hand(p)
                == l.invoice_in_hand(p) by {}
            assert(m.attempt_in_hand(payment) == Some(attempt_id));
            assert forall|p: int|
                (#[trigger] m.attempt_in_hand(p)) is Some implies m.attempts.contains_key(
                m.attempt_in_hand(p)->0,
            ) && m.attempts[m.attempt_in_hand(p)->0].status == "pending"@
                && m.attempts[m.attempt_in_hand(p)->0].invoice_id == m.invoice_in_hand(p) by {
                if p != payment {
                    assert(l.attempt_in_hand(p) is Some);
                    assert(m.invoice_in_hand(p) == l.invoice_in_hand(p));
                }
            }
            assert forall|p: int, q: int|
                (#[trigger] m.attempt_in_hand(p)) is Some && (#[trigger] m.attempt_in_hand(q))
                    == m.attempt_in_hand(p) implies p == q by {
                if p != payment {
                    assert(l.attempt_in_hand(p) is Some);
                }
                if q != payment {
                    assert(l.attempt_in_hand(q) is Some);
                }
            }
            assert forall|p: int|
                #![trigger m.payments[p]]
                m.payments.contains_key(p) && m.payments[p] is RecordOutcome implies exists|
                result: PspResultView,
            |
                m.payments[p]->RecordOutcome_outcome == #[trigger] outcome_of(result) by {
                assert(l.payments[p] == m.payments[p]);
            }
        }
        assert(m.charges_are_unique()) by {
            if l.charges.contains(attempt_id) {
                let i = choose|i: int| 0 <= i < l.charges.len() && l.charges[i] == attempt_id;
                assert(l.attempts.contains_key(l.charges[i]));
            }
            assert forall|p: int|
                #![trigger m.payments[p]]
                m.payments.contains_key(p) && m.payments[p] is Charge implies !m.charges.contains(
                m.payments[p]->Charge_attempt_id,
            ) by {
                if p != payment {
                    assert(l.payments[p] == m.payments[p]);
                }
            }
        }
        assert(m.payments_are_backed()) by {
            statuses_differ();
            assert forall|i: u128| #[trigger] m.invoices.contains_key(i) && m.invoices[i].state
                == "paid"@ implies m.has_succeeded_attempt(i) by {
                assert(l.invoices.contains_key(i) && l.invoices[i].state == "paid"@);
                assert(l.has_succeeded_attempt(i));
                let a = choose|a: u128| #[trigger]
                    l.attempts.contains_key(a) && l.attempts[a].invoice_id == i
                        && l.attempts[a].status == "succeeded"@;
                assert(m.attempts.contains_key(a));
            }
            assert forall|p: int|
                #![trigger m.payments[p]]
                m.payments.contains_key(p)
                    && m.payments[p] is RecordOutcome implies m.charges.contains(
                m.payments[p]->RecordOutcome_attempt_id,
            ) by {
                assert(l.payments[p] == m.payments[p]);
            }
        }
    }
}

proof fn asking_keeps_sound(l: Ledger, payment: int, result: PspResultView)
    requires
        l.is_sound(),
        l.payments.contains_key(payment),
        l.payments[payment] is Charge,
    ensures
        l.after(LedgerEvent::Ask { payment, result }).is_sound(),
{
    let m = l.after(LedgerEvent::Ask { payment, result });
    let ctx = l.payments[payment]->Charge_ctx;
    let id = l.payments[payment]->Charge_attempt_id;
    assert(m.payments[payment] == (PayStepView::RecordOutcome {
        ctx,
        attempt_id: id,
        outcome: outcome_of(result),
    }));
    assert(m.charges == l.charges.push(id));
    assert(l.attempt_in_hand(payment) == Some(id));
    assert forall|p: int| #[trigger] m.attempt_in_hand(p) == l.attempt_in_hand(p) by {}
    assert forall|p: int| (#[trigger] m.attempt_in_hand(p)) is Some implies m.invoice_in_hand(p)
        == l.invoice_in_hand(p) by {}
    assert(m.payments_have_attempts()) by {
        assert forall|p: int|
            #![trigger m.payments[p]]
            m.payments.contains_key(p) && m.payments[p] is RecordOutcome implies exists|
            r: PspResultView,
        |
            m.payments[p]->RecordOutcome_outcome == #[trigger] outcome_of(r) by {
            if p != payment {
                assert(l.payments[p] == m.payments[p]);
            }
        }
    }
    assert(m.charges_are_unique()) by {
        assert(!l.charges.contains(id));
        assert forall|p: int|
            #![trigger m.payments[p]]
            m.payments.contains_key(p) && m.payments[p] is Charge implies !m.charges.contains(
            m.payments[p]->Charge_attempt_id,
        ) by {
            assert(p != payment);
            assert(l.payments[p] == m.payments[p]);
            assert(l.attempt_in_hand(p) == Some(m.payments[p]->Charge_attempt_id));
            assert(m.payments[p]->Charge_attempt_id != id);
        }
    }
    assert(m.payments_are_backed()) by {
        assert forall|c: u128| l.charges.contains(c) implies #[trigger] m.charges.contains(c) by {
            let i = choose|i: int| 0 <= i < l.charges.len() && l.charges[i] == c;
            assert(m.charges[i] == c);
        }
        assert(m.charges[l.charges.len() as int] == id);
        assert forall|i: u128| #[trigger] m.invoices.contains_key(i) && m.invoices[i].state
            == "paid"@ implies m.has_succeeded_attempt(i) by {
            assert(l.has_succeeded_attempt(i));
            let a = choose|a: u128| #[trigger]
                l.attempts.contains_key(a) && l.attempts[a].invoice_id == i
                    && l.attempts[a].status == "succeeded"@;
            assert(m.attempts.contains_key(a));
        }
        assert forall|p: int|
            #![trigger m.payments[p]]
            m.payments.contains_key(p) && m.payments[p] is RecordOutcome implies m.charges.contains(
            m.payments[p]->RecordOutcome_attempt_id,
        ) by {
            if p != payment {
                assert(l.payments[p] == m.payments[p]);
            }
        }
    }
}

proof fn recording_keeps_sound(l: Ledger, payment: int, now: i64)
    requires
        l.is_sound(),
        l.payments.contains_key(payment),
        l.payments[payment] is RecordOutcome,
    ensures
        l.record(payment, l.payments[payment], now).is_sound(),
{
    let step = l.payments[payment];
    let m = l.record(payment, step, now);
    let id = step->RecordOutcome_attempt_id;
    let ctx = step->RecordOutcome_ctx;
    let outcome = step->RecordOutcome_outcome;
    let row = l.settled_attempt(step, now);
    statuses_differ();
    states_differ();
    let result = choose|r: PspResultView| outcome == #[trigger] outcome_of(r);
    assert(outcome == outcome_of(result));
    assert(l.attempt_in_hand(payment) == Some(id));
    assert(m.attempts == l.attempts.insert(id, row));
    assert(m.charges == l.charges);
    assert(m.payments[payment] is Announce);
    assert(m.payments == l.payments.insert(payment, m.payments[payment]));
    assert forall|i: u128| #[trigger] m.attempts.contains_key(i) implies l.attempts.contains_key(
        i,
    ) && m.attempts[i].id == l.attempts[i].id && m.attempts[i].invoice_id
        == l.attempts[i].invoice_id && m.attempts[i].idempotency_key
        == l.attempts[i].idempotency_key && (is_active(m.attempts[i].status) ==> is_active(
        l.attempts[i].status,
    )) by {}
    assert(m.keys_are_unique()) by {
        assert forall|a: u128, b: u128| #[trigger]
            m.attempts.contains_key(a) && #[trigger] m.attempts.contains_key(b)
                && m.attempts[a].idempotency_key == m.attempts[b].idempotency_key implies a
            == b by {
            assert(l.attempts.contains_key(a) && l.attempts.contains_key(b));
        }
    }
    assert(m.active_attempts_are_unique()) by {
        assert forall|a: u128, b: u128| #[trigger]
            m.attempts.contains_key(a) && #[trigger] m.attempts.contains_key(b)
                && m.attempts[a].invoice_id == m.attempts[b].invoice_id && is_active(
                m.attempts[a].status,
            ) && is_active(m.attempts[b].status) implies a == b by {
            assert(l.attempts.contains_key(a) && l.attempts.contains_key(b));
        }
    }
    assert(m.payments_have_attempts()) by {
        assert forall|p: int| (#[trigger] m.attempt_in_hand(p)) is Some implies p != payment
            && m.attempt_in_hand(p) == l.attempt_in_hand(p) && m.invoice_in_hand(p)
            == l.invoice_in_hand(p) by {}
        assert forall|p: int|
            (#[trigger] m.attempt_in_hand(p)) is Some implies m.attempts.contains_key(
            m.attempt_in_hand(p)->0,
        ) && m.attempts[m.attempt_in_hand(p)->0].status == "pending"@
            && m.attempts[m.attempt_in_hand(p)->0].invoice_id == m.invoice_in_hand(p) by {
            assert(l.attempt_in_hand(p) == m.attempt_in_hand(p));
            assert(m.attempt_in_hand(p)->0 != id);
        }
        assert forall|p: int, q: int|
            (#[trigger] m.attempt_in_hand(p)) is Some && (#[trigger] m.attempt_in_hand(q))
                == m.attempt_in_hand(p) implies p == q by {
            assert(l.attempt_in_hand(p) == l.attempt_in_hand(q));
        }
        assert forall|p: int|
            #![trigger m.payments[p]]
            m.payments.contains_key(p) && m.payments[p] is RecordOutcome implies exists|
            r: PspResultView,
        |
            m.payments[p]->RecordOutcome_outcome == #[trigger] outcome_of(r) by {
            assert(l.payments[p] == m.payments[p]);
        }
    }
    assert(m.charges_are_unique()) by {
        assert forall|p: int|
            #![trigger m.payments[p]]
            m.payments.contains_key(p) && m.payments[p] is Charge implies !m.charges.contains(
            m.payments[p]->Charge_attempt_id,
        ) by {
            assert(l.payments[p] == m.payments[p]);
        }
    }
    assert(m.payments_are_backed()) by {
        assert(m.attempts.contains_key(id));
        assert forall|i: u128| #[trigger] m.invoices.contains_key(i) && m.invoices[i].state
            == "paid"@ implies m.has_succeeded_attempt(i) by {
            if l.invoices.contains_key(i) && l.invoices[i].state == "paid"@ {
                assert(l.has_succeeded_attempt(i));
                let a = choose|a: u128| #[trigger]
                    l.attempts.contains_key(a) && l.attempts[a].invoice_id == i
                        && l.attempts[a].status == "succeeded"@;
                assert(a != id);
                assert(m.attempts.contains_key(a));
            } else {
                assert(i == ctx.invoice_id);
                assert(m.attempts[id].status == "succeeded"@);
            }
        }
        assert forall|p: int|
            #![trigger m.payments[p]]
            m.payments.contains_key(p) && m.payments[p] is RecordOutcome implies m.charges.contains(
            m.payments[p]->RecordOutcome_attempt_id,
        ) by {
            assert(l.payments[p] == m.payments[p]);
        }
        assert(l.charges.contains(id));
    }
}

/// Whatever happens, a sound ledger stays sound.
pub proof fn events_keep_ledgers_sound(l: Ledger, event: LedgerEvent)
    requires
        l.is_sound(),
    ensures
        l.after(event).is_sound(),
{
    let m = l.after(event);
    states_differ();
    match event {
        LedgerEvent::Create { invoice } => {
            if !l.invoices.contains_key(invoice.id) && invoice.state == "draft"@ {
                assert forall|p: int| #[trigger] m.attempt_in_hand(p) == l.attempt_in_hand(p) by {}
                assert forall|p: int| m.invoice_in_hand(p) == #[trigger] l.invoice_in_hand(p) by {}
                assert forall|i: u128| #[trigger] m.invoices.contains_key(i) && m.invoices[i].state
                    == "paid"@ implies m.has_succeeded_attempt(i) by {
                    assert(l.invoices.contains_key(i));
                    assert(l.has_succeeded_attempt(i));
                    let a = choose|a: u128| #[trigger]
                        l.attempts.contains_key(a) && l.attempts[a].invoice_id == i
                            && l.attempts[a].status == "succeeded"@;
                    assert(m.attempts.contains_key(a));
                }
            }
        },
        LedgerEvent::Open { business_id, id, now } => {
            if opened(id, l.find_invoice(id, business_id)) is Ok {
                moving_keeps_sound(l, id, "open"@, now);
            }
        },
        LedgerEvent::Void { business_id, id, now } => {
            if voided(id, l.find_invoice(id, business_id)) is Ok {
                moving_keeps_sound(l, id, "void"@, now);
            }
        },
        LedgerEvent::GiveUp { business_id, id, now } => {
            if given_up(id, l.find_invoice(id, business_id)) is Ok {
                moving_keeps_sound(l, id, "uncollectible"@, now);
            }
        },
        LedgerEvent::Arrive { payment, business_id, invoice_id, idempotency_key, card_token } => {
            resting_keeps_sound_or_same(l, m, payment);
        },
        LedgerEvent::Lookup { payment } => {
            resting_keeps_sound_or_same(l, m, payment);
        },
        LedgerEvent::Start { payment, attempt_id, now } => {
            if l.payments.contains_key(payment) && !l.attempts.contains_key(attempt_id) {
                if let PayStepView::LockInvoice { ctx } = l.payments[payment] {
                    starting_keeps_sound(l, payment, ctx, attempt_id, now);
                }
            }
        },
        LedgerEvent::Ask { payment, result } => {
            if l.payments.contains_key(payment) && l.payments[payment] is Charge {
                asking_keeps_sound(l, payment, result);
            }
        },
        LedgerEvent::Record { payment, now } => {
            if l.payments.contains_key(payment) && l.payments[payment] is RecordOutcome {
                recording_keeps_sound(l, payment, now);
            }
        },
        LedgerEvent::Fail { payment, failure } => {
            if l.payments.contains_key(payment) && l.payments[payment] is Charge {
                assert(m.payments =~= l.payments);
            } else {
                resting_keeps_sound_or_same(l, m, payment);
            }
        },
        LedgerEvent::Crash { payment } => {
            resting_keeps_sound(l, m, payment);
        },
    }
}

proof fn resting_keeps_sound_or_same(l: Ledger, m: Ledger, payment: int)
    requires
        l.is_sound(),
        m == l || (exists|step: PayStepView| is_quiet(step) && m == #[trigger] l.at(payment, step)),
    ensures
        m.is_sound(),
{
    if m != l {
        resting_keeps_sound(l, m, payment);
    }
}

/// Whatever happens, and in whatever order, the ledger stays sound.
pub proof fn ledgers_are_sound(l: Ledger, events: Seq<LedgerEvent>)
    requires
        l.is_sound(),
    ensures
        l.after_all(events).is_sound(),
    decreases events.len(),
{
    if events.len() > 0 {
        ledgers_are_sound(l, events.drop_last());
        events_keep_ledgers_sound(l.after_all(events.drop_last()), events.last());
    }
}

/// No double charge: however payments are interleaved, fail or break down, an invoice has at
/// most one attempt that is pending or has succeeded, the PSP is asked at most once for an
/// attempt, and only after the attempt was recorded.
pub proof fn no_double_charge(events: Seq<LedgerEvent>, a: u128, b: u128)
    ensures
        ({
            let l = Ledger::empty().after_all(events);
            &&& l.attempts.contains_key(a) && l.attempts.contains_key(b)
                && l.attempts[a].invoice_id == l.attempts[b].invoice_id && is_active(
                l.attempts[a].status,
            ) && is_active(l.attempts[b].status) ==> a == b
            &&& l.charges.no_duplicates()
            &&& l.charges.contains(a) ==> l.attempts.contains_key(a)
        }),
{
    assert(Ledger::empty().is_sound());
    ledgers_are_sound(Ledger::empty(), events);
}

/// An invoice is paid only by an attempt that the PSP was asked for and that succeeded.
pub proof fn paid_invoices_were_charged(events: Seq<LedgerEvent>, invoice_id: u128) -> (attempt:
    u128)
    requires
        Ledger::empty().after_all(events).invoices.contains_key(invoice_id),
        Ledger::empty().after_all(events).invoices[invoice_id].state == "paid"@,
    ensures
        ({
            let l = Ledger::empty().after_all(events);
            &&& l.attempts.contains_key(attempt)
            &&& l.attempts[attempt].invoice_id == invoice_id
            &&& l.attempts[attempt].status == "succeeded"@
            &&& l.charges.contains(attempt)
        }),
{
    assert(Ledger::empty().is_sound());
    ledgers_are_sound(Ledger::empty(), events);
    let l = Ledger::empty().after_all(events);
    assert(l.has_succeeded_attempt(invoice_id));
    choose|id: u128| #[trigger]
        l.attempts.contains_key(id) && l.attempts[id].invoice_id == invoice_id
            && l.attempts[id].status == "succeeded"@
}

/// No two payments of the same invoice are at the PSP, or back from it, at the same time.
pub proof fn one_payment_at_the_psp(l: Ledger, p: int, q: int)
    requires
        l.is_sound(),
        l.attempt_in_hand(p) is Some,
        l.attempt_in_hand(q) is Some,
        l.invoice_in_hand(p) == l.invoice_in_hand(q),
    ensures
        p == q,
{
    let a = l.attempt_in_hand(p)->0;
    let b = l.attempt_in_hand(q)->0;
    assert(l.attempts.contains_key(a) && l.attempts.contains_key(b));
    assert(a == b);
}

/// An attempt stays on the ledger, for the same request, and one that has ended stays as it
/// ended.
pub proof fn attempts_stay(l: Ledger, event: LedgerEvent, id: u128)
    requires
        l.is_sound(),
        l.attempts.contains_key(id),
    ensures
        l.after(event).attempts.contains_key(id),
        l.after(event).attempts[id].invoice_id == l.attempts[id].invoice_id,
        l.after(event).attempts[id].idempotency_key == l.attempts[id].idempotency_key,
        l.after(event).attempts[id].card_token == l.attempts[id].card_token,
        l.after(event).attempts[id].request_hash == l.attempts[id].request_hash,
        l.after(event).attempts[id].created_at == l.attempts[id].created_at,
        l.attempts[id].status != "pending"@ ==> l.after(event).attempts[id] == l.attempts[id],
{
    if let LedgerEvent::Record { payment, now } = event {
        if l.payments.contains_key(payment) && l.payments[payment] is RecordOutcome {
            assert(l.attempt_in_hand(payment) == Some(
                l.payments[payment]->RecordOutcome_attempt_id,
            ));
        }
    }
}

/// Attempts that have ended stay as they ended, whatever happens.
pub proof fn ended_attempts_rest(l: Ledger, events: Seq<LedgerEvent>, id: u128)
    requires
        l.is_sound(),
        l.attempts.contains_key(id),
        l.attempts[id].status != "pending"@,
    ensures
        l.after_all(events).attempts.contains_key(id),
        l.after_all(events).attempts[id] == l.attempts[id],
    decreases events.len(),
{
    if events.len() > 0 {
        ended_attempts_rest(l, events.drop_last(), id);
        ledgers_are_sound(l, events.drop_last());
        attempts_stay(l.after_all(events.drop_last()), events.last(), id);
    }
}

/// Once an attempt to pay an invoice has succeeded, the PSP is never asked to charge that
/// invoice again.
pub proof fn success_ends_charging(l: Ledger, events: Seq<LedgerEvent>, id: u128, i: int)
    requires
        l.is_sound(),
        l.attempts.contains_key(id),
        l.attempts[id].status == "succeeded"@,
        l.charges.len() <= i < l.after_all(events).charges.len(),
    ensures
        l.after_all(events).attempts[l.after_all(events).charges[i]].invoice_id
            != l.attempts[id].invoice_id,
    decreases events.len(),
{
    statuses_differ();
    if events.len() > 0 {
        let m = l.after_all(events.drop_last());
        let event = events.last();
        ledgers_are_sound(l, events.drop_last());
        ended_attempts_rest(l, events.drop_last(), id);
        if i < m.charges.len() {
            success_ends_charging(l, events.drop_last(), id, i);
            assert(m.attempts.contains_key(m.charges[i]));
            attempts_stay(m, event, m.charges[i]);
            assert(m.after(event).charges[i] == m.charges[i]);
        } else {
            assert(event is Ask);
            let payment = event->Ask_payment;
            assert(m.attempt_in_hand(payment) is Some);
            let asked = m.payments[payment]->Charge_attempt_id;
            assert(m.after(event).charges[i] == asked);
            assert(m.attempts.contains_key(asked) && m.attempts.contains_key(id));
            assert(asked != id);
        }
    }
}

proof fn lost_attempt_stays_pending(l: Ledger, event: LedgerEvent, id: u128)
    requires
        l.is_sound(),
        l.attempts.contains_key(id),
        l.attempts[id].status == "pending"@,
        forall|p: int| #[trigger] l.attempt_in_hand(p) != Some(id),
    ensures
        l.after(event).attempts.contains_key(id),
        l.after(event).attempts[id] == l.attempts[id],
        forall|p: int| #[trigger] l.after(event).attempt_in_hand(p) != Some(id),
{
    let m = l.after(event);
    match event {
        LedgerEvent::Start { payment, attempt_id, now } => {
            if l.payments.contains_key(payment) && l.payments[payment] is LockInvoice {
                first_transaction(l, l.payments[payment]->LockInvoice_ctx, attempt_id, now);
            }
        },
        LedgerEvent::Record { payment, now } => {
            if l.payments.contains_key(payment) && l.payments[payment] is RecordOutcome {
                assert(l.attempt_in_hand(payment) != Some(id));
            }
        },
        _ => {},
    }
    assert forall|p: int| #[trigger] m.attempt_in_hand(p) != Some(id) by {
        assert(l.attempt_in_hand(p) != Some(id));
    }
}

/// An attempt whose payment broke down, after it was recorded and before its end was, stays
/// pending, whatever happens: so no other payment of its invoice comes to the PSP.
pub proof fn lost_attempts_stay_pending(l: Ledger, events: Seq<LedgerEvent>, id: u128)
    requires
        l.is_sound(),
        l.attempts.contains_key(id),
        l.attempts[id].status == "pending"@,
        forall|p: int| #[trigger] l.attempt_in_hand(p) != Some(id),
    ensures
        l.after_all(events).attempts.contains_key(id),
        l.after_all(events).attempts[id] == l.attempts[id],
        forall|p: int| #[trigger]
            l.after_all(events).attempt_in_hand(p) is Some ==> l.after_all(events).invoice_in_hand(
                p,
            ) != l.attempts[id].invoice_id,
{
    let m = l.after_all(events);
    ledgers_are_sound(l, events);
    lost_attempts_are_not_taken_up(l, events, id);
    assert forall|p: int| #[trigger] m.attempt_in_hand(p) is Some implies m.invoice_in_hand(p)
        != l.attempts[id].invoice_id by {
        let other = m.attempt_in_hand(p)->0;
        assert(m.attempts.contains_key(other) && m.attempts.contains_key(id));
        assert(other != id);
    }
}

proof fn lost_attempts_are_not_taken_up(l: Ledger, events: Seq<LedgerEvent>, id: u128)
    requires
        l.is_sound(),
        l.attempts.contains_key(id),
        l.attempts[id].status == "pending"@,
        forall|p: int| #[trigger] l.attempt_in_hand(p) != Some(id),
    ensures
        l.after_all(events).attempts.contains_key(id),
        l.after_all(events).attempts[id] == l.attempts[id],
        forall|p: int| #[trigger] l.after_all(events).attempt_in_hand(p) != Some(id),
    decreases events.len(),
{
    if events.len() > 0 {
        lost_attempts_are_not_taken_up(l, events.drop_last(), id);
        ledgers_are_sound(l, events.drop_last());
        lost_attempt_stays_pending(l.after_all(events.drop_last()), events.last(), id);
    }
}

/// A payment of an invoice for which another attempt is pending or has succeeded, or whose
/// idempotency key is taken, ends with the HTTP status 409 before the PSP is asked, and
/// leaves nothing behind.
pub proof fn rivals_are_refused(l: Ledger, payment: int, attempt_id: u128, now: i64)
    requires
        l.payments.contains_key(payment),
        l.payments[payment] is LockInvoice,
        !l.attempts.contains_key(attempt_id),
        l.find_invoice(
            l.payments[payment]->LockInvoice_ctx.invoice_id,
            l.payments[payment]->LockInvoice_ctx.business_id,
        ) matches Some(invoice) && (invoice.state == "draft"@ || invoice.state == "open"@),
        l.has_active_attempt(l.payments[payment]->LockInvoice_ctx.invoice_id) || l.key_is_used(
            l.payments[payment]->LockInvoice_ctx.idempotency_key,
        ),
    ensures
        ({
            let m = l.after(LedgerEvent::Start { payment, attempt_id, now });
            &&& m.payments[payment] matches PayStepView::Finished { result }
            &&& result matches Err(error)
            &&& error.status_code() == 409
            &&& m == l.at(payment, m.payments[payment])
        }),
{
    first_transaction(l, l.payments[payment]->LockInvoice_ctx, attempt_id, now);
}

/// A payment of an invoice that is already paid ends with the HTTP status 409, one of an
/// invoice that was voided or given up with 422, and one of an invoice that the business
/// does not have with 404, each before the PSP is asked and with nothing left behind.
pub proof fn closed_invoices_are_not_paid(l: Ledger, payment: int, attempt_id: u128, now: i64)
    requires
        l.payments.contains_key(payment),
        l.payments[payment] is LockInvoice,
        !l.attempts.contains_key(attempt_id),
        l.find_invoice(
            l.payments[payment]->LockInvoice_ctx.invoice_id,
            l.payments[payment]->LockInvoice_ctx.business_id,
        ) matches Some(invoice) ==> is_terminal(invoice.state),
    ensures
        ({
            let ctx = l.payments[payment]->LockInvoice_ctx;
            let m = l.after(LedgerEvent::Start { payment, attempt_id, now });
            &&& m.payments[payment] matches PayStepView::Finished { result }
            &&& result matches Err(error)
            &&& error.status_code() == (match l.find_invoice(ctx.invoice_id, ctx.business_id) {
                None => 404int,
                Some(invoice) => if invoice.state == "paid"@ {
                    409
                } else {
                    422
                },
            })
            &&& m == l.at(payment, m.payments[payment])
        }),
{
    first_transaction(l, l.payments[payment]->LockInvoice_ctx, attempt_id, now);
    states_differ();
}

/// A charge that did not succeed, by a refusal, a timeout or a network error, leaves the
/// invoice as it is and its attempt failed, and the payment is answered with the HTTP
/// status 402.
pub proof fn failed_charges_leave_invoices(l: Ledger, payment: int, now: i64, result: PspResultView)
    requires
        l.is_sound(),
        l.payments.contains_key(payment),
        l.payments[payment] is RecordOutcome,
        l.payments[payment]->RecordOutcome_outcome == outcome_of(result),
        !(result is Succeeded),
    ensures
        ({
            let m = l.after(LedgerEvent::Record { payment, now });
            let id = l.payments[payment]->RecordOutcome_attempt_id;
            &&& m.invoices == l.invoices
            &&& m.attempts[id].status == "failed"@
            &&& m.attempts[id].failure_code == Some(
                match result {
                    PspResultView::Failed { code } => code,
                    PspResultView::Timeout => "psp_timeout"@,
                    _ => "network_error"@,
                },
            )
            &&& !m.has_active_attempt(l.attempts[id].invoice_id)
            &&& m.payments[payment] matches PayStepView::Announce { response, .. }
            &&& response.status_code == 402
            &&& response.attempt == m.attempts[id]
        }),
{
    statuses_differ();
    let m = l.after(LedgerEvent::Record { payment, now });
    let id = l.payments[payment]->RecordOutcome_attempt_id;
    assert(l.attempt_in_hand(payment) == Some(id));
    assert(l.attempts.contains_key(id));
    if m.has_active_attempt(l.attempts[id].invoice_id) {
        let a = choose|a: u128| #[trigger]
            m.attempts.contains_key(a) && m.attempts[a].invoice_id == l.attempts[id].invoice_id
                && is_active(m.attempts[a].status);
        assert(l.attempts.contains_key(a));
    }
}

/// A charge that succeeded pays the invoice, if it is still open, and the payment is
/// answered with the HTTP status 200.
pub proof fn successful_charges_pay(l: Ledger, payment: int, now: i64, psp_ref: Seq<char>)
    requires
        l.is_sound(),
        l.payments.contains_key(payment),
        l.payments[payment] is RecordOutcome,
        l.payments[payment]->RecordOutcome_outcome == outcome_of(
            PspResultView::Succeeded { psp_ref },
        ),
    ensures
        ({
            let m = l.after(LedgerEvent::Record { payment, now });
            let id = l.payments[payment]->RecordOutcome_attempt_id;
            let invoice_id = l.payments[payment]->RecordOutcome_ctx.invoice_id;
            &&& m.attempts[id].status == "succeeded"@
            &&& m.attempts[id].psp_ref == Some(psp_ref)
            &&& m.invoices[invoice_id].state == (if l.invoices[invoice_id].state == "open"@ {
                "paid"@
            } else {
                l.invoices[invoice_id].state
            })
            &&& m.payments[payment] matches PayStepView::Announce { response, .. }
            &&& response.status_code == 200
            &&& response.attempt == m.attempts[id]
        }),
{
    let id = l.payments[payment]->RecordOutcome_attempt_id;
    assert(l.attempt_in_hand(payment) == Some(id));
    assert(l.attempts.contains_key(id));
}

/// After a failed charge the invoice can be paid with a new idempotency key: a payment of a
/// draft or an open invoice without a pending or successful attempt goes to the PSP.
pub proof fn free_invoices_can_be_paid(l: Ledger, payment: int, attempt_id: u128, now: i64)
    requires
        l.payments.contains_key(payment),
        l.payments[payment] is LockInvoice,
        !l.attempts.contains_key(attempt_id),
        l.find_invoice(
            l.payments[payment]->LockInvoice_ctx.invoice_id,
            l.payments[payment]->LockInvoice_ctx.business_id,
        ) matches Some(invoice) && (invoice.state == "draft"@ || invoice.state == "open"@),
        !l.has_active_attempt(l.payments[payment]->LockInvoice_ctx.invoice_id),
        !l.key_is_used(l.payments[payment]->LockInvoice_ctx.idempotency_key),
    ensures
        ({
            let ctx = l.payments[payment]->LockInvoice_ctx;
            let m = l.after(LedgerEvent::Start { payment, attempt_id, now });
            &&& m.payments[payment] == (PayStepView::Charge { ctx, attempt_id })
            &&& m.attempts == l.attempts.insert(attempt_id, pending_attempt(ctx, attempt_id, now))
            &&& m.invoices[ctx.invoice_id].state == "open"@
            &&& m.charges == l.charges
        }),
{
    first_transaction(l, l.payments[payment]->LockInvoice_ctx, attempt_id, now);
}

/// Idempotency: a payment whose idempotency key the business has used before is answered
/// from the ledger, and neither the ledger nor the PSP is touched. A repetition of the same
/// request gets the same attempt back, with the HTTP status 200 if it succeeded and 402
/// otherwise; another request under the same key gets 422.
pub proof fn repetitions_are_answered(l: Ledger, payment: int, id: u128)
    requires
        l.is_sound(),
        l.payments.contains_key(payment),
        l.payments[payment] is FindAttempt,
        l.attempts.contains_key(id),
        l.attempts[id].idempotency_key == l.payments[payment]->FindAttempt_ctx.idempotency_key,
        l.invoices[l.attempts[id].invoice_id].business_id
            == l.payments[payment]->FindAttempt_ctx.business_id,
    ensures
        ({
            let ctx = l.payments[payment]->FindAttempt_ctx;
            let m = l.after(LedgerEvent::Lookup { payment });
            &&& m == l.at(payment, m.payments[payment])
            &&& m.payments[payment] matches PayStepView::Finished { result }
            &&& if l.attempts[id].request_hash == ctx.request_hash {
                result == Ok::<PayResponseView, AppErrorView>(
                    PayResponseView {
                        status_code: attempt_status_code(l.attempts[id].status),
                        attempt: l.attempts[id],
                    },
                )
            } else {
                result matches Err(error) && error.status_code() == 422
            }
        }),
{
    let ctx = l.payments[payment]->FindAttempt_ctx;
    assert(l.key_is_used(ctx.idempotency_key));
    let found = choose|i: u128| #[trigger]
        l.attempts.contains_key(i) && l.attempts[i].idempotency_key == ctx.idempotency_key;
    assert(found == id);
}

/// No cross-business access: whatever a lookup finds, a payment is only ever answered with
/// an attempt to pay an invoice of its own business.
pub proof fn lookups_stay_within_the_business(l: Ledger, payment: int)
    requires
        l.is_sound(),
        l.payments.contains_key(payment),
        l.payments[payment] is FindAttempt,
    ensures
        ({
            let ctx = l.payments[payment]->FindAttempt_ctx;
            let m = l.after(LedgerEvent::Lookup { payment });
            m.payments[payment] matches PayStepView::Finished { result } ==> exists|id: u128|
                #[trigger]
                l.attempts.contains_key(id) && l.invoices[l.attempts[id].invoice_id].business_id
                    == ctx.business_id && result == repeated_answer(
                    l.attempts[id],
                    ctx.request_hash,
                )
        }),
{
    let ctx = l.payments[payment]->FindAttempt_ctx;
    if l.key_is_used(ctx.idempotency_key) {
        let found = choose|i: u128| #[trigger]
            l.attempts.contains_key(i) && l.attempts[i].idempotency_key == ctx.idempotency_key;
        assert(l.attempts.contains_key(found));
    }
}

/// Whatever happens, an invoice stays on the ledger and makes only the moves that it may
/// make. Its business and its total never change.
pub proof fn invoices_move_as_allowed(l: Ledger, event: LedgerEvent, id: u128)
    requires
        l.is_sound(),
        l.invoices.contains_key(id),
    ensures
        l.after(event).invoices.contains_key(id),
        l.after(event).invoices[id].state == l.invoices[id].state || may_move(
            l.invoices[id].state,
            l.after(event).invoices[id].state,
        ),
        l.after(event).invoices[id].business_id == l.invoices[id].business_id,
        l.after(event).invoices[id].total_cents == l.invoices[id].total_cents,
{
    states_differ();
    match event {
        LedgerEvent::Start { payment, attempt_id, now } => {
            if l.payments.contains_key(payment) && l.payments[payment] is LockInvoice {
                first_transaction(l, l.payments[payment]->LockInvoice_ctx, attempt_id, now);
            }
        },
        LedgerEvent::Record { payment, now } => {
            if l.payments.contains_key(payment) && l.payments[payment] is RecordOutcome {
                let outcome = l.payments[payment]->RecordOutcome_outcome;
                let result = choose|r: PspResultView| outcome == #[trigger] outcome_of(r);
                assert(outcome == outcome_of(result));
            }
        },
        _ => {},
    }
}

/// An invoice that is paid, void or uncollectible stays so, whatever happens.
pub proof fn closed_invoices_stay_closed(l: Ledger, events: Seq<LedgerEvent>, id: u128)
    requires
        l.is_sound(),
        l.invoices.contains_key(id),
        is_terminal(l.invoices[id].state),
    ensures
        l.after_all(events).invoices.contains_key(id),
        l.after_all(events).invoices[id].state == l.invoices[id].state,
    decreases events.len(),
{
    if events.len() > 0 {
        closed_invoices_stay_closed(l, events.drop_last(), id);
        ledgers_are_sound(l, events.drop_last());
        let m = l.after_all(events.drop_last());
        invoices_move_as_allowed(m, events.last(), id);
        states_differ();
    }
}

/// However it came about, the hash of every request is that of its card token.
pub proof fn requests_stay_hashed(events: Seq<LedgerEvent>)
    ensures
        Ledger::empty().after_all(events).requests_are_hashed(),
    decreases events.len(),
{
    if events.len() > 0 {
        let l = Ledger::empty().after_all(events.drop_last());
        let event = events.last();
        let m = l.after(event);
        requests_stay_hashed(events.drop_last());
        assert(Ledger::empty().is_sound());
        ledgers_are_sound(Ledger::empty(), events.drop_last());
        match event {
            LedgerEvent::Start { payment, attempt_id, now } => {
                if l.payments.contains_key(payment) && l.payments[payment] is LockInvoice {
                    first_transaction(l, l.payments[payment]->LockInvoice_ctx, attempt_id, now);
                }
            },
            LedgerEvent::Record { payment, now } => {
                if l.payments.contains_key(payment) && l.payments[payment] is RecordOutcome {
                    assert(l.attempt_in_hand(payment) is Some);
                    assert(l.attempts.contains_key(l.attempt_in_hand(payment)->0));
                }
            },
            _ => {},
        }
        assert forall|id: u128| #[trigger]
            m.attempts.contains_key(id) implies m.attempts[id].request_hash == text_digest(
            m.attempts[id].card_token,
        ) by {
            if l.attempts.contains_key(id) {
                attempts_stay(l, event, id);
            }
        }
        assert forall|p: int| #[trigger] m.payments.contains_key(p) implies match m.payments[p] {
            PayStepView::FindAttempt { ctx } => ctx.request_hash == text_digest(ctx.card_token),
            PayStepView::LockInvoice { ctx } => ctx.request_hash == text_digest(ctx.card_token),
            _ => true,
        } by {
            assert(l.payments.contains_key(p) || event is Arrive);
        }
    }
}

/// The same request again, with the same idempotency key and the same card token, gets the
/// same attempt back, and neither the ledger nor the PSP is touched.
pub proof fn same_requests_get_the_same_attempt(events: Seq<LedgerEvent>, payment: int, id: u128)
    requires
        ({
            let l = Ledger::empty().after_all(events);
            &&& l.payments.contains_key(payment)
            &&& l.payments[payment] matches PayStepView::FindAttempt { ctx }
            &&& l.attempts.contains_key(id)
            &&& l.attempts[id].idempotency_key == ctx.idempotency_key
            &&& l.attempts[id].card_token == ctx.card_token
            &&& l.invoices[l.attempts[id].invoice_id].business_id == ctx.business_id
        }),
    ensures
        ({
            let l = Ledger::empty().after_all(events);
            let answer = PayResponseView {
                status_code: attempt_status_code(l.attempts[id].status),
                attempt: l.attempts[id],
            };
            l.after(LedgerEvent::Lookup { payment }) == l.at(
                payment,
                PayStepView::Finished { result: Ok(answer) },
            )
        }),
{
    assert(Ledger::empty().is_sound());
    ledgers_are_sound(Ledger::empty(), events);
    requests_stay_hashed(events);
    repetitions_are_answered(Ledger::empty().after_all(events), payment, id);
}

/// However it came about, the invoices are finitely many, kept by their ids, and each in one
/// of the five states.
pub proof fn invoices_are_in_order(events: Seq<LedgerEvent>)
    ensures
        Ledger::empty().after_all(events).invoices.dom().finite(),
        forall|id: u128| #[trigger]
            Ledger::empty().after_all(events).invoices.contains_key(id)
                ==> Ledger::empty().after_all(events).invoices[id].id == id && is_state(
                Ledger::empty().after_all(events).invoices[id].state,
            ),
    decreases events.len(),
{
    if events.len() > 0 {
        let l = Ledger::empty().after_all(events.drop_last());
        let event = events.last();
        invoices_are_in_order(events.drop_last());
        assert(Ledger::empty().is_sound());
        ledgers_are_sound(Ledger::empty(), events.drop_last());
        match event {
            LedgerEvent::Start { payment, attempt_id, now } => {
                if l.payments.contains_key(payment) && l.payments[payment] is LockInvoice {
                    first_transaction(l, l.payments[payment]->LockInvoice_ctx, attempt_id, now);
                }
            },
            _ => {},
        }
        assert forall|id: u128| #[trigger] l.after(event).invoices.contains_key(id) implies l.after(
            event,
        ).invoices[id].id == id && is_state(l.after(event).invoices[id].state) by {
            if l.invoices.contains_key(id) {
                invoices_move_as_allowed(l, event, id);
            }
        }
    }
}

/// Whatever has happened, there is a list of the invoices of a business, newest first.
pub proof fn invoices_can_be_listed(
    events: Seq<LedgerEvent>,
    business_id: u128,
    state: Option<Seq<char>>,
) -> (rows: Seq<InvoiceView>)
    ensures
        is_listing(Ledger::empty().after_all(events).invoices, rows, business_id, state),
{
    invoices_are_in_order(events);
    listings_exist(
        Ledger::empty().after_all(events).invoices,
        |invoice: InvoiceView| is_wanted(invoice, business_id, state),
    )
}

/// A list by a state that no invoice can be in is empty.
pub proof fn unknown_states_list_nothing(
    events: Seq<LedgerEvent>,
    rows: Seq<InvoiceView>,
    business_id: u128,
    state: Seq<char>,
)
    requires
        !is_state(state),
        is_listing(Ledger::empty().after_all(events).invoices, rows, business_id, Some(state)),
    ensures
        rows.len() == 0,
{
    invoices_are_in_order(events);
    if rows.len() > 0 {
        assert(Ledger::empty().after_all(events).invoices.contains_key(rows[0].key()));
    }
}

/// Whether an event is about the payment.
pub open spec fn concerns(event: LedgerEvent, payment: int) -> bool {
    match event {
        LedgerEvent::Arrive { payment: p, .. } => p == payment,
        LedgerEvent::Lookup { payment: p } => p == payment,
        LedgerEvent::Start { payment: p, .. } => p == payment,
        LedgerEvent::Ask { payment: p, .. } => p == payment,
        LedgerEvent::Record { payment: p, .. } => p == payment,
        LedgerEvent::Fail { payment: p, .. } => p == payment,
        LedgerEvent::Crash { payment: p } => p == payment,
        _ => false,
    }
}

/// A payment stays at its step while the events are about others.
pub proof fn payments_wait(l: Ledger, events: Seq<LedgerEvent>, payment: int)
    requires
        l.payments.contains_key(payment),
        forall|i: int| 0 <= i < events.len() ==> !concerns(#[trigger] events[i], payment),
    ensures
        l.after_all(events).payments.contains_key(payment),
        l.after_all(events).payments[payment] == l.payments[payment],
    decreases events.len(),
{
    if events.len() > 0 {
        let init = events.drop_last();
        assert forall|i: int| 0 <= i < init.len() implies !concerns(
            #[trigger] init[i],
            payment,
        ) by {
            assert(init[i] == events[i]);
        }
        payments_wait(l, init, payment);
        assert(!concerns(events[events.len() - 1], payment));
    }
}

/// What is recorded of an attempt is what the PSP answered to it, whatever other payments do in
/// between: the reference of a charge that succeeded, or the code of one that did not. The
/// payment is answered with that attempt.
pub proof fn answers_of_the_psp_are_recorded(
    l: Ledger,
    payment: int,
    result: PspResultView,
    events: Seq<LedgerEvent>,
    now: i64,
)
    requires
        l.payments.contains_key(payment),
        l.payments[payment] is Charge,
        forall|i: int| 0 <= i < events.len() ==> !concerns(#[trigger] events[i], payment),
    ensures
        ({
            let id = l.payments[payment]->Charge_attempt_id;
            let m = l.after(LedgerEvent::Ask { payment, result }).after_all(events).after(
                LedgerEvent::Record { payment, now },
            );
            &&& m.attempts.contains_key(id)
            &&& m.attempts[id].updated_at == now
            &&& result matches PspResultView::Succeeded { psp_ref } ==> m.attempts[id].status
                == "succeeded"@ && m.attempts[id].psp_ref == Some(psp_ref)
                && m.attempts[id].failure_code is None
            &&& result matches PspResultView::Failed { code } ==> m.attempts[id].status
                == "failed"@ && m.attempts[id].psp_ref is None && m.attempts[id].failure_code
                == Some(code)
            &&& result is Timeout ==> m.attempts[id].status == "failed"@ && m.attempts[id].psp_ref
                is None && m.attempts[id].failure_code == Some("psp_timeout"@)
            &&& result is NetworkError ==> m.attempts[id].status == "failed"@
                && m.attempts[id].psp_ref is None && m.attempts[id].failure_code == Some(
                "network_error"@,
            )
            &&& m.payments[payment] matches PayStepView::Announce { event, response }
            &&& event.business_id == l.payments[payment]->Charge_ctx.business_id
            &&& response.attempt == m.attempts[id]
        }),
{
    payments_wait(l.after(LedgerEvent::Ask { payment, result }), events, payment);
}

/// What is recorded for a payment is its request: an attempt at the invoice that it names, with
/// its key and its card token as they stand. Requests with other keys do not find it.
pub proof fn requests_are_recorded_as_they_stand(
    l: Ledger,
    payment: int,
    business_id: u128,
    invoice_id: u128,
    key: Seq<char>,
    card_token: Seq<char>,
    attempt_id: u128,
    now: i64,
)
    requires
        !l.payments.contains_key(payment),
        !l.key_is_used(key),
        !l.has_active_attempt(invoice_id),
        !l.attempts.contains_key(attempt_id),
        l.find_invoice(invoice_id, business_id) matches Some(invoice) && (invoice.state
            == "draft"@ || invoice.state == "open"@),
    ensures
        ({
            let m = l.after(
                LedgerEvent::Arrive {
                    payment,
                    business_id,
                    invoice_id,
                    idempotency_key: Some(key),
                    card_token,
                },
            ).after(LedgerEvent::Lookup { payment }).after(
                LedgerEvent::Start { payment, attempt_id, now },
            );
            &&& m.payments[payment] matches PayStepView::Charge { ctx, attempt_id: id }
            &&& id == attempt_id
            &&& ctx.business_id == business_id
            &&& ctx.invoice_id == invoice_id
            &&& ctx.card_token == card_token
            &&& m.attempts.contains_key(attempt_id)
            &&& m.attempts[attempt_id].invoice_id == invoice_id
            &&& m.attempts[attempt_id].idempotency_key == key
            &&& m.attempts[attempt_id].card_token == card_token
            &&& m.attempts[attempt_id].status == "pending"@
            &&& forall|other: Seq<char>|
                other != key ==> #[trigger] m.key_is_used(other) == l.key_is_used(other)
        }),
{
    let looked = l.after(
        LedgerEvent::Arrive {
            payment,
            business_id,
            invoice_id,
            idempotency_key: Some(key),
            card_token,
        },
    ).after(LedgerEvent::Lookup { payment });
    assert(!looked.key_is_used(key));
    assert(!looked.has_active_attempt(invoice_id));
    let ctx = looked.payments[payment]->LockInvoice_ctx;
    first_transaction(looked, ctx, attempt_id, now);
    let m = looked.after(LedgerEvent::Start { payment, attempt_id, now });
    assert forall|other: Seq<char>| other != key implies #[trigger] m.key_is_used(other)
        == l.key_is_used(other) by {
        if l.key_is_used(other) {
            let id = choose|id: u128| #[trigger]
                l.attempts.contains_key(id) && l.attempts[id].idempotency_key == other;
            assert(m.attempts.contains_key(id));
        }
        if m.key_is_used(other) {
            let id = choose|id: u128| #[trigger]
                m.attempts.contains_key(id) && m.attempts[id].idempotency_key == other;
            assert(l.attempts.contains_key(id));
        }
    }
}

} // verus!
