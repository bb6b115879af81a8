//! Invoices: making them, reading them, and moving them from state to state.
//!
//! An invoice is made in a row of steps: its customer is looked up, who must be one of the
//! business; then, in one transaction, the invoice is recorded, each of its lines in order,
//! and the transaction is committed. Each step names what is to be done next, and [`create`]
//! says from what came of it which step follows.
use vstd::prelude::*;

use crate::error::{AppError, AppErrorView, DbFailure, DbFailureView};
use crate::ids::{format_uuid, uuid_text};
use crate::json::{json_text, new_object, no_fields, object_text, put_integer, put_text, JsonValue};
use crate::listing::{lists, Listed};
use crate::models::customer::{optional_customer, Customer, CustomerView};
use crate::models::invoice::{optional_invoice, CreateInvoiceRequest, CreateLineItem, Invoice,
    InvoiceResponse, InvoiceView, LineItem, ListInvoicesQuery};
use crate::routes::customers::{customer_not_found, no_customer};
use crate::text::{join3, optional_text, same_text};
use crate::webhooks::{WebhookEvent, WebhookEventView};

verus! {

/// The value of a refusable text: a state, for instance.
pub open spec fn text_result(result: Result<String, AppError>) -> Result<Seq<char>, AppErrorView> {
    match result {
        Ok(text) => Ok(text@),
        Err(error) => Err(error@),
    }
}

/// The refusal that an invoice is not there.
pub open spec fn invoice_not_found(id: u128) -> AppErrorView {
    AppErrorView::NotFound("Invoice "@ + uuid_text(id) + " not found"@)
}

/// The refusal that an invoice is not there.
pub fn no_invoice(id: u128) -> (res: AppError)
    ensures
        res@ == invoice_not_found(id),
{
    let text = format_uuid(id);
    AppError::NotFound(join3("Invoice ", text.as_str(), " not found"))
}

// Making an invoice.

/// A line to be recorded.
pub struct NewLineItem {
    pub description: String,
    pub quantity: i32,
    pub unit_amount_cents: i64,
    pub amount_cents: i64,
}

/// An invoice to be recorded, as a draft.
pub struct NewInvoice {
    pub business_id: u128,
    pub customer_id: u128,
    pub total_cents: i64,
    pub due_date: i32,
    pub lines: Vec<NewLineItem>,
}

/// The value of a [`NewInvoice`].
pub struct NewInvoiceView {
    pub business_id: u128,
    pub customer_id: u128,
    pub total_cents: i64,
    pub due_date: i32,
    pub lines: Seq<NewLineItem>,
}

impl View for NewInvoice {
    type V = NewInvoiceView;

    open spec fn view(&self) -> NewInvoiceView {
        NewInvoiceView {
            business_id: self.business_id,
            customer_id: self.customer_id,
            total_cents: self.total_cents,
            due_date: self.due_date,
            lines: self.lines@,
        }
    }
}

/// What a line comes to.
pub open spec fn line_amount(item: CreateLineItem) -> int {
    item.quantity * item.unit_amount_cents
}

/// What the lines come to together.
pub open spec fn lines_total(items: Seq<CreateLineItem>) -> int
    decreases items.len(),
{
    if items.len() == 0 {
        0
    } else {
        lines_total(items.drop_last()) + line_amount(items.last())
    }
}

/// Why a line is refused, if it is.
pub open spec fn line_refusal(item: CreateLineItem) -> Option<Seq<char>> {
    if item.quantity <= 0 {
        Some("quantity must be > 0"@)
    } else if item.unit_amount_cents <= 0 {
        Some("unit_amount_cents must be > 0"@)
    } else {
        None
    }
}

/// Why the first refused line is refused, if there is one.
pub open spec fn first_refusal(items: Seq<CreateLineItem>) -> Option<Seq<char>>
    decreases items.len(),
{
    if items.len() == 0 {
        None
    } else if line_refusal(items[0]) is Some {
        line_refusal(items[0])
    } else {
        first_refusal(items.drop_first())
    }
}

/// Why the lines of a new invoice are refused, if they are.
pub open spec fn lines_refusal(items: Seq<CreateLineItem>) -> Option<Seq<char>> {
    if items.len() == 0 {
        Some("line_items cannot be empty"@)
    } else {
        first_refusal(items)
    }
}

/// Whether the total of acceptable lines can be held.
pub open spec fn total_fits(items: Seq<CreateLineItem>) -> bool {
    lines_refusal(items) is None ==> lines_total(items) <= i64::MAX
}

/// The line to be recorded for a requested line.
pub open spec fn new_line(item: CreateLineItem) -> NewLineItem {
    NewLineItem {
        description: item.description,
        quantity: item.quantity,
        unit_amount_cents: item.unit_amount_cents,
        amount_cents: line_amount(item) as i64,
    }
}

/// The invoice to be recorded for a request: its total is what its lines come to.
pub open spec fn new_invoice(business_id: u128, request: CreateInvoiceRequest) -> NewInvoiceView {
    NewInvoiceView {
        business_id,
        customer_id: request.customer_id,
        total_cents: lines_total(request.line_items@) as i64,
        due_date: request.due_date,
        lines: request.line_items@.map_values(|item: CreateLineItem| new_line(item)),
    }
}

/// The answer to the request for a new invoice.
pub struct CreatedInvoice {
    pub status_code: u16,
    pub body: InvoiceResponse,
}

/// The value of a [`CreatedInvoice`].
pub struct CreatedInvoiceView {
    pub status_code: u16,
    pub invoice: Invoice,
    pub line_items: Seq<LineItem>,
}

impl View for CreatedInvoice {
    type V = CreatedInvoiceView;

    open spec fn view(&self) -> CreatedInvoiceView {
        CreatedInvoiceView {
            status_code: self.status_code,
            invoice: self.body.invoice,
            line_items: self.body.line_items@,
        }
    }
}

/// What the making of an invoice does next.
pub enum CreateStep {
    /// Look for the customer with the id that the invoice names.
    FindCustomer { new: NewInvoice },
    /// Open a transaction, and record the invoice.
    InsertInvoice { new: NewInvoice },
    /// Record the first of the lines that is not recorded yet.
    InsertLine { new: NewInvoice, invoice: Invoice, inserted: Vec<LineItem> },
    /// Commit the transaction.
    Commit { new: NewInvoice, invoice: Invoice, inserted: Vec<LineItem> },
    /// Tell the endpoints of the business, without waiting for them.
    Announce { event: WebhookEvent, response: CreatedInvoice },
    /// Nothing more: this is the answer. A transaction that is still open is rolled back.
    Finished { result: Result<CreatedInvoice, AppError> },
}

/// The value of a [`CreateStep`].
pub enum CreateStepView {
    FindCustomer { new: NewInvoiceView },
    InsertInvoice { new: NewInvoiceView },
    InsertLine { new: NewInvoiceView, invoice: Invoice, inserted: Seq<LineItem> },
    Commit { new: NewInvoiceView, invoice: Invoice, inserted: Seq<LineItem> },
    Announce { event: WebhookEventView, response: CreatedInvoiceView },
    Finished { result: Result<CreatedInvoiceView, AppErrorView> },
}

impl View for CreateStep {
    type V = CreateStepView;

    open spec fn view(&self) -> CreateStepView {
        match self {
            CreateStep::FindCustomer { new } => CreateStepView::FindCustomer { new: new@ },
            CreateStep::InsertInvoice { new } => CreateStepView::InsertInvoice { new: new@ },
            CreateStep::InsertLine { new, invoice, inserted } => CreateStepView::InsertLine {
                new: new@,
                invoice: *invoice,
                inserted: inserted@,
            },
            CreateStep::Commit { new, invoice, inserted } => CreateStepView::Commit {
                new: new@,
                invoice: *invoice,
                inserted: inserted@,
            },
            CreateStep::Announce { event, response } => CreateStepView::Announce {
                event: event@,
                response: response@,
            },
            CreateStep::Finished { result } => CreateStepView::Finished {
                result: match result {
                    Ok(response) => Ok(response@),
                    Err(error) => Err(error@),
                },
            },
        }
    }
}

/// What came of a step of the making of an invoice.
pub enum CreateReply {
    /// The customer, if there is one with the id.
    Customer { found: Option<Customer> },
    /// The invoice, as it was recorded.
    InsertedInvoice { invoice: Invoice },
    /// The line, as it was recorded.
    InsertedLine { item: LineItem },
    /// It is done.
    Done,
    /// The database failed.
    DbFailed { failure: DbFailure },
}

/// The value of a [`CreateReply`].
pub enum CreateReplyView {
    Customer { found: Option<CustomerView> },
    InsertedInvoice { invoice: Invoice },
    InsertedLine { item: LineItem },
    Done,
    DbFailed { failure: DbFailureView },
}

impl View for CreateReply {
    type V = CreateReplyView;

    open spec fn view(&self) -> CreateReplyView {
        match self {
            CreateReply::Customer { found } => CreateReplyView::Customer {
                found: optional_customer(*found),
            },
            CreateReply::InsertedInvoice { invoice } => CreateReplyView::InsertedInvoice {
                invoice: *invoice,
            },
            CreateReply::InsertedLine { item } => CreateReplyView::InsertedLine { item: *item },
            CreateReply::Done => CreateReplyView::Done,
            CreateReply::DbFailed { failure } => CreateReplyView::DbFailed { failure: failure@ },
        }
    }
}

/// The event that tells of a new invoice.
pub open spec fn created_event(business_id: u128, invoice: InvoiceView) -> WebhookEventView {
    WebhookEventView {
        business_id,
        event_type: "invoice.created"@,
        payload: json_text(
            map![
                "event"@ => JsonValue::Text("invoice.created"@),
                "invoice_id"@ => JsonValue::Text(uuid_text(invoice.id)),
                "business_id"@ => JsonValue::Text(uuid_text(invoice.business_id)),
                "state"@ => JsonValue::Text(invoice.state),
                "total_cents"@ => JsonValue::Integer(invoice.total_cents as int),
            ],
        ),
    }
}

/// The first step of the making of an invoice: unacceptable lines are refused.
pub open spec fn create_begin(business_id: u128, request: CreateInvoiceRequest) -> CreateStepView {
    match lines_refusal(request.line_items@) {
        Some(message) => CreateStepView::Finished {
            result: Err(AppErrorView::Unprocessable(message)),
        },
        None => CreateStepView::FindCustomer { new: new_invoice(business_id, request) },
    }
}

/// The step when `inserted` are the lines that are recorded already.
pub open spec fn lines_left(
    new: NewInvoiceView,
    invoice: Invoice,
    inserted: Seq<LineItem>,
) -> CreateStepView {
    if inserted.len() < new.lines.len() {
        CreateStepView::InsertLine { new, invoice, inserted }
    } else {
        CreateStepView::Commit { new, invoice, inserted }
    }
}

/// The step that follows `step` when `reply` has come of it. A reply that does not belong to
/// the step leaves it as it is.
pub open spec fn create_next(step: CreateStepView, reply: CreateReplyView) -> CreateStepView {
    match (step, reply) {
        // Events are announced in the background, and what is over stays over.
        (CreateStepView::Announce { .. }, CreateReplyView::DbFailed { .. }) => step,
        (CreateStepView::Finished { .. }, _) => step,
        (CreateStepView::InsertInvoice { new }, CreateReplyView::DbFailed { failure }) =>
            CreateStepView::Finished {
            result: if failure.is_foreign_key_violation() {
                Err(customer_not_found(new.customer_id))
            } else {
                Err(AppErrorView::Database(failure))
            },
        },
        (_, CreateReplyView::DbFailed { failure }) => CreateStepView::Finished {
            result: Err(AppErrorView::Database(failure)),
        },
        (CreateStepView::FindCustomer { new }, CreateReplyView::Customer { found }) =>
            match found {
            // A customer of another business is out of sight.
            Some(customer) => if customer.business_id == new.business_id {
                CreateStepView::InsertInvoice { new }
            } else {
                CreateStepView::Finished { result: Err(customer_not_found(new.customer_id)) }
            },
            None => CreateStepView::Finished { result: Err(customer_not_found(new.customer_id)) },
        },
        (CreateStepView::InsertInvoice { new }, CreateReplyView::InsertedInvoice { invoice }) =>
            lines_left(new, invoice, Seq::empty()),
        (
            CreateStepView::InsertLine { new, invoice, inserted },
            CreateReplyView::InsertedLine { item },
        ) => lines_left(new, invoice, inserted.push(item)),
        (CreateStepView::Commit { new, invoice, inserted }, CreateReplyView::Done) =>
            CreateStepView::Announce {
            event: created_event(new.business_id, invoice@),
            response: CreatedInvoiceView { status_code: 201, invoice, line_items: inserted },
        },
        (CreateStepView::Announce { event, response }, CreateReplyView::Done) =>
            CreateStepView::Finished { result: Ok(response) },
        _ => step,
    }
}

proof fn first_refusal_none(items: Seq<CreateLineItem>)
    ensures
        first_refusal(items) is None <==> (forall|i: int|
            0 <= i < items.len() ==> line_refusal(#[trigger] items[i]) is None),
    decreases items.len(),
{
    if items.len() > 0 {
        first_refusal_none(items.drop_first());
        if first_refusal(items) is None {
            assert forall|i: int| 0 <= i < items.len() implies line_refusal(
                #[trigger] items[i],
            ) is None by {
                if i > 0 {
                    assert(items.drop_first()[i - 1] == items[i]);
                }
            }
        } else if line_refusal(items[0]) is None {
            let j = choose|j: int|
                0 <= j < items.drop_first().len() && line_refusal(
                    #[trigger] items.drop_first()[j],
                ) is Some;
            assert(items[j + 1] == items.drop_first()[j]);
        }
    }
}

proof fn line_amount_positive(item: CreateLineItem)
    requires
        line_refusal(item) is None,
    ensures
        line_amount(item) > 0,
{
    assert(item.quantity * item.unit_amount_cents > 0) by (nonlinear_arith)
        requires
            item.quantity > 0,
            item.unit_amount_cents > 0,
    ;
}

proof fn total_grows(items: Seq<CreateLineItem>, k: int)
    requires
        0 <= k <= items.len(),
        forall|i: int| 0 <= i < items.len() ==> line_refusal(#[trigger] items[i]) is None,
    ensures
        0 <= lines_total(items.take(k)) <= lines_total(items),
    decreases items.len(),
{
    if items.len() == 0 {
        assert(items.take(k) =~= items);
    } else {
        let init = items.drop_last();
        line_amount_positive(items.last());
        assert forall|i: int| 0 <= i < init.len() implies line_refusal(
            #[trigger] init[i],
        ) is None by {
            assert(init[i] == items[i]);
        }
        total_grows(init, if k < items.len() { k } else { init.len() as int });
        if k < items.len() {
            assert(init.take(k) =~= items.take(k));
        } else {
            assert(items.take(k) =~= items);
            assert(init.take(init.len() as int) =~= init);
        }
    }
}

/// Why the lines of a new invoice are refused, if they are: there is none, or the first that
/// is not acceptable has a quantity or a unit amount that is not positive.
pub fn check_lines(items: &Vec<CreateLineItem>) -> (res: Option<AppError>)
    ensures
        (match res {
            Some(error) => Some(error@),
            None => None,
        }) == (match lines_refusal(items@) {
            Some(message) => Some(AppErrorView::Unprocessable(message)),
            None => None,
        }),
{
    if items.len() == 0 {
        return Some(AppError::Unprocessable("line_items cannot be empty".to_string()));
    }
    proof {
        assert(items@.skip(0) =~= items@);
    }
    for i in 0..items.len()
        invariant
            items@.len() > 0,
            first_refusal(items@) == first_refusal(items@.skip(i as int)),
    {
        proof {
            assert(items@.skip(i as int)[0] == items@[i as int]);
            assert(items@.skip(i as int).drop_first() =~= items@.skip(i + 1));
        }
        if items[i].quantity <= 0 {
            return Some(AppError::Unprocessable("quantity must be > 0".to_string()));
        }
        if items[i].unit_amount_cents <= 0 {
            return Some(AppError::Unprocessable("unit_amount_cents must be > 0".to_string()));
        }
    }
    None
}

/// Whether the total of the lines can be held, where they are acceptable.
pub fn amounts_fit(items: &Vec<CreateLineItem>) -> (res: bool)
    ensures
        res == total_fits(items@),
{
    if check_lines(items).is_some() {
        return true;
    }
    proof {
        first_refusal_none(items@);
        assert(items@.take(0) =~= Seq::<CreateLineItem>::empty());
    }
    let mut total: i128 = 0;
    for i in 0..items.len()
        invariant
            lines_refusal(items@) is None,
            forall|j: int| 0 <= j < items@.len() ==> line_refusal(#[trigger] items@[j]) is None,
            total == lines_total(items@.take(i as int)),
            0 <= total <= i64::MAX,
    {
        let quantity: i128 = items[i].quantity as i128;
        let unit: i128 = items[i].unit_amount_cents as i128;
        proof {
            let item = items@[i as int];
            line_amount_positive(item);
            assert(0 <= quantity * unit <= 0x7fff_ffff * 0x7fff_ffff_ffff_ffff) by (nonlinear_arith)
                requires
                    0 < quantity <= 0x7fff_ffff,
                    0 < unit <= 0x7fff_ffff_ffff_ffff,
            ;
            assert(quantity * unit == line_amount(item));
            assert(items@.take(i + 1).drop_last() =~= items@.take(i as int));
            total_grows(items@, i + 1);
        }
        total = total + quantity * unit;
        if total > i64::MAX as i128 {
            return false;
        }
    }
    proof {
        assert(items@.take(items@.len() as int) =~= items@);
    }
    true
}

/// The invoice to be recorded for a request with acceptable lines.
fn plan_invoice(business_id: u128, request: &CreateInvoiceRequest) -> (res: NewInvoice)
    requires
        lines_refusal(request.line_items@) is None,
        total_fits(request.line_items@),
    ensures
        res@ == new_invoice(business_id, *request),
{
    let items = &request.line_items;
    let mut lines: Vec<NewLineItem> = Vec::new();
    let mut total_cents: i64 = 0;
    proof {
        first_refusal_none(items@);
        assert(items@.take(0) =~= Seq::<CreateLineItem>::empty());
    }
    for i in 0..items.len()
        invariant
            items@ == request.line_items@,
            lines_refusal(items@) is None,
            lines_total(items@) <= i64::MAX,
            forall|j: int| 0 <= j < items@.len() ==> line_refusal(#[trigger] items@[j]) is None,
            total_cents == lines_total(items@.take(i as int)),
            lines@.len() == i,
            forall|j: int| 0 <= j < i ==> #[trigger] lines@[j] == new_line(items@[j]),
    {
        let item = &items[i];
        proof {
            assert(items@.take(i + 1).drop_last() =~= items@.take(i as int));
            total_grows(items@, i as int);
            total_grows(items@, i + 1);
            line_amount_positive(*item);
        }
        let amount_cents: i64 = item.quantity as i64 * item.unit_amount_cents;
        total_cents = total_cents + amount_cents;
        lines.push(
            NewLineItem {
                description: item.description.clone(),
                quantity: item.quantity,
                unit_amount_cents: item.unit_amount_cents,
                amount_cents,
            },
        );
    }
    proof {
        assert(items@.take(items@.len() as int) =~= items@);
        assert(lines@ =~= items@.map_values(|item: CreateLineItem| new_line(item)));
    }
    NewInvoice {
        business_id,
        customer_id: request.customer_id,
        total_cents,
        due_date: request.due_date,
        lines,
    }
}

/// Starts to make an invoice for the business `business_id`.
pub fn begin_invoice(business_id: u128, request: CreateInvoiceRequest) -> (res: CreateStep)
    requires
        total_fits(request.line_items@),
    ensures
        res@ == create_begin(business_id, request),
{
    match check_lines(&request.line_items) {
        Some(error) => CreateStep::Finished { result: Err(error) },
        None => CreateStep::FindCustomer { new: plan_invoice(business_id, &request) },
    }
}

fn announce(business_id: u128, invoice: &Invoice) -> (res: WebhookEvent)
    ensures
        res@ == created_event(business_id, invoice@),
{
    let invoice_text = format_uuid(invoice.id);
    let business_text = format_uuid(invoice.business_id);
    let mut object = new_object();
    put_text(&mut object, "event", "invoice.created");
    put_text(&mut object, "invoice_id", invoice_text.as_str());
    put_text(&mut object, "business_id", business_text.as_str());
    put_text(&mut object, "state", invoice.state.as_str());
    put_integer(&mut object, "total_cents", invoice.total_cents);
    let payload = object_text(object);
    WebhookEvent { business_id, event_type: "invoice.created".to_string(), payload }
}

fn go_on_with_lines(new: NewInvoice, invoice: Invoice, inserted: Vec<LineItem>) -> (res: CreateStep)
    ensures
        res@ == lines_left(new@, invoice, inserted@),
{
    if inserted.len() < new.lines.len() {
        CreateStep::InsertLine { new, invoice, inserted }
    } else {
        CreateStep::Commit { new, invoice, inserted }
    }
}

fn after_failure(step: CreateStep, failure: DbFailure) -> (res: CreateStep)
    ensures
        res@ == create_next(step@, CreateReplyView::DbFailed { failure: failure@ }),
{
    match step {
        CreateStep::Announce { event, response } => CreateStep::Announce { event, response },
        CreateStep::Finished { result } => CreateStep::Finished { result },
        CreateStep::InsertInvoice { new } => if failure.is_foreign_key_violation() {
            CreateStep::Finished { result: Err(no_customer(new.customer_id)) }
        } else {
            CreateStep::Finished { result: Err(AppError::Database(failure)) }
        },
        _ => CreateStep::Finished { result: Err(AppError::Database(failure)) },
    }
}

fn after_lookup(new: NewInvoice, found: Option<Customer>) -> (res: CreateStep)
    ensures
        res@ == create_next(
            CreateStepView::FindCustomer { new: new@ },
            CreateReplyView::Customer { found: optional_customer(found) },
        ),
{
    match found {
        Some(customer) => if customer.business_id == new.business_id {
            CreateStep::InsertInvoice { new }
        } else {
            CreateStep::Finished { result: Err(no_customer(new.customer_id)) }
        },
        None => CreateStep::Finished { result: Err(no_customer(new.customer_id)) },
    }
}

/// The step that follows `step` when `reply` has come of it.
pub fn create(step: CreateStep, reply: CreateReply) -> (res: CreateStep)
    ensures
        res@ == create_next(step@, reply@),
{
    match reply {
        CreateReply::DbFailed { failure } => after_failure(step, failure),
        CreateReply::Customer { found } => match step {
            CreateStep::FindCustomer { new } => after_lookup(new, found),
            other => other,
        },
        CreateReply::InsertedInvoice { invoice } => match step {
            CreateStep::InsertInvoice { new } => go_on_with_lines(new, invoice, Vec::new()),
            other => other,
        },
        CreateReply::InsertedLine { item } => match step {
            CreateStep::InsertLine { new, invoice, inserted } => {
                let mut lines = inserted;
                lines.push(item);
                go_on_with_lines(new, invoice, lines)
            },
            other => other,
        },
        CreateReply::Done => match step {
            CreateStep::Commit { new, invoice, inserted } => {
                let event = announce(new.business_id, &invoice);
                CreateStep::Announce {
                    event,
                    response: CreatedInvoice {
                        status_code: 201,
                        body: InvoiceResponse { invoice, line_items: inserted },
                    },
                }
            },
            CreateStep::Announce { event, response } => CreateStep::Finished {
                result: Ok(response),
            },
            other => other,
        },
    }
}

impl CreateStep {
    /// The line to be recorded next, where a line is to be recorded.
    pub fn line(&self) -> (res: Option<&NewLineItem>)
        ensures
            res == (match self@ {
                CreateStepView::InsertLine { new, inserted, .. } => if inserted.len()
                    < new.lines.len() {
                    Some(&new.lines[inserted.len() as int])
                } else {
                    None
                },
                _ => None,
            }),
    {
        match self {
            CreateStep::InsertLine { new, inserted, .. } => if inserted.len() < new.lines.len() {
                Some(&new.lines[inserted.len()])
            } else {
                None
            },
            _ => None,
        }
    }
}

// Reading invoices.

/// The invoice that was read, if the business has it.
pub fn fetch_invoice(id: u128, row: Option<Invoice>) -> (res: Result<Invoice, AppError>)
    ensures
        match row {
            Some(invoice) => res == Ok::<Invoice, AppError>(invoice),
            None => res matches Err(error) && error@ == invoice_not_found(id),
        },
{
    match row {
        Some(invoice) => Ok(invoice),
        None => Err(no_invoice(id)),
    }
}

/// The answer to the request for an invoice, by what was read.
pub open spec fn read_answer(
    id: u128,
    row: Option<InvoiceView>,
    line_items: Seq<LineItem>,
) -> Result<(InvoiceView, Seq<LineItem>), AppErrorView> {
    match row {
        Some(invoice) => Ok((invoice, line_items)),
        None => Err(invoice_not_found(id)),
    }
}

/// The answer to the request for an invoice: the invoice that was read, if the business has
/// it, with its lines.
pub fn get_by_id(id: u128, row: Option<Invoice>, line_items: Vec<LineItem>) -> (res: Result<
    InvoiceResponse,
    AppError,
>)
    ensures
        row matches Some(invoice) ==> res == Ok::<InvoiceResponse, AppError>(
            InvoiceResponse { invoice, line_items },
        ),
        (match res {
            Ok(response) => Ok((response.invoice@, response.line_items@)),
            Err(error) => Err(error@),
        }) == read_answer(id, optional_invoice(row), line_items@),
{
    match fetch_invoice(id, row) {
        Ok(invoice) => Ok(InvoiceResponse { invoice, line_items }),
        Err(error) => Err(error),
    }
}

/// What is to be read for a list of invoices, newest first.
pub enum InvoiceSelection {
    /// The invoices of a business.
    Every { business_id: u128 },
    /// The invoices of a business that are in a state.
    InState { business_id: u128, state: String },
}

impl Listed for InvoiceView {
    open spec fn key(self) -> u128 {
        self.id
    }

    /// The last made comes first.
    open spec fn rank(self) -> int {
        self.created_at as int
    }
}

/// Whether an invoice is one of the business, and in the state, if one is named.
pub open spec fn is_wanted(
    invoice: InvoiceView,
    business_id: u128,
    state: Option<Seq<char>>,
) -> bool {
    invoice.business_id == business_id && (state matches Some(s) ==> invoice.state == s)
}

/// Whether `rows` are the invoices of the business that `table` holds, by their ids, and of
/// these only those in the state, if one is named: all of them, each once, newest first.
pub open spec fn is_listing(
    table: Map<u128, InvoiceView>,
    rows: Seq<InvoiceView>,
    business_id: u128,
    state: Option<Seq<char>>,
) -> bool {
    lists(table, rows, |invoice: InvoiceView| is_wanted(invoice, business_id, state))
}

impl InvoiceSelection {
    /// Whether an invoice is on the list.
    pub open spec fn holds(self, invoice: InvoiceView) -> bool {
        match self {
            InvoiceSelection::Every { business_id } => invoice.business_id == business_id,
            InvoiceSelection::InState { business_id, state } => invoice.business_id == business_id
                && invoice.state == state@,
        }
    }

    /// Whether `rows` are what is to be read of `table`: the invoices that are on the list,
    /// each once, newest first.
    pub open spec fn shows(self, table: Map<u128, InvoiceView>, rows: Seq<InvoiceView>) -> bool {
        lists(table, rows, |invoice: InvoiceView| self.holds(invoice))
    }
}

/// What a list of invoices shows: the invoices of the business that asks, and of these only
/// those in the state that it asks for, if it asks for one; each once, newest first.
pub fn list(business_id: u128, query: ListInvoicesQuery) -> (res: InvoiceSelection)
    ensures
        res is InState <==> query.state is Some,
        query.state matches Some(wanted) ==> (res matches InvoiceSelection::InState {
            business_id: id,
            state,
        } && id == business_id && state@ == wanted@),
        query.state is None ==> res == (InvoiceSelection::Every { business_id }),
        forall|invoice: InvoiceView| #[trigger]
            res.holds(invoice) <==> is_wanted(invoice, business_id, optional_text(query.state)),
        forall|table: Map<u128, InvoiceView>, rows: Seq<InvoiceView>| #[trigger]
            res.shows(table, rows) <==> is_listing(
                table,
                rows,
                business_id,
                optional_text(query.state),
            ),
{
    match query.state {
        Some(state) => InvoiceSelection::InState { business_id, state },
        None => InvoiceSelection::Every { business_id },
    }
}

// Moving invoices from state to state. Each of these is decided on the invoice as it was
// read under a row lock, and answered with the state that it moves to.

/// What opening an invoice comes to: a draft becomes open.
pub open spec fn opened(id: u128, locked: Option<InvoiceView>) -> Result<Seq<char>, AppErrorView> {
    match locked {
        None => Err(invoice_not_found(id)),
        Some(invoice) => if invoice.state == "draft"@ {
            Ok("open"@)
        } else {
            Err(
                AppErrorView::Unprocessable(
                    "Cannot open an invoice in state '"@ + invoice.state + "'"@,
                ),
            )
        },
    }
}

/// What voiding an invoice comes to: one that is a draft or open becomes void.
pub open spec fn voided(id: u128, locked: Option<InvoiceView>) -> Result<Seq<char>, AppErrorView> {
    match locked {
        None => Err(invoice_not_found(id)),
        Some(invoice) => if invoice.state == "draft"@ || invoice.state == "open"@ {
            Ok("void"@)
        } else {
            Err(
                AppErrorView::Unprocessable(
                    "Cannot void an invoice in state '"@ + invoice.state + "'"@,
                ),
            )
        },
    }
}

/// What giving an invoice up comes to: one that is open becomes uncollectible.
pub open spec fn given_up(id: u128, locked: Option<InvoiceView>) -> Result<
    Seq<char>,
    AppErrorView,
> {
    match locked {
        None => Err(invoice_not_found(id)),
        Some(invoice) => if invoice.state == "open"@ {
            Ok("uncollectible"@)
        } else {
            Err(
                AppErrorView::Unprocessable(
                    "Only open invoices can be marked uncollectible (current state: '"@
                        + invoice.state + "')"@,
                ),
            )
        },
    }
}

/// Opens the invoice `id`: the state that it moves to.
pub fn open_invoice(id: u128, locked: &Option<Invoice>) -> (res: Result<String, AppError>)
    ensures
        text_result(res) == opened(id, optional_invoice(*locked)),
{
    match locked {
        None => Err(no_invoice(id)),
        Some(invoice) => if same_text(&invoice.state, "draft") {
            Ok("open".to_string())
        } else {
            Err(
                AppError::Unprocessable(
                    join3("Cannot open an invoice in state '", invoice.state.as_str(), "'"),
                ),
            )
        },
    }
}

/// Voids the invoice `id`: the state that it moves to.
pub fn void_invoice(id: u128, locked: &Option<Invoice>) -> (res: Result<String, AppError>)
    ensures
        text_result(res) == voided(id, optional_invoice(*locked)),
{
    match locked {
        None => Err(no_invoice(id)),
        Some(invoice) => if same_text(&invoice.state, "draft") || same_text(
            &invoice.state,
            "open",
        ) {
            Ok("void".to_string())
        } else {
            Err(
                AppError::Unprocessable(
                    join3("Cannot void an invoice in state '", invoice.state.as_str(), "'"),
                ),
            )
        },
    }
}

/// Gives the invoice `id` up: the state that it moves to.
pub fn mark_uncollectible(id: u128, locked: &Option<Invoice>) -> (res: Result<String, AppError>)
    ensures
        text_result(res) == given_up(id, optional_invoice(*locked)),
{
    match locked {
        None => Err(no_invoice(id)),
        Some(invoice) => if same_text(&invoice.state, "open") {
            Ok("uncollectible".to_string())
        } else {
            Err(
                AppError::Unprocessable(
                    join3(
                        "Only open invoices can be marked uncollectible (current state: '",
                        invoice.state.as_str(),
                        "')",
                    ),
                ),
            )
        },
    }
}

// Laws.

/// What the recorded lines come to together.
pub open spec fn recorded_total(lines: Seq<NewLineItem>) -> int
    decreases lines.len(),
{
    if lines.len() == 0 {
        0
    } else {
        recorded_total(lines.drop_last()) + lines.last().amount_cents
    }
}

/// The lines of a new invoice add up to its total, each comes to its quantity times its unit
/// amount, and the total is positive.
pub proof fn lines_add_up(business_id: u128, request: CreateInvoiceRequest)
    requires
        lines_refusal(request.line_items@) is None,
        total_fits(request.line_items@),
    ensures
        ({
            let new = new_invoice(business_id, request);
            &&& new.total_cents == recorded_total(new.lines)
            &&& new.total_cents > 0
            &&& forall|i: int|
                0 <= i < new.lines.len() ==> (#[trigger] new.lines[i]).amount_cents
                    == new.lines[i].quantity * new.lines[i].unit_amount_cents
        }),
{
    let items = request.line_items@;
    let lines = new_invoice(business_id, request).lines;
    first_refusal_none(items);
    assert forall|i: int| 0 <= i < lines.len() implies (#[trigger] lines[i]).amount_cents
        == line_amount(items[i]) by {
        assert(items.take(i + 1).drop_last() =~= items.take(i));
        total_grows(items, i);
        total_grows(items, i + 1);
        line_amount_positive(items[i]);
    }
    amounts_add_up(items, lines);
    total_grows(items, items.len() - 1);
    assert(items.take(items.len() - 1) =~= items.drop_last());
    line_amount_positive(items.last());
}

proof fn amounts_add_up(items: Seq<CreateLineItem>, lines: Seq<NewLineItem>)
    requires
        items.len() == lines.len(),
        forall|i: int|
            0 <= i < lines.len() ==> (#[trigger] lines[i]).amount_cents == line_amount(items[i]),
    ensures
        recorded_total(lines) == lines_total(items),
    decreases items.len(),
{
    if items.len() > 0 {
        amounts_add_up(items.drop_last(), lines.drop_last());
    }
}

/// The step after the invoice and then the given lines have been recorded.
pub open spec fn after_lines(
    new: NewInvoiceView,
    invoice: Invoice,
    items: Seq<LineItem>,
) -> CreateStepView
    decreases items.len(),
{
    if items.len() == 0 {
        create_next(
            CreateStepView::InsertInvoice { new },
            CreateReplyView::InsertedInvoice { invoice },
        )
    } else {
        create_next(
            after_lines(new, invoice, items.drop_last()),
            CreateReplyView::InsertedLine { item: items.last() },
        )
    }
}

/// An invoice is committed once each of its lines has been recorded, no sooner and no later,
/// and the answer holds the recorded lines in their order.
pub proof fn every_line_is_recorded(new: NewInvoiceView, invoice: Invoice, items: Seq<LineItem>)
    requires
        items.len() <= new.lines.len(),
    ensures
        after_lines(new, invoice, items) == lines_left(new, invoice, items),
        items.len() == new.lines.len() ==> create_next(
            create_next(after_lines(new, invoice, items), CreateReplyView::Done),
            CreateReplyView::Done,
        ) == (CreateStepView::Finished {
            result: Ok(CreatedInvoiceView { status_code: 201, invoice, line_items: items }),
        }),
    decreases items.len(),
{
    if items.len() == 0 {
        assert(items =~= Seq::<LineItem>::empty());
    } else {
        every_line_is_recorded(new, invoice, items.drop_last());
        assert(items.drop_last().push(items.last()) =~= items);
    }
}

/// The moves of an invoice: a draft can become open or void, an open invoice paid, void or
/// uncollectible.
pub open spec fn may_move(from: Seq<char>, to: Seq<char>) -> bool {
    ||| from == "draft"@ && to == "open"@
    ||| from == "draft"@ && to == "void"@
    ||| from == "open"@ && to == "paid"@
    ||| from == "open"@ && to == "void"@
    ||| from == "open"@ && to == "uncollectible"@
}

/// The states that an invoice never leaves.
pub open spec fn is_terminal(state: Seq<char>) -> bool {
    state == "paid"@ || state == "void"@ || state == "uncollectible"@
}

/// The states that an invoice can be in.
pub open spec fn is_state(state: Seq<char>) -> bool {
    state == "draft"@ || state == "open"@ || is_terminal(state)
}

/// The names of the states tell them apart.
pub proof fn states_differ()
    ensures
        "draft"@ != "open"@,
        "draft"@ != "paid"@,
        "draft"@ != "void"@,
        "draft"@ != "uncollectible"@,
        "open"@ != "paid"@,
        "open"@ != "void"@,
        "open"@ != "uncollectible"@,
        "paid"@ != "void"@,
        "paid"@ != "uncollectible"@,
        "void"@ != "uncollectible"@,
{
    reveal_strlit("draft");
    reveal_strlit("open");
    reveal_strlit("paid");
    reveal_strlit("void");
    reveal_strlit("uncollectible");
    assert("draft"@.len() == 5);
    assert("open"@.len() == 4);
    assert("paid"@.len() == 4);
    assert("void"@.len() == 4);
    assert("uncollectible"@.len() == 13);
    assert("open"@[0] == 'o');
    assert("paid"@[0] == 'p');
    assert("void"@[0] == 'v');
}

/// Opening, voiding and giving up make only the moves that an invoice may make, and an
/// invoice that may make the move is not refused.
pub proof fn moves_are_allowed(id: u128, invoice: InvoiceView)
    ensures
        opened(id, Some(invoice)) is Ok <==> may_move(invoice.state, "open"@),
        voided(id, Some(invoice)) is Ok <==> may_move(invoice.state, "void"@),
        given_up(id, Some(invoice)) is Ok <==> may_move(invoice.state, "uncollectible"@),
        opened(id, Some(invoice)) matches Ok(to) ==> to == "open"@,
        voided(id, Some(invoice)) matches Ok(to) ==> to == "void"@,
        given_up(id, Some(invoice)) matches Ok(to) ==> to == "uncollectible"@,
{
    states_differ();
}

/// No move leads out of a terminal state, nor back to a draft.
pub proof fn terminal_states_are_final(from: Seq<char>, to: Seq<char>)
    requires
        may_move(from, to),
    ensures
        !is_terminal(from),
        to != "draft"@,
        from != to,
{
    states_differ();
}

/// A refusal of opening, voiding or giving up an invoice of the business is answered with
/// the HTTP status 422, and that of one that it does not have with 404.
pub proof fn refused_moves_are_answered(id: u128, locked: Option<InvoiceView>)
    ensures
        opened(id, locked) matches Err(error) ==> error.status_code() == (if locked is Some {
            422
        } else {
            404int
        }),
        voided(id, locked) matches Err(error) ==> error.status_code() == (if locked is Some {
            422
        } else {
            404int
        }),
        given_up(id, locked) matches Err(error) ==> error.status_code() == (if locked is Some {
            422
        } else {
            404int
        }),
{
}

/// An invoice is recorded only after its customer was found, and found to be one of the
/// business.
pub proof fn invoices_follow_the_lookup(step: CreateStepView, reply: CreateReplyView)
    requires
        create_next(step, reply) is InsertInvoice,
        !(step is InsertInvoice),
    ensures
        step is FindCustomer,
        create_next(step, reply)->InsertInvoice_new == step->FindCustomer_new,
        reply matches CreateReplyView::Customer { found } && found matches Some(customer)
            && customer.business_id == step->FindCustomer_new.business_id,
{
}

/// A customer of another business is answered like one that is not there: with the HTTP
/// status 404, before anything is recorded.
pub proof fn foreign_customers_are_not_found(new: NewInvoiceView, found: Option<CustomerView>)
    requires
        found matches Some(customer) ==> customer.business_id != new.business_id,
    ensures
        create_next(
            CreateStepView::FindCustomer { new },
            CreateReplyView::Customer { found },
        ) == (CreateStepView::Finished { result: Err(customer_not_found(new.customer_id)) }),
        customer_not_found(new.customer_id).status_code() == 404,
{
}

/// A list by state shows those invoices of the whole list that are in the state, and no
/// others.
pub proof fn listings_by_state_agree(
    table: Map<u128, InvoiceView>,
    all: Seq<InvoiceView>,
    some: Seq<InvoiceView>,
    business_id: u128,
    state: Seq<char>,
)
    requires
        is_listing(table, all, business_id, None),
        is_listing(table, some, business_id, Some(state)),
    ensures
        forall|invoice: InvoiceView| #[trigger]
            some.contains(invoice) <==> all.contains(invoice) && invoice.state == state,
{
    assert forall|invoice: InvoiceView|
        some.contains(invoice) == (all.contains(invoice) && invoice.state == state) by {
        if some.contains(invoice) {
            let i = choose|i: int| 0 <= i < some.len() && some[i] == invoice;
            assert(table.contains_key(some[i].key()));
        }
        if all.contains(invoice) && invoice.state == state {
            let i = choose|i: int| 0 <= i < all.len() && all[i] == invoice;
            assert(table.contains_key(all[i].key()));
        }
    }
}

/// A list never shows an invoice of another business.
pub proof fn listings_stay_within_the_business(
    table: Map<u128, InvoiceView>,
    rows: Seq<InvoiceView>,
    business_id: u128,
    state: Option<Seq<char>>,
    invoice: InvoiceView,
)
    requires
        is_listing(table, rows, business_id, state),
        invoice.business_id != business_id,
    ensures
        !rows.contains(invoice),
{
}

/// Whether lines can make an invoice: there is one, the quantity and the unit amount of each
/// are positive, and their total can be held.
pub open spec fn can_be_invoiced(items: Seq<CreateLineItem>) -> bool {
    &&& items.len() > 0
    &&& forall|i: int|
        0 <= i < items.len() ==> (#[trigger] items[i]).quantity > 0 && items[i].unit_amount_cents
            > 0
    &&& lines_total(items) <= i64::MAX
}

/// The total grows line by line, by the quantity of the line times its unit amount.
pub proof fn totals_grow_line_by_line(items: Seq<CreateLineItem>, next: CreateLineItem)
    ensures
        lines_total(Seq::<CreateLineItem>::empty()) == 0,
        lines_total(items.push(next)) == lines_total(items) + next.quantity
            * next.unit_amount_cents,
{
    assert(items.push(next).drop_last() =~= items);
}

/// So does the total of the lines that are recorded, by the amount of the line.
pub proof fn recorded_totals_grow_line_by_line(lines: Seq<NewLineItem>, next: NewLineItem)
    ensures
        recorded_total(Seq::<NewLineItem>::empty()) == 0,
        recorded_total(lines.push(next)) == recorded_total(lines) + next.amount_cents,
{
    assert(lines.push(next).drop_last() =~= lines);
}

/// A request with acceptable lines is planned as it stands: for the business that asks and the
/// customer and the date that it names, with every line in its place, each for its quantity
/// times its unit amount, and with the total of all of them.
pub proof fn requests_are_planned_line_for_line(business_id: u128, request: CreateInvoiceRequest)
    requires
        can_be_invoiced(request.line_items@),
    ensures
        create_begin(business_id, request) matches CreateStepView::FindCustomer { new }
            && new.business_id == business_id && new.customer_id == request.customer_id
            && new.due_date == request.due_date && new.lines.len() == request.line_items@.len() && (
        forall|i: int|
            0 <= i < request.line_items@.len() ==> (#[trigger] new.lines[i]).description
                == request.line_items@[i].description && new.lines[i].quantity
                == request.line_items@[i].quantity && new.lines[i].unit_amount_cents
                == request.line_items@[i].unit_amount_cents && new.lines[i].amount_cents
                == request.line_items@[i].quantity * request.line_items@[i].unit_amount_cents)
            && new.total_cents == lines_total(request.line_items@),
{
    let items = request.line_items@;
    first_refusal_none(items);
    assert forall|i: int| 0 <= i < items.len() implies line_refusal(
        #[trigger] items[i],
    ) is None by {}
    lines_add_up(business_id, request);
    let new = new_invoice(business_id, request);
    total_grows(items, 0);
    assert forall|i: int| 0 <= i < items.len() implies (#[trigger] new.lines[i]).amount_cents
        == items[i].quantity * items[i].unit_amount_cents by {
        assert(new.lines[i].quantity == items[i].quantity);
    }
}

/// Lines are refused for the first fault among them: that there is none, or that the first that
/// is not acceptable has a quantity, or else a unit amount, that is not positive. The fault is
/// that of the line `at`.
pub proof fn lines_are_refused_for_their_first_fault(
    business_id: u128,
    request: CreateInvoiceRequest,
) -> (at: int)
    ensures
        ({
            let items = request.line_items@;
            let begun = create_begin(business_id, request);
            &&& lines_refusal(items) is None <==> begun is FindCustomer
            &&& lines_refusal(items) matches Some(message) ==> begun == (CreateStepView::Finished {
                result: Err(AppErrorView::Unprocessable(message)),
            })
            &&& items.len() == 0 ==> begun == (CreateStepView::Finished {
                result: Err(AppErrorView::Unprocessable("line_items cannot be empty"@)),
            })
            &&& items.len() > 0 && (forall|i: int|
                0 <= i < items.len() ==> (#[trigger] items[i]).quantity > 0
                    && items[i].unit_amount_cents > 0) ==> begun is FindCustomer
            &&& items.len() > 0 && !(begun is FindCustomer) ==> 0 <= at < items.len() && (forall|
                i: int,
            |
                0 <= i < at ==> (#[trigger] items[i]).quantity > 0 && items[i].unit_amount_cents
                    > 0) && (items[at].quantity <= 0 || items[at].unit_amount_cents <= 0) && begun
                == (CreateStepView::Finished {
                result: Err(
                    AppErrorView::Unprocessable(
                        if items[at].quantity <= 0 {
                            "quantity must be > 0"@
                        } else {
                            "unit_amount_cents must be > 0"@
                        },
                    ),
                ),
            })
            &&& begun is FindCustomer ==> items.len() > 0 && forall|i: int|
                0 <= i < items.len() ==> (#[trigger] items[i]).quantity > 0
                    && items[i].unit_amount_cents > 0
        }),
{
    let items = request.line_items@;
    first_refusal_none(items);
    assert forall|i: int|
        0 <= i < items.len() && ((#[trigger] items[i]).quantity <= 0 || items[i].unit_amount_cents
            <= 0) implies line_refusal(items[i]) is Some by {}
    assert forall|i: int|
        0 <= i < items.len() && (#[trigger] items[i]).quantity > 0 && items[i].unit_amount_cents
            > 0 implies line_refusal(items[i]) is None by {}
    first_fault(items)
}

proof fn first_fault(items: Seq<CreateLineItem>) -> (at: int)
    ensures
        first_refusal(items) matches Some(message) ==> 0 <= at < items.len() && (forall|i: int|
            0 <= i < at ==> (#[trigger] items[i]).quantity > 0 && items[i].unit_amount_cents > 0)
            && (items[at].quantity <= 0 || items[at].unit_amount_cents <= 0) && message == (
        if items[at].quantity <= 0 {
            "quantity must be > 0"@
        } else {
            "unit_amount_cents must be > 0"@
        }),
    decreases items.len(),
{
    if items.len() == 0 || line_refusal(items[0]) is Some {
        0
    } else {
        let rest = items.drop_first();
        let at = first_fault(rest);
        assert forall|i: int| 0 <= i < at + 1 && first_refusal(items) is Some implies (
        #[trigger] items[i]).quantity > 0 && items[i].unit_amount_cents > 0 by {
            if i > 0 {
                assert(rest[i - 1] == items[i]);
            }
        }
        at + 1
    }
}

/// The test for a total that cannot be held is exact.
pub proof fn only_totals_that_fit_are_planned(items: Seq<CreateLineItem>)
    requires
        items.len() > 0,
        forall|i: int|
            0 <= i < items.len() ==> (#[trigger] items[i]).quantity > 0
                && items[i].unit_amount_cents > 0,
    ensures
        total_fits(items) <==> lines_total(items) <= 9223372036854775807,
{
    first_refusal_none(items);
    assert forall|i: int| 0 <= i < items.len() implies line_refusal(
        #[trigger] items[i],
    ) is None by {}
}

/// The customer decides: one of the business lets the invoice be recorded as it was planned,
/// and any other is not found.
pub proof fn customers_decide(new: NewInvoiceView, customer: CustomerView)
    ensures
        ({
            let refused = CreateStepView::Finished {
                result: Err(
                    AppErrorView::NotFound(
                        "Customer "@ + uuid_text(new.customer_id) + " not found"@,
                    ),
                ),
            };
            let next = create_next(
                CreateStepView::FindCustomer { new },
                CreateReplyView::Customer { found: Some(customer) },
            );
            &&& customer.business_id == new.business_id ==> next == (
            CreateStepView::InsertInvoice { new })
            &&& customer.business_id != new.business_id ==> next == refused
            &&& create_next(
                CreateStepView::FindCustomer { new },
                CreateReplyView::Customer { found: None },
            ) == refused
        }),
{
}

/// Lines are recorded one after the other, until none is left, and only then committed. What
/// was planned and what was recorded is kept.
pub proof fn lines_are_recorded_one_by_one(
    new: NewInvoiceView,
    invoice: Invoice,
    inserted: Seq<LineItem>,
    item: LineItem,
)
    ensures
        create_next(
            CreateStepView::InsertInvoice { new },
            CreateReplyView::InsertedInvoice { invoice },
        ) == (if new.lines.len() > 0 {
            CreateStepView::InsertLine { new, invoice, inserted: Seq::empty() }
        } else {
            CreateStepView::Commit { new, invoice, inserted: Seq::empty() }
        }),
        create_next(
            CreateStepView::InsertLine { new, invoice, inserted },
            CreateReplyView::InsertedLine { item },
        ) == (if inserted.len() + 1 < new.lines.len() {
            CreateStepView::InsertLine { new, invoice, inserted: inserted.push(item) }
        } else {
            CreateStepView::Commit { new, invoice, inserted: inserted.push(item) }
        }),
{
}

/// A committed invoice is announced to the business that made it, with the invoice as it was
/// recorded, and answered with the HTTP status 201, the invoice and its lines.
pub proof fn committed_invoices_are_announced(
    new: NewInvoiceView,
    invoice: Invoice,
    inserted: Seq<LineItem>,
)
    ensures
        ({
            let announced = create_next(
                CreateStepView::Commit { new, invoice, inserted },
                CreateReplyView::Done,
            );
            &&& announced matches CreateStepView::Announce { event, response }
            &&& event.business_id == new.business_id
            &&& event.event_type == "invoice.created"@
            &&& event.payload == json_text(
                map![
                    "event"@ => JsonValue::Text("invoice.created"@),
                    "invoice_id"@ => JsonValue::Text(uuid_text(invoice.id)),
                    "business_id"@ => JsonValue::Text(uuid_text(invoice.business_id)),
                    "state"@ => JsonValue::Text(invoice.state@),
                    "total_cents"@ => JsonValue::Integer(invoice.total_cents as int),
                ],
            )
            &&& response.status_code == 201
            &&& response.invoice == invoice
            &&& response.line_items == inserted
            &&& create_next(announced, CreateReplyView::Done) == (CreateStepView::Finished {
                result: Ok(response),
            })
        }),
{
}

/// A failure of the database ends the making of an invoice with that failure; only where the
/// invoice itself is refused for its customer is the customer not found. After the commit there
/// is nothing left for it to fail.
pub proof fn failures_end_invoices(step: CreateStepView, failure: DbFailureView)
    ensures
        ({
            let next = create_next(step, CreateReplyView::DbFailed { failure });
            &&& step is Announce || step is Finished ==> next == step
            &&& step matches CreateStepView::InsertInvoice { new } ==> failure.code == Some(
                "23503"@,
            ) ==> next == (CreateStepView::Finished {
                result: Err(
                    AppErrorView::NotFound(
                        "Customer "@ + uuid_text(new.customer_id) + " not found"@,
                    ),
                ),
            })
            &&& !(step is Announce || step is Finished) && !(step is InsertInvoice && failure.code
                == Some("23503"@)) ==> next == (CreateStepView::Finished {
                result: Err(AppErrorView::Database(failure)),
            })
        }),
{
}

/// What moving an invoice comes to: opening takes a draft, voiding a draft or an open invoice,
/// giving up an open one; every other is refused with its state named, and one that is not
/// there is not found.
pub proof fn moves_go_by_the_state(id: u128, invoice: InvoiceView)
    ensures
        opened(id, None) == Err::<Seq<char>, AppErrorView>(
            AppErrorView::NotFound("Invoice "@ + uuid_text(id) + " not found"@),
        ),
        voided(id, None) == opened(id, None),
        given_up(id, None) == opened(id, None),
        opened(id, Some(invoice)) == (if invoice.state == "draft"@ {
            Ok("open"@)
        } else {
            Err(
                AppErrorView::Unprocessable(
                    "Cannot open an invoice in state '"@ + invoice.state + "'"@,
                ),
            )
        }),
        voided(id, Some(invoice)) == (if invoice.state == "draft"@ || invoice.state == "open"@ {
            Ok("void"@)
        } else {
            Err(
                AppErrorView::Unprocessable(
                    "Cannot void an invoice in state '"@ + invoice.state + "'"@,
                ),
            )
        }),
        given_up(id, Some(invoice)) == (if invoice.state == "open"@ {
            Ok("uncollectible"@)
        } else {
            Err(
                AppErrorView::Unprocessable(
                    "Only open invoices can be marked uncollectible (current state: '"@
                        + invoice.state + "')"@,
                ),
            )
        }),
{
}

/// A read answers with the invoice and the lines that were read, and says which invoice is not
/// there.
pub proof fn reads_answer_with_what_was_read(
    id: u128,
    invoice: InvoiceView,
    line_items: Seq<LineItem>,
)
    ensures
        read_answer(id, Some(invoice), line_items) == Ok::<
            (InvoiceView, Seq<LineItem>),
            AppErrorView,
        >((invoice, line_items)),
        read_answer(id, None, line_items) == Err::<(InvoiceView, Seq<LineItem>), AppErrorView>(
            AppErrorView::NotFound("Invoice "@ + uuid_text(id) + " not found"@),
        ),
        invoice_not_found(id) == AppErrorView::NotFound(
            "Invoice "@ + uuid_text(id) + " not found"@,
        ),
{
}

/// A list shows invoices of the business alone, in the state that is asked for, none twice, the
/// last made first; and it leaves none out.
pub proof fn lists_show_what_is_asked_for(
    table: Map<u128, InvoiceView>,
    rows: Seq<InvoiceView>,
    business_id: u128,
    state: Option<Seq<char>>,
)
    requires
        is_listing(table, rows, business_id, state),
    ensures
        forall|i: int|
            0 <= i < rows.len() ==> table.contains_key((#[trigger] rows[i]).id) && table[rows[i].id]
                == rows[i] && rows[i].business_id == business_id && (state matches Some(s)
                ==> rows[i].state == s),
        forall|id: u128| #[trigger]
            table.contains_key(id) && table[id].business_id == business_id && (state matches Some(s)
                ==> table[id].state == s) ==> rows.contains(table[id]),
        forall|i: int, j: int|
            0 <= i < j < rows.len() ==> (#[trigger] rows[i]).id != (#[trigger] rows[j]).id
                && rows[i].created_at >= rows[j].created_at,
{
    assert forall|i: int| 0 <= i < rows.len() implies table.contains_key((#[trigger] rows[i]).id)
        && table[rows[i].id] == rows[i] && rows[i].business_id == business_id && (
    state matches Some(s) ==> rows[i].state == s) by {
        assert(table.contains_key(rows[i].key()));
    }
    assert forall|i: int, j: int| 0 <= i < j < rows.len() implies (#[trigger] rows[i]).id != (
    #[trigger] rows[j]).id && rows[i].created_at >= rows[j].created_at by {
        assert(rows[i].key() != rows[j].key());
        assert(rows[i].rank() >= rows[j].rank());
    }
}

/// An invoice is wanted for a list where it is one of the business and, if a state is asked
/// for, in that state.
pub proof fn lists_are_of_one_business(
    invoice: InvoiceView,
    business_id: u128,
    state: Seq<char>,
)
    ensures
        is_wanted(invoice, business_id, None) <==> invoice.business_id == business_id,
        is_wanted(invoice, business_id, Some(state)) <==> invoice.business_id == business_id
            && invoice.state == state,
{
}

/// Nothing of the making of an invoice is lost in its value.
pub proof fn invoice_steps_are_shown_whole(
    new: NewInvoice,
    invoice: Invoice,
    inserted: Vec<LineItem>,
    created: CreatedInvoice,
    event: WebhookEvent,
    error: AppError,
    text: String,
)
    ensures
        new@.business_id == new.business_id,
        new@.customer_id == new.customer_id,
        new@.total_cents == new.total_cents,
        new@.due_date == new.due_date,
        new@.lines == new.lines@,
        created@.status_code == created.status_code,
        created@.invoice == created.body.invoice,
        created@.line_items == created.body.line_items@,
        (CreateStep::FindCustomer { new })@ == (CreateStepView::FindCustomer { new: new@ }),
        (CreateStep::InsertInvoice { new })@ == (CreateStepView::InsertInvoice { new: new@ }),
        (CreateStep::InsertLine { new, invoice, inserted })@ == (CreateStepView::InsertLine {
            new: new@,
            invoice,
            inserted: inserted@,
        }),
        (CreateStep::Commit { new, invoice, inserted })@ == (CreateStepView::Commit {
            new: new@,
            invoice,
            inserted: inserted@,
        }),
        (CreateStep::Announce { event, response: created })@ == (CreateStepView::Announce {
            event: event@,
            response: created@,
        }),
        (CreateStep::Finished { result: Ok(created) })@ == (CreateStepView::Finished {
            result: Ok(created@),
        }),
        (CreateStep::Finished { result: Err(error) })@ == (CreateStepView::Finished {
            result: Err(error@),
        }),
        text_result(Ok(text)) == Ok::<Seq<char>, AppErrorView>(text@),
        text_result(Err(error)) == Err::<Seq<char>, AppErrorView>(error@),
{
}

/// Nothing of a reply to the making of an invoice is lost in its value.
pub proof fn create_replies_are_shown_whole(
    customer: Customer,
    invoice: Invoice,
    item: LineItem,
    failure: DbFailure,
)
    ensures
        (CreateReply::Customer { found: Some(customer) })@ == (CreateReplyView::Customer {
            found: Some(customer@),
        }),
        (CreateReply::Customer { found: None })@ == (CreateReplyView::Customer { found: None }),
        (CreateReply::InsertedInvoice { invoice })@ == (CreateReplyView::InsertedInvoice {
            invoice,
        }),
        (CreateReply::InsertedLine { item })@ == (CreateReplyView::InsertedLine { item }),
        CreateReply::Done@ == CreateReplyView::Done,
        (CreateReply::DbFailed { failure })@ == (CreateReplyView::DbFailed { failure: failure@ }),
{
}

/// Whether `reply` is one that can come of `step`.
pub open spec fn reply_fits(step: CreateStepView, reply: CreateReplyView) -> bool {
    match step {
        CreateStepView::FindCustomer { .. } => reply is Customer || reply is DbFailed,
        CreateStepView::InsertInvoice { .. } => reply is InsertedInvoice || reply is DbFailed,
        CreateStepView::InsertLine { .. } => reply is InsertedLine || reply is DbFailed,
        CreateStepView::Commit { .. } => reply is Done || reply is DbFailed,
        CreateStepView::Announce { .. } => reply is Done,
        CreateStepView::Finished { .. } => false,
    }
}

/// What is over stays over, and a reply that does not belong to a step leaves it as it is.
pub proof fn other_replies_change_nothing(step: CreateStepView, reply: CreateReplyView)
    requires
        !reply_fits(step, reply),
    ensures
        create_next(step, reply) == step,
{
}

} // verus!
