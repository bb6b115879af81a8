//! What holds of customers, invoices and webhook endpoints as a whole, however requests are
//! interleaved.
//!
//! A registry is what the database holds of customers, of invoices and their lines, and of
//! endpoints, and the invoices that are being made. The database answers by its tables: a
//! unique index refuses a customer whose business has the email already, and a foreign key an
//! invoice whose customer is not there. Nothing is ever taken away. Every decision is that of
//! the requests for customers and endpoints and of the steps by which an invoice is made.
use vstd::prelude::*;

use crate::error::{foreign_key_violation, unique_violation, AppErrorView, DbFailureView};
use crate::listing::{collections_agree, collects, each_once, is_keyed, lists, listings_exist,
    Listed};
use crate::models::customer::CustomerView;
use crate::models::invoice::{CreateInvoiceRequest, Invoice, InvoiceView, LineItem};
use crate::models::webhook::WebhookEndpoint;
use crate::routes::customers::{created_answer, customer_not_found, email_taken, new_customer,
    NewCustomerView};
use crate::routes::invoices::{after_lines, create_begin, create_next, every_line_is_recorded,
    invoice_not_found, lines_add_up, lines_refusal, recorded_total, total_fits, CreateReplyView,
    CreateStepView, CreatedInvoiceView, NewInvoiceView, NewLineItem};
use crate::routes::webhook_endpoints::{is_listing, listings_show_the_endpoints, new_endpoint,
    shows, summary};
use crate::text::{lowercase, trimmed};

verus! {

/// What the database holds of customers, invoices and endpoints, and the requests for
/// invoices that are under way.
pub struct Registry {
    /// The customers, by their ids.
    pub customers: Map<u128, CustomerView>,
    /// The invoices, by their ids.
    pub invoices: Map<u128, InvoiceView>,
    /// The lines of the invoices, by their own ids.
    pub lines: Map<u128, LineItem>,
    /// The webhook endpoints, by their ids.
    pub endpoints: Map<u128, WebhookEndpoint>,
    /// The step that each request for an invoice has come to.
    pub requests: Map<int, CreateStepView>,
}

/// Something that happens.
pub enum RegistryEvent {
    /// A business asks for a customer, who would have the id `id`.
    Enrol { business_id: u128, id: u128, name: Seq<char>, email: Seq<char>, now: i64 },
    /// A business asks for an invoice.
    Arrive { request: int, business_id: u128, body: CreateInvoiceRequest },
    /// A request looks for the customer of its invoice.
    Lookup { request: int },
    /// A request records its invoice and the lines, in one transaction.
    Record { request: int, invoice: Invoice, items: Seq<LineItem> },
    /// The state of an invoice changes.
    Move { id: u128, state: Seq<char>, now: i64 },
    /// A business asks for a webhook endpoint, for which `secret` was drawn.
    Register {
        business_id: u128,
        url: Seq<char>,
        secret: Seq<char>,
        endpoint: WebhookEndpoint,
    },
    /// A webhook endpoint is switched on or off.
    Switch { id: u128, active: bool },
    /// The database fails a request.
    Fail { request: int, failure: DbFailureView },
    /// The service breaks down in the middle of a request.
    Crash { request: int },
}

/// The row of a customer that is recorded.
pub open spec fn customer_row(
    business_id: u128,
    id: u128,
    new: NewCustomerView,
    now: i64,
) -> CustomerView {
    CustomerView { id, business_id, name: new.name, email: new.email, created_at: now }
}

/// Whether `invoice` is how the database records `new`.
pub open spec fn is_record_of(invoice: InvoiceView, new: NewInvoiceView) -> bool {
    &&& invoice.business_id == new.business_id
    &&& invoice.customer_id == new.customer_id
    &&& invoice.total_cents == new.total_cents
    &&& invoice.due_date == new.due_date
    &&& invoice.state == "draft"@
}

/// Whether `item` is how the database records `new` as a line of the invoice.
pub open spec fn is_line_of(item: LineItem, new: NewLineItem, invoice_id: u128) -> bool {
    &&& item.invoice_id == invoice_id
    &&& item.description@ == new.description@
    &&& item.quantity == new.quantity
    &&& item.unit_amount_cents == new.unit_amount_cents
    &&& item.amount_cents == new.amount_cents
}

/// Whether `endpoint` is how the database records an endpoint of the business.
pub open spec fn is_endpoint_of(
    endpoint: WebhookEndpoint,
    business_id: u128,
    url: Seq<char>,
    secret: Seq<char>,
) -> bool {
    &&& endpoint.business_id == business_id
    &&& endpoint.url@ == url
    &&& endpoint.secret@ == secret
    &&& endpoint.active
}

impl Listed for CustomerView {
    open spec fn key(self) -> u128 {
        self.id
    }

    /// The last made comes first.
    open spec fn rank(self) -> int {
        self.created_at as int
    }
}

impl Listed for LineItem {
    open spec fn key(self) -> u128 {
        self.id
    }

    /// The lowest id comes first.
    open spec fn rank(self) -> int {
        -(self.id as int)
    }
}

/// Picks the lines of an invoice.
pub open spec fn of_invoice(invoice_id: u128) -> spec_fn(LineItem) -> bool {
    |item: LineItem| item.invoice_id == invoice_id
}

/// What lines come to together.
pub open spec fn amounts_total(items: Seq<LineItem>) -> int
    decreases items.len(),
{
    if items.len() == 0 {
        0
    } else {
        amounts_total(items.drop_last()) + items.last().amount_cents
    }
}

/// The lines with `items` recorded.
pub open spec fn with_lines(table: Map<u128, LineItem>, items: Seq<LineItem>) -> Map<u128, LineItem>
    decreases items.len(),
{
    if items.len() == 0 {
        table
    } else {
        with_lines(table, items.drop_last()).insert(items.last().id, items.last())
    }
}

impl Registry {
    /// The registry before anything has happened.
    pub open spec fn empty() -> Registry {
        Registry {
            customers: Map::empty(),
            invoices: Map::empty(),
            lines: Map::empty(),
            endpoints: Map::empty(),
            requests: Map::empty(),
        }
    }

    /// The customer `id`, if the business has it.
    pub open spec fn own_customer(self, id: u128, business_id: u128) -> Option<CustomerView> {
        if self.has_customer(business_id, id) {
            Some(self.customers[id])
        } else {
            None
        }
    }

    /// The answer to a request of the business for the customer `id`.
    pub open spec fn read_customer(self, id: u128, business_id: u128) -> Result<
        CustomerView,
        AppErrorView,
    > {
        crate::routes::customers::read_answer(id, self.own_customer(id, business_id))
    }

    /// The invoice `id`, if the business has it.
    pub open spec fn own_invoice(self, id: u128, business_id: u128) -> Option<InvoiceView> {
        if self.invoices.contains_key(id) && self.invoices[id].business_id == business_id {
            Some(self.invoices[id])
        } else {
            None
        }
    }

    /// Whether `rows` are the customers of the business: all of them, each once, newest
    /// first. These are read for a list.
    pub open spec fn lists_customers(self, business_id: u128, rows: Seq<CustomerView>) -> bool {
        lists(
            self.customers,
            rows,
            |customer: CustomerView| customer.business_id == business_id,
        )
    }

    /// Whether `rows` are the lines of the invoice, by ascending id.
    pub open spec fn lists_lines(self, invoice_id: u128, rows: Seq<LineItem>) -> bool {
        lists(self.lines, rows, of_invoice(invoice_id))
    }

    /// The answer to a request of the business for the invoice `id`, where `rows` are its
    /// lines.
    pub open spec fn read_invoice(
        self,
        id: u128,
        business_id: u128,
        rows: Seq<LineItem>,
    ) -> Result<(InvoiceView, Seq<LineItem>), AppErrorView> {
        crate::routes::invoices::read_answer(id, self.own_invoice(id, business_id), rows)
    }

    /// Whether `items` can be recorded as the lines of `new`.
    pub open spec fn takes_lines(
        self,
        new: NewInvoiceView,
        invoice_id: u128,
        items: Seq<LineItem>,
    ) -> bool {
        &&& items.len() == new.lines.len()
        &&& each_once(items)
        &&& forall|i: int|
            0 <= i < items.len() ==> is_line_of(#[trigger] items[i], new.lines[i], invoice_id)
                && !self.lines.contains_key(items[i].id)
    }

    /// Whether the request can record its invoice and the lines in this way.
    pub open spec fn takes_invoice(
        self,
        request: int,
        invoice: Invoice,
        items: Seq<LineItem>,
    ) -> bool {
        &&& self.requests.contains_key(request)
        &&& !self.invoices.contains_key(invoice.id)
        &&& self.requests[request] matches CreateStepView::InsertInvoice { new }
        &&& is_record_of(invoice@, new)
        &&& self.takes_lines(new, invoice.id, items)
    }

    /// Whether some customer of the business has the email.
    pub open spec fn has_email(self, business_id: u128, email: Seq<char>) -> bool {
        exists|id: u128| #[trigger]
            self.customers.contains_key(id) && self.customers[id].business_id == business_id
                && self.customers[id].email == email
    }

    /// What comes of recording the customer `row`.
    pub open spec fn insert_reply(self, row: CustomerView) -> Result<CustomerView, DbFailureView> {
        if self.has_email(row.business_id, row.email) {
            Err(unique_violation())
        } else {
            Ok(row)
        }
    }

    /// The answer to the request for a customer.
    pub open spec fn enrolment(
        self,
        business_id: u128,
        id: u128,
        name: Seq<char>,
        email: Seq<char>,
        now: i64,
    ) -> Result<(u16, CustomerView), AppErrorView> {
        match new_customer(name, email) {
            Ok(new) => created_answer(
                self.insert_reply(customer_row(business_id, id, new, now)),
            ),
            Err(error) => Err(error),
        }
    }

    /// The customer with the id, if there is one.
    pub open spec fn find_customer(self, id: u128) -> Option<CustomerView> {
        if self.customers.contains_key(id) {
            Some(self.customers[id])
        } else {
            None
        }
    }

    /// The registry with the request at the given step.
    pub open spec fn at(self, request: int, step: CreateStepView) -> Registry {
        Registry { requests: self.requests.insert(request, step), ..self }
    }

    /// The registry after the transaction that records an invoice and its lines.
    pub open spec fn record(
        self,
        request: int,
        new: NewInvoiceView,
        invoice: Invoice,
        items: Seq<LineItem>,
    ) -> Registry {
        if self.customers.contains_key(new.customer_id) {
            Registry {
                invoices: self.invoices.insert(invoice.id, invoice@),
                lines: with_lines(self.lines, items),
                ..self.at(
                    request,
                    create_next(after_lines(new, invoice, items), CreateReplyView::Done),
                )
            }
        } else {
            self.at(
                request,
                create_next(
                    CreateStepView::InsertInvoice { new },
                    CreateReplyView::DbFailed { failure: foreign_key_violation() },
                ),
            )
        }
    }

    /// The registry after `event`. What cannot happen leaves it as it is.
    pub open spec fn after(self, event: RegistryEvent) -> Registry {
        match event {
            RegistryEvent::Enrol { business_id, id, name, email, now } =>
                if self.customers.contains_key(id) {
                    self
                } else {
                    match self.enrolment(business_id, id, name, email, now) {
                        Ok((_, customer)) => Registry {
                            customers: self.customers.insert(id, customer),
                            ..self
                        },
                        Err(_) => self,
                    }
                },
            RegistryEvent::Arrive { request, business_id, body } =>
                if self.requests.contains_key(request) || !total_fits(body.line_items@) {
                    self
                } else {
                    self.at(request, create_begin(business_id, body))
                },
            RegistryEvent::Lookup { request } => if self.requests.contains_key(request) {
                match self.requests[request] {
                    CreateStepView::FindCustomer { new } => self.at(
                        request,
                        create_next(
                            self.requests[request],
                            CreateReplyView::Customer {
                                found: self.find_customer(new.customer_id),
                            },
                        ),
                    ),
                    _ => self,
                }
            } else {
                self
            },
            RegistryEvent::Record { request, invoice, items } => if self.takes_invoice(
                request,
                invoice,
                items,
            ) {
                self.record(request, self.requests[request]->InsertInvoice_new, invoice, items)
            } else {
                self
            },
            RegistryEvent::Move { id, state, now } => if self.invoices.contains_key(id) {
                Registry {
                    invoices: self.invoices.insert(
                        id,
                        InvoiceView { state, updated_at: now, ..self.invoices[id] },
                    ),
                    ..self
                }
            } else {
                self
            },
            RegistryEvent::Register { business_id, url, secret, endpoint } => match new_endpoint(
                url,
                secret,
            ) {
                Ok(new) => if !self.endpoints.contains_key(endpoint.id) && is_endpoint_of(
                    endpoint,
                    business_id,
                    new.url,
                    new.secret,
                ) {
                    Registry { endpoints: self.endpoints.insert(endpoint.id, endpoint), ..self }
                } else {
                    self
                },
                Err(_) => self,
            },
            RegistryEvent::Switch { id, active } => if self.endpoints.contains_key(id) {
                Registry {
                    endpoints: self.endpoints.insert(
                        id,
                        WebhookEndpoint { active, ..self.endpoints[id] },
                    ),
                    ..self
                }
            } else {
                self
            },
            RegistryEvent::Fail { request, failure } => if self.requests.contains_key(request) {
                self.at(
                    request,
                    create_next(self.requests[request], CreateReplyView::DbFailed { failure }),
                )
            } else {
                self
            },
            RegistryEvent::Crash { request } => Registry {
                requests: self.requests.remove(request),
                ..self
            },
        }
    }

    /// The registry after a row of events.
    pub open spec fn after_all(self, events: Seq<RegistryEvent>) -> Registry
        decreases events.len(),
    {
        if events.len() == 0 {
            self
        } else {
            self.after_all(events.drop_last()).after(events.last())
        }
    }

    /// Whether the customer is there and is one of the business.
    pub open spec fn has_customer(self, business_id: u128, customer_id: u128) -> bool {
        self.customers.contains_key(customer_id) && self.customers[customer_id].business_id
            == business_id
    }

    /// No two customers of a business have the same email.
    pub open spec fn emails_are_unique(self) -> bool {
        forall|a: u128, b: u128| #[trigger]
            self.customers.contains_key(a) && #[trigger] self.customers.contains_key(b)
                && self.customers[a].business_id == self.customers[b].business_id
                && self.customers[a].email == self.customers[b].email ==> a == b
    }

    /// The customers are finitely many and kept by their ids.
    pub open spec fn customers_are_keyed(self) -> bool {
        self.customers.dom().finite() && is_keyed(self.customers)
    }

    /// An invoice is for a customer of its own business.
    pub open spec fn invoices_are_scoped(self) -> bool {
        forall|id: u128| #[trigger]
            self.invoices.contains_key(id) ==> self.has_customer(
                self.invoices[id].business_id,
                self.invoices[id].customer_id,
            )
    }

    /// An invoice that is about to be recorded is for a customer of its own business.
    pub open spec fn requests_are_scoped(self) -> bool {
        forall|r: int| #[trigger]
            self.requests.contains_key(r) ==> match self.requests[r] {
                CreateStepView::InsertInvoice { new } => self.has_customer(
                    new.business_id,
                    new.customer_id,
                ),
                _ => true,
            }
    }

    /// The total of an invoice that is being made is what its lines come to.
    pub open spec fn requests_add_up(self) -> bool {
        forall|r: int| #[trigger]
            self.requests.contains_key(r) ==> match self.requests[r] {
                CreateStepView::FindCustomer { new } => new.total_cents == recorded_total(
                    new.lines,
                ),
                CreateStepView::InsertInvoice { new } => new.total_cents == recorded_total(
                    new.lines,
                ),
                _ => true,
            }
    }

    /// The lines are kept by their ids, for invoices that are there.
    pub open spec fn lines_are_sound(self) -> bool {
        &&& self.lines.dom().finite()
        &&& is_keyed(self.lines)
        &&& forall|id: u128| #[trigger]
            self.lines.contains_key(id) ==> self.invoices.contains_key(self.lines[id].invoice_id)
    }

    /// Whether the recorded lines of the invoice are `items`, in whatever order, and come to
    /// its total.
    pub open spec fn adds_up(self, id: u128, items: Seq<LineItem>) -> bool {
        collects(self.lines, items, of_invoice(id)) && amounts_total(items)
            == self.invoices[id].total_cents
    }

    /// The recorded lines of an invoice come to its total.
    pub open spec fn invoices_add_up(self) -> bool {
        forall|id: u128| #[trigger]
            self.invoices.contains_key(id) ==> exists|items: Seq<LineItem>| #[trigger]
                self.adds_up(id, items)
    }

    /// The endpoints are finitely many and kept by their ids.
    pub open spec fn endpoints_are_sound(self) -> bool {
        self.endpoints.dom().finite() && is_keyed(self.endpoints)
    }

    /// What holds of every registry.
    pub open spec fn is_sound(self) -> bool {
        &&& self.emails_are_unique()
        &&& self.customers_are_keyed()
        &&& self.invoices_are_scoped()
        &&& self.requests_are_scoped()
        &&& self.requests_add_up()
        &&& self.lines_are_sound()
        &&& self.invoices_add_up()
        &&& self.endpoints_are_sound()
    }
}

proof fn recorded_lines(table: Map<u128, LineItem>, items: Seq<LineItem>)
    requires
        each_once(items),
        forall|i: int| 0 <= i < items.len() ==> !table.contains_key((#[trigger] items[i]).id),
    ensures
        table.dom().finite() ==> with_lines(table, items).dom().finite(),
        forall|id: u128| #[trigger]
            table.contains_key(id) ==> with_lines(table, items).contains_key(id) && with_lines(
                table,
                items,
            )[id] == table[id],
        forall|i: int|
            0 <= i < items.len() ==> with_lines(table, items).contains_key((#[trigger] items[i]).id)
                && with_lines(table, items)[items[i].id] == items[i],
        forall|id: u128| #[trigger]
            with_lines(table, items).contains_key(id) ==> table.contains_key(id) || exists|i: int|
                0 <= i < items.len() && (#[trigger] items[i]).id == id,
    decreases items.len(),
{
    if items.len() > 0 {
        let init = items.drop_last();
        let last = items.last();
        let before = with_lines(table, init);
        let after = with_lines(table, items);
        assert forall|i: int, j: int| 0 <= i < j < init.len() implies (#[trigger] init[i]).key()
            != (#[trigger] init[j]).key() by {
            assert(items[i].key() != items[j].key());
        }
        recorded_lines(table, init);
        assert(items[items.len() - 1] == last);
        assert forall|i: int| 0 <= i < items.len() implies after.contains_key(
            (#[trigger] items[i]).id,
        ) && after[items[i].id] == items[i] by {
            if i < init.len() {
                assert(init[i] == items[i]);
                assert(items[i].key() != items[items.len() - 1].key());
            }
        }
        assert forall|id: u128| #[trigger] after.contains_key(id) implies table.contains_key(id)
            || exists|i: int| 0 <= i < items.len() && (#[trigger] items[i]).id == id by {
            if id != last.id && !table.contains_key(id) {
                assert(before.contains_key(id));
                let i = choose|i: int| 0 <= i < init.len() && (#[trigger] init[i]).id == id;
                assert(items[i].id == id);
            }
        }
    }
}

proof fn recorded_amounts(new: Seq<NewLineItem>, items: Seq<LineItem>)
    requires
        new.len() == items.len(),
        forall|i: int|
            0 <= i < items.len() ==> (#[trigger] items[i]).amount_cents == new[i].amount_cents,
    ensures
        amounts_total(items) == recorded_total(new),
    decreases items.len(),
{
    if items.len() > 0 {
        recorded_amounts(new.drop_last(), items.drop_last());
    }
}

proof fn total_without(items: Seq<LineItem>, i: int)
    requires
        0 <= i < items.len(),
    ensures
        amounts_total(items) == amounts_total(items.remove(i)) + items[i].amount_cents,
    decreases items.len(),
{
    if i < items.len() - 1 {
        total_without(items.drop_last(), i);
        assert(items.remove(i).drop_last() =~= items.drop_last().remove(i));
        assert(items.remove(i).last() == items.last());
    } else {
        assert(items.remove(i) =~= items.drop_last());
    }
}

/// Lines come to the same, in whatever order they are.
pub proof fn totals_have_no_order(a: Seq<LineItem>, b: Seq<LineItem>)
    requires
        a.to_multiset() == b.to_multiset(),
    ensures
        amounts_total(a) == amounts_total(b),
    decreases a.len(),
{
    broadcast use vstd::seq_lib::group_to_multiset_ensures;

    assert(a.len() == a.to_multiset().len());
    assert(b.len() == b.to_multiset().len());
    if a.len() > 0 {
        let last = a.last();
        assert(a.contains(last)) by {
            assert(a[a.len() - 1] == last);
        }
        assert(a.to_multiset().count(last) > 0);
        assert(b.contains(last));
        let i = choose|i: int| 0 <= i < b.len() && b[i] == last;
        total_without(b, i);
        assert(a.remove(a.len() - 1) =~= a.drop_last());
        assert(a.drop_last().to_multiset() =~= a.to_multiset().remove(last));
        assert(b.remove(i).to_multiset() =~= b.to_multiset().remove(last));
        totals_have_no_order(a.drop_last(), b.remove(i));
    }
}

/// The lines of other invoices do not touch those of an invoice.
proof fn other_lines_do_not_matter(
    table: Map<u128, LineItem>,
    items: Seq<LineItem>,
    other: u128,
    id: u128,
    kept: Seq<LineItem>,
)
    requires
        id != other,
        each_once(items),
        forall|i: int|
            0 <= i < items.len() ==> (#[trigger] items[i]).invoice_id == other
                && !table.contains_key(items[i].id),
        collects(table, kept, of_invoice(id)),
    ensures
        collects(with_lines(table, items), kept, of_invoice(id)),
{
    let after = with_lines(table, items);
    recorded_lines(table, items);
    assert forall|i: int| 0 <= i < kept.len() implies after.contains_key(
        (#[trigger] kept[i]).key(),
    ) && after[kept[i].key()] == kept[i] by {
        assert(table.contains_key(kept[i].key()));
    }
    assert forall|line: u128| #[trigger] after.contains_key(line) && of_invoice(id)(
        after[line],
    ) implies kept.contains(after[line]) by {
        if !table.contains_key(line) {
            let i = choose|i: int| 0 <= i < items.len() && (#[trigger] items[i]).id == line;
            assert(after[items[i].id] == items[i]);
        }
    }
}

/// The lines that are recorded with an invoice are all that it has.
proof fn new_lines_are_its_lines(r: Registry, id: u128, items: Seq<LineItem>)
    requires
        r.lines_are_sound(),
        !r.invoices.contains_key(id),
        each_once(items),
        forall|i: int|
            0 <= i < items.len() ==> (#[trigger] items[i]).invoice_id == id
                && !r.lines.contains_key(items[i].id),
    ensures
        collects(with_lines(r.lines, items), items, of_invoice(id)),
{
    let after = with_lines(r.lines, items);
    recorded_lines(r.lines, items);
    assert forall|i: int| 0 <= i < items.len() implies after.contains_key(
        (#[trigger] items[i]).key(),
    ) && after[items[i].key()] == items[i] && of_invoice(id)(items[i]) by {}
    assert forall|line: u128| #[trigger] after.contains_key(line) && of_invoice(id)(
        after[line],
    ) implies items.contains(after[line]) by {
        if r.lines.contains_key(line) {
            assert(r.invoices.contains_key(r.lines[line].invoice_id));
        } else {
            let i = choose|i: int| 0 <= i < items.len() && (#[trigger] items[i]).id == line;
            assert(after[items[i].id] == items[i]);
        }
    }
}

proof fn recording_keeps_sound(r: Registry, request: int, invoice: Invoice, items: Seq<LineItem>)
    requires
        r.is_sound(),
        r.takes_invoice(request, invoice, items),
    ensures
        r.after(RegistryEvent::Record { request, invoice, items }).is_sound(),
{
    let m = r.after(RegistryEvent::Record { request, invoice, items });
    let new = r.requests[request]->InsertInvoice_new;
    assert(r.has_customer(new.business_id, new.customer_id));
    every_line_is_recorded(new, invoice, items);
    recorded_lines(r.lines, items);
    assert forall|i: int| 0 <= i < items.len() implies (#[trigger] items[i]).invoice_id
        == invoice.id && !r.lines.contains_key(items[i].id) && items[i].amount_cents
        == new.lines[i].amount_cents by {
        assert(is_line_of(items[i], new.lines[i], invoice.id));
    }
    assert(m.lines_are_sound()) by {
        assert forall|id: u128| #[trigger] m.lines.contains_key(id) implies m.lines[id].key() == id
            && m.invoices.contains_key(m.lines[id].invoice_id) by {
            if r.lines.contains_key(id) {
                assert(r.invoices.contains_key(r.lines[id].invoice_id));
            } else {
                let i = choose|i: int| 0 <= i < items.len() && (#[trigger] items[i]).id == id;
                assert(m.lines[items[i].id] == items[i]);
            }
        }
    }
    assert(m.invoices_add_up()) by {
        assert forall|id: u128| #[trigger] m.invoices.contains_key(id) implies exists|
            own: Seq<LineItem>,
        | #[trigger] m.adds_up(id, own) by {
            if id == invoice.id {
                new_lines_are_its_lines(r, id, items);
                recorded_amounts(new.lines, items);
                assert(m.adds_up(id, items));
            } else {
                assert(r.invoices.contains_key(id));
                let own = choose|own: Seq<LineItem>| #[trigger] r.adds_up(id, own);
                other_lines_do_not_matter(r.lines, items, invoice.id, id, own);
                assert(m.adds_up(id, own));
            }
        }
    }
}

proof fn other_events_keep_invoices_adding_up(r: Registry, m: Registry)
    requires
        r.invoices_add_up(),
        m.lines == r.lines,
        forall|id: u128| #[trigger]
            m.invoices.contains_key(id) ==> r.invoices.contains_key(id)
                && m.invoices[id].total_cents == r.invoices[id].total_cents,
    ensures
        m.invoices_add_up(),
{
    assert forall|id: u128| #[trigger] m.invoices.contains_key(id) implies exists|
        own: Seq<LineItem>,
    | #[trigger] m.adds_up(id, own) by {
        assert(r.invoices.contains_key(id));
        let own = choose|own: Seq<LineItem>| #[trigger] r.adds_up(id, own);
        assert(m.adds_up(id, own));
    }
}

/// Where the request for a customer leads: to a refusal if the name or the email will not do,
/// to a conflict if the business has the email, and else to the HTTP status 201.
pub proof fn enrolments_are_answered(
    r: Registry,
    business_id: u128,
    id: u128,
    name: Seq<char>,
    email: Seq<char>,
    now: i64,
)
    ensures
        r.enrolment(business_id, id, name, email, now) == (match new_customer(name, email) {
            Err(error) => Err(error),
            Ok(new) => if r.has_email(business_id, new.email) {
                Err(email_taken())
            } else {
                Ok((201u16, customer_row(business_id, id, new, now)))
            },
        }),
{
    assert(unique_violation().is_unique_violation());
}

/// Customers stay as they are, whatever happens.
pub proof fn customers_stay(r: Registry, events: Seq<RegistryEvent>, id: u128)
    requires
        r.customers.contains_key(id),
    ensures
        r.after_all(events).customers.contains_key(id),
        r.after_all(events).customers[id] == r.customers[id],
    decreases events.len(),
{
    if events.len() > 0 {
        customers_stay(r, events.drop_last(), id);
    }
}

proof fn enrolling_keeps_sound(
    r: Registry,
    business_id: u128,
    id: u128,
    name: Seq<char>,
    email: Seq<char>,
    now: i64,
)
    requires
        r.is_sound(),
    ensures
        r.after(RegistryEvent::Enrol { business_id, id, name, email, now }).is_sound(),
{
    let m = r.after(RegistryEvent::Enrol { business_id, id, name, email, now });
    enrolments_are_answered(r, business_id, id, name, email, now);
    if m != r {
        assert forall|a: u128, b: u128| #[trigger]
            m.customers.contains_key(a) && #[trigger] m.customers.contains_key(b)
                && m.customers[a].business_id == m.customers[b].business_id
                && m.customers[a].email == m.customers[b].email implies a == b by {
            if a != id {
                assert(r.customers.contains_key(a));
            }
            if b != id {
                assert(r.customers.contains_key(b));
            }
        }
        assert forall|i: u128| #[trigger] m.invoices.contains_key(i) implies m.has_customer(
            m.invoices[i].business_id,
            m.invoices[i].customer_id,
        ) by {
            assert(r.invoices.contains_key(i));
        }
        assert forall|q: int| #[trigger] m.requests.contains_key(q) implies match m.requests[q] {
            CreateStepView::InsertInvoice { new } => m.has_customer(
                new.business_id,
                new.customer_id,
            ),
            _ => true,
        } by {
            assert(r.requests.contains_key(q));
        }
        other_events_keep_invoices_adding_up(r, m);
    }
}

/// Whatever happens, a sound registry stays sound.
pub proof fn events_keep_registries_sound(r: Registry, event: RegistryEvent)
    requires
        r.is_sound(),
    ensures
        r.after(event).is_sound(),
{
    match event {
        RegistryEvent::Enrol { business_id, id, name, email, now } => {
            enrolling_keeps_sound(r, business_id, id, name, email, now);
        },
        RegistryEvent::Record { request, invoice, items } => {
            if r.takes_invoice(request, invoice, items) {
                recording_keeps_sound(r, request, invoice, items);
            }
        },
        RegistryEvent::Arrive { request, business_id, body } => {
            if total_fits(body.line_items@) && lines_refusal(body.line_items@) is None {
                lines_add_up(business_id, body);
            }
            other_events_keep_invoices_adding_up(r, r.after(event));
        },
        _ => {
            other_events_keep_invoices_adding_up(r, r.after(event));
        },
    }
}

/// Whatever happens, and in whatever order, the registry stays sound.
pub proof fn registries_are_sound(r: Registry, events: Seq<RegistryEvent>)
    requires
        r.is_sound(),
    ensures
        r.after_all(events).is_sound(),
    decreases events.len(),
{
    if events.len() > 0 {
        registries_are_sound(r, events.drop_last());
        events_keep_registries_sound(r.after_all(events.drop_last()), events.last());
    }
}

/// No cross-business access: however requests are interleaved, fail or break down, an
/// invoice that was committed is for a customer of its own business.
pub proof fn invoices_are_for_own_customers(events: Seq<RegistryEvent>, id: u128)
    requires
        Registry::empty().after_all(events).invoices.contains_key(id),
    ensures
        ({
            let r = Registry::empty().after_all(events);
            let invoice = r.invoices[id];
            &&& r.customers.contains_key(invoice.customer_id)
            &&& r.customers[invoice.customer_id].id == invoice.customer_id
            &&& r.customers[invoice.customer_id].business_id == invoice.business_id
        }),
{
    empty_registry_is_sound();
    registries_are_sound(Registry::empty(), events);
}

/// A request for an invoice whose customer another business created, or nobody, ends with
/// the HTTP status 404, and nothing is recorded.
pub proof fn foreign_customers_get_no_invoice(r: Registry, request: int)
    requires
        r.requests.contains_key(request),
        r.requests[request] matches CreateStepView::FindCustomer { new } && !r.has_customer(
            new.business_id,
            new.customer_id,
        ),
    ensures
        ({
            let refusal = customer_not_found(r.requests[request]->FindCustomer_new.customer_id);
            &&& refusal.status_code() == 404
            &&& r.after(RegistryEvent::Lookup { request }) == r.at(
                request,
                CreateStepView::Finished { result: Err(refusal) },
            )
        }),
{
}

/// A request for an invoice whose customer is one of the business goes on.
pub proof fn own_customers_get_invoices(r: Registry, request: int)
    requires
        r.requests.contains_key(request),
        r.requests[request] matches CreateStepView::FindCustomer { new } && r.has_customer(
            new.business_id,
            new.customer_id,
        ),
    ensures
        r.after(RegistryEvent::Lookup { request }) == r.at(
            request,
            CreateStepView::InsertInvoice { new: r.requests[request]->FindCustomer_new },
        ),
{
}

/// However requests are interleaved, no two customers of a business have the same email.
pub proof fn customers_have_their_own_emails(events: Seq<RegistryEvent>, a: u128, b: u128)
    requires
        ({
            let customers = Registry::empty().after_all(events).customers;
            &&& customers.contains_key(a)
            &&& customers.contains_key(b)
            &&& customers[a].business_id == customers[b].business_id
            &&& customers[a].email == customers[b].email
        }),
    ensures
        a == b,
{
    empty_registry_is_sound();
    registries_are_sound(Registry::empty(), events);
}

/// Once a business has a customer, a request of that business for another whose email is
/// the same, but for the white space around it and for upper and lower case, is a conflict,
/// whatever has happened in between, and nothing is recorded.
pub proof fn emails_are_taken_once(
    r: Registry,
    business_id: u128,
    first: u128,
    first_name: Seq<char>,
    first_email: Seq<char>,
    first_time: i64,
    events: Seq<RegistryEvent>,
    second: u128,
    second_name: Seq<char>,
    second_email: Seq<char>,
    second_time: i64,
)
    requires
        !r.customers.contains_key(first),
        r.enrolment(business_id, first, first_name, first_email, first_time) is Ok,
        new_customer(second_name, second_email) is Ok,
        lowercase(trimmed(first_email)) == lowercase(trimmed(second_email)),
    ensures
        ({
            let m = r.after(
                RegistryEvent::Enrol {
                    business_id,
                    id: first,
                    name: first_name,
                    email: first_email,
                    now: first_time,
                },
            ).after_all(events);
            &&& m.enrolment(business_id, second, second_name, second_email, second_time) == Err::<
                (u16, CustomerView),
                AppErrorView,
            >(email_taken())
            &&& email_taken().status_code() == 409
            &&& m.after(
                RegistryEvent::Enrol {
                    business_id,
                    id: second,
                    name: second_name,
                    email: second_email,
                    now: second_time,
                },
            ) == m
        }),
{
    enrolments_are_answered(r, business_id, first, first_name, first_email, first_time);
    let enrolled = r.after(
        RegistryEvent::Enrol {
            business_id,
            id: first,
            name: first_name,
            email: first_email,
            now: first_time,
        },
    );
    customers_stay(enrolled, events, first);
    let m = enrolled.after_all(events);
    assert(m.customers.contains_key(first));
    assert(m.has_email(business_id, lowercase(trimmed(second_email))));
    enrolments_are_answered(m, business_id, second, second_name, second_email, second_time);
}

/// A request for a customer whose email its business does not have yet, whatever other
/// businesses have, is answered with the HTTP status 201, and the customer is recorded.
pub proof fn new_emails_are_taken(
    r: Registry,
    business_id: u128,
    id: u128,
    name: Seq<char>,
    email: Seq<char>,
    now: i64,
)
    requires
        !r.customers.contains_key(id),
        new_customer(name, email) is Ok,
        !r.has_email(business_id, lowercase(trimmed(email))),
    ensures
        ({
            let row = customer_row(business_id, id, new_customer(name, email)->Ok_0, now);
            &&& r.enrolment(business_id, id, name, email, now) == Ok::<
                (u16, CustomerView),
                AppErrorView,
            >((201, row))
            &&& r.after(RegistryEvent::Enrol { business_id, id, name, email, now }).customers
                == r.customers.insert(id, row)
        }),
{
    enrolments_are_answered(r, business_id, id, name, email, now);
}

/// Once a business has a customer, it reads the customer as it was answered, whatever has
/// happened in between; and every other business gets the refusal that it gets for an id that
/// nobody has.
pub proof fn customers_read_back(
    r: Registry,
    business_id: u128,
    id: u128,
    name: Seq<char>,
    email: Seq<char>,
    now: i64,
    events: Seq<RegistryEvent>,
    other: u128,
)
    requires
        !r.customers.contains_key(id),
        r.enrolment(business_id, id, name, email, now) is Ok,
        other != business_id,
    ensures
        ({
            let answer = r.enrolment(business_id, id, name, email, now)->Ok_0;
            let m = r.after(RegistryEvent::Enrol { business_id, id, name, email, now }).after_all(
                events,
            );
            &&& answer.0 == 201
            &&& answer.1.id == id
            &&& m.read_customer(id, business_id) == Ok::<CustomerView, AppErrorView>(answer.1)
            &&& m.read_customer(id, other) == Err::<CustomerView, AppErrorView>(
                customer_not_found(id),
            )
        }),
{
    enrolments_are_answered(r, business_id, id, name, email, now);
    customers_stay(
        r.after(RegistryEvent::Enrol { business_id, id, name, email, now }),
        events,
        id,
    );
}

/// The refusal for an id that no customer has.
pub proof fn unknown_customers_are_not_found(r: Registry, id: u128, business_id: u128)
    requires
        !r.customers.contains_key(id),
    ensures
        r.read_customer(id, business_id) == Err::<CustomerView, AppErrorView>(
            customer_not_found(id),
        ),
        customer_not_found(id).status_code() == 404,
{
}

/// Whatever has happened, there is a list of the customers of a business, newest first.
pub proof fn customers_can_be_listed(events: Seq<RegistryEvent>, business_id: u128) -> (rows: Seq<
    CustomerView,
>)
    ensures
        Registry::empty().after_all(events).lists_customers(business_id, rows),
{
    empty_registry_is_sound();
    registries_are_sound(Registry::empty(), events);
    listings_exist(
        Registry::empty().after_all(events).customers,
        |customer: CustomerView| customer.business_id == business_id,
    )
}

/// Whether an event leaves the invoice alone.
pub open spec fn leaves_alone(event: RegistryEvent, id: u128) -> bool {
    !(event matches RegistryEvent::Move { id: moved, .. } && moved == id)
}

/// The lines of an invoice stay as they were recorded, and the invoice too until it is moved.
proof fn invoices_stay(r: Registry, events: Seq<RegistryEvent>, id: u128, items: Seq<LineItem>)
    requires
        r.is_sound(),
        r.invoices.contains_key(id),
        collects(r.lines, items, of_invoice(id)),
        forall|i: int| 0 <= i < events.len() ==> leaves_alone(#[trigger] events[i], id),
    ensures
        r.after_all(events).invoices.contains_key(id),
        r.after_all(events).invoices[id] == r.invoices[id],
        collects(r.after_all(events).lines, items, of_invoice(id)),
    decreases events.len(),
{
    if events.len() > 0 {
        let before = r.after_all(events.drop_last());
        let event = events.last();
        assert forall|i: int| 0 <= i < events.drop_last().len() implies leaves_alone(
            #[trigger] events.drop_last()[i],
            id,
        ) by {
            assert(events.drop_last()[i] == events[i]);
        }
        assert(leaves_alone(events[events.len() - 1], id));
        invoices_stay(r, events.drop_last(), id, items);
        if let RegistryEvent::Record { request, invoice, items: others } = event {
            if before.takes_invoice(request, invoice, others) {
                let new = before.requests[request]->InsertInvoice_new;
                assert forall|i: int| 0 <= i < others.len() implies (
                #[trigger] others[i]).invoice_id == invoice.id && !before.lines.contains_key(
                    others[i].id,
                ) by {
                    assert(is_line_of(others[i], new.lines[i], invoice.id));
                }
                other_lines_do_not_matter(before.lines, others, invoice.id, id, items);
            }
        }
    }
}

/// A read gives back what creation answered: as long as the invoice is left alone, its
/// business reads the invoice that the answer held, with the lines that the answer held, by
/// ascending id, and they come to the total. Every other business gets the refusal that it
/// gets for an id that nobody has.
pub proof fn invoices_read_back(
    r: Registry,
    request: int,
    invoice: Invoice,
    items: Seq<LineItem>,
    events: Seq<RegistryEvent>,
    rows: Seq<LineItem>,
    other: u128,
)
    requires
        r.is_sound(),
        r.takes_invoice(request, invoice, items),
        forall|i: int| 0 <= i < events.len() ==> leaves_alone(#[trigger] events[i], invoice.id),
        r.after(RegistryEvent::Record { request, invoice, items }).after_all(events).lists_lines(
            invoice.id,
            rows,
        ),
        other != invoice.business_id,
    ensures
        ({
            let recorded = r.after(RegistryEvent::Record { request, invoice, items });
            let m = recorded.after_all(events);
            let answer = CreatedInvoiceView { status_code: 201, invoice, line_items: items };
            &&& recorded.requests[request] matches CreateStepView::Announce { response, .. }
            &&& response == answer
            &&& create_next(recorded.requests[request], CreateReplyView::Done) == (
            CreateStepView::Finished { result: Ok(answer) })
            &&& m.read_invoice(invoice.id, invoice.business_id, rows) == Ok::<
                (InvoiceView, Seq<LineItem>),
                AppErrorView,
            >((invoice@, rows))
            &&& rows.to_multiset() == items.to_multiset()
            &&& forall|i: int, j: int|
                0 <= i < j < rows.len() ==> (#[trigger] rows[i]).id < (#[trigger] rows[j]).id
            &&& amounts_total(rows) == invoice.total_cents
            &&& m.read_invoice(invoice.id, other, rows) == Err::<
                (InvoiceView, Seq<LineItem>),
                AppErrorView,
            >(invoice_not_found(invoice.id))
        }),
{
    let recorded = r.after(RegistryEvent::Record { request, invoice, items });
    let m = recorded.after_all(events);
    let new = r.requests[request]->InsertInvoice_new;
    assert(r.has_customer(new.business_id, new.customer_id));
    every_line_is_recorded(new, invoice, items);
    recording_keeps_sound(r, request, invoice, items);
    assert forall|i: int| 0 <= i < items.len() implies (#[trigger] items[i]).invoice_id
        == invoice.id && !r.lines.contains_key(items[i].id) && items[i].amount_cents
        == new.lines[i].amount_cents by {
        assert(is_line_of(items[i], new.lines[i], invoice.id));
    }
    new_lines_are_its_lines(r, invoice.id, items);
    invoices_stay(recorded, events, invoice.id, items);
    collections_agree(m.lines, rows, items, of_invoice(invoice.id));
    totals_have_no_order(rows, items);
    recorded_amounts(new.lines, items);
    assert forall|i: int, j: int| 0 <= i < j < rows.len() implies (#[trigger] rows[i]).id < (
    #[trigger] rows[j]).id by {
        assert(rows[i].rank() >= rows[j].rank());
        assert(rows[i].key() != rows[j].key());
    }
}

/// The refusal for an id that no invoice has.
pub proof fn unknown_invoices_are_not_found(
    r: Registry,
    id: u128,
    business_id: u128,
    rows: Seq<LineItem>,
)
    requires
        !r.invoices.contains_key(id),
    ensures
        r.read_invoice(id, business_id, rows) == Err::<(InvoiceView, Seq<LineItem>), AppErrorView>(
            invoice_not_found(id),
        ),
        invoice_not_found(id).status_code() == 404,
{
}

/// Whatever has happened, the lines with which an invoice is read come to its total.
pub proof fn read_invoices_add_up(events: Seq<RegistryEvent>, id: u128, rows: Seq<LineItem>)
    requires
        Registry::empty().after_all(events).invoices.contains_key(id),
        Registry::empty().after_all(events).lists_lines(id, rows),
    ensures
        amounts_total(rows) == Registry::empty().after_all(events).invoices[id].total_cents,
{
    empty_registry_is_sound();
    registries_are_sound(Registry::empty(), events);
    let r = Registry::empty().after_all(events);
    let items = choose|items: Seq<LineItem>| #[trigger] r.adds_up(id, items);
    collections_agree(r.lines, rows, items, of_invoice(id));
    totals_have_no_order(rows, items);
}

/// Whatever has happened, the lines of an invoice can be listed.
pub proof fn lines_can_be_listed(events: Seq<RegistryEvent>, id: u128) -> (rows: Seq<LineItem>)
    ensures
        Registry::empty().after_all(events).lists_lines(id, rows),
{
    empty_registry_is_sound();
    registries_are_sound(Registry::empty(), events);
    listings_exist(Registry::empty().after_all(events).lines, of_invoice(id))
}

/// Whatever has happened, the endpoints of a business can be read for a list, and the list
/// then shows each of them once, active or not, newest first, and none of another business.
pub proof fn endpoints_can_be_listed(events: Seq<RegistryEvent>, business_id: u128) -> (rows: Seq<
    WebhookEndpoint,
>)
    ensures
        is_listing(Registry::empty().after_all(events).endpoints, rows, business_id),
        shows(
            Registry::empty().after_all(events).endpoints,
            rows.map_values(|endpoint: WebhookEndpoint| summary(endpoint)),
            business_id,
        ),
{
    empty_registry_is_sound();
    registries_are_sound(Registry::empty(), events);
    let table = Registry::empty().after_all(events).endpoints;
    let rows = listings_exist(
        table,
        |endpoint: WebhookEndpoint| endpoint.business_id == business_id,
    );
    listings_show_the_endpoints(table, rows, business_id);
    rows
}

proof fn empty_registry_is_sound()
    ensures
        Registry::empty().is_sound(),
{
}

} // verus!
