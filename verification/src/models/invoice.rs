//! Invoices and their line items. All money is in whole cents.
use vstd::prelude::*;

verus! {

/// An invoice. Times are in microseconds since the Unix epoch, the due date in days since
/// the start of the common era.
pub struct Invoice {
    pub id: u128,
    pub business_id: u128,
    pub customer_id: u128,
    pub state: String,
    pub total_cents: i64,
    pub due_date: i32,
    pub created_at: i64,
    pub updated_at: i64,
}

/// The value of an [`Invoice`].
pub struct InvoiceView {
    pub id: u128,
    pub business_id: u128,
    pub customer_id: u128,
    pub state: Seq<char>,
    pub total_cents: i64,
    pub due_date: i32,
    pub created_at: i64,
    pub updated_at: i64,
}

impl View for Invoice {
    type V = InvoiceView;

    open spec fn view(&self) -> InvoiceView {
        InvoiceView {
            id: self.id,
            business_id: self.business_id,
            customer_id: self.customer_id,
            state: self.state@,
            total_cents: self.total_cents,
            due_date: self.due_date,
            created_at: self.created_at,
            updated_at: self.updated_at,
        }
    }
}

/// The value of an invoice that may not be there.
pub open spec fn optional_invoice(invoice: Option<Invoice>) -> Option<InvoiceView> {
    match invoice {
        Some(i) => Some(i@),
        None => None,
    }
}

/// A line of an invoice.
pub struct LineItem {
    pub id: u128,
    pub invoice_id: u128,
    pub description: String,
    pub quantity: i32,
    pub unit_amount_cents: i64,
    pub amount_cents: i64,
}

/// An invoice with its lines.
pub struct InvoiceResponse {
    pub invoice: Invoice,
    pub line_items: Vec<LineItem>,
}

/// A line of the request for a new invoice.
pub struct CreateLineItem {
    pub description: String,
    pub quantity: i32,
    pub unit_amount_cents: i64,
}

/// The request for a new invoice. It has no total: the service works that out.
pub struct CreateInvoiceRequest {
    pub customer_id: u128,
    pub due_date: i32,
    pub line_items: Vec<CreateLineItem>,
}

/// The request for a list of invoices: of those in a state, if it names one, or of all.
pub struct ListInvoicesQuery {
    pub state: Option<String>,
}

/// Nothing of an invoice is lost in its value.
pub proof fn invoices_are_shown_whole(invoice: Invoice)
    ensures
        invoice@.id == invoice.id,
        invoice@.business_id == invoice.business_id,
        invoice@.customer_id == invoice.customer_id,
        invoice@.state == invoice.state@,
        invoice@.total_cents == invoice.total_cents,
        invoice@.due_date == invoice.due_date,
        invoice@.created_at == invoice.created_at,
        invoice@.updated_at == invoice.updated_at,
        optional_invoice(Some(invoice)) == Some(invoice@),
        optional_invoice(None) is None,
{
}

} // verus!
