//! Customers.
use vstd::prelude::*;

verus! {

/// A customer of a business. Times are in microseconds since the Unix epoch.
pub struct Customer {
    pub id: u128,
    pub business_id: u128,
    pub name: String,
    pub email: String,
    pub created_at: i64,
}

/// The value of a [`Customer`].
pub struct CustomerView {
    pub id: u128,
    pub business_id: u128,
    pub name: Seq<char>,
    pub email: Seq<char>,
    pub created_at: i64,
}

impl View for Customer {
    type V = CustomerView;

    open spec fn view(&self) -> CustomerView {
        CustomerView {
            id: self.id,
            business_id: self.business_id,
            name: self.name@,
            email: self.email@,
            created_at: self.created_at,
        }
    }
}

/// The value of a customer that may not be there.
pub open spec fn optional_customer(customer: Option<Customer>) -> Option<CustomerView> {
    match customer {
        Some(c) => Some(c@),
        None => None,
    }
}

/// The request for a new customer.
pub struct CreateCustomerRequest {
    pub name: String,
    pub email: String,
}

/// Nothing of a customer is lost in its value.
pub proof fn customers_are_shown_whole(customer: Customer)
    ensures
        customer@.id == customer.id,
        customer@.business_id == customer.business_id,
        customer@.name == customer.name@,
        customer@.email == customer.email@,
        customer@.created_at == customer.created_at,
        optional_customer(Some(customer)) == Some(customer@),
        optional_customer(None) is None,
{
}

} // verus!
