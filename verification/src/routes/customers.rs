//! Customers.
use vstd::prelude::*;
use vstd::utf8::is_ascii_chars;

use crate::error::{AppError, AppErrorView, DbFailure, DbFailureView};
use crate::ids::{format_uuid, uuid_text};
use crate::models::customer::{optional_customer, CreateCustomerRequest, Customer, CustomerView};
use crate::text::{ascii_lowercase, contains_char, join3, lowercase, to_lowercase, trim, trimmed};

verus! {

/// A customer to be recorded.
pub struct NewCustomer {
    pub name: String,
    pub email: String,
}

/// The value of a [`NewCustomer`].
pub struct NewCustomerView {
    pub name: Seq<char>,
    pub email: Seq<char>,
}

impl View for NewCustomer {
    type V = NewCustomerView;

    open spec fn view(&self) -> NewCustomerView {
        NewCustomerView { name: self.name@, email: self.email@ }
    }
}

/// What the request for a customer comes to: there must be more to the name and to the email
/// than white space, and an at sign in the email. Both are recorded without the white space
/// around them, the email in lower case.
pub open spec fn new_customer(name: Seq<char>, email: Seq<char>) -> Result<
    NewCustomerView,
    AppErrorView,
> {
    if trimmed(name).len() == 0 {
        Err(AppErrorView::Unprocessable("name is required"@))
    } else if trimmed(email).len() == 0 || !email.contains('@') {
        Err(AppErrorView::Unprocessable("valid email is required"@))
    } else {
        Ok(NewCustomerView { name: trimmed(name), email: lowercase(trimmed(email)) })
    }
}

/// The customer to be recorded for a request. An email of ASCII characters is recorded with
/// `a` to `z` in place of `A` to `Z`.
pub fn create(request: &CreateCustomerRequest) -> (res: Result<NewCustomer, AppError>)
    ensures
        (match res {
            Ok(customer) => Ok(customer@),
            Err(error) => Err(error@),
        }) == new_customer(request.name@, request.email@),
        res matches Ok(customer) ==> is_ascii_chars(trimmed(request.email@)) ==> customer.email@
            == trimmed(request.email@).map_values(|c: char| ascii_lowercase(c)),
{
    let name = trim(request.name.as_str());
    if name.as_str().is_empty() {
        return Err(AppError::Unprocessable("name is required".to_string()));
    }
    let email = trim(request.email.as_str());
    if email.as_str().is_empty() || !contains_char(request.email.as_str(), '@') {
        return Err(AppError::Unprocessable("valid email is required".to_string()));
    }
    Ok(NewCustomer { name, email: to_lowercase(email.as_str()) })
}

/// The refusal that another customer of the business has the email.
pub open spec fn email_taken() -> AppErrorView {
    AppErrorView::Conflict("A customer with this email already exists"@)
}

/// The answer once the database has taken a customer, or has not.
pub open spec fn created_answer(row: Result<CustomerView, DbFailureView>) -> Result<
    (u16, CustomerView),
    AppErrorView,
> {
    match row {
        Ok(customer) => Ok((201, customer)),
        Err(failure) => if failure.is_unique_violation() {
            Err(email_taken())
        } else {
            Err(AppErrorView::Database(failure))
        },
    }
}

/// The answer once the database has taken a customer, or has not: the HTTP status 201 with
/// the customer. An email that the business has already is a conflict.
pub fn created(row: Result<Customer, DbFailure>) -> (res: Result<(u16, Customer), AppError>)
    ensures
        (match res {
            Ok((status_code, customer)) => Ok((status_code, customer@)),
            Err(error) => Err(error@),
        }) == created_answer(
            match row {
                Ok(customer) => Ok(customer@),
                Err(failure) => Err(failure@),
            },
        ),
{
    match row {
        Ok(customer) => Ok((201, customer)),
        Err(failure) => if failure.is_unique_violation() {
            Err(AppError::Conflict("A customer with this email already exists".to_string()))
        } else {
            Err(AppError::Database(failure))
        },
    }
}

/// The refusal that a customer is not there.
pub open spec fn customer_not_found(id: u128) -> AppErrorView {
    AppErrorView::NotFound("Customer "@ + uuid_text(id) + " not found"@)
}

/// The refusal that a customer is not there.
pub fn no_customer(id: u128) -> (res: AppError)
    ensures
        res@ == customer_not_found(id),
{
    let text = format_uuid(id);
    AppError::NotFound(join3("Customer ", text.as_str(), " not found"))
}

/// The answer to the request for a customer, by what was read.
pub open spec fn read_answer(id: u128, row: Option<CustomerView>) -> Result<
    CustomerView,
    AppErrorView,
> {
    match row {
        Some(customer) => Ok(customer),
        None => Err(customer_not_found(id)),
    }
}

/// The answer to the request for a customer: the one that was read, if the business has it.
pub fn get_by_id(id: u128, row: Option<Customer>) -> (res: Result<Customer, AppError>)
    ensures
        row matches Some(customer) ==> res == Ok::<Customer, AppError>(customer),
        (match res {
            Ok(customer) => Ok(customer@),
            Err(error) => Err(error@),
        }) == read_answer(id, optional_customer(row)),
{
    match row {
        Some(customer) => Ok(customer),
        None => Err(no_customer(id)),
    }
}

/// A customer is recorded where there is more to the name and to the email than white space
/// and an at sign in the email, without the white space around them and with the email in lower
/// case; and is refused for the first of these that is missing.
pub proof fn customers_are_recorded_tidily(name: Seq<char>, email: Seq<char>)
    ensures
        new_customer(name, email) is Ok <==> trimmed(name).len() > 0 && trimmed(email).len() > 0
            && email.contains('@'),
        new_customer(name, email) matches Ok(new) ==> new.name == trimmed(name) && new.email
            == lowercase(trimmed(email)),
        new_customer(name, email) matches Err(error) ==> error == AppErrorView::Unprocessable(
            if trimmed(name).len() == 0 {
                "name is required"@
            } else {
                "valid email is required"@
            },
        ),
{
}

/// A customer that the database took is answered as it was recorded, with the HTTP status 201;
/// a taken email is a conflict, and any other failure is handed on.
pub proof fn recorded_customers_are_answered(customer: CustomerView, failure: DbFailureView)
    ensures
        created_answer(Ok(customer)) == Ok::<(u16, CustomerView), AppErrorView>((201, customer)),
        created_answer(Err(failure)) == Err::<(u16, CustomerView), AppErrorView>(
            if failure.code == Some("23505"@) {
                AppErrorView::Conflict("A customer with this email already exists"@)
            } else {
                AppErrorView::Database(failure)
            },
        ),
{
}

/// A read answers with the customer that was read, and says which customer is not there.
pub proof fn reads_answer_with_what_was_read(id: u128, customer: CustomerView)
    ensures
        read_answer(id, Some(customer)) == Ok::<CustomerView, AppErrorView>(customer),
        read_answer(id, None) == Err::<CustomerView, AppErrorView>(
            AppErrorView::NotFound("Customer "@ + uuid_text(id) + " not found"@),
        ),
        customer_not_found(id) == AppErrorView::NotFound(
            "Customer "@ + uuid_text(id) + " not found"@,
        ),
{
}

/// Nothing of a new customer is lost in its value.
pub proof fn new_customers_are_shown_whole(new: NewCustomer)
    ensures
        new@.name == new.name@,
        new@.email == new.email@,
{
}

} // verus!
