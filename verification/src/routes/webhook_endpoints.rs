//! Webhook endpoints.
use vstd::prelude::*;

use crate::error::{AppError, AppErrorView, DbFailure};
use crate::listing::{each_once, in_order, lists, Listed};
use crate::models::webhook::{CreateWebhookEndpointRequest, WebhookEndpoint};
use crate::secrets::{all_alphanumeric, random_alphanumeric};
use crate::text::{trim, trimmed};

verus! {

/// How many characters a signing secret has.
pub const SECRET_LENGTH: usize = 32;

/// An endpoint to be recorded.
pub struct NewEndpoint {
    pub url: String,
    pub secret: String,
}

/// The value of a [`NewEndpoint`].
pub struct NewEndpointView {
    pub url: Seq<char>,
    pub secret: Seq<char>,
}

impl View for NewEndpoint {
    type V = NewEndpointView;

    open spec fn view(&self) -> NewEndpointView {
        NewEndpointView { url: self.url@, secret: self.secret@ }
    }
}

/// The value of an endpoint that may be refused.
pub open spec fn endpoint_result(result: Result<NewEndpoint, AppError>) -> Result<
    NewEndpointView,
    AppErrorView,
> {
    match result {
        Ok(endpoint) => Ok(endpoint@),
        Err(error) => Err(error@),
    }
}

/// What the request for an endpoint comes to: there must be more to the URL than white space,
/// and it is recorded without the white space around it.
pub open spec fn new_endpoint(url: Seq<char>, secret: Seq<char>) -> Result<
    NewEndpointView,
    AppErrorView,
> {
    if trimmed(url).len() == 0 {
        Err(AppErrorView::Unprocessable("url is required"@))
    } else {
        Ok(NewEndpointView { url: trimmed(url), secret })
    }
}

/// The endpoint to be recorded for a request, with the given secret.
pub fn endpoint_with(request: &CreateWebhookEndpointRequest, secret: String) -> (res: Result<
    NewEndpoint,
    AppError,
>)
    ensures
        endpoint_result(res) == new_endpoint(request.url@, secret@),
{
    let url = trim(request.url.as_str());
    if url.as_str().is_empty() {
        Err(AppError::Unprocessable("url is required".to_string()))
    } else {
        Ok(NewEndpoint { url, secret })
    }
}

/// The endpoint to be recorded for a request, with a random secret of 32 letters and digits.
pub fn create(request: &CreateWebhookEndpointRequest) -> (res: Result<NewEndpoint, AppError>)
    ensures
        exists|secret: Seq<char>|
            secret.len() == SECRET_LENGTH && all_alphanumeric(secret) && endpoint_result(res)
                == #[trigger] new_endpoint(request.url@, secret),
{
    endpoint_with(request, random_alphanumeric(SECRET_LENGTH))
}

/// The answer to the request for an endpoint. It alone shows the secret.
pub struct CreatedEndpoint {
    pub id: u128,
    pub url: String,
    pub active: bool,
    pub created_at: i64,
    pub signing_secret: String,
}

/// An endpoint as it is listed.
pub struct EndpointSummary {
    pub id: u128,
    pub url: String,
    pub active: bool,
    pub created_at: i64,
}

/// An endpoint as it is listed.
pub open spec fn summary(endpoint: WebhookEndpoint) -> EndpointSummary {
    EndpointSummary {
        id: endpoint.id,
        url: endpoint.url,
        active: endpoint.active,
        created_at: endpoint.created_at,
    }
}

/// The answer once the database has taken an endpoint, or has not: the HTTP status 201 with
/// the endpoint and its secret.
pub fn created(row: Result<WebhookEndpoint, DbFailure>, secret: String) -> (res: Result<
    (u16, CreatedEndpoint),
    AppError,
>)
    ensures
        match row {
            Ok(endpoint) => res == Ok::<(u16, CreatedEndpoint), AppError>(
                (
                    201,
                    CreatedEndpoint {
                        id: endpoint.id,
                        url: endpoint.url,
                        active: endpoint.active,
                        created_at: endpoint.created_at,
                        signing_secret: secret,
                    },
                ),
            ),
            Err(failure) => res matches Err(error) && error@ == AppErrorView::Database(failure@),
        },
{
    match row {
        Ok(endpoint) => Ok(
            (
                201,
                CreatedEndpoint {
                    id: endpoint.id,
                    url: endpoint.url,
                    active: endpoint.active,
                    created_at: endpoint.created_at,
                    signing_secret: secret,
                },
            ),
        ),
        Err(failure) => Err(AppError::Database(failure)),
    }
}

impl Listed for WebhookEndpoint {
    open spec fn key(self) -> u128 {
        self.id
    }

    /// The last made comes first.
    open spec fn rank(self) -> int {
        self.created_at as int
    }
}

impl Listed for EndpointSummary {
    open spec fn key(self) -> u128 {
        self.id
    }

    /// The last made comes first.
    open spec fn rank(self) -> int {
        self.created_at as int
    }
}

/// Whether `rows` are the endpoints of the business that `table` holds, by their ids, active
/// or not: all of them, each once, newest first. These are to be read for a list.
pub open spec fn is_listing(
    table: Map<u128, WebhookEndpoint>,
    rows: Seq<WebhookEndpoint>,
    business_id: u128,
) -> bool {
    lists(table, rows, |endpoint: WebhookEndpoint| endpoint.business_id == business_id)
}

/// Whether `summaries` show the endpoints of the business that `table` holds, active or not:
/// all of them and no others, each once, newest first.
pub open spec fn shows(
    table: Map<u128, WebhookEndpoint>,
    summaries: Seq<EndpointSummary>,
    business_id: u128,
) -> bool {
    &&& forall|i: int|
        0 <= i < summaries.len() ==> table.contains_key((#[trigger] summaries[i]).id)
            && table[summaries[i].id].business_id == business_id && summaries[i] == summary(
            table[summaries[i].id],
        )
    &&& forall|id: u128| #[trigger]
        table.contains_key(id) && table[id].business_id == business_id ==> summaries.contains(
            summary(table[id]),
        )
    &&& each_once(summaries)
    &&& in_order(summaries)
}

/// The list of the endpoints that are read for it shows every endpoint of the business, active
/// or not, and none of another: each once, newest first.
pub proof fn listings_show_the_endpoints(
    table: Map<u128, WebhookEndpoint>,
    rows: Seq<WebhookEndpoint>,
    business_id: u128,
)
    requires
        is_listing(table, rows, business_id),
    ensures
        shows(
            table,
            rows.map_values(|endpoint: WebhookEndpoint| summary(endpoint)),
            business_id,
        ),
{
    let summaries = rows.map_values(|endpoint: WebhookEndpoint| summary(endpoint));
    assert forall|i: int| 0 <= i < summaries.len() implies table.contains_key(
        (#[trigger] summaries[i]).id,
    ) && table[summaries[i].id].business_id == business_id && summaries[i] == summary(
        table[summaries[i].id],
    ) by {
        assert(table.contains_key(rows[i].key()));
    }
    assert forall|id: u128| #[trigger]
        table.contains_key(id) && table[id].business_id == business_id implies summaries.contains(
        summary(table[id]),
    ) by {
        let i = choose|i: int| 0 <= i < rows.len() && rows[i] == table[id];
        assert(summaries[i] == summary(table[id]));
    }
    assert forall|i: int, j: int| 0 <= i < j < summaries.len() implies (
    #[trigger] summaries[i]).key() != (#[trigger] summaries[j]).key() by {
        assert(rows[i].key() != rows[j].key());
    }
    assert forall|i: int, j: int| 0 <= i <= j < summaries.len() implies (
    #[trigger] summaries[i]).rank() >= (#[trigger] summaries[j]).rank() by {
        assert(rows[i].rank() >= rows[j].rank());
    }
}

/// The answer to the request for the endpoints of a business: each of those that were read,
/// in their order, without its secret. Where these are the endpoints of the business, newest
/// first, so is the answer.
pub fn list(endpoints: &Vec<WebhookEndpoint>) -> (res: Vec<EndpointSummary>)
    ensures
        res@ == endpoints@.map_values(|endpoint: WebhookEndpoint| summary(endpoint)),
        forall|table: Map<u128, WebhookEndpoint>, business_id: u128| #[trigger]
            is_listing(table, endpoints@, business_id) ==> shows(table, res@, business_id),
{
    let mut summaries: Vec<EndpointSummary> = Vec::new();
    for i in 0..endpoints.len()
        invariant
            summaries@.len() == i,
            forall|j: int| 0 <= j < i ==> #[trigger] summaries@[j] == summary(endpoints@[j]),
    {
        let endpoint = &endpoints[i];
        summaries.push(
            EndpointSummary {
                id: endpoint.id,
                url: endpoint.url.clone(),
                active: endpoint.active,
                created_at: endpoint.created_at,
            },
        );
    }
    proof {
        assert(summaries@ =~= endpoints@.map_values(
            |endpoint: WebhookEndpoint| summary(endpoint),
        ));
        assert forall|table: Map<u128, WebhookEndpoint>, business_id: u128| #[trigger]
            is_listing(table, endpoints@, business_id) implies shows(
            table,
            summaries@,
            business_id,
        ) by {
            listings_show_the_endpoints(table, endpoints@, business_id);
        }
    }
    summaries
}

/// Listing does not show the secrets: endpoints that differ in nothing else are listed the
/// same.
pub proof fn listing_hides_secrets(a: Seq<WebhookEndpoint>, b: Seq<WebhookEndpoint>)
    requires
        a.len() == b.len(),
        forall|i: int|
            #![trigger a[i]]
            #![trigger b[i]]
            0 <= i < a.len() ==> a[i] == (WebhookEndpoint { secret: a[i].secret, ..b[i] }),
    ensures
        a.map_values(|endpoint: WebhookEndpoint| summary(endpoint)) == b.map_values(
            |endpoint: WebhookEndpoint| summary(endpoint),
        ),
{
    assert(a.map_values(|endpoint: WebhookEndpoint| summary(endpoint)) =~= b.map_values(
        |endpoint: WebhookEndpoint| summary(endpoint),
    ));
}

/// An endpoint is recorded where there is more to its URL than white space, without the white
/// space around it, and with the whole secret.
pub proof fn endpoints_are_recorded_tidily(url: Seq<char>, secret: Seq<char>)
    ensures
        new_endpoint(url, secret) is Ok <==> trimmed(url).len() > 0,
        new_endpoint(url, secret) matches Ok(new) ==> new.url == trimmed(url) && new.secret
            == secret,
        new_endpoint(url, secret) matches Err(error) ==> error == AppErrorView::Unprocessable(
            "url is required"@,
        ),
{
}

/// A list shows of an endpoint what is not secret, as it is.
pub proof fn summaries_are_true(endpoint: WebhookEndpoint)
    ensures
        summary(endpoint).id == endpoint.id,
        summary(endpoint).url == endpoint.url,
        summary(endpoint).active == endpoint.active,
        summary(endpoint).created_at == endpoint.created_at,
{
}

/// The endpoints that are read for a list are those of the business, none twice, the last made
/// first, and none is left out.
pub proof fn lists_show_the_endpoints_of_the_business(
    table: Map<u128, WebhookEndpoint>,
    rows: Seq<WebhookEndpoint>,
    business_id: u128,
)
    requires
        is_listing(table, rows, business_id),
    ensures
        forall|i: int|
            0 <= i < rows.len() ==> table.contains_key((#[trigger] rows[i]).id) && table[rows[i].id]
                == rows[i] && rows[i].business_id == business_id,
        forall|id: u128| #[trigger]
            table.contains_key(id) && table[id].business_id == business_id ==> rows.contains(
                table[id],
            ),
        forall|i: int, j: int|
            0 <= i < j < rows.len() ==> (#[trigger] rows[i]).id != (#[trigger] rows[j]).id
                && rows[i].created_at >= rows[j].created_at,
{
    assert forall|i: int| 0 <= i < rows.len() implies table.contains_key((#[trigger] rows[i]).id)
        && table[rows[i].id] == rows[i] && rows[i].business_id == business_id by {
        assert(table.contains_key(rows[i].key()));
    }
    assert forall|i: int, j: int| 0 <= i < j < rows.len() implies (#[trigger] rows[i]).id != (
    #[trigger] rows[j]).id && rows[i].created_at >= rows[j].created_at by {
        assert(rows[i].key() != rows[j].key());
        assert(rows[i].rank() >= rows[j].rank());
    }
}

/// Nothing of a new endpoint is lost in its value.
pub proof fn new_endpoints_are_shown_whole(new: NewEndpoint, error: AppError)
    ensures
        new@.url == new.url@,
        new@.secret == new.secret@,
        endpoint_result(Ok(new)) == Ok::<NewEndpointView, AppErrorView>(new@),
        endpoint_result(Err(error)) == Err::<NewEndpointView, AppErrorView>(error@),
{
}

} // verus!
