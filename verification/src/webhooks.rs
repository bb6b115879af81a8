//! Webhooks: the events that a business hears of, how they are signed, and how often a
//! delivery is tried.
use vstd::prelude::*;
use vstd::utf8::encode_utf8;

use crate::clock::{now_micros, CLOCK_END, MICROS_PER_SECOND};
use crate::digest::{hex_text, hmac_sha256, mac_text};
use crate::models::webhook::WebhookDeliveryRow;
use crate::text::{decimal, decimal_digits, decimal_is_injective, decimal_round_trip, decimal_text,
    join2, join3, optional_text};

verus! {

/// How often the worker looks for deliveries that are due, in seconds.
pub const POLL_INTERVAL_SECS: u64 = 5;

/// How many deliveries the worker takes at a time.
pub const BATCH_SIZE: i64 = 20;

/// Something that happened to an invoice of a business.
pub struct WebhookEvent {
    pub business_id: u128,
    pub event_type: String,
    pub payload: String,
}

/// The value of a [`WebhookEvent`].
pub struct WebhookEventView {
    pub business_id: u128,
    pub event_type: Seq<char>,
    pub payload: Seq<char>,
}

impl View for WebhookEvent {
    type V = WebhookEventView;

    open spec fn view(&self) -> WebhookEventView {
        WebhookEventView {
            business_id: self.business_id,
            event_type: self.event_type@,
            payload: self.payload@,
        }
    }
}

/// A delivery to be recorded, due at once.
pub struct NewDelivery {
    pub webhook_endpoint_id: u128,
    pub event_type: String,
    pub payload: String,
}

/// The deliveries of an event: one for each of the active endpoints of the business, in
/// their order, with the same event type and payload.
pub fn enqueue(endpoint_ids: &Vec<u128>, event: &WebhookEvent) -> (res: Vec<NewDelivery>)
    ensures
        res@.len() == endpoint_ids@.len(),
        forall|i: int|
            0 <= i < res@.len() ==> (#[trigger] res@[i]).webhook_endpoint_id == endpoint_ids@[i]
                && res@[i].event_type@ == event.event_type@ && res@[i].payload@
                == event.payload@,
{
    let mut deliveries: Vec<NewDelivery> = Vec::new();
    for i in 0..endpoint_ids.len()
        invariant
            deliveries@.len() == i,
            forall|j: int|
                0 <= j < i ==> (#[trigger] deliveries@[j]).webhook_endpoint_id == endpoint_ids@[j]
                    && deliveries@[j].event_type@ == event.event_type@ && deliveries@[j].payload@
                    == event.payload@,
    {
        deliveries.push(
            NewDelivery {
                webhook_endpoint_id: endpoint_ids[i],
                event_type: event.event_type.clone(),
                payload: event.payload.clone(),
            },
        );
    }
    deliveries
}

/// What is signed: the time in seconds, a full stop, and the body.
pub open spec fn signed_message(timestamp: int, body: Seq<char>) -> Seq<char> {
    decimal(timestamp) + "."@ + body
}

/// The signature of a body that is sent at `timestamp`.
pub open spec fn signature(secret: Seq<char>, timestamp: int, body: Seq<char>) -> Seq<char> {
    hex_text(hmac_sha256(encode_utf8(secret), encode_utf8(signed_message(timestamp, body))))
}

/// Signs a body that is sent at `timestamp`, in seconds since the Unix epoch.
pub fn sign(secret: &str, timestamp: i64, body: &str) -> (res: String)
    ensures
        res@ == signature(secret@, timestamp as int, body@),
        res@ == hex_text(
            hmac_sha256(
                encode_utf8(secret@),
                encode_utf8(decimal(timestamp as int) + "."@ + body@),
            ),
        ),
        res@.len() == 64,
{
    let time = decimal_text(timestamp);
    let message = join3(time.as_str(), ".", body);
    mac_text(secret, message.as_str())
}

/// The HTTP request that delivers an event: a POST of `body` to `url`, with the headers
/// `Content-Type`, `Dodo-Timestamp` and `Dodo-Signature`.
pub struct DeliveryRequest {
    pub url: String,
    pub content_type: String,
    pub timestamp: String,
    pub signature: String,
    pub body: String,
}

/// The value of a [`DeliveryRequest`].
pub struct DeliveryRequestView {
    pub url: Seq<char>,
    pub content_type: Seq<char>,
    pub timestamp: Seq<char>,
    pub signature: Seq<char>,
    pub body: Seq<char>,
}

impl View for DeliveryRequest {
    type V = DeliveryRequestView;

    open spec fn view(&self) -> DeliveryRequestView {
        DeliveryRequestView {
            url: self.url@,
            content_type: self.content_type@,
            timestamp: self.timestamp@,
            signature: self.signature@,
            body: self.body@,
        }
    }
}

/// The request that delivers `delivery` at `timestamp`.
pub open spec fn delivery_request(
    delivery: WebhookDeliveryRow,
    timestamp: int,
) -> DeliveryRequestView {
    DeliveryRequestView {
        url: delivery.url@,
        content_type: "application/json"@,
        timestamp: decimal(timestamp),
        signature: "v1="@ + signature(delivery.secret@, timestamp, delivery.payload@),
        body: delivery.payload@,
    }
}

/// The request that delivers `delivery` at `timestamp`, in seconds since the Unix epoch.
pub fn delivery_request_at(delivery: &WebhookDeliveryRow, timestamp: i64) -> (res: DeliveryRequest)
    ensures
        res@ == delivery_request(*delivery, timestamp as int),
        res.url@ == delivery.url@,
        res.content_type@ == "application/json"@,
        res.timestamp@ == decimal(timestamp as int),
        res.signature@ == "v1="@ + hex_text(
            hmac_sha256(
                encode_utf8(delivery.secret@),
                encode_utf8(decimal(timestamp as int) + "."@ + delivery.payload@),
            ),
        ),
        res.body@ == delivery.payload@,
{
    let tag = sign(delivery.secret.as_str(), timestamp, delivery.payload.as_str());
    DeliveryRequest {
        url: delivery.url.clone(),
        content_type: "application/json".to_string(),
        timestamp: decimal_text(timestamp),
        signature: join2("v1=", tag.as_str()),
        body: delivery.payload.clone(),
    }
}

/// The whole seconds of a moment that is given in microseconds.
pub open spec fn whole_seconds(now: int) -> int {
    now / MICROS_PER_SECOND as int
}

/// The request that delivers `delivery` at the moment `now`, in microseconds since the Unix
/// epoch. Its timestamp is in whole seconds.
pub fn deliver_at(delivery: &WebhookDeliveryRow, now: i64) -> (res: DeliveryRequest)
    requires
        0 <= now,
    ensures
        res@ == delivery_request(*delivery, whole_seconds(now as int)),
        res.timestamp@ == decimal(now as int / 1_000_000),
        res.url@ == delivery.url@,
        res.body@ == delivery.payload@,
{
    let timestamp: i64 = now / MICROS_PER_SECOND;
    delivery_request_at(delivery, timestamp)
}

/// The request that delivers `delivery` now. Its timestamp is the moment of the clock in
/// whole seconds.
pub fn deliver(delivery: &WebhookDeliveryRow) -> (res: DeliveryRequest)
    ensures
        exists|now: int|
            0 <= now <= CLOCK_END && res@ == delivery_request(
                *delivery,
                #[trigger] whole_seconds(now),
            ),
{
    deliver_at(delivery, now_micros())
}

/// How long to wait after the given number of failed attempts, in seconds: half a minute,
/// five minutes, half an hour, two hours; and not at all after that.
pub open spec fn retry_delay(attempt_count: int) -> Option<int> {
    if attempt_count == 1 {
        Some(30)
    } else if attempt_count == 2 {
        Some(300)
    } else if attempt_count == 3 {
        Some(1800)
    } else if attempt_count == 4 {
        Some(7200)
    } else {
        None
    }
}

/// When to try again after the given number of failed attempts, if at all, where the last
/// failed at `now`. Times are in microseconds.
pub open spec fn retry_at(attempt_count: int, now: int) -> Option<int> {
    match retry_delay(attempt_count) {
        Some(delay) => Some(now + delay * MICROS_PER_SECOND),
        None => None,
    }
}

/// The value of an optional time.
pub open spec fn optional_time(time: Option<i64>) -> Option<int> {
    match time {
        Some(t) => Some(t as int),
        None => None,
    }
}

/// When to try again after the given number of failed attempts, if at all, where the last
/// failed at `now`.
pub fn backoff_from(attempt_count: i32, now: i64) -> (res: Option<i64>)
    requires
        now <= i64::MAX - 7_200_000_000,
    ensures
        optional_time(res) == retry_at(attempt_count as int, now as int),
{
    match attempt_count {
        1 => Some(now + 30 * MICROS_PER_SECOND),
        2 => Some(now + 300 * MICROS_PER_SECOND),
        3 => Some(now + 1800 * MICROS_PER_SECOND),
        4 => Some(now + 7200 * MICROS_PER_SECOND),
        _ => None,
    }
}

/// When to try again after the given number of failed attempts, if at all, where the last
/// failed now.
pub fn backoff_delay(attempt_count: i32) -> (res: Option<i64>)
    ensures
        exists|now: int|
            0 <= now <= CLOCK_END && optional_time(res) == #[trigger] retry_at(
                attempt_count as int,
                now,
            ),
{
    backoff_from(attempt_count, now_micros())
}

/// What is recorded of a delivery after an attempt. Where `next_attempt_at` is none, the
/// time of the next attempt stays as it is.
pub struct DeliveryUpdate {
    pub status: String,
    pub last_error: Option<String>,
    pub next_attempt_at: Option<i64>,
}

/// The value of a [`DeliveryUpdate`].
pub struct DeliveryUpdateView {
    pub status: Seq<char>,
    pub last_error: Option<Seq<char>>,
    pub next_attempt_at: Option<int>,
}

impl View for DeliveryUpdate {
    type V = DeliveryUpdateView;

    open spec fn view(&self) -> DeliveryUpdateView {
        DeliveryUpdateView {
            status: self.status@,
            last_error: optional_text(self.last_error),
            next_attempt_at: optional_time(self.next_attempt_at),
        }
    }
}

/// What is recorded after an attempt that ended at `now`, where `attempt_count` attempts
/// came before it.
pub open spec fn delivery_update(
    attempt_count: int,
    error: Option<Seq<char>>,
    now: int,
) -> DeliveryUpdateView {
    match error {
        None => DeliveryUpdateView {
            status: "delivered"@,
            last_error: None,
            next_attempt_at: None,
        },
        Some(message) => DeliveryUpdateView {
            status: if retry_at(attempt_count + 1, now) is Some {
                "pending"@
            } else {
                "permanently_failed"@
            },
            last_error: Some(message),
            next_attempt_at: retry_at(attempt_count + 1, now),
        },
    }
}

/// What is recorded after an attempt that ended at `now`: `error` is what went wrong, if
/// anything did.
pub fn delivery_update_at(attempt_count: i32, error: Option<String>, now: i64) -> (res:
    DeliveryUpdate)
    requires
        error is Some ==> attempt_count < i32::MAX,
        now <= i64::MAX - 7_200_000_000,
    ensures
        res@ == delivery_update(attempt_count as int, optional_text(error), now as int),
{
    match error {
        None => DeliveryUpdate {
            status: "delivered".to_string(),
            last_error: None,
            next_attempt_at: None,
        },
        Some(message) => {
            let next_attempt_at = backoff_from(attempt_count + 1, now);
            let status = if next_attempt_at.is_some() {
                "pending".to_string()
            } else {
                "permanently_failed".to_string()
            };
            DeliveryUpdate { status, last_error: Some(message), next_attempt_at }
        },
    }
}

/// What is recorded after an attempt that ended now.
pub fn delivery_ended(attempt_count: i32, error: Option<String>) -> (res: DeliveryUpdate)
    requires
        error is Some ==> attempt_count < i32::MAX,
    ensures
        exists|now: int|
            0 <= now <= CLOCK_END && res@ == #[trigger] delivery_update(
                attempt_count as int,
                optional_text(error),
                now,
            ),
{
    delivery_update_at(attempt_count, error, now_micros())
}

/// The part of a recorded delivery that attempts change.
pub struct DeliveryState {
    pub status: Seq<char>,
    pub attempt_count: int,
    pub last_error: Option<Seq<char>>,
    pub next_attempt_at: int,
}

impl DeliveryState {
    /// A delivery as it is recorded first.
    pub open spec fn fresh(now: int) -> DeliveryState {
        DeliveryState {
            status: "pending"@,
            attempt_count: 0,
            last_error: None,
            next_attempt_at: now,
        }
    }

    /// Whether the worker takes the delivery up at `now`, where its endpoint is active.
    pub open spec fn is_due(self, now: int) -> bool {
        self.status == "pending"@ && self.next_attempt_at <= now
    }

    /// The delivery after an attempt that ended at `now`.
    pub open spec fn after(self, error: Option<Seq<char>>, now: int) -> DeliveryState {
        let update = delivery_update(self.attempt_count, error, now);
        DeliveryState {
            status: update.status,
            attempt_count: self.attempt_count + 1,
            last_error: update.last_error,
            next_attempt_at: match update.next_attempt_at {
                Some(time) => time,
                None => self.next_attempt_at,
            },
        }
    }

    /// The delivery after failed attempts that ended at the given times.
    pub open spec fn after_failures(self, error: Seq<char>, times: Seq<int>) -> DeliveryState
        decreases times.len(),
    {
        if times.len() == 0 {
            self
        } else {
            self.after_failures(error, times.drop_last()).after(Some(error), times.last())
        }
    }
}

/// A delivery whose attempts all fail is tried five times: it waits half a minute, five
/// minutes, half an hour and two hours after the first four failures, and fails for good
/// with the fifth.
pub proof fn retry_schedule(start: int, error: Seq<char>, times: Seq<int>)
    requires
        1 <= times.len() <= 5,
    ensures
        ({
            let state = DeliveryState::fresh(start).after_failures(error, times);
            &&& state.attempt_count == times.len()
            &&& state.last_error == Some(error)
            &&& times.len() < 5 ==> state.status == "pending"@
            &&& times.len() < 5 ==> Some(state.next_attempt_at) == retry_at(
                times.len() as int,
                times.last(),
            )
            &&& times.len() == 5 ==> state.status == "permanently_failed"@
        }),
    decreases times.len(),
{
    if times.len() > 1 {
        retry_schedule(start, error, times.drop_last());
    } else {
        assert(times.drop_last() =~= Seq::<int>::empty());
        assert(DeliveryState::fresh(start).after_failures(error, times.drop_last())
            == DeliveryState::fresh(start));
    }
}

/// A delivery whose attempts all fail, each at the moment it falls due, makes its last
/// attempt 9330 seconds after its first.
pub proof fn retry_budget(start: int, error: Seq<char>, times: Seq<int>)
    requires
        times.len() == 5,
        forall|k: int|
            #![trigger times[k]]
            1 <= k < 5 ==> times[k] == DeliveryState::fresh(start).after_failures(
                error,
                times.take(k),
            ).next_attempt_at,
    ensures
        times[4] == times[0] + 9330 * MICROS_PER_SECOND,
{
    assert forall|k: int| 1 <= k < 5 implies Some(#[trigger] times[k]) == retry_at(
        k,
        times[k - 1],
    ) by {
        retry_schedule(start, error, times.take(k));
        assert(times.take(k).last() == times[k - 1]);
    }
    assert(Some(times[1]) == retry_at(1, times[0]));
    assert(Some(times[2]) == retry_at(2, times[1]));
    assert(Some(times[3]) == retry_at(3, times[2]));
    assert(Some(times[4]) == retry_at(4, times[3]));
}

/// A delivery that succeeded, or failed for good, is never taken up again.
pub proof fn settled_deliveries_rest(
    state: DeliveryState,
    error: Option<Seq<char>>,
    now: int,
    later: int,
)
    requires
        error is None || !(1 <= state.attempt_count + 1 <= 4),
    ensures
        !state.after(error, now).is_due(later),
{
    reveal_strlit("pending");
    reveal_strlit("delivered");
    reveal_strlit("permanently_failed");
    assert("pending"@.len() == 7);
    assert("delivered"@.len() == 9);
    assert("permanently_failed"@.len() == 18);
}

/// A failed attempt is taken up again no sooner than its wait is over, and then it is.
pub proof fn failed_deliveries_wait(state: DeliveryState, error: Seq<char>, now: int, later: int)
    requires
        1 <= state.attempt_count + 1 <= 4,
    ensures
        state.after(Some(error), now).is_due(later) <==> now + retry_delay(
            state.attempt_count + 1,
        )->0 * MICROS_PER_SECOND <= later,
{
}

/// Two deliveries sign the same message only where they have the same time and the same
/// body: a signature cannot be carried over to another time.
pub proof fn signed_messages_differ(time_a: int, body_a: Seq<char>, time_b: int, body_b: Seq<char>)
    requires
        signed_message(time_a, body_a) == signed_message(time_b, body_b),
    ensures
        time_a == time_b,
        body_a == body_b,
{
    reveal_strlit(".");
    let a = decimal(time_a);
    let b = decimal(time_b);
    let message = signed_message(time_a, body_a);
    decimal_has_no_full_stop(time_a);
    decimal_has_no_full_stop(time_b);
    assert(message[a.len() as int] == '.');
    assert(signed_message(time_b, body_b)[b.len() as int] == '.');
    if a.len() < b.len() {
        assert(signed_message(time_b, body_b)[a.len() as int] == b[a.len() as int]);
    } else if b.len() < a.len() {
        assert(message[b.len() as int] == a[b.len() as int]);
    }
    assert(a.len() == b.len());
    assert(message.take(a.len() as int) =~= a);
    assert(signed_message(time_b, body_b).take(b.len() as int) =~= b);
    decimal_is_injective(time_a, time_b);
    assert(message.skip(a.len() as int + 1) =~= body_a);
    assert(signed_message(time_b, body_b).skip(b.len() as int + 1) =~= body_b);
}

proof fn decimal_has_no_full_stop(n: int)
    ensures
        forall|i: int| 0 <= i < decimal(n).len() ==> #[trigger] decimal(n)[i] != '.',
{
    let magnitude = if n < 0 { (-n) as nat } else { n as nat };
    decimal_round_trip(magnitude);
    assert forall|i: int| 0 <= i < decimal(n).len() implies #[trigger] decimal(n)[i] != '.' by {
        if n < 0 {
            if i > 0 {
                assert(decimal(n)[i] == decimal_digits(magnitude)[i - 1]);
            }
        } else {
            assert(decimal(n)[i] == decimal_digits(magnitude)[i]);
        }
    }
}

/// A receiver that knows the secret can check a delivery by its headers and its body
/// alone: the signature is that of the timestamp header, a full stop and the body.
pub proof fn deliveries_can_be_checked(delivery: WebhookDeliveryRow, timestamp: int)
    ensures
        ({
            let request = delivery_request(delivery, timestamp);
            request.signature == "v1="@ + hex_text(
                hmac_sha256(
                    encode_utf8(delivery.secret@),
                    encode_utf8(request.timestamp + "."@ + request.body),
                ),
            )
        }),
{
}

/// A delivery is a POST of its whole payload, character for character, to its address. It is
/// dated, and signed under its secret over the date, a full stop and the whole payload.
pub proof fn deliveries_carry_their_payload(delivery: WebhookDeliveryRow, timestamp: int)
    ensures
        delivery_request(delivery, timestamp).url == delivery.url@,
        delivery_request(delivery, timestamp).body == delivery.payload@,
        delivery_request(delivery, timestamp).content_type == "application/json"@,
        delivery_request(delivery, timestamp).timestamp == decimal(timestamp),
        delivery_request(delivery, timestamp).signature == "v1="@ + hex_text(
            hmac_sha256(
                encode_utf8(delivery.secret@),
                encode_utf8(decimal(timestamp) + "."@ + delivery.payload@),
            ),
        ),
{
}

/// Deliveries of different payloads have different bodies, and those at different times
/// different dates.
pub proof fn different_deliveries_differ(
    a: WebhookDeliveryRow,
    b: WebhookDeliveryRow,
    time_a: int,
    time_b: int,
)
    ensures
        delivery_request(a, time_a).body == delivery_request(b, time_b).body ==> a.payload@
            == b.payload@,
        delivery_request(a, time_a).timestamp == delivery_request(b, time_b).timestamp ==> time_a
            == time_b,
{
    if decimal(time_a) == decimal(time_b) {
        decimal_is_injective(time_a, time_b);
    }
}

/// The date of a delivery is the last whole second.
pub proof fn seconds_are_whole(now: int)
    ensures
        whole_seconds(now) * 1_000_000 <= now < (whole_seconds(now) + 1) * 1_000_000,
{
}

/// After the first four failures a delivery is tried again half a minute, five minutes, half an
/// hour and two hours later; after any other number of failures it is not.
pub proof fn retries_wait(attempt_count: int, now: int)
    ensures
        retry_at(1, now) == Some(now + 30_000_000),
        retry_at(2, now) == Some(now + 300_000_000),
        retry_at(3, now) == Some(now + 1_800_000_000),
        retry_at(4, now) == Some(now + 7_200_000_000),
        !(1 <= attempt_count <= 4) ==> retry_at(attempt_count, now) is None,
{
}

/// An attempt without an error is recorded as delivered. One with an error is recorded with
/// that error, as pending until the next attempt where there is one, and else as failed for
/// good.
pub proof fn attempts_are_recorded_as_they_ended(attempt_count: int, error: Seq<char>, now: int)
    ensures
        ({
            let update = delivery_update(attempt_count, None, now);
            update.status == "delivered"@ && update.last_error is None && update.next_attempt_at
                is None
        }),
        ({
            let update = delivery_update(attempt_count, Some(error), now);
            &&& update.last_error == Some(error)
            &&& update.next_attempt_at == retry_at(attempt_count + 1, now)
            &&& 0 <= attempt_count <= 3 ==> update.status == "pending"@
            &&& !(0 <= attempt_count <= 3) ==> update.status == "permanently_failed"@
        }),
{
}

/// Nothing of an event, a request or what is recorded of an attempt is lost in its value.
pub proof fn deliveries_are_shown_whole(
    event: WebhookEvent,
    request: DeliveryRequest,
    update: DeliveryUpdate,
)
    ensures
        event@.business_id == event.business_id,
        event@.event_type == event.event_type@,
        event@.payload == event.payload@,
        request@.url == request.url@,
        request@.content_type == request.content_type@,
        request@.timestamp == request.timestamp@,
        request@.signature == request.signature@,
        request@.body == request.body@,
        update@.status == update.status@,
        update.last_error matches Some(text) ==> update@.last_error == Some(text@),
        update.last_error is None ==> update@.last_error is None,
        update.next_attempt_at matches Some(time) ==> update@.next_attempt_at == Some(time as int),
        update.next_attempt_at is None ==> update@.next_attempt_at is None,
{
}

} // verus!
