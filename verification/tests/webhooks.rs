//! Webhooks: signing, delivering, retrying, and the endpoints.

use invoice_service::error::{AppError, DbFailure};
use invoice_service::models::webhook::{
    CreateWebhookEndpointRequest, WebhookDeliveryRow, WebhookEndpoint,
};
use invoice_service::routes::webhook_endpoints::{create, created, endpoint_with, list};
use invoice_service::webhooks::{
    backoff_delay, backoff_from, deliver, deliver_at, delivery_ended, delivery_request_at,
    delivery_update_at, enqueue, sign, WebhookEvent, BATCH_SIZE, POLL_INTERVAL_SECS,
};

const SECOND: i64 = 1_000_000;

fn row() -> WebhookDeliveryRow {
    WebhookDeliveryRow {
        id: 1,
        webhook_endpoint_id: 2,
        event_type: "invoice.paid".to_string(),
        payload: "{\"event\":\"invoice.paid\"}".to_string(),
        status: "pending".to_string(),
        attempt_count: 0,
        url: "https://example.com/hook".to_string(),
        secret: "s3cret".to_string(),
    }
}

fn endpoint(id: u128, secret: &str) -> WebhookEndpoint {
    WebhookEndpoint {
        id,
        business_id: 8,
        url: "https://example.com/hook".to_string(),
        secret: secret.to_string(),
        active: true,
        created_at: 42,
    }
}

#[test]
fn signatures_cover_the_time_and_the_body() {
    let body = "{\"event\":\"invoice.paid\"}";
    assert_eq!(
        sign("s3cret", 1_700_000_000, body),
        "68560ff7e93a72ea3aa4876b753bed055ae92e31fa49668dc5b1a8b858d5446d"
    );
    assert_eq!(
        sign("whsec", -5, "{}"),
        "161fbe4772121d23c3133c7ef48a4dbdc1d9d5cd1ed8c9722296e2bfca41d3d9"
    );
    assert_eq!(
        sign("", 0, ""),
        "b849d5a581847b281957065739df36df2463d1977ea8d6e1e4e6cf33fadc68c3"
    );
    assert_eq!(
        sign(&"k".repeat(200), 1, "x"),
        "d8afe259b1d11fad65e37b722d50ce99db59a56c3095c5457cea8b1334c8334a"
    );
    assert_ne!(
        sign("s3cret", 1_700_000_001, body),
        sign("s3cret", 1_700_000_000, body)
    );
    // The stop between the time and the body keeps them apart.
    assert_ne!(sign("s", 12, "3"), sign("s", 1, "23"));
}

#[test]
fn deliveries_carry_their_headers() {
    let request = delivery_request_at(&row(), 1_700_000_000);
    assert_eq!(request.url, "https://example.com/hook");
    assert_eq!(request.content_type, "application/json");
    assert_eq!(request.timestamp, "1700000000");
    assert_eq!(
        request.signature,
        "v1=68560ff7e93a72ea3aa4876b753bed055ae92e31fa49668dc5b1a8b858d5446d"
    );
    assert_eq!(request.body, "{\"event\":\"invoice.paid\"}");
}

#[test]
fn deliveries_are_stamped_in_whole_seconds() {
    for now in [
        1_700_000_000 * SECOND,
        1_700_000_000 * SECOND + 1,
        1_700_000_000 * SECOND + 999_999,
    ] {
        let request = deliver_at(&row(), now);
        assert_eq!(request.timestamp, "1700000000");
        assert_eq!(
            request.signature,
            "v1=68560ff7e93a72ea3aa4876b753bed055ae92e31fa49668dc5b1a8b858d5446d"
        );
    }
    assert_eq!(deliver_at(&row(), 0).timestamp, "0");
    assert_eq!(deliver_at(&row(), 999_999).timestamp, "0");
}

#[test]
fn deliveries_can_be_checked_by_their_receiver() {
    let request = deliver(&row());
    let timestamp: i64 = request.timestamp.parse().unwrap();
    assert!(timestamp > 1_600_000_000);
    assert!((chrono::Utc::now().timestamp() - timestamp).abs() < 60);
    assert_eq!(
        request.signature,
        format!("v1={}", sign("s3cret", timestamp, &request.body))
    );
}

#[test]
fn events_go_to_every_endpoint() {
    let event = WebhookEvent {
        business_id: 8,
        event_type: "invoice.paid".to_string(),
        payload: "{}".to_string(),
    };
    let deliveries = enqueue(&vec![11, 12, 13], &event);
    assert_eq!(deliveries.len(), 3);
    for (i, delivery) in deliveries.iter().enumerate() {
        assert_eq!(delivery.webhook_endpoint_id, 11 + i as u128);
        assert_eq!(delivery.event_type, "invoice.paid");
        assert_eq!(delivery.payload, "{}");
    }
    assert!(enqueue(&Vec::new(), &event).is_empty());
}

#[test]
fn retries_wait_longer_and_longer() {
    let now = 1_700_000_000 * SECOND;
    assert_eq!(backoff_from(1, now), Some(now + 30 * SECOND));
    assert_eq!(backoff_from(2, now), Some(now + 300 * SECOND));
    assert_eq!(backoff_from(3, now), Some(now + 1800 * SECOND));
    assert_eq!(backoff_from(4, now), Some(now + 7200 * SECOND));
    assert_eq!(backoff_from(5, now), None);
    assert_eq!(backoff_from(0, now), None);
    assert_eq!(backoff_from(-1, now), None);
    assert_eq!(backoff_from(i32::MAX, now), None);
}

#[test]
fn retries_are_counted_from_now() {
    let before = chrono::Utc::now().timestamp_micros();
    let at = backoff_delay(2).unwrap();
    let after = chrono::Utc::now().timestamp_micros();
    assert!(before + 300 * SECOND <= at && at <= after + 300 * SECOND);
    assert_eq!(backoff_delay(5), None);
}

#[test]
fn a_delivery_is_tried_five_times() {
    let mut now = 1_700_000_000 * SECOND;
    let first = now;
    let mut attempts = 0;
    loop {
        let update = delivery_update_at(attempts, Some("connection refused".to_string()), now);
        attempts += 1;
        assert_eq!(update.last_error.as_deref(), Some("connection refused"));
        match update.next_attempt_at {
            Some(at) => {
                assert_eq!(update.status, "pending");
                now = at;
            }
            None => {
                assert_eq!(update.status, "permanently_failed");
                break;
            }
        }
    }
    assert_eq!(attempts, 5);
    assert_eq!(now - first, 9330 * SECOND);
}

#[test]
fn a_delivery_that_succeeds_is_done() {
    let update = delivery_update_at(3, None, 0);
    assert_eq!(update.status, "delivered");
    assert_eq!(update.last_error, None);
    assert_eq!(update.next_attempt_at, None);
    assert_eq!(delivery_ended(0, None).status, "delivered");
    let failed = delivery_ended(0, Some("HTTP status 500".to_string()));
    assert_eq!(failed.status, "pending");
    assert!(failed.next_attempt_at.unwrap() > chrono::Utc::now().timestamp_micros());
    assert_eq!(
        delivery_ended(4, Some("late".to_string())).status,
        "permanently_failed"
    );
}

#[test]
fn the_worker_takes_twenty_every_five_seconds() {
    assert_eq!(POLL_INTERVAL_SECS, 5);
    assert_eq!(BATCH_SIZE, 20);
}

#[test]
fn a_delivery_is_in_the_hands_of_one_worker() {
    // Two workers take turns at one delivery, which a worker locks until its attempt is
    // recorded.
    let mut now = 1_700_000_000 * SECOND;
    let mut status = "pending".to_string();
    let mut attempts = 0;
    let mut due = now;
    let mut holder: Option<usize> = None;
    let mut made = Vec::new();
    for turn in 0..60 {
        let worker = turn % 2;
        if holder == Some(worker) && turn % 3 == 0 {
            let update = delivery_update_at(attempts, Some("refused".to_string()), now);
            status = update.status;
            due = update.next_attempt_at.unwrap_or(due);
            attempts += 1;
            holder = None;
        } else if holder.is_none() && status == "pending" && due <= now {
            holder = Some(worker);
            made.push(attempts);
        }
        now += 2000 * SECOND;
    }
    assert_eq!(made, vec![0, 1, 2, 3, 4]);
    assert_eq!(status, "permanently_failed");
}

#[test]
fn endpoints_get_a_random_secret() {
    let request = CreateWebhookEndpointRequest {
        url: " \u{2003}https://example.com/hook\n".to_string(),
    };
    let one = create(&request).ok().unwrap();
    let two = create(&request).ok().unwrap();
    assert_eq!(one.url, "https://example.com/hook");
    assert_eq!(one.secret.len(), 32);
    assert!(one.secret.chars().all(|c| c.is_ascii_alphanumeric()));
    assert_ne!(one.secret, two.secret);
}

#[test]
fn endpoints_need_a_url() {
    for url in ["", "   ", "\t\n\u{3000}"] {
        let request = CreateWebhookEndpointRequest {
            url: url.to_string(),
        };
        let error = endpoint_with(&request, "s".to_string()).err().unwrap();
        assert_eq!(error.status_code(), 422);
        assert!(matches!(error, AppError::Unprocessable(text) if text == "url is required"));
        assert!(create(&request).is_err());
    }
}

#[test]
fn the_secret_is_shown_once() {
    let (code, shown) = created(Ok(endpoint(3, "kept")), "kept".to_string())
        .ok()
        .unwrap();
    assert_eq!(code, 201);
    assert_eq!(shown.id, 3);
    assert_eq!(shown.url, "https://example.com/hook");
    assert!(shown.active);
    assert_eq!(shown.created_at, 42);
    assert_eq!(shown.signing_secret, "kept");

    let failed = created(
        Err(DbFailure {
            code: Some("23505".to_string()),
            message: "down".to_string(),
        }),
        "kept".to_string(),
    );
    assert_eq!(failed.err().unwrap().status_code(), 500);
}

#[test]
fn lists_show_the_endpoints_that_are_read_for_them() {
    // Active or not, of one business, newest first.
    let mut table = Vec::new();
    for (id, business_id, created_at, active) in [
        (1, 8, 10, true),
        (2, 9, 20, true),
        (3, 8, 30, false),
        (4, 8, 20, true),
    ] {
        table.push(WebhookEndpoint {
            business_id,
            created_at,
            active,
            ..endpoint(id, "s")
        });
    }
    let mut rows: Vec<WebhookEndpoint> = table.into_iter().filter(|e| e.business_id == 8).collect();
    rows.sort_by_key(|e| -e.created_at);
    let shown: Vec<(u128, i64, bool)> = list(&rows)
        .iter()
        .map(|e| (e.id, e.created_at, e.active))
        .collect();
    assert_eq!(shown, vec![(3, 30, false), (4, 20, true), (1, 10, true)]);
}

#[test]
fn lists_do_not_tell_secrets_apart() {
    let one = list(&vec![endpoint(1, "a"), endpoint(2, "b")]);
    let two = list(&vec![endpoint(1, "x"), endpoint(2, "y")]);
    assert_eq!(one.len(), 2);
    for (a, b) in one.iter().zip(two.iter()) {
        assert_eq!(a.id, b.id);
        assert_eq!(a.url, b.url);
        assert_eq!(a.active, b.active);
        assert_eq!(a.created_at, b.created_at);
    }
    assert_eq!(one[0].id, 1);
    assert_eq!(one[1].id, 2);
}
