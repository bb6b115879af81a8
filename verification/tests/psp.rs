//! Charging cards, and the mock PSP.

use invoice_service::mock_psp::{self, MockReply};
use invoice_service::psp::{
    begin_charge, charge, result_of, ChargeReply, ChargeStep, PspResponse, PspResult,
};

fn response(status: &str, psp_ref: Option<&str>, code: Option<&str>) -> PspResponse {
    PspResponse {
        status: status.to_string(),
        psp_ref: psp_ref.map(|v| v.to_string()),
        code: code.map(|v| v.to_string()),
    }
}

fn told(result: PspResult) -> String {
    match result {
        PspResult::Succeeded { psp_ref } => format!("succeeded {psp_ref}"),
        PspResult::Failed { code } => format!("failed {code}"),
        PspResult::Timeout => "timeout".to_string(),
        PspResult::NetworkError(message) => format!("network error {message}"),
    }
}

fn ended(reply: ChargeReply) -> String {
    match charge(reply) {
        ChargeStep::Finished { result } => told(result),
        ChargeStep::ReadBody => "read body".to_string(),
        ChargeStep::Send { .. } => "send".to_string(),
    }
}

#[test]
fn charges_are_sent_as_json() {
    match begin_charge("http://localhost:4000", "tok_\"quoted\"") {
        ChargeStep::Send { url, body } => {
            assert_eq!(url, "http://localhost:4000/charge");
            assert_eq!(body, "{\"card_token\":\"tok_\\\"quoted\\\"\"}");
        }
        _ => panic!("nothing is sent"),
    }
}

#[test]
fn charges_that_are_not_answered_fail() {
    assert_eq!(
        ended(ChargeReply::SendFailed {
            timed_out: true,
            message: "timed out".to_string(),
        }),
        "timeout"
    );
    assert_eq!(
        ended(ChargeReply::SendFailed {
            timed_out: false,
            message: "connection refused".to_string(),
        }),
        "network error connection refused"
    );
    assert_eq!(
        ended(ChargeReply::BodyFailed {
            message: "not JSON".to_string(),
        }),
        "network error not JSON"
    );
}

#[test]
fn only_good_answers_are_read() {
    for code in [200, 201, 299] {
        assert_eq!(ended(ChargeReply::Status { code }), "read body");
    }
    assert_eq!(
        ended(ChargeReply::Status { code: 500 }),
        "network error PSP HTTP 500 Internal Server Error"
    );
    assert_eq!(
        ended(ChargeReply::Status { code: 404 }),
        "network error PSP HTTP 404 Not Found"
    );
    assert_eq!(
        ended(ChargeReply::Status { code: 300 }),
        "network error PSP HTTP 300 Multiple Choices"
    );
    assert!(ended(ChargeReply::Status { code: 199 }).starts_with("network error PSP HTTP 199"));
}

#[test]
fn answers_are_understood() {
    assert_eq!(
        told(result_of(response("succeeded", Some("ref-1"), None))),
        "succeeded ref-1"
    );
    assert_eq!(
        told(result_of(response("succeeded", None, Some("x")))),
        "succeeded "
    );
    assert_eq!(
        told(result_of(response("failed", Some("ref-1"), Some("card_declined")))),
        "failed card_declined"
    );
    assert_eq!(
        told(result_of(response("Succeeded", None, None))),
        "failed unknown"
    );
    assert_eq!(
        ended(ChargeReply::Body {
            response: response("pending", None, None),
        }),
        "failed unknown"
    );
}

#[test]
fn the_mock_goes_by_the_token() {
    let reference: u128 = 0x0123_4567_89ab_cdef_0123_4567_89ab_cdef;
    let cases = [
        (
            "tok_success",
            100,
            "succeeded 01234567-89ab-cdef-0123-456789abcdef",
        ),
        ("tok_insufficient_funds", 100, "failed insufficient_funds"),
        ("tok_card_declined", 100, "failed card_declined"),
        (
            "tok_timeout",
            30_000,
            "succeeded 01234567-89ab-cdef-0123-456789abcdef",
        ),
        ("tok_other", 100, "failed card_declined"),
        ("", 100, "failed card_declined"),
    ];
    for (token, delay, expected) in cases {
        match mock_psp::charge_with(&token.to_string(), reference) {
            MockReply::Answer {
                delay_millis,
                response,
            } => {
                assert_eq!(delay_millis, delay);
                assert_eq!(told(result_of(response)), expected);
            }
            MockReply::Breakdown { .. } => panic!("the mock broke down"),
        }
    }
    match mock_psp::charge_with(&"tok_network_error".to_string(), reference) {
        MockReply::Breakdown { error } => assert_eq!(error, "internal server error"),
        MockReply::Answer { .. } => panic!("the mock answered"),
    }
}

#[test]
fn references_are_random() {
    let draw = || match mock_psp::charge(&"tok_success".to_string()) {
        MockReply::Answer { response, .. } => response.psp_ref.unwrap(),
        MockReply::Breakdown { .. } => panic!("the mock broke down"),
    };
    let one = draw();
    let two = draw();
    assert_ne!(one, two);
    for text in [one, two] {
        let id = uuid::Uuid::parse_str(&text).unwrap();
        assert_eq!(id.get_version_num(), 4);
        assert_eq!(id.to_string(), text);
    }
}
