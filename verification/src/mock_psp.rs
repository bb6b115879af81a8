//! A stand-in for the PSP, for demonstrations and tests: the card token says how a charge
//! ends.
use vstd::prelude::*;

use crate::config::{number_setting, parse_port, setting};
use crate::ids::{draw_uuid, format_uuid, is_random_uuid, uuid_text};
use crate::psp::{PspResponse, PspResponseView};
use crate::text::{optional_text, same_text};

verus! {

/// What the mock answers: it waits, and then sends an HTTP status with a body.
pub enum MockReply {
    /// An answer of a PSP, with the status 200.
    Answer { delay_millis: u64, response: PspResponse },
    /// A breakdown, with the status 500.
    Breakdown { error: String },
}

/// The value of a [`MockReply`].
pub enum MockReplyView {
    Answer { delay_millis: u64, response: PspResponseView },
    Breakdown { error: Seq<char> },
}

impl View for MockReply {
    type V = MockReplyView;

    open spec fn view(&self) -> MockReplyView {
        match self {
            MockReply::Answer { delay_millis, response } => MockReplyView::Answer {
                delay_millis: *delay_millis,
                response: response@,
            },
            MockReply::Breakdown { error } => MockReplyView::Breakdown { error: error@ },
        }
    }
}

/// A charge that succeeds.
pub open spec fn success(delay_millis: u64, reference: u128) -> MockReplyView {
    MockReplyView::Answer {
        delay_millis,
        response: PspResponseView {
            status: "succeeded"@,
            psp_ref: Some(uuid_text(reference)),
            code: None,
        },
    }
}

/// A charge that fails.
pub open spec fn failure(code: Seq<char>) -> MockReplyView {
    MockReplyView::Answer {
        delay_millis: 100,
        response: PspResponseView { status: "failed"@, psp_ref: None, code: Some(code) },
    }
}

/// What the mock answers to a charge of the given card, with the given reference where the
/// charge succeeds. An unknown card is declined.
pub open spec fn mock_reply(card_token: Seq<char>, reference: u128) -> MockReplyView {
    if card_token == "tok_success"@ {
        success(100, reference)
    } else if card_token == "tok_insufficient_funds"@ {
        failure("insufficient_funds"@)
    } else if card_token == "tok_card_declined"@ {
        failure("card_declined"@)
    } else if card_token == "tok_timeout"@ {
        success(30_000, reference)
    } else if card_token == "tok_network_error"@ {
        MockReplyView::Breakdown { error: "internal server error"@ }
    } else {
        failure("card_declined"@)
    }
}

fn succeed(delay_millis: u64, reference: u128) -> (res: MockReply)
    ensures
        res@ == success(delay_millis, reference),
{
    MockReply::Answer {
        delay_millis,
        response: PspResponse {
            status: "succeeded".to_string(),
            psp_ref: Some(format_uuid(reference)),
            code: None,
        },
    }
}

fn fail(code: &str) -> (res: MockReply)
    ensures
        res@ == failure(code@),
{
    MockReply::Answer {
        delay_millis: 100,
        response: PspResponse {
            status: "failed".to_string(),
            psp_ref: None,
            code: Some(code.to_string()),
        },
    }
}

/// What the mock answers to a charge of the given card, with the given reference where the
/// charge succeeds.
pub fn charge_with(card_token: &String, reference: u128) -> (res: MockReply)
    ensures
        res@ == mock_reply(card_token@, reference),
{
    if same_text(card_token, "tok_success") {
        succeed(100, reference)
    } else if same_text(card_token, "tok_insufficient_funds") {
        fail("insufficient_funds")
    } else if same_text(card_token, "tok_card_declined") {
        fail("card_declined")
    } else if same_text(card_token, "tok_timeout") {
        succeed(30_000, reference)
    } else if same_text(card_token, "tok_network_error") {
        MockReply::Breakdown { error: "internal server error".to_string() }
    } else {
        fail("card_declined")
    }
}

/// What the mock answers to a charge of the given card, with a random reference.
pub fn charge(card_token: &String) -> (res: MockReply)
    ensures
        exists|reference: u128|
            is_random_uuid(reference) && res@ == #[trigger] mock_reply(card_token@, reference),
{
    charge_with(card_token, draw_uuid())
}

/// The TCP port that the mock listens on, where its setting is a port.
pub fn listening_port(value: Option<String>) -> (res: Option<u16>)
    ensures
        res == (match number_setting(setting(optional_text(value), "4000"@), u16::MAX as int) {
            Some(n) => Some(n as u16),
            None => None,
        }),
{
    match value {
        Some(text) => parse_port(text.as_str()),
        None => parse_port("4000"),
    }
}

/// The mock goes by the token: these two succeed, with the reference, one at once and one too
/// late; one breaks down; one lacks funds; and every other is declined.
pub proof fn the_token_decides(card_token: Seq<char>, reference: u128)
    ensures
        mock_reply("tok_success"@, reference) == (MockReplyView::Answer {
            delay_millis: 100,
            response: PspResponseView {
                status: "succeeded"@,
                psp_ref: Some(uuid_text(reference)),
                code: None,
            },
        }),
        mock_reply("tok_timeout"@, reference) == (MockReplyView::Answer {
            delay_millis: 30_000,
            response: PspResponseView {
                status: "succeeded"@,
                psp_ref: Some(uuid_text(reference)),
                code: None,
            },
        }),
        mock_reply("tok_network_error"@, reference) == (MockReplyView::Breakdown {
            error: "internal server error"@,
        }),
        mock_reply("tok_insufficient_funds"@, reference) == (MockReplyView::Answer {
            delay_millis: 100,
            response: PspResponseView {
                status: "failed"@,
                psp_ref: None,
                code: Some("insufficient_funds"@),
            },
        }),
        card_token != "tok_success"@ && card_token != "tok_timeout"@ && card_token
            != "tok_network_error"@ && card_token != "tok_insufficient_funds"@ ==> mock_reply(
            card_token,
            reference,
        ) == (MockReplyView::Answer {
            delay_millis: 100,
            response: PspResponseView {
                status: "failed"@,
                psp_ref: None,
                code: Some("card_declined"@),
            },
        }),
{
    reveal_strlit("tok_success");
    reveal_strlit("tok_timeout");
    reveal_strlit("tok_network_error");
    reveal_strlit("tok_insufficient_funds");
    reveal_strlit("tok_card_declined");
    assert("tok_success"@.len() == 11);
    assert("tok_timeout"@.len() == 11);
    assert("tok_success"@[4] == 's');
    assert("tok_timeout"@[4] == 't');
    assert("tok_network_error"@.len() == 17);
    assert("tok_insufficient_funds"@.len() == 22);
    assert("tok_card_declined"@.len() == 17);
    assert("tok_network_error"@[4] == 'n');
    assert("tok_card_declined"@[4] == 'c');
}

/// Nothing of a reply of the mock is lost in its value.
pub proof fn replies_are_shown_whole(delay_millis: u64, response: PspResponse, error: String)
    ensures
        (MockReply::Answer { delay_millis, response })@ == (MockReplyView::Answer {
            delay_millis,
            response: response@,
        }),
        (MockReply::Breakdown { error })@ == (MockReplyView::Breakdown { error: error@ }),
{
}

} // verus!
