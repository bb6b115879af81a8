//! Charging a card through the payment service provider (PSP).
use vstd::prelude::*;

use crate::json::{json_text, new_object, no_fields, object_text, put_text, JsonValue};
use crate::text::{join2, optional_text, same_text};

verus! {

/// What the PSP answers to a charge.
pub struct PspResponse {
    pub status: String,
    pub psp_ref: Option<String>,
    pub code: Option<String>,
}

/// The value of a [`PspResponse`].
pub struct PspResponseView {
    pub status: Seq<char>,
    pub psp_ref: Option<Seq<char>>,
    pub code: Option<Seq<char>>,
}

impl View for PspResponse {
    type V = PspResponseView;

    open spec fn view(&self) -> PspResponseView {
        PspResponseView {
            status: self.status@,
            psp_ref: optional_text(self.psp_ref),
            code: optional_text(self.code),
        }
    }
}

/// How a charge ended.
pub enum PspResult {
    Succeeded { psp_ref: String },
    Failed { code: String },
    Timeout,
    NetworkError(String),
}

/// The value of a [`PspResult`].
pub enum PspResultView {
    Succeeded { psp_ref: Seq<char> },
    Failed { code: Seq<char> },
    Timeout,
    NetworkError(Seq<char>),
}

impl View for PspResult {
    type V = PspResultView;

    open spec fn view(&self) -> PspResultView {
        match self {
            PspResult::Succeeded { psp_ref } => PspResultView::Succeeded { psp_ref: psp_ref@ },
            PspResult::Failed { code } => PspResultView::Failed { code: code@ },
            PspResult::Timeout => PspResultView::Timeout,
            PspResult::NetworkError(message) => PspResultView::NetworkError(message@),
        }
    }
}

/// What a charge does next.
pub enum ChargeStep {
    /// Post `body` as JSON to `url`.
    Send { url: String, body: String },
    /// Read the body of the answer.
    ReadBody,
    /// Nothing more: this is how it ended.
    Finished { result: PspResult },
}

/// The value of a [`ChargeStep`].
pub enum ChargeStepView {
    Send { url: Seq<char>, body: Seq<char> },
    ReadBody,
    Finished { result: PspResultView },
}

impl View for ChargeStep {
    type V = ChargeStepView;

    open spec fn view(&self) -> ChargeStepView {
        match self {
            ChargeStep::Send { url, body } => ChargeStepView::Send { url: url@, body: body@ },
            ChargeStep::ReadBody => ChargeStepView::ReadBody,
            ChargeStep::Finished { result } => ChargeStepView::Finished { result: result@ },
        }
    }
}

/// What came of a step of a charge.
pub enum ChargeReply {
    /// The request was not answered.
    SendFailed { timed_out: bool, message: String },
    /// The request was answered with an HTTP status.
    Status { code: u16 },
    /// The body could not be read, or is not an answer of the PSP.
    BodyFailed { message: String },
    /// The body.
    Body { response: PspResponse },
}

/// The value of a [`ChargeReply`].
pub enum ChargeReplyView {
    SendFailed { timed_out: bool, message: Seq<char> },
    Status { code: u16 },
    BodyFailed { message: Seq<char> },
    Body { response: PspResponseView },
}

impl View for ChargeReply {
    type V = ChargeReplyView;

    open spec fn view(&self) -> ChargeReplyView {
        match self {
            ChargeReply::SendFailed { timed_out, message } => ChargeReplyView::SendFailed {
                timed_out: *timed_out,
                message: message@,
            },
            ChargeReply::Status { code } => ChargeReplyView::Status { code: *code },
            ChargeReply::BodyFailed { message } => ChargeReplyView::BodyFailed {
                message: message@,
            },
            ChargeReply::Body { response } => ChargeReplyView::Body { response: response@ },
        }
    }
}

impl ChargeReplyView {
    /// Whether the reply is one that HTTP allows: a status has three digits.
    pub open spec fn is_http(self) -> bool {
        self matches ChargeReplyView::Status { code } ==> 100 <= code <= 999
    }
}

/// The text of an HTTP status: its number and its canonical reason.
pub uninterp spec fn status_line(code: u16) -> Seq<char>;

/// `StatusCode::from_u16` and the `Display` form of the crate http, which reqwest hands on.
/// Believed: the text depends on the number alone. A number of other than three digits is
/// no HTTP status, and is left out.
#[verifier::external_body]
fn format_status(code: u16) -> (res: String)
    requires
        100 <= code <= 999,
    ensures
        res@ == status_line(code),
{
    reqwest::StatusCode::from_u16(code).expect("three digits").to_string()
}

/// The JSON text that asks the PSP to charge a card.
pub open spec fn charge_body(card_token: Seq<char>) -> Seq<char> {
    json_text(map!["card_token"@ => JsonValue::Text(card_token)])
}

/// How a charge ended, by the answer of the PSP.
pub open spec fn charge_result(response: PspResponseView) -> PspResultView {
    if response.status == "succeeded"@ {
        PspResultView::Succeeded {
            psp_ref: match response.psp_ref {
                Some(psp_ref) => psp_ref,
                None => Seq::empty(),
            },
        }
    } else {
        PspResultView::Failed {
            code: match response.code {
                Some(code) => code,
                None => "unknown"@,
            },
        }
    }
}

/// The step that follows `reply`. Only an answer with a 2xx status is read; a request that
/// was not answered in time is told apart from one that failed otherwise.
pub open spec fn charge_next(reply: ChargeReplyView) -> ChargeStepView {
    match reply {
        ChargeReplyView::SendFailed { timed_out, message } => ChargeStepView::Finished {
            result: if timed_out {
                PspResultView::Timeout
            } else {
                PspResultView::NetworkError(message)
            },
        },
        ChargeReplyView::Status { code } => if 200 <= code < 300 {
            ChargeStepView::ReadBody
        } else {
            ChargeStepView::Finished {
                result: PspResultView::NetworkError("PSP HTTP "@ + status_line(code)),
            }
        },
        ChargeReplyView::BodyFailed { message } => ChargeStepView::Finished {
            result: PspResultView::NetworkError(message),
        },
        ChargeReplyView::Body { response } => ChargeStepView::Finished {
            result: charge_result(response),
        },
    }
}

/// Starts to charge a card: the request for the PSP at `psp_url`.
pub fn begin_charge(psp_url: &str, card_token: &str) -> (res: ChargeStep)
    ensures
        res@ == (ChargeStepView::Send {
            url: psp_url@ + "/charge"@,
            body: charge_body(card_token@),
        }),
        res matches ChargeStep::Send { url, body } && url@ == psp_url@ + "/charge"@ && body@
            == json_text(map!["card_token"@ => JsonValue::Text(card_token@)]),
{
    let mut object = new_object();
    put_text(&mut object, "card_token", card_token);
    let body = object_text(object);
    proof {
        assert(no_fields().insert("card_token"@, JsonValue::Text(card_token@))
            =~= map!["card_token"@ => JsonValue::Text(card_token@)]);
    }
    ChargeStep::Send { url: join2(psp_url, "/charge"), body }
}

/// How a charge ended, by the answer of the PSP.
pub fn result_of(response: PspResponse) -> (res: PspResult)
    ensures
        res@ == charge_result(response@),
{
    if same_text(&response.status, "succeeded") {
        PspResult::Succeeded {
            psp_ref: match response.psp_ref {
                Some(psp_ref) => psp_ref,
                None => String::new(),
            },
        }
    } else {
        PspResult::Failed {
            code: match response.code {
                Some(code) => code,
                None => "unknown".to_string(),
            },
        }
    }
}

/// Goes on with a charge after `reply` has come of a step.
pub fn charge(reply: ChargeReply) -> (res: ChargeStep)
    requires
        reply@.is_http(),
    ensures
        res@ == charge_next(reply@),
{
    match reply {
        ChargeReply::SendFailed { timed_out, message } => ChargeStep::Finished {
            result: if timed_out {
                PspResult::Timeout
            } else {
                PspResult::NetworkError(message)
            },
        },
        ChargeReply::Status { code } => if 200 <= code && code < 300 {
            ChargeStep::ReadBody
        } else {
            let line = format_status(code);
            ChargeStep::Finished {
                result: PspResult::NetworkError(join2("PSP HTTP ", line.as_str())),
            }
        },
        ChargeReply::BodyFailed { message } => ChargeStep::Finished {
            result: PspResult::NetworkError(message),
        },
        ChargeReply::Body { response } => ChargeStep::Finished { result: result_of(response) },
    }
}

/// The PSP is told the whole card token, and nothing else.
pub proof fn charges_name_their_card(card_token: Seq<char>)
    ensures
        charge_body(card_token) == json_text(map!["card_token"@ => JsonValue::Text(card_token)]),
{
}

/// A charge succeeds exactly where the PSP says so, with the reference that the PSP gives. A
/// charge that does not has the code that the PSP gives, or `unknown`.
pub proof fn charges_end_as_the_psp_says(response: PspResponseView)
    ensures
        charge_result(response) is Succeeded <==> response.status == "succeeded"@,
        charge_result(response) is Succeeded || charge_result(response) is Failed,
        charge_result(response) matches PspResultView::Succeeded { psp_ref } ==> (
        response.psp_ref matches Some(given) ==> psp_ref == given) && (response.psp_ref is None
            ==> psp_ref.len() == 0),
        charge_result(response) matches PspResultView::Failed { code } ==> (
        response.code matches Some(given) ==> code == given) && (response.code is None ==> code
            == "unknown"@),
{
}

/// What comes of each turn of a charge: a request that was not answered in time is a timeout,
/// one that failed otherwise a network error with its message; an answer is read if its HTTP
/// status is one of success, and is a network error that names the status if not; and the
/// answer of the PSP says how the charge ended.
pub proof fn charges_go_by_what_came_back(
    message: Seq<char>,
    code: u16,
    response: PspResponseView,
)
    ensures
        charge_next(ChargeReplyView::SendFailed { timed_out: true, message }) == (
        ChargeStepView::Finished { result: PspResultView::Timeout }),
        charge_next(ChargeReplyView::SendFailed { timed_out: false, message }) == (
        ChargeStepView::Finished { result: PspResultView::NetworkError(message) }),
        charge_next(ChargeReplyView::Status { code }) is ReadBody <==> 200 <= code <= 299,
        !(200 <= code <= 299) ==> charge_next(ChargeReplyView::Status { code }) == (
        ChargeStepView::Finished {
            result: PspResultView::NetworkError("PSP HTTP "@ + status_line(code)),
        }),
        charge_next(ChargeReplyView::BodyFailed { message }) == (ChargeStepView::Finished {
            result: PspResultView::NetworkError(message),
        }),
        charge_next(ChargeReplyView::Body { response }) == (ChargeStepView::Finished {
            result: charge_result(response),
        }),
{
}

/// Every status that HTTP has can be answered.
pub proof fn http_statuses_have_three_digits(reply: ChargeReplyView)
    ensures
        reply.is_http() <==> (reply matches ChargeReplyView::Status { code } ==> 100 <= code
            <= 999),
{
}

/// Nothing of an answer of the PSP, or of how a charge ended, is lost in its value.
pub proof fn charges_are_shown_whole(
    response: PspResponse,
    text: String,
    body: String,
    result: PspResult,
    timed_out: bool,
    code: u16,
)
    ensures
        response@.status == response.status@,
        response.psp_ref matches Some(given) ==> response@.psp_ref == Some(given@),
        response.psp_ref is None ==> response@.psp_ref is None,
        response.code matches Some(given) ==> response@.code == Some(given@),
        response.code is None ==> response@.code is None,
        (PspResult::Succeeded { psp_ref: text })@ == (PspResultView::Succeeded { psp_ref: text@ }),
        (PspResult::Failed { code: text })@ == (PspResultView::Failed { code: text@ }),
        PspResult::Timeout@ == PspResultView::Timeout,
        PspResult::NetworkError(text)@ == PspResultView::NetworkError(text@),
        (ChargeStep::Send { url: text, body })@ == (ChargeStepView::Send {
            url: text@,
            body: body@,
        }),
        ChargeStep::ReadBody@ == ChargeStepView::ReadBody,
        (ChargeStep::Finished { result })@ == (ChargeStepView::Finished { result: result@ }),
        (ChargeReply::SendFailed { timed_out, message: text })@ == (ChargeReplyView::SendFailed {
            timed_out,
            message: text@,
        }),
        (ChargeReply::Status { code })@ == (ChargeReplyView::Status { code }),
        (ChargeReply::BodyFailed { message: text })@ == (ChargeReplyView::BodyFailed {
            message: text@,
        }),
        (ChargeReply::Body { response })@ == (ChargeReplyView::Body { response: response@ }),
{
}

} // verus!
