//! Mapping of internal outcomes into what a client sees.
//!
//! The mapping itself is pure: an outcome becomes a status code, a list of
//! header fields and the decision whether the connection stays open. A
//! second step turns such a description into the HTTP library's response
//! header, which is the only place where a description can be refused.

use crate::admission::Admission;
use crate::error::ProxyError;
use vstd::prelude::*;
use vstd::string::StringExecFns;

verus! {

/// One header field of a response.
#[derive(Clone, Debug, PartialEq, Eq)]
pub struct HeaderField {
    /// Field name, in the case in which it is sent.
    pub name: String,
    /// Field value.
    pub value: String,
}

/// A response that ends a connection's exchange with the proxy.
#[derive(Clone, Debug, PartialEq, Eq)]
pub struct StatusResponse {
    /// HTTP status code.
    pub status: u16,
    /// Header fields, in the order in which they were set.
    pub headers: Vec<HeaderField>,
    /// Whether the connection may be reused after the response.
    pub keep_alive: bool,
}

/// The mathematical content of a [`StatusResponse`].
pub struct ResponseView {
    pub status: u16,
    pub fields: Seq<(Seq<char>, Seq<char>)>,
    pub keep_alive: bool,
}

/// The map from a header field to its name and value as texts.
pub open spec fn field_text() -> spec_fn(HeaderField) -> (Seq<char>, Seq<char>) {
    |f: HeaderField| (f.name@, f.value@)
}

impl View for StatusResponse {
    type V = ResponseView;

    open spec fn view(&self) -> ResponseView {
        ResponseView {
            status: self.status,
            fields: self.headers@.map_values(field_text()),
            keep_alive: self.keep_alive,
        }
    }
}

/// The decimal digit for `d`, which is below ten.
pub open spec fn digit_char(d: nat) -> char {
    if d == 0 {
        '0'
    } else if d == 1 {
        '1'
    } else if d == 2 {
        '2'
    } else if d == 3 {
        '3'
    } else if d == 4 {
        '4'
    } else if d == 5 {
        '5'
    } else if d == 6 {
        '6'
    } else if d == 7 {
        '7'
    } else if d == 8 {
        '8'
    } else {
        '9'
    }
}

/// The decimal numeral of `n`, without leading zeros.
pub open spec fn decimal(n: nat) -> Seq<char>
    decreases n,
{
    if n < 10 {
        seq![digit_char(n)]
    } else {
        decimal(n / 10).push(digit_char(n % 10))
    }
}

/// The decimal numeral of the integer `n`, with a minus sign if negative.
pub open spec fn signed_decimal(n: int) -> Seq<char> {
    if n < 0 {
        seq!['-'] + decimal((-n) as nat)
    } else {
        decimal(n as nat)
    }
}

/// The response to a request that found the queue full.
pub open spec fn queue_full_view() -> ResponseView {
    ResponseView {
        status: 503,
        fields: seq![
            ("grpc-message"@, "Too many requests in the queue"@),
            ("grpc-status"@, "8"@),
        ],
        keep_alive: false,
    }
}

/// The response to a request over the rate limit `limit`.
pub open spec fn too_many_requests_view(limit: int) -> ResponseView {
    ResponseView {
        status: 429,
        fields: seq![
            ("X-Rate-Limit-Limit"@, signed_decimal(limit)),
            ("X-Rate-Limit-Remaining"@, "0"@),
            ("X-Rate-Limit-Reset"@, "1"@),
        ],
        keep_alive: false,
    }
}

/// The response to a change of membership that leaves `workers` workers.
pub open spec fn workers_updated_view(workers: nat) -> ResponseView {
    ResponseView {
        status: 200,
        fields: seq![("X-Worker-Count"@, decimal(workers))],
        keep_alive: false,
    }
}

/// The response to a request that failed with the given message.
pub open spec fn error_message_view(message: Seq<char>) -> ResponseView {
    ResponseView { status: 400, fields: seq![("X-Error-Message"@, message)], keep_alive: false }
}

/// The text shown to a client whose request used up its dispatch rounds.
pub open spec fn exhausted_message() -> Seq<char> {
    "All dispatch attempts failed"@
}

/// The text shown for a worker address that is not usable.
pub open spec fn invalid_address_message(address: Seq<char>) -> Seq<char> {
    "Invalid worker address: "@ + address
}

/// What a client sees for a failure, if it sees anything: the two admission
/// failures have their own responses, an exhausted dispatch and an invalid
/// address are reported as errors with a message, and the failures that the
/// proxy handles internally are never shown.
pub open spec fn error_view(e: ProxyError, limit: int) -> Option<ResponseView> {
    match e {
        ProxyError::RejectedQueueFull => Some(queue_full_view()),
        ProxyError::RejectedRateLimited => Some(too_many_requests_view(limit)),
        ProxyError::DispatchExhausted => Some(error_message_view(exhausted_message())),
        ProxyError::InvalidAddress(a) => Some(error_message_view(invalid_address_message(a@))),
        ProxyError::ConnectionFailed(_) => None,
        ProxyError::NoHealthyWorker => None,
    }
}

/// The one-character text of a decimal digit.
fn digit_text(d: u8) -> (s: &'static str)
    requires
        d < 10,
    ensures
        s@ == seq![digit_char(d as nat)],
{
    proof {
        reveal_strlit("0");
        reveal_strlit("1");
        reveal_strlit("2");
        reveal_strlit("3");
        reveal_strlit("4");
        reveal_strlit("5");
        reveal_strlit("6");
        reveal_strlit("7");
        reveal_strlit("8");
        reveal_strlit("9");
    }
    let s = if d == 0 {
        "0"
    } else if d == 1 {
        "1"
    } else if d == 2 {
        "2"
    } else if d == 3 {
        "3"
    } else if d == 4 {
        "4"
    } else if d == 5 {
        "5"
    } else if d == 6 {
        "6"
    } else if d == 7 {
        "7"
    } else if d == 8 {
        "8"
    } else {
        "9"
    };
    assert(s@ =~= seq![digit_char(d as nat)]);
    s
}

/// Writes `n` as a decimal numeral.
pub fn decimal_text(n: u64) -> (s: String)
    ensures
        s@ == decimal(n as nat),
    decreases n,
{
    if n < 10 {
        String::from_str(digit_text(n as u8))
    } else {
        let mut s = decimal_text(n / 10);
        s.append(digit_text((n % 10) as u8));
        assert(s@ =~= decimal((n / 10) as nat).push(digit_char((n % 10) as nat)));
        s
    }
}

/// Writes the integer `n` as a decimal numeral, with a minus sign if
/// negative.
pub fn signed_decimal_text(n: isize) -> (s: String)
    ensures
        s@ == signed_decimal(n as int),
{
    if n >= 0 {
        decimal_text(n as u64)
    } else {
        let magnitude: u64 = ((-(n + 1)) as u64) + 1;
        let mut s = String::from_str("-");
        let digits = decimal_text(magnitude);
        s.append(digits.as_str());
        proof {
            reveal_strlit("-");
            assert(s@ =~= seq!['-'] + decimal((-n) as nat));
        }
        s
    }
}

/// Builds a header field from a fixed name and a value.
fn field(name: &str, value: String) -> (f: HeaderField)
    ensures
        f.name@ == name@,
        f.value@ == value@,
{
    HeaderField { name: String::from_str(name), value }
}

/// The response to a request that found the queue full: status 503 with the
/// gRPC status for exhausted resources, and the connection closed.
pub fn create_queue_full_response() -> (r: StatusResponse)
    ensures
        r@ == queue_full_view(),
{
    let mut headers: Vec<HeaderField> = Vec::new();
    headers.push(field("grpc-message", String::from_str("Too many requests in the queue")));
    headers.push(field("grpc-status", decimal_text(8)));
    let r = StatusResponse { status: 503, headers, keep_alive: false };
    proof {
        reveal_strlit("8");
        assert(decimal(8) =~= "8"@);
        assert(r@.fields =~= queue_full_view().fields);
    }
    r
}

/// The response to a request over the rate limit: status 429 with the
/// limit, nothing remaining and a reset after one second, and the
/// connection closed.
pub fn create_too_many_requests_response(max_request_per_second: isize) -> (r: StatusResponse)
    ensures
        r@ == too_many_requests_view(max_request_per_second as int),
{
    let mut headers: Vec<HeaderField> = Vec::new();
    headers.push(field("X-Rate-Limit-Limit", signed_decimal_text(max_request_per_second)));
    headers.push(field("X-Rate-Limit-Remaining", String::from_str("0")));
    headers.push(field("X-Rate-Limit-Reset", String::from_str("1")));
    let r = StatusResponse { status: 429, headers, keep_alive: false };
    assert(r@.fields =~= too_many_requests_view(max_request_per_second as int).fields);
    r
}

/// The response to a change of worker membership: status 200 with the
/// number of workers now known, and the connection closed.
pub fn create_workers_updated_response(workers: usize) -> (r: StatusResponse)
    ensures
        r@ == workers_updated_view(workers as nat),
{
    let mut headers: Vec<HeaderField> = Vec::new();
    headers.push(field("X-Worker-Count", decimal_text(workers as u64)));
    let r = StatusResponse { status: 200, headers, keep_alive: false };
    assert(r@.fields =~= workers_updated_view(workers as nat).fields);
    r
}

/// The response to a request that failed: status 400 with the message, and
/// the connection closed.
pub fn create_response_with_error_message(error_msg: String) -> (r: StatusResponse)
    ensures
        r@ == error_message_view(error_msg@),
{
    let mut headers: Vec<HeaderField> = Vec::new();
    headers.push(field("X-Error-Message", error_msg));
    let r = StatusResponse { status: 400, headers, keep_alive: false };
    assert(r@.fields =~= error_message_view(error_msg@).fields);
    r
}

/// The response for a failure, if the failure is one that a client sees.
/// `max_request_per_second` is the limit reported with a rate-limit
/// rejection.
pub fn response_for_error(e: ProxyError, max_request_per_second: isize) -> (r: Option<
    StatusResponse,
>)
    ensures
        match error_view(e, max_request_per_second as int) {
            Some(v) => r is Some && r->0@ == v,
            None => r is None,
        },
        r is None <==> e.spec_is_internal(),
{
    match e {
        ProxyError::RejectedQueueFull => Some(create_queue_full_response()),
        ProxyError::RejectedRateLimited => Some(
            create_too_many_requests_response(max_request_per_second),
        ),
        ProxyError::DispatchExhausted => Some(
            create_response_with_error_message(String::from_str("All dispatch attempts failed")),
        ),
        ProxyError::InvalidAddress(address) => {
            let mut message = String::from_str("Invalid worker address: ");
            message.append(address.as_str());
            Some(create_response_with_error_message(message))
        },
        ProxyError::ConnectionFailed(_) => None,
        ProxyError::NoHealthyWorker => None,
    }
}

/// The response for an admission decision: none for an accepted
/// request, which is answered later with the worker's result.
pub fn response_for_admission(a: Admission, max_request_per_second: isize) -> (r: Option<
    StatusResponse,
>)
    ensures
        match a {
            Admission::Accepted(_) => r is None,
            Admission::RejectedQueueFull => r is Some && r->0@ == queue_full_view(),
            Admission::RejectedRateLimited => r is Some && r->0@ == too_many_requests_view(
                max_request_per_second as int,
            ),
        },
{
    match a {
        Admission::Accepted(_) => None,
        Admission::RejectedQueueFull => Some(create_queue_full_response()),
        Admission::RejectedRateLimited => Some(
            create_too_many_requests_response(max_request_per_second),
        ),
    }
}

} // verus!
