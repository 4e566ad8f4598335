//! Conversion of a response description into the HTTP library's response
//! header.
//!
//! The library's header is opaque here. What it holds is named by two
//! functions: its status code, and its fields as a map from the lower-case
//! field name to the field value. The library keeps one value per name and
//! compares names without regard to case, which is what the map expresses.

use crate::response::decimal;
use crate::response::error_message_view;
use crate::response::queue_full_view;
use crate::response::signed_decimal;
use crate::response::too_many_requests_view;
use crate::response::workers_updated_view;
use crate::response::ResponseView;
use crate::response::StatusResponse;
use vstd::prelude::*;

verus! {

/// The HTTP library's response header.
#[verifier::external_type_specification]
#[verifier::external_body]
pub struct ExResponseHeader(pingora_http::ResponseHeader);

/// The HTTP library's error.
#[verifier::external_type_specification]
#[verifier::external_body]
pub struct ExHeaderLibraryError(pingora_error::Error);

/// The status code that a response header carries.
pub uninterp spec fn header_status(h: pingora_http::ResponseHeader) -> u16;

/// The fields that a response header carries: lower-case name to value.
pub uninterp spec fn header_fields(h: pingora_http::ResponseHeader) -> Map<Seq<char>, Seq<char>>;

/// The fields of a header that holds none.
pub open spec fn no_fields() -> Map<Seq<char>, Seq<char>> {
    Map::empty()
}

/// Largest number of fields that a description may hold to be converted.
pub const MAX_RESPONSE_FIELDS: usize = 1024;

/// Whether `c` may occur in a header field name: a letter, a digit or one
/// of the punctuation marks that HTTP allows in a token.
pub open spec fn is_token_char(c: char) -> bool {
    let u = c as u32;
    ||| 48 <= u <= 57
    ||| 65 <= u <= 90
    ||| 97 <= u <= 122
    ||| u == 33
    ||| 35 <= u <= 39
    ||| u == 42
    ||| u == 43
    ||| u == 45
    ||| u == 46
    ||| 94 <= u <= 96
    ||| u == 124
    ||| u == 126
}

/// Whether `c` may occur in a header field value: a tab, or any character
/// from the space upwards other than the delete character.
pub open spec fn is_value_char(c: char) -> bool {
    let u = c as u32;
    u == 9 || (u >= 32 && u != 127)
}

/// Whether `name` is accepted as a header field name.
pub open spec fn header_name_ok(name: Seq<char>) -> bool {
    &&& 1 <= name.len() <= 65535
    &&& forall|i: int| 0 <= i < name.len() ==> is_token_char(#[trigger] name[i])
}

/// Whether `value` is accepted as a header field value.
pub open spec fn header_value_ok(value: Seq<char>) -> bool {
    forall|i: int| 0 <= i < value.len() ==> is_value_char(#[trigger] value[i])
}

/// The lower-case form of an ASCII letter; any other character unchanged.
pub open spec fn lower_char(c: char) -> char {
    if 65 <= c as u32 <= 90 {
        ((c as u32 + 32) as u8) as char
    } else {
        c
    }
}

/// The name under which a field is filed: `name` in lower case.
pub open spec fn lower(name: Seq<char>) -> Seq<char> {
    Seq::new(name.len(), |i: int| lower_char(name[i]))
}

/// Calls `pingora_http::ResponseHeader::build` with no size hint. Trusted:
/// the call succeeds exactly for the codes 100 to 999, and the header it
/// gives carries that code and no fields.
#[verifier::external_body]
fn response_header_build(code: u16) -> (r: Result<
    pingora_http::ResponseHeader,
    Box<pingora_error::Error>,
>)
    ensures
        (r is Ok) == (100 <= code && code <= 999),
        r is Ok ==> header_status(r->Ok_0) == code && header_fields(r->Ok_0) == no_fields(),
{
    pingora_http::ResponseHeader::build(code, None)
}

/// Calls `pingora_http::ResponseHeader::insert_header`. Trusted: the call
/// succeeds exactly when the name is a nonempty token of at most 65535
/// characters and the value holds no control character other than tab; on
/// success the value is filed under the lower-case name, replacing what was
/// filed there; on failure the header is as before. The status code is never
/// touched. The header must hold fewer than 1024 fields, far below the size
/// at which the library's map refuses to grow.
#[verifier::external_body]
fn response_header_insert(h: &mut pingora_http::ResponseHeader, name: String, value: String) -> (r:
    Result<(), Box<pingora_error::Error>>)
    requires
        header_fields(*old(h)).dom().finite(),
        header_fields(*old(h)).dom().len() < MAX_RESPONSE_FIELDS,
    ensures
        (r is Ok) == (header_name_ok(name@) && header_value_ok(value@)),
        header_status(*final(h)) == header_status(*old(h)),
        header_fields(*final(h)) == if r is Ok {
            header_fields(*old(h)).insert(lower(name@), value@)
        } else {
            header_fields(*old(h))
        },
{
    h.insert_header(name, value)
}

/// Why a response description could not be converted.
#[derive(Clone, Copy, Debug, PartialEq, Eq, Structural)]
pub enum HeaderError {
    /// The status code, given here, is not between 100 and 999.
    InvalidStatus(u16),
    /// The description holds more fields than can be converted; their
    /// number is given here.
    TooManyFields(usize),
    /// The field at the position given here has a name or a value that
    /// cannot be sent.
    InvalidField(usize),
}

/// Whether a field can be sent.
pub open spec fn field_ok(f: (Seq<char>, Seq<char>)) -> bool {
    header_name_ok(f.0) && header_value_ok(f.1)
}

/// The map that results from filing the fields in order.
pub open spec fn fields_map(fields: Seq<(Seq<char>, Seq<char>)>) -> Map<Seq<char>, Seq<char>>
    decreases fields.len(),
{
    if fields.len() == 0 {
        Map::empty()
    } else {
        fields_map(fields.drop_last()).insert(lower(fields.last().0), fields.last().1)
    }
}

/// Whether position `i` is the first field of `fields` that cannot be sent.
pub open spec fn first_bad_field(fields: Seq<(Seq<char>, Seq<char>)>, i: int) -> bool {
    &&& 0 <= i < fields.len()
    &&& !field_ok(fields[i])
    &&& forall|j: int| 0 <= j < i ==> field_ok(#[trigger] fields[j])
}

/// Whether a description converts into a header.
pub open spec fn convertible(v: ResponseView) -> bool {
    &&& 100 <= v.status <= 999
    &&& v.fields.len() <= MAX_RESPONSE_FIELDS
    &&& forall|j: int| 0 <= j < v.fields.len() ==> field_ok(#[trigger] v.fields[j])
}

/// Whether `e` is the reason for which the description `v` is refused: the
/// status code is checked first, then the number of fields, then the fields
/// in order.
pub open spec fn refused_for(v: ResponseView, e: HeaderError) -> bool {
    match e {
        HeaderError::InvalidStatus(code) => code == v.status && !(100 <= v.status <= 999),
        HeaderError::TooManyFields(n) => {
            &&& 100 <= v.status <= 999
            &&& n == v.fields.len()
            &&& v.fields.len() > MAX_RESPONSE_FIELDS
        },
        HeaderError::InvalidField(i) => {
            &&& 100 <= v.status <= 999
            &&& v.fields.len() <= MAX_RESPONSE_FIELDS
            &&& first_bad_field(v.fields, i as int)
        },
    }
}

/// Converts a response description into the HTTP library's response header.
///
/// Succeeds exactly on the descriptions that are convertible; the header
/// then carries the status code and, for each field name regardless of
/// case, the value set last. Otherwise the first reason for refusal is
/// returned.
pub fn into_response_header(resp: &StatusResponse) -> (r: Result<
    pingora_http::ResponseHeader,
    HeaderError,
>)
    ensures
        r is Ok <==> convertible(resp@),
        r is Ok ==> header_status(r->Ok_0) == resp@.status && header_fields(r->Ok_0) == fields_map(
            resp@.fields,
        ),
        r is Err ==> refused_for(resp@, r->Err_0),
{
    let n = resp.headers.len();
    let mut h = match response_header_build(resp.status) {
        Ok(h) => h,
        Err(_) => {
            return Err(HeaderError::InvalidStatus(resp.status));
        },
    };
    if n > MAX_RESPONSE_FIELDS {
        return Err(HeaderError::TooManyFields(n));
    }
    let ghost fields = resp@.fields;
    let mut i: usize = 0;
    proof {
        assert(fields.take(0) =~= Seq::<(Seq<char>, Seq<char>)>::empty());
    }
    while i < n
        invariant
            n == resp.headers@.len(),
            n <= MAX_RESPONSE_FIELDS,
            fields == resp@.fields,
            fields.len() == n,
            i <= n,
            100 <= resp.status <= 999,
            header_status(h) == resp.status,
            header_fields(h) == fields_map(fields.take(i as int)),
            header_fields(h).dom().finite(),
            header_fields(h).dom().len() <= i,
            forall|j: int| 0 <= j < i ==> field_ok(#[trigger] fields[j]),
        decreases n - i,
    {
        let name = resp.headers[i].name.clone();
        let value = resp.headers[i].value.clone();
        proof {
            assert(fields[i as int] == (name@, value@));
            assert(fields.take(i + 1).drop_last() =~= fields.take(i as int));
            assert(fields.take(i + 1).last() == fields[i as int]);
        }
        match response_header_insert(&mut h, name, value) {
            Ok(()) => {},
            Err(_) => {
                return Err(HeaderError::InvalidField(i));
            },
        }
        i += 1;
    }
    proof {
        assert(fields.take(n as int) =~= fields);
    }
    Ok(h)
}

/// A decimal numeral can be sent as a field value.
pub proof fn lemma_decimal_is_value(n: nat)
    ensures
        header_value_ok(decimal(n)),
    decreases n,
{
    if n >= 10 {
        lemma_decimal_is_value(n / 10);
    }
}

/// A signed decimal numeral can be sent as a field value.
pub proof fn lemma_signed_decimal_is_value(n: int)
    ensures
        header_value_ok(signed_decimal(n)),
{
    if n < 0 {
        lemma_decimal_is_value((-n) as nat);
    } else {
        lemma_decimal_is_value(n as nat);
    }
}

/// The response for a full queue always converts.
pub proof fn lemma_queue_full_converts()
    ensures
        convertible(queue_full_view()),
{
    reveal_strlit("grpc-message");
    reveal_strlit("Too many requests in the queue");
    reveal_strlit("grpc-status");
    reveal_strlit("8");
    let v = queue_full_view();
    assert(field_ok(v.fields[0]));
    assert(field_ok(v.fields[1]));
}

/// The response for a rate-limited request always converts, whatever the
/// limit.
pub proof fn lemma_too_many_requests_converts(limit: int)
    ensures
        convertible(too_many_requests_view(limit)),
{
    reveal_strlit("X-Rate-Limit-Limit");
    reveal_strlit("X-Rate-Limit-Remaining");
    reveal_strlit("X-Rate-Limit-Reset");
    reveal_strlit("0");
    reveal_strlit("1");
    lemma_signed_decimal_is_value(limit);
    let v = too_many_requests_view(limit);
    assert(field_ok(v.fields[0]));
    assert(field_ok(v.fields[1]));
    assert(field_ok(v.fields[2]));
}

/// The response for a membership change always converts, whatever the
/// number of workers.
pub proof fn lemma_workers_updated_converts(workers: nat)
    ensures
        convertible(workers_updated_view(workers)),
{
    reveal_strlit("X-Worker-Count");
    lemma_decimal_is_value(workers);
    let v = workers_updated_view(workers);
    assert(field_ok(v.fields[0]));
}

/// The response with an error message converts exactly when the message
/// can be sent as a field value.
pub proof fn lemma_error_message_converts(message: Seq<char>)
    ensures
        convertible(error_message_view(message)) <==> header_value_ok(message),
{
    reveal_strlit("X-Error-Message");
    let v = error_message_view(message);
    assert(v.fields[0] == ("X-Error-Message"@, message));
    if header_value_ok(message) {
        assert(field_ok(v.fields[0]));
    }
}

} // verus!
