use proving_service::error::ProxyError;
use proving_service::header::into_response_header;
use proving_service::header::HeaderError;
use proving_service::response::create_queue_full_response;
use proving_service::response::create_response_with_error_message;
use proving_service::response::create_too_many_requests_response;
use proving_service::response::create_workers_updated_response;
use proving_service::response::decimal_text;
use proving_service::response::response_for_error;
use proving_service::response::signed_decimal_text;
use proving_service::response::HeaderField;
use proving_service::response::StatusResponse;

fn field(name: &str, value: &str) -> HeaderField {
    HeaderField { name: name.to_string(), value: value.to_string() }
}

#[test]
fn queue_full_response_is_exact() {
    let r = create_queue_full_response();
    assert_eq!(
        r,
        StatusResponse {
            status: 503,
            headers: vec![
                field("grpc-message", "Too many requests in the queue"),
                field("grpc-status", "8"),
            ],
            keep_alive: false,
        }
    );
}

#[test]
fn too_many_requests_response_is_exact() {
    let r = create_too_many_requests_response(250);
    assert_eq!(
        r,
        StatusResponse {
            status: 429,
            headers: vec![
                field("X-Rate-Limit-Limit", "250"),
                field("X-Rate-Limit-Remaining", "0"),
                field("X-Rate-Limit-Reset", "1"),
            ],
            keep_alive: false,
        }
    );
    assert_eq!(create_too_many_requests_response(-7).headers[0].value, "-7");
}

#[test]
fn workers_updated_response_is_exact() {
    let r = create_workers_updated_response(12);
    assert_eq!(
        r,
        StatusResponse {
            status: 200,
            headers: vec![field("X-Worker-Count", "12")],
            keep_alive: false,
        }
    );
    assert_eq!(create_workers_updated_response(0).headers[0].value, "0");
}

#[test]
fn error_message_response_is_exact() {
    let r = create_response_with_error_message("worker not found".to_string());
    assert_eq!(
        r,
        StatusResponse {
            status: 400,
            headers: vec![field("X-Error-Message", "worker not found")],
            keep_alive: false,
        }
    );
}

#[test]
fn decimal_text_matches_the_standard_rendering() {
    for n in [0u64, 1, 9, 10, 11, 99, 100, 101, 12_345, 1_000_000, u64::MAX] {
        assert_eq!(decimal_text(n), n.to_string());
    }
    for n in [0isize, 1, -1, 10, -10, 429, -12_345, isize::MAX, isize::MIN] {
        assert_eq!(signed_decimal_text(n), n.to_string());
    }
}

#[test]
fn internal_failures_are_never_shown() {
    assert!(response_for_error(ProxyError::NoHealthyWorker, 5).is_none());
    assert!(response_for_error(ProxyError::ConnectionFailed("a:1".to_string()), 5).is_none());
    assert!(ProxyError::NoHealthyWorker.is_internal());
    assert!(ProxyError::ConnectionFailed("a:1".to_string()).is_internal());
    assert!(!ProxyError::DispatchExhausted.is_internal());
    assert!(ProxyError::RejectedQueueFull.is_admission_failure());
    assert!(ProxyError::RejectedRateLimited.is_admission_failure());
    assert!(!ProxyError::DispatchExhausted.is_admission_failure());
}

#[test]
fn shown_failures_map_to_their_responses() {
    assert_eq!(response_for_error(ProxyError::RejectedQueueFull, 5), Some(create_queue_full_response()));
    assert_eq!(
        response_for_error(ProxyError::RejectedRateLimited, 5),
        Some(create_too_many_requests_response(5))
    );
    assert_eq!(
        response_for_error(ProxyError::DispatchExhausted, 5),
        Some(create_response_with_error_message("All dispatch attempts failed".to_string()))
    );
    assert_eq!(
        response_for_error(ProxyError::InvalidAddress("bad host".to_string()), 5),
        Some(create_response_with_error_message("Invalid worker address: bad host".to_string()))
    );
}

#[test]
fn responses_convert_into_library_headers() {
    let h = into_response_header(&create_too_many_requests_response(77)).unwrap();
    assert_eq!(h.status.as_u16(), 429);
    assert_eq!(h.headers.len(), 3);
    assert_eq!(h.headers.get("x-rate-limit-limit").unwrap().to_str().unwrap(), "77");
    assert_eq!(h.headers.get("X-Rate-Limit-Remaining").unwrap().to_str().unwrap(), "0");
    assert_eq!(h.headers.get("x-rate-limit-reset").unwrap().to_str().unwrap(), "1");
    let h = into_response_header(&create_workers_updated_response(3)).unwrap();
    assert_eq!(h.status.as_u16(), 200);
    assert_eq!(h.headers.get("x-worker-count").unwrap().to_str().unwrap(), "3");
    let h = into_response_header(&create_queue_full_response()).unwrap();
    assert_eq!(h.status.as_u16(), 503);
    assert_eq!(
        h.headers.get("grpc-message").unwrap().to_str().unwrap(),
        "Too many requests in the queue"
    );
}

#[test]
fn later_field_replaces_earlier_one_of_the_same_name() {
    let resp = StatusResponse {
        status: 200,
        headers: vec![field("X-Worker-Count", "1"), field("x-worker-count", "2")],
        keep_alive: false,
    };
    let h = into_response_header(&resp).unwrap();
    assert_eq!(h.headers.len(), 1);
    assert_eq!(h.headers.get("x-worker-count").unwrap().to_str().unwrap(), "2");
}

#[test]
fn unsendable_descriptions_are_refused() {
    let bad_message = create_response_with_error_message("line one\nline two".to_string());
    assert_eq!(into_response_header(&bad_message).err(), Some(HeaderError::InvalidField(0)));
    let tab_is_fine = create_response_with_error_message("a\tb".to_string());
    assert!(into_response_header(&tab_is_fine).is_ok());
    let bad_status = StatusResponse { status: 99, headers: vec![], keep_alive: false };
    assert_eq!(into_response_header(&bad_status).err(), Some(HeaderError::InvalidStatus(99)));
    let bad_status = StatusResponse { status: 1000, headers: vec![], keep_alive: false };
    assert_eq!(into_response_header(&bad_status).err(), Some(HeaderError::InvalidStatus(1000)));
    let bad_name = StatusResponse {
        status: 200,
        headers: vec![field("X-Ok", "1"), field("bad name", "1")],
        keep_alive: false,
    };
    assert_eq!(into_response_header(&bad_name).err(), Some(HeaderError::InvalidField(1)));
    let empty_name = StatusResponse { status: 200, headers: vec![field("", "1")], keep_alive: false };
    assert_eq!(into_response_header(&empty_name).err(), Some(HeaderError::InvalidField(0)));
    let mut many = Vec::new();
    for i in 0..1025u32 {
        many.push(field(&format!("x-{}", i), "v"));
    }
    let too_many = StatusResponse { status: 200, headers: many, keep_alive: false };
    assert_eq!(into_response_header(&too_many).err(), Some(HeaderError::TooManyFields(1025)));
}

#[test]
fn status_bounds_are_accepted() {
    let low = StatusResponse { status: 100, headers: vec![], keep_alive: true };
    assert_eq!(into_response_header(&low).unwrap().status.as_u16(), 100);
    let high = StatusResponse { status: 999, headers: vec![], keep_alive: true };
    assert_eq!(into_response_header(&high).unwrap().status.as_u16(), 999);
}
