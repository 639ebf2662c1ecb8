use aliyun_sdk::error::{
    classify_decode_failure, classify_transport, default_aliyun_rejection_field, OperationError,
    RequestErrorKind,
};

#[test]
fn test_connection_failure_is_request_failure() {
    let e = classify_transport(false, true, "(transport) connection refused".to_string());
    match e {
        OperationError::RequestFailure { message, kind } => {
            assert!(matches!(kind, RequestErrorKind::Connect));
            assert_eq!(message, "(transport) connection refused");
        }
        _ => panic!("expected a request failure"),
    }
}

#[test]
fn test_timeout_is_request_failure() {
    let e = classify_transport(true, false, "(transport) timed out".to_string());
    assert!(matches!(
        e,
        OperationError::RequestFailure { kind: RequestErrorKind::Timeout, .. }
    ));
}

#[test]
fn test_timeout_wins_over_connect() {
    let e = classify_transport(true, true, "m".to_string());
    assert!(matches!(
        e,
        OperationError::RequestFailure { kind: RequestErrorKind::Timeout, .. }
    ));
}

#[test]
fn test_unclassified_transport_failure_is_internal() {
    let e = classify_transport(false, false, "(transport) tls handshake failed".to_string());
    match e {
        OperationError::InternalError { message } => {
            assert_eq!(message, "(transport) tls handshake failed");
        }
        _ => panic!("expected an internal error"),
    }
}

#[test]
fn test_decode_failure_is_internal() {
    let e = classify_decode_failure("(json (de)serialization error) eof".to_string());
    match e {
        OperationError::InternalError { message } => {
            assert_eq!(message, "(json (de)serialization error) eof");
        }
        _ => panic!("expected an internal error"),
    }
}

#[test]
fn test_sentinel_text() {
    assert_eq!(
        default_aliyun_rejection_field(),
        "No content. If you see this please submit a bug issue (to the rust sdk repo)."
    );
}
