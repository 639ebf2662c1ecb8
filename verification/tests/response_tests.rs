use aliyun_sdk::error::{default_aliyun_rejection_field, OperationError};
use aliyun_sdk::response::{
    classify_caller_identity, decode_caller_identity, decode_rejection, parse_json_value,
    CallerIdentityFields, RejectionFields,
};

fn object(pairs: &[(&str, &str)]) -> serde_json::Value {
    let mut m = serde_json::Map::new();
    for (k, v) in pairs {
        m.insert(k.to_string(), serde_json::Value::String(v.to_string()));
    }
    serde_json::Value::Object(m)
}

fn identity_fields() -> CallerIdentityFields {
    CallerIdentityFields {
        identity_type: Some("Account".to_string()),
        request_id: Some("req-1".to_string()),
        account_id: Some("1234".to_string()),
        principal_id: Some("5678".to_string()),
        user_id: Some("9012".to_string()),
        arn: Some("acs:ram::1234:root".to_string()),
        role_id: None,
    }
}

fn empty_rejection_fields() -> RejectionFields {
    RejectionFields { code: None, host_id: None, message: None, request_id: None, recommend: None }
}

#[test]
fn test_success_shape_returns_ok() {
    let value = object(&[
        ("IdentityType", "Account"),
        ("RequestId", "req-1"),
        ("AccountId", "1234"),
        ("PrincipalId", "5678"),
        ("UserId", "9012"),
        ("Arn", "acs:ram::1234:root"),
    ]);
    let body = parse_json_value(value).unwrap();
    assert_eq!(body.identity_type, "Account");
    assert_eq!(body.request_id, "req-1");
    assert_eq!(body.account_id, "1234");
    assert_eq!(body.principal_id, "5678");
    assert_eq!(body.user_id, "9012");
    assert_eq!(body.arn, "acs:ram::1234:root");
    assert_eq!(body.role_id, None);
}

#[test]
fn sts_test_get_caller_identity() {
    // A successful identity lookup carrying all six fields, and the role
    // id a role session also gets.
    let value = object(&[
        ("IdentityType", "AssumedRoleUser"),
        ("RequestId", "req-2"),
        ("AccountId", "1234"),
        ("PrincipalId", "5678"),
        ("UserId", "9012"),
        ("Arn", "acs:ram::1234:role/dev"),
        ("RoleId", "role-1"),
    ]);
    let body = parse_json_value(value).unwrap();
    assert_eq!(body.identity_type, "AssumedRoleUser");
    assert_eq!(body.role_id, Some("role-1".to_string()));
}

#[test]
fn mod_test_get_caller_identity() {
    // Empty or invalid credentials are refused by the provider with a
    // structured rejection payload, not a transport failure.  Signing
    // with empty credentials itself succeeds; the refusal comes back as
    // a body in the rejection shape.
    let empty_client = aliyun_sdk::client::AliyunClient::new(String::new(), String::new());
    let url = empty_client.build_request_url(
        "sts.aliyuncs.com",
        aliyun_sdk::services::sts::get_caller_identity(),
        "nonce",
        "2015-01-09T12:00:00Z",
    );
    let url = String::from_utf8(url).unwrap();
    assert!(url.contains("AccessKeyId=&"));
    let value = object(&[
        ("Code", "InvalidAccessKeyId.NotFound"),
        ("HostId", "sts.aliyuncs.com"),
        ("Message", "Specified access key is not found."),
        ("RequestId", "req-3"),
    ]);
    let result = parse_json_value(value);
    assert!(matches!(result, Err(OperationError::Rejected(_))));
}

#[test]
fn test_minimal_rejection_gets_sentinels() {
    let value = object(&[
        ("Code", "Forbidden"),
        ("HostId", "sts.aliyuncs.com"),
        ("RequestId", "req-4"),
    ]);
    match parse_json_value(value) {
        Err(OperationError::Rejected(rejection)) => {
            assert_eq!(rejection.code, "Forbidden");
            assert_eq!(rejection.host_id, "sts.aliyuncs.com");
            assert_eq!(rejection.request_id, "req-4");
            assert_eq!(rejection.message, default_aliyun_rejection_field());
            assert_eq!(rejection.recommend, default_aliyun_rejection_field());
        }
        other => panic!("expected a rejection, got {:?}", other.is_ok()),
    }
}

#[test]
fn test_neither_shape_is_internal_error() {
    let result = parse_json_value(serde_json::Value::String("not an object".to_string()));
    match result {
        Err(OperationError::InternalError { message }) => {
            assert!(message.contains("neither"));
        }
        _ => panic!("expected an internal error"),
    }
    let result = parse_json_value(object(&[("Unrelated", "field")]));
    assert!(matches!(result, Err(OperationError::InternalError { .. })));
}

#[test]
fn test_success_shape_wins_over_rejection_shape() {
    let mut rejection = empty_rejection_fields();
    rejection.code = Some("200".to_string());
    rejection.host_id = Some("host".to_string());
    rejection.request_id = Some("req".to_string());
    let result = classify_caller_identity(identity_fields(), rejection);
    assert!(result.is_ok());
}

#[test]
fn test_incomplete_success_shape_is_not_ok() {
    let mut fields = identity_fields();
    fields.arn = None;
    assert!(decode_caller_identity(fields).is_none());
    let result = classify_caller_identity(
        CallerIdentityFields {
            identity_type: None,
            request_id: None,
            account_id: None,
            principal_id: None,
            user_id: None,
            arn: None,
            role_id: None,
        },
        empty_rejection_fields(),
    );
    assert!(matches!(result, Err(OperationError::InternalError { .. })));
}

#[test]
fn test_decode_rejection_requires_three_fields() {
    let mut fields = empty_rejection_fields();
    fields.code = Some("Forbidden".to_string());
    fields.host_id = Some("host".to_string());
    assert!(decode_rejection(RejectionFields { ..empty_rejection_fields() }).is_none());
    // request_id still missing
    let partial = RejectionFields { request_id: None, ..fields };
    assert!(decode_rejection(partial).is_none());
}
