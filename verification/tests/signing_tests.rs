use aliyun_sdk::client::AliyunClient;
use aliyun_sdk::signing::{calculate_signature, compute_signature};

// Reference values computed independently with the documented algorithm:
// HMAC-SHA1 over "GET&%2F&" + percent_encode(canonical), key secret + "&",
// base64-encoded.

#[test]
fn test_signer_golden_vector() {
    let signature = compute_signature(b"a=b", b"secret");
    assert_eq!(signature, b"TfYyzcK3OOPO3Yl2mUwft+zTULI=".to_vec());
}

#[test]
fn test_signer_empty_canonical() {
    // Even an empty canonical string signs the fixed method/path prefix.
    let signature = compute_signature(b"", b"secret");
    assert_eq!(signature.len(), 28);
    assert_ne!(signature, compute_signature(b"a=b", b"secret"));
}

#[test]
fn test_signature_depends_on_secret() {
    assert_ne!(
        compute_signature(b"a=b", b"secret"),
        compute_signature(b"a=b", b"secret2")
    );
}

#[test]
fn test_calculate_signature_for_assembled_request() {
    let client = AliyunClient::new("testid".to_string(), "testsecret".to_string());
    let mut params = aliyun_sdk::services::sts::get_caller_identity();
    client.add_common_params(
        &mut params,
        "3ee8c1b8-83d3-44af-a94f-4e0ad82fd6cf",
        "2015-01-09T12:00:00Z",
    );
    assert_eq!(
        params.canonical_string(),
        b"AccessKeyId=testid&Action=GetCallerIdentity&Format=JSON&SignatureMethod=HMAC-SHA1&SignatureNonce=3ee8c1b8-83d3-44af-a94f-4e0ad82fd6cf&SignatureVersion=1.0&Timestamp=2015-01-09T12%3A00%3A00Z&Version=2015-04-01".to_vec()
    );
    let signature = calculate_signature(&params, "testsecret");
    assert_eq!(signature, b"1CqXZ0vRfLgWLS+LUHl+pQ6+iis=".to_vec());
}
