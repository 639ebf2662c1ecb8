use aliyun_sdk::client::{AliyunClient, STSClient};

#[test]
fn test_new_keeps_credentials() {
    let client = AliyunClient::new("id".to_string(), "secret".to_string());
    assert_eq!(client.access_key_id, "id");
    assert_eq!(client.access_key_secret, "secret");
}

#[test]
fn test_build_request_url_golden_vector() {
    // Computed independently with the documented pipeline for these fixed
    // credentials, nonce and timestamp.
    let client = AliyunClient::new("testid".to_string(), "testsecret".to_string());
    let params = aliyun_sdk::services::sts::get_caller_identity();
    let url = client.build_request_url(
        "sts.aliyuncs.com",
        params,
        "3ee8c1b8-83d3-44af-a94f-4e0ad82fd6cf",
        "2015-01-09T12:00:00Z",
    );
    let expected = "https://sts.aliyuncs.com?AccessKeyId=testid&Action=GetCallerIdentity&Format=JSON&Signature=1CqXZ0vRfLgWLS%2BLUHl%2BpQ6%2Biis%3D&SignatureMethod=HMAC-SHA1&SignatureNonce=3ee8c1b8-83d3-44af-a94f-4e0ad82fd6cf&SignatureVersion=1.0&Timestamp=2015-01-09T12%3A00%3A00Z&Version=2015-04-01";
    assert_eq!(url, expected.as_bytes().to_vec());
}

#[test]
fn test_build_request_url_is_deterministic() {
    let client = AliyunClient::new("testid".to_string(), "testsecret".to_string());
    let one = client.build_request_url(
        "sts.aliyuncs.com",
        aliyun_sdk::services::sts::get_caller_identity(),
        "fixed-nonce",
        "2015-01-09T12:00:00Z",
    );
    let two = client.build_request_url(
        "sts.aliyuncs.com",
        aliyun_sdk::services::sts::get_caller_identity(),
        "fixed-nonce",
        "2015-01-09T12:00:00Z",
    );
    assert_eq!(one, two);
}

#[test]
fn test_caller_supplied_access_key_wins() {
    let client = AliyunClient::new("clientid".to_string(), "secret".to_string());
    let mut params = aliyun_sdk::params::ParamMap::new();
    params.insert(b"AccessKeyId".to_vec(), b"callerid".to_vec());
    client.add_common_params(&mut params, "n", "t");
    assert_eq!(params.get(b"AccessKeyId"), Some(&b"callerid".to_vec()));
}

#[test]
fn test_nonce_and_timestamp_always_overwritten() {
    let client = AliyunClient::new("id".to_string(), "secret".to_string());
    let mut params = aliyun_sdk::params::ParamMap::new();
    params.insert(b"SignatureNonce".to_vec(), b"stale".to_vec());
    params.insert(b"Timestamp".to_vec(), b"stale".to_vec());
    client.add_common_params(&mut params, "fresh-nonce", "2015-01-09T12:00:00Z");
    assert_eq!(params.get(b"SignatureNonce"), Some(&b"fresh-nonce".to_vec()));
    assert_eq!(params.get(b"Timestamp"), Some(&b"2015-01-09T12:00:00Z".to_vec()));
}

#[test]
fn test_signed_request_url_shape() {
    // Draws a real nonce and timestamp; only the shape is predictable.
    let client = AliyunClient::new("testid".to_string(), "testsecret".to_string());
    let url = client.signed_request_url(
        "sts.aliyuncs.com",
        aliyun_sdk::services::sts::get_caller_identity(),
    );
    let url = String::from_utf8(url).unwrap();
    assert!(url.starts_with("https://sts.aliyuncs.com?AccessKeyId=testid&Action=GetCallerIdentity"));
    assert!(url.contains("&Signature="));
    assert!(url.contains("&SignatureNonce="));
    assert!(url.contains("&Timestamp="));
}

#[test]
fn test_fresh_nonce_shape() {
    let one = aliyun_sdk::client::fresh_nonce();
    let two = aliyun_sdk::client::fresh_nonce();
    assert_ne!(one, two);
    for nonce in [one, two] {
        let chars: Vec<char> = nonce.chars().collect();
        assert_eq!(chars.len(), 36);
        for (i, c) in chars.iter().enumerate() {
            if i == 8 || i == 13 || i == 18 || i == 23 {
                assert_eq!(*c, '-');
            } else {
                assert!(c.is_ascii_hexdigit() && !c.is_ascii_uppercase());
            }
        }
    }
}

#[test]
fn test_utc_timestamp_shape() {
    let ts = aliyun_sdk::client::utc_timestamp();
    let b = ts.as_bytes();
    assert_eq!(b.len(), 20);
    for (i, c) in b.iter().enumerate() {
        match i {
            4 | 7 => assert_eq!(*c, b'-'),
            10 => assert_eq!(*c, b'T'),
            13 | 16 => assert_eq!(*c, b':'),
            19 => assert_eq!(*c, b'Z'),
            _ => assert!(c.is_ascii_digit()),
        }
    }
}

#[test]
fn test_sts_chain_calling() {
    // The identity-service handle borrows the parent client.
    let client = AliyunClient::new("id".to_string(), "secret".to_string());
    let sts = client.sts();
    assert_eq!(sts.client.access_key_id, "id");
    let sts2 = STSClient::new(&client);
    assert_eq!(sts2.client.access_key_secret, "secret");
}
