use forward_cache::auth::{check, is_valid, ApiKey};
use forward_cache::codec::{Base64String, DecodeError};

#[test]
fn open_mode_accepts_everything() {
    assert!(is_valid(&"anything".to_string(), &None));
    assert!(is_valid(&"".to_string(), &None));
    assert!(check(&Some("anything".to_string()), &None));
    assert!(check(&Some("".to_string()), &None));
    assert!(check(&None, &None));
}

#[test]
fn secret_accepts_only_exact_match() {
    let secret = Some("s3cret".to_string());
    assert!(is_valid(&"s3cret".to_string(), &secret));
    assert!(!is_valid(&"S3cret".to_string(), &secret));
    assert!(!is_valid(&"s3cret ".to_string(), &secret));
    assert!(!is_valid(&"".to_string(), &secret));
    assert!(check(&Some("s3cret".to_string()), &secret));
    assert!(!check(&Some("wrong".to_string()), &secret));
    assert!(!check(&None, &secret));
}

#[test]
fn key_from_request_needs_exactly_one_valid_header() {
    let secret = Some("s3cret".to_string());
    let none: Vec<String> = vec![];
    assert!(ApiKey::from_request(&none, &secret).is_none());
    let one = vec!["s3cret".to_string()];
    let key = ApiKey::from_request(&one, &secret).expect("accepted");
    assert_eq!(key.0, "s3cret");
    let bad = vec!["nope".to_string()];
    assert!(ApiKey::from_request(&bad, &secret).is_none());
    let two = vec!["s3cret".to_string(), "s3cret".to_string()];
    assert!(ApiKey::from_request(&two, &secret).is_none());
}

#[test]
fn key_from_param_follows_guard() {
    let secret = Some("s3cret".to_string());
    assert!(ApiKey::from_param(&"s3cret".to_string(), &secret).is_ok());
    assert!(ApiKey::from_param(&"nope".to_string(), &secret).is_err());
    assert!(ApiKey::from_param(&"whatever".to_string(), &None).is_ok());
}

#[test]
fn decode_example_url() {
    let got = Base64String::from_param(&"aHR0cDovL2V4YW1wbGUuY29t".to_string()).expect("decodes");
    assert_eq!(got.0, "http://example.com");
}

#[test]
fn decode_rejects_bad_alphabet() {
    let err = Base64String::from_param(&"!!!".to_string()).expect_err("rejected");
    assert_eq!(err, DecodeError::Base64);
    assert_ne!(err, DecodeError::Utf8);
}

#[test]
fn decode_rejects_bad_utf8_distinctly() {
    // "_w==" is valid URL-safe base64 for the single byte 0xff, not UTF-8
    let err = Base64String::from_param(&"_w==".to_string()).expect_err("rejected");
    assert_eq!(err, DecodeError::Utf8);
    assert_ne!(err, DecodeError::Base64);
}

#[test]
fn decode_round_trips_an_encoded_url() {
    let encoded = base64::encode_config("https://example.org/path?q=1", base64::URL_SAFE);
    let got = Base64String::from_param(&encoded).expect("decodes");
    assert_eq!(got.0, "https://example.org/path?q=1");
}

#[test]
fn decode_error_messages_differ() {
    assert_eq!(DecodeError::Base64.message(), "Decode Error");
    assert_eq!(DecodeError::Utf8.message(), "String Encode Error");
}
