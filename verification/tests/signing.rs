use oauth_sign::clock::u64_to_decimal;
use oauth_sign::config::{ConfigError, Credentials};
use oauth_sign::encode::percent_encode;
use oauth_sign::nonce::gen_nonce;
use oauth_sign::params::{authorization_header, collect_params, param_string, signing_key};
use oauth_sign::sign::{build_base_string, gen_signature, sign_request};

#[test]
fn test_percent_encode() {
    assert_eq!(
        percent_encode("Ladies + Gentlemen"),
        "Ladies%20%2B%20Gentlemen"
    );
    assert_eq!(
        percent_encode("An encoded string!"),
        "An%20encoded%20string%21"
    );
    assert_eq!(
        percent_encode("Dogs, Cats & Mice"),
        "Dogs%2C%20Cats%20%26%20Mice"
    );
    assert_eq!(percent_encode("\u{2603}"), "%E2%98%83");
}

#[test]
fn test_percent_encode_unreserved_untouched() {
    let s = "ABCxyz019-._~";
    assert_eq!(percent_encode(s), s);
}

#[test]
fn test_percent_encode_space_never_plus() {
    assert_eq!(percent_encode(" "), "%20");
    assert_eq!(percent_encode("a b"), "a%20b");
}

#[test]
fn test_percent_encode_reserved_punctuation() {
    // A generic query encoder would leave these unescaped.
    assert_eq!(percent_encode("!*'()"), "%21%2A%27%28%29");
}

#[test]
fn test_percent_encode_second_pass() {
    // Unreserved characters are never double-encoded; a second pass expands
    // only the `%` bytes of the first pass's output.
    let once = percent_encode("a b");
    assert_eq!(once, "a%20b");
    assert_eq!(percent_encode(&once), "a%2520b");
    let plain = percent_encode("abc-._~");
    assert_eq!(percent_encode(&plain), "abc-._~");
}

#[test]
fn test_u64_to_decimal() {
    assert_eq!(u64_to_decimal(0), "0");
    assert_eq!(u64_to_decimal(7), "7");
    assert_eq!(u64_to_decimal(1318622958), "1318622958");
    assert_eq!(u64_to_decimal(u64::MAX), "18446744073709551615");
}

#[test]
fn test_get_timestamp_is_decimal() {
    let ts = oauth_sign::clock::get_timestamp().expect("clock before epoch");
    assert!(!ts.is_empty());
    assert!(ts.chars().all(|c| c.is_ascii_digit()));
}

#[test]
fn test_gen_nonce_shape() {
    for _ in 0..100 {
        let n = gen_nonce();
        assert_eq!(n.len(), 20);
        assert!(n.chars().all(|c| c.is_ascii_alphanumeric()));
    }
}

#[test]
fn test_gen_nonce_no_repeats_in_sample() {
    let mut seen: Vec<String> = Vec::new();
    for _ in 0..100 {
        let n = gen_nonce();
        assert!(!seen.contains(&n));
        seen.push(n);
    }
}

#[test]
fn test_signing_key_plain() {
    assert_eq!(signing_key("consumersecret", "tokensecret"), "consumersecret&tokensecret");
}

#[test]
fn test_signing_key_encodes_secrets() {
    assert_eq!(signing_key("a b", "c&d"), "a%20b&c%26d");
}

#[test]
fn test_param_string_sorted() {
    let params = collect_params("ck", "tok", "1318622958", "abcNONCE");
    let ps = param_string(&params, "Hello Ladies + Gentlemen, a signed OAuth request!");
    assert_eq!(
        ps,
        "oauth_consumer_key=ck&oauth_nonce=abcNONCE&oauth_signature_method=HMAC-SHA1&\
         oauth_timestamp=1318622958&oauth_token=tok&oauth_version=1.0&\
         status=Hello%20Ladies%20%2B%20Gentlemen%2C%20a%20signed%20OAuth%20request%21"
    );
}

#[test]
fn test_build_base_string() {
    let base = build_base_string("https://example.com/a b", "x=1&y=2");
    assert_eq!(base, "POST&https%3A%2F%2Fexample.com%2Fa%20b&x%3D1%26y%3D2");
}

#[test]
fn test_gen_signature_known_vector() {
    // The worked HMAC-SHA1 example from the OAuth 1.0a community
    // documentation, signing a status update.
    let key = "kAcSOqF21Fu85e7zjz7ZN2U4ZRhfV3WpwPAoE3Z7kBw&LswwdoUaIvS8ltyTt5jkRh4J50vUPVVHtR2YPi5kE"
        .to_string();
    let url = "https://api.twitter.com/1/statuses/update.json";
    let params = "include_entities=true&oauth_consumer_key=xvz1evFS4wEEPTGEFPHBog&\
                  oauth_nonce=kYjzVBB8Y0ZFabxSWbWovY3uYSQ2pTgmZeNu2VS4cg&\
                  oauth_signature_method=HMAC-SHA1&oauth_timestamp=1318622958&\
                  oauth_token=370773112-GmHxMAgYyLbNEtIKZeRNFsMKPR9EyMZeS9weJAEb&\
                  oauth_version=1.0&\
                  status=Hello%20Ladies%20%2B%20Gentlemen%2C%20a%20signed%20OAuth%20request%21";
    let sig = gen_signature(key, url, params);
    assert_eq!(sig, "tnnArxj06cWHq44gCs1OSKk%2FjLY%3D");
}

#[test]
fn test_authorization_header_sorted_and_excludes_status() {
    let params = collect_params("ck", "tok", "1318622958", "abcNONCE");
    let header = authorization_header(&params, "SIG%2F");
    assert_eq!(
        header,
        "OAuth oauth_consumer_key=\"ck\", oauth_nonce=\"abcNONCE\", oauth_signature=\"SIG%2F\", \
         oauth_signature_method=\"HMAC-SHA1\", oauth_timestamp=\"1318622958\", \
         oauth_token=\"tok\", oauth_version=\"1.0\""
    );
    assert!(!header.contains("status"));
}

#[test]
fn test_sign_request_deterministic() {
    let creds = Credentials {
        consumer_key: "xvz1evFS4wEEPTGEFPHBog".to_string(),
        consumer_secret: "kAcSOqF21Fu85e7zjz7ZN2U4ZRhfV3WpwPAoE3Z7kBw".to_string(),
        access_token: "370773112-GmHxMAgYyLbNEtIKZeRNFsMKPR9EyMZeS9weJAEb".to_string(),
        access_token_secret: "LswwdoUaIvS8ltyTt5jkRh4J50vUPVVHtR2YPi5kE".to_string(),
    };
    let a = sign_request(
        &creds,
        "Hello Ladies + Gentlemen, a signed OAuth request!",
        "1318622958",
        "kYjzVBB8Y0ZFabxSWbWovY3uYSQ2pTgmZeNu2VS4cg",
        "https://api.twitter.com/1.1/statuses/update.json",
    );
    let b = sign_request(
        &creds,
        "Hello Ladies + Gentlemen, a signed OAuth request!",
        "1318622958",
        "kYjzVBB8Y0ZFabxSWbWovY3uYSQ2pTgmZeNu2VS4cg",
        "https://api.twitter.com/1.1/statuses/update.json",
    );
    assert_eq!(a, b);
    assert!(a.starts_with("OAuth oauth_consumer_key=\"xvz1evFS4wEEPTGEFPHBog\", "));
    assert!(a.contains("oauth_signature=\""));
    assert!(!a.contains("status"));
}

#[test]
fn test_from_fields_complete() {
    let r = Credentials::from_fields(
        Some("ck".to_string()),
        Some("cs".to_string()),
        Some("at".to_string()),
        Some("ats".to_string()),
    );
    let c = r.expect("all four fields were present");
    assert_eq!(c.consumer_key, "ck");
    assert_eq!(c.consumer_secret, "cs");
    assert_eq!(c.access_token, "at");
    assert_eq!(c.access_token_secret, "ats");
}

#[test]
fn test_from_fields_each_missing() {
    let r = Credentials::from_fields(
        None,
        Some("cs".to_string()),
        Some("at".to_string()),
        Some("ats".to_string()),
    );
    assert_eq!(r.err(), Some(ConfigError::MissingConsumerKey));
    let r = Credentials::from_fields(
        Some("ck".to_string()),
        None,
        Some("at".to_string()),
        Some("ats".to_string()),
    );
    assert_eq!(r.err(), Some(ConfigError::MissingConsumerSecret));
    let r = Credentials::from_fields(
        Some("ck".to_string()),
        Some("cs".to_string()),
        None,
        Some("ats".to_string()),
    );
    assert_eq!(r.err(), Some(ConfigError::MissingAccessToken));
    let r = Credentials::from_fields(
        Some("ck".to_string()),
        Some("cs".to_string()),
        Some("at".to_string()),
        None,
    );
    assert_eq!(r.err(), Some(ConfigError::MissingAccessTokenSecret));
}
