use twitar::keypair::KeyPair;
use twitar::signature::{HttpMethod, OAuth, OAuthAddons, Params};

fn request_token_oauth() -> OAuth {
    OAuth::new_at(
        KeyPair::new("ck123".to_string(), "cs secret".to_string()),
        None,
        OAuthAddons::Callback("https://example.com/cb?x=1".to_string()),
        HttpMethod::Post,
        "abcdef0123456789abcdef0123456789".to_string(),
        "1700000000".to_string(),
    )
}

fn pairs(v: &[(&str, &str)]) -> Vec<(String, String)> {
    v.iter().map(|(k, v)| (k.to_string(), v.to_string())).collect()
}

#[test]
fn signs_request_token_step() {
    let signed = request_token_oauth()
        .generate_signature("https://api.twitter.com/oauth/request_token".to_string());
    assert_eq!(
        signed.params,
        pairs(&[
            ("oauth_callback", "https://example.com/cb?x=1"),
            ("oauth_consumer_key", "ck123"),
            ("oauth_nonce", "abcdef0123456789abcdef0123456789"),
            ("oauth_signature", "O2l/v0/to04iy3LNeYuveGemaj0="),
            ("oauth_signature_method", "HMAC-SHA1"),
            ("oauth_timestamp", "1700000000"),
            ("oauth_version", "1.0"),
        ])
    );
}

#[test]
fn signs_with_token_credential() {
    let oauth = OAuth::new_at(
        KeyPair::new(
            "xvz1evFS4wEEPTGEFPHBog".to_string(),
            "kAcSOqF21Fu85e7zjz7ZN2U4ZRhfV3WpwPAoE3Z7kBw".to_string(),
        ),
        Some(KeyPair::new(
            "370773112-GmHxMAgYyLbNEtIKZeRNFsMKPR9EyMZeS9weJAEb".to_string(),
            "LswwdoUaIvS8ltyTt5jkRh4J50vUPVVHtR2YPi5kE".to_string(),
        )),
        OAuthAddons::NoCallback,
        HttpMethod::Get,
        "kYjzVBB8Y0ZFabxSWbWovY3uYSQ2pTgmZeNu2VS4cg".to_string(),
        "1318622958".to_string(),
    );
    let signed = oauth.generate_signature(
        "https://api.twitter.com/1.1/account/verify_credentials.json".to_string(),
    );
    assert_eq!(
        signed.params,
        pairs(&[
            ("oauth_consumer_key", "xvz1evFS4wEEPTGEFPHBog"),
            ("oauth_nonce", "kYjzVBB8Y0ZFabxSWbWovY3uYSQ2pTgmZeNu2VS4cg"),
            ("oauth_signature", "Wl+fwPzf6UXKwhAtPH+BFle7RHM="),
            ("oauth_signature_method", "HMAC-SHA1"),
            ("oauth_timestamp", "1318622958"),
            ("oauth_token", "370773112-GmHxMAgYyLbNEtIKZeRNFsMKPR9EyMZeS9weJAEb"),
            ("oauth_version", "1.0"),
        ])
    );
}

#[test]
fn signing_is_deterministic() {
    let url = "https://api.twitter.com/oauth/request_token".to_string();
    let a = request_token_oauth().generate_signature(url.clone());
    let b = request_token_oauth().generate_signature(url);
    assert_eq!(a.params, b.params);
    assert_eq!(a.to_header_string(), b.to_header_string());
}

#[test]
fn header_string_quotes_encoded_values() {
    let signed = request_token_oauth()
        .generate_signature("https://api.twitter.com/oauth/request_token".to_string());
    assert_eq!(
        signed.to_header_string(),
        "oauth_callback=\"https%3A%2F%2Fexample.com%2Fcb%3Fx%3D1\", oauth_consumer_key=\"ck123\", \
oauth_nonce=\"abcdef0123456789abcdef0123456789\", oauth_signature=\"O2l%2Fv0%2Fto04iy3LNeYuveGemaj0%3D\", \
oauth_signature_method=\"HMAC-SHA1\", oauth_timestamp=\"1700000000\", oauth_version=\"1.0\""
    );
}

#[test]
fn fresh_request_has_nonce_and_timestamp() {
    let oauth = OAuth::new(
        KeyPair::new("k".to_string(), "s".to_string()),
        None,
        OAuthAddons::NoCallback,
        HttpMethod::Get,
    )
    .expect("clock after the epoch");
    let signed = oauth.generate_signature("https://example.com".to_string());
    let nonce = &signed.params.iter().find(|p| p.0 == "oauth_nonce").unwrap().1;
    let ts = &signed.params.iter().find(|p| p.0 == "oauth_timestamp").unwrap().1;
    assert_eq!(nonce.len(), 32);
    assert!(ts.parse::<u64>().unwrap() > 1_600_000_000);
}

#[test]
fn method_names_are_upper_case() {
    assert_eq!(HttpMethod::Get.as_str(), "GET");
    assert_eq!(HttpMethod::Delete.as_str(), "DELETE");
}

#[test]
fn params_builder() {
    let p = Params::new()
        .add_param("a".to_string(), "1".to_string())
        .add_opt_param("b".to_string(), None)
        .add_opt_param("c".to_string(), Some("3".to_string()));
    assert_eq!(p.as_keyval().copy().into_pairs(), pairs(&[("a", "1"), ("c", "3")]));
    assert_eq!(OAuthAddons::Callback("u".to_string()).with_callback(), Some("u".to_string()));
    assert_eq!(OAuthAddons::NoCallback.with_callback(), None);
}

fn documented_oauth() -> OAuth {
    OAuth::new_at(
        KeyPair::new(
            "xvz1evFS4wEEPTGEFPHBog".to_string(),
            "kAcSOqF21Fu85e7zjz7ZN2U4ZRhfV3WpwPAoE3Z7kBw".to_string(),
        ),
        Some(KeyPair::new(
            "370773112-GmHxMAgYyLbNEtIKZeRNFsMKPR9EyMZeS9weJAEb".to_string(),
            "LswwdoUaIvS8ltyTt5jkRh4J50vUPVVHtR2YPi5kE".to_string(),
        )),
        OAuthAddons::NoCallback,
        HttpMethod::Post,
        "kYjzVBB8Y0ZFabxSWbWovY3uYSQ2pTgmZeNu2VS4cg".to_string(),
        "1318622958".to_string(),
    )
}

#[test]
fn request_parameters_are_signed_in_sorted_order() {
    let params = twitar::keyval::KeyVal::new()
        .add_keyval("status".to_string(), "Hello Ladies + Gentlemen, a signed OAuth request!".to_string())
        .add_keyval("include_entities".to_string(), "true".to_string());
    let signed = documented_oauth().generate_signature_with(
        "https://api.twitter.com/1.1/statuses/update.json".to_string(),
        &params,
    );
    let sig = &signed.params.iter().find(|p| p.0 == "oauth_signature").unwrap().1;
    assert_eq!(sig, "hCtSmYh+iHYCEqBWrE7C7hYmtUk=");
    assert!(!signed.params.iter().any(|p| p.0 == "status"));
}

#[test]
fn builder_signs_its_query_parameters() {
    let r = twitar::request::RequestBuilder::new(
        HttpMethod::Post,
        "https://api.twitter.com/1.1/statuses/update.json".to_string(),
    )
    .with_query("include_entities".to_string(), "true".to_string())
    .with_query("status".to_string(), "Hello Ladies + Gentlemen, a signed OAuth request!".to_string())
    .with_oauth1(
        KeyPair::new(
            "xvz1evFS4wEEPTGEFPHBog".to_string(),
            "kAcSOqF21Fu85e7zjz7ZN2U4ZRhfV3WpwPAoE3Z7kBw".to_string(),
        ),
        Some(KeyPair::new(
            "370773112-GmHxMAgYyLbNEtIKZeRNFsMKPR9EyMZeS9weJAEb".to_string(),
            "LswwdoUaIvS8ltyTt5jkRh4J50vUPVVHtR2YPi5kE".to_string(),
        )),
        OAuthAddons::NoCallback,
        "kYjzVBB8Y0ZFabxSWbWovY3uYSQ2pTgmZeNu2VS4cg".to_string(),
        "1318622958".to_string(),
    )
    .build_request();
    assert_eq!(
        r.uri,
        "https://api.twitter.com/1.1/statuses/update.json?include_entities=true\
&status=Hello%20Ladies%20%2B%20Gentlemen%2C%20a%20signed%20OAuth%20request%21"
    );
    assert!(r.headers[0].1.contains("oauth_signature=\"hCtSmYh%2BiHYCEqBWrE7C7hYmtUk%3D\""));
}

#[test]
fn sort_orders_by_code_point() {
    let v: Vec<String> = vec!["b=1", "a=2", "a%20=0", "B=3"].into_iter().map(String::from).collect();
    assert_eq!(twitar::sort::sort_strings(&v), vec!["B=3", "a%20=0", "a=2", "b=1"]);
}
