use twitar::authorize::{authorize_url, Scope};
use twitar::errors::TError;
use twitar::gen_pkce::Pkce;
use twitar::keypair::KeyPair;
use twitar::keyval::KeyVal;
use twitar::redirect::{
    code_exchange_body, refresh_body, route_callback, v1_access_from_body, AccessToken, CallbackAction,
};
use twitar::request::{AuthType, RequestBuilder};
use twitar::signature::{HttpMethod, OAuthAddons};
use twitar::tweets::{chunk_ids, collect_results, PostIds, TweetType, TwitterResponseData, TwitterResponseHashData};

fn ids(v: &[&str]) -> Vec<String> {
    v.iter().map(|s| s.to_string()).collect()
}

fn kv(v: &[(&str, &str)]) -> KeyVal {
    KeyVal::new().add_list_keyval(v.iter().map(|(k, v)| (k.to_string(), v.to_string())).collect())
}

#[test]
fn delete_request_is_accepted() {
    let p = PostIds::parse(vec![
        ("tweets".to_string(), ids(&["1", "2"])),
        ("rts".to_string(), ids(&["3"])),
    ])
    .expect("valid");
    assert_eq!(
        p.0,
        vec![
            ("3".to_string(), TweetType::Rts),
            ("1".to_string(), TweetType::Tweets),
            ("2".to_string(), TweetType::Tweets),
        ]
    );
}

#[test]
fn delete_request_with_duplicate_is_rejected() {
    let r = PostIds::parse(vec![
        ("tweets".to_string(), ids(&["1", "1"])),
        ("rts".to_string(), ids(&["3"])),
    ]);
    assert!(matches!(r, Err(TError::ValidationError(_))));
}

#[test]
fn delete_request_over_fifty_is_rejected() {
    let tweets: Vec<String> = (0..26).map(|i| format!("t{}", i)).collect();
    let rts: Vec<String> = (0..25).map(|i| format!("r{}", i)).collect();
    let r = PostIds::parse(vec![("tweets".to_string(), tweets), ("rts".to_string(), rts)]);
    assert!(matches!(r, Err(TError::ValidationError(_))));
}

#[test]
fn delete_request_of_fifty_is_accepted() {
    let tweets: Vec<String> = (0..25).map(|i| format!("t{}", i)).collect();
    let rts: Vec<String> = (0..25).map(|i| format!("r{}", i)).collect();
    let p = PostIds::parse(vec![("tweets".to_string(), tweets), ("rts".to_string(), rts)]).expect("valid");
    assert_eq!(p.0.len(), 50);
}

#[test]
fn delete_request_with_empty_id_or_missing_list_is_rejected() {
    let r = PostIds::parse(vec![("tweets".to_string(), ids(&[""])), ("rts".to_string(), vec![])]);
    assert!(matches!(r, Err(TError::ValidationError(_))));
    let r = PostIds::parse(vec![("tweets".to_string(), ids(&["1"]))]);
    assert!(matches!(r, Err(TError::ValidationError(_))));
}

#[test]
fn v1_callback_with_wrong_token_is_not_exchanged() {
    let params = kv(&[("oauth_token", "forged"), ("oauth_verifier", "v")]);
    let r = route_callback(&params, Some("issued".to_string()), "st".to_string());
    assert!(matches!(r, CallbackAction::BadRequest));
}

#[test]
fn v1_callback_with_stored_token_is_exchanged() {
    let params = kv(&[("oauth_token", "issued"), ("oauth_verifier", "v")]);
    match route_callback(&params, Some("issued".to_string()), "st".to_string()) {
        CallbackAction::ExchangeV1 { oauth_token, verifier } => {
            assert_eq!(oauth_token, "issued");
            assert_eq!(verifier, "v");
        }
        other => panic!("unexpected {:?}", other),
    }
}

#[test]
fn v2_callback_routes_on_state() {
    let params = kv(&[("state", "st"), ("code", "c0de")]);
    match route_callback(&params, None, "st".to_string()) {
        CallbackAction::ExchangeV2 { code } => assert_eq!(code, "c0de"),
        other => panic!("unexpected {:?}", other),
    }
    assert!(matches!(route_callback(&params, None, "other".to_string()), CallbackAction::BadRequest));
}

#[test]
fn denied_callback() {
    let params = kv(&[("denied", "tok")]);
    assert!(matches!(route_callback(&params, None, "st".to_string()), CallbackAction::Denied));
    assert!(matches!(route_callback(&KeyVal::new(), None, "st".to_string()), CallbackAction::BadRequest));
}

#[test]
fn validate_state_checks_equality() {
    let t = AccessToken { state: "s".to_string(), code: "c".to_string() };
    assert!(t.clone().validate_state("s".to_string()).is_ok());
    assert!(matches!(t.validate_state("x".to_string()), Err(TError::InvalidCredentialError(_))));
}

#[test]
fn v1_access_answer() {
    let a = v1_access_from_body("oauth_token=t&oauth_token_secret=s&user_id=7&screen_name=n".to_string())
        .expect("complete");
    assert_eq!((a.oauth_token.as_str(), a.oauth_token_secret.as_str(), a.user_id.as_str()), ("t", "s", "7"));
    assert!(v1_access_from_body("oauth_token=t&user_id=7".to_string()).is_err());
    assert!(v1_access_from_body("garbage".to_string()).is_err());
}

#[test]
fn token_request_bodies() {
    assert_eq!(
        code_exchange_body("c d".to_string(), "cid".to_string(), "https://x.y/cb".to_string(), "ver".to_string()),
        "code=c%20d&grant_type=authorization_code&client_id=cid&redirect_uri=https%3A%2F%2Fx.y%2Fcb&code_verifier=ver"
    );
    assert_eq!(
        refresh_body("cid".to_string(), "r/t".to_string()),
        "grant_type=refresh_token&client_id=cid&refresh_token=r%2Ft"
    );
}

#[test]
fn fan_out_keeps_successes_only() {
    let results: Vec<(TweetType, Result<u32, TError>)> = vec![
        (TweetType::Tweets, Ok(1)),
        (TweetType::Likes, Err(TError::TransportFailure)),
        (TweetType::Rts, Ok(3)),
    ];
    assert_eq!(collect_results(results), vec![(TweetType::Tweets, 1), (TweetType::Rts, 3)]);
}

#[test]
fn ids_are_batched_by_ten() {
    let all: Vec<String> = (0..25).map(|i| i.to_string()).collect();
    let batches = chunk_ids(&all);
    assert_eq!(batches.len(), 3);
    assert_eq!(batches[0], all[0..10].to_vec());
    assert_eq!(batches[1], all[10..20].to_vec());
    assert_eq!(batches[2], all[20..25].to_vec());
    assert!(chunk_ids(&vec![]).is_empty());
    assert_eq!(chunk_ids(&all[0..10].to_vec()).len(), 1);
}

#[test]
fn timeline_posts_are_separated() {
    let mut data = vec![];
    for i in 0..11 {
        data.push(kv(&[("id", &format!("h{}", i)), ("text", "head")]));
    }
    data.push(kv(&[("id", "1"), ("text", "hello")]));
    data.push(kv(&[("id", "2"), ("text", "RT @bob: hi")]));
    data.push(kv(&[("id", "3"), ("text", "R T")]));
    let page = TwitterResponseData { data, meta: kv(&[("result_count", "14")]) };
    let lists = page.separate_tweets_from_rts(true).expect("complete posts");
    assert_eq!(lists, vec![("tweets".to_string(), ids(&["1", "3"])), ("rts".to_string(), ids(&["2"]))]);
    let all = page.separate_tweets_from_rts(false).expect("complete posts");
    assert_eq!(all[0].1.len(), 13);
    assert_eq!(page.get_ids().expect("ids").len(), 14);
    assert_eq!(page.parse_metadata().get("result_count"), Some(&"14".to_string()));
    let broken = TwitterResponseData { data: vec![kv(&[("id", "1")])], meta: KeyVal::new() };
    assert!(broken.separate_tweets_from_rts(false).is_none());
}

#[test]
fn single_object_answer() {
    let d = TwitterResponseHashData { data: kv(&[("id", "42"), ("username", "bob")]) }.into_one_dict();
    assert_eq!(d.get("id"), Some(&"42".to_string()));
}

#[test]
fn pkce_value_is_url_safe() {
    assert_eq!(Pkce::from_challenge("ab+c/d=".to_string()).as_string(), "ab-c_d");
    assert_eq!(Pkce::from_challenge("".to_string()).as_string(), "");
    let p = Pkce::new().as_string();
    assert_eq!(p.len(), 42);
    assert!(p.chars().all(|c| c.is_ascii_alphanumeric() || c == '-' || c == '_'));
}

#[test]
fn scopes_are_space_separated() {
    assert_eq!(Scope::with_scopes(vec![Scope::ReadTweet, Scope::OfflineAccess]), "tweet.read offline.access");
}

#[test]
fn authorize_url_carries_plain_challenge() {
    let u = authorize_url("cid".to_string(), "https://x.y/cb".to_string(), "st".to_string(), "pk".to_string());
    assert_eq!(
        u,
        "https://twitter.com/i/oauth2/authorize?response_type=code&client_id=cid&redirect_uri=https%3A%2F%2Fx.y%2Fcb\
&scope=tweet.read%20users.read%20follows.read%20follows.write%20offline.access%20tweet.write%20like.write%20like.read\
&state=st&code_challenge=pk&code_challenge_method=plain"
    );
}

#[test]
fn builder_bearer_and_query() {
    let r = RequestBuilder::new(HttpMethod::Get, "https://api.twitter.com/2/users/1/tweets".to_string())
        .with_query("max_results".to_string(), "100".to_string())
        .with_auth(AuthType::Bearer, "tok".to_string())
        .build_request();
    assert_eq!(r.uri, "https://api.twitter.com/2/users/1/tweets?max_results=100");
    assert_eq!(r.headers, vec![("Authorization".to_string(), "Bearer tok".to_string())]);
    assert_eq!(r.body, None);
}

#[test]
fn builder_basic_auth_and_body() {
    let r = RequestBuilder::new(HttpMethod::Post, "https://api.twitter.com/2/oauth2/token".to_string())
        .with_auth(AuthType::Basic, "my-client:my secret".to_string())
        .with_body("a=1".to_string(), "application/x-www-form-urlencoded".to_string())
        .build_request();
    assert_eq!(r.uri, "https://api.twitter.com/2/oauth2/token");
    assert_eq!(
        r.headers,
        vec![
            ("Authorization".to_string(), "Basic bXktY2xpZW50Om15IHNlY3JldA==".to_string()),
            ("Content-Type".to_string(), "application/x-www-form-urlencoded".to_string()),
        ]
    );
    assert_eq!(r.body, Some("a=1".to_string()));
}

#[test]
fn builder_signs_oauth1_last() {
    let r = RequestBuilder::new(HttpMethod::Post, "https://api.twitter.com/oauth/request_token".to_string())
        .with_oauth1(
            KeyPair::new("ck123".to_string(), "cs secret".to_string()),
            None,
            OAuthAddons::Callback("https://example.com/cb?x=1".to_string()),
            "abcdef0123456789abcdef0123456789".to_string(),
            "1700000000".to_string(),
        )
        .build_request();
    assert_eq!(r.headers.len(), 1);
    assert!(r.headers[0].1.starts_with("OAuth oauth_callback="));
    assert!(r.headers[0].1.contains("oauth_signature=\"O2l%2Fv0%2Fto04iy3LNeYuveGemaj0%3D\""));
}
