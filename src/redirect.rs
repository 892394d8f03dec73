//! The decisions of the authorization flows: how a redirect callback is
//! routed, what the token requests carry, and what the provider's answers
//! yield.
use vstd::prelude::*;
use crate::errors::TError;
use crate::keyval::{entry_views, lookup, urlencode_pairs, urlencoded, Entry, KeyVal};

verus! {

/// The state and code of an OAuth 2.0 redirect.
#[derive(Debug, Clone)]
pub struct AccessToken {
    pub state: String,
    pub code: String,
}

impl AccessToken {
    /// The redirect itself where its state is the one issued, else
    /// `InvalidCredentialError`.
    pub fn validate_state(self, local_state: String) -> (r: Result<Self, TError>)
        ensures
            r is Ok <==> self.state@ == local_state@,
            r is Ok ==> r->Ok_0.state@ == self.state@ && r->Ok_0.code@ == self.code@,
            r is Err ==> r->Err_0 is InvalidCredentialError,
    {
        if !self.state.eq(&local_state) {
            return Err(
                TError::InvalidCredentialError(
                    "The state value obtained from the redirect uri does not match the local one".to_owned(),
                ),
            );
        }
        Ok(self)
    }
}

/// What to do with a redirect callback.
#[derive(Debug)]
pub enum CallbackAction {
    /// An OAuth 1.0a callback whose token is the one issued: exchange the
    /// verifier for permanent credentials.
    ExchangeV1 { oauth_token: String, verifier: String },
    /// An OAuth 2.0 callback whose state is the one issued: exchange the code.
    ExchangeV2 { code: String },
    /// The user refused access.
    Denied,
    /// None of the above.
    BadRequest,
}

/// The callback carries the OAuth 1.0a parameters.
pub open spec fn is_v1_callback(m: Seq<Entry>) -> bool {
    lookup(m, "oauth_token"@) is Some && lookup(m, "oauth_verifier"@) is Some
}

/// The callback carries the OAuth 2.0 parameters.
pub open spec fn is_v2_callback(m: Seq<Entry>) -> bool {
    lookup(m, "code"@) is Some && lookup(m, "state"@) is Some
}

/// An OAuth 1.0a callback whose token is the stored one.
pub open spec fn v1_accepted(m: Seq<Entry>, stored_token: Option<Seq<char>>) -> bool {
    is_v1_callback(m) && stored_token is Some && lookup(m, "oauth_token"@) == stored_token
}

/// An OAuth 2.0 callback (and no OAuth 1.0a one) whose state is the issued one.
pub open spec fn v2_accepted(m: Seq<Entry>, state: Seq<char>) -> bool {
    !is_v1_callback(m) && is_v2_callback(m) && lookup(m, "state"@) == Some(state)
}

/// Routes a redirect callback, given its query parameters, the request
/// token stored when the OAuth 1.0a flow began (if any) and the state
/// issued for the OAuth 2.0 flow. A token or state that does not match is
/// never exchanged: the callback then counts as denied where it says so,
/// and as a bad request otherwise.
pub fn route_callback(params: &KeyVal, stored_token: Option<String>, state: String) -> (r:
    CallbackAction)
    ensures
        r is ExchangeV1 <==> v1_accepted(params@, opt_seq(stored_token)),
        r is ExchangeV1 ==> Some(r->oauth_token@) == opt_seq(stored_token) && lookup(
            params@,
            "oauth_verifier"@,
        ) == Some(r->verifier@),
        r is ExchangeV2 <==> v2_accepted(params@, state@),
        r is ExchangeV2 ==> lookup(params@, "code"@) == Some(r->code@),
        r is Denied <==> !v1_accepted(params@, opt_seq(stored_token)) && !v2_accepted(params@, state@)
            && lookup(params@, "denied"@) is Some,
        lookup(params@, "oauth_token"@) != opt_seq(stored_token) ==> !(r is ExchangeV1),
{
    let v1 = params.get("oauth_token").is_some() && params.get("oauth_verifier").is_some();
    if v1 {
        match stored_token {
            Some(token) => {
                if params.validate("oauth_token".to_owned(), token.clone()) {
                    match params.get("oauth_verifier") {
                        Some(verifier) => {
                            return CallbackAction::ExchangeV1 {
                                oauth_token: token,
                                verifier: verifier.clone(),
                            };
                        },
                        None => {},
                    }
                }
            },
            None => {},
        }
    } else {
        let v2 = params.get("code").is_some() && params.get("state").is_some();
        if v2 && params.validate("state".to_owned(), state) {
            match params.get("code") {
                Some(code) => {
                    return CallbackAction::ExchangeV2 { code: code.clone() };
                },
                None => {},
            }
        }
    }
    if params.get("denied").is_some() {
        CallbackAction::Denied
    } else {
        CallbackAction::BadRequest
    }
}

/// An optional string as an optional view.
pub open spec fn opt_seq(o: Option<String>) -> Option<Seq<char>> {
    match o {
        Some(s) => Some(s@),
        None => None,
    }
}

/// The permanent OAuth 1.0a credentials the provider hands out.
#[derive(Debug, Clone)]
pub struct V1Access {
    pub oauth_token: String,
    pub oauth_token_secret: String,
    pub user_id: String,
}

/// Reads the provider's answer to the OAuth 1.0a access-token request: an
/// `a=1&b=2` body that must hold `oauth_token`, `oauth_token_secret` and
/// `user_id`, else `InvalidCredentialError`.
pub fn v1_access_from_body(body: String) -> (r: Result<V1Access, TError>)
    ensures
        r is Ok <==> KeyVal::ampersand_result(body@) is Some && {
            let m = KeyVal::ampersand_result(body@)->0;
            lookup(m, "oauth_token"@) is Some && lookup(m, "oauth_token_secret"@) is Some && lookup(
                m,
                "user_id"@,
            ) is Some
        },
        r is Ok ==> {
            let m = KeyVal::ampersand_result(body@)->0;
            &&& lookup(m, "oauth_token"@) == Some(r->Ok_0.oauth_token@)
            &&& lookup(m, "oauth_token_secret"@) == Some(r->Ok_0.oauth_token_secret@)
            &&& lookup(m, "user_id"@) == Some(r->Ok_0.user_id@)
        },
        r is Err ==> r->Err_0 is InvalidCredentialError,
{
    let missing = TError::InvalidCredentialError("Required keys are not present".to_owned());
    match KeyVal::string_to_keyval(body) {
        Some(map) => {
            let token = map.get("oauth_token");
            let secret = map.get("oauth_token_secret");
            let user = map.get("user_id");
            match (token, secret, user) {
                (Some(t), Some(s), Some(u)) => Ok(
                    V1Access { oauth_token: t.clone(), oauth_token_secret: s.clone(), user_id: u.clone() },
                ),
                _ => Err(missing),
            }
        },
        None => Err(missing),
    }
}

/// The grant types of the OAuth 2.0 token endpoint.
#[derive(Debug, Clone, Copy, PartialEq, Eq)]
pub enum GrantType {
    Authorization,
    Refresh,
}

impl GrantType {
    pub open spec fn spec_name(self) -> Seq<char> {
        match self {
            GrantType::Authorization => "authorization_code"@,
            GrantType::Refresh => "refresh_token"@,
        }
    }

    pub fn as_str(&self) -> (r: &'static str)
        ensures
            r@ == self.spec_name(),
    {
        match self {
            GrantType::Authorization => "authorization_code",
            GrantType::Refresh => "refresh_token",
        }
    }
}

/// The form body that exchanges an authorization code and the PKCE
/// verifier for a token pair.
pub fn code_exchange_body(code: String, client_id: String, redirect_uri: String, code_verifier: String) -> (r:
    String)
    ensures
        r@ == urlencoded(
            seq![
                ("code"@, code@),
                ("grant_type"@, "authorization_code"@),
                ("client_id"@, client_id@),
                ("redirect_uri"@, redirect_uri@),
                ("code_verifier"@, code_verifier@),
            ],
        ),
{
    let pairs = vec![
        ("code".to_owned(), code),
        ("grant_type".to_owned(), GrantType::Authorization.as_str().to_owned()),
        ("client_id".to_owned(), client_id),
        ("redirect_uri".to_owned(), redirect_uri),
        ("code_verifier".to_owned(), code_verifier),
    ];
    let r = urlencode_pairs(&pairs);
    assert(entry_views(pairs@) =~= seq![
        ("code"@, code@),
        ("grant_type"@, "authorization_code"@),
        ("client_id"@, client_id@),
        ("redirect_uri"@, redirect_uri@),
        ("code_verifier"@, code_verifier@),
    ]);
    r
}

/// The form body that trades a refresh token for a new token pair.
pub fn refresh_body(client_id: String, refresh_token: String) -> (r: String)
    ensures
        r@ == urlencoded(
            seq![
                ("grant_type"@, "refresh_token"@),
                ("client_id"@, client_id@),
                ("refresh_token"@, refresh_token@),
            ],
        ),
{
    let pairs = vec![
        ("grant_type".to_owned(), GrantType::Refresh.as_str().to_owned()),
        ("client_id".to_owned(), client_id),
        ("refresh_token".to_owned(), refresh_token),
    ];
    let r = urlencode_pairs(&pairs);
    assert(entry_views(pairs@) =~= seq![
        ("grant_type"@, "refresh_token"@),
        ("client_id"@, client_id@),
        ("refresh_token"@, refresh_token@),
    ]);
    r
}

} // verus!
