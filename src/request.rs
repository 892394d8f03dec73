//! Outgoing requests: a builder that collects the method, URL, query
//! parameters, body and authentication, and signs OAuth 1.0a requests as
//! its last step.
use vstd::prelude::*;
use crate::keypair::KeyPair;
use crate::keyval::{insert_entry, urlencoded, Entry, KeyVal};
use crate::signature::{
    base64_encode, base64_of, decimal_of, header_spec, random_nonce, signed_params, u64_to_decimal,
    unix_seconds, HttpMethod, OAuth, OAuthAddons, OAuthView,
};

verus! {

/// The two header-only authentication schemes.
#[derive(Debug, Clone, Copy, PartialEq, Eq)]
pub enum AuthType {
    /// `Bearer <token>`.
    Bearer,
    /// `Basic base64(<id>:<secret>)`; the value given is `<id>:<secret>`.
    Basic,
}

/// How a request authenticates; exactly one mode is active.
#[derive(Debug)]
pub enum Auth {
    NoAuth,
    Header(AuthType, String),
    /// Signed at build time over the final request.
    OAuth1 {
        consumer: KeyPair,
        token: Option<KeyPair>,
        addons: OAuthAddons,
        nonce: String,
        timestamp: String,
    },
}

/// A request ready to be sent.
#[derive(Debug)]
pub struct OutgoingRequest {
    pub method: HttpMethod,
    pub uri: String,
    pub headers: Vec<(String, String)>,
    pub body: Option<String>,
}

/// A request being assembled.
#[derive(Debug)]
pub struct RequestBuilder {
    method: HttpMethod,
    url: String,
    query: KeyVal,
    auth: Auth,
    body: Option<(String, String)>,
}

/// What a builder holds, as plain values.
pub struct RequestBuilderView {
    pub method: HttpMethod,
    pub url: Seq<char>,
    pub query: Seq<Entry>,
    pub body: Option<(Seq<char>, Seq<char>)>,
}

impl View for RequestBuilder {
    type V = RequestBuilderView;

    closed spec fn view(&self) -> RequestBuilderView {
        RequestBuilderView {
            method: self.method,
            url: self.url@,
            query: self.query@,
            body: match self.body {
                Some(b) => Some((b.0@, b.1@)),
                None => None,
            },
        }
    }
}

/// The URL with its query string, where there are parameters.
pub open spec fn uri_spec(url: Seq<char>, query: Seq<Entry>) -> Seq<char> {
    if query.len() == 0 {
        url
    } else {
        url.push('?') + urlencoded(query)
    }
}

/// The `Authorization` value of a header scheme.
pub open spec fn auth_value(t: AuthType, value: Seq<char>) -> Seq<char> {
    match t {
        AuthType::Bearer => "Bearer "@ + value,
        AuthType::Basic => "Basic "@ + base64_of(vstd::utf8::encode_utf8(value)),
    }
}

/// The view of an OAuth 1.0a signing request.
pub open spec fn oauth_view(
    consumer: KeyPair,
    token: Option<KeyPair>,
    addons: OAuthAddons,
    nonce: String,
    timestamp: String,
    method: HttpMethod,
) -> OAuthView {
    OAuthView {
        consumer_key: consumer.key@,
        consumer_secret: consumer.secret@,
        token: match token {
            Some(t) => Some((t.key@, t.secret@)),
            None => None,
        },
        callback: addons.spec_callback(),
        nonce: nonce@,
        timestamp: timestamp@,
        method: method.spec_name(),
    }
}

/// The header views of a request.
pub open spec fn header_views(h: Seq<(String, String)>) -> Seq<(Seq<char>, Seq<char>)> {
    h.map_values(|p: (String, String)| (p.0@, p.1@))
}

impl RequestBuilder {
    pub fn new(method: HttpMethod, url: String) -> (r: Self)
        ensures
            r@.method == method,
            r@.url == url@,
            r@.query == Seq::<Entry>::empty(),
            r@.body is None,
            r.spec_auth() is NoAuth,
    {
        RequestBuilder { method, url, query: KeyVal::new(), auth: Auth::NoAuth, body: None }
    }

    /// The authentication mode chosen so far.
    pub closed spec fn spec_auth(&self) -> Auth {
        self.auth
    }

    pub fn with_query(self, key: String, val: String) -> (r: Self)
        ensures
            r@.query == insert_entry(self@.query, key@, val@),
            r@.method == self@.method && r@.url == self@.url && r@.body == self@.body,
            r.spec_auth() == self.spec_auth(),
    {
        let RequestBuilder { method, url, query, auth, body } = self;
        RequestBuilder { method, url, query: query.add_keyval(key, val), auth, body }
    }

    /// Adds every parameter of `params`, in its order.
    pub fn add_query_params(self, params: KeyVal) -> (r: Self)
        ensures
            r@.query == crate::keyval::insert_all(self@.query, params@),
            r@.method == self@.method && r@.url == self@.url && r@.body == self@.body,
            r.spec_auth() == self.spec_auth(),
    {
        let RequestBuilder { method, url, query, auth, body } = self;
        let list = params.into_pairs();
        RequestBuilder { method, url, query: query.add_list_keyval(list), auth, body }
    }

    /// Authenticates with a header; replaces any earlier mode.
    pub fn with_auth(self, auth_type: AuthType, value: String) -> (r: Self)
        ensures
            r@ == self@,
            r.spec_auth() == Auth::Header(auth_type, value),
    {
        let RequestBuilder { method, url, query, auth: _, body } = self;
        RequestBuilder { method, url, query, auth: Auth::Header(auth_type, value), body }
    }

    /// Signs the request with OAuth 1.0a when it is built; replaces any
    /// earlier mode.
    pub fn with_oauth1(
        self,
        consumer: KeyPair,
        token: Option<KeyPair>,
        addons: OAuthAddons,
        nonce: String,
        timestamp: String,
    ) -> (r: Self)
        ensures
            r@ == self@,
            r.spec_auth() == (Auth::OAuth1 { consumer, token, addons, nonce, timestamp }),
    {
        let RequestBuilder { method, url, query, auth: _, body } = self;
        RequestBuilder {
            method,
            url,
            query,
            auth: Auth::OAuth1 { consumer, token, addons, nonce, timestamp },
            body,
        }
    }

    /// Signs the request with OAuth 1.0a when it is built, with a fresh
    /// random nonce and the current time; `None` where the clock is set
    /// before the Unix epoch.
    pub fn with_fresh_oauth1(self, consumer: KeyPair, token: Option<KeyPair>, addons: OAuthAddons) -> (r:
        Option<Self>)
        ensures
            match r {
                Some(b) => b@ == self@ && b.spec_auth() is OAuth1 && (exists|t: nat|
                    b.spec_auth()->timestamp@ == decimal_of(t)) && b.spec_auth()->nonce@.len() == 32
                    && b.spec_auth()->consumer == consumer && b.spec_auth()->token == token
                    && b.spec_auth()->addons == addons,
                None => true,
            },
    {
        match unix_seconds() {
            Some(t) => {
                let nonce = random_nonce();
                let timestamp = u64_to_decimal(t);
                assert(timestamp@ == decimal_of(t as nat));
                Some(self.with_oauth1(consumer, token, addons, nonce, timestamp))
            },
            None => None,
        }
    }

    /// Sets the body and its content type.
    pub fn with_body(self, body: String, content_type: String) -> (r: Self)
        ensures
            r@.body == Some((body@, content_type@)),
            r@.method == self@.method && r@.url == self@.url && r@.query == self@.query,
            r.spec_auth() == self.spec_auth(),
    {
        let RequestBuilder { method, url, query, auth, body: _ } = self;
        RequestBuilder { method, url, query, auth, body: Some((body, content_type)) }
    }

    /// The request: the URL with its query string, the `Authorization`
    /// header of the chosen mode (an OAuth 1.0a signature is made here, over
    /// the final query parameters), then the `Content-Type` of a body.
    pub fn build_request(self) -> (r: OutgoingRequest)
        ensures
            r.method == self@.method,
            r.uri@ == uri_spec(self@.url, self@.query),
            r.body is Some <==> self@.body is Some,
            r.body is Some ==> r.body->0@ == (self@.body->0).0,
            header_views(r.headers@) == match self.spec_auth() {
                Auth::NoAuth => Seq::empty(),
                Auth::Header(t, v) => seq![("Authorization"@, auth_value(t, v@))],
                Auth::OAuth1 { consumer, token, addons, nonce, timestamp } => seq![
                    (
                        "Authorization"@,
                        "OAuth "@ + header_spec(
                            signed_params(
                                oauth_view(consumer, token, addons, nonce, timestamp, self@.method),
                                self@.url,
                                self@.query,
                            ),
                        ),
                    ),
                ],
            } + match self@.body {
                Some(b) => seq![("Content-Type"@, b.1)],
                None => Seq::empty(),
            },
    {
        let RequestBuilder { method, url, query, auth, body } = self;
        let ghost url_v = url@;
        let mut uri = url.clone();
        if query.len() > 0 {
            uri.append("?");
            let q = query.to_urlencode();
            uri.append(q.as_str());
            proof {
                reveal_strlit("?");
            }
        }
        assert(uri@ =~= uri_spec(url_v, query@));
        let mut headers: Vec<(String, String)> = Vec::new();
        match auth {
            Auth::NoAuth => {},
            Auth::Header(t, v) => {
                let value = match t {
                    AuthType::Bearer => "Bearer ".to_owned().concat(v.as_str()),
                    AuthType::Basic => {
                        let encoded = base64_encode(v.as_str().as_bytes());
                        "Basic ".to_owned().concat(encoded.as_str())
                    },
                };
                headers.push(("Authorization".to_owned(), value));
            },
            Auth::OAuth1 { consumer, token, addons, nonce, timestamp } => {
                let o = OAuth::new_at(consumer, token, addons, method, nonce, timestamp);
                let signed = o.generate_signature_with(url, &query);
                let value = "OAuth ".to_owned().concat(signed.to_header_string().as_str());
                headers.push(("Authorization".to_owned(), value));
            },
        }
        let ghost auth_headers = header_views(headers@);
        let body_text = match body {
            Some((text, content_type)) => {
                headers.push(("Content-Type".to_owned(), content_type));
                Some(text)
            },
            None => None,
        };
        proof {
            assert(header_views(headers@) =~= auth_headers + match self@.body {
                Some(b) => seq![("Content-Type"@, b.1)],
                None => Seq::<(Seq<char>, Seq<char>)>::empty(),
            });
        }
        OutgoingRequest { method, uri, headers, body: body_text }
    }
}

} // verus!
