//! OAuth 1.0a request signing with HMAC-SHA1.
use vstd::prelude::*;
use hmac::Mac;
use crate::keypair::KeyPair;
use crate::keyval::{encode_pairs, encoded_pair, entry_views, insert_entry, Entry, KeyVal};
use crate::sort::{sort_spec, sort_strings};
use crate::percent::{encode_component, pct_encode};
use crate::text::{join_seq_spec, join_spec, join_str, join_with, views};

verus! {

/// What HMAC-SHA1 gives for a key and a message.
pub uninterp spec fn hmac_sha1_of(key: Seq<u8>, msg: Seq<u8>) -> Seq<u8>;

/// What standard, padded base64 gives for a byte sequence.
pub uninterp spec fn base64_of(b: Seq<u8>) -> Seq<char>;

/// Relies on `hmac::Hmac<sha1::Sha1>`: the 20-byte MAC of `msg` under
/// `key`. `new_from_slice` accepts keys of every length for HMAC.
#[verifier::external_body]
fn hmac_sha1(key: &[u8], msg: &[u8]) -> (r: Vec<u8>)
    ensures
        r@ == hmac_sha1_of(key@, msg@),
{
    let mut mac = hmac::Hmac::<sha1::Sha1>::new_from_slice(key).expect("HMAC takes any key length");
    mac.update(msg);
    mac.finalize().into_bytes().to_vec()
}

/// Relies on `base64::encode`: standard alphabet with padding.
#[verifier::external_body]
pub(crate) fn base64_encode(b: &[u8]) -> (r: String)
    ensures
        r@ == base64_of(b@),
{
    base64::encode(b)
}

/// Relies on `uuid::Uuid::new_v4` and its simple format: a random UUID as
/// 32 hex digits without hyphens.
#[verifier::external_body]
pub(crate) fn random_nonce() -> (r: String)
    ensures
        r@.len() == 32,
{
    uuid::Uuid::new_v4().simple().to_string()
}

/// Relies on `std::time::SystemTime::now`: whole seconds since the Unix
/// epoch, `None` where the clock is set before it.
#[verifier::external_body]
pub(crate) fn unix_seconds() -> (r: Option<u64>) {
    std::time::SystemTime::now().duration_since(std::time::UNIX_EPOCH).ok().map(|d| d.as_secs())
}

/// The decimal digit of a value below 10.
pub open spec fn digit_char(d: nat) -> char {
    if d == 0 { '0' } else if d == 1 { '1' } else if d == 2 { '2' } else if d == 3 { '3' }
    else if d == 4 { '4' } else if d == 5 { '5' } else if d == 6 { '6' } else if d == 7 { '7' }
    else if d == 8 { '8' } else { '9' }
}

/// The decimal form of a number, without leading zeros.
pub open spec fn decimal_of(n: nat) -> Seq<char>
    decreases n,
{
    if n < 10 {
        seq![digit_char(n)]
    } else {
        decimal_of(n / 10).push(digit_char(n % 10))
    }
}

/// Relies on `u64`'s `to_string`: its decimal form.
#[verifier::external_body]
pub(crate) fn u64_to_decimal(n: u64) -> (r: String)
    ensures
        r@ == decimal_of(n as nat),
{
    n.to_string()
}

/// The HTTP methods the client sends.
#[derive(Debug, Clone, Copy, PartialEq, Eq)]
pub enum HttpMethod {
    Get,
    Post,
    Put,
    Patch,
    Delete,
}

impl HttpMethod {
    /// The method's name in upper case.
    pub open spec fn spec_name(self) -> Seq<char> {
        match self {
            HttpMethod::Get => "GET"@,
            HttpMethod::Post => "POST"@,
            HttpMethod::Put => "PUT"@,
            HttpMethod::Patch => "PATCH"@,
            HttpMethod::Delete => "DELETE"@,
        }
    }

    pub fn as_str(&self) -> (r: &'static str)
        ensures
            r@ == self.spec_name(),
    {
        match self {
            HttpMethod::Get => "GET",
            HttpMethod::Post => "POST",
            HttpMethod::Put => "PUT",
            HttpMethod::Patch => "PATCH",
            HttpMethod::Delete => "DELETE",
        }
    }
}

/// A parameter set under construction.
#[derive(Debug)]
pub struct Params {
    map: KeyVal,
}

impl View for Params {
    type V = Seq<Entry>;

    closed spec fn view(&self) -> Seq<Entry> {
        self.map@
    }
}

impl Params {
    pub fn new() -> (r: Self)
        ensures
            r@ == Seq::<Entry>::empty(),
    {
        Params { map: KeyVal::new() }
    }

    pub fn add_param(self, key: String, val: String) -> (r: Self)
        ensures
            r@ == insert_entry(self@, key@, val@),
    {
        Params { map: self.map.add_keyval(key, val) }
    }

    /// Adds the pair only where there is a value.
    pub fn add_opt_param(self, key: String, val: Option<String>) -> (r: Self)
        ensures
            r@ == match val {
                Some(v) => insert_entry(self@, key@, v@),
                None => self@,
            },
    {
        match val {
            Some(v) => self.add_param(key, v),
            None => self,
        }
    }

    /// The parameters, in the order of their insertion.
    pub fn as_keyval(&self) -> (r: &KeyVal)
        ensures
            r@ == self@,
    {
        &self.map
    }
}

/// Extra parameters an OAuth request may carry.
#[derive(Debug, Clone)]
pub enum OAuthAddons {
    Callback(String),
    NoCallback,
}

impl OAuthAddons {
    pub open spec fn spec_callback(&self) -> Option<Seq<char>> {
        match self {
            OAuthAddons::Callback(url) => Some(url@),
            OAuthAddons::NoCallback => None,
        }
    }

    pub fn with_callback(&self) -> (r: Option<String>)
        ensures
            match r {
                Some(u) => self.spec_callback() == Some(u@),
                None => self.spec_callback() is None,
            },
    {
        match self {
            OAuthAddons::Callback(url) => Some(url.clone()),
            OAuthAddons::NoCallback => None,
        }
    }
}

/// The final, signed OAuth parameters, sorted by key.
pub struct SignedParams {
    pub params: Vec<(String, String)>,
}

/// One `key="value"` item of an `Authorization` header.
pub open spec fn header_item(e: Entry) -> Seq<char> {
    pct_encode(e.0) + seq!['=', '"'] + pct_encode(e.1) + seq!['"']
}

/// The header items joined with `, `.
pub open spec fn header_spec(s: Seq<Entry>) -> Seq<char> {
    join_seq_spec(s.map_values(|e: Entry| header_item(e)), seq![',', ' '])
}

impl View for SignedParams {
    type V = Seq<Entry>;

    open spec fn view(&self) -> Seq<Entry> {
        self.params@.map_values(|p: (String, String)| (p.0@, p.1@))
    }
}

impl SignedParams {
    /// The parameters as the value of an `Authorization: OAuth ...` header.
    pub fn to_header_string(&self) -> (r: String)
        ensures
            r@ == header_spec(self@),
    {
        let mut items: Vec<String> = Vec::new();
        let mut i: usize = 0;
        while i < self.params.len()
            invariant
                i <= self.params.len(),
                views(items@) == self@.take(i as int).map_values(|e: Entry| header_item(e)),
            decreases self.params.len() - i,
        {
            let mut item = encode_component(self.params[i].0.as_str());
            item.append("=\"");
            let v = encode_component(self.params[i].1.as_str());
            item.append(v.as_str());
            item.append("\"");
            proof {
                reveal_strlit("=\"");
                reveal_strlit("\"");
            }
            let ghost before = views(items@);
            items.push(item);
            proof {
                let e = self@[i as int];
                assert(item@ =~= header_item(e));
                assert(views(items@) =~= before.push(item@));
                assert(self@.take(i + 1) =~= self@.take(i as int).push(e));
                assert(self@.take(i + 1).map_values(|e: Entry| header_item(e)) =~= self@.take(
                    i as int,
                ).map_values(|e: Entry| header_item(e)).push(header_item(e)));
            }
            i = i + 1;
        }
        let sep = ", ";
        proof {
            reveal_strlit(", ");
            assert(sep@ =~= seq![',', ' ']);
            assert(self@.take(self.params.len() as int) =~= self@);
        }
        join_str(&items, sep)
    }
}

/// The inputs of a signature, as character sequences.
pub struct OAuthView {
    pub consumer_key: Seq<char>,
    pub consumer_secret: Seq<char>,
    pub token: Option<(Seq<char>, Seq<char>)>,
    pub callback: Option<Seq<char>>,
    pub nonce: Seq<char>,
    pub timestamp: Seq<char>,
    pub method: Seq<char>,
}

/// An OAuth 1.0a request about to be signed.
#[derive(Debug)]
pub struct OAuth {
    consumer: KeyPair,
    nonce: String,
    timestamp: String,
    token: Option<KeyPair>,
    addons: OAuthAddons,
    method: String,
}

impl View for OAuth {
    type V = OAuthView;

    closed spec fn view(&self) -> OAuthView {
        OAuthView {
            consumer_key: self.consumer.key@,
            consumer_secret: self.consumer.secret@,
            token: match self.token {
                Some(t) => Some((t.key@, t.secret@)),
                None => None,
            },
            callback: self.addons.spec_callback(),
            nonce: self.nonce@,
            timestamp: self.timestamp@,
            method: self.method@,
        }
    }
}

/// The optional entry `(k, v)`.
pub open spec fn opt_entry(k: Seq<char>, v: Option<Seq<char>>) -> Seq<Entry> {
    match v {
        Some(x) => seq![(k, x)],
        None => Seq::<Entry>::empty(),
    }
}

/// The token's key, if there is a token.
pub open spec fn token_key(o: OAuthView) -> Option<Seq<char>> {
    match o.token {
        Some(t) => Some(t.0),
        None => None,
    }
}

/// The OAuth parameters of a request (without the signature).
pub open spec fn base_params(o: OAuthView) -> Seq<Entry> {
    opt_entry("oauth_callback"@, o.callback) + seq![
        ("oauth_consumer_key"@, o.consumer_key),
        ("oauth_nonce"@, o.nonce),
        ("oauth_signature_method"@, "HMAC-SHA1"@),
        ("oauth_timestamp"@, o.timestamp),
    ] + opt_entry("oauth_token"@, token_key(o)) + seq![("oauth_version"@, "1.0"@)]
}

/// The parameter string: the OAuth parameters and the request's own, each
/// as an encoded `key=value`, sorted, joined with `&`.
pub open spec fn param_string(o: OAuthView, extra: Seq<Entry>) -> Seq<char> {
    join_spec(sort_spec((base_params(o) + extra).map_values(|e: Entry| encoded_pair(e))), '&')
}

/// The signature base string: method, URL and parameter string, each
/// percent-encoded, joined with `&`.
pub open spec fn base_string(o: OAuthView, url: Seq<char>, extra: Seq<Entry>) -> Seq<char> {
    pct_encode(o.method).push('&') + pct_encode(url).push('&') + pct_encode(param_string(o, extra))
}

/// The signing key: both secrets percent-encoded, joined with `&`; an
/// absent token has the empty secret.
pub open spec fn signing_key(o: OAuthView) -> Seq<char> {
    let token_secret = match o.token {
        Some(t) => t.1,
        None => Seq::<char>::empty(),
    };
    pct_encode(o.consumer_secret).push('&') + pct_encode(token_secret)
}

/// The signature: base64 of the HMAC-SHA1 of the base string under the
/// signing key, both taken as UTF-8.
pub open spec fn signature_of(o: OAuthView, url: Seq<char>, extra: Seq<Entry>) -> Seq<char> {
    base64_of(
        hmac_sha1_of(
            vstd::utf8::encode_utf8(signing_key(o)),
            vstd::utf8::encode_utf8(base_string(o, url, extra)),
        ),
    )
}

/// The signed OAuth parameters, sorted by key.
pub open spec fn signed_params(o: OAuthView, url: Seq<char>, extra: Seq<Entry>) -> Seq<Entry> {
    opt_entry("oauth_callback"@, o.callback) + seq![
        ("oauth_consumer_key"@, o.consumer_key),
        ("oauth_nonce"@, o.nonce),
        ("oauth_signature"@, signature_of(o, url, extra)),
        ("oauth_signature_method"@, "HMAC-SHA1"@),
        ("oauth_timestamp"@, o.timestamp),
    ] + opt_entry("oauth_token"@, token_key(o)) + seq![("oauth_version"@, "1.0"@)]
}

impl OAuth {
    /// A request with the given nonce and timestamp; the method is kept in
    /// upper case.
    pub fn new_at(
        consumer: KeyPair,
        token: Option<KeyPair>,
        addons: OAuthAddons,
        method: HttpMethod,
        nonce: String,
        timestamp: String,
    ) -> (r: Self)
        ensures
            r@ == (OAuthView {
                consumer_key: consumer.key@,
                consumer_secret: consumer.secret@,
                token: match token {
                    Some(t) => Some((t.key@, t.secret@)),
                    None => None,
                },
                callback: addons.spec_callback(),
                nonce: nonce@,
                timestamp: timestamp@,
                method: method.spec_name(),
            }),
    {
        let m = method.as_str().to_owned();
        OAuth { consumer, nonce, timestamp, token, addons, method: m }
    }

    /// A request with a fresh random nonce and the current time; `None`
    /// where the clock is set before the Unix epoch.
    pub fn new(consumer: KeyPair, token: Option<KeyPair>, addons: OAuthAddons, method: HttpMethod) -> (r:
        Option<Self>)
        ensures
            match r {
                Some(o) => {
                    &&& o@.consumer_key == consumer.key@
                    &&& o@.consumer_secret == consumer.secret@
                    &&& o@.token == match token {
                        Some(t) => Some((t.key@, t.secret@)),
                        None => None,
                    }
                    &&& o@.callback == addons.spec_callback()
                    &&& o@.method == method.spec_name()
                    &&& o@.nonce.len() == 32
                    &&& exists|t: nat| o@.timestamp == decimal_of(t)
                },
                None => true,
            },
    {
        let seconds = unix_seconds();
        match seconds {
            Some(t) => {
                let nonce = random_nonce();
                let timestamp = u64_to_decimal(t);
                proof {
                    assert(timestamp@ == decimal_of(t as nat));
                }
                Some(Self::new_at(consumer, token, addons, method, nonce, timestamp))
            },
            None => None,
        }
    }

    /// Signs a request to `target_url` that carries no parameters of its
    /// own: the OAuth parameters, sorted by key, with `oauth_signature`.
    pub fn generate_signature(self, target_url: String) -> (r: SignedParams)
        ensures
            r@ == signed_params(self@, target_url@, Seq::<Entry>::empty()),
    {
        self.generate_signature_with(target_url, &KeyVal::new())
    }

    /// Signs a request to `target_url` whose own parameters are `params`:
    /// they are signed with the OAuth ones, and the OAuth parameters,
    /// sorted by key, with `oauth_signature`, are returned.
    pub fn generate_signature_with(self, target_url: String, params: &KeyVal) -> (r: SignedParams)
        ensures
            r@ == signed_params(self@, target_url@, params@),
    {
        let ghost o = self@;
        let mut base: Vec<(String, String)> = Vec::new();
        let mut signed: Vec<(String, String)> = Vec::new();
        match &self.addons {
            OAuthAddons::Callback(c) => {
                base.push(("oauth_callback".to_owned(), c.clone()));
                signed.push(("oauth_callback".to_owned(), c.clone()));
            },
            OAuthAddons::NoCallback => {},
        }
        proof {
            assert(entry_views(base@) =~= opt_entry("oauth_callback"@, o.callback));
            assert(entry_views(signed@) =~= opt_entry("oauth_callback"@, o.callback));
        }
        let ghost b0 = entry_views(base@);
        base.push(("oauth_consumer_key".to_owned(), self.consumer.key.clone()));
        base.push(("oauth_nonce".to_owned(), self.nonce.clone()));
        base.push(("oauth_signature_method".to_owned(), "HMAC-SHA1".to_owned()));
        base.push(("oauth_timestamp".to_owned(), self.timestamp.clone()));
        let ghost b1 = entry_views(base@);
        let token_secret = match &self.token {
            Some(t) => {
                base.push(("oauth_token".to_owned(), t.key.clone()));
                t.secret.clone()
            },
            None => String::new(),
        };
        let ghost b2 = entry_views(base@);
        base.push(("oauth_version".to_owned(), "1.0".to_owned()));
        proof {
            assert(b1 =~= b0 + seq![
                ("oauth_consumer_key"@, o.consumer_key),
                ("oauth_nonce"@, o.nonce),
                ("oauth_signature_method"@, "HMAC-SHA1"@),
                ("oauth_timestamp"@, o.timestamp),
            ]);
            assert(b2 =~= b1 + opt_entry("oauth_token"@, token_key(o)));
            assert(entry_views(base@) =~= base_params(o));
        }
        let mut extra = params.copy().into_pairs();
        let ghost bv = entry_views(base@);
        let ghost ex = extra@;
        base.append(&mut extra);
        assert(entry_views(base@) =~= bv + params@) by {
            assert(entry_views(base@) =~= bv + entry_views(ex));
        }
        let encoded = encode_pairs(&base);
        let sorted = sort_strings(&encoded);
        proof {
            reveal_strlit("&");
        }
        let params_string = join_with(&sorted, "&");
        assert(params_string@ == param_string(o, params@));
        let mut text = encode_component(self.method.as_str());
        text.append("&");
        let u = encode_component(target_url.as_str());
        text.append(u.as_str());
        text.append("&");
        let p = encode_component(params_string.as_str());
        text.append(p.as_str());
        let mut key = encode_component(self.consumer.secret.as_str());
        key.append("&");
        let ts = encode_component(token_secret.as_str());
        key.append(ts.as_str());
        proof {
            reveal_strlit("&");
            assert(text@ =~= base_string(o, target_url@, params@));
            assert(key@ =~= signing_key(o));
        }
        let mac = hmac_sha1(key.as_str().as_bytes(), text.as_str().as_bytes());
        let signature = base64_encode(mac.as_slice());
        assert(signature@ == signature_of(o, target_url@, params@));

        let ghost s0 = entry_views(signed@);
        signed.push(("oauth_consumer_key".to_owned(), self.consumer.key));
        signed.push(("oauth_nonce".to_owned(), self.nonce));
        signed.push(("oauth_signature".to_owned(), signature));
        signed.push(("oauth_signature_method".to_owned(), "HMAC-SHA1".to_owned()));
        signed.push(("oauth_timestamp".to_owned(), self.timestamp));
        let ghost s1 = entry_views(signed@);
        match self.token {
            Some(t) => {
                signed.push(("oauth_token".to_owned(), t.key));
            },
            None => {},
        }
        let ghost s2 = entry_views(signed@);
        signed.push(("oauth_version".to_owned(), "1.0".to_owned()));
        proof {
            assert(s1 =~= s0 + seq![
                ("oauth_consumer_key"@, o.consumer_key),
                ("oauth_nonce"@, o.nonce),
                ("oauth_signature"@, signature_of(o, target_url@, params@)),
                ("oauth_signature_method"@, "HMAC-SHA1"@),
                ("oauth_timestamp"@, o.timestamp),
            ]);
            assert(s2 =~= s1 + opt_entry("oauth_token"@, token_key(o)));
            assert(entry_views(signed@) =~= signed_params(o, target_url@, params@));
        }
        SignedParams { params: signed }
    }
}

/// Signing is a function of its inputs: two signatures of the same request
/// (same credentials, callback, method, nonce, timestamp and parameters) for
/// the same URL are the same, byte for byte.
pub proof fn lemma_signature_deterministic(
    o: OAuthView,
    url: Seq<char>,
    extra: Seq<Entry>,
    r1: Seq<Entry>,
    r2: Seq<Entry>,
)
    requires
        r1 == signed_params(o, url, extra),
        r2 == signed_params(o, url, extra),
    ensures
        r1 == r2,
{
}

} // verus!
