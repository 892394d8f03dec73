//! The PKCE value of an OAuth 2.0 authorization attempt (sent with the
//! "plain" challenge method).
use vstd::prelude::*;
use crate::text::{chars_of, string_from_chars};

verus! {

/// What `pkce::code_challenge` gives for a verifier.
pub uninterp spec fn pkce_challenge_of(verifier: Seq<u8>) -> Seq<char>;

/// Relies on `pkce::code_verifier`: 128 random bytes from its alphabet
/// (the length is within the 43..=128 it accepts).
#[verifier::external_body]
fn code_verifier() -> (r: Vec<u8>)
    ensures
        r@.len() == 128,
{
    pkce::code_verifier(128)
}

/// Relies on `pkce::code_challenge`: base64url of the SHA-256 digest
/// without padding, 43 characters.
#[verifier::external_body]
fn code_challenge(verifier: &[u8]) -> (r: String)
    ensures
        r@ == pkce_challenge_of(verifier@),
        r@.len() == 43,
{
    pkce::code_challenge(verifier)
}

/// `+` becomes `-` and `/` becomes `_`.
pub open spec fn url_safe_char(c: char) -> char {
    if c == '+' {
        '-'
    } else if c == '/' {
        '_'
    } else {
        c
    }
}

/// The PKCE value made of a challenge: its last character dropped and the
/// rest made URL-safe.
pub open spec fn pkce_value(challenge: Seq<char>) -> Seq<char> {
    if challenge.len() == 0 {
        challenge
    } else {
        challenge.drop_last().map_values(|c: char| url_safe_char(c))
    }
}

#[derive(Debug, Clone)]
pub struct Pkce(String);

impl View for Pkce {
    type V = Seq<char>;

    closed spec fn view(&self) -> Seq<char> {
        self.0@
    }
}

impl Pkce {
    fn generate_pkce() -> (r: String)
        ensures
            exists|v: Seq<u8>| v.len() == 128 && r@ == pkce_challenge_of(v),
            r@.len() == 43,
    {
        let verifier = code_verifier();
        code_challenge(verifier.as_slice())
    }

    /// The value made of a given challenge.
    pub fn from_challenge(challenge: String) -> (r: Self)
        ensures
            r@ == pkce_value(challenge@),
    {
        let cs = chars_of(challenge.as_str());
        if cs.len() == 0 {
            return Pkce(challenge);
        }
        let n = cs.len() - 1;
        let mut out: Vec<char> = Vec::new();
        let mut i: usize = 0;
        while i < n
            invariant
                n == challenge@.len() - 1,
                cs@ == challenge@,
                i <= n,
                out@ == challenge@.take(i as int).map_values(|c: char| url_safe_char(c)),
            decreases n - i,
        {
            let c = cs[i];
            let d = if c == '+' {
                '-'
            } else if c == '/' {
                '_'
            } else {
                c
            };
            out.push(d);
            assert(challenge@.take(i + 1).map_values(|c: char| url_safe_char(c)) =~= challenge@.take(
                i as int,
            ).map_values(|c: char| url_safe_char(c)).push(url_safe_char(c)));
            i = i + 1;
        }
        assert(challenge@.take(n as int) =~= challenge@.drop_last());
        Pkce(string_from_chars(&out))
    }

    /// A fresh value for a new authorization attempt: 42 characters.
    pub fn new() -> (r: Self)
        ensures
            exists|v: Seq<u8>| v.len() == 128 && r@ == pkce_value(pkce_challenge_of(v)),
            r@.len() == 42,
    {
        let challenge = Self::generate_pkce();
        Self::from_challenge(challenge)
    }

    /// The value as a string.
    pub fn as_string(&self) -> (r: String)
        ensures
            r@ == self@,
    {
        self.0.clone()
    }
}

} // verus!
