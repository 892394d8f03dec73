//! Classification of the provider's responses, and the token pair of a
//! successful token exchange.
use vstd::prelude::*;
use crate::errors::{TError, TwitterErrorEntry};
use crate::text::{chars_of, same_text};

verus! {

/// A parsed JSON document.
#[derive(Debug)]
pub enum Json {
    Null,
    Bool(bool),
    /// A number that fits in an `i64`.
    Int(i64),
    /// Any other number, in its textual form.
    Number(String),
    Str(String),
    Array(Vec<Json>),
    /// The members in document order.
    Object(Vec<(String, Json)>),
}

/// The position of the first member named `k`, or -1.
pub open spec fn member_index(fields: Seq<(String, Json)>, k: Seq<char>) -> int
    decreases fields.len(),
{
    if fields.len() == 0 {
        -1
    } else if fields[0].0@ == k {
        0
    } else {
        let i = member_index(fields.drop_first(), k);
        if i < 0 {
            -1
        } else {
            i + 1
        }
    }
}

proof fn lemma_member_index(fields: Seq<(String, Json)>, k: Seq<char>)
    ensures
        -1 <= member_index(fields, k) < fields.len(),
        member_index(fields, k) >= 0 ==> fields[member_index(fields, k)].0@ == k,
    decreases fields.len(),
{
    if fields.len() > 0 && fields[0].0@ != k {
        lemma_member_index(fields.drop_first(), k);
    }
}

/// The member named `k` of an object.
pub open spec fn json_member(j: Json, k: Seq<char>) -> Option<Json> {
    match j {
        Json::Object(fields) => {
            let i = member_index(fields@, k);
            if i >= 0 {
                Some(fields@[i].1)
            } else {
                None
            }
        },
        _ => None,
    }
}

/// The string member named `k`.
pub open spec fn string_member(j: Json, k: Seq<char>) -> Option<Seq<char>> {
    match json_member(j, k) {
        Some(Json::Str(s)) => Some(s@),
        _ => None,
    }
}

/// The integer member named `k`.
pub open spec fn int_member(j: Json, k: Seq<char>) -> Option<i64> {
    match json_member(j, k) {
        Some(Json::Int(n)) => Some(n),
        _ => None,
    }
}

impl Json {
    /// The member named `key`, where this is an object holding one.
    pub fn member(&self, key: &str) -> (r: Option<&Json>)
        ensures
            match r {
                Some(v) => json_member(*self, key@) == Some(*v),
                None => json_member(*self, key@) is None,
            },
    {
        match self {
            Json::Object(fields) => {
                let mut i: usize = 0;
                while i < fields.len()
                    invariant
                        *self is Object,
                        self->Object_0 == *fields,
                        i <= fields.len(),
                        member_index(fields@, key@) == -1 || i <= member_index(fields@, key@),
                        forall|j: int| 0 <= j < i ==> (#[trigger] fields@[j]).0@ != key@,
                    decreases fields.len() - i,
                {
                    proof {
                        lemma_first_member(fields@, key@, i as int);
                    }
                    if same_text(fields[i].0.as_str(), key) {
                        assert(member_index(fields@, key@) == i);
                        assert(json_member(*self, key@) == Some(fields@[i as int].1));
                        return Some(&fields[i].1);
                    }
                    i = i + 1;
                }
                proof {
                    lemma_no_member(fields@, key@);
                }
                None
            },
            _ => None,
        }
    }

    /// The string member named `key`.
    pub fn string_member(&self, key: &str) -> (r: Option<String>)
        ensures
            match r {
                Some(s) => string_member(*self, key@) == Some(s@),
                None => string_member(*self, key@) is None,
            },
    {
        match self.member(key) {
            Some(Json::Str(s)) => Some(s.clone()),
            _ => None,
        }
    }

    /// The integer member named `key`.
    pub fn int_member(&self, key: &str) -> (r: Option<i64>)
        ensures
            r == int_member(*self, key@),
    {
        match self.member(key) {
            Some(Json::Int(n)) => Some(*n),
            _ => None,
        }
    }
}

/// Where no member before `i` is named `k`, the first one named `k` is at
/// `i` or later, and at `i` exactly if member `i` is named `k`.
proof fn lemma_first_member(fields: Seq<(String, Json)>, k: Seq<char>, i: int)
    requires
        0 <= i < fields.len(),
        forall|j: int| 0 <= j < i ==> (#[trigger] fields[j]).0@ != k,
    ensures
        fields[i].0@ == k ==> member_index(fields, k) == i,
        member_index(fields, k) == -1 || i <= member_index(fields, k),
        -1 <= member_index(fields, k) < fields.len(),
        member_index(fields, k) >= 0 ==> fields[member_index(fields, k)].0@ == k,
    decreases i,
{
    lemma_member_index(fields, k);
    if i > 0 {
        assert(fields[0].0@ != k);
        let rest = fields.drop_first();
        assert forall|j: int| 0 <= j < i - 1 implies (#[trigger] rest[j]).0@ != k by {
            assert(rest[j] == fields[j + 1]);
        }
        assert(rest[i - 1] == fields[i]);
        lemma_first_member(rest, k, i - 1);
    }
}

proof fn lemma_no_member(fields: Seq<(String, Json)>, k: Seq<char>)
    requires
        forall|j: int| 0 <= j < fields.len() ==> (#[trigger] fields[j]).0@ != k,
    ensures
        member_index(fields, k) == -1,
    decreases fields.len(),
{
    if fields.len() > 0 {
        let rest = fields.drop_first();
        assert forall|j: int| 0 <= j < rest.len() implies (#[trigger] rest[j]).0@ != k by {
            assert(rest[j] == fields[j + 1]);
        }
        lemma_no_member(rest, k);
        assert(fields[0].0@ != k);
    }
}

/// The error code the provider uses for "rate limit exceeded".
pub const RATE_LIMIT_CODE: i64 = 88;

/// The header that carries the rate limit's reset time, in lower case.
pub open spec fn rate_limit_header() -> Seq<char> {
    "x-rate-limit-reset"@
}

/// `c` equals the lower-case `l`, ignoring ASCII case.
pub open spec fn ci_char_eq(c: char, l: char) -> bool {
    c == l || ('a' <= l && l <= 'z' && (c as u32) + 32 == (l as u32))
}

/// `s` equals the lower-case `lower`, ignoring ASCII case.
pub open spec fn ci_eq(s: Seq<char>, lower: Seq<char>) -> bool {
    s.len() == lower.len() && forall|i: int| 0 <= i < s.len() ==> ci_char_eq(#[trigger] s[i], lower[i])
}

/// A header named `lower` (in any case) is present.
pub open spec fn has_header(headers: Seq<(String, String)>, lower: Seq<char>) -> bool {
    exists|i: int| 0 <= i < headers.len() && ci_eq((#[trigger] headers[i]).0@, lower)
}

/// An entry of the error envelope: an integer `code` and a string
/// `message`.
pub open spec fn error_entry_of(j: Json) -> Option<(i64, Seq<char>)> {
    match (int_member(j, "code"@), string_member(j, "message"@)) {
        (Some(c), Some(m)) => Some((c, m)),
        _ => None,
    }
}

/// The entries of all items, where each is one.
pub open spec fn error_entries_of(items: Seq<Json>) -> Option<Seq<(i64, Seq<char>)>>
    decreases items.len(),
{
    if items.len() == 0 {
        Some(Seq::empty())
    } else {
        match (error_entries_of(items.drop_last()), error_entry_of(items.last())) {
            (Some(p), Some(e)) => Some(p.push(e)),
            _ => None,
        }
    }
}

/// The provider's error envelope: an object whose `errors` member is an
/// array of entries.
pub open spec fn error_envelope(j: Json) -> Option<Seq<(i64, Seq<char>)>> {
    match json_member(j, "errors"@) {
        Some(Json::Array(items)) => error_entries_of(items@),
        _ => None,
    }
}

/// The code and message of each entry.
pub open spec fn entry_views(v: Seq<TwitterErrorEntry>) -> Seq<(i64, Seq<char>)> {
    v.map_values(|e: TwitterErrorEntry| (e.code, e.message@))
}

/// Some entry carries the rate-limit code.
pub open spec fn has_rate_limit_code(env: Seq<(i64, Seq<char>)>) -> bool {
    exists|i: int| 0 <= i < env.len() && (#[trigger] env[i]).0 == RATE_LIMIT_CODE
}

/// The success range of HTTP status codes.
pub open spec fn is_success(status: u16) -> bool {
    200 <= status && status <= 299
}

fn ci_equals(s: &str, lower: &str) -> (r: bool)
    ensures
        r == ci_eq(s@, lower@),
{
    let x = chars_of(s);
    let y = chars_of(lower);
    if x.len() != y.len() {
        return false;
    }
    let mut i: usize = 0;
    while i < x.len()
        invariant
            x@ == s@,
            y@ == lower@,
            x.len() == y.len(),
            i <= x.len(),
            forall|j: int| 0 <= j < i ==> ci_char_eq(#[trigger] x@[j], y@[j]),
        decreases x.len() - i,
    {
        let c = x[i];
        let l = y[i];
        let same = c == l || ('a' <= l && l <= 'z' && (c as u32) == (l as u32) - 32);
        if !same {
            return false;
        }
        i = i + 1;
    }
    true
}

fn header_present(headers: &Vec<(String, String)>, lower: &str) -> (r: bool)
    ensures
        r == has_header(headers@, lower@),
{
    let mut i: usize = 0;
    while i < headers.len()
        invariant
            i <= headers.len(),
            forall|j: int| 0 <= j < i ==> !ci_eq((#[trigger] headers@[j]).0@, lower@),
        decreases headers.len() - i,
    {
        if ci_equals(headers[i].0.as_str(), lower) {
            return true;
        }
        i = i + 1;
    }
    false
}

fn error_entry(j: &Json) -> (r: Option<TwitterErrorEntry>)
    ensures
        match r {
            Some(e) => error_entry_of(*j) == Some((e.code, e.message@)),
            None => error_entry_of(*j) is None,
        },
{
    let code = j.int_member("code");
    let message = j.string_member("message");
    match (code, message) {
        (Some(c), Some(m)) => Some(TwitterErrorEntry { code: c, message: m }),
        _ => None,
    }
}

/// The entries of the provider's error envelope, where `j` is one.
pub fn error_envelope_entries(j: &Json) -> (r: Option<Vec<TwitterErrorEntry>>)
    ensures
        match r {
            Some(v) => error_envelope(*j) == Some(entry_views(v@)),
            None => error_envelope(*j) is None,
        },
{
    match j.member("errors") {
        Some(Json::Array(items)) => {
            assert(error_envelope(*j) == error_entries_of(items@));
            assert(items@.take(0) =~= Seq::<Json>::empty());
            let mut out: Vec<TwitterErrorEntry> = Vec::new();
            let mut i: usize = 0;
            while i < items.len()
                invariant
                    error_envelope(*j) == error_entries_of(items@),
                    i <= items.len(),
                    error_entries_of(items@.take(i as int)) == Some(entry_views(out@)),
                decreases items.len() - i,
            {
                assert(items@.take(i + 1).drop_last() =~= items@.take(i as int));
                assert(items@.take(i + 1).last() == items@[i as int]);
                match error_entry(&items[i]) {
                    Some(e) => {
                        let ghost before = out@;
                        out.push(e);
                        assert(entry_views(out@) =~= entry_views(before).push((e.code, e.message@)));
                    },
                    None => {
                        proof {
                            lemma_entries_prefix_fails(items@, i + 1);
                        }
                        return None;
                    },
                }
                i = i + 1;
            }
            assert(items@.take(items.len() as int) =~= items@);
            Some(out)
        },
        _ => None,
    }
}

proof fn lemma_entries_prefix_fails(items: Seq<Json>, n: int)
    requires
        0 < n <= items.len(),
        error_entries_of(items.take(n)) is None,
    ensures
        error_entries_of(items) is None,
    decreases items.len() - n,
{
    if n < items.len() {
        assert(items.take(n + 1).drop_last() =~= items.take(n));
        lemma_entries_prefix_fails(items, n + 1);
    } else {
        assert(items.take(n) =~= items);
    }
}

fn any_rate_limit(v: &Vec<TwitterErrorEntry>) -> (r: bool)
    ensures
        r == has_rate_limit_code(entry_views(v@)),
{
    let mut i: usize = 0;
    while i < v.len()
        invariant
            i <= v.len(),
            forall|j: int| 0 <= j < i ==> (#[trigger] v@[j]).code != RATE_LIMIT_CODE,
        decreases v.len() - i,
    {
        if v[i].code == RATE_LIMIT_CODE {
            assert(entry_views(v@)[i as int].0 == RATE_LIMIT_CODE);
            return true;
        }
        i = i + 1;
    }
    proof {
        if has_rate_limit_code(entry_views(v@)) {
            let j = choose|j: int| 0 <= j < entry_views(v@).len() && (#[trigger] entry_views(v@)[j]).0
                == RATE_LIMIT_CODE;
            assert(v@[j].code == RATE_LIMIT_CODE);
        }
    }
    false
}

/// Reduces a response (status, headers, and the body parsed as JSON, or
/// `None` where it is not JSON) to its JSON value or the error it stands
/// for. The error envelope is looked at first: with the rate-limit code and
/// the reset header it is `RateLimit`, else `TwitterError`. Then a status
/// outside the success range is `BadStatus`; a body that is not JSON is
/// `DecodeFailure`.
pub fn intercept(status: u16, headers: Vec<(String, String)>, body: Option<Json>) -> (r: Result<
    Json,
    TError,
>)
    ensures
        ({
            let env = match body {
                Some(j) => error_envelope(j),
                None => None,
            };
            &&& (env is Some && has_rate_limit_code(env->0) && has_header(
                headers@,
                rate_limit_header(),
            )) ==> r is Err && r->Err_0 is RateLimit
            &&& (env is Some && !(has_rate_limit_code(env->0) && has_header(
                headers@,
                rate_limit_header(),
            ))) ==> r is Err && r->Err_0 is TwitterError && r->Err_0->TwitterError_0 == headers
                && entry_views(r->Err_0->TwitterError_1@) == env->0
            &&& (env is None && !is_success(status)) ==> r is Err && r->Err_0 is BadStatus
                && r->Err_0->BadStatus_0 == status
            &&& (env is None && is_success(status) && body is None) ==> r is Err && r->Err_0 is DecodeFailure
            &&& (env is None && is_success(status) && body is Some) ==> r is Ok && r->Ok_0 == body->0
        }),
{
    let envelope = match &body {
        Some(j) => error_envelope_entries(j),
        None => None,
    };
    match envelope {
        Some(entries) => {
            let reset = "x-rate-limit-reset";
            if any_rate_limit(&entries) && header_present(&headers, reset) {
                Err(TError::RateLimit)
            } else {
                Err(TError::TwitterError(headers, entries))
            }
        },
        None => {
            if status < 200 || status > 299 {
                Err(TError::BadStatus(status))
            } else {
                match body {
                    Some(j) => Ok(j),
                    None => Err(TError::DecodeFailure),
                }
            }
        },
    }
}

/// The tokens of a successful token exchange.
#[derive(Debug)]
pub struct AppAccess {
    pub token_type: Option<String>,
    pub expires_in: Option<i64>,
    pub access_token: String,
    pub scope: Option<String>,
    pub refresh_token: String,
}

/// The optional string member as a view.
pub open spec fn opt_view(o: Option<String>) -> Option<Seq<char>> {
    match o {
        Some(s) => Some(s@),
        None => None,
    }
}

/// The token pair of a token-exchange body. Both `access_token` and
/// `refresh_token` must be strings in it, else the exchange failed with
/// `InvalidCredentialError`: one token is never handed out without the
/// other.
pub fn v2_tokens(body: &Json) -> (r: Result<AppAccess, TError>)
    ensures
        r is Ok <==> (string_member(*body, "access_token"@) is Some && string_member(
            *body,
            "refresh_token"@,
        ) is Some),
        r is Ok ==> {
            let a = r->Ok_0;
            &&& string_member(*body, "access_token"@) == Some(a.access_token@)
            &&& string_member(*body, "refresh_token"@) == Some(a.refresh_token@)
            &&& string_member(*body, "token_type"@) == opt_view(a.token_type)
            &&& string_member(*body, "scope"@) == opt_view(a.scope)
            &&& int_member(*body, "expires_in"@) == a.expires_in
        },
        r is Err ==> r->Err_0 is InvalidCredentialError,
{
    let access = body.string_member("access_token");
    let refresh = body.string_member("refresh_token");
    match (access, refresh) {
        (Some(access_token), Some(refresh_token)) => Ok(
            AppAccess {
                token_type: body.string_member("token_type"),
                expires_in: body.int_member("expires_in"),
                access_token,
                scope: body.string_member("scope"),
                refresh_token,
            },
        ),
        _ => Err(TError::InvalidCredentialError("Required keys are not present".to_owned())),
    }
}

} // verus!
