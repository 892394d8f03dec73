//! The start of the OAuth 2.0 flow: the scopes asked for and the URL the
//! user is sent to.
use vstd::prelude::*;
use crate::keyval::{insert_all, Entry, KeyVal};
use crate::request::{uri_spec, RequestBuilder};
use crate::signature::HttpMethod;
use crate::text::{join_seq_spec, join_str, views};

verus! {

/// The permissions the service asks for.
#[derive(Debug, Clone, Copy, PartialEq, Eq)]
pub enum Scope {
    ReadTweet,
    WriteTweet,
    ReadUsers,
    ReadFollows,
    WriteFollows,
    OfflineAccess,
    ReadLike,
    WriteLike,
}

impl Scope {
    pub open spec fn spec_name(self) -> Seq<char> {
        match self {
            Scope::ReadTweet => "tweet.read"@,
            Scope::WriteTweet => "tweet.write"@,
            Scope::ReadUsers => "users.read"@,
            Scope::ReadFollows => "follows.read"@,
            Scope::WriteFollows => "follows.write"@,
            Scope::OfflineAccess => "offline.access"@,
            Scope::ReadLike => "like.read"@,
            Scope::WriteLike => "like.write"@,
        }
    }

    /// The scope's name as the provider spells it.
    pub fn as_str(&self) -> (r: &'static str)
        ensures
            r@ == self.spec_name(),
    {
        match self {
            Scope::ReadTweet => "tweet.read",
            Scope::WriteTweet => "tweet.write",
            Scope::ReadUsers => "users.read",
            Scope::ReadFollows => "follows.read",
            Scope::WriteFollows => "follows.write",
            Scope::OfflineAccess => "offline.access",
            Scope::ReadLike => "like.read",
            Scope::WriteLike => "like.write",
        }
    }

    /// The scopes' names separated by spaces.
    pub fn with_scopes(scopes: Vec<Scope>) -> (r: String)
        ensures
            r@ == join_seq_spec(scopes@.map_values(|s: Scope| s.spec_name()), " "@),
    {
        let mut names: Vec<String> = Vec::new();
        let mut i: usize = 0;
        while i < scopes.len()
            invariant
                i <= scopes.len(),
                views(names@) == scopes@.take(i as int).map_values(|s: Scope| s.spec_name()),
            decreases scopes.len() - i,
        {
            let ghost b = views(names@);
            names.push(scopes[i].as_str().to_owned());
            assert(views(names@) =~= b.push(scopes@[i as int].spec_name()));
            assert(scopes@.take(i + 1).map_values(|s: Scope| s.spec_name()) =~= scopes@.take(
                i as int,
            ).map_values(|s: Scope| s.spec_name()).push(scopes@[i as int].spec_name()));
            i = i + 1;
        }
        assert(scopes@.take(scopes.len() as int) =~= scopes@);
        join_str(&names, " ")
    }
}

/// Every scope the service asks for, in the order it asks.
pub open spec fn requested_scopes() -> Seq<Scope> {
    seq![
        Scope::ReadTweet,
        Scope::ReadUsers,
        Scope::ReadFollows,
        Scope::WriteFollows,
        Scope::OfflineAccess,
        Scope::WriteTweet,
        Scope::WriteLike,
        Scope::ReadLike,
    ]
}

/// The query of the authorization URL.
pub open spec fn authorize_query(
    client_id: Seq<char>,
    redirect_uri: Seq<char>,
    state: Seq<char>,
    pkce: Seq<char>,
) -> Seq<Entry> {
    insert_all(
        Seq::empty(),
        seq![
            ("response_type"@, "code"@),
            ("client_id"@, client_id),
            ("redirect_uri"@, redirect_uri),
            ("scope"@, join_seq_spec(requested_scopes().map_values(|s: Scope| s.spec_name()), " "@)),
            ("state"@, state),
            ("code_challenge"@, pkce),
            ("code_challenge_method"@, "plain"@),
        ],
    )
}

/// The URL that asks the user to authorize the service, with the PKCE
/// value as a plain challenge.
pub fn authorize_url(client_id: String, redirect_uri: String, state: String, pkce: String) -> (r: String)
    ensures
        r@ == uri_spec(
            "https://twitter.com/i/oauth2/authorize"@,
            authorize_query(client_id@, redirect_uri@, state@, pkce@),
        ),
{
    let scopes = vec![
        Scope::ReadTweet,
        Scope::ReadUsers,
        Scope::ReadFollows,
        Scope::WriteFollows,
        Scope::OfflineAccess,
        Scope::WriteTweet,
        Scope::WriteLike,
        Scope::ReadLike,
    ];
    assert(scopes@ =~= requested_scopes());
    let pairs = vec![
        ("response_type".to_owned(), "code".to_owned()),
        ("client_id".to_owned(), client_id),
        ("redirect_uri".to_owned(), redirect_uri),
        ("scope".to_owned(), Scope::with_scopes(scopes)),
        ("state".to_owned(), state),
        ("code_challenge".to_owned(), pkce),
        ("code_challenge_method".to_owned(), "plain".to_owned()),
    ];
    let query = KeyVal::new().add_list_keyval(pairs);
    assert(crate::keyval::entry_views(pairs@) =~= seq![
        ("response_type"@, "code"@),
        ("client_id"@, client_id@),
        ("redirect_uri"@, redirect_uri@),
        ("scope"@, join_seq_spec(requested_scopes().map_values(|s: Scope| s.spec_name()), " "@)),
        ("state"@, state@),
        ("code_challenge"@, pkce@),
        ("code_challenge_method"@, "plain"@),
    ]);
    proof {
        let l = crate::keyval::entry_views(pairs@);
        crate::keyval::lemma_insert_all_unique(Seq::<Entry>::empty(), l);
        crate::keyval::lemma_insert_all_fresh(insert_all(Seq::<Entry>::empty(), l));
    }
    let request = RequestBuilder::new(HttpMethod::Get, "https://twitter.com/i/oauth2/authorize".to_owned())
        .add_query_params(query).build_request();
    request.uri
}

} // verus!
