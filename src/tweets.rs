//! Tweet kinds, validation of delete requests, grouping of ids for storage,
//! and collection of fanned-out results.
use vstd::prelude::*;
use crate::errors::TError;
use crate::keyval::{lookup, KeyVal};
use crate::text::{same_text, starts_with};

verus! {

/// The kinds of posts the service stores and deletes.
#[derive(Debug, Clone, Copy, PartialEq, Eq)]
pub enum TweetType {
    Tweets,
    Rts,
    Likes,
}

impl TweetType {
    pub open spec fn spec_name(self) -> Seq<char> {
        match self {
            TweetType::Tweets => "tweets"@,
            TweetType::Rts => "rts"@,
            TweetType::Likes => "likes"@,
        }
    }

    /// The kind's name, as used in request bodies and storage.
    pub fn as_str(&self) -> (r: &'static str)
        ensures
            r@ == self.spec_name(),
    {
        match self {
            TweetType::Tweets => "tweets",
            TweetType::Rts => "rts",
            TweetType::Likes => "likes",
        }
    }

    /// Every kind, in storage order.
    pub fn get_all_as_vec() -> (r: Vec<TweetType>)
        ensures
            r@ == seq![TweetType::Tweets, TweetType::Rts, TweetType::Likes],
    {
        vec![TweetType::Tweets, TweetType::Rts, TweetType::Likes]
    }
}

/// The most posts one delete request may name.
pub const MAX_DELETE: usize = 50;

/// A JSON object of id lists, as (name, ids) members.
pub type IdLists = Vec<(String, Vec<String>)>;

/// The views of a list of strings.
pub open spec fn id_views(v: Vec<String>) -> Seq<Seq<char>> {
    v@.map_values(|s: String| s@)
}

/// The ids under the first member named `k`.
pub open spec fn ids_under(s: Seq<(String, Vec<String>)>, k: Seq<char>) -> Option<Seq<Seq<char>>>
    decreases s.len(),
{
    if s.len() == 0 {
        None
    } else if s[0].0@ == k {
        Some(id_views(s[0].1))
    } else {
        ids_under(s.drop_first(), k)
    }
}

/// No id is empty and none occurs twice.
pub open spec fn ids_valid(ids: Seq<Seq<char>>) -> bool {
    &&& forall|i: int| 0 <= i < ids.len() ==> (#[trigger] ids[i]).len() > 0
    &&& forall|i: int, j: int| 0 <= i < j < ids.len() ==> (#[trigger] ids[i]) != (#[trigger] ids[j])
}

/// The ids, each tagged with `t`.
pub open spec fn tagged(ids: Seq<Seq<char>>, t: TweetType) -> Seq<(Seq<char>, TweetType)> {
    ids.map_values(|id: Seq<char>| (id, t))
}

/// A delete request is accepted: both lists are present, together they
/// name at most `MAX_DELETE` posts, and each is valid.
pub open spec fn delete_request_ok(s: Seq<(String, Vec<String>)>) -> bool {
    match (ids_under(s, "rts"@), ids_under(s, "tweets"@)) {
        (Some(rts), Some(tweets)) => rts.len() + tweets.len() <= MAX_DELETE && ids_valid(rts)
            && ids_valid(tweets),
        _ => false,
    }
}

/// The posts an accepted request deletes: the retweets, then the tweets.
pub open spec fn delete_targets(s: Seq<(String, Vec<String>)>) -> Seq<(Seq<char>, TweetType)> {
    tagged(ids_under(s, "rts"@)->0, TweetType::Rts) + tagged(ids_under(s, "tweets"@)->0, TweetType::Tweets)
}

/// The posts of a validated delete request, each with its kind.
#[derive(Debug)]
pub struct PostIds(pub Vec<(String, TweetType)>);

impl View for PostIds {
    type V = Seq<(Seq<char>, TweetType)>;

    open spec fn view(&self) -> Seq<(Seq<char>, TweetType)> {
        self.0@.map_values(|p: (String, TweetType)| (p.0@, p.1))
    }
}

fn find_ids<'a>(s: &'a IdLists, key: &str) -> (r: Option<&'a Vec<String>>)
    ensures
        match r {
            Some(v) => ids_under(s@, key@) == Some(id_views(*v)),
            None => ids_under(s@, key@) is None,
        },
{
    let mut i: usize = 0;
    assert(s@.subrange(0, s@.len() as int) =~= s@);
    while i < s.len()
        invariant
            i <= s.len(),
            ids_under(s@, key@) == ids_under(s@.subrange(i as int, s@.len() as int), key@),
        decreases s.len() - i,
    {
        let ghost rest = s@.subrange(i as int, s@.len() as int);
        assert(rest[0] == s@[i as int]);
        assert(rest.drop_first() =~= s@.subrange(i + 1, s@.len() as int));
        if same_text(s[i].0.as_str(), key) {
            return Some(&s[i].1);
        }
        i = i + 1;
    }
    None
}

fn ids_ok(ids: &Vec<String>) -> (r: bool)
    ensures
        r == ids_valid(id_views(*ids)),
{
    let ghost v = id_views(*ids);
    let mut i: usize = 0;
    while i < ids.len()
        invariant
            v == id_views(*ids),
            i <= ids.len(),
            forall|a: int| 0 <= a < i ==> (#[trigger] v[a]).len() > 0,
            forall|a: int, b: int| 0 <= a < b < ids.len() && a < i ==> (#[trigger] v[a]) != (#[trigger] v[b]),
        decreases ids.len() - i,
    {
        if ids[i].as_str().is_empty() {
            assert(v[i as int].len() == 0);
            return false;
        }
        let mut j: usize = i + 1;
        while j < ids.len()
            invariant
                v == id_views(*ids),
                i < j <= ids.len(),
                forall|b: int| i < b < j ==> v[i as int] != (#[trigger] v[b]),
            decreases ids.len() - j,
        {
            if ids[i].eq(&ids[j]) {
                assert(v[i as int] == v[j as int]);
                return false;
            }
            j = j + 1;
        }
        i = i + 1;
    }
    true
}

fn tag_all(ids: &Vec<String>, t: TweetType, out: &mut Vec<(String, TweetType)>)
    ensures
        final(out)@.map_values(|p: (String, TweetType)| (p.0@, p.1)) == old(out)@.map_values(
            |p: (String, TweetType)| (p.0@, p.1),
        ) + tagged(id_views(*ids), t),
{
    let ghost start = old(out)@.map_values(|p: (String, TweetType)| (p.0@, p.1));
    let mut i: usize = 0;
    while i < ids.len()
        invariant
            i <= ids.len(),
            out@.map_values(|p: (String, TweetType)| (p.0@, p.1)) == start + tagged(
                id_views(*ids),
                t,
            ).take(i as int),
        decreases ids.len() - i,
    {
        let ghost before = out@.map_values(|p: (String, TweetType)| (p.0@, p.1));
        out.push((ids[i].clone(), t));
        assert(out@.map_values(|p: (String, TweetType)| (p.0@, p.1)) =~= before.push(
            (ids@[i as int]@, t),
        ));
        assert(tagged(id_views(*ids), t).take(i + 1) =~= tagged(id_views(*ids), t).take(i as int).push(
            (ids@[i as int]@, t),
        ));
        i = i + 1;
    }
    assert(tagged(id_views(*ids), t).take(ids.len() as int) =~= tagged(id_views(*ids), t));
}

impl PostIds {
    /// Validates a delete request: `rts` and `tweets` must both be lists,
    /// of at most `MAX_DELETE` ids together, none empty and none repeated
    /// within a list. Anything else is a `ValidationError`, found before any
    /// post is touched.
    pub fn parse(s: IdLists) -> (r: Result<Self, TError>)
        ensures
            r is Ok <==> delete_request_ok(s@),
            r is Ok ==> r->Ok_0@ == delete_targets(s@),
            r is Err ==> r->Err_0 is ValidationError,
    {
        let rts = find_ids(&s, "rts");
        let tweets = find_ids(&s, "tweets");
        match (rts, tweets) {
            (Some(rts), Some(tweets)) => {
                if rts.len() > MAX_DELETE || tweets.len() > MAX_DELETE - rts.len() {
                    return Err(
                        TError::ValidationError(
                            "Total tweets and rts cannot be more than 50".to_owned(),
                        ),
                    );
                }
                if !ids_ok(rts) || !ids_ok(tweets) {
                    return Err(
                        TError::ValidationError(
                            "rts and tweets must be arrays of distinct, non-empty ids".to_owned(),
                        ),
                    );
                }
                let mut all_ids: Vec<(String, TweetType)> = Vec::new();
                tag_all(rts, TweetType::Rts, &mut all_ids);
                tag_all(tweets, TweetType::Tweets, &mut all_ids);
                proof {
                    let e = Seq::<(String, TweetType)>::empty().map_values(
                        |p: (String, TweetType)| (p.0@, p.1),
                    );
                    assert(e =~= Seq::empty());
                    assert(Seq::<(Seq<char>, TweetType)>::empty() + tagged(id_views(*rts), TweetType::Rts)
                        =~= tagged(id_views(*rts), TweetType::Rts));
                }
                Ok(PostIds(all_ids))
            },
            _ => Err(
                TError::ValidationError(
                    "request object must contain rts and tweets with an array of string as values".to_owned(),
                ),
            ),
        }
    }
}

/// The most ids stored in one row.
pub const BATCH_SIZE: usize = 10;

/// The `i`-th batch of `ids`: the ids from `BATCH_SIZE * i` on, at most
/// `BATCH_SIZE` of them.
pub open spec fn batch_of(ids: Seq<Seq<char>>, i: int) -> Seq<Seq<char>> {
    let start = BATCH_SIZE * i;
    let end = if start + BATCH_SIZE <= ids.len() { start + BATCH_SIZE } else { ids.len() as int };
    ids.subrange(start, end)
}

/// Splits ids into batches of `BATCH_SIZE`, in order; only the last may be
/// shorter, and none is empty.
pub fn chunk_ids(ids: &Vec<String>) -> (r: Vec<Vec<String>>)
    ensures
        r@.len() * BATCH_SIZE >= ids@.len(),
        r@.len() * BATCH_SIZE < ids@.len() + BATCH_SIZE,
        forall|i: int| 0 <= i < r@.len() ==> id_views(#[trigger] r@[i]) == batch_of(id_views(*ids), i),
{
    let ghost v = id_views(*ids);
    let mut r: Vec<Vec<String>> = Vec::new();
    let mut current: Vec<String> = Vec::new();
    let mut i: usize = 0;
    while i < ids.len()
        invariant
            v == id_views(*ids),
            i <= ids.len(),
            i == r@.len() * BATCH_SIZE + current@.len(),
            current@.len() < BATCH_SIZE,
            id_views(current) == v.subrange(r@.len() * BATCH_SIZE, i as int),
            forall|j: int| 0 <= j < r@.len() ==> id_views(#[trigger] r@[j]) == batch_of(v, j),
        decreases ids.len() - i,
    {
        let ghost before = id_views(current);
        current.push(ids[i].clone());
        assert(id_views(current) =~= before.push(v[i as int]));
        assert(v.subrange(r@.len() * BATCH_SIZE, i + 1) =~= v.subrange(
            r@.len() * BATCH_SIZE,
            i as int,
        ).push(v[i as int]));
        i = i + 1;
        if current.len() == BATCH_SIZE {
            let ghost k = r@.len() as int;
            assert(batch_of(v, k) == v.subrange(k * BATCH_SIZE, i as int));
            let mut full: Vec<String> = Vec::new();
            std::mem::swap(&mut full, &mut current);
            r.push(full);
            assert(id_views(current) =~= Seq::<Seq<char>>::empty());
            assert(v.subrange(r@.len() * BATCH_SIZE, i as int) =~= Seq::<Seq<char>>::empty());
        }
    }
    if current.len() > 0 {
        let ghost k = r@.len() as int;
        assert(batch_of(v, k) == v.subrange(k * BATCH_SIZE, i as int));
        r.push(current);
    }
    r
}

/// The results that succeeded, each with its kind, in order.
pub open spec fn successes<T>(results: Seq<(TweetType, Result<T, TError>)>) -> Seq<(TweetType, T)>
    decreases results.len(),
{
    if results.len() == 0 {
        Seq::empty()
    } else {
        let prev = successes(results.drop_last());
        match results.last().1 {
            Ok(v) => prev.push((results.last().0, v)),
            Err(_) => prev,
        }
    }
}

/// Collects the results of independent calls: every success is kept with
/// its kind, every failure is left out, and no failure stops the others.
pub fn collect_results<T>(results: Vec<(TweetType, Result<T, TError>)>) -> (r: Vec<(TweetType, T)>)
    ensures
        r@ == successes(results@),
{
    let ghost all = results@;
    let mut rest = results;
    let mut out: Vec<(TweetType, T)> = Vec::new();
    let mut taken: usize = 0;
    let n = rest.len();
    while rest.len() > 0
        invariant
            n == all.len(),
            taken + rest@.len() == n,
            rest@ == all.subrange(taken as int, n as int),
            out@ == successes(all.take(taken as int)),
        decreases rest.len(),
    {
        let ghost before = rest@;
        let (kind, res) = rest.remove(0);
        assert(before[0] == all[taken as int]);
        assert(all.take(taken + 1).drop_last() =~= all.take(taken as int));
        assert(all.take(taken + 1).last() == all[taken as int]);
        match res {
            Ok(v) => {
                out.push((kind, v));
            },
            Err(_) => {},
        }
        assert(rest@ =~= all.subrange(taken + 1, n as int));
        taken = taken + 1;
    }
    assert(all.take(n as int) =~= all);
    out
}

/// Every call that succeeded has its entry in the collected results, and
/// every entry comes from a call that succeeded; a failure only removes its
/// own entry.
pub proof fn lemma_successes_complete<T>(results: Seq<(TweetType, Result<T, TError>)>)
    ensures
        forall|i: int|
            0 <= i < results.len() && (#[trigger] results[i]).1 is Ok ==> successes(results).contains(
                (results[i].0, results[i].1->Ok_0),
            ),
        forall|j: int|
            0 <= j < successes(results).len() ==> exists|i: int|
                0 <= i < results.len() && (#[trigger] results[i]).1 is Ok && (results[i].0,
                results[i].1->Ok_0) == #[trigger] successes(results)[j],
    decreases results.len(),
{
    if results.len() > 0 {
        let init = results.drop_last();
        lemma_successes_complete(init);
        let prev = successes(init);
        assert forall|i: int|
            0 <= i < results.len() && (#[trigger] results[i]).1 is Ok implies successes(results).contains(
            (results[i].0, results[i].1->Ok_0),
        ) by {
            if i < results.len() - 1 {
                assert(init[i] == results[i]);
                let k = choose|k: int| 0 <= k < prev.len() && prev[k] == (init[i].0, init[i].1->Ok_0);
                assert(successes(results)[k] == prev[k]);
            } else {
                assert(successes(results).last() == (results[i].0, results[i].1->Ok_0));
            }
        }
        assert forall|j: int| 0 <= j < successes(results).len() implies exists|i: int|
            0 <= i < results.len() && (#[trigger] results[i]).1 is Ok && (results[i].0,
            results[i].1->Ok_0) == #[trigger] successes(results)[j] by {
            if j < prev.len() {
                assert(successes(results)[j] == prev[j]);
                let i = choose|i: int|
                    0 <= i < init.len() && (#[trigger] init[i]).1 is Ok && (init[i].0, init[i].1->Ok_0)
                        == #[trigger] prev[j];
                assert(results[i] == init[i]);
            } else {
                assert(results[results.len() - 1] == results.last());
            }
        }
    }
}

/// A page of the provider's timeline: the posts (each a map with `id` and
/// `text`) and the page's metadata.
#[derive(Debug)]
pub struct TwitterResponseData {
    pub data: Vec<KeyVal>,
    pub meta: KeyVal,
}

/// A single-object answer of the provider (such as a user lookup).
#[derive(Debug)]
pub struct TwitterResponseHashData {
    pub data: KeyVal,
}

impl TwitterResponseHashData {
    /// The object's members as a map.
    pub fn into_one_dict(self) -> (r: KeyVal)
        ensures
            r@ == self.data@,
    {
        self.data
    }
}

/// The posts skipped at the head of a timeline page when asked to.
pub const TIMELINE_HEAD: usize = 11;

/// A post is a retweet when its text starts with `RT`.
pub open spec fn is_retweet(text: Seq<char>) -> bool {
    text.len() >= 2 && text[0] == 'R' && text[1] == 'T'
}

/// Every post from `start` on has an `id` and a `text`.
pub open spec fn posts_complete(data: Seq<KeyVal>, start: int) -> bool {
    forall|i: int|
        start <= i < data.len() ==> lookup((#[trigger] data[i])@, "id"@) is Some && lookup(
            data[i]@,
            "text"@,
        ) is Some
}

/// The ids of the posts from `start` on whose text does (`rt`) or does not
/// start with `RT`, in order.
pub open spec fn ids_by_kind(data: Seq<KeyVal>, start: int, rt: bool) -> Seq<Seq<char>>
    decreases data.len(),
{
    if data.len() == 0 || data.len() <= start {
        Seq::empty()
    } else {
        let prev = ids_by_kind(data.drop_last(), start, rt);
        let post = data.last()@;
        if is_retweet(lookup(post, "text"@)->0) == rt {
            prev.push(lookup(post, "id"@)->0)
        } else {
            prev
        }
    }
}

/// The ids of all posts, in order.
pub open spec fn all_ids(data: Seq<KeyVal>) -> Seq<Seq<char>> {
    data.map_values(|p: KeyVal| lookup(p@, "id"@)->0)
}

impl TwitterResponseData {
    /// The ids of the posts (after the first `TIMELINE_HEAD` ones where
    /// `exclude_head`), as the lists `tweets` and `rts`; `None` where a post
    /// lacks its `id` or `text`.
    pub fn separate_tweets_from_rts(&self, exclude_head: bool) -> (r: Option<IdLists>)
        ensures
            ({
                let start = if exclude_head { TIMELINE_HEAD as int } else { 0 };
                &&& r is Some <==> posts_complete(self.data@, start)
                &&& r is Some ==> r->0@.len() == 2 && r->0@[0].0@ == "tweets"@ && r->0@[1].0@ == "rts"@
                    && id_views(r->0@[0].1) == ids_by_kind(self.data@, start, false)
                    && id_views(r->0@[1].1) == ids_by_kind(self.data@, start, true)
            }),
    {
        let start: usize = if exclude_head { TIMELINE_HEAD } else { 0 };
        let mut tweets: Vec<String> = Vec::new();
        let mut rts: Vec<String> = Vec::new();
        let mut i: usize = start;
        if i > self.data.len() {
            i = self.data.len();
        }
        proof {
            lemma_ids_short(self.data@, i as int, start as int);
        }
        while i < self.data.len()
            invariant
                start == (if exclude_head { TIMELINE_HEAD } else { 0 }),
                i <= self.data.len(),
                posts_complete(self.data@.take(i as int), start as int),
                id_views(tweets) == ids_by_kind(self.data@.take(i as int), start as int, false),
                id_views(rts) == ids_by_kind(self.data@.take(i as int), start as int, true),
                i >= start || i == self.data.len(),
            decreases self.data.len() - i,
        {
            let ghost d = self.data@.take(i + 1);
            assert(d.drop_last() =~= self.data@.take(i as int));
            assert(d.last() == self.data@[i as int]);
            let post = &self.data[i];
            let id = post.get("id");
            let text = post.get("text");
            match (id, text) {
                (Some(id), Some(text)) => {
                    let prefix = "RT";
                    let rt = starts_with(text.as_str(), prefix);
                    proof {
                        reveal_strlit("RT");
                        assert(prefix@ =~= seq!['R', 'T']);
                        if text@.len() >= 2 {
                            let sub = text@.subrange(0, 2);
                            if sub[0] == 'R' && sub[1] == 'T' {
                                assert(sub =~= prefix@);
                            }
                        }
                        assert(rt == is_retweet(text@));
                    }
                    if rt {
                        let ghost b = id_views(rts);
                        rts.push(id.clone());
                        assert(id_views(rts) =~= b.push(id@));
                    } else {
                        let ghost b = id_views(tweets);
                        tweets.push(id.clone());
                        assert(id_views(tweets) =~= b.push(id@));
                    }
                    assert(posts_complete(d, start as int)) by {
                        assert forall|k: int| start <= k < d.len() implies lookup((#[trigger] d[k])@, "id"@) is Some
                            && lookup(d[k]@, "text"@) is Some by {
                            if k < i {
                                assert(d[k] == self.data@.take(i as int)[k]);
                            }
                        }
                    }
                },
                _ => {
                    proof {
                        assert(lookup(self.data@[i as int]@, "id"@) is None || lookup(
                            self.data@[i as int]@,
                            "text"@,
                        ) is None);
                        assert(!posts_complete(self.data@, start as int));
                    }
                    return None;
                },
            }
            i = i + 1;
        }
        assert(self.data@.take(self.data.len() as int) =~= self.data@);
        Some(vec![("tweets".to_owned(), tweets), ("rts".to_owned(), rts)])
    }

    /// The metadata as a map.
    pub fn parse_metadata(&self) -> (r: KeyVal)
        ensures
            r@ == self.meta@,
    {
        self.meta.copy()
    }

    /// The ids of all posts; `None` where one lacks its `id`.
    pub fn get_ids(&self) -> (r: Option<Vec<String>>)
        ensures
            r is Some <==> forall|i: int| 0 <= i < self.data@.len() ==> lookup((#[trigger] self.data@[i])@, "id"@) is Some,
            r is Some ==> id_views(r->0) == all_ids(self.data@),
    {
        let mut out: Vec<String> = Vec::new();
        let mut i: usize = 0;
        while i < self.data.len()
            invariant
                i <= self.data.len(),
                forall|k: int| 0 <= k < i ==> lookup((#[trigger] self.data@[k])@, "id"@) is Some,
                id_views(out) == all_ids(self.data@.take(i as int)),
            decreases self.data.len() - i,
        {
            match self.data[i].get("id") {
                Some(id) => {
                    let ghost b = id_views(out);
                    out.push(id.clone());
                    assert(id_views(out) =~= b.push(id@));
                    assert(all_ids(self.data@.take(i + 1)) =~= all_ids(self.data@.take(i as int)).push(id@));
                },
                None => {
                    return None;
                },
            }
            i = i + 1;
        }
        assert(self.data@.take(self.data.len() as int) =~= self.data@);
        Some(out)
    }
}

proof fn lemma_ids_short(data: Seq<KeyVal>, i: int, start: int)
    requires
        0 <= i <= data.len(),
        i == start || (i == data.len() && i < start),
    ensures
        posts_complete(data.take(i), start),
        ids_by_kind(data.take(i), start, false) == Seq::<Seq<char>>::empty(),
        ids_by_kind(data.take(i), start, true) == Seq::<Seq<char>>::empty(),
{
}

} // verus!
