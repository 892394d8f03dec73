//! The parameter map: string keys mapped to string values, keys unique,
//! kept in the order in which they were first inserted.
use vstd::prelude::*;
use crate::errors::TError;
use crate::percent::{
    decode_component, encode_component, is_unreserved, lemma_decode_encode, lemma_encode_plain,
    pct_decode, pct_encode,
};
use crate::text::{
    count_char, starts_with, count_spec, join_spec, join_with, lemma_split_join, same_text, split_on, split_spec,
    views,
};

verus! {

/// A key and its value, as character sequences.
pub type Entry = (Seq<char>, Seq<char>);

/// The views of a list of string pairs.
pub open spec fn entry_views(v: Seq<(String, String)>) -> Seq<Entry> {
    v.map_values(|p: (String, String)| (p.0@, p.1@))
}

/// No key occurs twice.
pub open spec fn keys_unique(s: Seq<Entry>) -> bool {
    forall|i: int, j: int| 0 <= i < j < s.len() ==> (#[trigger] s[i]).0 != (#[trigger] s[j]).0
}

/// The position of the last entry with key `k`, or -1.
pub open spec fn key_index(s: Seq<Entry>, k: Seq<char>) -> int
    decreases s.len(),
{
    if s.len() == 0 {
        -1
    } else if s.last().0 == k {
        s.len() - 1
    } else {
        key_index(s.drop_last(), k)
    }
}

/// The value stored under `k`.
pub open spec fn lookup(s: Seq<Entry>, k: Seq<char>) -> Option<Seq<char>> {
    let i = key_index(s, k);
    if i >= 0 {
        Some(s[i].1)
    } else {
        None
    }
}

/// Stores `v` under `k`: in place where `k` is present, at the end otherwise.
pub open spec fn insert_entry(s: Seq<Entry>, k: Seq<char>, v: Seq<char>) -> Seq<Entry> {
    let i = key_index(s, k);
    if i >= 0 {
        s.update(i, (k, v))
    } else {
        s.push((k, v))
    }
}

/// Stores each pair of `list` in turn.
pub open spec fn insert_all(s: Seq<Entry>, list: Seq<Entry>) -> Seq<Entry>
    decreases list.len(),
{
    if list.len() == 0 {
        s
    } else {
        let p = list.last();
        insert_entry(insert_all(s, list.drop_last()), p.0, p.1)
    }
}

/// `key=value` with both sides percent-encoded.
pub open spec fn encoded_pair(e: Entry) -> Seq<char> {
    pct_encode(e.0).push('=') + pct_encode(e.1)
}

/// The encoded pairs joined with `&`.
pub open spec fn urlencoded(s: Seq<Entry>) -> Seq<char> {
    join_spec(s.map_values(|e: Entry| encoded_pair(e)), '&')
}

/// The first two `=`-separated fields of a piece, where it has two.
pub open spec fn raw_pair(piece: Seq<char>) -> Option<Entry> {
    let f = split_spec(piece, '=');
    if f.len() >= 2 {
        Some((f[0], f[1]))
    } else {
        None
    }
}

/// The raw pairs of all pieces, where each has one.
pub open spec fn raw_pairs(pieces: Seq<Seq<char>>) -> Option<Seq<Entry>>
    decreases pieces.len(),
{
    if pieces.len() == 0 {
        Some(Seq::<Entry>::empty())
    } else {
        match (raw_pairs(pieces.drop_last()), raw_pair(pieces.last())) {
            (Some(p), Some(e)) => Some(p.push(e)),
            _ => None,
        }
    }
}

/// The raw pair of a piece with both sides percent-decoded.
pub open spec fn decoded_pair(piece: Seq<char>) -> Option<Entry> {
    match raw_pair(piece) {
        Some(e) => match (pct_decode(e.0), pct_decode(e.1)) {
            (Some(k), Some(v)) => Some((k, v)),
            _ => None,
        },
        None => None,
    }
}

/// The decoded pairs of all pieces, where each has one.
pub open spec fn decoded_pairs(pieces: Seq<Seq<char>>) -> Option<Seq<Entry>>
    decreases pieces.len(),
{
    if pieces.len() == 0 {
        Some(Seq::<Entry>::empty())
    } else {
        match (decoded_pairs(pieces.drop_last()), decoded_pair(pieces.last())) {
            (Some(p), Some(e)) => Some(p.push(e)),
            _ => None,
        }
    }
}

/// What a query string decodes to: nothing for an empty one; otherwise each
/// `&`-separated piece must hold a `=`.
pub open spec fn query_spec(q: Seq<char>) -> Option<Seq<Entry>> {
    if q.len() == 0 {
        Some(Seq::<Entry>::empty())
    } else {
        match decoded_pairs(split_spec(q, '&')) {
            Some(p) => Some(insert_all(Seq::<Entry>::empty(), p)),
            None => None,
        }
    }
}

/// What a provider's `a=1&b=2` answer reads as: one `=` more than `&`, and
/// each piece holding a `=`; no decoding.
pub open spec fn ampersand_spec(s: Seq<char>) -> Option<Seq<Entry>> {
    if count_spec(s, '&') + 1 != count_spec(s, '=') {
        None
    } else {
        match raw_pairs(split_spec(s, '&')) {
            Some(p) => Some(insert_all(Seq::<Entry>::empty(), p)),
            None => None,
        }
    }
}

/// Each pair as `key=value`, both sides percent-encoded.
pub fn encode_pairs(pairs: &Vec<(String, String)>) -> (r: Vec<String>)
    ensures
        views(r@) == entry_views(pairs@).map_values(|e: Entry| encoded_pair(e)),
{
    let ghost ev = entry_views(pairs@);
    let mut parts: Vec<String> = Vec::new();
    let mut i: usize = 0;
    while i < pairs.len()
        invariant
            ev == entry_views(pairs@),
            i <= pairs.len(),
            views(parts@) == ev.take(i as int).map_values(|e: Entry| encoded_pair(e)),
        decreases pairs.len() - i,
    {
        let mut piece = encode_component(pairs[i].0.as_str());
        piece.append("=");
        proof {
            reveal_strlit("=");
        }
        let v = encode_component(pairs[i].1.as_str());
        piece.append(v.as_str());
        let ghost before = views(parts@);
        parts.push(piece);
        proof {
            let e = ev[i as int];
            assert(e == (pairs@[i as int].0@, pairs@[i as int].1@));
            assert(piece@ =~= encoded_pair(e));
            assert(views(parts@) =~= before.push(piece@));
            assert(ev.take(i + 1) =~= ev.take(i as int).push(e));
            assert(ev.take(i + 1).map_values(|e: Entry| encoded_pair(e)) =~= ev.take(
                i as int,
            ).map_values(|e: Entry| encoded_pair(e)).push(encoded_pair(e)));
        }
        i = i + 1;
    }
    assert(ev.take(pairs.len() as int) =~= ev);
    parts
}

/// The pairs as `key=value`, both sides percent-encoded, joined with `&`.
pub fn urlencode_pairs(pairs: &Vec<(String, String)>) -> (r: String)
    ensures
        r@ == urlencoded(entry_views(pairs@)),
{
    let parts = encode_pairs(pairs);
    proof {
        reveal_strlit("&");
    }
    join_with(&parts, "&")
}

#[verifier::external_type_specification]
#[verifier::external_body]
pub struct ExUrlParseError(url::ParseError);

/// What `url` makes of a URL: `None` where it does not parse, else its
/// query, if it has one.
pub uninterp spec fn url_query_of(s: Seq<char>) -> Option<Option<Seq<char>>>;

/// Relies on `url::Url::parse` and `Url::query`: the query of the parsed
/// URL, or the parse error.
#[verifier::external_body]
fn parse_url_query(s: &str) -> (r: Result<Option<String>, url::ParseError>)
    ensures
        match r {
            Ok(Some(q)) => url_query_of(s@) == Some(Some(q@)),
            Ok(None) => url_query_of(s@) == Some(None::<Seq<char>>),
            Err(_) => url_query_of(s@) is None,
        },
{
    url::Url::parse(s).map(|u| u.query().map(|q| q.to_owned()))
}

/// The scheme prefix put in front of a request path before parsing.
pub open spec fn scheme_prefix() -> Seq<char> {
    seq!['h', 't', 't', 'p', 's', ':', '/']
}

/// A request URI with the scheme prefix in front, unless it has it.
pub open spec fn with_scheme(uri: Seq<char>) -> Seq<char> {
    if uri.len() >= 7 && uri.subrange(0, 7) == scheme_prefix() {
        uri
    } else {
        scheme_prefix() + uri
    }
}

/// What `query_params_to_keyval` gives for a request URI.
pub open spec fn uri_params_spec(uri: Seq<char>) -> Result<Seq<Entry>, ()> {
    match url_query_of(with_scheme(uri)) {
        None => Err(()),
        Some(None) => Ok(Seq::<Entry>::empty()),
        Some(Some(q)) => match query_spec(q) {
            Some(m) => Ok(m),
            None => Err(()),
        },
    }
}

#[derive(Debug)]
pub struct KeyVal {
    entries: Vec<(String, String)>,
}

impl View for KeyVal {
    type V = Seq<Entry>;

    closed spec fn view(&self) -> Seq<Entry> {
        entry_views(self.entries@)
    }
}

pub proof fn lemma_key_index(s: Seq<Entry>, k: Seq<char>)
    ensures
        -1 <= key_index(s, k) < s.len(),
        key_index(s, k) >= 0 ==> s[key_index(s, k)].0 == k,
        key_index(s, k) == -1 <==> forall|j: int| 0 <= j < s.len() ==> (#[trigger] s[j]).0 != k,
    decreases s.len(),
{
    if s.len() > 0 {
        lemma_key_index(s.drop_last(), k);
        if s.last().0 != k {
            assert forall|j: int| 0 <= j < s.len() - 1 implies #[trigger] s[j] == s.drop_last()[j] by {}
        }
    }
}

pub proof fn lemma_insert_unique(s: Seq<Entry>, k: Seq<char>, v: Seq<char>)
    requires
        keys_unique(s),
    ensures
        keys_unique(insert_entry(s, k, v)),
{
    lemma_key_index(s, k);
}

pub proof fn lemma_insert_all_unique(s: Seq<Entry>, list: Seq<Entry>)
    requires
        keys_unique(s),
    ensures
        keys_unique(insert_all(s, list)),
    decreases list.len(),
{
    if list.len() > 0 {
        lemma_insert_all_unique(s, list.drop_last());
        lemma_insert_unique(insert_all(s, list.drop_last()), list.last().0, list.last().1);
    }
}

/// Inserting pairs with distinct keys into an empty map keeps them as they are.
pub proof fn lemma_insert_all_fresh(list: Seq<Entry>)
    requires
        keys_unique(list),
    ensures
        insert_all(Seq::<Entry>::empty(), list) == list,
    decreases list.len(),
{
    if list.len() > 0 {
        let init = list.drop_last();
        assert(keys_unique(init)) by {
            assert forall|i: int, j: int| 0 <= i < j < init.len() implies (#[trigger] init[i]).0
                != (#[trigger] init[j]).0 by {
                assert(init[i] == list[i] && init[j] == list[j]);
            }
        }
        lemma_insert_all_fresh(init);
        lemma_key_index(init, list.last().0);
        assert forall|j: int| 0 <= j < init.len() implies (#[trigger] init[j]).0 != list.last().0 by {
            assert(init[j] == list[j]);
            assert(list[list.len() - 1] == list.last());
        }
        assert(init.push(list.last()) =~= list);
    }
}

/// An encoding holds no `&` and no `=`.
proof fn lemma_encode_no_separators(s: Seq<char>)
    ensures
        !pct_encode(s).contains('&'),
        !pct_encode(s).contains('='),
{
    lemma_encode_plain(s);
    let e = pct_encode(s);
    assert(!is_unreserved('&' as u8) && !is_unreserved('=' as u8));
    if e.contains('&') {
        let i = choose|i: int| 0 <= i < e.len() && e[i] == '&';
        assert(is_unreserved(e[i] as u8) || e[i] == '%');
    }
    if e.contains('=') {
        let i = choose|i: int| 0 <= i < e.len() && e[i] == '=';
        assert(is_unreserved(e[i] as u8) || e[i] == '%');
    }
}

/// An encoded pair holds no `&` and reads back as the pair.
proof fn lemma_encoded_pair(e: Entry)
    ensures
        !encoded_pair(e).contains('&'),
        decoded_pair(encoded_pair(e)) == Some(e),
{
    let ek = pct_encode(e.0);
    let ev = pct_encode(e.1);
    lemma_encode_no_separators(e.0);
    lemma_encode_no_separators(e.1);
    let p = encoded_pair(e);
    if p.contains('&') {
        let i = choose|i: int| 0 <= i < p.len() && p[i] == '&';
        if i < ek.len() {
            assert(p[i] == ek[i]);
        } else if i > ek.len() {
            assert(p[i] == ev[i - ek.len() - 1]);
        }
    }
    let parts = seq![ek, ev];
    assert(parts.drop_last() =~= seq![ek]);
    assert(join_spec(parts, '=') == join_spec(seq![ek], '=').push('=') + ev);
    assert(join_spec(parts, '=') =~= p);
    assert forall|i: int| 0 <= i < parts.len() implies !(#[trigger] parts[i]).contains('=') by {}
    lemma_split_join(parts, '=');
    lemma_decode_encode(e.0);
    lemma_decode_encode(e.1);
}

proof fn lemma_decoded_pairs_encoded(s: Seq<Entry>)
    ensures
        decoded_pairs(s.map_values(|e: Entry| encoded_pair(e))) == Some(s),
    decreases s.len(),
{
    if s.len() > 0 {
        let parts = s.map_values(|e: Entry| encoded_pair(e));
        assert(parts.drop_last() =~= s.drop_last().map_values(|e: Entry| encoded_pair(e)));
        lemma_decoded_pairs_encoded(s.drop_last());
        lemma_encoded_pair(s.last());
        assert(parts.last() == encoded_pair(s.last()));
        assert(s.drop_last().push(s.last()) =~= s);
    }
}

/// Reading back the query string of a map gives the map: keys and values
/// holding `&`, `=`, spaces or any other character come back as they were.
pub proof fn lemma_query_round_trip(s: Seq<Entry>)
    requires
        keys_unique(s),
    ensures
        query_spec(urlencoded(s)) == Some(s),
{
    let parts = s.map_values(|e: Entry| encoded_pair(e));
    if s.len() == 0 {
        assert(urlencoded(s) =~= Seq::<char>::empty());
        assert(insert_all(Seq::<Entry>::empty(), Seq::<Entry>::empty()) == Seq::<Entry>::empty());
    } else {
        assert forall|i: int| 0 <= i < parts.len() implies !(#[trigger] parts[i]).contains('&') by {
            lemma_encoded_pair(s[i]);
        }
        lemma_split_join(parts, '&');
        if parts.len() == 1 {
            assert(parts[0].len() > 0) by {
                assert(parts[0] == pct_encode(s[0].0).push('=') + pct_encode(s[0].1));
            }
        } else {
            assert(urlencoded(s) == join_spec(parts.drop_last(), '&').push('&') + parts.last());
        }
        assert(urlencoded(s).len() > 0);
        lemma_decoded_pairs_encoded(s);
        lemma_insert_all_fresh(s);
    }
}

impl KeyVal {
    #[verifier::type_invariant]
    spec fn inv(self) -> bool {
        keys_unique(entry_views(self.entries@))
    }

    /// The value stored under `key`.
    pub open spec fn spec_get(&self, key: Seq<char>) -> Option<Seq<char>> {
        lookup(self@, key)
    }

    /// The position of `key`, if present.
    fn find(&self, key: &str) -> (r: Option<usize>)
        ensures
            match r {
                Some(i) => i == key_index(self@, key@) && i < self@.len(),
                None => key_index(self@, key@) == -1,
            },
    {
        let ghost s = self@;
        let mut found: Option<usize> = None;
        let mut i: usize = 0;
        while i < self.entries.len()
            invariant
                s == entry_views(self.entries@),
                i <= self.entries.len(),
                match found {
                    Some(f) => f == key_index(s.take(i as int), key@) && f < i,
                    None => key_index(s.take(i as int), key@) == -1,
                },
            decreases self.entries.len() - i,
        {
            assert(s.take(i + 1).drop_last() =~= s.take(i as int));
            if same_text(self.entries[i].0.as_str(), key) {
                found = Some(i);
            }
            i = i + 1;
        }
        assert(s.take(self.entries.len() as int) =~= s);
        found
    }

    /// Stores `val` under `key`.
    pub fn insert(&mut self, key: String, val: String)
        ensures
            final(self)@ == insert_entry(old(self)@, key@, val@),
    {
        proof {
            use_type_invariant(&*self);
            lemma_key_index(self@, key@);
            lemma_insert_unique(self@, key@, val@);
        }
        let pos = self.find(key.as_str());
        let mut entries: Vec<(String, String)> = Vec::new();
        std::mem::swap(&mut entries, &mut self.entries);
        let ghost before = entries@;
        match pos {
            Some(i) => {
                entries.set(i, (key, val));
                assert(entry_views(entries@) =~= entry_views(before).update(i as int, (key@, val@)));
            },
            None => {
                entries.push((key, val));
                assert(entry_views(entries@) =~= entry_views(before).push((key@, val@)));
            },
        }
        self.entries = entries;
    }

    pub fn new() -> (r: Self)
        ensures
            r@ == Seq::<Entry>::empty(),
    {
        let r = KeyVal { entries: Vec::new() };
        assert(r@ =~= Seq::<Entry>::empty());
        r
    }

    pub fn add_keyval(self, key: String, val: String) -> (r: Self)
        ensures
            r@ == insert_entry(self@, key@, val@),
    {
        let mut s = self;
        s.insert(key, val);
        s
    }

    pub fn new_with_keyval(key: String, val: String) -> (r: Self)
        ensures
            r@ == seq![(key@, val@)],
    {
        let mut dict = Self::new();
        dict.insert(key, val);
        proof {
            assert(key_index(Seq::<Entry>::empty(), key@) == -1);
            assert(Seq::<Entry>::empty().push((key@, val@)) =~= seq![(key@, val@)]);
        }
        dict
    }

    pub fn add_list_keyval(self, list: Vec<(String, String)>) -> (r: Self)
        ensures
            r@ == insert_all(self@, entry_views(list@)),
    {
        let ghost start = self@;
        let ghost l = entry_views(list@);
        let mut s = self;
        let mut i: usize = 0;
        while i < list.len()
            invariant
                l == entry_views(list@),
                i <= list.len(),
                s@ == insert_all(start, l.take(i as int)),
            decreases list.len() - i,
        {
            let k = list[i].0.clone();
            let v = list[i].1.clone();
            assert(l.take(i + 1).drop_last() =~= l.take(i as int));
            assert(l.take(i + 1).last() == l[i as int]);
            s.insert(k, v);
            i = i + 1;
        }
        assert(l.take(list.len() as int) =~= l);
        s
    }

    /// How many entries the map holds.
    pub fn len(&self) -> (r: usize)
        ensures
            r == self@.len(),
    {
        self.entries.len()
    }

    /// The entries, in order.
    pub fn into_pairs(self) -> (r: Vec<(String, String)>)
        ensures
            entry_views(r@) == self@,
    {
        self.entries
    }

    /// A copy of the map.
    pub fn copy(&self) -> (r: Self)
        ensures
            r@ == self@,
    {
        let mut entries: Vec<(String, String)> = Vec::new();
        let mut i: usize = 0;
        while i < self.entries.len()
            invariant
                i <= self.entries.len(),
                entry_views(entries@) == entry_views(self.entries@.take(i as int)),
            decreases self.entries.len() - i,
        {
            proof {
                use_type_invariant(self);
            }
            let k = self.entries[i].0.clone();
            let v = self.entries[i].1.clone();
            let ghost b = entry_views(entries@);
            entries.push((k, v));
            assert(entry_views(entries@) =~= b.push((k@, v@)));
            assert(entry_views(self.entries@.take(i + 1)) =~= entry_views(self.entries@.take(i as int)).push(
                (k@, v@),
            ));
            i = i + 1;
        }
        proof {
            use_type_invariant(self);
            assert(self.entries@.take(self.entries.len() as int) =~= self.entries@);
        }
        KeyVal { entries }
    }

    /// The value stored under `key`.
    pub fn get(&self, key: &str) -> (r: Option<&String>)
        ensures
            match r {
                Some(v) => self.spec_get(key@) == Some(v@),
                None => self.spec_get(key@) is None,
            },
    {
        proof {
            lemma_key_index(self@, key@);
        }
        match self.find(key) {
            Some(i) => Some(&self.entries[i].1),
            None => None,
        }
    }

    /// Whether `name` is present with exactly the value `value`.
    pub fn validate(&self, name: String, value: String) -> (r: bool)
        ensures
            r == (self.spec_get(name@) == Some(value@)),
    {
        match self.get(name.as_str()) {
            Some(v) => v.eq(&value),
            None => false,
        }
    }

    /// The map itself where every name is present, nothing otherwise.
    pub fn every(&self, names: Vec<String>) -> (r: Option<&Self>)
        ensures
            r is Some <==> forall|i: int|
                0 <= i < names@.len() ==> (#[trigger] self.spec_get(names@[i]@)) is Some,
            r is Some ==> r->0 == self,
    {
        let mut i: usize = 0;
        while i < names.len()
            invariant
                i <= names.len(),
                forall|j: int| 0 <= j < i ==> (#[trigger] self.spec_get(names@[j]@)) is Some,
            decreases names.len() - i,
        {
            if self.get(names[i].as_str()).is_none() {
                return None;
            }
            i = i + 1;
        }
        Some(self)
    }

    /// The entries as `key=value` pairs, both sides percent-encoded, joined
    /// with `&`.
    pub fn to_urlencode(&self) -> (r: String)
        ensures
            r@ == urlencoded(self@),
            Self::from_query_spec(r@) == Some(self@),
    {
        proof {
            use_type_invariant(self);
            lemma_query_round_trip(self@);
        }
        urlencode_pairs(&self.entries)
    }

    /// What `from_query` gives for a query string.
    pub open spec fn from_query_spec(q: Seq<char>) -> Option<Seq<Entry>> {
        query_spec(q)
    }

    /// The map of a query string (the part after `?`), each key and value
    /// percent-decoded. `None` where a piece holds no `=` or does not
    /// decode to UTF-8.
    pub fn from_query(q: &str) -> (r: Option<Self>)
        ensures
            match r {
                Some(m) => query_spec(q@) == Some(m@),
                None => query_spec(q@) is None,
            },
    {
        let mut dic = Self::new();
        if q.unicode_len() == 0 {
            return Some(dic);
        }
        let pieces = split_on(q, '&');
        let ghost pv = views(pieces@);
        let ghost mut acc: Seq<Entry> = Seq::empty();
        let mut i: usize = 0;
        while i < pieces.len()
            invariant
                pv == views(pieces@),
                pv == split_spec(q@, '&'),
                q@.len() > 0,
                i <= pieces.len(),
                decoded_pairs(pv.take(i as int)) == Some(acc),
                dic@ == insert_all(Seq::<Entry>::empty(), acc),
            decreases pieces.len() - i,
        {
            assert(pv.take(i + 1).drop_last() =~= pv.take(i as int));
            assert(pv.take(i + 1).last() == pieces@[i as int]@);
            let fields = split_on(pieces[i].as_str(), '=');
            let ghost piece = pv[i as int];
            if fields.len() < 2 {
                proof {
                    assert(raw_pair(piece) is None);
                    assert(decoded_pair(piece) is None);
                    assert(decoded_pairs(pv.take(i + 1)) is None);
                    lemma_prefix_fails(pv, i + 1);
                }
                return None;
            }
            assert(raw_pair(piece) == Some((fields@[0]@, fields@[1]@)));
            let k = decode_component(fields[0].as_str());
            let v = decode_component(fields[1].as_str());
            match (k, v) {
                (Some(k), Some(v)) => {
                    let ghost old_acc = acc;
                    proof {
                        acc = acc.push((k@, v@));
                        assert(decoded_pair(piece) == Some((k@, v@)));
                        assert(acc.drop_last() =~= old_acc);
                        assert(acc.last() == (k@, v@));
                    }
                    dic.insert(k, v);
                },
                _ => {
                    proof {
                        assert(decoded_pair(piece) is None);
                        assert(decoded_pairs(pv.take(i + 1)) is None);
                        lemma_prefix_fails(pv, i + 1);
                    }
                    return None;
                },
            }
            i = i + 1;
        }
        assert(pv.take(pieces.len() as int) =~= pv);
        Some(dic)
    }

    /// The decoded query parameters of a request URI (a path with its
    /// query, or a full URL).
    pub fn query_params_to_keyval(uri: &str) -> (r: Result<Self, TError>)
        ensures
            match r {
                Ok(m) => uri_params_spec(uri@) == Ok::<Seq<Entry>, ()>(m@),
                Err(e) => {
                    &&& uri_params_spec(uri@) is Err
                    &&& (url_query_of(with_scheme(uri@)) is None ==> e is UrlParseError)
                    &&& (url_query_of(with_scheme(uri@)) is Some ==> e is MalformedQuery)
                },
            },
    {
        let prefix = "https:/";
        proof {
            reveal_strlit("https:/");
            assert(prefix@ =~= scheme_prefix());
        }
        let full = if starts_with(uri, prefix) {
            uri.to_owned()
        } else {
            prefix.to_owned().concat(uri)
        };
        assert(full@ == with_scheme(uri@));
        match parse_url_query(full.as_str()) {
            Err(_) => Err(TError::UrlParseError),
            Ok(None) => Ok(Self::new()),
            Ok(Some(q)) => match Self::from_query(q.as_str()) {
                Some(m) => Ok(m),
                None => Err(TError::MalformedQuery),
            },
        }
    }

    /// What `string_to_keyval` gives for a string.
    pub open spec fn ampersand_result(s: Seq<char>) -> Option<Seq<Entry>> {
        ampersand_spec(s)
    }

    /// The map of a provider's `a=1&b=2` answer, read without decoding.
    /// `None` unless it holds one `=` more than `&` and each piece holds a
    /// `=`.
    pub fn string_to_keyval(s: String) -> (r: Option<Self>)
        ensures
            match r {
                Some(m) => ampersand_spec(s@) == Some(m@),
                None => ampersand_spec(s@) is None,
            },
    {
        let ampersands = count_char(s.as_str(), '&');
        let equals = count_char(s.as_str(), '=');
        if ampersands >= equals || ampersands + 1 != equals {
            return None;
        }
        assert(count_spec(s@, '&') + 1 == count_spec(s@, '='));
        let mut dic = Self::new();
        let pieces = split_on(s.as_str(), '&');
        let ghost pv = views(pieces@);
        let ghost mut acc: Seq<Entry> = Seq::empty();
        let mut i: usize = 0;
        while i < pieces.len()
            invariant
                pv == views(pieces@),
                pv == split_spec(s@, '&'),
                count_spec(s@, '&') + 1 == count_spec(s@, '='),
                i <= pieces.len(),
                raw_pairs(pv.take(i as int)) == Some(acc),
                dic@ == insert_all(Seq::<Entry>::empty(), acc),
            decreases pieces.len() - i,
        {
            assert(pv.take(i + 1).drop_last() =~= pv.take(i as int));
            assert(pv.take(i + 1).last() == pieces@[i as int]@);
            let mut fields = split_on(pieces[i].as_str(), '=');
            let ghost piece = pv[i as int];
            if fields.len() < 2 {
                proof {
                    assert(raw_pair(piece) is None);
                    assert(raw_pairs(pv.take(i + 1)) is None);
                    lemma_raw_prefix_fails(pv, i + 1);
                }
                return None;
            }
            assert(raw_pair(piece) == Some((fields@[0]@, fields@[1]@)));
            let v = fields[1].clone();
            let k = fields[0].clone();
            let ghost old_acc = acc;
            proof {
                acc = acc.push((k@, v@));
                assert(acc.drop_last() =~= old_acc);
                assert(acc.last() == (k@, v@));
            }
            dic.insert(k, v);
            i = i + 1;
        }
        assert(pv.take(pieces.len() as int) =~= pv);
        Some(dic)
    }
}

proof fn lemma_prefix_fails(pv: Seq<Seq<char>>, n: int)
    requires
        0 < n <= pv.len(),
        decoded_pairs(pv.take(n)) is None,
    ensures
        decoded_pairs(pv) is None,
    decreases pv.len() - n,
{
    if n < pv.len() {
        assert(pv.take(n + 1).drop_last() =~= pv.take(n));
        lemma_prefix_fails(pv, n + 1);
    } else {
        assert(pv.take(n) =~= pv);
    }
}

proof fn lemma_raw_prefix_fails(pv: Seq<Seq<char>>, n: int)
    requires
        0 < n <= pv.len(),
        raw_pairs(pv.take(n)) is None,
    ensures
        raw_pairs(pv) is None,
    decreases pv.len() - n,
{
    if n < pv.len() {
        assert(pv.take(n + 1).drop_last() =~= pv.take(n));
        lemma_raw_prefix_fails(pv, n + 1);
    } else {
        assert(pv.take(n) =~= pv);
    }
}

} // verus!
