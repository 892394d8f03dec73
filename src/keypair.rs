//! A (key, secret) credential: the application's consumer credential or a
//! user's token credential.
use vstd::prelude::*;

verus! {

#[derive(Debug, Clone)]
pub struct KeyPair {
    pub key: String,
    pub secret: String,
}

impl KeyPair {
    pub fn new(key: String, secret: String) -> (r: Self)
        ensures
            r.key@ == key@,
            r.secret@ == secret@,
    {
        KeyPair { key, secret }
    }
}

} // verus!
