//! OAuth signing, parameter maps and response classification for a
//! social-media API client, with their contracts proved by Verus.
pub mod text;
pub mod sort;
pub mod percent;
pub mod errors;
pub mod keyval;
pub mod keypair;
pub mod signature;
pub mod intercept;
pub mod tweets;
pub mod redirect;
pub mod gen_pkce;
pub mod request;
pub mod authorize;
