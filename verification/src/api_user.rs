//! The API-user payload and the key-hashing step of its creation.

use vstd::prelude::*;

use crate::cipher::{sha256_hex_of, Cipher};

verus! {

/// The payload for creating an API user: a display name and the clear
/// API key. The key is never stored as given; only its digest is.
pub struct NewApiUserDTO {
    pub name: String,
    pub api_key: String,
}

impl NewApiUserDTO {
    /// The digest under which the API key is stored and later looked
    /// up.
    pub fn hashed_key(&self) -> (r: String)
        ensures
            r@ == sha256_hex_of(self.api_key@),
            r@.len() == 64,
    {
        Cipher::hash(self.api_key.as_str())
    }
}

} // verus!
