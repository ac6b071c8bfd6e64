//! Hashing and password-strength primitives. The cryptographic work is
//! done by outside crates; each call is named here by what it returns,
//! and the acceptance rules over those results are verified.

use vstd::prelude::*;

verus! {

/// The hex digest that SHA-256 assigns to a string; a function of the
/// input alone.
pub uninterp spec fn sha256_hex_of(s: Seq<char>) -> Seq<char>;

/// The encoded hash that Argon2id, under this library's fixed
/// configuration, assigns to a message and a salt; a function of the
/// two alone.
pub uninterp spec fn argon2_encoded_of(msg: Seq<char>, salt: Seq<char>) -> Seq<char>;

/// The verdict that Argon2 verification assigns to an encoded hash and
/// a message: whether they match, or nothing when the hash does not
/// decode; a function of the two alone.
pub uninterp spec fn argon2_verify_of(hash: Seq<char>, msg: Seq<char>) -> Option<bool>;

/// Relies on sha256::digest: the digest of a string is 64 hex
/// characters and depends on the input alone.
#[verifier::external_body]
fn sha256_digest(msg: &str) -> (r: String)
    ensures
        r@ == sha256_hex_of(msg@),
        r@.len() == 64,
{
    sha256::digest(msg)
}

/// Relies on ulid::Ulid::generate and Ulid::to_string: a fresh identifier,
/// rendered as 26 Crockford base32 characters. The value depends on the
/// clock and on randomness, so only its shape is promised.
#[verifier::external_body]
fn new_ulid() -> (r: String)
    ensures
        r@.len() == 26,
        r.is_ascii(),
{
    ulid::Ulid::generate().to_string()
}

/// Relies on argon2::hash_encoded (package rust-argon2): the encoded
/// hash depends on password, salt and configuration alone, and with
/// this fixed configuration the call succeeds whenever the salt is 8 to
/// 64 ASCII characters and the password is not absurdly long.
#[verifier::external_body]
fn argon2_hash(msg: &str, salt: &str) -> (r: Option<String>)
    ensures
        r matches Some(h) ==> h@ == argon2_encoded_of(msg@, salt@),
        salt.is_ascii() && 8 <= salt@.len() <= 64 && msg@.len() <= 0x100000 ==> r is Some,
{
    let config = argon2::Config { variant: argon2::Variant::Argon2id, ..argon2::Config::default() };
    argon2::hash_encoded(msg.as_bytes(), salt.as_bytes(), &config).ok()
}

/// Relies on argon2::verify_encoded (package rust-argon2): the verdict
/// depends on the encoded hash and the password alone; a hash that does
/// not decode gives no verdict.
#[verifier::external_body]
fn argon2_verify(hash: &str, msg: &str) -> (r: Option<bool>)
    ensures
        r == argon2_verify_of(hash@, msg@),
{
    argon2::verify_encoded(hash, msg.as_bytes()).ok()
}

/// Relies on zxcvbn::zxcvbn with no user inputs: the score runs from 0
/// to 4, and a blank password is refused. The estimator consults the
/// machine's clock — its date matching scores years by their distance
/// from the current one — so the value is not a function of the
/// password alone and only its range is promised.
#[verifier::external_body]
fn zxcvbn_score(msg: &str) -> (r: Option<u8>)
    ensures
        r matches Some(s) ==> s <= 4,
        msg@.len() == 0 ==> r is None,
{
    match zxcvbn::zxcvbn(msg, &[]) {
        Ok(entropy) => Some(entropy.score()),
        Err(_) => None,
    }
}

/// The hashing facade used across the application.
pub struct Cipher;

impl Cipher {
    /// The SHA-256 hex digest of `message`; used to store and look up
    /// API keys.
    pub fn hash(message: &str) -> (r: String)
        ensures
            r@ == sha256_hex_of(message@),
            r@.len() == 64,
    {
        sha256_digest(message)
    }

    /// Hash `msg` for storage: Argon2id under a fresh ULID salt. The
    /// salt is fresh on every call, so two hashes of one message
    /// differ; each is the encoded form for its own salt.
    pub fn cipher(msg: &str) -> (r: String)
        requires
            msg@.len() <= 0x100000,
        ensures
            exists|salt: Seq<char>| salt.len() == 26 && r@ == argon2_encoded_of(msg@, salt),
    {
        let salt = new_ulid();
        let hashed = argon2_hash(msg, salt.as_str());
        match hashed {
            Some(h) => h,
            None => {
                proof {
                    assert(false);
                }
                String::new()
            },
        }
    }

    /// Whether `msg` matches the stored hash; the hash must decode —
    /// `try_check` settles that first.
    pub fn check(msg: &str, hash: &str) -> (r: bool)
        requires
            argon2_verify_of(hash@, msg@) is Some,
        ensures
            Some(r) == argon2_verify_of(hash@, msg@),
    {
        match argon2_verify(hash, msg) {
            Some(b) => b,
            None => {
                proof {
                    assert(false);
                }
                false
            },
        }
    }

    /// Whether `msg` matches the stored hash, or nothing when the hash
    /// does not decode.
    pub fn try_check(msg: &str, hash: &str) -> (r: Option<bool>)
        ensures
            r == argon2_verify_of(hash@, msg@),
    {
        let probe = argon2_verify(hash, msg);
        match probe {
            Some(_) => Some(Self::check(msg, hash)),
            None => None,
        }
    }

    /// Whether a strength score is accepted: a scored password passes
    /// from 3 out of 4 up; an unscored one never passes.
    pub fn score_acceptable(score: Option<u8>) -> (r: bool)
        ensures
            r == (score matches Some(s) && s >= 3),
    {
        match score {
            Some(s) => s >= 3,
            None => false,
        }
    }

    /// The password-complexity gate: score the password and accept it
    /// from 3 out of 4 up. A blank password never passes. The verdict
    /// is `score_acceptable` applied to the estimator's result; the
    /// estimator itself consults the machine's clock, so only the
    /// blank case is pinned here.
    pub fn validate_password_complexity(msg: &str) -> (r: bool)
        ensures
            r ==> msg@.len() > 0,
            msg@.len() == 0 ==> !r,
    {
        let score = zxcvbn_score(msg);
        Self::score_acceptable(score)
    }
}

} // verus!
