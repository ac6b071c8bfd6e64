//! The user-facing password rule.

use vstd::prelude::*;

use crate::cipher::Cipher;

verus! {

/// The payload for creating a user.
pub struct NewUserDTO {
    pub name: String,
    pub email: String,
    pub password: String,
}

/// Validate a password against the complexity gate. An accepted
/// password is non-blank; a refusal carries the `password_complexity`
/// code. The acceptance rule itself is `Cipher::score_acceptable` over
/// the strength estimator's result.
pub fn validate_password(msg: &str) -> (r: Result<(), String>)
    ensures
        r is Ok ==> msg@.len() > 0,
        r matches Err(code) ==> code@ == "password_complexity"@,
        msg@.len() == 0 ==> r is Err,
{
    if Cipher::validate_password_complexity(msg) {
        Ok(())
    } else {
        Err(String::from_str("password_complexity"))
    }
}

} // verus!
