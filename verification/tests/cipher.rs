use cmdcore::api_user::NewApiUserDTO;
use cmdcore::cipher::Cipher;
use cmdcore::user::validate_password;

#[test]
fn hash_is_the_sha256_hex_digest() {
    assert_eq!(
        Cipher::hash("hello"),
        "2cf24dba5fb0a30e26e83b2ac5b9e29e1b161e5c1fa7425e73043362938b9824"
    );
    assert_eq!(Cipher::hash("").len(), 64);
    assert_ne!(Cipher::hash("a"), Cipher::hash("b"));
}

#[test]
fn cipher_and_check_round_trip() {
    let hash = Cipher::cipher("a modest secret");
    assert!(hash.starts_with("$argon2id$"));
    assert!(Cipher::check("a modest secret", &hash));
    assert!(!Cipher::check("another guess", &hash));
}

#[test]
fn two_hashes_of_one_message_use_fresh_salts() {
    let first = Cipher::cipher("same input");
    let second = Cipher::cipher("same input");
    assert_ne!(first, second);
    assert!(Cipher::check("same input", &first));
    assert!(Cipher::check("same input", &second));
}

#[test]
fn try_check_gives_no_verdict_on_a_hash_that_does_not_decode() {
    assert_eq!(Cipher::try_check("pw", "not an encoded hash"), None);
    let hash = Cipher::cipher("pw");
    assert_eq!(Cipher::try_check("pw", &hash), Some(true));
    assert_eq!(Cipher::try_check("other", &hash), Some(false));
}

#[test]
fn password_complexity_gate() {
    assert!(!Cipher::validate_password_complexity(""));
    assert!(!Cipher::validate_password_complexity("password"));
    assert!(!Cipher::validate_password_complexity("abc"));
    assert!(Cipher::validate_password_complexity("correct horse battery staple"));
    assert!(Cipher::validate_password_complexity("kV9#mQ2$xRw7@pLc"));
}

#[test]
fn score_acceptance_threshold_is_three() {
    assert!(!Cipher::score_acceptable(None));
    assert!(!Cipher::score_acceptable(Some(0)));
    assert!(!Cipher::score_acceptable(Some(2)));
    assert!(Cipher::score_acceptable(Some(3)));
    assert!(Cipher::score_acceptable(Some(4)));
}

#[test]
fn validate_password_reports_the_complexity_code() {
    assert_eq!(
        validate_password("password"),
        Err("password_complexity".to_string())
    );
    assert_eq!(validate_password(""), Err("password_complexity".to_string()));
    assert_eq!(validate_password("correct horse battery staple"), Ok(()));
}

#[test]
fn api_keys_are_stored_as_their_digest() {
    let dto = NewApiUserDTO {
        name: "robot".to_string(),
        api_key: "hello".to_string(),
    };
    assert_eq!(
        dto.hashed_key(),
        "2cf24dba5fb0a30e26e83b2ac5b9e29e1b161e5c1fa7425e73043362938b9824"
    );
    assert_eq!(dto.hashed_key(), Cipher::hash(&dto.api_key));
}
