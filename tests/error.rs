use auth_core::error::{AddressProblem, AuthError, UsernameProblem};

#[test]
fn status_codes() {
    assert_eq!(AuthError::UserExists.status_code(), 400);
    assert_eq!(AuthError::UserDoesNotExist.status_code(), 400);
    assert_eq!(AuthError::EthDoesNotExist.status_code(), 400);
    assert_eq!(AuthError::InvalidLogin.status_code(), 400);
    assert_eq!(AuthError::InvalidToken.status_code(), 400);
    assert_eq!(AuthError::Db("x".to_string()).status_code(), 500);
    assert_eq!(AuthError::Hash(argon2::Error::SaltTooShort).status_code(), 500);
    assert_eq!(AuthError::Json("x".to_string()).status_code(), 400);
    assert_eq!(AuthError::InvalidRequest(UsernameProblem::Length).status_code(), 400);
    assert_eq!(AuthError::InvalidEthAddr(AddressProblem::Character).status_code(), 400);
    assert_eq!(AuthError::RateLimit.status_code(), 429);
}

#[test]
fn messages() {
    assert_eq!(AuthError::UserExists.message(), "That username is already taken.");
    assert_eq!(AuthError::InvalidToken.message(), "The given token is invalid.");
    assert_eq!(
        AuthError::Db("disk full".to_string()).message(),
        "Database error: disk full"
    );
    assert_eq!(
        AuthError::Json("EOF".to_string()).message(),
        "Error decoding JSON: EOF"
    );
    assert_eq!(
        AuthError::InvalidRequest(UsernameProblem::Character).message(),
        "The request was invalid in some form. Reason: Illegal character in username."
    );
    assert!(AuthError::Hash(argon2::Error::SaltTooShort)
        .message()
        .starts_with("Error securely storing password: "));
    assert_eq!(
        AuthError::RateLimit.message(),
        "You are sending too many requests. Please slow down."
    );
}
