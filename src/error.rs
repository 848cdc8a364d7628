use vstd::prelude::*;

verus! {

/// Declares `argon2::Error`, which password hashing may report.
#[verifier::external_type_specification]
#[verifier::external_body]
pub struct ExHashError(argon2::Error);

/// What is wrong with a username.
#[derive(Debug, Clone, Copy, PartialEq, Eq)]
pub enum UsernameProblem {
    /// Not between 3 and 32 bytes long.
    Length,
    /// A character other than an ASCII letter, a digit, `-` or `_`.
    Character,
}

/// What is wrong with a linked address.
#[derive(Debug, Clone, Copy, PartialEq, Eq)]
pub enum AddressProblem {
    /// Not 42 bytes long.
    Length,
    /// Not `0x` followed by hexadecimal digits.
    Character,
}

/// Every way an operation of this library can fail.
#[derive(Debug)]
pub enum AuthError {
    /// The canonical username or the linked address is already registered.
    UserExists,
    /// No account has that username or identity.
    UserDoesNotExist,
    /// No account has that linked address.
    EthDoesNotExist,
    /// Unknown user or wrong password; deliberately not told apart.
    InvalidLogin,
    /// The token was never issued, was already used, or has expired.
    InvalidToken,
    /// The user store failed.
    Db(String),
    /// Password hashing failed.
    Hash(argon2::Error),
    /// A request body could not be decoded.
    Json(String),
    /// The username is malformed.
    InvalidRequest(UsernameProblem),
    /// The linked address is malformed.
    InvalidEthAddr(AddressProblem),
    /// The caller has made too many requests.
    RateLimit,
}

/// The status code that the transport answers an error with.
pub open spec fn status_of(e: AuthError) -> u16 {
    match e {
        AuthError::Db(_) => 500,
        AuthError::Hash(_) => 500,
        AuthError::RateLimit => 429,
        _ => 400,
    }
}

/// The fixed part of an error's message: all of it for an error without a
/// payload, the text before the payload otherwise.
pub open spec fn message_head(e: AuthError) -> Seq<char> {
    match e {
        AuthError::UserExists => "That username is already taken."@,
        AuthError::UserDoesNotExist => "That user does not exist."@,
        AuthError::EthDoesNotExist => "That ethereum address does not exist."@,
        AuthError::InvalidLogin =>
            "The username + password + Eth_addr combination was incorrect or the user does not exist."@,
        AuthError::InvalidToken => "The given token is invalid."@,
        AuthError::Db(_) => "Database error: "@,
        AuthError::Hash(_) => "Error securely storing password: "@,
        AuthError::Json(_) => "Error decoding JSON: "@,
        AuthError::InvalidRequest(p) => match p {
            UsernameProblem::Length =>
                "The request was invalid in some form. Reason: Username must be between 3 and 32 characters inclusive."@,
            UsernameProblem::Character =>
                "The request was invalid in some form. Reason: Illegal character in username."@,
        },
        AuthError::InvalidEthAddr(p) => match p {
            AddressProblem::Length =>
                "The given eth addr is invalid: Eth address must be 42 characters with the hex prefix '0x'."@,
            AddressProblem::Character =>
                "The given eth addr is invalid: Illegal character in Ethereum address."@,
        },
        AuthError::RateLimit => "You are sending too many requests. Please slow down."@,
    }
}

/// Relies on the `Display` impl of `argon2::Error`, for the text of a
/// hashing failure; nothing is stated of that text.
#[verifier::external_body]
fn hash_error_text(e: &argon2::Error) -> String {
    format!("{}", e)
}

impl AuthError {
    /// The status code that the transport answers this error with.
    pub fn status_code(&self) -> (r: u16)
        ensures
            r == status_of(*self),
    {
        match self {
            AuthError::UserExists => 400,
            AuthError::UserDoesNotExist => 400,
            AuthError::EthDoesNotExist => 400,
            AuthError::InvalidLogin => 400,
            AuthError::InvalidToken => 400,
            AuthError::Db(_) => 500,
            AuthError::Hash(_) => 500,
            AuthError::Json(_) => 400,
            AuthError::InvalidRequest(_) => 400,
            AuthError::InvalidEthAddr(_) => 400,
            AuthError::RateLimit => 429,
        }
    }

    /// The human-readable message sent to the caller.
    pub fn message(&self) -> (r: String)
        ensures
            self is Db ==> r@ == message_head(*self) + self->Db_0@,
            self is Json ==> r@ == message_head(*self) + self->Json_0@,
            self is Hash ==> r@.len() >= message_head(*self).len() && r@.subrange(
                0,
                message_head(*self).len() as int,
            ) == message_head(*self),
            !(self is Db || self is Json || self is Hash) ==> r@ == message_head(*self),
    {
        match self {
            AuthError::UserExists => String::from_str("That username is already taken."),
            AuthError::UserDoesNotExist => String::from_str("That user does not exist."),
            AuthError::EthDoesNotExist => String::from_str(
                "That ethereum address does not exist.",
            ),
            AuthError::InvalidLogin => String::from_str(
                "The username + password + Eth_addr combination was incorrect or the user does not exist.",
            ),
            AuthError::InvalidToken => String::from_str("The given token is invalid."),
            AuthError::Db(s) => {
                let mut r = String::from_str("Database error: ");
                r.append(s.as_str());
                r
            },
            AuthError::Hash(e) => {
                let mut r = String::from_str("Error securely storing password: ");
                let ghost head = r@;
                let t = hash_error_text(e);
                r.append(t.as_str());
                assert(r@.subrange(0, head.len() as int) =~= head);
                r
            },
            AuthError::Json(s) => {
                let mut r = String::from_str("Error decoding JSON: ");
                r.append(s.as_str());
                r
            },
            AuthError::InvalidRequest(p) => match p {
                UsernameProblem::Length => String::from_str(
                    "The request was invalid in some form. Reason: Username must be between 3 and 32 characters inclusive.",
                ),
                UsernameProblem::Character => String::from_str(
                    "The request was invalid in some form. Reason: Illegal character in username.",
                ),
            },
            AuthError::InvalidEthAddr(p) => match p {
                AddressProblem::Length => String::from_str(
                    "The given eth addr is invalid: Eth address must be 42 characters with the hex prefix '0x'.",
                ),
                AddressProblem::Character => String::from_str(
                    "The given eth addr is invalid: Illegal character in Ethereum address.",
                ),
            },
            AuthError::RateLimit => String::from_str(
                "You are sending too many requests. Please slow down.",
            ),
        }
    }
}

} // verus!
