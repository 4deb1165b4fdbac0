//! The dashboard's authentication decision and its error mapping.

use vstd::prelude::*;

use crate::hexutil::{hex_decode, is_hex_str};

verus! {

/// The reply to a successful authentication: the issued or revalidated
/// token.
#[derive(Clone, Debug)]
pub struct AuthResponse {
    /// The token text.
    pub jwt: String,
}

/// Authentication settings of the dashboard.
#[derive(Clone, Debug)]
pub struct DashboardAuthConfig {
    /// The single accepted user name.
    pub user: String,
    /// Salt of the stored password hash, hexadecimal.
    pub password_salt: String,
    /// The stored password hash, hexadecimal.
    pub password_hash: String,
    /// How long an issued token stays valid, in seconds.
    pub session_timeout: u64,
}

impl DashboardAuthConfig {
    /// A usable configuration carries hexadecimal salt and hash.
    pub open spec fn wf(self) -> bool {
        is_hex_str(self.password_salt@) && is_hex_str(self.password_hash@)
    }

    /// The single accepted user name.
    pub fn user(&self) -> (r: &String)
        ensures
            r == self.user,
    {
        &self.user
    }

    /// Salt of the stored password hash, hexadecimal.
    pub fn password_salt(&self) -> (r: &String)
        ensures
            r == self.password_salt,
    {
        &self.password_salt
    }

    /// The stored password hash, hexadecimal.
    pub fn password_hash(&self) -> (r: &String)
        ensures
            r == self.password_hash,
    {
        &self.password_hash
    }

    /// How long an issued token stays valid, in seconds.
    pub fn session_timeout(&self) -> (r: u64)
        ensures
            r == self.session_timeout,
    {
        self.session_timeout
    }
}

/// Why an authentication request was turned away.
#[derive(Clone, PartialEq, Eq, Debug)]
pub enum CustomRejection {
    /// The request names no user.
    NoUserProvided,
    /// The request carries no password.
    NoPasswordProvided,
    /// The user name or password is wrong.
    InvalidCredentials,
    /// The presented token is not acceptable.
    InvalidJwt,
    /// Authentication failed for an internal reason.
    InternalError(String),
}

/// What the authentication decided; the caller carries it out.
#[derive(Clone, PartialEq, Eq, Debug)]
pub enum AuthDecision {
    /// A token was presented: validate it, and echo it back when valid.
    ValidateJwt(String),
    /// The credentials check out: issue a fresh token for the configured
    /// session.
    IssueJwt,
    /// Turn the request away.
    Reject(CustomRejection),
}

/// The named result of the password check, a function of password, salt
/// and stored hash alone.
pub uninterp spec fn password_matches(password: Seq<char>, salt: Seq<u8>, hash: Seq<u8>) -> bool;

/// Relies on auth_helper::password::password_verify: whether the password
/// hashes to the stored hash under the salt; a function of its arguments
/// alone. A fault of the hasher is reported without detail.
#[verifier::external_body]
fn password_verify(password: &str, salt: &[u8], hash: &[u8]) -> (r: Result<bool, ()>)
    ensures
        r is Ok ==> r->Ok_0 == password_matches(password@, salt@, hash@),
{
    auth_helper::password::password_verify(password.as_bytes(), salt, hash).map_err(|_| ())
}

/// Decides an authentication request from its extracted fields: a
/// presented token short-circuits to validation; otherwise the user name
/// must match and the password must hash to the stored value, in which
/// case a fresh token is issued.
pub fn auth(
    jwt: Option<String>,
    user: Option<String>,
    password: Option<String>,
    config: &DashboardAuthConfig,
) -> (r: AuthDecision)
    requires
        config.wf(),
    ensures
        jwt is Some ==> r == AuthDecision::ValidateJwt(jwt->0),
        jwt is None && user is None ==> r == AuthDecision::Reject(CustomRejection::NoUserProvided),
        jwt is None && user is Some && user->0@ != config.user@ ==> r == AuthDecision::Reject(
            CustomRejection::InvalidCredentials,
        ),
        jwt is None && user is Some && user->0@ == config.user@ && password is None ==> r == AuthDecision::Reject(
            CustomRejection::NoPasswordProvided,
        ),
        jwt is None && user is Some && user->0@ == config.user@ && password is Some ==> (r
            == AuthDecision::IssueJwt || r == AuthDecision::Reject(CustomRejection::InvalidCredentials)
            || (r matches AuthDecision::Reject(e) && e is InternalError)),
        jwt is None && user is Some && user->0@ == config.user@ && password is Some && r
            == AuthDecision::IssueJwt ==> password_matches(
            password->0@,
            crate::hexutil::hex_decoded(config.password_salt@),
            crate::hexutil::hex_decoded(config.password_hash@),
        ),
{
    match jwt {
        Some(token) => {
            return AuthDecision::ValidateJwt(token);
        },
        None => {},
    }
    let user = match user {
        Some(user) => user,
        None => {
            return AuthDecision::Reject(CustomRejection::NoUserProvided);
        },
    };
    if !(user == *config.user()) {
        return AuthDecision::Reject(CustomRejection::InvalidCredentials);
    }
    let password = match password {
        Some(password) => password,
        None => {
            return AuthDecision::Reject(CustomRejection::NoPasswordProvided);
        },
    };
    let salt = match hex_decode(config.password_salt().as_str()) {
        Ok(salt) => salt,
        Err(_) => {
            proof {
                assert(false);
            }
            return AuthDecision::Reject(CustomRejection::InvalidJwt);
        },
    };
    let hash = match hex_decode(config.password_hash().as_str()) {
        Ok(hash) => hash,
        Err(_) => {
            proof {
                assert(false);
            }
            return AuthDecision::Reject(CustomRejection::InvalidJwt);
        },
    };
    match password_verify(password.as_str(), salt.as_slice(), hash.as_slice()) {
        Ok(true) => AuthDecision::IssueJwt,
        Ok(false) => AuthDecision::Reject(CustomRejection::InvalidCredentials),
        Err(_) => AuthDecision::Reject(
            CustomRejection::InternalError("the stored credentials cannot be checked".to_string()),
        ),
    }
}

/// Maps a rejection onto the HTTP status, error code and reason of the
/// reply, exactly as the dashboard reports them.
pub fn handle_rejection(rejection: Option<&CustomRejection>, is_not_found: bool, is_method_not_allowed: bool) -> (r:
    (u16, &'static str, &'static str))
    ensures
        match rejection {
            Some(e) => match e {
                CustomRejection::NoUserProvided => r == (400u16, "400", "user not found"),
                CustomRejection::NoPasswordProvided => r == (400u16, "400", "password not found"),
                CustomRejection::InvalidCredentials => r == (403u16, "403", "wrong username or password"),
                CustomRejection::InvalidJwt => r == (403u16, "403", "invalid JWT"),
                CustomRejection::InternalError(_) => r == (500u16, "500", "internal server error"),
            },
            None => {
                if is_not_found {
                    r == (404u16, "404", "data not found")
                } else if is_method_not_allowed {
                    r == (403u16, "403", "access forbidden")
                } else {
                    r == (500u16, "500", "internal server error")
                }
            },
        },
{
    match rejection {
        Some(CustomRejection::NoUserProvided) => (400, "400", "user not found"),
        Some(CustomRejection::NoPasswordProvided) => (400, "400", "password not found"),
        Some(CustomRejection::InvalidCredentials) => (403, "403", "wrong username or password"),
        Some(CustomRejection::InvalidJwt) => (403, "403", "invalid JWT"),
        Some(CustomRejection::InternalError(_)) => (500, "500", "internal server error"),
        None => {
            if is_not_found {
                (404, "404", "data not found")
            } else if is_method_not_allowed {
                (403, "403", "access forbidden")
            } else {
                (500, "500", "internal server error")
            }
        },
    }
}

} // verus!
