//! What the account service and the game exchange, and the decisions of that
//! service that depend on nothing but values: which registration is let
//! through, what a login comes to, and which status an error is answered
//! with.

use vstd::prelude::*;
use vstd::utf8::encode_utf8;

verus! {

/// The error type of `bcrypt`. Nothing is known of a value of it but that
/// the check could not be made.
#[verifier::external_type_specification]
#[verifier::external_body]
pub struct ExBcryptError(bcrypt::BcryptError);

/// A request to log in.
#[derive(Clone, Debug, PartialEq, Eq)]
pub struct LoginRequest {
    pub username: String,
    pub password: String,
}

/// The answer to a login or a registration that went through: the id of the
/// account.
#[derive(Clone, Copy, Debug, PartialEq, Eq, Structural)]
pub struct AuthResponse {
    pub id: i32,
}

/// A request to open an account.
#[derive(Clone, Debug, PartialEq, Eq)]
pub struct RegisterReqeust {
    pub username: String,
    pub password: String,
}

/// The answer to a request for the list of game servers. It holds nothing
/// yet.
#[derive(Clone, Copy, Debug, PartialEq, Eq, Structural)]
pub struct GetServerListResponse {
}

/// An account as it is stored.
#[derive(Clone, Debug, PartialEq, Eq)]
pub struct User {
    pub id: i32,
    pub username: String,
    pub password_hash: String,
}

/// Why a request to the account service is turned down.
#[derive(Clone, Debug, PartialEq, Eq)]
pub enum AppError {
    BadRequest(String),
    Unauthorized(String),
    NotFound(String),
    Conflict(String),
    Internal(String),
}

/// The least number of bytes of a user name and of a password.
pub const MIN_CREDENTIAL_LEN: usize = 3;

/// The cost at which passwords are hashed.
pub const HASH_COST: u32 = 12;

/// What `bcrypt::verify` makes of a password and a stored hash: whether the
/// password is the one that was hashed, or nothing where the hash cannot be
/// read or names a cost that is not allowed.
pub uninterp spec fn bcrypt_verdict(password: Seq<char>, hash: Seq<char>) -> Option<bool>;

/// Calls `bcrypt::verify`. The outside function parses the stored hash,
/// hashes the password again with the salt and cost found there, and compares;
/// its result depends on the two texts alone.
#[verifier::external_body]
fn verify_password(password: &str, hash: &str) -> (r: Result<bool, bcrypt::BcryptError>)
    ensures
        match r {
            Ok(same) => bcrypt_verdict(password@, hash@) == Some(same),
            Err(_) => bcrypt_verdict(password@, hash@) is None,
        },
{
    bcrypt::verify(password, hash)
}

/// Calls `bcrypt::hash` with the given cost. The outside function draws a
/// salt from the operating system and hashes the password with it; it fails
/// where no salt can be had or the cost is not allowed. The result depends on
/// the salt, so nothing is claimed of it.
#[verifier::external_body]
fn hash_password(password: &str, cost: u32) -> Result<String, bcrypt::BcryptError> {
    bcrypt::hash(password, cost)
}

/// The bytes of the word "unique".
pub open spec fn unique_word() -> Seq<u8> {
    seq![117u8, 110u8, 105u8, 113u8, 117u8, 101u8]
}

/// The word "unique" stands somewhere in `text`.
pub open spec fn mentions_unique(text: Seq<u8>) -> bool {
    exists|at: int| 0 <= at && at + 6 <= text.len() && #[trigger] text.subrange(at, at + 6) == unique_word()
}

impl AppError {
    /// The message that the error carries.
    pub open spec fn text(self) -> Seq<char> {
        match self {
            AppError::BadRequest(m) => m@,
            AppError::Unauthorized(m) => m@,
            AppError::NotFound(m) => m@,
            AppError::Conflict(m) => m@,
            AppError::Internal(m) => m@,
        }
    }

    /// The HTTP status that the error is answered with.
    pub open spec fn status(self) -> u16 {
        match self {
            AppError::BadRequest(_) => 400,
            AppError::Unauthorized(_) => 401,
            AppError::NotFound(_) => 404,
            AppError::Conflict(_) => 409,
            AppError::Internal(_) => 500,
        }
    }

    /// The HTTP status that the error is answered with.
    pub fn status_code(&self) -> (code: u16)
        ensures
            code == self.status(),
    {
        match self {
            AppError::BadRequest(_) => 400,
            AppError::Unauthorized(_) => 401,
            AppError::NotFound(_) => 404,
            AppError::Conflict(_) => 409,
            AppError::Internal(_) => 500,
        }
    }

    /// A copy of the message that the error carries.
    pub fn message(&self) -> (m: String)
        ensures
            m@ == self.text(),
    {
        match self {
            AppError::BadRequest(m) => m.clone(),
            AppError::Unauthorized(m) => m.clone(),
            AppError::NotFound(m) => m.clone(),
            AppError::Conflict(m) => m.clone(),
            AppError::Internal(m) => m.clone(),
        }
    }

    /// The error that a failed insert of a new account comes to: a conflict
    /// where the store's message speaks of uniqueness, else an internal error
    /// with that message.
    pub fn from_insert_failure(text: String) -> (e: AppError)
        ensures
            mentions_unique(encode_utf8(text@)) ==> e is Conflict && e.text()
                == "Username already exists"@,
            !mentions_unique(encode_utf8(text@)) ==> e is Internal && e.text() == text@,
    {
        if has_unique(text.as_str().as_bytes()) {
            AppError::Conflict("Username already exists".to_owned())
        } else {
            AppError::Internal(text)
        }
    }
}

/// Whether the word "unique" stands somewhere in `text`.
pub fn has_unique(text: &[u8]) -> (found: bool)
    ensures
        found == mentions_unique(text@),
{
    if text.len() < 6 {
        return false;
    }
    let mut at: usize = 0;
    while at <= text.len() - 6
        invariant
            6 <= text@.len(),
            at + 5 <= text@.len(),
            forall|a: int| 0 <= a < at ==> #[trigger] text@.subrange(a, a + 6) != unique_word(),
        decreases text@.len() - at,
    {
        if text[at] == 117 && text[at + 1] == 110 && text[at + 2] == 105 && text[at + 3] == 113
            && text[at + 4] == 117 && text[at + 5] == 101 {
            assert(text@.subrange(at as int, at + 6) =~= unique_word());
            return true;
        }
        at += 1;
    }
    false
}

/// The length of a text in bytes, as a machine word.
pub open spec fn byte_len(text: Seq<char>) -> usize {
    encode_utf8(text).len() as usize
}

impl RegisterReqeust {
    /// Name and password are both long enough.
    pub open spec fn acceptable(self) -> bool {
        byte_len(self.username@) >= MIN_CREDENTIAL_LEN && byte_len(self.password@)
            >= MIN_CREDENTIAL_LEN
    }

    /// Lets a registration through, or turns it down as a bad request.
    pub fn validate(&self) -> (r: Result<(), AppError>)
        ensures
            r is Ok <==> self.acceptable(),
            r matches Err(e) ==> (e is BadRequest && e.text()
                == "Username must be at least 3 characters and password at least 3"@),
    {
        if self.username.as_str().len() < MIN_CREDENTIAL_LEN || self.password.as_str().len()
            < MIN_CREDENTIAL_LEN {
            Err(
                AppError::BadRequest(
                    "Username must be at least 3 characters and password at least 3".to_owned(),
                ),
            )
        } else {
            Ok(())
        }
    }
}

/// `r` is what a login for the account `user_id` comes to, given what the
/// check of the password said: the account's id where the password is the
/// right one, a refusal where it is not, and an internal error where the
/// check could not be made.
pub open spec fn is_login_outcome(
    r: Result<AuthResponse, AppError>,
    user_id: i32,
    checked: Option<bool>,
) -> bool {
    match checked {
        Some(true) => r == Ok::<AuthResponse, AppError>(AuthResponse { id: user_id }),
        Some(false) => (r matches Err(e) && e is Unauthorized && e.text() == "Invalid credentials"@),
        None => (r matches Err(e) && e is Internal && e.text() == "Failed to verify password"@),
    }
}

/// What a login for the account `user_id` comes to, given what the check of
/// the password said.
pub fn login_outcome(user_id: i32, checked: Option<bool>) -> (r: Result<AuthResponse, AppError>)
    ensures
        is_login_outcome(r, user_id, checked),
{
    match checked {
        Some(true) => Ok(AuthResponse { id: user_id }),
        Some(false) => Err(AppError::Unauthorized("Invalid credentials".to_owned())),
        None => Err(AppError::Internal("Failed to verify password".to_owned())),
    }
}

/// Decides a login. `user` is the account stored under the name of the
/// request, if there is one: without one the login is refused, with one it
/// comes to what the check of the password against the stored hash says.
pub fn login(req: &LoginRequest, user: Option<&User>) -> (r: Result<AuthResponse, AppError>)
    ensures
        match user {
            None => (r matches Err(e) && e is Unauthorized && e.text() == "Invalid credentials"@),
            Some(u) => is_login_outcome(r, u.id, bcrypt_verdict(req.password@, u.password_hash@)),
        },
{
    match user {
        None => Err(AppError::Unauthorized("Invalid credentials".to_owned())),
        Some(u) => {
            let checked: Option<bool> = match verify_password(
                req.password.as_str(),
                u.password_hash.as_str(),
            ) {
                Ok(same) => Some(same),
                Err(_) => None,
            };
            login_outcome(u.id, checked)
        },
    }
}

/// `r` is what a registration comes to before the account is stored, given
/// what hashing the password gave: the hash to store, or an internal error
/// where there is none.
pub open spec fn is_registration_outcome(r: Result<String, AppError>, hashed: Option<String>) -> bool {
    match hashed {
        Some(h) => (r matches Ok(stored) && stored@ == h@),
        None => (r matches Err(e) && e is Internal && e.text() == "Failed to hash password"@),
    }
}

/// What a registration comes to before the account is stored, given what
/// hashing the password gave.
pub fn registration_outcome(hashed: Option<String>) -> (r: Result<String, AppError>)
    ensures
        is_registration_outcome(r, hashed),
{
    match hashed {
        Some(h) => Ok(h),
        None => Err(AppError::Internal("Failed to hash password".to_owned())),
    }
}

/// Decides a registration up to the point where the account is stored: a
/// request with too short a name or password is turned down as a bad
/// request and its password is not hashed; of any other the password is
/// hashed, and the result is the hash to store, or an internal error where
/// hashing failed.
pub fn register(req: &RegisterReqeust) -> (r: Result<String, AppError>)
    ensures
        !req.acceptable() ==> (r matches Err(e) && e is BadRequest && e.text()
            == "Username must be at least 3 characters and password at least 3"@),
        req.acceptable() ==> exists|hashed: Option<String>| #[trigger]
            is_registration_outcome(r, hashed),
{
    match req.validate() {
        Err(e) => Err(e),
        Ok(()) => {
            let hashed: Option<String> = match hash_password(req.password.as_str(), HASH_COST) {
                Ok(h) => Some(h),
                Err(_) => None,
            };
            let r = registration_outcome(hashed);
            assert(is_registration_outcome(r, hashed));
            r
        },
    }
}

} // verus!
