//! The rules of accounts, sessions and API keys: what is checked before a
//! request is served and what each failure is called. Looking records up,
//! hashing passwords and signing tokens are the caller's work; the decisions
//! between those steps are made here.

use vstd::prelude::*;
use crate::models::{
    secret_of, ApiKey, ApiKeyResponse, AuthResponse, CreateApiKeyRequest, LoginRequest,
    RegisterRequest, SubscriptionTier, User,
};
use crate::records::{hex_of, id_from_hex, parsed_id, RecordId};
use crate::text::{has_prefix, starts_with, to_chars, from_chars};

verus! {

/// Why a request about an account, a session or a key was refused.
#[derive(Clone, Copy, Debug, PartialEq, Eq, Structural)]
pub enum AuthError {
    EmailTaken,
    InvalidCredentials,
    Deactivated,
    MissingUserId,
    InvalidTokenSubject,
    UserNotFound,
    InvalidUserId,
    InvalidApiKeyId,
    ApiKeyNotFound,
    InvalidApiKey,
    UserNotStored,
    ApiKeyNotStored,
}

impl AuthError {
    /// The message shown for the error.
    pub open spec fn text(self) -> Seq<char> {
        match self {
            AuthError::EmailTaken => "User with this email already exists"@,
            AuthError::InvalidCredentials => "Invalid email or password"@,
            AuthError::Deactivated => "Account is deactivated"@,
            AuthError::MissingUserId => "User ID not found"@,
            AuthError::InvalidTokenSubject => "Invalid user ID in token"@,
            AuthError::UserNotFound => "User not found"@,
            AuthError::InvalidUserId => "Invalid user ID"@,
            AuthError::InvalidApiKeyId => "Invalid API key ID"@,
            AuthError::ApiKeyNotFound => "API key not found"@,
            AuthError::InvalidApiKey => "Invalid API key"@,
            AuthError::UserNotStored => "Failed to get user ID"@,
            AuthError::ApiKeyNotStored => "Failed to get API key ID"@,
        }
    }

    /// The message shown for the error.
    pub fn message(&self) -> (r: String)
        ensures
            r@ == self.text(),
    {
        match self {
            AuthError::EmailTaken => "User with this email already exists".to_owned(),
            AuthError::InvalidCredentials => "Invalid email or password".to_owned(),
            AuthError::Deactivated => "Account is deactivated".to_owned(),
            AuthError::MissingUserId => "User ID not found".to_owned(),
            AuthError::InvalidTokenSubject => "Invalid user ID in token".to_owned(),
            AuthError::UserNotFound => "User not found".to_owned(),
            AuthError::InvalidUserId => "Invalid user ID".to_owned(),
            AuthError::InvalidApiKeyId => "Invalid API key ID".to_owned(),
            AuthError::ApiKeyNotFound => "API key not found".to_owned(),
            AuthError::InvalidApiKey => "Invalid API key".to_owned(),
            AuthError::UserNotStored => "Failed to get user ID".to_owned(),
            AuthError::ApiKeyNotStored => "Failed to get API key ID".to_owned(),
        }
    }
}

/// The claims of a session token: whose it is, when it expires and when it
/// was issued, both in seconds since the Unix epoch.
#[derive(Clone, Debug)]
pub struct Claims {
    pub sub: String,
    pub exp: i64,
    pub iat: i64,
}

/// The lifetime of a session token: thirty days, in seconds.
pub const TOKEN_LIFETIME_SECONDS: i64 = 2_592_000;

impl Claims {
    /// The claims of a token issued to `user_id` at `now`.
    pub fn issue(user_id: &str, now: i64) -> (r: Claims)
        requires
            now + TOKEN_LIFETIME_SECONDS <= i64::MAX,
        ensures
            r.sub@ == user_id@,
            r.iat == now,
            r.exp == now + TOKEN_LIFETIME_SECONDS,
    {
        Claims { sub: user_id.to_owned(), exp: now + TOKEN_LIFETIME_SECONDS, iat: now }
    }

    /// The claims of a token issued to `user_id` at `now`; none where the
    /// expiry would lie beyond the last representable second.
    pub fn try_issue(user_id: &str, now: i64) -> (r: Option<Claims>)
        ensures
            match r {
                Some(claims) => now + TOKEN_LIFETIME_SECONDS <= i64::MAX && claims.sub@
                    == user_id@ && claims.iat == now && claims.exp == now
                    + TOKEN_LIFETIME_SECONDS,
                None => now + TOKEN_LIFETIME_SECONDS > i64::MAX,
            },
    {
        if now <= i64::MAX - TOKEN_LIFETIME_SECONDS {
            Some(Claims::issue(user_id, now))
        } else {
            None
        }
    }
}

/// Whether `text` is an e-mail address, as `validator` judges it.
pub uninterp spec fn email_valid(text: Seq<char>) -> bool;

/// Calls `validator::ValidateEmail::validate_email` on the text. The
/// contract claims only that the answer is what `email_valid` stands for.
#[verifier::external_body]
fn check_email(text: &str) -> (r: bool)
    ensures
        r == email_valid(text@),
{
    validator::ValidateEmail::validate_email(&text)
}

/// Which fields of a request were refused.
#[derive(Clone, Copy, Debug, PartialEq, Eq, Structural)]
pub struct InvalidFields {
    pub email: bool,
    pub password: bool,
    pub first_name: bool,
    pub last_name: bool,
}

impl InvalidFields {
    /// Some field was refused.
    pub open spec fn any(self) -> bool {
        self.email || self.password || self.first_name || self.last_name
    }
}

/// The shortest password accepted, in characters.
pub const MIN_PASSWORD_LENGTH: usize = 8;

/// The fields of a registration that are refused: an e-mail address that is
/// none, a password of fewer than eight characters, an empty name.
pub open spec fn registration_faults(
    email: Seq<char>,
    password: Seq<char>,
    first_name: Seq<char>,
    last_name: Seq<char>,
) -> InvalidFields {
    InvalidFields {
        email: !email_valid(email),
        password: password.len() < MIN_PASSWORD_LENGTH,
        first_name: first_name.len() < 1,
        last_name: last_name.len() < 1,
    }
}

impl RegisterRequest {
    /// Checks the fields of the request, and names those that are refused.
    pub fn validate(&self) -> (r: Result<(), InvalidFields>)
        ensures
            match r {
                Ok(_) => !registration_faults(
                    self.email@,
                    self.password@,
                    self.first_name@,
                    self.last_name@,
                ).any(),
                Err(faults) => faults.any() && faults == registration_faults(
                    self.email@,
                    self.password@,
                    self.first_name@,
                    self.last_name@,
                ),
            },
    {
        let faults = InvalidFields {
            email: !check_email(self.email.as_str()),
            password: to_chars(self.password.as_str()).len() < MIN_PASSWORD_LENGTH,
            first_name: self.first_name.as_str().is_empty(),
            last_name: self.last_name.as_str().is_empty(),
        };
        if faults.email || faults.password || faults.first_name || faults.last_name {
            Err(faults)
        } else {
            Ok(())
        }
    }
}

impl LoginRequest {
    /// Checks the request: its e-mail address must be one.
    pub fn validate(&self) -> (r: Result<(), InvalidFields>)
        ensures
            match r {
                Ok(_) => email_valid(self.email@),
                Err(faults) => !email_valid(self.email@) && faults == (InvalidFields {
                    email: true,
                    password: false,
                    first_name: false,
                    last_name: false,
                }),
            },
    {
        if check_email(self.email.as_str()) {
            Ok(())
        } else {
            Err(InvalidFields { email: true, password: false, first_name: false, last_name: false })
        }
    }
}

/// The hourly rate limit of a key: what was asked for, one hundred by
/// default and at most on the free plan, one thousand by default and at most
/// on the pro plan, ten thousand by default and unbounded on the enterprise
/// plan.
pub open spec fn rate_limit_of(tier: SubscriptionTier, requested: Option<i32>) -> i32 {
    match tier {
        SubscriptionTier::Free => match requested {
            Some(n) => if n < 100 {
                n
            } else {
                100
            },
            None => 100,
        },
        SubscriptionTier::Pro => match requested {
            Some(n) => if n < 1000 {
                n
            } else {
                1000
            },
            None => 1000,
        },
        SubscriptionTier::Enterprise => match requested {
            Some(n) => n,
            None => 10000,
        },
    }
}

/// The hourly rate limit of a key on the given plan.
pub fn rate_limit_for(tier: SubscriptionTier, requested: Option<i32>) -> (r: i32)
    ensures
        r == rate_limit_of(tier, requested),
{
    let (default, capped): (i32, bool) = match tier {
        SubscriptionTier::Free => (100, true),
        SubscriptionTier::Pro => (1000, true),
        SubscriptionTier::Enterprise => (10000, false),
    };
    match requested {
        Some(n) => if capped && n >= default {
            default
        } else {
            n
        },
        None => default,
    }
}

/// Reads an identifier from its hexadecimal form, or fails with `error`.
pub fn parse_id(text: &str, error: AuthError) -> (r: Result<RecordId, AuthError>)
    ensures
        match r {
            Ok(id) => parsed_id(text@) == Some(id.bytes@),
            Err(e) => e == error && parsed_id(text@) is None,
        },
{
    match id_from_hex(text) {
        Some(bytes) => Ok(RecordId { bytes }),
        None => Err(error),
    }
}

/// Registration may go on only where no account has the e-mail address yet.
pub fn ensure_unregistered(existing: &Option<User>) -> (r: Result<(), AuthError>)
    ensures
        r is Ok <==> existing is None,
        r is Err ==> r->Err_0 == AuthError::EmailTaken,
{
    match existing {
        Some(_) => Err(AuthError::EmailTaken),
        None => Ok(()),
    }
}

/// The account as stored: `user` with the identifier that storing it gave.
/// Fails where storing gave none.
pub fn stored_user(user: User, inserted: Option<RecordId>) -> (r: Result<User, AuthError>)
    ensures
        match r {
            Ok(stored) => inserted is Some && stored.id == inserted && stored.email == user.email
                && stored.password_hash == user.password_hash && stored.first_name
                == user.first_name && stored.last_name == user.last_name && stored.created_at
                == user.created_at && stored.updated_at == user.updated_at && stored.is_active
                == user.is_active && stored.subscription_tier == user.subscription_tier
                && stored.monthly_requests == user.monthly_requests && stored.monthly_limit
                == user.monthly_limit,
            Err(e) => inserted is None && e == AuthError::UserNotStored,
        },
{
    match inserted {
        Some(id) => {
            let mut stored = user;
            stored.id = Some(id);
            Ok(stored)
        },
        None => Err(AuthError::UserNotStored),
    }
}

/// Whose session a sign-in opens: the identifier of the account in
/// hexadecimal. The password must match, the account must be active and
/// stored; a wrong password is not told apart from an unknown address.
pub fn login_subject(user: &User, password_matches: bool) -> (r: Result<String, AuthError>)
    ensures
        match r {
            Ok(subject) => password_matches && user.is_active && user.id is Some && subject@
                == hex_of(user.id->0.bytes@),
            Err(e) => e == (if !password_matches {
                AuthError::InvalidCredentials
            } else if !user.is_active {
                AuthError::Deactivated
            } else {
                AuthError::MissingUserId
            }) && !(password_matches && user.is_active && user.id is Some),
        },
{
    if !password_matches {
        return Err(AuthError::InvalidCredentials);
    }
    if !user.is_active {
        return Err(AuthError::Deactivated);
    }
    match &user.id {
        Some(id) => Ok(id.to_hex()),
        None => Err(AuthError::MissingUserId),
    }
}

/// The answer to a successful registration or sign-in.
pub fn auth_response(user: &User, token: String) -> (r: AuthResponse)
    ensures
        r.token == token,
        r.user.email@ == user.email@,
        r.user.id@ == crate::records::hex_or_empty(user.id),
        r.user.first_name@ == user.first_name@,
        r.user.last_name@ == user.last_name@,
        r.user.subscription_tier == user.subscription_tier,
        r.user.monthly_requests == user.monthly_requests,
        r.user.monthly_limit == user.monthly_limit,
        r.user.created_at@ == crate::records::rfc3339_or_empty(user.created_at),
{
    AuthResponse { token, user: user.to_profile() }
}

/// Whether the account that a token names may still act: it must exist and
/// be active.
pub fn ensure_active(user: &Option<User>) -> (r: Result<(), AuthError>)
    ensures
        match r {
            Ok(_) => user is Some && user->0.is_active,
            Err(e) => e == (if user is None {
                AuthError::UserNotFound
            } else {
                AuthError::Deactivated
            }) && !(user is Some && user->0.is_active),
        },
{
    match user {
        Some(user) => if user.is_active {
            Ok(())
        } else {
            Err(AuthError::Deactivated)
        },
        None => Err(AuthError::UserNotFound),
    }
}

/// The key that a request creates for `owner`: rate-limited as the owner's
/// plan allows, its secret made from `token`.
pub fn new_api_key(
    owner: &User,
    owner_id: RecordId,
    request: CreateApiKeyRequest,
    token: &str,
    now: i64,
) -> (r: ApiKey)
    ensures
        r.id is None,
        r.user_id == owner_id,
        r.key@ == secret_of(token@),
        r.name == request.name,
        r.description == request.description,
        r.created_at == now,
        r.last_used_at is None,
        r.is_active,
        r.requests_count == 0,
        r.rate_limit_per_hour == rate_limit_of(
            owner.subscription_tier,
            request.rate_limit_per_hour,
        ),
{
    let rate_limit = rate_limit_for(owner.subscription_tier, request.rate_limit_per_hour);
    ApiKey::new(owner_id, request.name, request.description, rate_limit, token, now)
}

/// The key as stored: `key` with the identifier that storing it gave. Fails
/// where storing gave none.
pub fn stored_key(key: ApiKey, inserted: Option<RecordId>) -> (r: Result<ApiKey, AuthError>)
    ensures
        match r {
            Ok(stored) => inserted is Some && stored.id == inserted && stored.user_id
                == key.user_id && stored.key == key.key && stored.name == key.name
                && stored.description == key.description && stored.created_at == key.created_at
                && stored.last_used_at == key.last_used_at && stored.is_active == key.is_active
                && stored.requests_count == key.requests_count && stored.rate_limit_per_hour
                == key.rate_limit_per_hour,
            Err(e) => inserted is None && e == AuthError::ApiKeyNotStored,
        },
{
    match inserted {
        Some(id) => {
            let mut stored = key;
            stored.id = Some(id);
            Ok(stored)
        },
        None => Err(AuthError::ApiKeyNotStored),
    }
}

/// The keys as shown to their owner, in the order given.
pub fn key_responses(keys: &Vec<ApiKey>) -> (r: Vec<ApiKeyResponse>)
    ensures
        r@.len() == keys@.len(),
        forall|i: int|
            0 <= i < keys@.len() ==> (#[trigger] r@[i]).key@ == keys@[i].key@ && r@[i].name@
                == keys@[i].name@ && r@[i].id@ == crate::records::hex_or_empty(keys@[i].id)
                && r@[i].is_active == keys@[i].is_active && r@[i].requests_count
                == keys@[i].requests_count && r@[i].rate_limit_per_hour
                == keys@[i].rate_limit_per_hour && r@[i].description.deep_view()
                == keys@[i].description.deep_view() && r@[i].created_at@
                == crate::records::rfc3339_or_empty(keys@[i].created_at)
                && r@[i].last_used_at.deep_view() == crate::models::optional_instant(
                keys@[i].last_used_at,
            ),
{
    let mut r: Vec<ApiKeyResponse> = Vec::new();
    let mut i: usize = 0;
    while i < keys.len()
        invariant
            i <= keys.len(),
            r@.len() == i,
            forall|j: int|
                0 <= j < i ==> (#[trigger] r@[j]).key@ == keys@[j].key@ && r@[j].name@
                    == keys@[j].name@ && r@[j].id@ == crate::records::hex_or_empty(keys@[j].id)
                    && r@[j].is_active == keys@[j].is_active && r@[j].requests_count
                    == keys@[j].requests_count && r@[j].rate_limit_per_hour
                    == keys@[j].rate_limit_per_hour && r@[j].description.deep_view()
                    == keys@[j].description.deep_view() && r@[j].created_at@
                    == crate::records::rfc3339_or_empty(keys@[j].created_at)
                    && r@[j].last_used_at.deep_view() == crate::models::optional_instant(
                    keys@[j].last_used_at,
                ),
        decreases keys.len() - i,
    {
        r.push(keys[i].to_response());
        i += 1;
    }
    r
}

/// Whether a deletion found its key: it did where at least one record went.
pub fn deletion_outcome(deleted_count: u64) -> (r: Result<(), AuthError>)
    ensures
        r is Ok <==> deleted_count > 0,
        r is Err ==> r->Err_0 == AuthError::ApiKeyNotFound,
{
    if deleted_count == 0 {
        Err(AuthError::ApiKeyNotFound)
    } else {
        Ok(())
    }
}

/// On whose behalf a presented key acts: its owner and the key's own
/// identifier. A key that was not found is refused.
pub fn key_owner(found: &Option<ApiKey>) -> (r: Result<(RecordId, RecordId), AuthError>)
    requires
        found is Some ==> found->0.id is Some,
    ensures
        match r {
            Ok((owner, key)) => found is Some && owner == found->0.user_id && Some(key)
                == found->0.id,
            Err(e) => found is None && e == AuthError::InvalidApiKey,
        },
{
    match found {
        Some(key) => match key.id {
            Some(id) => Ok((key.user_id, id)),
            None => Err(AuthError::InvalidApiKey),
        },
        None => Err(AuthError::InvalidApiKey),
    }
}

/// The token that an `Authorization` header carries: what follows the
/// prefix `Bearer `, where the header is present and begins with it.
pub open spec fn bearer_of(header: Option<Seq<char>>) -> Option<Seq<char>> {
    match header {
        Some(value) => if has_prefix(value, "Bearer "@) {
            Some(value.skip("Bearer "@.len() as int))
        } else {
            None
        },
        None => None,
    }
}

/// The token that an `Authorization` header carries.
pub fn bearer_token(header: Option<&str>) -> (r: Option<String>)
    ensures
        r.deep_view() == bearer_of(header.deep_view()),
{
    match header {
        Some(value) => {
            let chars = to_chars(value);
            let prefix = to_chars("Bearer ");
            if starts_with(chars.as_slice(), prefix.as_slice()) {
                let mut rest: Vec<char> = Vec::new();
                let mut i: usize = prefix.len();
                while i < chars.len()
                    invariant
                        prefix.len() <= i <= chars.len(),
                        rest@ == chars@.subrange(prefix.len() as int, i as int),
                    decreases chars.len() - i,
                {
                    rest.push(chars[i]);
                    proof {
                        assert(rest@ =~= chars@.subrange(prefix.len() as int, i + 1));
                    }
                    i += 1;
                }
                proof {
                    assert(rest@ =~= value@.skip("Bearer "@.len() as int));
                }
                Some(from_chars(rest.as_slice()))
            } else {
                None
            }
        },
        None => None,
    }
}

} // verus!
