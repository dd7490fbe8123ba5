//! The records that the service stores and the messages it exchanges about
//! accounts and API keys.

use vstd::prelude::*;
use crate::records::{hex_or_empty, id_text, instant_text, rfc3339_or_empty, RecordId};
use crate::text::to_chars;

verus! {

/// The plan of an account.
#[derive(Clone, Copy, Debug, PartialEq, Eq, Structural)]
pub enum SubscriptionTier {
    Free,
    Pro,
    Enterprise,
}

impl Default for SubscriptionTier {
    /// Accounts start on the free plan.
    fn default() -> (r: SubscriptionTier)
        ensures
            r == SubscriptionTier::Free,
    {
        SubscriptionTier::Free
    }
}

/// The monthly request allowance of a new account.
pub const FREE_MONTHLY_LIMIT: i64 = 1000;

/// A stored account. Instants are milliseconds since the Unix epoch.
#[derive(Clone, Debug)]
pub struct User {
    pub id: Option<RecordId>,
    pub email: String,
    pub password_hash: String,
    pub first_name: String,
    pub last_name: String,
    pub created_at: i64,
    pub updated_at: i64,
    pub is_active: bool,
    pub subscription_tier: SubscriptionTier,
    pub monthly_requests: i64,
    pub monthly_limit: i64,
}

/// A stored API key.
#[derive(Clone, Debug)]
pub struct ApiKey {
    pub id: Option<RecordId>,
    pub user_id: RecordId,
    pub key: String,
    pub name: String,
    pub description: Option<String>,
    pub created_at: i64,
    pub last_used_at: Option<i64>,
    pub is_active: bool,
    pub requests_count: i64,
    pub rate_limit_per_hour: i32,
}

/// One request served, as it is logged.
#[derive(Clone, Debug)]
pub struct UsageLog {
    pub id: Option<RecordId>,
    pub user_id: RecordId,
    pub api_key_id: RecordId,
    pub endpoint: String,
    pub url_scraped: Option<String>,
    pub timestamp: i64,
    pub response_time_ms: i64,
    pub success: bool,
    pub error_message: Option<String>,
    pub data_size_bytes: i64,
}

/// A request to open an account.
#[derive(Clone, Debug)]
pub struct RegisterRequest {
    pub email: String,
    pub password: String,
    pub first_name: String,
    pub last_name: String,
}

/// A request to sign in.
#[derive(Clone, Debug)]
pub struct LoginRequest {
    pub email: String,
    pub password: String,
}

/// The answer to a successful registration or sign-in.
#[derive(Clone, Debug)]
pub struct AuthResponse {
    pub token: String,
    pub user: UserProfile,
}

/// An account as shown to its owner.
#[derive(Clone, Debug)]
pub struct UserProfile {
    pub id: String,
    pub email: String,
    pub first_name: String,
    pub last_name: String,
    pub subscription_tier: SubscriptionTier,
    pub monthly_requests: i64,
    pub monthly_limit: i64,
    pub created_at: String,
}

/// A request for a new API key.
#[derive(Clone, Debug)]
pub struct CreateApiKeyRequest {
    pub name: String,
    pub description: Option<String>,
    pub rate_limit_per_hour: Option<i32>,
}

/// An API key as shown to its owner.
#[derive(Clone, Debug)]
pub struct ApiKeyResponse {
    pub id: String,
    pub name: String,
    pub key: String,
    pub description: Option<String>,
    pub created_at: String,
    pub last_used_at: Option<String>,
    pub requests_count: i64,
    pub rate_limit_per_hour: i32,
    pub is_active: bool,
}

/// One logged request as shown on the dashboard.
#[derive(Clone, Debug)]
pub struct RecentActivity {
    pub timestamp: String,
    pub endpoint: String,
    pub url_scraped: Option<String>,
    pub success: bool,
    pub response_time_ms: i64,
}

/// `s` without the occurrences of `c`.
pub open spec fn without(s: Seq<char>, c: char) -> Seq<char>
    decreases s.len(),
{
    if s.len() == 0 {
        s
    } else if s.last() == c {
        without(s.drop_last(), c)
    } else {
        without(s.drop_last(), c).push(s.last())
    }
}

/// The secret of an API key made from a token: the token without its
/// hyphens, behind the prefix `sk-`.
pub open spec fn secret_of(token: Seq<char>) -> Seq<char> {
    "sk-"@ + without(token, '-')
}

/// The RFC 3339 form of an instant that may be absent.
pub open spec fn optional_instant(at: Option<i64>) -> Option<Seq<char>> {
    match at {
        Some(millis) => Some(rfc3339_or_empty(millis)),
        None => None,
    }
}

/// The secret of an API key made from `token`.
pub fn key_secret(token: &str) -> (r: String)
    ensures
        r@ == secret_of(token@),
{
    let chars = to_chars(token);
    let mut r = "sk-".to_owned();
    let mut i: usize = 0;
    proof {
        assert(chars@.take(0) =~= Seq::empty());
        assert("sk-"@ + Seq::<char>::empty() =~= "sk-"@);
    }
    while i < chars.len()
        invariant
            i <= chars.len(),
            r@ == "sk-"@ + without(chars@.take(i as int), '-'),
        decreases chars.len() - i,
    {
        proof {
            let next = chars@.take(i + 1);
            assert(next.drop_last() =~= chars@.take(i as int));
            assert(next.last() == chars@[i as int]);
            let done = without(chars@.take(i as int), '-');
            assert(("sk-"@ + done).push(chars@[i as int]) =~= "sk-"@ + done.push(
                chars@[i as int],
            ));
        }
        if chars[i] != '-' {
            r.push(chars[i]);
        }
        i += 1;
    }
    proof {
        assert(chars@.take(chars.len() as int) =~= chars@);
    }
    r
}

/// A copy of a text that may be absent.
pub fn copy_text(text: &Option<String>) -> (r: Option<String>)
    ensures
        r.deep_view() == text.deep_view(),
{
    match text {
        Some(text) => Some(text.clone()),
        None => None,
    }
}

impl User {
    /// A new account, not yet stored: active, on the free plan with its
    /// allowance, nothing used, created and updated at `now`.
    pub fn new(
        email: String,
        password_hash: String,
        first_name: String,
        last_name: String,
        now: i64,
    ) -> (r: User)
        ensures
            r.id is None,
            r.email == email,
            r.password_hash == password_hash,
            r.first_name == first_name,
            r.last_name == last_name,
            r.created_at == now,
            r.updated_at == now,
            r.is_active,
            r.subscription_tier == SubscriptionTier::Free,
            r.monthly_requests == 0,
            r.monthly_limit == FREE_MONTHLY_LIMIT,
    {
        User {
            id: None,
            email,
            password_hash,
            first_name,
            last_name,
            created_at: now,
            updated_at: now,
            is_active: true,
            subscription_tier: SubscriptionTier::Free,
            monthly_requests: 0,
            monthly_limit: FREE_MONTHLY_LIMIT,
        }
    }

    /// The account as shown to its owner: the identifier in hexadecimal
    /// (empty while the account is not stored), the creation instant in RFC
    /// 3339 (empty where it cannot be formatted), and nothing of the password.
    pub fn to_profile(&self) -> (r: UserProfile)
        ensures
            r.id@ == hex_or_empty(self.id),
            r.email@ == self.email@,
            r.first_name@ == self.first_name@,
            r.last_name@ == self.last_name@,
            r.subscription_tier == self.subscription_tier,
            r.monthly_requests == self.monthly_requests,
            r.monthly_limit == self.monthly_limit,
            r.created_at@ == rfc3339_or_empty(self.created_at),
    {
        UserProfile {
            id: id_text(&self.id),
            email: self.email.clone(),
            first_name: self.first_name.clone(),
            last_name: self.last_name.clone(),
            subscription_tier: self.subscription_tier,
            monthly_requests: self.monthly_requests,
            monthly_limit: self.monthly_limit,
            created_at: instant_text(self.created_at),
        }
    }
}

impl ApiKey {
    /// A new key for `user_id`, not yet stored: active, never used, created
    /// at `now`, its secret made from `token`.
    pub fn new(
        user_id: RecordId,
        name: String,
        description: Option<String>,
        rate_limit_per_hour: i32,
        token: &str,
        now: i64,
    ) -> (r: ApiKey)
        ensures
            r.id is None,
            r.user_id == user_id,
            r.key@ == secret_of(token@),
            r.name == name,
            r.description == description,
            r.created_at == now,
            r.last_used_at is None,
            r.is_active,
            r.requests_count == 0,
            r.rate_limit_per_hour == rate_limit_per_hour,
    {
        ApiKey {
            id: None,
            user_id,
            key: key_secret(token),
            name,
            description,
            created_at: now,
            last_used_at: None,
            is_active: true,
            requests_count: 0,
            rate_limit_per_hour,
        }
    }

    /// The key as shown to its owner: identifier in hexadecimal (empty while
    /// the key is not stored), instants in RFC 3339 (empty where one cannot
    /// be formatted).
    pub fn to_response(&self) -> (r: ApiKeyResponse)
        ensures
            r.id@ == hex_or_empty(self.id),
            r.name@ == self.name@,
            r.key@ == self.key@,
            r.description.deep_view() == self.description.deep_view(),
            r.created_at@ == rfc3339_or_empty(self.created_at),
            r.last_used_at.deep_view() == optional_instant(self.last_used_at),
            r.requests_count == self.requests_count,
            r.rate_limit_per_hour == self.rate_limit_per_hour,
            r.is_active == self.is_active,
    {
        ApiKeyResponse {
            id: id_text(&self.id),
            name: self.name.clone(),
            key: self.key.clone(),
            description: copy_text(&self.description),
            created_at: instant_text(self.created_at),
            last_used_at: match self.last_used_at {
                Some(millis) => Some(instant_text(millis)),
                None => None,
            },
            requests_count: self.requests_count,
            rate_limit_per_hour: self.rate_limit_per_hour,
            is_active: self.is_active,
        }
    }
}

} // verus!
