use web_scraper::accounts::{
    auth_response, bearer_token, deletion_outcome, ensure_active, ensure_unregistered, key_owner,
    key_responses, login_subject, new_api_key, parse_id, rate_limit_for, stored_key, stored_user,
    AuthError, Claims, InvalidFields,
};
use web_scraper::models::{
    ApiKey, CreateApiKeyRequest, LoginRequest, RegisterRequest, SubscriptionTier, User,
};
use web_scraper::records::{instant_text, RecordId};

const UUID_GROUPS: [&str; 5] = ["01234567", "89ab", "4cde", "8f01", "23456789abcd"];

fn uuid() -> String {
    UUID_GROUPS.join("-")
}

fn id(last: u8) -> RecordId {
    RecordId { bytes: [0x65, 0x1a, 0x2b, 0x3c, 0, 0, 0, 0, 0, 0, 0xff, last] }
}

fn user() -> User {
    User::new(
        "ann@example.com".to_string(),
        "hashed-password".to_string(),
        "Ann".to_string(),
        "Lee".to_string(),
        1_700_000_000_123,
    )
}

fn registration(email: &str, password: &str, first: &str, last: &str) -> RegisterRequest {
    RegisterRequest {
        email: email.to_string(),
        password: password.to_string(),
        first_name: first.to_string(),
        last_name: last.to_string(),
    }
}

#[test]
fn new_user_starts_on_the_free_plan() {
    let u = user();
    assert_eq!(u.id, None);
    assert_eq!(u.email, "ann@example.com");
    assert_eq!(u.password_hash, "hashed-password");
    assert_eq!(u.first_name, "Ann");
    assert_eq!(u.last_name, "Lee");
    assert_eq!(u.created_at, 1_700_000_000_123);
    assert_eq!(u.updated_at, 1_700_000_000_123);
    assert!(u.is_active);
    assert_eq!(u.subscription_tier, SubscriptionTier::Free);
    assert_eq!(u.monthly_requests, 0);
    assert_eq!(u.monthly_limit, 1000);
    assert_eq!(SubscriptionTier::default(), SubscriptionTier::Free);
}

#[test]
fn profile_shows_hex_id_and_rfc3339_instant() {
    let mut u = user();
    let profile = u.to_profile();
    assert_eq!(profile.id, "");
    assert_eq!(profile.created_at, "2023-11-14T22:13:20.123Z");
    u.id = Some(id(0x0a));
    let profile = u.to_profile();
    assert_eq!(profile.id, "651a2b3c000000000000ff0a");
    assert_eq!(profile.email, "ann@example.com");
    assert_eq!(profile.first_name, "Ann");
    assert_eq!(profile.last_name, "Lee");
    assert_eq!(profile.subscription_tier, SubscriptionTier::Free);
    assert_eq!(profile.monthly_requests, 0);
    assert_eq!(profile.monthly_limit, 1000);
}

#[test]
fn instant_out_of_range_has_empty_text() {
    assert_eq!(instant_text(0), "1970-01-01T00:00:00Z");
    assert_eq!(instant_text(i64::MAX), "");
    assert_ne!(instant_text(-1), "");
}

#[test]
fn record_id_hex_round_trips() {
    let hex = id(0x7f).to_hex();
    assert_eq!(hex, "651a2b3c000000000000ff7f");
    assert_eq!(parse_id(&hex, AuthError::InvalidUserId), Ok(id(0x7f)));
    assert_eq!(parse_id("651A2B3C000000000000FF7F", AuthError::InvalidUserId), Ok(id(0x7f)));
    assert_eq!(parse_id("xyz", AuthError::InvalidUserId), Err(AuthError::InvalidUserId));
    assert_eq!(parse_id("651a2b3c", AuthError::InvalidApiKeyId), Err(AuthError::InvalidApiKeyId));
    assert_eq!(parse_id("", AuthError::InvalidTokenSubject), Err(AuthError::InvalidTokenSubject));
}

#[test]
fn api_key_secret_is_prefixed_uuid_without_hyphens() {
    let key = ApiKey::new(id(1), "ci".to_string(), Some("for CI".to_string()), 50, &uuid(), 77);
    let expected = format!("{}-{}", "sk", UUID_GROUPS.concat());
    assert_eq!(key.key, expected);
    assert_eq!(key.key.len(), 3 + 32);
    assert!(!key.key[3..].contains('-'));
    assert_eq!(key.id, None);
    assert_eq!(key.user_id, id(1));
    assert_eq!(key.name, "ci");
    assert_eq!(key.description, Some("for CI".to_string()));
    assert_eq!(key.created_at, 77);
    assert_eq!(key.last_used_at, None);
    assert!(key.is_active);
    assert_eq!(key.requests_count, 0);
    assert_eq!(key.rate_limit_per_hour, 50);
    let plain = ApiKey::new(id(1), "n".to_string(), None, 1, "--a-b--", 0);
    assert_eq!(plain.key, format!("{}-{}", "sk", "ab"));
    let bare = ApiKey::new(id(1), "n".to_string(), None, 1, "", 0);
    assert_eq!(bare.key, format!("{}-", "sk"));
}

#[test]
fn api_key_response_formats_instants() {
    let mut key = ApiKey::new(id(1), "ci".to_string(), None, 50, &uuid(), 0);
    key.id = Some(id(2));
    key.last_used_at = Some(1_000);
    key.requests_count = 9;
    let response = key.to_response();
    assert_eq!(response.id, "651a2b3c000000000000ff02");
    assert_eq!(response.name, "ci");
    assert_eq!(response.key, key.key);
    assert_eq!(response.description, None);
    assert_eq!(response.created_at, "1970-01-01T00:00:00Z");
    assert_eq!(response.last_used_at, Some("1970-01-01T00:00:01Z".to_string()));
    assert_eq!(response.requests_count, 9);
    assert_eq!(response.rate_limit_per_hour, 50);
    assert!(response.is_active);
    let responses = key_responses(&vec![key.clone(), key]);
    assert_eq!(responses.len(), 2);
    assert_eq!(responses[1].id, "651a2b3c000000000000ff02");
}

#[test]
fn rate_limit_follows_the_plan() {
    assert_eq!(rate_limit_for(SubscriptionTier::Free, None), 100);
    assert_eq!(rate_limit_for(SubscriptionTier::Free, Some(50)), 50);
    assert_eq!(rate_limit_for(SubscriptionTier::Free, Some(100)), 100);
    assert_eq!(rate_limit_for(SubscriptionTier::Free, Some(5000)), 100);
    assert_eq!(rate_limit_for(SubscriptionTier::Free, Some(-3)), -3);
    assert_eq!(rate_limit_for(SubscriptionTier::Pro, None), 1000);
    assert_eq!(rate_limit_for(SubscriptionTier::Pro, Some(999)), 999);
    assert_eq!(rate_limit_for(SubscriptionTier::Pro, Some(i32::MAX)), 1000);
    assert_eq!(rate_limit_for(SubscriptionTier::Enterprise, None), 10000);
    assert_eq!(rate_limit_for(SubscriptionTier::Enterprise, Some(i32::MAX)), i32::MAX);
}

#[test]
fn new_key_is_limited_by_the_owners_plan() {
    let mut owner = user();
    owner.subscription_tier = SubscriptionTier::Pro;
    let request = CreateApiKeyRequest {
        name: "k".to_string(),
        description: None,
        rate_limit_per_hour: Some(4000),
    };
    let key = new_api_key(&owner, id(3), request, &uuid(), 5);
    assert_eq!(key.rate_limit_per_hour, 1000);
    assert_eq!(key.user_id, id(3));
    assert_eq!(key.created_at, 5);
}

#[test]
fn registration_is_validated_field_by_field() {
    assert_eq!(registration("ann@example.com", "12345678", "A", "L").validate(), Ok(()));
    assert_eq!(
        registration("ann", "1234567", "", "").validate(),
        Err(InvalidFields { email: true, password: true, first_name: true, last_name: true })
    );
    assert_eq!(
        registration("ann@example.com", "пароль12", "A", "L").validate(),
        Ok(())
    );
    assert_eq!(
        registration("@example.com", "12345678", "A", "").validate(),
        Err(InvalidFields { email: true, password: false, first_name: false, last_name: true })
    );
}

#[test]
fn login_needs_an_email_address() {
    let ok = LoginRequest { email: "a@b.co".to_string(), password: "".to_string() };
    assert_eq!(ok.validate(), Ok(()));
    let bad = LoginRequest { email: "a b@c".to_string(), password: "x".to_string() };
    assert_eq!(
        bad.validate(),
        Err(InvalidFields { email: true, password: false, first_name: false, last_name: false })
    );
}

#[test]
fn registration_refuses_a_taken_address() {
    assert_eq!(ensure_unregistered(&None), Ok(()));
    assert_eq!(ensure_unregistered(&Some(user())), Err(AuthError::EmailTaken));
    assert_eq!(AuthError::EmailTaken.message(), "User with this email already exists");
}

#[test]
fn stored_records_carry_their_identifier() {
    match stored_user(user(), Some(id(4))) {
        Ok(stored) => {
            assert_eq!(stored.id, Some(id(4)));
            assert_eq!(stored.email, "ann@example.com");
        }
        Err(e) => panic!("stored user expected: {:?}", e),
    }
    assert!(matches!(stored_user(user(), None), Err(AuthError::UserNotStored)));
    let key = ApiKey::new(id(1), "n".to_string(), None, 1, &uuid(), 0);
    match stored_key(key.clone(), Some(id(5))) {
        Ok(stored) => assert_eq!(stored.id, Some(id(5))),
        Err(e) => panic!("stored key expected: {:?}", e),
    }
    assert!(matches!(stored_key(key, None), Err(AuthError::ApiKeyNotStored)));
}

#[test]
fn login_checks_password_then_state_then_identifier() {
    let mut u = user();
    assert_eq!(login_subject(&u, false), Err(AuthError::InvalidCredentials));
    assert_eq!(login_subject(&u, true), Err(AuthError::MissingUserId));
    u.id = Some(id(6));
    assert_eq!(login_subject(&u, true), Ok("651a2b3c000000000000ff06".to_string()));
    u.is_active = false;
    assert_eq!(login_subject(&u, true), Err(AuthError::Deactivated));
    assert_eq!(login_subject(&u, false), Err(AuthError::InvalidCredentials));
    assert_eq!(AuthError::InvalidCredentials.message(), "Invalid email or password");
    assert_eq!(AuthError::Deactivated.message(), "Account is deactivated");
    assert_eq!(AuthError::MissingUserId.message(), "User ID not found");
}

#[test]
fn auth_response_carries_token_and_profile() {
    let mut u = user();
    u.id = Some(id(7));
    let response = auth_response(&u, "tok".to_string());
    assert_eq!(response.token, "tok");
    assert_eq!(response.user.id, "651a2b3c000000000000ff07");
    assert_eq!(response.user.email, "ann@example.com");
}

#[test]
fn token_holder_must_exist_and_be_active() {
    assert_eq!(ensure_active(&None), Err(AuthError::UserNotFound));
    let mut u = user();
    assert_eq!(ensure_active(&Some(u.clone())), Ok(()));
    u.is_active = false;
    assert_eq!(ensure_active(&Some(u)), Err(AuthError::Deactivated));
    assert_eq!(AuthError::UserNotFound.message(), "User not found");
    assert_eq!(AuthError::InvalidTokenSubject.message(), "Invalid user ID in token");
}

#[test]
fn claims_expire_after_thirty_days() {
    let claims = Claims::issue("651a2b3c000000000000ff07", 1_700_000_000);
    assert_eq!(claims.sub, "651a2b3c000000000000ff07");
    assert_eq!(claims.iat, 1_700_000_000);
    assert_eq!(claims.exp, 1_702_592_000);
    assert!(Claims::try_issue("u", i64::MAX).is_none());
    assert!(Claims::try_issue("u", i64::MAX - 2_592_000).is_some());
    assert!(Claims::try_issue("u", i64::MAX - 2_591_999).is_none());
}

#[test]
fn deletion_must_remove_something() {
    assert_eq!(deletion_outcome(0), Err(AuthError::ApiKeyNotFound));
    assert_eq!(deletion_outcome(1), Ok(()));
    assert_eq!(AuthError::ApiKeyNotFound.message(), "API key not found");
    assert_eq!(AuthError::InvalidUserId.message(), "Invalid user ID");
    assert_eq!(AuthError::InvalidApiKeyId.message(), "Invalid API key ID");
    assert_eq!(AuthError::UserNotStored.message(), "Failed to get user ID");
    assert_eq!(AuthError::ApiKeyNotStored.message(), "Failed to get API key ID");
}

#[test]
fn presented_key_names_its_owner() {
    assert_eq!(key_owner(&None), Err(AuthError::InvalidApiKey));
    let mut key = ApiKey::new(id(8), "n".to_string(), None, 1, &uuid(), 0);
    key.id = Some(id(9));
    assert_eq!(key_owner(&Some(key)), Ok((id(8), id(9))));
    assert_eq!(AuthError::InvalidApiKey.message(), "Invalid API key");
}

#[test]
fn bearer_token_follows_the_prefix() {
    assert_eq!(bearer_token(Some("Bearer abc.def")), Some("abc.def".to_string()));
    assert_eq!(bearer_token(Some("Bearer ")), Some("".to_string()));
    assert_eq!(bearer_token(Some("bearer abc")), None);
    assert_eq!(bearer_token(Some("Bearer")), None);
    assert_eq!(bearer_token(Some("Basic abc")), None);
    assert_eq!(bearer_token(None), None);
}
