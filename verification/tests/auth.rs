use fed_receive::auth::{
    change_password, password_length_check, ChangePassword, Claims, LocalUser, LoginToken,
    LoginTokenCreateForm, TokenStore,
};
use fed_receive::errors::{AuthError, DbError};

fn s(text: &str) -> String {
    String::from(text)
}

#[test]
fn generate_then_validate_round_trip() {
    let mut tokens = TokenStore::new();
    let secret = s("SECRET-REDACTED");
    let hostname = s("a.example");
    let token = Claims::generate(7, &hostname, 1700000000, &secret, &mut tokens).unwrap();
    assert_eq!(tokens.len(), 1);

    let claims = Claims::validate(&token, &secret, &tokens).unwrap();
    assert_eq!(claims.sub, 7);
    assert_eq!(claims.iss, "a.example");
    assert_eq!(claims.iat, 1700000000);
}

#[test]
fn validate_rejects_wrong_secret() {
    let mut tokens = TokenStore::new();
    let token =
        Claims::generate(7, &s("a.example"), 1700000000, &s("SECRET-REDACTED"), &mut tokens)
            .unwrap();
    let r = Claims::validate(&token, &s("another secret"), &tokens);
    assert_eq!(r.unwrap_err(), AuthError::NotLoggedIn);
}

#[test]
fn validate_rejects_garbage_token() {
    let tokens = TokenStore::new();
    let r = Claims::validate(&s("no.real.token"), &s("SECRET-REDACTED"), &tokens);
    assert_eq!(r.unwrap_err(), AuthError::NotLoggedIn);
}

#[test]
fn validate_rejects_revoked_token() {
    let mut tokens = TokenStore::new();
    let secret = s("SECRET-REDACTED");
    let token = Claims::generate(7, &s("a.example"), 1700000000, &secret, &mut tokens).unwrap();
    let removed = LoginToken::invalidate(&mut tokens, &token).unwrap();
    assert_eq!(removed.user_id, 7);
    assert_eq!(tokens.len(), 0);
    let r = Claims::validate(&token, &secret, &tokens);
    assert_eq!(r.unwrap_err(), AuthError::NotLoggedIn);
}

#[test]
fn invalidate_removes_every_occurrence() {
    let mut tokens = TokenStore::new();
    // The same token string can be stored more than once: issuing twice
    // with equal user, timestamp and secret pushes identical rows.
    LoginToken::create(&mut tokens, LoginTokenCreateForm { token: s("t1"), user_id: 1 }, 100);
    LoginToken::create(&mut tokens, LoginTokenCreateForm { token: s("t1"), user_id: 2 }, 101);
    LoginToken::create(&mut tokens, LoginTokenCreateForm { token: s("t2"), user_id: 1 }, 102);
    let removed = LoginToken::invalidate(&mut tokens, &s("t1")).unwrap();
    assert_eq!(removed.user_id, 1);
    assert_eq!(removed.published, 100);
    // No row carrying the token survives, for any user.
    assert_eq!(tokens.len(), 1);
    assert!(!LoginToken::validate(&tokens, 1, &s("t1")));
    assert!(!LoginToken::validate(&tokens, 2, &s("t1")));
    assert!(LoginToken::validate(&tokens, 1, &s("t2")));
}

#[test]
fn invalidate_unknown_token_fails_not_found() {
    let mut tokens = TokenStore::new();
    let r = LoginToken::invalidate(&mut tokens, &s("absent"));
    assert_eq!(r.unwrap_err(), DbError::NotFound);
}

#[test]
fn invalidate_all_clears_only_that_user() {
    let mut tokens = TokenStore::new();
    LoginToken::create(&mut tokens, LoginTokenCreateForm { token: s("t1"), user_id: 1 }, 100);
    LoginToken::create(&mut tokens, LoginTokenCreateForm { token: s("t2"), user_id: 1 }, 101);
    LoginToken::create(&mut tokens, LoginTokenCreateForm { token: s("t3"), user_id: 2 }, 102);
    LoginToken::invalidate_all(&mut tokens, 1);
    assert_eq!(tokens.len(), 1);
    assert!(!LoginToken::validate(&tokens, 1, &s("t1")));
    assert!(!LoginToken::validate(&tokens, 1, &s("t2")));
    assert!(LoginToken::validate(&tokens, 2, &s("t3")));
}

#[test]
fn password_length_bounds() {
    assert_eq!(password_length_check(&s("short")).unwrap_err(), AuthError::InvalidPassword);
    let too_long: String = "x".repeat(61);
    assert_eq!(password_length_check(&too_long).unwrap_err(), AuthError::InvalidPassword);
    assert!(password_length_check(&s("exactly10!")).is_ok());
    let at_limit: String = "x".repeat(60);
    assert!(password_length_check(&at_limit).is_ok());
}

fn user_with_password(id: i32, password: &str) -> LocalUser {
    LocalUser { id, password_encrypted: bcrypt::hash(password, 4).unwrap() }
}

fn authed_request(
    tokens: &mut TokenStore,
    secret: &String,
    user_id: i32,
) -> String {
    Claims::generate(user_id, &s("a.example"), 1700000000, secret, tokens).unwrap()
}

#[test]
fn change_password_happy_path() {
    let secret = s("SECRET-REDACTED");
    let mut tokens = TokenStore::new();
    let mut user = user_with_password(7, "old password");
    let auth = authed_request(&mut tokens, &secret, 7);

    let data = ChangePassword {
        new_password: s("brand new password"),
        new_password_verify: s("brand new password"),
        old_password: s("old password"),
        auth: auth.clone(),
    };
    let resp =
        change_password(&data, &mut user, &mut tokens, &secret, &s("a.example"), 1700000100)
            .unwrap();
    let new_token = resp.jwt.unwrap();
    assert!(!resp.verify_email_sent);
    assert!(!resp.registration_created);

    // The stored hash now matches the new password and no longer the old one.
    assert!(bcrypt::verify("brand new password", &user.password_encrypted).unwrap());
    assert!(!bcrypt::verify("old password", &user.password_encrypted).unwrap());

    // Every session issued under the old credentials is revoked; the
    // freshly issued token is valid.
    let r = Claims::validate(&auth, &secret, &tokens);
    assert_eq!(r.unwrap_err(), AuthError::NotLoggedIn);
    let claims = Claims::validate(&new_token, &secret, &tokens).unwrap();
    assert_eq!(claims.sub, 7);
    assert_eq!(claims.iat, 1700000100);
}

#[test]
fn change_password_rejects_bad_auth() {
    let secret = s("SECRET-REDACTED");
    let mut tokens = TokenStore::new();
    let mut user = user_with_password(7, "old password");
    let data = ChangePassword {
        new_password: s("brand new password"),
        new_password_verify: s("brand new password"),
        old_password: s("old password"),
        auth: s("forged.token.value"),
    };
    let r = change_password(&data, &mut user, &mut tokens, &secret, &s("a.example"), 0);
    assert_eq!(r.unwrap_err(), AuthError::NotLoggedIn);
    assert!(bcrypt::verify("old password", &user.password_encrypted).unwrap());
}

#[test]
fn change_password_rejects_short_password() {
    let secret = s("SECRET-REDACTED");
    let mut tokens = TokenStore::new();
    let mut user = user_with_password(7, "old password");
    let auth = authed_request(&mut tokens, &secret, 7);
    let data = ChangePassword {
        new_password: s("short"),
        new_password_verify: s("short"),
        old_password: s("old password"),
        auth,
    };
    let r = change_password(&data, &mut user, &mut tokens, &secret, &s("a.example"), 0);
    assert_eq!(r.unwrap_err(), AuthError::InvalidPassword);
}

#[test]
fn change_password_rejects_mismatched_confirmation() {
    let secret = s("SECRET-REDACTED");
    let mut tokens = TokenStore::new();
    let mut user = user_with_password(7, "old password");
    let auth = authed_request(&mut tokens, &secret, 7);
    let data = ChangePassword {
        new_password: s("brand new password"),
        new_password_verify: s("a different password"),
        old_password: s("old password"),
        auth,
    };
    let r = change_password(&data, &mut user, &mut tokens, &secret, &s("a.example"), 0);
    assert_eq!(r.unwrap_err(), AuthError::PasswordsDoNotMatch);
}

#[test]
fn change_password_rejects_wrong_old_password() {
    let secret = s("SECRET-REDACTED");
    let mut tokens = TokenStore::new();
    let mut user = user_with_password(7, "old password");
    let auth = authed_request(&mut tokens, &secret, 7);
    let data = ChangePassword {
        new_password: s("brand new password"),
        new_password_verify: s("brand new password"),
        old_password: s("not the old password"),
        auth,
    };
    let r = change_password(&data, &mut user, &mut tokens, &secret, &s("a.example"), 0);
    assert_eq!(r.unwrap_err(), AuthError::IncorrectLogin);
    // The rejected request left the session untouched.
    assert_eq!(tokens.len(), 1);
}
