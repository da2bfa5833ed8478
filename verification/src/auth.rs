use vstd::prelude::*;
use crate::errors::{AuthError, DbError};

verus! {

/// Mathematical view of one stored login token row.
pub struct TokenV {
    pub user_id: i32,
    pub token: Seq<char>,
    pub published: i64,
}

/// One stored login token: a session token string bound to a local user.
#[derive(Debug)]
pub struct LoginToken {
    pub user_id: i32,
    pub token: String,
    pub published: i64,
}

impl View for LoginToken {
    type V = TokenV;

    open spec fn view(&self) -> TokenV {
        TokenV { user_id: self.user_id, token: self.token@, published: self.published }
    }
}

/// The fields a caller supplies when storing a new login token.
pub struct LoginTokenCreateForm {
    pub token: String,
    pub user_id: i32,
}

/// The local store of login tokens.
pub struct TokenStore {
    tokens: Vec<LoginToken>,
}

impl View for TokenStore {
    type V = Seq<TokenV>;

    closed spec fn view(&self) -> Seq<TokenV> {
        self.tokens@.map_values(|t: LoginToken| t@)
    }
}

impl TokenStore {
    pub fn new() -> (r: TokenStore)
        ensures
            r@ == Seq::<TokenV>::empty(),
    {
        let r = TokenStore { tokens: Vec::new() };
        proof {
            assert(r@ =~= Seq::<TokenV>::empty());
        }
        r
    }

    pub fn len(&self) -> (n: usize)
        ensures
            n == self@.len(),
    {
        self.tokens.len()
    }
}

/// Whether the store holds `token` for the user with id `user`.
pub open spec fn spec_has_token(s: Seq<TokenV>, user: int, token: Seq<char>) -> bool {
    exists|i: int|
        0 <= i < s.len() && (#[trigger] s[i]).user_id as int == user && s[i].token == token
}

impl LoginToken {
    /// Store a new login token, stamped with the current time `now`.
    pub fn create(store: &mut TokenStore, form: LoginTokenCreateForm, now: i64) -> (r: LoginToken)
        ensures
            final(store)@ == old(store)@.push(
                TokenV { user_id: form.user_id, token: form.token@, published: now },
            ),
            r@ == (TokenV { user_id: form.user_id, token: form.token@, published: now }),
    {
        let copy = LoginToken {
            user_id: form.user_id,
            token: form.token.clone(),
            published: now,
        };
        let row = LoginToken { user_id: form.user_id, token: form.token, published: now };
        let ghost prev = store@;
        let ghost rowv = row@;
        store.tokens.push(row);
        proof {
            assert(store@ =~= prev.push(rowv));
        }
        copy
    }

    /// Whether `token` is a currently valid session token of `user_id`.
    pub fn validate(store: &TokenStore, user_id: i32, token: &String) -> (r: bool)
        ensures
            r == spec_has_token(store@, user_id as int, token@),
    {
        let n = store.tokens.len();
        let mut i: usize = 0;
        while i < n
            invariant
                n == store@.len(),
                i <= n,
                forall|j: int|
                    0 <= j < i ==> !((#[trigger] store@[j]).user_id as int == user_id as int
                        && store@[j].token == token@),
            decreases n - i,
        {
            proof {
                assert(store@[i as int] == store.tokens@[i as int]@);
            }
            if store.tokens[i].user_id == user_id && store.tokens[i].token == *token {
                proof {
                    assert(spec_has_token(store@, user_id as int, token@));
                }
                return true;
            }
            i = i + 1;
        }
        false
    }

    /// Revoke a session token: delete every row carrying `token`, so that
    /// afterwards it validates for no user, and return the first deleted
    /// row; fail `NotFound`, changing nothing, when no row carries it.
    #[verifier::loop_isolation(false)]
    pub fn invalidate(store: &mut TokenStore, token: &String) -> (r: Result<LoginToken, DbError>)
        ensures
            match r {
                Ok(t) => {
                    &&& exists|i: int|
                        {
                            &&& 0 <= i < old(store)@.len()
                            &&& (#[trigger] old(store)@[i]).token == token@
                            &&& forall|j: int| 0 <= j < i ==> old(store)@[j].token != token@
                            &&& t@ == old(store)@[i]
                        }
                    &&& final(store)@ == old(store)@.filter(|t0: TokenV| t0.token != token@)
                    &&& forall|u: int| !spec_has_token(final(store)@, u, token@)
                },
                Err(e) => {
                    &&& e == DbError::NotFound
                    &&& final(store)@ == old(store)@
                    &&& forall|i: int|
                        0 <= i < old(store)@.len() ==> (#[trigger] old(store)@[i]).token
                            != token@
                },
            },
    {
        let ghost prev = store@;
        let n = store.tokens.len();
        let mut kept: Vec<LoginToken> = Vec::new();
        let mut removed: Option<LoginToken> = None;
        let mut i: usize = 0;
        proof {
            assert(prev.take(0) =~= Seq::<TokenV>::empty());
            assert(kept@.map_values(|t: LoginToken| t@) =~= Seq::<TokenV>::empty());
            reveal_with_fuel(Seq::<_>::filter, 2);
            assert(Seq::<TokenV>::empty().filter(|t0: TokenV| t0.token != token@)
                =~= Seq::<TokenV>::empty());
        }
        while i < n
            invariant
                store@ == prev,
                n == prev.len(),
                i <= n,
                kept@.map_values(|t: LoginToken| t@) == prev.take(i as int).filter(
                    |t0: TokenV| t0.token != token@,
                ),
                match removed {
                    None => forall|j: int| 0 <= j < i ==> (#[trigger] prev[j]).token != token@,
                    Some(t) => exists|i0: int|
                        {
                            &&& 0 <= i0 < i
                            &&& (#[trigger] prev[i0]).token == token@
                            &&& forall|j: int| 0 <= j < i0 ==> prev[j].token != token@
                            &&& t@ == prev[i0]
                        },
                },
            decreases n - i,
        {
            let ghost keptv = kept@.map_values(|t: LoginToken| t@);
            proof {
                assert(prev[i as int] == store.tokens@[i as int]@);
            }
            let hit = store.tokens[i].token == *token;
            if hit {
                if removed.is_none() {
                    let t = &store.tokens[i];
                    removed = Some(
                        LoginToken {
                            user_id: t.user_id,
                            token: t.token.clone(),
                            published: t.published,
                        },
                    );
                }
            } else {
                let t = &store.tokens[i];
                kept.push(
                    LoginToken {
                        user_id: t.user_id,
                        token: t.token.clone(),
                        published: t.published,
                    },
                );
            }
            proof {
                let pred = |t0: TokenV| t0.token != token@;
                let taken = prev.take(i as int + 1);
                assert(taken.drop_last() =~= prev.take(i as int));
                assert(taken.last() == prev[i as int]);
                reveal_with_fuel(Seq::<_>::filter, 2);
                if hit {
                    assert(taken.filter(pred) == taken.drop_last().filter(pred));
                } else {
                    assert(kept@.map_values(|t: LoginToken| t@) =~= keptv.push(
                        prev[i as int],
                    ));
                    assert(taken.filter(pred) == taken.drop_last().filter(pred).push(
                        taken.last(),
                    ));
                }
            }
            i = i + 1;
        }
        proof {
            assert(prev.take(n as int) =~= prev);
        }
        match removed {
            None => Err(DbError::NotFound),
            Some(t) => {
                store.tokens = kept;
                proof {
                    let pred = |t0: TokenV| t0.token != token@;
                    let s2 = store@;
                    assert(s2 == prev.filter(pred));
                    assert forall|u: int| !spec_has_token(s2, u, token@) by {
                        if spec_has_token(s2, u, token@) {
                            let w = choose|k: int|
                                0 <= k < s2.len() && (#[trigger] s2[k]).user_id as int == u
                                    && s2[k].token == token@;
                            prev.lemma_filter_pred(pred, w);
                            assert(false);
                        }
                    }
                }
                Ok(t)
            },
        }
    }

    /// Revoke every login token of `user_id`: called when the user's
    /// credentials change, so that no session issued under the old
    /// credentials survives.
    #[verifier::loop_isolation(false)]
    pub fn invalidate_all(store: &mut TokenStore, user_id: i32)
        ensures
            final(store)@ == old(store)@.filter(|t: TokenV| t.user_id != user_id),
    {
        let ghost prev = store@;
        let n = store.tokens.len();
        let mut kept: Vec<LoginToken> = Vec::new();
        let mut i: usize = 0;
        proof {
            assert(prev.take(0) =~= Seq::<TokenV>::empty());
            assert(kept@.map_values(|t: LoginToken| t@) =~= Seq::<TokenV>::empty());
            reveal_with_fuel(Seq::<_>::filter, 2);
            assert(Seq::<TokenV>::empty().filter(|t: TokenV| t.user_id != user_id)
                =~= Seq::<TokenV>::empty());
        }
        while i < n
            invariant
                store@ == prev,
                n == prev.len(),
                i <= n,
                kept@.map_values(|t: LoginToken| t@) == prev.take(i as int).filter(
                    |t: TokenV| t.user_id != user_id,
                ),
            decreases n - i,
        {
            let ghost keptv = kept@.map_values(|t: LoginToken| t@);
            proof {
                assert(prev[i as int] == store.tokens@[i as int]@);
            }
            let keep = !(store.tokens[i].user_id == user_id);
            if keep {
                let t = &store.tokens[i];
                kept.push(
                    LoginToken {
                        user_id: t.user_id,
                        token: t.token.clone(),
                        published: t.published,
                    },
                );
            }
            proof {
                let pred = |t: TokenV| t.user_id != user_id;
                let taken = prev.take(i as int + 1);
                assert(taken.drop_last() =~= prev.take(i as int));
                assert(taken.last() == prev[i as int]);
                reveal_with_fuel(Seq::<_>::filter, 2);
                if keep {
                    assert(kept@.map_values(|t: LoginToken| t@) =~= keptv.push(
                        prev[i as int],
                    ));
                    assert(taken.filter(pred) == taken.drop_last().filter(pred).push(
                        taken.last(),
                    ));
                } else {
                    assert(taken.filter(pred) == taken.drop_last().filter(pred));
                }
            }
            i = i + 1;
        }
        proof {
            assert(prev.take(n as int) =~= prev);
        }
        store.tokens = kept;
    }
}

/// The session claims carried inside a token: the local user id (`sub`,
/// the standard subject claim), the issuing hostname (`iss`), and the
/// issuing time as a UNIX timestamp in seconds (`iat`).
#[derive(Debug)]
pub struct Claims {
    pub sub: i32,
    pub iss: String,
    pub iat: i64,
}

/// The compact token that signing claims with a secret yields: a function
/// of the claims and the secret alone.
pub uninterp spec fn jwt_of(sub: int, iss: Seq<char>, iat: int, secret: Seq<char>) -> Seq<char>;

/// What verifying and decoding a token with a secret yields: the claims
/// `(sub, iss, iat)`, or nothing when the signature or shape is invalid.
/// A function of the token and the secret alone.
pub uninterp spec fn jwt_claims_of(token: Seq<char>, secret: Seq<char>) -> Option<
    (int, Seq<char>, int),
>;

/// Relies on `jsonwebtoken::encode` with the default header (HS256) and a
/// secret key: the compact encoding is deterministic in the claims and the
/// secret, and signing cannot fail -- the key family matches the header's,
/// the HMAC signer accepts a key of any length, and a string-keyed JSON map
/// always serializes.
#[verifier::external_body]
fn encode_jwt(sub: i32, iss: &String, iat: i64, secret: &String) -> (r: Option<String>)
    ensures
        r is Some,
        r->Some_0@ == jwt_of(sub as int, iss@, iat as int, secret@),
{
    let mut m = serde_json::Map::new();
    m.insert("sub".to_string(), serde_json::Value::from(sub));
    m.insert("iss".to_string(), serde_json::Value::from(iss.as_str()));
    m.insert("iat".to_string(), serde_json::Value::from(iat));
    let key = jsonwebtoken::EncodingKey::from_secret(secret.as_bytes());
    jsonwebtoken::encode(&jsonwebtoken::Header::default(), &serde_json::Value::Object(m), &key)
        .ok()
}

/// Relies on `jsonwebtoken::decode` with HS256, expiry validation switched
/// off and no required claims: signature verification and the decoded
/// claims are deterministic in the token and the secret.
#[verifier::external_body]
fn decode_jwt(token: &String, secret: &String) -> (r: Option<Claims>)
    ensures
        match r {
            Some(c) => jwt_claims_of(token@, secret@) == Some(
                (c.sub as int, c.iss@, c.iat as int),
            ),
            None => jwt_claims_of(token@, secret@) is None,
        },
{
    let mut validation = jsonwebtoken::Validation::default();
    validation.validate_exp = false;
    validation.required_spec_claims.remove("exp");
    let key = jsonwebtoken::DecodingKey::from_secret(secret.as_bytes());
    let data = jsonwebtoken::decode::<serde_json::Value>(token, &key, &validation).ok()?;
    let sub = i32::try_from(data.claims.get("sub")?.as_i64()?).ok()?;
    let iss = data.claims.get("iss")?.as_str()?.to_string();
    let iat = data.claims.get("iat")?.as_i64()?;
    Some(Claims { sub, iss, iat })
}

/// What checking a password against a stored bcrypt hash yields: whether
/// they correspond, or nothing when the stored hash is malformed.  A
/// function of the password and the hash alone.
pub uninterp spec fn bcrypt_check(password: Seq<char>, hash: Seq<char>) -> Option<bool>;

/// Relies on `bcrypt::verify`: the check is deterministic in the password
/// and the stored hash.
#[verifier::external_body]
fn verify_password(password: &String, hash: &String) -> (r: Option<bool>)
    ensures
        match r {
            Some(b) => bcrypt_check(password@, hash@) == Some(b),
            None => bcrypt_check(password@, hash@) is None,
        },
{
    bcrypt::verify(password.as_str(), hash.as_str()).ok()
}

/// Relies on `bcrypt::hash` with the default cost.  The hash embeds a salt
/// drawn freshly on every call, so nothing is stated of the hash string
/// itself; what `bcrypt::verify` makes of it is stated, since `verify`
/// re-derives salt and cost from the hash string and recomputes.
#[verifier::external_body]
fn hash_password(password: &String) -> (r: Option<String>)
    ensures
        r is Some ==> bcrypt_check(password@, r->Some_0@) == Some(true),
{
    bcrypt::hash(password.as_str(), bcrypt::DEFAULT_COST).ok()
}

impl Claims {
    /// Validate a presented session token: it must verify and decode under
    /// the secret, and must still be stored for the user it names.  Any
    /// failure is reported as `NotLoggedIn`.
    pub fn validate(jwt: &String, secret: &String, tokens: &TokenStore) -> (r: Result<
        Claims,
        AuthError,
    >)
        ensures
            match r {
                Ok(c) => {
                    &&& jwt_claims_of(jwt@, secret@) == Some(
                        (c.sub as int, c.iss@, c.iat as int),
                    )
                    &&& spec_has_token(tokens@, c.sub as int, jwt@)
                },
                Err(e) => {
                    &&& e == AuthError::NotLoggedIn
                    &&& match jwt_claims_of(jwt@, secret@) {
                        Some(t) => !spec_has_token(tokens@, t.0, jwt@),
                        None => true,
                    }
                },
            },
    {
        match decode_jwt(jwt, secret) {
            None => Err(AuthError::NotLoggedIn),
            Some(c) => {
                if LoginToken::validate(tokens, c.sub, jwt) {
                    Ok(c)
                } else {
                    Err(AuthError::NotLoggedIn)
                }
            },
        }
    }

    /// Issue a session token for `user_id`: sign the claims with the
    /// secret, store the token, and return it.  Signing with HS256 cannot
    /// fail and the store is in memory, so success is owed on every input.
    pub fn generate(
        user_id: i32,
        hostname: &String,
        iat: i64,
        secret: &String,
        tokens: &mut TokenStore,
    ) -> (r: Result<String, AuthError>)
        ensures
            match r {
                Ok(tok) => {
                    &&& tok@ == jwt_of(user_id as int, hostname@, iat as int, secret@)
                    &&& final(tokens)@ == old(tokens)@.push(
                        TokenV {
                            user_id,
                            token: jwt_of(user_id as int, hostname@, iat as int, secret@),
                            published: iat,
                        },
                    )
                },
                Err(_) => false,
            },
    {
        let token = encode_jwt(user_id, hostname, iat, secret).unwrap();
        let form = LoginTokenCreateForm { token: token.clone(), user_id };
        let _row = LoginToken::create(tokens, form, iat);
        Ok(token)
    }
}

/// Accepted password lengths, in characters.
pub open spec fn password_length_ok(pw: Seq<char>) -> bool {
    10 <= pw.len() <= 60
}

/// Reject a proposed password outside the accepted length bounds.
pub fn password_length_check(pw: &String) -> (r: Result<(), AuthError>)
    ensures
        r is Ok <==> password_length_ok(pw@),
        r is Err ==> r->Err_0 == AuthError::InvalidPassword,
{
    let n = pw.as_str().unicode_len();
    if n < 10 || n > 60 {
        Err(AuthError::InvalidPassword)
    } else {
        Ok(())
    }
}

/// A local user's credential row.
pub struct LocalUser {
    pub id: i32,
    pub password_encrypted: String,
}

/// Mathematical view of a password-change request.
pub struct ChangePasswordV {
    pub new_password: Seq<char>,
    pub new_password_verify: Seq<char>,
    pub old_password: Seq<char>,
    pub auth: Seq<char>,
}

/// A password-change request: the new password twice, the current password,
/// and the session token authenticating the caller.
pub struct ChangePassword {
    pub new_password: String,
    pub new_password_verify: String,
    pub old_password: String,
    pub auth: String,
}

impl View for ChangePassword {
    type V = ChangePasswordV;

    open spec fn view(&self) -> ChangePasswordV {
        ChangePasswordV {
            new_password: self.new_password@,
            new_password_verify: self.new_password_verify@,
            old_password: self.old_password@,
            auth: self.auth@,
        }
    }
}

/// What a login or password change answers.
#[derive(Debug)]
pub struct LoginResponse {
    pub jwt: Option<String>,
    pub verify_email_sent: bool,
    pub registration_created: bool,
}

/// Whether the presented session token authenticates the given user: it
/// decodes under the secret, names the user, and is still stored.
pub open spec fn auth_ok(
    auth: Seq<char>,
    secret: Seq<char>,
    tokens: Seq<TokenV>,
    user_id: i32,
) -> bool {
    match jwt_claims_of(auth, secret) {
        Some(c) => c.0 == user_id as int && spec_has_token(tokens, user_id as int, auth),
        None => false,
    }
}

/// The first check a password-change request fails, if any, in the order
/// the checks are made: authentication, new-password length, confirmation
/// match, current password.
pub open spec fn change_password_rejection(
    data: ChangePasswordV,
    user_id: i32,
    stored_hash: Seq<char>,
    tokens: Seq<TokenV>,
    secret: Seq<char>,
) -> Option<AuthError> {
    if !auth_ok(data.auth, secret, tokens, user_id) {
        Some(AuthError::NotLoggedIn)
    } else if !password_length_ok(data.new_password) {
        Some(AuthError::InvalidPassword)
    } else if data.new_password != data.new_password_verify {
        Some(AuthError::PasswordsDoNotMatch)
    } else if bcrypt_check(data.old_password, stored_hash) != Some(true) {
        Some(AuthError::IncorrectLogin)
    } else {
        None
    }
}

/// Install a newly hashed password and revoke every session of the user:
/// no token issued under the old credentials survives the change.
pub fn apply_password_change(user: &mut LocalUser, tokens: &mut TokenStore, new_hash: String)
    ensures
        final(user).id == old(user).id,
        final(user).password_encrypted@ == new_hash@,
        final(tokens)@ == old(tokens)@.filter(|t: TokenV| t.user_id != old(user).id),
{
    user.password_encrypted = new_hash;
    LoginToken::invalidate_all(tokens, user.id);
}

/// Change a user's password: authenticate the caller's session token,
/// check the proposed password, verify the current one, install the new
/// hash, revoke every existing session of the user, and answer with a
/// freshly issued token.  On success the stored hash verifies the new
/// password.  Any rejected request, and a failure of the hasher -- the one
/// step that can fail, since its salt comes from the machine -- leaves the
/// user row and the token store unchanged.
pub fn change_password(
    data: &ChangePassword,
    user: &mut LocalUser,
    tokens: &mut TokenStore,
    secret: &String,
    hostname: &String,
    now: i64,
) -> (r: Result<LoginResponse, AuthError>)
    ensures
        final(user).id == old(user).id,
        match change_password_rejection(
            data@,
            old(user).id,
            old(user).password_encrypted@,
            old(tokens)@,
            secret@,
        ) {
            Some(e) => r == Err::<LoginResponse, AuthError>(e) && *final(user) == *old(user)
                && final(tokens)@ == old(tokens)@,
            None => match r {
                Ok(resp) => {
                    &&& match resp.jwt {
                        Some(tok) => tok@ == jwt_of(
                            old(user).id as int,
                            hostname@,
                            now as int,
                            secret@,
                        ),
                        None => false,
                    }
                    &&& bcrypt_check(data@.new_password, final(user).password_encrypted@)
                        == Some(true)
                    &&& final(tokens)@ == old(tokens)@.filter(
                        |t: TokenV| t.user_id != old(user).id,
                    ).push(
                        TokenV {
                            user_id: old(user).id,
                            token: jwt_of(old(user).id as int, hostname@, now as int, secret@),
                            published: now,
                        },
                    )
                    &&& resp.verify_email_sent == false
                    &&& resp.registration_created == false
                },
                Err(e) => e == AuthError::HashingFailure && *final(user) == *old(user)
                    && final(tokens)@ == old(tokens)@,
            },
        },
{
    match Claims::validate(&data.auth, secret, tokens) {
        Err(_) => {
            return Err(AuthError::NotLoggedIn);
        },
        Ok(c) => {
            if !(c.sub == user.id) {
                return Err(AuthError::NotLoggedIn);
            }
        },
    }
    match password_length_check(&data.new_password) {
        Err(e) => {
            return Err(e);
        },
        Ok(()) => {},
    }
    if !(data.new_password == data.new_password_verify) {
        return Err(AuthError::PasswordsDoNotMatch);
    }
    let old_ok = match verify_password(&data.old_password, &user.password_encrypted) {
        Some(b) => b,
        None => false,
    };
    if !old_ok {
        return Err(AuthError::IncorrectLogin);
    }
    let new_hash = match hash_password(&data.new_password) {
        None => {
            return Err(AuthError::HashingFailure);
        },
        Some(h) => h,
    };
    let token = encode_jwt(user.id, hostname, now, secret).unwrap();
    apply_password_change(user, tokens, new_hash);
    let form = LoginTokenCreateForm { token: token.clone(), user_id: user.id };
    let _row = LoginToken::create(tokens, form, now);
    Ok(LoginResponse { jwt: Some(token), verify_email_sent: false, registration_created: false })
}

} // verus!
