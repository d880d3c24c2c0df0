//! The login and refresh flows: request validation, the actor-type-specific
//! lookup key, uniform credential verification, and the assembly of tokens
//! and sessions after authentication. Store lookups happen outside; callers
//! pass the fetched rows in.

use vstd::prelude::*;

verus! {

use crate::claims::{Claims, ClaimsV, ActorContext, ContextV};
use crate::crypto::{hex_of, lookup_digest_of, hash_national_id, generate_secure_token,
    argon_verify};
use crate::errors::AuthError;
use crate::rbac::UserPermissions;
use crate::session::{RefreshService, matches_hash, current_match, refresh_lifetime};
use crate::token::{JwtService, token_of};

/// The closed set of actor types, each with its own lookup path: staff and
/// guardians are located by hashed national identifier, students by their
/// plain student code.
#[derive(Clone, Copy, Debug, PartialEq, Eq, Structural)]
pub enum ActorType {
    Personnel,
    Student,
    Guardian,
}

/// The login request as it arrives at the boundary.
pub struct LoginRequest {
    pub actor_type: String,
    pub id: String,
    pub password: Option<String>,
    pub otp: Option<String>,
    pub school_id: String,
}

/// Specification-level shape of a login request.
pub ghost struct LoginRequestV {
    pub actor_type: Seq<char>,
    pub id: Seq<char>,
    pub password: Option<Seq<char>>,
    pub otp: Option<Seq<char>>,
    pub school_id: Seq<char>,
}

pub open spec fn opt_view(o: Option<String>) -> Option<Seq<char>> {
    match o {
        Some(s) => Some(s@),
        None => None,
    }
}

impl View for LoginRequest {
    type V = LoginRequestV;

    open spec fn view(&self) -> LoginRequestV {
        LoginRequestV {
            actor_type: self.actor_type@,
            id: self.id@,
            password: opt_view(self.password),
            otp: opt_view(self.otp),
            school_id: self.school_id@,
        }
    }
}

/// The actor type a tag names, if any.
pub open spec fn actor_type_of(s: Seq<char>) -> Option<ActorType> {
    if s == "personnel"@ {
        Some(ActorType::Personnel)
    } else if s == "student"@ {
        Some(ActorType::Student)
    } else if s == "guardian"@ {
        Some(ActorType::Guardian)
    } else {
        None
    }
}

/// A well-formed login request: both identifying fields present, a
/// password, when given, non-empty, and at least one of password or
/// one-time code supplied.
pub open spec fn valid_login_shape(r: LoginRequestV) -> bool {
    &&& r.actor_type.len() > 0
    &&& r.id.len() > 0
    &&& match r.password {
        Some(p) => p.len() > 0,
        None => r.otp is Some,
    }
}

/// Validates the request shape and the actor-type tag. Exactly the
/// malformed requests are rejected, with the validation outcome.
pub fn validate_login_request(req: &LoginRequest) -> (r: Result<ActorType, AuthError>)
    ensures
        match r {
            Ok(at) => valid_login_shape(req@) && actor_type_of(req@.actor_type) == Some(at),
            Err(e) => e == AuthError::Validation && (!valid_login_shape(req@) || actor_type_of(
                req@.actor_type,
            ) is None),
        },
{
    if req.actor_type.as_str().unicode_len() == 0 || req.id.as_str().unicode_len() == 0 {
        return Err(AuthError::Validation);
    }
    match &req.password {
        Some(p) => {
            if p.as_str().unicode_len() == 0 {
                return Err(AuthError::Validation);
            }
        },
        None => {
            if req.otp.is_none() {
                return Err(AuthError::Validation);
            }
        },
    }
    let tag = req.actor_type.as_str();
    if crate::rbac::str_eq(tag, "personnel") {
        Ok(ActorType::Personnel)
    } else if crate::rbac::str_eq(tag, "student") {
        Ok(ActorType::Student)
    } else if crate::rbac::str_eq(tag, "guardian") {
        Ok(ActorType::Guardian)
    } else {
        Err(AuthError::Validation)
    }
}

/// The stored lookup key for an external identifier: the salted hash for
/// personnel and guardians, the plain code for students.
pub open spec fn lookup_key_of(at: ActorType, id: Seq<char>, salt: Seq<char>) -> Seq<char> {
    match at {
        ActorType::Personnel => hex_of(lookup_digest_of(salt, id)),
        ActorType::Guardian => hex_of(lookup_digest_of(salt, id)),
        ActorType::Student => id,
    }
}

/// Computes the lookup key through the single exhaustive dispatch on the
/// actor type.
pub fn lookup_key(at: ActorType, external_id: &str, tenant_salt: &str) -> (r: String)
    ensures
        r@ == lookup_key_of(at, external_id@, tenant_salt@),
{
    match at {
        ActorType::Personnel => hash_national_id(external_id, tenant_salt),
        ActorType::Guardian => hash_national_id(external_id, tenant_salt),
        ActorType::Student => external_id.to_owned(),
    }
}

/// The actor row a lookup returns: internal identifier, whether the account
/// is active, and the stored password hash if one is configured.
pub struct ActorRow {
    pub id: u128,
    pub active: bool,
    pub password_hash: Option<String>,
}

/// Credential verification succeeds on this row and secret: the actor was
/// found and active, a password hash is configured, and the presented
/// secret verifies against it.
pub open spec fn credentials_ok(row: Option<ActorRow>, password: Seq<char>) -> bool {
    match row {
        Some(a) => a.active && match a.password_hash {
            Some(h) => matches_hash(h@, password),
            None => false,
        },
        None => false,
    }
}

/// Verifies a presented secret against the resolved actor row. All failure
/// modes — actor not found, account not active, no password configured,
/// hash mismatch — collapse into the one invalid-credentials outcome, so a
/// caller cannot tell them apart.
pub fn verify_credentials(row: Option<ActorRow>, password: &str) -> (r: Result<u128, AuthError>)
    ensures
        match r {
            Ok(user_id) => credentials_ok(row, password@) && (row matches Some(a) && a.id
                == user_id),
            Err(e) => e == AuthError::InvalidCredentials && !credentials_ok(row, password@),
        },
{
    let a = match row {
        Some(a) => a,
        None => {
            return Err(AuthError::InvalidCredentials);
        },
    };
    if !a.active {
        return Err(AuthError::InvalidCredentials);
    }
    let hash = match &a.password_hash {
        Some(h) => h,
        None => {
            return Err(AuthError::InvalidCredentials);
        },
    };
    if argon_verify(hash.as_str(), password) {
        Ok(a.id)
    } else {
        Err(AuthError::InvalidCredentials)
    }
}

/// Copies a string list, value for value.
pub fn clone_string_vec(v: &Vec<String>) -> (r: Vec<String>)
    ensures
        r.deep_view() == v.deep_view(),
{
    let mut out: Vec<String> = Vec::new();
    let n = v.len();
    let mut i: usize = 0;
    proof {
        assert(out.deep_view() =~~= v.deep_view().take(0));
    }
    while i < n
        invariant
            0 <= i <= n,
            n == v.len(),
            out.deep_view() == v.deep_view().take(i as int),
        decreases n - i,
    {
        let ghost pre = out.deep_view();
        let c = v[i].clone();
        proof {
            assert(c@ == v.deep_view()[i as int]);
        }
        out.push(c);
        proof {
            assert(pre.len() == i);
            assert(out@.len() == i + 1);
            assert(out.deep_view().len() == i + 1);
            assert forall|t: int| 0 <= t < i + 1 implies #[trigger] out.deep_view()[t]
                == v.deep_view().take(i as int + 1)[t] by {
                if t < i {
                    assert(out.deep_view()[t] == pre[t]);
                } else {
                    assert(out.deep_view()[t] == c@);
                }
            }
            assert(out.deep_view() =~~= v.deep_view().take(i as int + 1));
        }
        i = i + 1;
    }
    proof {
        assert(v.deep_view().take(n as int) =~~= v.deep_view());
    }
    out
}

fn clone_u128_vec(v: &Vec<u128>) -> (r: Vec<u128>)
    ensures
        r@ == v@,
{
    let mut out: Vec<u128> = Vec::new();
    let n = v.len();
    let mut i: usize = 0;
    while i < n
        invariant
            0 <= i <= n,
            n == v.len(),
            out@ =~= v@.take(i as int),
        decreases n - i,
    {
        out.push(v[i]);
        proof {
            assert(out@ =~= v@.take(i as int + 1));
        }
        i = i + 1;
    }
    proof {
        assert(v@.take(n as int) =~= v@);
    }
    out
}

pub open spec fn opt_ctx_view(o: Option<ActorContext>) -> Option<ContextV> {
    match o {
        Some(c) => Some(c@),
        None => None,
    }
}

/// Copies a context payload, value for value.
pub fn clone_opt_context(o: &Option<ActorContext>) -> (r: Option<ActorContext>)
    ensures
        opt_ctx_view(r) == opt_ctx_view(*o),
{
    match o {
        None => None,
        Some(ActorContext::Teacher { personnel_no, department_id, class_ids }) => Some(
            ActorContext::Teacher {
                personnel_no: personnel_no.clone(),
                department_id: *department_id,
                class_ids: clone_string_vec(class_ids),
            },
        ),
        Some(ActorContext::Student { student_code, class_id }) => Some(
            ActorContext::Student { student_code: student_code.clone(), class_id: *class_id },
        ),
        Some(ActorContext::Guardian { children }) => Some(
            ActorContext::Guardian { children: clone_u128_vec(children) },
        ),
    }
}

/// The claims minted for a snapshot at a point in time.
pub open spec fn claims_for(
    user_id: u128,
    tenant_id: u128,
    roles: Seq<Seq<char>>,
    perms: Seq<Seq<char>>,
    ctx: Option<ContextV>,
    now: i64,
) -> ClaimsV {
    ClaimsV {
        sub: user_id,
        tenant: tenant_id,
        roles,
        perms,
        ctx,
        exp: (now + crate::claims::access_token_lifetime()) as i64,
        iat: now,
    }
}

/// Mints the access token for a permission snapshot: claims with the fixed
/// fifteen-minute expiry, serialized and signed.
pub fn mint_access_token(
    user_id: u128,
    tenant_id: u128,
    snapshot: &UserPermissions,
    jwt: &JwtService,
    now: i64,
) -> (r: Result<String, AuthError>)
    requires
        0 <= now <= i64::MAX - crate::claims::access_token_lifetime(),
    ensures
        r matches Ok(t) && t@ == token_of(
            jwt.spec_key(),
            claims_for(
                user_id,
                tenant_id,
                snapshot.roles.deep_view(),
                snapshot.permissions.deep_view(),
                opt_ctx_view(snapshot.context),
                now,
            ),
        ),
{
    let claims = Claims::new(
        user_id,
        tenant_id,
        clone_string_vec(&snapshot.roles),
        clone_string_vec(&snapshot.permissions),
        clone_opt_context(&snapshot.context),
        now,
    );
    jwt.create_token(&claims)
}

/// Everything a successful login hands back: the snapshot data for the
/// response body and the three credentials for the cookies.
pub struct LoginSuccess {
    pub user_id: u128,
    pub roles: Vec<String>,
    pub perms: Vec<String>,
    pub ctx: Option<ActorContext>,
    pub access_token: String,
    pub refresh_secret: String,
    pub csrf_token: String,
    pub session_id: u128,
}

/// Completes a login after authentication and snapshot computation: mints
/// the access token, creates the refresh session, and draws the CSRF token.
/// On a crypto failure nothing is stored.
pub fn login_finish(
    snapshot: UserPermissions,
    tenant_id: u128,
    jwt: &JwtService,
    sessions: &mut RefreshService,
    now: i64,
) -> (r: Result<LoginSuccess, AuthError>)
    requires
        0 <= now <= i64::MAX - refresh_lifetime(),
    ensures
        match r {
            Ok(ls) => {
                &&& ls.user_id == snapshot.user_id
                &&& ls.roles.deep_view() == snapshot.roles.deep_view()
                &&& ls.perms.deep_view() == snapshot.permissions.deep_view()
                &&& opt_ctx_view(ls.ctx) == opt_ctx_view(snapshot.context)
                &&& ls.access_token@ == token_of(
                    jwt.spec_key(),
                    claims_for(
                        snapshot.user_id,
                        tenant_id,
                        snapshot.roles.deep_view(),
                        snapshot.permissions.deep_view(),
                        opt_ctx_view(snapshot.context),
                        now,
                    ),
                )
                &&& final(sessions)@ == old(sessions)@.push(final(sessions)@.last())
                &&& ({
                    let s = final(sessions)@.last();
                    &&& s.id == ls.session_id
                    &&& s.user_id == snapshot.user_id
                    &&& current_match(s, ls.refresh_secret@)
                    &&& s.rotated_at is None
                    &&& s.revoked_at is None
                    &&& s.expires_at == now + refresh_lifetime()
                })
                &&& ls.csrf_token@.len() == 43
            },
            Err(e) => e == AuthError::Infrastructure && final(sessions)@ == old(sessions)@,
        },
{
    let access_token = match mint_access_token(snapshot.user_id, tenant_id, &snapshot, jwt, now) {
        Ok(t) => t,
        Err(_) => {
            return Err(AuthError::Infrastructure);
        },
    };
    let (session_id, refresh_secret) = match sessions.create_session(
        snapshot.user_id,
        None,
        None,
        now,
    ) {
        Ok(p) => p,
        Err(_) => {
            return Err(AuthError::Infrastructure);
        },
    };
    let csrf_token = generate_secure_token();
    Ok(
        LoginSuccess {
            user_id: snapshot.user_id,
            roles: snapshot.roles,
            perms: snapshot.permissions,
            ctx: snapshot.context,
            access_token,
            refresh_secret,
            csrf_token,
            session_id,
        },
    )
}

/// The login response body.
pub struct LoginResponse {
    pub data: LoginData,
}

/// The data a successful login returns to the client.
pub struct LoginData {
    pub user_id: u128,
    pub roles: Vec<String>,
    pub perms: Vec<String>,
    pub ctx: Option<ActorContext>,
}

/// The actor profile row behind the who-am-I query.
pub struct UserInfo {
    pub id: u128,
    pub email: Option<String>,
    pub display_name: String,
}

/// The who-am-I response data: the profile row plus the roles, permissions
/// and context carried by the already-validated access token. Nothing is
/// recomputed.
pub struct MeData {
    pub user: UserInfo,
    pub roles: Vec<String>,
    pub perms: Vec<String>,
    pub ctx: Option<ActorContext>,
}

/// The who-am-I response body.
pub struct MeResponse {
    pub data: MeData,
}

/// Assembles the who-am-I response from the fetched profile row and the
/// validated token's own claims.
pub fn me_response(user: UserInfo, auth: crate::access::AuthUser) -> (r: MeResponse)
    ensures
        r.data.user == user,
        r.data.roles == auth.roles,
        r.data.perms == auth.permissions,
        r.data.ctx == auth.context,
{
    MeResponse {
        data: MeData {
            user,
            roles: auth.roles,
            perms: auth.permissions,
            ctx: auth.context,
        },
    }
}

} // verus!
