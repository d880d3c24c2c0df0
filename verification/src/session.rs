//! The session store: long-lived refresh credentials, one record per login,
//! rotated in place on every use. A record keeps the hash of the current
//! secret and, once rotated, the hash of the immediately superseded one as a
//! tripwire: presenting the superseded secret is treated as credential theft
//! and revokes every session of the owning actor.
//!
//! States per session: active (rotatable) -> rotated (tripwire armed, new
//! hash live) -> expired (time-based) or revoked (explicit or cascade).
//! A rotated session keeps accepting its current secret as the next
//! rotatable link.

use vstd::prelude::*;

use vstd::pervasive::VecAdditionalExecFns;

verus! {

use crate::crypto::{argon_matches, argon_hash, argon_verify, generate_secure_token,
    fresh_session_id};
use crate::errors::AuthError;

/// One refresh session row.
pub struct AuthSession {
    pub id: u128,
    pub user_id: u128,
    /// Hash of the current (most recently issued) refresh secret.
    pub refresh_hash: String,
    /// Hash the current secret superseded at the last rotation, if any.
    pub prev_hash: Option<String>,
    pub user_agent: Option<String>,
    pub ip: Option<String>,
    pub created_at: i64,
    pub rotated_at: Option<i64>,
    pub expires_at: i64,
    pub revoked_at: Option<i64>,
}

/// Specification-level shape of a session row.
pub ghost struct SessionV {
    pub id: u128,
    pub user_id: u128,
    pub refresh_hash: Seq<char>,
    pub prev_hash: Option<Seq<char>>,
    pub user_agent: Option<Seq<char>>,
    pub ip: Option<Seq<char>>,
    pub created_at: i64,
    pub rotated_at: Option<i64>,
    pub expires_at: i64,
    pub revoked_at: Option<i64>,
}

pub open spec fn opt_str_view(o: Option<String>) -> Option<Seq<char>> {
    match o {
        Some(s) => Some(s@),
        None => None,
    }
}

impl View for AuthSession {
    type V = SessionV;

    open spec fn view(&self) -> SessionV {
        SessionV {
            id: self.id,
            user_id: self.user_id,
            refresh_hash: self.refresh_hash@,
            prev_hash: opt_str_view(self.prev_hash),
            user_agent: opt_str_view(self.user_agent),
            ip: opt_str_view(self.ip),
            created_at: self.created_at,
            rotated_at: self.rotated_at,
            expires_at: self.expires_at,
            revoked_at: self.revoked_at,
        }
    }
}

impl DeepView for AuthSession {
    type V = SessionV;

    open spec fn deep_view(&self) -> SessionV {
        self.view()
    }
}

/// Refresh sessions live fourteen days.
pub open spec fn refresh_lifetime() -> int {
    1209600
}

/// Revoked rows are retained seven days before cleanup.
pub open spec fn revoked_retention() -> int {
    604800
}

/// A session is active iff not revoked and not yet expired.
pub open spec fn is_active(s: SessionV, now: i64) -> bool {
    s.revoked_at is None && s.expires_at > now
}

/// Whether a stored hash verifies against a presented secret.
pub open spec fn matches_hash(hash: Seq<char>, secret: Seq<char>) -> bool {
    argon_matches(hash, secret)
}

/// The presented secret matches the session's current hash.
pub open spec fn current_match(s: SessionV, presented: Seq<char>) -> bool {
    matches_hash(s.refresh_hash, presented)
}

/// The presented secret matches the hash superseded at the last rotation.
pub open spec fn prev_match(s: SessionV, presented: Seq<char>) -> bool {
    match s.prev_hash {
        Some(h) => matches_hash(h, presented),
        None => false,
    }
}

/// The linear scan stops at this session: it is active and the secret
/// matches its current or superseded hash.
pub open spec fn hit(s: SessionV, presented: Seq<char>, now: i64) -> bool {
    is_active(s, now) && (current_match(s, presented) || prev_match(s, presented))
}

/// Index of the first hit at or after `i`, or -1.
pub open spec fn find_hit(v: Seq<SessionV>, presented: Seq<char>, now: i64, i: int) -> int
    decreases v.len() - i,
{
    if i < 0 || i >= v.len() {
        -1
    } else if hit(v[i], presented, now) {
        i
    } else {
        find_hit(v, presented, now, i + 1)
    }
}

/// Index of the first session the scan stops at, or -1 when the secret
/// matches no active session.
pub open spec fn first_hit(v: Seq<SessionV>, presented: Seq<char>, now: i64) -> int {
    find_hit(v, presented, now, 0)
}

/// One session after a revocation pass for an actor: the revocation
/// timestamp is set if the row belongs to the actor and was not yet revoked.
pub open spec fn revoke_one(s: SessionV, user_id: u128, now: i64) -> SessionV {
    if s.user_id == user_id && s.revoked_at is None {
        SessionV { revoked_at: Some(now), ..s }
    } else {
        s
    }
}

/// The store after revoking every session of an actor (the reuse cascade).
pub open spec fn revoked_all_for(v: Seq<SessionV>, user_id: u128, now: i64) -> Seq<SessionV> {
    Seq::new(v.len(), |i: int| revoke_one(v[i], user_id, now))
}

/// The store after rotating the session at `h` to a new hash: the old hash
/// moves into the tripwire slot and the rotation timestamp is refreshed.
pub open spec fn rotate_at(v: Seq<SessionV>, h: int, new_hash: Seq<char>, now: i64) -> Seq<
    SessionV,
> {
    v.update(
        h,
        SessionV {
            refresh_hash: new_hash,
            prev_hash: Some(v[h].refresh_hash),
            rotated_at: Some(now),
            ..v[h]
        },
    )
}

/// A row survives cleanup iff it is not expired and not revoked longer ago
/// than the retention window.
pub open spec fn retain_session(s: SessionV, now: i64) -> bool {
    !(s.expires_at < now || (match s.revoked_at {
        Some(t) => t < now - revoked_retention(),
        None => false,
    }))
}

/// The store after cleanup, in order.
pub open spec fn cleaned(v: Seq<SessionV>, now: i64) -> Seq<SessionV>
    decreases v.len(),
{
    if v.len() == 0 {
        Seq::<SessionV>::empty()
    } else if retain_session(v[0], now) {
        seq![v[0]] + cleaned(v.drop_first(), now)
    } else {
        cleaned(v.drop_first(), now)
    }
}

/// Persists refresh sessions and rotates them on use. Callers pass the
/// current Unix time; the store itself never consults a clock.
pub struct RefreshService {
    sessions: Vec<AuthSession>,
}

impl View for RefreshService {
    type V = Seq<SessionV>;

    closed spec fn view(&self) -> Seq<SessionV> {
        self.sessions.deep_view()
    }
}

proof fn lemma_find_hit_from(v: Seq<SessionV>, presented: Seq<char>, now: i64, i: int)
    requires
        0 <= i <= v.len(),
        forall|t: int| 0 <= t < i ==> !hit(#[trigger] v[t], presented, now),
    ensures
        first_hit(v, presented, now) == find_hit(v, presented, now, i),
    decreases i,
{
    if i > 0 {
        lemma_find_hit_from(v, presented, now, i - 1);
    }
}

fn clone_opt_string(o: &Option<String>) -> (r: Option<String>)
    ensures
        opt_str_view(r) == opt_str_view(*o),
{
    match o {
        Some(s) => Some(s.clone()),
        None => None,
    }
}

impl RefreshService {
    pub fn new() -> (r: RefreshService)
        ensures
            r@ == Seq::<SessionV>::empty(),
    {
        let r = RefreshService { sessions: Vec::new() };
        proof {
            assert(r@ =~= Seq::<SessionV>::empty());
        }
        r
    }

    /// Creates a session for a fresh login: generates a secure refresh
    /// secret, stores only its hash, and sets expiry fourteen days out. The
    /// stored hash matches exactly the returned secret; the row starts
    /// unrotated and unrevoked.
    pub fn create_session(
        &mut self,
        user_id: u128,
        user_agent: Option<String>,
        ip: Option<String>,
        now: i64,
    ) -> (r: Result<(u128, String), AuthError>)
        requires
            0 <= now <= i64::MAX - refresh_lifetime(),
        ensures
            match r {
                Ok((session_id, secret)) => {
                    &&& final(self)@ == old(self)@.push(final(self)@.last())
                    &&& ({
                        let s = final(self)@.last();
                        &&& s.id == session_id
                        &&& s.user_id == user_id
                        &&& current_match(s, secret@)
                        &&& s.prev_hash is None
                        &&& s.rotated_at is None
                        &&& s.revoked_at is None
                        &&& s.created_at == now
                        &&& s.expires_at == now + refresh_lifetime()
                    })
                    &&& secret@.len() == 43
                },
                Err(e) => final(self)@ == old(self)@ && e == AuthError::Infrastructure,
            },
    {
        let session_id = fresh_session_id();
        let refresh_token = generate_secure_token();
        let refresh_hash = match argon_hash(refresh_token.as_str()) {
            Ok(h) => h,
            Err(_) => {
                return Err(AuthError::Infrastructure);
            },
        };
        let row = AuthSession {
            id: session_id,
            user_id,
            refresh_hash,
            prev_hash: None,
            user_agent,
            ip,
            created_at: now,
            rotated_at: None,
            expires_at: now + 1209600,
            revoked_at: None,
        };
        let ghost rv = row@;
        self.sessions.push(row);
        proof {
            assert(self@ =~= old(self)@.push(rv));
        }
        Ok((session_id, refresh_token))
    }

    fn find_matching(&self, refresh_token: &str, now: i64) -> (r: Option<(usize, bool)>)
        ensures
            match r {
                None => first_hit(self@, refresh_token@, now) == -1,
                Some((i, cur)) => {
                    &&& first_hit(self@, refresh_token@, now) == i
                    &&& i < self@.len()
                    &&& cur == current_match(self@[i as int], refresh_token@)
                    &&& hit(self@[i as int], refresh_token@, now)
                },
            },
    {
        let n = self.sessions.len();
        let mut i: usize = 0;
        while i < n
            invariant
                0 <= i <= n,
                n == self@.len(),
                self@ == self.sessions.deep_view(),
                forall|t: int| 0 <= t < i ==> !hit(#[trigger] self@[t], refresh_token@, now),
            decreases n - i,
        {
            let sess = &self.sessions[i];
            proof {
                assert(self@[i as int] == sess@);
            }
            let active = sess.revoked_at.is_none() && sess.expires_at > now;
            if active {
                if argon_verify(sess.refresh_hash.as_str(), refresh_token) {
                    proof {
                        lemma_find_hit_from(self@, refresh_token@, now, i as int);
                    }
                    return Some((i, true));
                }
                let prev_hit = match &sess.prev_hash {
                    Some(h) => argon_verify(h.as_str(), refresh_token),
                    None => false,
                };
                if prev_hit {
                    proof {
                        lemma_find_hit_from(self@, refresh_token@, now, i as int);
                    }
                    return Some((i, false));
                }
            }
            i = i + 1;
        }
        proof {
            lemma_find_hit_from(self@, refresh_token@, now, n as int);
        }
        None
    }

    /// Revokes every session of the actor, idempotently: the revocation
    /// timestamp is set where unset, everything else is untouched.
    pub fn revoke_user_sessions(&mut self, user_id: u128, now: i64)
        ensures
            final(self)@ == revoked_all_for(old(self)@, user_id, now),
    {
        let n = self.sessions.len();
        let mut j: usize = 0;
        while j < n
            invariant
                0 <= j <= n,
                n == old(self)@.len(),
                self@.len() == n,
                forall|t: int| 0 <= t < j ==> self@[t] == revoke_one(#[trigger] old(self)@[t],
                    user_id, now),
                forall|t: int| j <= t < n ==> self@[t] == #[trigger] old(self)@[t],
            decreases n - j,
        {
            let needs = self.sessions[j].user_id == user_id && self.sessions[j].revoked_at.is_none();
            if needs {
                let row = &self.sessions[j];
                let updated = AuthSession {
                    id: row.id,
                    user_id: row.user_id,
                    refresh_hash: row.refresh_hash.clone(),
                    prev_hash: clone_opt_string(&row.prev_hash),
                    user_agent: clone_opt_string(&row.user_agent),
                    ip: clone_opt_string(&row.ip),
                    created_at: row.created_at,
                    rotated_at: row.rotated_at,
                    expires_at: row.expires_at,
                    revoked_at: Some(now),
                };
                proof {
                    assert(updated@ == revoke_one(old(self)@[j as int], user_id, now));
                }
                self.sessions.set(j, updated);
            }
            j = j + 1;
        }
        proof {
            assert(final(self)@ =~= revoked_all_for(old(self)@, user_id, now));
        }
    }

    /// Revokes the sessions with the given identifier, idempotently.
    pub fn revoke_session(&mut self, session_id: u128, now: i64)
        ensures
            final(self)@.len() == old(self)@.len(),
            forall|t: int| 0 <= t < old(self)@.len() ==> final(self)@[t] == (
                if old(self)@[t].id == session_id && old(self)@[t].revoked_at is None {
                    SessionV { revoked_at: Some(now), ..old(self)@[t] }
                } else {
                    #[trigger] old(self)@[t]
                }),
    {
        let n = self.sessions.len();
        let mut j: usize = 0;
        while j < n
            invariant
                0 <= j <= n,
                n == old(self)@.len(),
                self@.len() == n,
                forall|t: int| 0 <= t < j ==> self@[t] == (
                    if old(self)@[t].id == session_id && old(self)@[t].revoked_at is None {
                        SessionV { revoked_at: Some(now), ..old(self)@[t] }
                    } else {
                        #[trigger] old(self)@[t]
                    }),
                forall|t: int| j <= t < n ==> self@[t] == #[trigger] old(self)@[t],
            decreases n - j,
        {
            let needs = self.sessions[j].id == session_id && self.sessions[j].revoked_at.is_none();
            if needs {
                let row = &self.sessions[j];
                let updated = AuthSession {
                    id: row.id,
                    user_id: row.user_id,
                    refresh_hash: row.refresh_hash.clone(),
                    prev_hash: clone_opt_string(&row.prev_hash),
                    user_agent: clone_opt_string(&row.user_agent),
                    ip: clone_opt_string(&row.ip),
                    created_at: row.created_at,
                    rotated_at: row.rotated_at,
                    expires_at: row.expires_at,
                    revoked_at: Some(now),
                };
                self.sessions.set(j, updated);
            }
            j = j + 1;
        }
    }

    /// The security-critical step. Scans active sessions for the presented
    /// secret. A hit on a current hash rotates the session in place: a fresh
    /// secret is issued, its hash replaces the stored one, the superseded
    /// hash arms the tripwire, and the rotation timestamp is set. A hit on a
    /// superseded hash is a replay of a stolen credential: every session of
    /// the owning actor is revoked and the call fails. No hit at all fails
    /// without side effects, indistinguishably from an expired session.
    pub fn verify_and_rotate(&mut self, refresh_token: &str, now: i64) -> (r: Result<
        (u128, String),
        AuthError,
    >)
        ensures
            ({
                let v = old(self)@;
                let h = first_hit(v, refresh_token@, now);
                match r {
                    Ok((user_id, secret)) => {
                        &&& 0 <= h < v.len()
                        &&& current_match(v[h], refresh_token@)
                        &&& user_id == v[h].user_id
                        &&& secret@.len() == 43
                        &&& final(self)@ == rotate_at(v, h, final(self)@[h].refresh_hash, now)
                        &&& current_match(final(self)@[h], secret@)
                    },
                    Err(AuthError::InvalidOrExpired) => h == -1 && final(self)@ == v,
                    Err(AuthError::ReuseDetected) => {
                        &&& 0 <= h < v.len()
                        &&& !current_match(v[h], refresh_token@)
                        &&& prev_match(v[h], refresh_token@)
                        &&& final(self)@ == revoked_all_for(v, v[h].user_id, now)
                    },
                    Err(AuthError::Infrastructure) => {
                        &&& 0 <= h < v.len()
                        &&& current_match(v[h], refresh_token@)
                        &&& final(self)@ == v
                    },
                    Err(_) => false,
                }
            }),
            // each outcome comes exactly on its inputs
            ({
                let v = old(self)@;
                let h = first_hit(v, refresh_token@, now);
                &&& (h == -1 <==> r == Err::<(u128, String), AuthError>(
                    AuthError::InvalidOrExpired,
                ))
                &&& ((0 <= h && !current_match(v[h], refresh_token@)) <==> r == Err::<
                    (u128, String),
                    AuthError,
                >(AuthError::ReuseDetected))
                &&& ((0 <= h && current_match(v[h], refresh_token@)) ==> (r is Ok || r == Err::<
                    (u128, String),
                    AuthError,
                >(AuthError::Infrastructure)))
            }),
    {
        match self.find_matching(refresh_token, now) {
            None => Err(AuthError::InvalidOrExpired),
            Some((i, false)) => {
                // an already-superseded secret is being replayed: theft.
                let user_id = self.sessions[i].user_id;
                self.revoke_user_sessions(user_id, now);
                Err(AuthError::ReuseDetected)
            },
            Some((i, true)) => {
                let new_refresh_token = generate_secure_token();
                let new_refresh_hash = match argon_hash(new_refresh_token.as_str()) {
                    Ok(h) => h,
                    Err(_) => {
                        return Err(AuthError::Infrastructure);
                    },
                };
                let row = &self.sessions[i];
                let user_id = row.user_id;
                let updated = AuthSession {
                    id: row.id,
                    user_id: row.user_id,
                    refresh_hash: new_refresh_hash,
                    prev_hash: Some(row.refresh_hash.clone()),
                    user_agent: clone_opt_string(&row.user_agent),
                    ip: clone_opt_string(&row.ip),
                    created_at: row.created_at,
                    rotated_at: Some(now),
                    expires_at: row.expires_at,
                    revoked_at: row.revoked_at,
                };
                let ghost uv = updated@;
                self.sessions.set(i, updated);
                proof {
                    assert(final(self)@ =~= rotate_at(old(self)@, i as int, uv.refresh_hash, now));
                }
                Ok((user_id, new_refresh_token))
            },
        }
    }

    /// Deletes sessions that are expired, or revoked for longer than the
    /// retention window; returns how many rows were removed. Storage
    /// hygiene only.
    pub fn cleanup_expired(&mut self, now: i64) -> (count: usize)
        requires
            i64::MIN + revoked_retention() <= now,
        ensures
            final(self)@ == cleaned(old(self)@, now),
            count == old(self)@.len() - final(self)@.len(),
    {
        let mut i: usize = self.sessions.len();
        let ghost orig = self@;
        let ghost n = orig.len() as int;
        let mut removed: usize = 0;
        proof {
            assert(orig.skip(n) =~= Seq::<SessionV>::empty());
            assert(orig.take(n) =~= orig);
            assert(self@ =~= orig.take(n) + cleaned(orig.skip(n), now));
        }
        while i > 0
            invariant
                i64::MIN + revoked_retention() <= now,
                orig.len() == n,
                self@.len() + removed == n,
                removed <= n <= usize::MAX,
                i <= self@.len(),
                self@ == orig.take(i as int) + cleaned(orig.skip(i as int), now),
            decreases i,
        {
            let keep = {
                let row = &self.sessions[i - 1];
                let expired = row.expires_at < now;
                let long_revoked = match row.revoked_at {
                    Some(t) => t < now - 604800,
                    None => false,
                };
                !(expired || long_revoked)
            };
            proof {
                assert(self@[i - 1] == orig.take(i as int)[i - 1]);
                assert(self@[i - 1] == orig[i - 1]);
                assert(orig.skip(i as int - 1)[0] == orig[i - 1]);
                assert(orig.skip(i as int - 1).drop_first() =~= orig.skip(i as int));
                assert(keep == retain_session(orig[i - 1], now));
            }
            if keep {
                proof {
                    assert(orig.take(i as int) =~= orig.take(i as int - 1).push(orig[i - 1]));
                    assert(cleaned(orig.skip(i as int - 1), now) =~= seq![orig[i - 1]] + cleaned(
                        orig.skip(i as int),
                        now,
                    ));
                    assert(self@ =~= orig.take(i as int - 1) + cleaned(
                        orig.skip(i as int - 1),
                        now,
                    ));
                }
            } else {
                let ghost pre = self@;
                self.sessions.remove(i - 1);
                proof {
                    assert(self@ =~= pre.remove(i as int - 1));
                    assert(cleaned(orig.skip(i as int - 1), now) =~= cleaned(
                        orig.skip(i as int),
                        now,
                    ));
                    assert(self@ =~= orig.take(i as int - 1) + cleaned(
                        orig.skip(i as int - 1),
                        now,
                    ));
                }
                removed = removed + 1;
            }
            i = i - 1;
        }
        proof {
            assert(orig.take(0) =~= Seq::<SessionV>::empty());
            assert(orig.skip(0) =~= orig);
            assert(final(self)@ =~= cleaned(orig, now));
        }
        removed
    }
}

// ---------------------------------------------------------------------------
// Laws of the rotation state machine.
// ---------------------------------------------------------------------------

/// Rotation monotonicity. After the session at `h` rotates from a secret to
/// a fresh one (the store now being `rotate_at(pre, h, new_hash, now)`),
/// presenting the superseded secret stops the scan at `h` on the tripwire
/// alone, so by the contract of `verify_and_rotate` the call fails with
/// reuse detected; presenting the fresh secret stops the scan at `h` on the
/// current hash, so the call rotates. The hypotheses exclude hash
/// collisions: the fresh hash verifies only against the fresh secret, and
/// neither secret matches any other session.
pub proof fn lemma_rotation_monotonicity(
    pre: Seq<SessionV>,
    h: int,
    new_hash: Seq<char>,
    old_secret: Seq<char>,
    new_secret: Seq<char>,
    now: i64,
    later: i64,
)
    requires
        0 <= h < pre.len(),
        current_match(pre[h], old_secret),
        is_active(pre[h], later),
        matches_hash(new_hash, new_secret),
        !matches_hash(new_hash, old_secret),
        forall|j: int|
            0 <= j < pre.len() && j != h ==> !hit(#[trigger] pre[j], old_secret, later) && !hit(
                pre[j],
                new_secret,
                later,
            ),
    ensures
        ({
            let post = rotate_at(pre, h, new_hash, now);
            &&& first_hit(post, old_secret, later) == h
            &&& !current_match(post[h], old_secret)
            &&& prev_match(post[h], old_secret)
            &&& first_hit(post, new_secret, later) == h
            &&& current_match(post[h], new_secret)
        }),
{
    let post = rotate_at(pre, h, new_hash, now);
    assert(forall|j: int| 0 <= j < pre.len() && j != h ==> post[j] == pre[j]);
    assert(is_active(post[h], later));
    assert(prev_match(post[h], old_secret));
    assert(hit(post[h], old_secret, later));
    assert(hit(post[h], new_secret, later));
    lemma_find_hit_from(post, old_secret, later, h);
    lemma_find_hit_from(post, new_secret, later, h);
}

/// Reuse detection. Given a session at `h` already rotated from secret A to
/// secret B (A arms the tripwire, B is current), presenting A stops the
/// scan at `h` on the tripwire alone, so by the contract of
/// `verify_and_rotate` the call fails with reuse detected and the store
/// becomes `revoked_all_for(pre, owner, now)`: every session of the owning
/// actor is revoked. In that store a subsequent presentation of B hits
/// nothing, so even the never-used current secret fails. The hypotheses
/// exclude hash collisions with unrelated sessions.
pub proof fn lemma_reuse_detection(
    pre: Seq<SessionV>,
    h: int,
    secret_a: Seq<char>,
    secret_b: Seq<char>,
    now: i64,
    later: i64,
)
    requires
        0 <= h < pre.len(),
        is_active(pre[h], now),
        prev_match(pre[h], secret_a),
        !current_match(pre[h], secret_a),
        current_match(pre[h], secret_b),
        forall|j: int| 0 <= j < pre.len() && j != h ==> !hit(#[trigger] pre[j], secret_a, now),
        forall|j: int|
            0 <= j < pre.len() && pre[j].user_id != pre[h].user_id ==> !hit(
                #[trigger] pre[j],
                secret_b,
                later,
            ),
    ensures
        first_hit(pre, secret_a, now) == h,
        !current_match(pre[h], secret_a),
        ({
            let post = revoked_all_for(pre, pre[h].user_id, now);
            &&& forall|j: int|
                0 <= j < post.len() && #[trigger] post[j].user_id == pre[h].user_id
                    ==> post[j].revoked_at is Some
            &&& first_hit(post, secret_b, later) == -1
        }),
{
    assert(hit(pre[h], secret_a, now));
    lemma_find_hit_from(pre, secret_a, now, h);
    let post = revoked_all_for(pre, pre[h].user_id, now);
    assert forall|j: int| 0 <= j < post.len() implies !hit(#[trigger] post[j], secret_b, later) by {
        if pre[j].user_id == pre[h].user_id {
            assert(post[j].revoked_at is Some);
        } else {
            assert(post[j] == pre[j]);
        }
    }
    lemma_find_hit_from(post, secret_b, later, post.len() as int);
}

} // verus!
