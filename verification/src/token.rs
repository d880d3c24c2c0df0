//! Issuance and verification of the compact, signed, stateless access
//! token: the serialized claims payload, a `.` separator, and an HMAC-SHA256
//! signature over the payload. Signature and expiry are checked in one step;
//! expiry is a hard boundary with no grace window.

use vstd::prelude::*;

verus! {

use crate::claims::{
    Claims, ClaimsV, ser_claims, parse_claims_seq, serialize_claims, parse_claims_str, wf_claims,
    lemma_parse_ser_claims,
};
use crate::errors::AuthError;

/// The base64url signature string that HMAC-SHA256 under a key assigns to a
/// message: a function of key and message alone.
pub uninterp spec fn hs256_sig_of(key: Seq<char>, message: Seq<char>) -> Seq<char>;

/// Whether a sequence contains no `.`; signatures satisfy it, which is what
/// makes the payload/signature split unambiguous.
pub open spec fn dot_free(s: Seq<char>) -> bool {
    forall|i: int| 0 <= i < s.len() ==> s[i] != '.'
}

/// Relies on jsonwebtoken's `crypto::sign` with `Algorithm::HS256`: the
/// base64url (URL-safe alphabet, unpadded) encoding of the HMAC-SHA256 of
/// the message under the key, deterministic in both. A 32-byte tag encodes
/// to exactly 43 characters, none of them `.`. The HS256 path of `sign`
/// never fails, so the fallback arm is unreachable.
#[verifier::external_body]
fn sign_hs256(message: &str, secret: &str) -> (r: String)
    ensures
        r@ == hs256_sig_of(secret@, message@),
        r@.len() == 43,
        dot_free(r@),
{
    match jsonwebtoken::crypto::sign(
        message.as_bytes(),
        &jsonwebtoken::EncodingKey::from_secret(secret.as_bytes()),
        jsonwebtoken::Algorithm::HS256,
    ) {
        Ok(s) => s,
        Err(_) => String::new(),
    }
}

/// Relies on jsonwebtoken's `crypto::verify` with `Algorithm::HS256`: it
/// recomputes the signature of the message under the key and compares the
/// byte slices in constant time, so it succeeds exactly when the presented
/// signature string equals the recomputed one. The HS256 path never fails,
/// so the fallback arm is unreachable.
#[verifier::external_body]
fn verify_hs256(signature: &str, message: &str, secret: &str) -> (r: bool)
    ensures
        r == (signature@ == hs256_sig_of(secret@, message@)),
{
    match jsonwebtoken::crypto::verify(
        signature,
        message.as_bytes(),
        &jsonwebtoken::DecodingKey::from_secret(secret.as_bytes()),
        jsonwebtoken::Algorithm::HS256,
    ) {
        Ok(b) => b,
        Err(_) => false,
    }
}

/// The token minted for given claims under a key.
pub open spec fn token_of(key: Seq<char>, c: ClaimsV) -> Seq<char> {
    ser_claims(c) + seq!['.'] + hs256_sig_of(key, ser_claims(c))
}

/// Index of the last `.`, or -1 when there is none.
pub open spec fn last_dot_index(s: Seq<char>) -> int
    decreases s.len(),
{
    if s.len() == 0 {
        -1
    } else if s.last() == '.' {
        s.len() - 1
    } else {
        last_dot_index(s.drop_last())
    }
}

/// What verification of a token under a key at a given time yields: split at
/// the last `.`, check the signature over the payload, parse the payload,
/// and accept only an unexpired token.
pub open spec fn verify_outcome(key: Seq<char>, token: Seq<char>, now: i64) -> Option<ClaimsV> {
    let d = last_dot_index(token);
    if d < 0 {
        None
    } else {
        let msg = token.take(d);
        let sig = token.skip(d + 1);
        if sig == hs256_sig_of(key, msg) {
            match parse_claims_seq(msg) {
                None => None,
                Some(c) => if c.exp > now {
                    Some(c)
                } else {
                    None
                },
            }
        } else {
            None
        }
    }
}

proof fn lemma_last_dot_at(s: Seq<char>, k: int)
    requires
        0 <= k < s.len(),
        s[k] == '.',
        forall|t: int| k < t < s.len() ==> s[t] != '.',
    ensures
        last_dot_index(s) == k,
    decreases s.len(),
{
    if s.last() == '.' {
        assert(k == s.len() - 1);
    } else {
        assert(k < s.len() - 1);
        lemma_last_dot_at(s.drop_last(), k);
    }
}

proof fn lemma_no_dot(s: Seq<char>)
    requires
        dot_free(s),
    ensures
        last_dot_index(s) == -1,
    decreases s.len(),
{
    if s.len() > 0 {
        lemma_no_dot(s.drop_last());
    }
}

/// Issues and verifies access tokens with a symmetric secret.
pub struct JwtService {
    secret: String,
}

impl JwtService {
    /// The signing key, for contracts.
    pub closed spec fn spec_key(&self) -> Seq<char> {
        self.secret@
    }

    pub fn new(secret: &str) -> (r: JwtService)
        ensures
            r.spec_key() == secret@,
    {
        JwtService { secret: secret.to_owned() }
    }

    /// Serializes the claims and signs the payload. The token verifies back
    /// to exactly these claims until their expiry: together with the shape
    /// of the signature stated here, `lemma_token_round_trip` applies to the
    /// result.
    pub fn create_token(&self, claims: &Claims) -> (r: Result<String, AuthError>)
        requires
            0 <= claims.iat,
            0 <= claims.exp,
        ensures
            r matches Ok(t) && t@ == token_of(self.spec_key(), claims@),
            hs256_sig_of(self.spec_key(), ser_claims(claims@)).len() == 43,
            dot_free(hs256_sig_of(self.spec_key(), ser_claims(claims@))),
    {
        let payload = serialize_claims(claims);
        let sig = sign_hs256(payload.as_str(), self.secret.as_str());
        let mut out = payload;
        out.push('.');
        out.append(sig.as_str());
        proof {
            assert(out@ =~= token_of(self.spec_key(), claims@));
        }
        Ok(out)
    }

    /// Validates signature and expiry in one step; fails with the invalid
    /// token outcome for a bad signature, a malformed payload, or an expired
    /// token.
    pub fn verify_token(&self, token: &str, now: i64) -> (r: Result<Claims, AuthError>)
        ensures
            match r {
                Ok(c) => verify_outcome(self.spec_key(), token@, now) == Some(c@),
                Err(e) => verify_outcome(self.spec_key(), token@, now) is None && e
                    == AuthError::InvalidToken,
            },
    {
        let len = token.unicode_len();
        // find the last '.'
        let mut i: usize = 0;
        let mut last: Option<usize> = None;
        while i < len
            invariant
                0 <= i <= len,
                len == token@.len(),
                match last {
                    Some(d) => d < i && token@[d as int] == '.' && forall|t: int|
                        d < t < i ==> token@[t] != '.',
                    None => forall|t: int| 0 <= t < i ==> token@[t] != '.',
                },
            decreases len - i,
        {
            if token.get_char(i) == '.' {
                last = Some(i);
            }
            i = i + 1;
        }
        let d = match last {
            None => {
                proof {
                    lemma_no_dot(token@);
                }
                return Err(AuthError::InvalidToken);
            },
            Some(d) => d,
        };
        proof {
            lemma_last_dot_at(token@, d as int);
        }
        let msg = token.substring_char(0, d);
        let sig = token.substring_char(d + 1, len);
        proof {
            assert(msg@ =~= token@.take(d as int));
            assert(sig@ =~= token@.skip(d as int + 1));
        }
        if !verify_hs256(sig, msg, self.secret.as_str()) {
            return Err(AuthError::InvalidToken);
        }
        match parse_claims_str(msg) {
            None => Err(AuthError::InvalidToken),
            Some(c) => {
                if c.exp > now {
                    Ok(c)
                } else {
                    Err(AuthError::InvalidToken)
                }
            },
        }
    }
}

// ---------------------------------------------------------------------------
// Round trip: a freshly minted token verifies back to its claims until the
// clock passes their expiry, and to nothing afterwards.
// ---------------------------------------------------------------------------

/// A minted token verifies to exactly the claims it was minted for while
/// they are unexpired. The two signature hypotheses are the shape facts of
/// base64url signatures (non-empty, no `.`), which the signing primitive
/// guarantees.
pub proof fn lemma_token_round_trip(key: Seq<char>, c: ClaimsV, now: i64)
    requires
        wf_claims(c),
        now < c.exp,
        hs256_sig_of(key, ser_claims(c)).len() > 0,
        dot_free(hs256_sig_of(key, ser_claims(c))),
    ensures
        verify_outcome(key, token_of(key, c), now) == Some(c),
{
    lemma_token_split(key, c);
    lemma_parse_ser_claims(c);
}

/// Once the clock reaches the expiry, the same token verifies to nothing.
pub proof fn lemma_token_expired(key: Seq<char>, c: ClaimsV, now: i64)
    requires
        wf_claims(c),
        now >= c.exp,
        hs256_sig_of(key, ser_claims(c)).len() > 0,
        dot_free(hs256_sig_of(key, ser_claims(c))),
    ensures
        verify_outcome(key, token_of(key, c), now) is None,
{
    lemma_token_split(key, c);
    lemma_parse_ser_claims(c);
}

proof fn lemma_token_split(key: Seq<char>, c: ClaimsV)
    requires
        hs256_sig_of(key, ser_claims(c)).len() > 0,
        dot_free(hs256_sig_of(key, ser_claims(c))),
    ensures
        last_dot_index(token_of(key, c)) == ser_claims(c).len(),
        token_of(key, c).take(ser_claims(c).len() as int) == ser_claims(c),
        token_of(key, c).skip(ser_claims(c).len() as int + 1) == hs256_sig_of(key, ser_claims(c)),
{
    let msg = ser_claims(c);
    let sig = hs256_sig_of(key, msg);
    let t = token_of(key, c);
    let d = msg.len() as int;
    assert(t[d] == '.');
    assert(forall|x: int| d < x < t.len() ==> t[x] == sig[x - d - 1]);
    lemma_last_dot_at(t, d);
    assert(t.take(d) =~= msg);
    assert(t.skip(d + 1) =~= sig);
}

} // verus!

