//! Deployment settings and the derivation of the field-encryption key from
//! its configured form. Reading the environment happens outside; the caller
//! hands the raw values in.

use vstd::prelude::*;

verus! {

use vstd::string::StringSliceAdditionalSpecFns;

use crate::crypto::{hex_of, hex_decode, is_hex_seq, lower_hex_view};
use crate::errors::AuthError;

/// Deployment settings.
pub struct Config {
    pub meta_database_url: String,
    pub default_tenant_db: String,
    pub jwt_secret: String,
    pub cookie_domain: Option<String>,
    pub cors_allowed_origins: Vec<String>,
    pub port: u16,
    pub aes_key: Vec<u8>,
}

/// A configuration is well formed when its field-encryption key has the
/// AES-256 length.
pub open spec fn wf_config(c: &Config) -> bool {
    c.aes_key@.len() == 32
}

/// A short configured key taken as raw bytes, zero-padded or truncated to
/// 32.
pub open spec fn padded_key(b: Seq<u8>) -> Seq<u8> {
    Seq::new(32, |i: int| if i < b.len() { b[i] } else { 0u8 })
}

/// Derives the 32-byte field-encryption key from its configured form: a
/// 64-digit hex string decodes to the key and anything else of that length
/// is rejected; a string of any other length is taken as raw bytes,
/// zero-padded or truncated to 32.
pub fn derive_aes_key(aes_key_hex: &str) -> (r: Result<Vec<u8>, AuthError>)
    ensures
        match r {
            Ok(k) => {
                &&& k@.len() == 32
                &&& (aes_key_hex@.len() == 64 ==> hex_of(k@) == lower_hex_view(aes_key_hex@))
                &&& (aes_key_hex@.len() != 64 ==> k@ == padded_key(aes_key_hex.spec_bytes()))
            },
            Err(e) => {
                &&& e == AuthError::Validation
                &&& aes_key_hex@.len() == 64
                &&& (!is_hex_seq(aes_key_hex@) || aes_key_hex@.len() % 2 != 0)
            },
        },
{
    if aes_key_hex.unicode_len() == 64 {
        match hex_decode(aes_key_hex) {
            Some(k) => {
                proof {
                    assert(k@.len() == 32);
                }
                Ok(k)
            },
            None => Err(AuthError::Validation),
        }
    } else {
        let bytes = aes_key_hex.as_bytes();
        let mut key: Vec<u8> = Vec::new();
        let take_n = if bytes.len() < 32 {
            bytes.len()
        } else {
            32
        };
        let mut i: usize = 0;
        while i < take_n
            invariant
                0 <= i <= take_n,
                take_n <= bytes@.len(),
                take_n <= 32,
                key@.len() == i,
                forall|t: int| 0 <= t < i ==> key@[t] == bytes@[t],
            decreases take_n - i,
        {
            let b = bytes[i];
            key.push(b);
            i = i + 1;
        }
        while i < 32
            invariant
                take_n <= i <= 32,
                take_n <= bytes@.len(),
                key@.len() == i,
                forall|t: int| 0 <= t < take_n ==> key@[t] == bytes@[t],
                forall|t: int| take_n <= t < i ==> key@[t] == 0u8,
            decreases 32 - i,
        {
            key.push(0u8);
            i = i + 1;
        }
        proof {
            assert(key@ =~= padded_key(aes_key_hex.spec_bytes()));
        }
        Ok(key)
    }
}

} // verus!
