//! Keyed-hash signing over a 256-bit secret key given as a hex string.

use vstd::prelude::*;

verus! {

use vstd::string::StrSliceExecFns;

use crate::multi_color::{hex_val_char, spec_hex_val, spec_is_hex_digit};

/// The 32-byte keyed digest of the given content under the given 32-byte
/// key.
pub uninterp spec fn keyed_hash_of(key: Seq<u8>, content: Seq<u8>) -> Seq<u8>;

/// Relies on `blake3::keyed_hash`: the digest depends on the key and the
/// content alone, and is 32 bytes long.
#[verifier::external_body]
fn keyed_hash_bytes(key: &[u8; 32], content: &[u8]) -> (r: [u8; 32])
    ensures
        r@ == keyed_hash_of(key@, content@),
{
    *blake3::keyed_hash(key, content).as_bytes()
}

/// Decodes a 256-bit key from its hex text: it succeeds exactly on a
/// string of 64 hex digits (upper or lower case), filling the buffer
/// with their values, two digits per byte.
fn hex_decode_key(s: &str) -> (r: Result<[u8; 32], ()>)
    ensures
        r is Ok <==> (s@.len() == 64 && forall|i: int|
            0 <= i < 64 ==> spec_is_hex_digit(#[trigger] s@[i])),
        r matches Ok(k) ==> forall|i: int|
            0 <= i < 32 ==> #[trigger] k@[i] == spec_hex_val(s@[2 * i]) * 16 + spec_hex_val(
                s@[2 * i + 1],
            ),
{
    if s.unicode_len() != 64 {
        return Err(());
    }
    let mut key = [0u8; 32];
    let mut i: usize = 0;
    while i < 32
        invariant
            i <= 32,
            s@.len() == 64,
            forall|j: int| 0 <= j < 2 * i ==> spec_is_hex_digit(#[trigger] s@[j]),
            forall|j: int|
                0 <= j < i ==> #[trigger] key@[j] == spec_hex_val(s@[2 * j]) * 16 + spec_hex_val(
                    s@[2 * j + 1],
                ),
        decreases 32 - i,
    {
        let hi = s.get_char(2 * i);
        let lo = s.get_char(2 * i + 1);
        let hv = match hex_val_char(hi) {
            Some(v) => v,
            None => {
                return Err(());
            },
        };
        let lv = match hex_val_char(lo) {
            Some(v) => v,
            None => {
                return Err(());
            },
        };
        key[i] = hv * 16 + lv;
        i = i + 1;
    }
    Ok(key)
}

/// Relies on `blake3::keyed_hash` and `Hash`'s slice equality, which the
/// crate documents as constant-time for 32-byte operands: true exactly
/// when `signature` holds the keyed digest of `content` under `key`.
#[verifier::external_body]
fn keyed_hash_matches(key: &[u8; 32], content: &[u8], signature: &[u8]) -> (r: bool)
    ensures
        r == (signature@ == keyed_hash_of(key@, content@)),
{
    blake3::keyed_hash(key, content) == *signature
}

/// Signs and validates content under a fixed 256-bit secret key.
pub struct HmacSigner {
    secret_key: [u8; 32],
}

impl HmacSigner {
    /// The signer's key bytes.
    pub closed spec fn spec_key(&self) -> Seq<u8> {
        self.secret_key@
    }

    /// Builds a signer from a 256-bit hex-encoded secret key: exactly 64
    /// hex digits.
    pub fn new(secret_key: &str) -> (r: Result<HmacSigner, &'static str>)
        ensures
            r is Ok <==> (secret_key@.len() == 64 && forall|i: int|
                0 <= i < 64 ==> spec_is_hex_digit(#[trigger] secret_key@[i])),
            r matches Ok(h) ==> h.spec_key().len() == 32 && forall|i: int|
                0 <= i < 32 ==> #[trigger] h.spec_key()[i] == spec_hex_val(secret_key@[2 * i]) * 16
                    + spec_hex_val(secret_key@[2 * i + 1]),
    {
        match hex_decode_key(secret_key) {
            Ok(key) => Ok(HmacSigner { secret_key: key }),
            Err(_) => Err("invalid secret key format, expected a 256-bit hex string"),
        }
    }

    /// Whether `signature` is the keyed digest of `content` under this
    /// signer's key. The comparison is the hash type's own, constant-time
    /// one.
    pub fn validate(&self, content: &[u8], signature: &[u8]) -> (r: bool)
        ensures
            r == (signature@ == keyed_hash_of(self.spec_key(), content@)),
    {
        keyed_hash_matches(&self.secret_key, content, signature)
    }

    /// The keyed digest of `content` under this signer's key.
    pub fn sign(&self, content: &[u8]) -> (r: [u8; 32])
        ensures
            r@ == keyed_hash_of(self.spec_key(), content@),
    {
        keyed_hash_bytes(&self.secret_key, content)
    }
}

} // verus!
