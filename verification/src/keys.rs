//! Fixed-width keys and nonces of the box primitive.

use crate::cypher::CypherError;
use vstd::prelude::*;
use vstd::slice::slice_to_vec;

verus! {

/// Number of bytes in a nonce.
pub const NONCE_LEN: usize = 24;

/// Number of bytes in a public or a secret key.
pub const KEY_LEN: usize = 32;

/// Number of bytes by which a sealed box is longer than what it holds.
pub const MAC_LEN: usize = 16;

/// A nonce of the box primitive.
#[derive(Clone, Copy, Debug, PartialEq, Eq)]
pub struct Nonce {
    pub bytes: [u8; 24],
}

/// A public key of the box primitive.
#[derive(Clone, Copy, Debug, PartialEq, Eq)]
pub struct PublicKey {
    pub bytes: [u8; 32],
}

/// A secret key of the box primitive.
#[derive(Clone)]
pub struct SecretKey {
    pub bytes: [u8; 32],
}

impl View for Nonce {
    type V = Seq<u8>;

    open spec fn view(&self) -> Seq<u8> {
        self.bytes@
    }
}

impl View for PublicKey {
    type V = Seq<u8>;

    open spec fn view(&self) -> Seq<u8> {
        self.bytes@
    }
}

impl View for SecretKey {
    type V = Seq<u8>;

    open spec fn view(&self) -> Seq<u8> {
        self.bytes@
    }
}

/// Copies 24 bytes into an array.
fn array_24(bytes: &[u8]) -> (out: [u8; 24])
    requires
        bytes@.len() == 24,
    ensures
        out@ == bytes@,
{
    let mut out = [0u8; 24];
    let mut i: usize = 0;
    while i < 24
        invariant
            i <= 24,
            bytes@.len() == 24,
            forall|j: int| 0 <= j < i ==> out@[j] == bytes@[j],
        decreases 24 - i,
    {
        out[i] = bytes[i];
        i += 1;
    }
    out
}

/// Copies 32 bytes into an array.
fn array_32(bytes: &[u8]) -> (out: [u8; 32])
    requires
        bytes@.len() == 32,
    ensures
        out@ == bytes@,
{
    let mut out = [0u8; 32];
    let mut i: usize = 0;
    while i < 32
        invariant
            i <= 32,
            bytes@.len() == 32,
            forall|j: int| 0 <= j < i ==> out@[j] == bytes@[j],
        decreases 32 - i,
    {
        out[i] = bytes[i];
        i += 1;
    }
    out
}

/// Whether two byte strings are the same.
pub fn same_bytes(a: &[u8], b: &[u8]) -> (same: bool)
    ensures
        same == (a@ == b@),
{
    if a.len() != b.len() {
        return false;
    }
    let mut i: usize = 0;
    while i < a.len()
        invariant
            i <= a@.len(),
            a@.len() == b@.len(),
            forall|j: int| 0 <= j < i ==> a@[j] == b@[j],
        decreases a@.len() - i,
    {
        if a[i] != b[i] {
            return false;
        }
        i += 1;
    }
    assert(a@ =~= b@);
    true
}

impl Nonce {
    /// Reads a nonce from bytes: exactly `NONCE_LEN` of them, or the bytes
    /// come back in `InvalidNonce`.
    pub fn from_slice(bytes: &[u8]) -> (r: Result<Nonce, CypherError>)
        ensures
            match r {
                Ok(n) => bytes@.len() == NONCE_LEN && n@ == bytes@,
                Err(CypherError::InvalidNonce(b)) => bytes@.len() != NONCE_LEN && b@ == bytes@,
                Err(_) => false,
            },
    {
        if bytes.len() != NONCE_LEN {
            return Err(CypherError::InvalidNonce(slice_to_vec(bytes)));
        }
        Ok(Nonce { bytes: array_24(bytes) })
    }

    /// The bytes of the nonce.
    pub fn as_bytes(&self) -> (out: &[u8])
        ensures
            out@ == self@,
            out@.len() == NONCE_LEN,
    {
        self.bytes.as_slice()
    }
}

impl PublicKey {
    /// Reads a public key from bytes: exactly `KEY_LEN` of them, or the bytes
    /// come back in `InvalidPubkey`.
    pub fn from_slice(bytes: &[u8]) -> (r: Result<PublicKey, CypherError>)
        ensures
            match r {
                Ok(k) => bytes@.len() == KEY_LEN && k@ == bytes@,
                Err(CypherError::InvalidPubkey(b)) => bytes@.len() != KEY_LEN && b@ == bytes@,
                Err(_) => false,
            },
    {
        if bytes.len() != KEY_LEN {
            return Err(CypherError::InvalidPubkey(slice_to_vec(bytes)));
        }
        Ok(PublicKey { bytes: array_32(bytes) })
    }

    /// The bytes of the key.
    pub fn as_bytes(&self) -> (out: &[u8])
        ensures
            out@ == self@,
            out@.len() == KEY_LEN,
    {
        self.bytes.as_slice()
    }
}

impl SecretKey {
    /// Reads a secret key from bytes: `None` unless there are exactly
    /// `KEY_LEN` of them.
    pub fn from_slice(bytes: &[u8]) -> (r: Option<SecretKey>)
        ensures
            match r {
                Some(k) => bytes@.len() == KEY_LEN && k@ == bytes@,
                None => bytes@.len() != KEY_LEN,
            },
    {
        if bytes.len() != KEY_LEN {
            return None;
        }
        Some(SecretKey { bytes: array_32(bytes) })
    }

    /// The bytes of the key.
    pub fn as_bytes(&self) -> (out: &[u8])
        ensures
            out@ == self@,
            out@.len() == KEY_LEN,
    {
        self.bytes.as_slice()
    }

    /// The public key that belongs to this secret key.
    pub fn public_key(&self) -> (pk: PublicKey)
        ensures
            pk@ == crate::salsa_box::public_key_of(self@),
    {
        crate::salsa_box::derive_public_key(self)
    }
}

} // verus!
