//! The box primitive: X25519 key agreement with XSalsa20-Poly1305, as the
//! `crypto_box` crate implements it.
//!
//! Nothing in this file is proved. Each function hands its arguments to
//! `crypto_box`, and its contract states what that crate's source shows of
//! the result. What a box holds is not written out: the results have names,
//! and this file says of the names only how sealing and opening go together.

use crate::keys::{Nonce, PublicKey, SecretKey, MAC_LEN};
use crypto_box::aead::{Aead, AeadCore, OsRng};
use vstd::prelude::*;

verus! {

/// The box that `Aead::encrypt` of a `SalsaBox` returns for `data` under
/// `nonce`, where the box was made of the receiver's public key and the
/// sender's secret key.
pub uninterp spec fn box_seal(
    data: Seq<u8>,
    nonce: Seq<u8>,
    receiver_pk: Seq<u8>,
    sender_sk: Seq<u8>,
) -> Seq<u8>;

/// What `Aead::decrypt` of a `SalsaBox` returns for `sealed` under `nonce`,
/// where the box was made of the sender's public key and the receiver's
/// secret key: the content, or `None` where `sealed` does not authenticate.
pub uninterp spec fn box_open(
    sealed: Seq<u8>,
    nonce: Seq<u8>,
    sender_pk: Seq<u8>,
    receiver_sk: Seq<u8>,
) -> Option<Seq<u8>>;

/// The public key that `SecretKey::public_key` returns for a secret key.
pub uninterp spec fn public_key_of(sk: Seq<u8>) -> Seq<u8>;

/// Whether `data` is short enough to be sealed: the box, 16 bytes longer,
/// must still be a length that a vector can have.
pub open spec fn sealable(data: Seq<u8>) -> bool {
    data.len() + MAC_LEN <= isize::MAX
}

/// An optional byte vector as plain data.
pub open spec fn opt_bytes(o: Option<Vec<u8>>) -> Option<Seq<u8>> {
    match o {
        Some(v) => Some(v@),
        None => None,
    }
}

/// Calls `crypto_box::SecretKey::public_key` on the key with these bytes.
///
/// Claims that the result is a function of the secret key's bytes.
#[verifier::external_body]
pub(crate) fn derive_public_key(sk: &SecretKey) -> (pk: PublicKey)
    ensures
        pk@ == public_key_of(sk@),
{
    let key = crypto_box::SecretKey::from_bytes(sk.bytes);
    PublicKey { bytes: key.public_key().to_bytes() }
}

/// Calls `SalsaBox::new` on the two keys and `Aead::encrypt` on the box it
/// gives.
///
/// Claims that the result is a function of the four arguments, and that it
/// is 16 bytes longer than `data`: `encrypt` puts the Poly1305 tag in front
/// of the enciphered bytes. `encrypt` returns an error only where
/// associated data is given, and none is given here. It panics where
/// `data.len() + 16` is no capacity that a vector can have; `requires`
/// leaves that out.
#[verifier::external_body]
pub(crate) fn seal(
    data: &[u8],
    nonce: &Nonce,
    receiver_pk: &PublicKey,
    sender_sk: &SecretKey,
) -> (sealed: Vec<u8>)
    requires
        sealable(data@),
    ensures
        sealed@ == box_seal(data@, nonce@, receiver_pk@, sender_sk@),
        sealed@.len() == data@.len() + 16,
{
    let pk = crypto_box::PublicKey::from_bytes(receiver_pk.bytes);
    let sk = crypto_box::SecretKey::from_bytes(sender_sk.bytes);
    let n = crypto_box::Nonce::from(nonce.bytes);
    crypto_box::SalsaBox::new(&pk, &sk).encrypt(&n, data).expect("no associated data")
}

/// Calls `SalsaBox::new` on the two keys and `Aead::decrypt` on the box it
/// gives.
///
/// Claims that the result is a function of the four arguments; that content
/// which comes out is 16 bytes shorter than what went in; and that what was
/// sealed under the same nonce and the same shared key opens to what it
/// holds. `SalsaBox::new` derives the shared key from the product of the
/// secret scalar and the public point. So the key is the same where the
/// bytes were sealed with the very two keys they are opened with, and where
/// they were sealed to the public key of `receiver_sk` with the secret key
/// that `sender_pk` belongs to. Under one key and nonce `decrypt` computes
/// the tag that `encrypt` computed, over the same enciphered bytes, and
/// takes off the key stream that `encrypt` put on.
#[verifier::external_body]
pub(crate) fn open(
    sealed: &[u8],
    nonce: &Nonce,
    sender_pk: &PublicKey,
    receiver_sk: &SecretKey,
) -> (content: Option<Vec<u8>>)
    ensures
        opt_bytes(content) == box_open(sealed@, nonce@, sender_pk@, receiver_sk@),
        content matches Some(c) ==> c@.len() + 16 == sealed@.len(),
        forall|data: Seq<u8>| #[trigger]
            box_seal(data, nonce@, sender_pk@, receiver_sk@) == sealed@ ==> opt_bytes(content)
                == Some(data),
        forall|data: Seq<u8>, sender_sk: Seq<u8>|
            sender_sk.len() == 32 && public_key_of(sender_sk) == sender_pk@ && #[trigger] box_seal(
                data,
                nonce@,
                public_key_of(receiver_sk@),
                sender_sk,
            ) == sealed@ ==> opt_bytes(content) == Some(data),
{
    let pk = crypto_box::PublicKey::from_bytes(sender_pk.bytes);
    let sk = crypto_box::SecretKey::from_bytes(receiver_sk.bytes);
    let n = crypto_box::Nonce::from(nonce.bytes);
    crypto_box::SalsaBox::new(&pk, &sk).decrypt(&n, sealed).ok()
}

/// Calls `AeadCore::generate_nonce` for `SalsaBox` with the random number
/// generator of the operating system. Nothing is claimed of the bytes: two
/// calls may give any two nonces.
#[verifier::external_body]
pub(crate) fn random_nonce() -> Nonce {
    Nonce { bytes: crypto_box::SalsaBox::generate_nonce(&mut OsRng).into() }
}

/// Calls `crypto_box::SecretKey::generate` with the random number generator
/// of the operating system. Nothing is claimed of the bytes: two calls may
/// give any two keys.
#[verifier::external_body]
pub(crate) fn random_secret_key() -> SecretKey {
    SecretKey { bytes: crypto_box::SecretKey::generate(&mut OsRng).to_bytes() }
}

} // verus!
