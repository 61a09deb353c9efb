//! The commitment hash of an envelope.
//!
//! One digest binds the origin, both nonces, the broker's and the sender's
//! keys, the recipients and every key and value of the message. Each of these
//! is hashed with the secret nonce behind it as a salt, so that the digest
//! gives none of them away and only a holder of the secret nonce can compute
//! it again.

use crate::hashing::{digest, digest_of};
use crate::keys::{Nonce, PublicKey};
use crate::messages::{EntryView, Message};
use vstd::prelude::*;
use vstd::slice::slice_to_vec;

verus! {

/// The digest of `data` followed by `salt`.
pub open spec fn salted_hash(data: Seq<u8>, salt: Seq<u8>) -> Seq<u8> {
    digest_of(data + salt)
}

/// What the recipients contribute, one after the other: for each, the digest
/// of its salted hash.
pub open spec fn recipient_digests(recipients: Seq<Seq<u8>>, salt: Seq<u8>) -> Seq<u8>
    decreases recipients.len(),
{
    if recipients.len() == 0 {
        Seq::empty()
    } else {
        recipient_digests(recipients.drop_last(), salt) + digest_of(
            salted_hash(recipients.last(), salt),
        )
    }
}

/// The hash of the recipients: the digest of their contributions followed by
/// the salt.
pub open spec fn recipients_hash(recipients: Seq<Seq<u8>>, salt: Seq<u8>) -> Seq<u8> {
    digest_of(recipient_digests(recipients, salt) + salt)
}

/// What the entries contribute, one after the other: for each, the salted
/// hash of its key, then that of its value. The kind is left out.
pub open spec fn entry_digests(entries: Seq<EntryView>, salt: Seq<u8>) -> Seq<u8>
    decreases entries.len(),
{
    if entries.len() == 0 {
        Seq::empty()
    } else {
        entry_digests(entries.drop_last(), salt) + salted_hash(entries.last().key, salt)
            + salted_hash(entries.last().value, salt)
    }
}

/// The hash of the entries: the digest of their contributions followed by the
/// salt.
pub open spec fn entries_hash(entries: Seq<EntryView>, salt: Seq<u8>) -> Seq<u8> {
    digest_of(entry_digests(entries, salt) + salt)
}

/// The commitment hash: the digest of the salted hashes of the origin, the
/// public nonce, the secret nonce, the broker's key and the sender's key,
/// followed by the hash of the recipients and the hash of the entries. The
/// secret nonce is the salt throughout.
pub open spec fn root_hash(
    origin: Seq<u8>,
    public_nonce: Seq<u8>,
    sender_pk: Seq<u8>,
    broker_pk: Seq<u8>,
    secret_nonce: Seq<u8>,
    recipients: Seq<Seq<u8>>,
    entries: Seq<EntryView>,
) -> Seq<u8> {
    digest_of(
        salted_hash(origin, secret_nonce) + salted_hash(public_nonce, secret_nonce) + salted_hash(
            secret_nonce,
            secret_nonce,
        ) + salted_hash(broker_pk, secret_nonce) + salted_hash(sender_pk, secret_nonce)
            + recipients_hash(recipients, secret_nonce) + entries_hash(entries, secret_nonce),
    )
}

/// The keys of a list of public keys, as plain data.
pub open spec fn key_bytes(keys: Seq<&PublicKey>) -> Seq<Seq<u8>> {
    Seq::new(keys.len(), |i: int| keys[i]@)
}

/// Hashes `data` with the nonce behind it as a salt.
pub(crate) fn salted_digest(data: &[u8], salt: &Nonce) -> (out: [u8; 32])
    ensures
        out@ == salted_hash(data@, salt@),
{
    let mut salted = slice_to_vec(data);
    salted.extend_from_slice(salt.as_bytes());
    assert(salted@ =~= data@ + salt@);
    digest(salted.as_slice())
}

/// Hashes the recipients.
pub(crate) fn hash_recipients(recipients: &[&PublicKey], salt: &Nonce) -> (out: [u8; 32])
    ensures
        out@ == recipients_hash(key_bytes(recipients@), salt@),
{
    let ghost keys = key_bytes(recipients@);
    let mut acc: Vec<u8> = Vec::new();
    let mut i: usize = 0;
    while i < recipients.len()
        invariant
            i <= recipients@.len(),
            keys == key_bytes(recipients@),
            acc@ == recipient_digests(keys.take(i as int), salt@),
        decreases recipients@.len() - i,
    {
        let salted = salted_digest(recipients[i].as_bytes(), salt);
        let hashed = digest(salted.as_slice());
        acc.extend_from_slice(hashed.as_slice());
        proof {
            let next = keys.take(i + 1);
            assert(next.drop_last() =~= keys.take(i as int));
        }
        i += 1;
    }
    assert(keys.take(i as int) =~= keys);
    acc.extend_from_slice(salt.as_bytes());
    assert(acc@ =~= recipient_digests(keys, salt@) + salt@);
    digest(acc.as_slice())
}

/// Hashes the entries of a message.
pub(crate) fn hash_entries(message: &Message, salt: &Nonce) -> (out: [u8; 32])
    ensures
        out@ == entries_hash(message@, salt@),
{
    let mut acc: Vec<u8> = Vec::new();
    let mut i: usize = 0;
    while i < message.entries.len()
        invariant
            i <= message.entries@.len(),
            acc@ == entry_digests(message@.take(i as int), salt@),
        decreases message.entries@.len() - i,
    {
        let entry = &message.entries[i];
        let key_hash = salted_digest(entry.key.as_slice(), salt);
        let value_hash = salted_digest(entry.value.as_slice(), salt);
        acc.extend_from_slice(key_hash.as_slice());
        acc.extend_from_slice(value_hash.as_slice());
        proof {
            let next = message@.take(i + 1);
            assert(next.drop_last() =~= message@.take(i as int));
        }
        i += 1;
    }
    assert(message@.take(i as int) =~= message@);
    acc.extend_from_slice(salt.as_bytes());
    assert(acc@ =~= entry_digests(message@, salt@) + salt@);
    digest(acc.as_slice())
}

} // verus!
