//! What the commitment hash binds.
//!
//! Two sets of values with one commitment hash are the same values, kinds of
//! entries apart, unless the hash function gives one digest for two
//! different inputs.

use crate::commitment::{
    entries_hash,
    entry_digests,
    recipient_digests,
    recipients_hash,
    root_hash,
    salted_hash,
};
use crate::hashing::digest_of;
use crate::messages::EntryView;
use vstd::prelude::*;

verus! {

/// Whether `x` and `y` are two different inputs with one digest.
pub open spec fn collide(x: Seq<u8>, y: Seq<u8>) -> bool {
    x != y && digest_of(x) == digest_of(y)
}

/// Whether the hash function gives one digest for two different inputs.
pub open spec fn collision_exists() -> bool {
    exists|x: Seq<u8>, y: Seq<u8>| collide(x, y)
}

/// What the commitment binds of a message: the key and the value of every
/// entry, in order.
pub open spec fn bound_parts(entries: Seq<EntryView>) -> Seq<(Seq<u8>, Seq<u8>)> {
    Seq::new(entries.len(), |i: int| (entries[i].key, entries[i].value))
}

/// Inputs with one digest are one input, or they collide.
proof fn lemma_same_digest(x: Seq<u8>, y: Seq<u8>)
    requires
        digest_of(x) == digest_of(y),
    ensures
        x == y || collision_exists(),
{
    if x != y {
        assert(collide(x, y));
    }
}

/// Values with one salted hash under one salt are one value, or there is a
/// collision.
proof fn lemma_same_salted(a: Seq<u8>, b: Seq<u8>, salt: Seq<u8>)
    requires
        salted_hash(a, salt) == salted_hash(b, salt),
    ensures
        a == b || collision_exists(),
{
    lemma_same_digest(a + salt, b + salt);
    if a + salt == b + salt {
        assert(a =~= (a + salt).subrange(0, a.len() as int));
        assert(b =~= (b + salt).subrange(0, b.len() as int));
    }
}

/// Two strings of equal length, each followed by another, are equal
/// together only if they are equal part by part.
proof fn lemma_split(a: Seq<u8>, x: Seq<u8>, b: Seq<u8>, y: Seq<u8>)
    requires
        a + x == b + y,
        a.len() == b.len(),
    ensures
        a == b,
        x == y,
{
    assert(a =~= (a + x).subrange(0, a.len() as int));
    assert(b =~= (b + y).subrange(0, b.len() as int));
    assert(x =~= (a + x).subrange(a.len() as int, (a + x).len() as int));
    assert(y =~= (b + y).subrange(b.len() as int, (b + y).len() as int));
}

/// Each recipient contributes 32 bytes.
proof fn lemma_recipient_digests_len(recipients: Seq<Seq<u8>>, salt: Seq<u8>)
    ensures
        recipient_digests(recipients, salt).len() == 32 * recipients.len(),
    decreases recipients.len(),
{
    if recipients.len() > 0 {
        lemma_recipient_digests_len(recipients.drop_last(), salt);
    }
}

/// Each entry contributes 64 bytes.
proof fn lemma_entry_digests_len(entries: Seq<EntryView>, salt: Seq<u8>)
    ensures
        entry_digests(entries, salt).len() == 64 * entries.len(),
    decreases entries.len(),
{
    if entries.len() > 0 {
        lemma_entry_digests_len(entries.drop_last(), salt);
    }
}

/// Lists of recipients with one contribution under one salt are one list,
/// or there is a collision.
proof fn lemma_same_recipient_digests(first: Seq<Seq<u8>>, second: Seq<Seq<u8>>, salt: Seq<u8>)
    requires
        recipient_digests(first, salt) == recipient_digests(second, salt),
    ensures
        first == second || collision_exists(),
    decreases first.len(),
{
    lemma_recipient_digests_len(first, salt);
    lemma_recipient_digests_len(second, salt);
    if first.len() == 0 {
        assert(first =~= second);
    } else {
        lemma_recipient_digests_len(first.drop_last(), salt);
        lemma_recipient_digests_len(second.drop_last(), salt);
        lemma_split(
            recipient_digests(first.drop_last(), salt),
            digest_of(salted_hash(first.last(), salt)),
            recipient_digests(second.drop_last(), salt),
            digest_of(salted_hash(second.last(), salt)),
        );
        lemma_same_digest(salted_hash(first.last(), salt), salted_hash(second.last(), salt));
        if !collision_exists() {
            lemma_same_salted(first.last(), second.last(), salt);
            lemma_same_recipient_digests(first.drop_last(), second.drop_last(), salt);
            assert(first =~= first.drop_last().push(first.last()));
            assert(second =~= second.drop_last().push(second.last()));
        }
    }
}

/// Lists of entries with one contribution under one salt have the same keys
/// and values, or there is a collision.
proof fn lemma_same_entry_digests(first: Seq<EntryView>, second: Seq<EntryView>, salt: Seq<u8>)
    requires
        entry_digests(first, salt) == entry_digests(second, salt),
    ensures
        bound_parts(first) == bound_parts(second) || collision_exists(),
    decreases first.len(),
{
    lemma_entry_digests_len(first, salt);
    lemma_entry_digests_len(second, salt);
    if first.len() == 0 {
        assert(bound_parts(first) =~= bound_parts(second));
    } else {
        lemma_entry_digests_len(first.drop_last(), salt);
        lemma_entry_digests_len(second.drop_last(), salt);
        lemma_split(
            entry_digests(first.drop_last(), salt) + salted_hash(first.last().key, salt),
            salted_hash(first.last().value, salt),
            entry_digests(second.drop_last(), salt) + salted_hash(second.last().key, salt),
            salted_hash(second.last().value, salt),
        );
        lemma_split(
            entry_digests(first.drop_last(), salt),
            salted_hash(first.last().key, salt),
            entry_digests(second.drop_last(), salt),
            salted_hash(second.last().key, salt),
        );
        lemma_same_salted(first.last().key, second.last().key, salt);
        lemma_same_salted(first.last().value, second.last().value, salt);
        lemma_same_entry_digests(first.drop_last(), second.drop_last(), salt);
        if !collision_exists() {
            let parts = bound_parts(first.drop_last());
            assert(parts == bound_parts(second.drop_last()));
            assert(bound_parts(first) =~= parts.push((first.last().key, first.last().value)));
            assert(bound_parts(second) =~= parts.push((second.last().key, second.last().value)));
        }
    }
}

/// The commitment hash binds every value that goes into it.
///
/// Where two sets of values, each with a secret nonce of 24 bytes, have one
/// commitment hash, they have the same origin, public nonce, sender key,
/// broker key, secret nonce and recipients, in the same order, and their
/// messages have the same keys and values in the same order; or else the
/// hash function gives one digest for two different inputs. The kinds of
/// the entries are not bound.
pub proof fn lemma_commitment_binds(
    origin: Seq<u8>,
    public_nonce: Seq<u8>,
    sender_pk: Seq<u8>,
    broker_pk: Seq<u8>,
    secret_nonce: Seq<u8>,
    recipients: Seq<Seq<u8>>,
    entries: Seq<EntryView>,
    other_origin: Seq<u8>,
    other_public_nonce: Seq<u8>,
    other_sender_pk: Seq<u8>,
    other_broker_pk: Seq<u8>,
    other_secret_nonce: Seq<u8>,
    other_recipients: Seq<Seq<u8>>,
    other_entries: Seq<EntryView>,
)
    requires
        secret_nonce.len() == 24,
        other_secret_nonce.len() == 24,
        root_hash(
            origin,
            public_nonce,
            sender_pk,
            broker_pk,
            secret_nonce,
            recipients,
            entries,
        ) == root_hash(
            other_origin,
            other_public_nonce,
            other_sender_pk,
            other_broker_pk,
            other_secret_nonce,
            other_recipients,
            other_entries,
        ),
    ensures
        collision_exists() || {
            &&& origin == other_origin
            &&& public_nonce == other_public_nonce
            &&& sender_pk == other_sender_pk
            &&& broker_pk == other_broker_pk
            &&& secret_nonce == other_secret_nonce
            &&& recipients == other_recipients
            &&& bound_parts(entries) == bound_parts(other_entries)
        },
{
    let s = secret_nonce;
    let t = other_secret_nonce;
    let five = salted_hash(origin, s) + salted_hash(public_nonce, s) + salted_hash(s, s)
        + salted_hash(broker_pk, s) + salted_hash(sender_pk, s);
    let other_five = salted_hash(other_origin, t) + salted_hash(other_public_nonce, t)
        + salted_hash(t, t) + salted_hash(other_broker_pk, t) + salted_hash(other_sender_pk, t);
    lemma_same_digest(
        five + recipients_hash(recipients, s) + entries_hash(entries, s),
        other_five + recipients_hash(other_recipients, t) + entries_hash(other_entries, t),
    );
    if !collision_exists() {
        lemma_split(
            five + recipients_hash(recipients, s),
            entries_hash(entries, s),
            other_five + recipients_hash(other_recipients, t),
            entries_hash(other_entries, t),
        );
        lemma_split(
            five,
            recipients_hash(recipients, s),
            other_five,
            recipients_hash(other_recipients, t),
        );
        lemma_split(
            salted_hash(origin, s) + salted_hash(public_nonce, s) + salted_hash(s, s)
                + salted_hash(broker_pk, s),
            salted_hash(sender_pk, s),
            salted_hash(other_origin, t) + salted_hash(other_public_nonce, t) + salted_hash(t, t)
                + salted_hash(other_broker_pk, t),
            salted_hash(other_sender_pk, t),
        );
        lemma_split(
            salted_hash(origin, s) + salted_hash(public_nonce, s) + salted_hash(s, s),
            salted_hash(broker_pk, s),
            salted_hash(other_origin, t) + salted_hash(other_public_nonce, t) + salted_hash(t, t),
            salted_hash(other_broker_pk, t),
        );
        lemma_split(
            salted_hash(origin, s) + salted_hash(public_nonce, s),
            salted_hash(s, s),
            salted_hash(other_origin, t) + salted_hash(other_public_nonce, t),
            salted_hash(t, t),
        );
        lemma_split(
            salted_hash(origin, s),
            salted_hash(public_nonce, s),
            salted_hash(other_origin, t),
            salted_hash(other_public_nonce, t),
        );
        lemma_same_digest(s + s, t + t);
        lemma_split(s, s, t, t);
        lemma_same_salted(origin, other_origin, s);
        lemma_same_salted(public_nonce, other_public_nonce, s);
        lemma_same_salted(broker_pk, other_broker_pk, s);
        lemma_same_salted(sender_pk, other_sender_pk, s);
        lemma_same_salted(
            recipient_digests(recipients, s),
            recipient_digests(other_recipients, s),
            s,
        );
        lemma_same_recipient_digests(recipients, other_recipients, s);
        lemma_same_salted(entry_digests(entries, s), entry_digests(other_entries, s), s);
        lemma_same_entry_digests(entries, other_entries, s);
    }
}

} // verus!
