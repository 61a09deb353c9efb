//! What holds of every envelope and of every scan, whatever was drawn for
//! them.

use crate::binding::{bound_parts, collision_exists, lemma_commitment_binds};
use crate::cypher::ErrorView;
use crate::channel::{scan_channel, ChannelView};
use crate::messages::EntryView;
use crate::metadata::{
    channels_for,
    commitment_holds,
    envelope,
    finds_own_channel,
    none_opens,
    participants,
    scan,
};
use crate::salsa_box::{box_open, public_key_of};
use vstd::prelude::*;

verus! {

/// An envelope has one channel for each participant, and each channel holds
/// one sealed key for each participant.
pub proof fn lemma_envelope_shape(
    origin: Seq<u8>,
    public_nonce: Seq<u8>,
    sender_pk: Seq<u8>,
    recipients: Seq<Seq<u8>>,
    entries: Seq<EntryView>,
    secret_nonce: Seq<u8>,
    broker_sk: Seq<u8>,
)
    ensures
        participants(sender_pk, recipients).len() == recipients.len() + 1,
        envelope(
            origin,
            public_nonce,
            sender_pk,
            recipients,
            entries,
            secret_nonce,
            broker_sk,
        ).channels.len() == recipients.len() + 1,
        forall|j: int|
            0 <= j <= recipients.len() ==> (#[trigger] envelope(
                origin,
                public_nonce,
                sender_pk,
                recipients,
                entries,
                secret_nonce,
                broker_sk,
            ).channels[j]).parties.len() == recipients.len() + 1,
{
}

/// The hash of an envelope commits to the values that the envelope was built
/// from, and, collisions of the hash function apart, to no others: values
/// that it commits to are the same origin, sender, recipients in the same
/// order and secret nonce, and a message with the same keys and values in
/// the same order.
pub proof fn lemma_commitment_stable(
    origin: Seq<u8>,
    public_nonce: Seq<u8>,
    sender_pk: Seq<u8>,
    recipients: Seq<Seq<u8>>,
    entries: Seq<EntryView>,
    secret_nonce: Seq<u8>,
    broker_sk: Seq<u8>,
    other_secret_nonce: Seq<u8>,
    other_origin: Seq<u8>,
    other_sender_pk: Seq<u8>,
    other_recipients: Seq<Seq<u8>>,
    other_entries: Seq<EntryView>,
)
    requires
        secret_nonce.len() == 24,
        other_secret_nonce.len() == 24,
    ensures
        commitment_holds(
            envelope(origin, public_nonce, sender_pk, recipients, entries, secret_nonce, broker_sk),
            secret_nonce,
            origin,
            sender_pk,
            recipients,
            entries,
        ),
        commitment_holds(
            envelope(origin, public_nonce, sender_pk, recipients, entries, secret_nonce, broker_sk),
            other_secret_nonce,
            other_origin,
            other_sender_pk,
            other_recipients,
            other_entries,
        ) ==> collision_exists() || {
            &&& other_secret_nonce == secret_nonce
            &&& other_origin == origin
            &&& other_sender_pk == sender_pk
            &&& other_recipients == recipients
            &&& bound_parts(other_entries) == bound_parts(entries)
        },
{
    let meta = envelope(
        origin,
        public_nonce,
        sender_pk,
        recipients,
        entries,
        secret_nonce,
        broker_sk,
    );
    if commitment_holds(
        meta,
        other_secret_nonce,
        other_origin,
        other_sender_pk,
        other_recipients,
        other_entries,
    ) {
        lemma_commitment_binds(
            origin,
            public_nonce,
            sender_pk,
            meta.broker,
            secret_nonce,
            recipients,
            entries,
            other_origin,
            public_nonce,
            other_sender_pk,
            meta.broker,
            other_secret_nonce,
            other_recipients,
            other_entries,
        );
    }
}

/// A scan finds nothing exactly where no channel's sealed nonce opens.
pub proof fn lemma_scan_finds_nothing(
    channels: Seq<ChannelView>,
    public_nonce: Seq<u8>,
    broker_pk: Seq<u8>,
    sk: Seq<u8>,
)
    ensures
        none_opens(channels, public_nonce, broker_pk, sk) <==> scan(
            channels,
            public_nonce,
            broker_pk,
            sk,
        ) == Ok::<Seq<ChannelView>, ErrorView>(Seq::empty()),
    decreases channels.len(),
{
    if channels.len() > 0 {
        let rest = channels.drop_first();
        lemma_scan_finds_nothing(rest, public_nonce, broker_pk, sk);
        if box_open(channels[0].nonce, public_nonce, broker_pk, sk) is None {
            if none_opens(channels, public_nonce, broker_pk, sk) {
                assert forall|i: int| 0 <= i < rest.len() implies (#[trigger] box_open(
                    rest[i].nonce,
                    public_nonce,
                    broker_pk,
                    sk,
                )) is None by {
                    assert(rest[i] == channels[i + 1]);
                }
            }
            if none_opens(rest, public_nonce, broker_pk, sk) {
                assert forall|i: int| 0 <= i < channels.len() implies (#[trigger] box_open(
                    channels[i].nonce,
                    public_nonce,
                    broker_pk,
                    sk,
                )) is None by {
                    if i > 0 {
                        assert(channels[i] == rest[i - 1]);
                    }
                }
            }
        } else {
            match scan_channel(channels.first(), public_nonce, broker_pk, sk) {
                Ok(Some(own)) => {
                    assert(seq![own].len() == 1);
                },
                _ => {},
            }
        }
    }
}

/// A scan finds one channel or none, never more.
pub proof fn lemma_scan_finds_at_most_one(
    channels: Seq<ChannelView>,
    public_nonce: Seq<u8>,
    broker_pk: Seq<u8>,
    sk: Seq<u8>,
)
    ensures
        scan(channels, public_nonce, broker_pk, sk) matches Ok(found) ==> found.len() <= 1,
    decreases channels.len(),
{
    if channels.len() > 0 {
        lemma_scan_finds_at_most_one(channels.drop_first(), public_nonce, broker_pk, sk);
    }
}

/// A scan stops at the first channel whose sealed nonce opens: what it
/// gives is what that channel gives.
pub proof fn lemma_scan_stops_at_first(
    channels: Seq<ChannelView>,
    public_nonce: Seq<u8>,
    broker_pk: Seq<u8>,
    sk: Seq<u8>,
    j: int,
)
    requires
        0 <= j < channels.len(),
        box_open(channels[j].nonce, public_nonce, broker_pk, sk) is Some,
        forall|i: int|
            0 <= i < j ==> (#[trigger] box_open(channels[i].nonce, public_nonce, broker_pk, sk))
                is None,
    ensures
        scan(channels, public_nonce, broker_pk, sk) == match scan_channel(
            channels[j],
            public_nonce,
            broker_pk,
            sk,
        ) {
            Ok(Some(own)) => Ok::<Seq<ChannelView>, ErrorView>(seq![own]),
            Ok(None) => Ok(Seq::empty()),
            Err(e) => Err(e),
        },
    decreases j,
{
    if j > 0 {
        let rest = channels.drop_first();
        assert(box_open(channels[0].nonce, public_nonce, broker_pk, sk) is None);
        assert(rest[j - 1] == channels[j]);
        assert forall|i: int| 0 <= i < j - 1 implies (#[trigger] box_open(
            rest[i].nonce,
            public_nonce,
            broker_pk,
            sk,
        )) is None by {
            assert(rest[i] == channels[i + 1]);
        }
        lemma_scan_stops_at_first(rest, public_nonce, broker_pk, sk, j - 1);
    }
}

/// In an envelope that a sender built, the holder of the secret key of
/// participant `j` finds its own channel, unless a channel before the `j`th
/// opens to it and holds something else. Opening the envelope then gives
/// that holder the secret nonce and the participants that went into the
/// envelope.
pub proof fn lemma_participant_has_own_channel(
    origin: Seq<u8>,
    public_nonce: Seq<u8>,
    sender_pk: Seq<u8>,
    recipients: Seq<Seq<u8>>,
    entries: Seq<EntryView>,
    secret_nonce: Seq<u8>,
    broker_sk: Seq<u8>,
    sk: Seq<u8>,
    j: int,
)
    requires
        secret_nonce.len() == 24,
        broker_sk.len() == 32,
        0 <= j <= recipients.len(),
        participants(sender_pk, recipients)[j] == public_key_of(sk),
        forall|i: int|
            0 <= i < j ==> {
                let found = #[trigger] scan_channel(
                    channels_for(
                        participants(sender_pk, recipients),
                        public_nonce,
                        secret_nonce,
                        broker_sk,
                    )[i],
                    public_nonce,
                    public_key_of(broker_sk),
                    sk,
                );
                ||| found == Ok::<Option<ChannelView>, ErrorView>(None)
                ||| found == Ok::<Option<ChannelView>, ErrorView>(
                    Some(
                        ChannelView {
                            nonce: secret_nonce,
                            parties: participants(sender_pk, recipients),
                        },
                    ),
                )
            },
    ensures
        finds_own_channel(
            envelope(origin, public_nonce, sender_pk, recipients, entries, secret_nonce, broker_sk),
            sk,
            participants(sender_pk, recipients),
            secret_nonce,
            broker_sk,
            j,
        ),
{
}

} // verus!
