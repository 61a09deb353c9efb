//! The metadata envelope: its construction by the sender, and its opening by
//! a participant.

pub use crate::channel::{Channel, ChannelScan, ChannelView};

use crate::channel::{
    byte_strings,
    channel_for,
    channel_well_formed,
    result_view,
    scan_channel,
    sealed_to,
};
use crate::commitment::{
    hash_entries,
    hash_recipients,
    key_bytes,
    root_hash,
    salted_digest,
    salted_hash,
};
use crate::cypher::{CypherError, ErrorView};
use crate::hashing::digest;
use crate::keys::{same_bytes, Nonce, PublicKey, SecretKey};
use crate::lemmas::{lemma_scan_finds_at_most_one, lemma_scan_finds_nothing};
use crate::messages::{EntryView, Message};
use crate::salsa_box::{box_open, public_key_of, random_nonce, random_secret_key};
use vstd::prelude::*;
use vstd::slice::slice_to_vec;

verus! {

/// The metadata envelope of a message.
///
/// A sender builds it once. A participant who opens it gets it back with its
/// own channel alone, opened; nothing else of it ever changes.
#[derive(Clone, Debug, PartialEq, Eq)]
pub struct MessageMetadata {
    /// The public nonce.
    pub nonce: [u8; 24],
    /// The public key of the one-time broker that sealed the channels.
    pub broker: [u8; 32],
    /// The commitment hash.
    pub hash: [u8; 32],
    /// One channel for each participant, the sender's first.
    pub channels: Vec<Channel>,
}

/// An envelope as plain data.
pub struct MetadataView {
    pub nonce: Seq<u8>,
    pub broker: Seq<u8>,
    pub hash: Seq<u8>,
    pub channels: Seq<ChannelView>,
}

/// A list of channels as plain data.
pub open spec fn channel_views(list: Seq<Channel>) -> Seq<ChannelView> {
    Seq::new(list.len(), |i: int| list[i]@)
}

impl View for MessageMetadata {
    type V = MetadataView;

    open spec fn view(&self) -> MetadataView {
        MetadataView {
            nonce: self.nonce@,
            broker: self.broker@,
            hash: self.hash@,
            channels: channel_views(self.channels@),
        }
    }
}

/// Whether an envelope is fit to be stored: it has a channel, and each of
/// its channels is well formed for their number.
pub open spec fn well_formed(meta: MetadataView) -> bool {
    &&& meta.channels.len() > 0
    &&& forall|j: int|
        0 <= j < meta.channels.len() ==> channel_well_formed(
            #[trigger] meta.channels[j],
            meta.channels.len(),
        )
}

/// The participants of a message: the sender, then the recipients in order.
pub open spec fn participants(sender_pk: Seq<u8>, recipients: Seq<Seq<u8>>) -> Seq<Seq<u8>> {
    seq![sender_pk] + recipients
}

/// One channel for each of `parties`, in their order.
pub open spec fn channels_for(
    parties: Seq<Seq<u8>>,
    public_nonce: Seq<u8>,
    secret_nonce: Seq<u8>,
    broker_sk: Seq<u8>,
) -> Seq<ChannelView> {
    Seq::new(
        parties.len(),
        |j: int| channel_for(parties[j], parties, public_nonce, secret_nonce, broker_sk),
    )
}

/// The envelope that a sender builds for a message, given the two values
/// that are drawn at random for it: the secret nonce and the broker's secret
/// key.
pub open spec fn envelope(
    origin: Seq<u8>,
    public_nonce: Seq<u8>,
    sender_pk: Seq<u8>,
    recipients: Seq<Seq<u8>>,
    entries: Seq<EntryView>,
    secret_nonce: Seq<u8>,
    broker_sk: Seq<u8>,
) -> MetadataView {
    MetadataView {
        nonce: public_nonce,
        broker: public_key_of(broker_sk),
        hash: root_hash(
            origin,
            public_nonce,
            sender_pk,
            public_key_of(broker_sk),
            secret_nonce,
            recipients,
            entries,
        ),
        channels: channels_for(
            participants(sender_pk, recipients),
            public_nonce,
            secret_nonce,
            broker_sk,
        ),
    }
}

/// Whether `meta` is an envelope of the message for the secret nonce: the
/// one that some broker key of 32 bytes gives.
pub open spec fn is_envelope(
    meta: MetadataView,
    origin: Seq<u8>,
    public_nonce: Seq<u8>,
    sender_pk: Seq<u8>,
    recipients: Seq<Seq<u8>>,
    entries: Seq<EntryView>,
    secret_nonce: Seq<u8>,
) -> bool {
    exists|broker_sk: Seq<u8>|
        broker_sk.len() == 32 && meta == #[trigger] envelope(
            origin,
            public_nonce,
            sender_pk,
            recipients,
            entries,
            secret_nonce,
            broker_sk,
        )
}

/// What the holder of `sk` finds in a list of channels, scanned in order:
/// the content of the first channel whose sealed nonce opens, alone in a
/// list, or the error of that channel; the empty list where none opens.
pub open spec fn scan(
    channels: Seq<ChannelView>,
    public_nonce: Seq<u8>,
    broker_pk: Seq<u8>,
    sk: Seq<u8>,
) -> Result<Seq<ChannelView>, ErrorView>
    decreases channels.len(),
{
    if channels.len() == 0 {
        Ok(Seq::empty())
    } else {
        match scan_channel(channels.first(), public_nonce, broker_pk, sk) {
            Ok(None) => scan(channels.drop_first(), public_nonce, broker_pk, sk),
            Ok(Some(own)) => Ok(seq![own]),
            Err(e) => Err(e),
        }
    }
}

/// What the holder of `sk` gets when it opens the envelope `meta`: the
/// envelope with what the scan of its channels found in their place, or the
/// error of the scan.
pub open spec fn opened_envelope(meta: MetadataView, sk: Seq<u8>) -> Result<
    MetadataView,
    ErrorView,
> {
    match scan(meta.channels, meta.nonce, meta.broker, sk) {
        Ok(found) => Ok(
            MetadataView {
                nonce: meta.nonce,
                broker: meta.broker,
                hash: meta.hash,
                channels: found,
            },
        ),
        Err(e) => Err(e),
    }
}

/// Whether none of the sealed nonces of `channels` opens to the holder of
/// `sk`.
pub open spec fn none_opens(
    channels: Seq<ChannelView>,
    public_nonce: Seq<u8>,
    broker_pk: Seq<u8>,
    sk: Seq<u8>,
) -> bool {
    forall|i: int|
        0 <= i < channels.len() ==> (#[trigger] box_open(
            channels[i].nonce,
            public_nonce,
            broker_pk,
            sk,
        )) is None
}

/// The envelope `meta` as it comes back to a holder to whom none of its
/// channels opens: without channels.
pub open spec fn without_channels(meta: MetadataView) -> MetadataView {
    MetadataView {
        nonce: meta.nonce,
        broker: meta.broker,
        hash: meta.hash,
        channels: Seq::empty(),
    }
}

/// Whether the holder of `sk` finds its own channel in the envelope `meta`:
/// a broker built the envelope for `parties` with the secret nonce, the
/// holder's public key is the `j`th of them, and each channel before the
/// `j`th either is not the holder's or holds for it what its own holds.
pub open spec fn finds_own_channel(
    meta: MetadataView,
    sk: Seq<u8>,
    parties: Seq<Seq<u8>>,
    secret_nonce: Seq<u8>,
    broker_sk: Seq<u8>,
    j: int,
) -> bool {
    &&& secret_nonce.len() == 24
    &&& broker_sk.len() == 32
    &&& meta.broker == public_key_of(broker_sk)
    &&& meta.channels == channels_for(parties, meta.nonce, secret_nonce, broker_sk)
    &&& 0 <= j < parties.len()
    &&& parties[j] == public_key_of(sk)
    &&& forall|i: int|
        0 <= i < j ==> {
            let found = #[trigger] scan_channel(meta.channels[i], meta.nonce, meta.broker, sk);
            ||| found == Ok::<Option<ChannelView>, ErrorView>(None)
            ||| found == Ok::<Option<ChannelView>, ErrorView>(
                Some(ChannelView { nonce: secret_nonce, parties }),
            )
        }
}

/// The envelope `meta` as its participants get it when they open it: with
/// one channel, which holds the secret nonce and the participants' keys.
pub open spec fn opened_for_participant(
    meta: MetadataView,
    secret_nonce: Seq<u8>,
    parties: Seq<Seq<u8>>,
) -> MetadataView {
    MetadataView {
        nonce: meta.nonce,
        broker: meta.broker,
        hash: meta.hash,
        channels: seq![ChannelView { nonce: secret_nonce, parties }],
    }
}

/// Whether the hash of the envelope `meta` commits to the given values.
pub open spec fn commitment_holds(
    meta: MetadataView,
    secret_nonce: Seq<u8>,
    origin: Seq<u8>,
    sender_pk: Seq<u8>,
    recipients: Seq<Seq<u8>>,
    entries: Seq<EntryView>,
) -> bool {
    meta.hash == root_hash(
        origin,
        meta.nonce,
        sender_pk,
        meta.broker,
        secret_nonce,
        recipients,
        entries,
    )
}

impl MessageMetadata {
    /// Builds the envelope of a message and draws what is secret in it: a
    /// fresh secret nonce, which is returned beside the envelope, and a fresh
    /// broker key, which is used for this one envelope and then dropped.
    ///
    /// Fails with `InvalidNonce` where the public nonce has not 24 bytes,
    /// before anything is drawn or sealed, and on no other input.
    pub fn new_encrypted(
        origin: &[u8],
        public_nonce: &[u8],
        sender_pk: &PublicKey,
        recipients: &[&PublicKey],
        message: &Message,
    ) -> (built: Result<(MessageMetadata, Nonce), CypherError>)
        ensures
            match built {
                Ok(pair) => {
                    &&& public_nonce@.len() == 24
                    &&& well_formed(pair.0@)
                    &&& is_envelope(
                        pair.0@,
                        origin@,
                        public_nonce@,
                        sender_pk@,
                        key_bytes(recipients@),
                        message@,
                        pair.1@,
                    )
                },
                Err(CypherError::InvalidNonce(bytes)) => {
                    &&& public_nonce@.len() != 24
                    &&& bytes@ == public_nonce@
                },
                Err(_) => false,
            },
    {
        let nonce = match Nonce::from_slice(public_nonce) {
            Ok(nonce) => nonce,
            Err(e) => {
                return Err(e);
            },
        };
        let secret_nonce = random_nonce();
        let broker_sk = random_secret_key();
        let meta = MessageMetadata::sealed_with(
            origin,
            &nonce,
            sender_pk,
            recipients,
            message,
            &secret_nonce,
            &broker_sk,
        );
        assert(broker_sk@.len() == 32);
        assert(meta@ == envelope(
            origin@,
            public_nonce@,
            sender_pk@,
            key_bytes(recipients@),
            message@,
            secret_nonce@,
            broker_sk@,
        ));
        Ok((meta, secret_nonce))
    }

    /// Builds the envelope of a message for a secret nonce and a broker key
    /// that the caller has drawn: one channel for the sender and one for each
    /// recipient, and the commitment hash over the plain values.
    pub fn sealed_with(
        origin: &[u8],
        public_nonce: &Nonce,
        sender_pk: &PublicKey,
        recipients: &[&PublicKey],
        message: &Message,
        secret_nonce: &Nonce,
        broker_sk: &SecretKey,
    ) -> (meta: MessageMetadata)
        ensures
            meta@ == envelope(
                origin@,
                public_nonce@,
                sender_pk@,
                key_bytes(recipients@),
                message@,
                secret_nonce@,
                broker_sk@,
            ),
            well_formed(meta@),
    {
        let broker_pk = broker_sk.public_key();
        let ghost everyone = participants(sender_pk@, key_bytes(recipients@));

        let mut parties: Vec<&PublicKey> = Vec::new();
        parties.push(sender_pk);
        let mut i: usize = 0;
        while i < recipients.len()
            invariant
                i <= recipients@.len(),
                parties@.len() == i + 1,
                everyone == participants(sender_pk@, key_bytes(recipients@)),
                forall|k: int| 0 <= k <= i ==> (#[trigger] parties@[k])@ == everyone[k],
            decreases recipients@.len() - i,
        {
            parties.push(recipients[i]);
            i += 1;
        }
        assert(key_bytes(parties@) =~= everyone);

        let mut channels: Vec<Channel> = Vec::new();
        let mut j: usize = 0;
        while j < parties.len()
            invariant
                j <= parties@.len(),
                key_bytes(parties@) == everyone,
                channels@.len() == j,
                forall|k: int|
                    0 <= k < j ==> (#[trigger] channels@[k])@ == channel_for(
                        everyone[k],
                        everyone,
                        public_nonce@,
                        secret_nonce@,
                        broker_sk@,
                    ),
                forall|k: int|
                    0 <= k < j ==> channel_well_formed(
                        (#[trigger] channels@[k])@,
                        parties@.len() as nat,
                    ),
            decreases parties@.len() - j,
        {
            let channel = Channel::sealed_for(
                parties[j],
                parties.as_slice(),
                public_nonce,
                secret_nonce,
                broker_sk,
            );
            assert(everyone[j as int] == parties@[j as int]@);
            channels.push(channel);
            j += 1;
        }
        let hash = MessageMetadata::compute_root_hash(
            origin,
            public_nonce,
            sender_pk,
            &broker_pk,
            secret_nonce,
            recipients,
            message,
        );
        let meta = MessageMetadata {
            nonce: public_nonce.bytes,
            broker: broker_pk.bytes,
            hash,
            channels,
        };
        assert(meta@.channels =~= channels_for(
            everyone,
            public_nonce@,
            secret_nonce@,
            broker_sk@,
        ));
        meta
    }

    /// Computes the commitment hash: the digest of the salted hashes of the
    /// origin, the public nonce, the secret nonce, the broker's key and the
    /// sender's key, the hash of the recipients and the hash of the
    /// message's entries, in this order.
    pub fn compute_root_hash(
        origin: &[u8],
        public_nonce: &Nonce,
        sender_pk: &PublicKey,
        broker_pk: &PublicKey,
        secret_nonce: &Nonce,
        recipients: &[&PublicKey],
        message: &Message,
    ) -> (out: [u8; 32])
        ensures
            out@ == root_hash(
                origin@,
                public_nonce@,
                sender_pk@,
                broker_pk@,
                secret_nonce@,
                key_bytes(recipients@),
                message@,
            ),
    {
        let origin_hash = salted_digest(origin, secret_nonce);
        let public_nonce_hash = salted_digest(public_nonce.as_bytes(), secret_nonce);
        let secret_nonce_hash = salted_digest(secret_nonce.as_bytes(), secret_nonce);
        let broker_pk_hash = salted_digest(broker_pk.as_bytes(), secret_nonce);
        let sender_pk_hash = salted_digest(sender_pk.as_bytes(), secret_nonce);
        let recipients_hash = hash_recipients(recipients, secret_nonce);
        let entries_hash = hash_entries(message, secret_nonce);

        let mut all: Vec<u8> = slice_to_vec(origin_hash.as_slice());
        all.extend_from_slice(public_nonce_hash.as_slice());
        all.extend_from_slice(secret_nonce_hash.as_slice());
        all.extend_from_slice(broker_pk_hash.as_slice());
        all.extend_from_slice(sender_pk_hash.as_slice());
        all.extend_from_slice(recipients_hash.as_slice());
        all.extend_from_slice(entries_hash.as_slice());
        assert(all@ =~= salted_hash(origin@, secret_nonce@) + salted_hash(
            public_nonce@,
            secret_nonce@,
        ) + salted_hash(secret_nonce@, secret_nonce@) + salted_hash(broker_pk@, secret_nonce@)
            + salted_hash(sender_pk@, secret_nonce@) + recipients_hash@ + entries_hash@);
        digest(all.as_slice())
    }

    /// Hashes `data` with the nonce behind it as a salt.
    pub fn hash_with_nonce(data: &[u8], nonce: &Nonce) -> (out: Vec<u8>)
        ensures
            out@ == salted_hash(data@, nonce@),
    {
        let hash = salted_digest(data, nonce);
        slice_to_vec(hash.as_slice())
    }

    /// Opens the envelope for the holder of `receiver_sk`.
    ///
    /// Scans the channels in order and stops at the first whose sealed nonce
    /// opens. The result is the envelope with that channel alone, opened: its
    /// nonce is the secret nonce, its parties are the participants' keys.
    /// Where no channel opens, the result has no channels. Where the first
    /// channel that opens does not open as a whole, the result is that
    /// channel's error.
    ///
    /// A participant of an envelope that a broker built finds the secret
    /// nonce and the list of participants that went into it, unless a
    /// channel ahead of its own opens to it and holds something else. A
    /// holder to whom no channel's sealed nonce opens, and no other, gets an
    /// envelope without channels. No holder gets more than one channel.
    pub fn decrypt(&self, receiver_sk: &SecretKey) -> (found: Result<MessageMetadata, CypherError>)
        ensures
            result_view(found) == opened_envelope(self@, receiver_sk@),
            found matches Ok(meta) ==> meta@.channels.len() <= 1,
            none_opens(self@.channels, self@.nonce, self@.broker, receiver_sk@) <==> result_view(
                found,
            ) == Ok::<MetadataView, ErrorView>(without_channels(self@)),
            forall|parties: Seq<Seq<u8>>, secret_nonce: Seq<u8>, broker_sk: Seq<u8>, j: int|
                #[trigger] finds_own_channel(
                    self@,
                    receiver_sk@,
                    parties,
                    secret_nonce,
                    broker_sk,
                    j,
                ) ==> result_view(found) == Ok::<MetadataView, ErrorView>(
                    opened_for_participant(self@, secret_nonce, parties),
                ),
    {
        let public_nonce = Nonce { bytes: self.nonce };
        let broker_pk = PublicKey { bytes: self.broker };
        let ghost all = self@.channels;
        proof {
            lemma_scan_finds_nothing(all, self@.nonce, self@.broker, receiver_sk@);
            lemma_scan_finds_at_most_one(all, self@.nonce, self@.broker, receiver_sk@);
        }
        assert(all.skip(0) =~= all);
        let mut i: usize = 0;
        while i < self.channels.len()
            invariant
                i <= self.channels@.len(),
                all == self@.channels,
                public_nonce@ == self@.nonce,
                broker_pk@ == self@.broker,
                scan(all, self@.nonce, self@.broker, receiver_sk@) == scan(
                    all.skip(i as int),
                    self@.nonce,
                    self@.broker,
                    receiver_sk@,
                ),
                forall|parties: Seq<Seq<u8>>, secret_nonce: Seq<u8>, broker_sk: Seq<u8>, j: int|
                    #[trigger] finds_own_channel(
                        self@,
                        receiver_sk@,
                        parties,
                        secret_nonce,
                        broker_sk,
                        j,
                    ) ==> j >= i,
            decreases self.channels@.len() - i,
        {
            let ghost rest = all.skip(i as int);
            let scanned = self.channels[i].open(&public_nonce, &broker_pk, receiver_sk);
            proof {
                assert(rest.first() == self.channels@[i as int]@);
                assert(rest.drop_first() =~= all.skip(i + 1));
                // Where the holder has a channel of its own in this place,
                // it opens to what the broker sealed.
                assert forall|
                    parties: Seq<Seq<u8>>,
                    secret_nonce: Seq<u8>,
                    broker_sk: Seq<u8>,
                    j: int,
                | #[trigger]
                    finds_own_channel(
                        self@,
                        receiver_sk@,
                        parties,
                        secret_nonce,
                        broker_sk,
                        j,
                    ) && j == i implies result_view(scanned) == Ok::<
                    Option<ChannelView>,
                    ErrorView,
                >(Some(ChannelView { nonce: secret_nonce, parties })) by {
                    assert(sealed_to(
                        all[i as int],
                        self@.nonce,
                        self@.broker,
                        receiver_sk@,
                        parties[j],
                        parties,
                        secret_nonce,
                        broker_sk,
                    ));
                }
            }
            match scanned {
                Ok(ChannelScan::NotMine) => {},
                Ok(ChannelScan::Opened(secret_nonce, parties)) => {
                    let mut channels: Vec<Channel> = Vec::new();
                    channels.push(
                        Channel { nonce: slice_to_vec(secret_nonce.as_bytes()), parties },
                    );
                    let meta = MessageMetadata {
                        nonce: self.nonce,
                        broker: self.broker,
                        hash: self.hash,
                        channels,
                    };
                    assert(meta@.channels =~= seq![
                        ChannelView { nonce: secret_nonce@, parties: byte_strings(parties@) },
                    ]);
                    return Ok(meta);
                },
                Err(e) => {
                    return Err(e);
                },
            }
            i += 1;
        }
        let meta = MessageMetadata {
            nonce: self.nonce,
            broker: self.broker,
            hash: self.hash,
            channels: Vec::new(),
        };
        assert(meta@.channels =~= Seq::<ChannelView>::empty());
        Ok(meta)
    }

    /// Whether the hash of the envelope commits to the given values: computes
    /// the commitment hash over them, with the envelope's public nonce and
    /// broker key, and compares it with the hash that the envelope holds.
    pub fn verify_commitment(
        &self,
        secret_nonce: &Nonce,
        origin: &[u8],
        sender_pk: &PublicKey,
        recipients: &[&PublicKey],
        message: &Message,
    ) -> (ok: bool)
        ensures
            ok == commitment_holds(
                self@,
                secret_nonce@,
                origin@,
                sender_pk@,
                key_bytes(recipients@),
                message@,
            ),
    {
        let public_nonce = Nonce { bytes: self.nonce };
        let broker_pk = PublicKey { bytes: self.broker };
        let hash = MessageMetadata::compute_root_hash(
            origin,
            &public_nonce,
            sender_pk,
            &broker_pk,
            secret_nonce,
            recipients,
            message,
        );
        same_bytes(self.hash.as_slice(), hash.as_slice())
    }
}

} // verus!
