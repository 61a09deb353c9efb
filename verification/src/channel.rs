//! Channels: what an envelope holds for one participant.
//!
//! A channel carries the secret nonce and the list of all participants,
//! sealed by the broker so that one participant alone can open them. Nothing
//! in a channel says whose it is: a participant finds its own by trying.

use crate::commitment::key_bytes;
use crate::cypher::{opened, peers, BytesCypher, CypherError, ErrorView};
use crate::keys::{Nonce, PublicKey, SecretKey, NONCE_LEN};
use crate::salsa_box::{box_open, box_seal};
use vstd::prelude::*;

verus! {

/// What one participant needs to read the message: the secret nonce and the
/// list of participants, sealed so that only this participant can open them.
///
/// An opened channel has the same shape and holds the plain values.
#[derive(Clone, Debug, PartialEq, Eq)]
pub struct Channel {
    /// The secret nonce, sealed under the public nonce.
    pub nonce: Vec<u8>,
    /// The public keys of all participants in order, each sealed under the
    /// secret nonce.
    pub parties: Vec<Vec<u8>>,
}

/// A channel as plain data.
pub struct ChannelView {
    pub nonce: Seq<u8>,
    pub parties: Seq<Seq<u8>>,
}

/// What scanning one channel gave.
#[derive(Debug)]
pub enum ChannelScan {
    /// The channel opened: the secret nonce and the participants' keys.
    Opened(Nonce, Vec<Vec<u8>>),
    /// The channel is someone else's.
    NotMine,
}

/// A list of byte strings as plain data.
pub open spec fn byte_strings(list: Seq<Vec<u8>>) -> Seq<Seq<u8>> {
    Seq::new(list.len(), |i: int| list[i]@)
}

impl View for Channel {
    type V = ChannelView;

    open spec fn view(&self) -> ChannelView {
        ChannelView { nonce: self.nonce@, parties: byte_strings(self.parties@) }
    }
}

impl View for ChannelScan {
    type V = Option<ChannelView>;

    open spec fn view(&self) -> Option<ChannelView> {
        match self {
            ChannelScan::Opened(nonce, parties) => Some(
                ChannelView { nonce: nonce@, parties: byte_strings(parties@) },
            ),
            ChannelScan::NotMine => None,
        }
    }
}

/// A result as plain data.
pub open spec fn result_view<T: View>(r: Result<T, CypherError>) -> Result<T::V, ErrorView> {
    match r {
        Ok(v) => Ok(v@),
        Err(e) => Err(e@),
    }
}

/// Whether a channel is fit to be stored in an envelope of `count` channels:
/// it holds a sealed nonce and `count` sealed keys, none of them empty, and
/// `count` is not zero.
pub open spec fn channel_well_formed(channel: ChannelView, count: nat) -> bool {
    &&& channel.nonce.len() > 0
    &&& channel.parties.len() > 0
    &&& channel.parties.len() == count
    &&& forall|i: int| 0 <= i < channel.parties.len() ==> (#[trigger] channel.parties[i]).len() > 0
}

/// Every key of `parties`, sealed to `party` by the broker under the secret
/// nonce.
pub open spec fn sealed_parties(
    parties: Seq<Seq<u8>>,
    party: Seq<u8>,
    secret_nonce: Seq<u8>,
    broker_sk: Seq<u8>,
) -> Seq<Seq<u8>> {
    Seq::new(parties.len(), |i: int| box_seal(parties[i], secret_nonce, party, broker_sk))
}

/// The channel of `party`: the secret nonce sealed to it under the public
/// nonce, and every participant's key sealed to it under the secret nonce.
pub open spec fn channel_for(
    party: Seq<u8>,
    parties: Seq<Seq<u8>>,
    public_nonce: Seq<u8>,
    secret_nonce: Seq<u8>,
    broker_sk: Seq<u8>,
) -> ChannelView {
    ChannelView {
        nonce: box_seal(secret_nonce, public_nonce, party, broker_sk),
        parties: sealed_parties(parties, party, secret_nonce, broker_sk),
    }
}

/// Whether every one of `parties` opens with `sk` as coming from `pk` under
/// `nonce`.
pub open spec fn parties_open(
    parties: Seq<Seq<u8>>,
    nonce: Seq<u8>,
    pk: Seq<u8>,
    sk: Seq<u8>,
) -> bool {
    forall|i: int|
        0 <= i < parties.len() ==> (#[trigger] box_open(parties[i], nonce, pk, sk)) is Some
}

/// Every one of `parties`, opened.
pub open spec fn opened_parties(
    parties: Seq<Seq<u8>>,
    nonce: Seq<u8>,
    pk: Seq<u8>,
    sk: Seq<u8>,
) -> Seq<Seq<u8>> {
    Seq::new(parties.len(), |i: int| box_open(parties[i], nonce, pk, sk)->0)
}

/// What the holder of `sk` finds in a channel.
///
/// Where the sealed nonce does not open, the channel is someone else's:
/// `Ok(None)`. Where it opens, the channel is taken for the holder's own and
/// must open as a whole: the content must have the length of a nonce, else
/// `InvalidNonce` with that content, and every sealed key must open under
/// it, else `DecryptionFailed` with the broker's key.
pub open spec fn scan_channel(
    channel: ChannelView,
    public_nonce: Seq<u8>,
    broker_pk: Seq<u8>,
    sk: Seq<u8>,
) -> Result<Option<ChannelView>, ErrorView> {
    match box_open(channel.nonce, public_nonce, broker_pk, sk) {
        None => Ok(None),
        Some(secret_nonce) => if secret_nonce.len() != NONCE_LEN {
            Err(ErrorView::InvalidNonce(secret_nonce))
        } else if !parties_open(channel.parties, secret_nonce, broker_pk, sk) {
            Err(ErrorView::DecryptionFailed(broker_pk))
        } else {
            Ok(
                Some(
                    ChannelView {
                        nonce: secret_nonce,
                        parties: opened_parties(channel.parties, secret_nonce, broker_pk, sk),
                    },
                ),
            )
        },
    }
}

/// Whether `channel` is the one that the broker sealed for `party`, and
/// `party` is the key of the holder of `sk`, who knows the broker by
/// `broker_pk`.
pub open spec fn sealed_to(
    channel: ChannelView,
    public_nonce: Seq<u8>,
    broker_pk: Seq<u8>,
    sk: Seq<u8>,
    party: Seq<u8>,
    parties: Seq<Seq<u8>>,
    secret_nonce: Seq<u8>,
    broker_sk: Seq<u8>,
) -> bool {
    &&& secret_nonce.len() == 24
    &&& peers(broker_pk, sk, party, broker_sk)
    &&& channel == channel_for(party, parties, public_nonce, secret_nonce, broker_sk)
}

impl Channel {
    /// Builds the channel of `party`: seals the secret nonce to it under the
    /// public nonce, and the key of every one of `parties` under the secret
    /// nonce, all with the broker's secret key.
    pub fn sealed_for(
        party: &PublicKey,
        parties: &[&PublicKey],
        public_nonce: &Nonce,
        secret_nonce: &Nonce,
        broker_sk: &SecretKey,
    ) -> (channel: Channel)
        ensures
            channel@ == channel_for(
                party@,
                key_bytes(parties@),
                public_nonce@,
                secret_nonce@,
                broker_sk@,
            ),
            parties@.len() > 0 ==> channel_well_formed(channel@, parties@.len()),
    {
        let nonce = secret_nonce.as_bytes().encrypt(public_nonce, party, broker_sk);
        let mut sealed: Vec<Vec<u8>> = Vec::new();
        let mut i: usize = 0;
        while i < parties.len()
            invariant
                i <= parties@.len(),
                sealed@.len() == i,
                forall|k: int|
                    0 <= k < i ==> (#[trigger] sealed@[k])@ == box_seal(
                        parties@[k]@,
                        secret_nonce@,
                        party@,
                        broker_sk@,
                    ),
                forall|k: int| 0 <= k < i ==> (#[trigger] sealed@[k])@.len() > 0,
            decreases parties@.len() - i,
        {
            sealed.push(parties[i].as_bytes().encrypt(secret_nonce, party, broker_sk));
            i += 1;
        }
        let channel = Channel { nonce, parties: sealed };
        assert(channel@.parties =~= sealed_parties(
            key_bytes(parties@),
            party@,
            secret_nonce@,
            broker_sk@,
        ));
        channel
    }

    /// Scans the channel for the holder of `receiver_sk`: tries the sealed
    /// nonce, and where it opens, opens every sealed key under it.
    ///
    /// The channel that the broker sealed to this holder opens to the secret
    /// nonce and the keys that were sealed.
    pub fn open(
        &self,
        public_nonce: &Nonce,
        broker_pk: &PublicKey,
        receiver_sk: &SecretKey,
    ) -> (found: Result<ChannelScan, CypherError>)
        ensures
            result_view(found) == scan_channel(self@, public_nonce@, broker_pk@, receiver_sk@),
            forall|party: Seq<u8>, parties: Seq<Seq<u8>>, secret_nonce: Seq<u8>, broker_sk: Seq<u8>|
                #[trigger] sealed_to(
                    self@,
                    public_nonce@,
                    broker_pk@,
                    receiver_sk@,
                    party,
                    parties,
                    secret_nonce,
                    broker_sk,
                ) ==> result_view(found) == Ok::<Option<ChannelView>, ErrorView>(
                    Some(ChannelView { nonce: secret_nonce, parties }),
                ),
    {
        let opening = self.nonce.as_slice().decrypt(public_nonce, broker_pk, receiver_sk);
        proof {
            // The channel of this holder holds the secret nonce as its peer,
            // the broker, sealed it.
            assert forall|
                party: Seq<u8>,
                parties: Seq<Seq<u8>>,
                secret_nonce: Seq<u8>,
                broker_sk: Seq<u8>,
            | #[trigger]
                sealed_to(
                    self@,
                    public_nonce@,
                    broker_pk@,
                    receiver_sk@,
                    party,
                    parties,
                    secret_nonce,
                    broker_sk,
                ) implies opened(opening) == Some(secret_nonce) by {
                assert(box_seal(secret_nonce, public_nonce@, party, broker_sk) == self.nonce@);
            }
        }
        let nonce_bytes = match opening {
            Ok(bytes) => bytes,
            Err(_) => {
                return Ok(ChannelScan::NotMine);
            },
        };
        let secret_nonce = match Nonce::from_slice(nonce_bytes.as_slice()) {
            Ok(nonce) => nonce,
            Err(e) => {
                return Err(e);
            },
        };
        let mut keys: Vec<Vec<u8>> = Vec::new();
        let mut i: usize = 0;
        while i < self.parties.len()
            invariant
                i <= self.parties@.len(),
                keys@.len() == i,
                box_open(self@.nonce, public_nonce@, broker_pk@, receiver_sk@) == Some(
                    secret_nonce@,
                ),
                forall|k: int|
                    0 <= k < i ==> box_open(
                        self.parties@[k]@,
                        secret_nonce@,
                        broker_pk@,
                        receiver_sk@,
                    ) == Some((#[trigger] keys@[k])@),
                forall|party: Seq<u8>, parties: Seq<Seq<u8>>, nonce: Seq<u8>, broker_sk: Seq<u8>|
                    #[trigger] sealed_to(
                        self@,
                        public_nonce@,
                        broker_pk@,
                        receiver_sk@,
                        party,
                        parties,
                        nonce,
                        broker_sk,
                    ) ==> nonce == secret_nonce@,
                forall|
                    party: Seq<u8>,
                    parties: Seq<Seq<u8>>,
                    nonce: Seq<u8>,
                    broker_sk: Seq<u8>,
                    k: int,
                |
                    #[trigger] sealed_to(
                        self@,
                        public_nonce@,
                        broker_pk@,
                        receiver_sk@,
                        party,
                        parties,
                        nonce,
                        broker_sk,
                    ) && 0 <= k < i ==> (#[trigger] keys@[k])@ == parties[k],
            decreases self.parties@.len() - i,
        {
            let ghost sealed_key = self.parties@[i as int]@;
            let opening = self.parties[i].as_slice().decrypt(&secret_nonce, broker_pk, receiver_sk);
            proof {
                assert(self@.parties[i as int] == sealed_key);
                // In the channel of this holder the sealed key in this place
                // is the key of the participant in this place.
                assert forall|
                    party: Seq<u8>,
                    parties: Seq<Seq<u8>>,
                    nonce: Seq<u8>,
                    broker_sk: Seq<u8>,
                | #[trigger]
                    sealed_to(
                        self@,
                        public_nonce@,
                        broker_pk@,
                        receiver_sk@,
                        party,
                        parties,
                        nonce,
                        broker_sk,
                    ) implies opened(opening) == Some(parties[i as int]) by {
                    let sealed = sealed_parties(parties, party, nonce, broker_sk);
                    assert(sealed.len() == parties.len());
                    assert(sealed[i as int] == sealed_key);
                    assert(box_seal(parties[i as int], secret_nonce@, party, broker_sk)
                        == sealed_key);
                }
            }
            match opening {
                Ok(key) => {
                    keys.push(key);
                },
                Err(e) => {
                    assert(box_open(
                        self@.parties[i as int],
                        secret_nonce@,
                        broker_pk@,
                        receiver_sk@,
                    ) is None);
                    return Err(e);
                },
            }
            i += 1;
        }
        proof {
            assert forall|k: int| 0 <= k < self@.parties.len() implies (#[trigger] box_open(
                self@.parties[k],
                secret_nonce@,
                broker_pk@,
                receiver_sk@,
            )) == Some(keys@[k]@) by {
                assert(self@.parties[k] == self.parties@[k]@);
            }
            assert(byte_strings(keys@) =~= opened_parties(
                self@.parties,
                secret_nonce@,
                broker_pk@,
                receiver_sk@,
            ));
            assert forall|
                party: Seq<u8>,
                parties: Seq<Seq<u8>>,
                nonce: Seq<u8>,
                broker_sk: Seq<u8>,
            | #[trigger]
                sealed_to(
                    self@,
                    public_nonce@,
                    broker_pk@,
                    receiver_sk@,
                    party,
                    parties,
                    nonce,
                    broker_sk,
                ) implies byte_strings(keys@) == parties by {
                assert(sealed_parties(parties, party, nonce, broker_sk).len() == parties.len());
                assert forall|k: int| 0 <= k < parties.len() implies byte_strings(keys@)[k]
                    == parties[k] by {
                    assert(byte_strings(keys@)[k] == keys@[k]@);
                }
                assert(byte_strings(keys@) =~= parties);
            }
        }
        Ok(ChannelScan::Opened(secret_nonce, keys))
    }
}

} // verus!
