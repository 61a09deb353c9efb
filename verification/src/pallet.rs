//! The ledger's side of sending a message: what it checks before it stores
//! anything, the key under which a message is stored, and the count of
//! messages sent.

use crate::channel::{channel_well_formed, Channel};
use crate::metadata::{well_formed, MessageMetadata, MetadataView};
use vstd::prelude::*;
use vstd::slice::slice_to_vec;

verus! {

/// Why a message was not accepted.
#[derive(Clone, Copy, Debug, PartialEq, Eq, Structural)]
pub enum Error {
    /// Too many messages sent.
    MessageCounterOverflow,
    /// Message has a bad format.
    MessageMalformed,
    /// Message metadata has a bad format.
    MetadataMalformed,
}

/// What an accepted message makes known.
#[derive(Debug, PartialEq, Eq)]
pub enum Event {
    /// A new message was sent: it is to be stored under `key`.
    MessageSent { key: Vec<u8>, metadata: MessageMetadata },
}

/// The key under which a message is stored: the sender's account and the
/// message's sequence number.
#[derive(Debug)]
pub struct MessageKey<'a> {
    /// The encoded account of the sender.
    pub account: &'a [u8],
    /// Message sequence number.
    pub counter: u128,
}

/// The ledger's state: the total number of messages sent by all users.
#[derive(Debug)]
pub struct Pallet {
    message_counter: u128,
}

/// The `width` low bytes of `value`, the lowest first.
pub open spec fn le_bytes(value: nat, width: nat) -> Seq<u8>
    decreases width,
{
    if width == 0 {
        Seq::empty()
    } else {
        seq![(value % 256) as u8] + le_bytes(value / 256, (width - 1) as nat)
    }
}

/// The encoded key: the account as it is, then the counter in 16 bytes, the
/// lowest first.
pub open spec fn encoded_key(account: Seq<u8>, counter: u128) -> Seq<u8> {
    account + le_bytes(counter as nat, 16)
}

/// What the check of a message and its envelope gives: an empty message is
/// malformed; with a message, an envelope that is not well formed is
/// malformed; else both pass.
pub open spec fn checked(message: Seq<u8>, meta: MetadataView) -> Result<(), Error> {
    if message.len() == 0 {
        Err(Error::MessageMalformed)
    } else if !well_formed(meta) {
        Err(Error::MetadataMalformed)
    } else {
        Ok(())
    }
}

/// The bytes of a number are as many as were asked for.
pub proof fn lemma_le_bytes_len(value: nat, width: nat)
    ensures
        le_bytes(value, width).len() == width,
    decreases width,
{
    if width > 0 {
        lemma_le_bytes_len(value / 256, (width - 1) as nat);
    }
}

/// The largest number that `width` bytes can hold, and one more.
pub open spec fn limit(width: nat) -> nat
    decreases width,
{
    if width == 0 {
        1
    } else {
        256 * limit((width - 1) as nat)
    }
}

/// Two numbers that fit into `width` bytes and have the same bytes are the
/// same number.
pub proof fn lemma_le_bytes_unique(first: nat, second: nat, width: nat)
    requires
        first < limit(width),
        second < limit(width),
        le_bytes(first, width) == le_bytes(second, width),
    ensures
        first == second,
    decreases width,
{
    if width > 0 {
        let rest = (width - 1) as nat;
        let first_tail = le_bytes(first / 256, rest);
        let second_tail = le_bytes(second / 256, rest);
        let first_head = seq![(first % 256) as u8];
        let second_head = seq![(second % 256) as u8];
        assert((first_head + first_tail)[0] == (first % 256) as u8);
        assert((second_head + second_tail)[0] == (second % 256) as u8);
        assert(first_tail =~= (first_head + first_tail).subrange(1, 1 + first_tail.len() as int));
        assert(second_tail =~= (second_head + second_tail).subrange(
            1,
            1 + second_tail.len() as int,
        ));
        lemma_le_bytes_len(first / 256, rest);
        lemma_le_bytes_len(second / 256, rest);
        lemma_le_bytes_unique(first / 256, second / 256, rest);
    }
}

/// The key makes a message unique: two keys of accounts of one length are
/// the same only for the same account and the same counter.
pub proof fn lemma_encoded_key_unique(
    account: Seq<u8>,
    counter: u128,
    other_account: Seq<u8>,
    other_counter: u128,
)
    requires
        account.len() == other_account.len(),
        encoded_key(account, counter) == encoded_key(other_account, other_counter),
    ensures
        account == other_account,
        counter == other_counter,
{
    let bytes = le_bytes(counter as nat, 16);
    let other_bytes = le_bytes(other_counter as nat, 16);
    assert(account =~= (account + bytes).subrange(0, account.len() as int));
    assert(other_account =~= (other_account + other_bytes).subrange(
        0,
        other_account.len() as int,
    ));
    assert(bytes =~= (account + bytes).subrange(
        account.len() as int,
        (account + bytes).len() as int,
    ));
    assert(other_bytes =~= (other_account + other_bytes).subrange(
        other_account.len() as int,
        (other_account + other_bytes).len() as int,
    ));
    lemma_le_bytes_len(counter as nat, 16);
    lemma_le_bytes_len(other_counter as nat, 16);
    assert(limit(16) == 0x1_0000_0000_0000_0000_0000_0000_0000_0000) by {
        reveal_with_fuel(limit, 17);
    }
    lemma_le_bytes_unique(counter as nat, other_counter as nat, 16);
}

impl<'a> MessageKey<'a> {
    /// Encodes the key.
    pub fn encode(&self) -> (out: Vec<u8>)
        ensures
            out@ == encoded_key(self.account@, self.counter),
    {
        let mut out = slice_to_vec(self.account);
        let mut rest: u128 = self.counter;
        let mut i: usize = 0;
        while i < 16
            invariant
                i <= 16,
                out@ + le_bytes(rest as nat, (16 - i) as nat) == encoded_key(
                    self.account@,
                    self.counter,
                ),
            decreases 16 - i,
        {
            let ghost before = out@;
            let low: u8 = (rest % 256) as u8;
            out.push(low);
            proof {
                let tail = le_bytes((rest / 256) as nat, (16 - i - 1) as nat);
                assert(out@ + tail =~= before + (seq![low] + tail));
            }
            rest = rest / 256;
            i += 1;
        }
        out
    }
}

/// Whether a channel is fit to be stored in an envelope of `count` channels.
fn check_channel(channel: &Channel, count: usize) -> (ok: bool)
    ensures
        ok == channel_well_formed(channel@, count as nat),
{
    if channel.nonce.is_empty() || channel.parties.is_empty() || channel.parties.len() != count {
        return false;
    }
    let mut i: usize = 0;
    while i < channel.parties.len()
        invariant
            i <= channel.parties@.len(),
            forall|k: int| 0 <= k < i ==> (#[trigger] channel@.parties[k]).len() > 0,
        decreases channel.parties@.len() - i,
    {
        if channel.parties[i].is_empty() {
            assert(channel@.parties[i as int].len() == 0);
            return false;
        }
        i += 1;
    }
    true
}

impl Pallet {
    /// A ledger on which `message_counter` messages have been sent.
    pub fn new(message_counter: u128) -> (pallet: Pallet)
        ensures
            pallet.counter() == message_counter,
    {
        Pallet { message_counter }
    }

    /// The total number of messages sent.
    pub closed spec fn counter(&self) -> u128 {
        self.message_counter
    }

    /// The total number of messages sent.
    pub fn message_counter(&self) -> (count: u128)
        ensures
            count == self.counter(),
    {
        self.message_counter
    }

    /// Sends the message: checks it and its envelope, then counts it.
    ///
    /// Where both pass and the count can still grow, the event holds the key
    /// under which the caller is to store the message, made of the account
    /// and the count before this message, and the envelope to publish. On
    /// every error the count stays as it was.
    pub fn send_message(
        &mut self,
        account: &[u8],
        metadata: MessageMetadata,
        message: &[u8],
    ) -> (sent: Result<Event, Error>)
        ensures
            match checked(message@, metadata@) {
                Err(e) => sent == Err::<Event, Error>(e) && final(self).counter() == old(
                    self,
                ).counter(),
                Ok(()) => if old(self).counter() == u128::MAX {
                    &&& sent == Err::<Event, Error>(Error::MessageCounterOverflow)
                    &&& final(self).counter() == old(self).counter()
                } else {
                    &&& final(self).counter() == old(self).counter() + 1
                    &&& match sent {
                        Ok(Event::MessageSent { key, metadata: published }) => {
                            &&& key@ == encoded_key(account@, old(self).counter())
                            &&& published == metadata
                        },
                        Err(_) => false,
                    }
                },
            },
    {
        match Pallet::check_message(message, &metadata) {
            Ok(()) => {},
            Err(e) => {
                return Err(e);
            },
        }
        let counter = self.message_counter;
        if counter == u128::MAX {
            return Err(Error::MessageCounterOverflow);
        }
        let key = Pallet::derived_key(account, counter);
        self.message_counter = counter + 1;
        Ok(Event::MessageSent { key, metadata })
    }

    /// Combines a user account with a message counter to make the key
    /// unique.
    pub fn derived_key(account: &[u8], counter: u128) -> (key: Vec<u8>)
        ensures
            key@ == encoded_key(account@, counter),
    {
        MessageKey { account, counter }.encode()
    }

    /// Checks that the message and its envelope are fit to be stored.
    pub fn check_message(message: &[u8], metadata: &MessageMetadata) -> (r: Result<(), Error>)
        ensures
            r == checked(message@, metadata@),
    {
        if message.is_empty() {
            return Err(Error::MessageMalformed);
        }
        if metadata.channels.is_empty() {
            return Err(Error::MetadataMalformed);
        }
        let count = metadata.channels.len();
        let mut j: usize = 0;
        while j < count
            invariant
                j <= count,
                0 < count == metadata.channels@.len(),
                message@.len() > 0,
                forall|k: int|
                    0 <= k < j ==> channel_well_formed(
                        #[trigger] metadata@.channels[k],
                        count as nat,
                    ),
            decreases count - j,
        {
            assert(metadata@.channels[j as int] == metadata.channels@[j as int]@);
            if !check_channel(&metadata.channels[j], count) {
                return Err(Error::MetadataMalformed);
            }
            j += 1;
        }
        Ok(())
    }
}

} // verus!
