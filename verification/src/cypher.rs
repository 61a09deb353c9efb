//! Sealing and opening of bytes, entries and messages.

use crate::keys::{Nonce, PublicKey, SecretKey};
use crate::messages::{EntryView, Message, MessageEntry};
use crate::salsa_box::{box_open, box_seal, open, public_key_of, seal, sealable};
use vstd::prelude::*;

verus! {

/// Why a value could not be read or opened.
#[derive(Debug)]
pub enum CypherError {
    /// A box did not authenticate; holds the public key it was said to come
    /// from.
    DecryptionFailed(PublicKey),
    /// Bytes that are no nonce.
    InvalidNonce(Vec<u8>),
    /// Bytes that are no public key.
    InvalidPubkey(Vec<u8>),
}

/// An error as plain data.
pub enum ErrorView {
    DecryptionFailed(Seq<u8>),
    InvalidNonce(Seq<u8>),
    InvalidPubkey(Seq<u8>),
}

impl View for CypherError {
    type V = ErrorView;

    open spec fn view(&self) -> ErrorView {
        match self {
            CypherError::DecryptionFailed(pk) => ErrorView::DecryptionFailed(pk@),
            CypherError::InvalidNonce(bytes) => ErrorView::InvalidNonce(bytes@),
            CypherError::InvalidPubkey(bytes) => ErrorView::InvalidPubkey(bytes@),
        }
    }
}

/// What an opening gave, as plain data: the opened value, or nothing.
pub open spec fn opened<T: View>(r: Result<T, CypherError>) -> Option<T::V> {
    match r {
        Ok(v) => Some(v@),
        Err(_) => None,
    }
}

/// Whether `r` failed with `DecryptionFailed` for the key `pk`.
pub open spec fn failed_for<T>(r: Result<T, CypherError>, pk: PublicKey) -> bool {
    match r {
        Err(CypherError::DecryptionFailed(k)) => k == pk,
        _ => false,
    }
}

/// Two key pairs whose boxes open each other: each public key belongs to
/// the other pair's secret key.
pub open spec fn peers(pk: Seq<u8>, sk: Seq<u8>, peer_pk: Seq<u8>, peer_sk: Seq<u8>) -> bool {
    &&& peer_sk.len() == 32
    &&& pk == public_key_of(peer_sk)
    &&& peer_pk == public_key_of(sk)
}

/// Whether a box that was sealed to `seal_pk` with `seal_sk` is one that
/// opens with `sk` as coming from `pk`: the two pairs of keys are the same,
/// or they are peers. Either way sealing and opening work with one shared
/// key.
pub open spec fn same_box(pk: Seq<u8>, sk: Seq<u8>, seal_pk: Seq<u8>, seal_sk: Seq<u8>) -> bool {
    (seal_pk == pk && seal_sk == sk) || peers(pk, sk, seal_pk, seal_sk)
}

/// Whether `data` is short enough to be sealed.
pub fn can_seal(data: &[u8]) -> (ok: bool)
    ensures
        ok == sealable(data@),
{
    data.len() <= isize::MAX as usize - 16
}

/// Sealing and opening of plain bytes.
pub trait BytesCypher {
    /// The bytes that are sealed or opened.
    spec fn content(&self) -> Seq<u8>;

    /// Seals the bytes to `pk` with `sk` under `nonce`.
    fn encrypt(&self, nonce: &Nonce, pk: &PublicKey, sk: &SecretKey) -> (sealed: Vec<u8>)
        requires
            sealable(self.content()),
        ensures
            sealed@ == box_seal(self.content(), nonce@, pk@, sk@),
            sealed@.len() == self.content().len() + 16,
    ;

    /// Opens the bytes with `sk` as a box that came from `pk` under `nonce`.
    ///
    /// Fails with `DecryptionFailed(pk)` where the box does not authenticate.
    /// A box that was sealed under `nonce` with the same pair of keys, or by
    /// the peer of that pair, opens to what was sealed.
    fn decrypt(&self, nonce: &Nonce, pk: &PublicKey, sk: &SecretKey) -> (plain: Result<
        Vec<u8>,
        CypherError,
    >)
        ensures
            opened(plain) == box_open(self.content(), nonce@, pk@, sk@),
            plain is Err ==> failed_for(plain, *pk),
            plain matches Ok(p) ==> p@.len() + 16 == self.content().len(),
            forall|data: Seq<u8>, seal_pk: Seq<u8>, seal_sk: Seq<u8>|
                same_box(pk@, sk@, seal_pk, seal_sk) && #[trigger] box_seal(
                    data,
                    nonce@,
                    seal_pk,
                    seal_sk,
                ) == self.content() ==> opened(plain) == Some(data),
    ;
}

impl BytesCypher for [u8] {
    open spec fn content(&self) -> Seq<u8> {
        self@
    }

    fn encrypt(&self, nonce: &Nonce, pk: &PublicKey, sk: &SecretKey) -> (sealed: Vec<u8>) {
        seal(self, nonce, pk, sk)
    }

    fn decrypt(&self, nonce: &Nonce, pk: &PublicKey, sk: &SecretKey) -> (plain: Result<
        Vec<u8>,
        CypherError,
    >) {
        match open(self, nonce, pk, sk) {
            Some(c) => Ok(c),
            None => Err(CypherError::DecryptionFailed(*pk)),
        }
    }
}

/// An entry with its key and its value sealed; the kind stays as it is.
pub open spec fn seal_entry(e: EntryView, nonce: Seq<u8>, pk: Seq<u8>, sk: Seq<u8>) -> EntryView {
    EntryView {
        key: box_seal(e.key, nonce, pk, sk),
        value: box_seal(e.value, nonce, pk, sk),
        kind: e.kind,
    }
}

/// An entry with its key and its value opened, if both open.
pub open spec fn open_entry(e: EntryView, nonce: Seq<u8>, pk: Seq<u8>, sk: Seq<u8>) -> Option<
    EntryView,
> {
    match (box_open(e.key, nonce, pk, sk), box_open(e.value, nonce, pk, sk)) {
        (Some(key), Some(value)) => Some(EntryView { key, value, kind: e.kind }),
        _ => None,
    }
}

/// Whether the key and the value of an entry are short enough to be sealed.
pub open spec fn entry_sealable(e: EntryView) -> bool {
    sealable(e.key) && sealable(e.value)
}

/// A message with every entry sealed, in the same order.
pub open spec fn seal_message(m: Seq<EntryView>, nonce: Seq<u8>, pk: Seq<u8>, sk: Seq<u8>) -> Seq<
    EntryView,
> {
    Seq::new(m.len(), |i: int| seal_entry(m[i], nonce, pk, sk))
}

/// Whether every entry of a message opens.
pub open spec fn message_opens(
    m: Seq<EntryView>,
    nonce: Seq<u8>,
    pk: Seq<u8>,
    sk: Seq<u8>,
) -> bool {
    forall|i: int| 0 <= i < m.len() ==> (#[trigger] open_entry(m[i], nonce, pk, sk)) is Some
}

/// A message with every entry opened, in the same order, if all of them
/// open.
pub open spec fn open_message(
    m: Seq<EntryView>,
    nonce: Seq<u8>,
    pk: Seq<u8>,
    sk: Seq<u8>,
) -> Option<Seq<EntryView>> {
    if message_opens(m, nonce, pk, sk) {
        Some(Seq::new(m.len(), |i: int| open_entry(m[i], nonce, pk, sk)->0))
    } else {
        None
    }
}

/// Sealing and opening of a structured value, part by part.
pub trait Cypher: Sized + View {
    /// Whether every part of the value is short enough to be sealed.
    spec fn fits(v: Self::V) -> bool;

    /// The value with its parts sealed.
    spec fn sealed(v: Self::V, nonce: Seq<u8>, pk: Seq<u8>, sk: Seq<u8>) -> Self::V;

    /// The value with its parts opened, if all of them open.
    spec fn unsealed(v: Self::V, nonce: Seq<u8>, pk: Seq<u8>, sk: Seq<u8>) -> Option<Self::V>;

    /// Seals every part to `pk` with `sk` under `nonce`.
    fn encrypt(&self, nonce: &Nonce, pk: &PublicKey, sk: &SecretKey) -> (out: Self)
        requires
            Self::fits(self@),
        ensures
            out@ == Self::sealed(self@, nonce@, pk@, sk@),
    ;

    /// Opens every part with `sk` as coming from `pk` under `nonce`.
    ///
    /// Succeeds only as a whole: where one part does not authenticate, the
    /// result is `DecryptionFailed(pk)`. A value that was sealed under
    /// `nonce` with the same pair of keys, or by the peer of that pair,
    /// opens to what was sealed.
    fn decrypt(&self, nonce: &Nonce, pk: &PublicKey, sk: &SecretKey) -> (plain: Result<
        Self,
        CypherError,
    >)
        ensures
            opened(plain) == Self::unsealed(self@, nonce@, pk@, sk@),
            plain is Err ==> failed_for(plain, *pk),
            forall|v: Self::V, seal_pk: Seq<u8>, seal_sk: Seq<u8>|
                same_box(pk@, sk@, seal_pk, seal_sk) && #[trigger] Self::sealed(
                    v,
                    nonce@,
                    seal_pk,
                    seal_sk,
                ) == self@ ==> opened(plain) == Some(v),
    ;
}

impl MessageEntry {
    /// Whether the key and the value are short enough to be sealed.
    pub fn can_seal(&self) -> (ok: bool)
        ensures
            ok == entry_sealable(self@),
    {
        can_seal(self.key.as_slice()) && can_seal(self.value.as_slice())
    }
}

impl Message {
    /// Whether the key and the value of every entry are short enough to be
    /// sealed.
    pub fn can_seal(&self) -> (ok: bool)
        ensures
            ok == <Message as Cypher>::fits(self@),
    {
        let mut i: usize = 0;
        while i < self.entries.len()
            invariant
                i <= self.entries@.len(),
                forall|j: int| 0 <= j < i ==> entry_sealable(#[trigger] self@[j]),
            decreases self.entries@.len() - i,
        {
            if !self.entries[i].can_seal() {
                assert(!entry_sealable(self@[i as int]));
                return false;
            }
            i += 1;
        }
        true
    }
}

impl Cypher for MessageEntry {
    open spec fn fits(v: EntryView) -> bool {
        entry_sealable(v)
    }

    open spec fn sealed(v: EntryView, nonce: Seq<u8>, pk: Seq<u8>, sk: Seq<u8>) -> EntryView {
        seal_entry(v, nonce, pk, sk)
    }

    open spec fn unsealed(v: EntryView, nonce: Seq<u8>, pk: Seq<u8>, sk: Seq<u8>) -> Option<
        EntryView,
    > {
        open_entry(v, nonce, pk, sk)
    }

    fn encrypt(&self, nonce: &Nonce, pk: &PublicKey, sk: &SecretKey) -> (out: MessageEntry) {
        MessageEntry {
            key: self.key.as_slice().encrypt(nonce, pk, sk),
            value: self.value.as_slice().encrypt(nonce, pk, sk),
            kind: self.kind,
        }
    }

    fn decrypt(&self, nonce: &Nonce, pk: &PublicKey, sk: &SecretKey) -> (plain: Result<
        MessageEntry,
        CypherError,
    >) {
        let key = self.key.as_slice().decrypt(nonce, pk, sk)?;
        let value = self.value.as_slice().decrypt(nonce, pk, sk)?;
        Ok(MessageEntry { key, value, kind: self.kind })
    }
}

impl Cypher for Message {
    open spec fn fits(v: Seq<EntryView>) -> bool {
        forall|i: int| 0 <= i < v.len() ==> entry_sealable(#[trigger] v[i])
    }

    open spec fn sealed(v: Seq<EntryView>, nonce: Seq<u8>, pk: Seq<u8>, sk: Seq<u8>) -> Seq<
        EntryView,
    > {
        seal_message(v, nonce, pk, sk)
    }

    open spec fn unsealed(v: Seq<EntryView>, nonce: Seq<u8>, pk: Seq<u8>, sk: Seq<u8>) -> Option<
        Seq<EntryView>,
    > {
        open_message(v, nonce, pk, sk)
    }

    fn encrypt(&self, nonce: &Nonce, pk: &PublicKey, sk: &SecretKey) -> (out: Message) {
        let mut entries: Vec<MessageEntry> = Vec::new();
        let mut i: usize = 0;
        while i < self.entries.len()
            invariant
                i <= self.entries@.len(),
                Self::fits(self@),
                entries@.len() == i,
                forall|j: int|
                    0 <= j < i ==> (#[trigger] entries@[j])@ == seal_entry(
                        self@[j],
                        nonce@,
                        pk@,
                        sk@,
                    ),
            decreases self.entries@.len() - i,
        {
            assert(entry_sealable(self@[i as int]));
            let entry = self.entries[i].encrypt(nonce, pk, sk);
            entries.push(entry);
            i += 1;
        }
        let out = Message { entries };
        assert(out@ =~= seal_message(self@, nonce@, pk@, sk@));
        out
    }

    fn decrypt(&self, nonce: &Nonce, pk: &PublicKey, sk: &SecretKey) -> (plain: Result<
        Message,
        CypherError,
    >) {
        let mut entries: Vec<MessageEntry> = Vec::new();
        let mut i: usize = 0;
        while i < self.entries.len()
            invariant
                i <= self.entries@.len(),
                entries@.len() == i,
                forall|j: int|
                    0 <= j < i ==> open_entry(self@[j], nonce@, pk@, sk@) == Some(
                        (#[trigger] entries@[j])@,
                    ),
                forall|v: Seq<EntryView>, seal_pk: Seq<u8>, seal_sk: Seq<u8>, j: int|
                    same_box(pk@, sk@, seal_pk, seal_sk) && #[trigger] seal_message(
                        v,
                        nonce@,
                        seal_pk,
                        seal_sk,
                    ) == self@ && 0 <= j < i ==> (#[trigger] entries@[j])@ == v[j],
            decreases self.entries@.len() - i,
        {
            let ghost sealed_entry = self@[i as int];
            let opening = self.entries[i].decrypt(nonce, pk, sk);
            proof {
                // Where the message is a sealed one, this entry is the
                // sealed form of the entry in the same place.
                assert forall|v: Seq<EntryView>, seal_pk: Seq<u8>, seal_sk: Seq<u8>|
                    same_box(pk@, sk@, seal_pk, seal_sk) && #[trigger] seal_message(
                        v,
                        nonce@,
                        seal_pk,
                        seal_sk,
                    ) == self@ implies opened(opening) == Some(v[i as int]) by {
                    assert(seal_message(v, nonce@, seal_pk, seal_sk).len() == v.len());
                    assert(MessageEntry::sealed(v[i as int], nonce@, seal_pk, seal_sk)
                        == sealed_entry);
                }
            }
            match opening {
                Ok(entry) => {
                    entries.push(entry);
                },
                Err(e) => {
                    assert(open_entry(self@[i as int], nonce@, pk@, sk@) is None);
                    return Err(e);
                },
            }
            i += 1;
        }
        let out = Message { entries };
        proof {
            assert forall|j: int| 0 <= j < self@.len() implies (#[trigger] open_entry(
                self@[j],
                nonce@,
                pk@,
                sk@,
            )) == Some(out@[j]) by {
                assert(out@[j] == out.entries@[j]@);
            }
            assert(out@ =~= open_message(self@, nonce@, pk@, sk@)->0);
            assert forall|v: Seq<EntryView>, seal_pk: Seq<u8>, seal_sk: Seq<u8>|
                same_box(pk@, sk@, seal_pk, seal_sk) && #[trigger] seal_message(
                    v,
                    nonce@,
                    seal_pk,
                    seal_sk,
                ) == self@ implies out@ == v by {
                assert(seal_message(v, nonce@, seal_pk, seal_sk).len() == v.len());
                assert forall|j: int| 0 <= j < v.len() implies out@[j] == v[j] by {
                    assert(out@[j] == out.entries@[j]@);
                }
                assert(out@ =~= v);
            }
        }
        Ok(out)
    }
}

} // verus!
