use nolik::metadata::{Channel, MessageMetadata};
use nolik::pallet::{Error, Event, MessageKey, Pallet};

fn metadata(channels: Vec<Channel>) -> MessageMetadata {
    MessageMetadata { nonce: [1; 24], broker: [2; 32], hash: [3; 32], channels }
}

fn channel(parties: usize) -> Channel {
    Channel { nonce: vec![9; 40], parties: vec![vec![7; 48]; parties] }
}

#[test]
fn well_formed_message_passes() {
    assert_eq!(Pallet::check_message(&[0], &metadata(vec![channel(1)])), Ok(()));
    assert_eq!(
        Pallet::check_message(b"sealed bytes", &metadata(vec![channel(3), channel(3), channel(3)])),
        Ok(())
    );
}

#[test]
fn empty_message_is_malformed() {
    assert_eq!(
        Pallet::check_message(&[], &metadata(vec![channel(1)])),
        Err(Error::MessageMalformed)
    );
    // The message is looked at first.
    assert_eq!(Pallet::check_message(&[], &metadata(vec![])), Err(Error::MessageMalformed));
}

#[test]
fn envelope_without_channels_is_malformed() {
    assert_eq!(Pallet::check_message(&[1], &metadata(vec![])), Err(Error::MetadataMalformed));
}

#[test]
fn channel_with_an_empty_nonce_is_malformed() {
    let mut bad = channel(2);
    bad.nonce.clear();
    assert_eq!(
        Pallet::check_message(&[1], &metadata(vec![channel(2), bad])),
        Err(Error::MetadataMalformed)
    );
}

#[test]
fn channel_without_parties_is_malformed() {
    assert_eq!(
        Pallet::check_message(&[1], &metadata(vec![channel(0)])),
        Err(Error::MetadataMalformed)
    );
}

#[test]
fn channel_with_another_number_of_parties_is_malformed() {
    assert_eq!(
        Pallet::check_message(&[1], &metadata(vec![channel(2), channel(3)])),
        Err(Error::MetadataMalformed)
    );
    assert_eq!(
        Pallet::check_message(&[1], &metadata(vec![channel(1), channel(1)])),
        Err(Error::MetadataMalformed)
    );
    assert_eq!(
        Pallet::check_message(&[1], &metadata(vec![channel(2)])),
        Err(Error::MetadataMalformed)
    );
}

#[test]
fn channel_with_an_empty_party_is_malformed() {
    let mut bad = channel(2);
    bad.parties[1].clear();
    assert_eq!(
        Pallet::check_message(&[1], &metadata(vec![bad, channel(2)])),
        Err(Error::MetadataMalformed)
    );
}

#[test]
fn derived_key_is_the_account_and_the_counter() {
    let account = [0xaa, 0xbb, 0xcc];
    assert_eq!(
        Pallet::derived_key(&account, 0),
        vec![0xaa, 0xbb, 0xcc, 0, 0, 0, 0, 0, 0, 0, 0, 0, 0, 0, 0, 0, 0, 0, 0]
    );
    assert_eq!(
        Pallet::derived_key(&account, 0x0102),
        vec![0xaa, 0xbb, 0xcc, 0x02, 0x01, 0, 0, 0, 0, 0, 0, 0, 0, 0, 0, 0, 0, 0, 0]
    );
    assert_eq!(
        Pallet::derived_key(&[], 0x0f0e0d0c_0b0a0908_07060504_03020100),
        vec![0, 1, 2, 3, 4, 5, 6, 7, 8, 9, 10, 11, 12, 13, 14, 15]
    );
    assert_eq!(Pallet::derived_key(&[], u128::MAX), vec![0xff; 16]);
}

#[test]
fn derived_key_ends_in_the_counter_in_little_endian() {
    let account = [5u8; 32];
    for counter in [0u128, 1, 255, 256, 623_451, u64::MAX as u128 + 1, u128::MAX - 1] {
        let key = Pallet::derived_key(&account, counter);
        assert_eq!(key.len(), 48);
        assert_eq!(&key[..32], &account);
        assert_eq!(&key[32..], &counter.to_le_bytes());
    }
}

#[test]
fn message_key_encodes_as_the_derived_key() {
    let account = [1u8, 2, 3, 4];
    let key = MessageKey { account: &account, counter: 77 };
    assert_eq!(key.encode(), Pallet::derived_key(&account, 77));
}

#[test]
fn sending_counts_the_message_and_names_its_key() {
    let account = [4u8; 32];
    let mut pallet = Pallet::new(0);
    assert_eq!(pallet.message_counter(), 0);

    let first = pallet.send_message(&account, metadata(vec![channel(1)]), b"first");
    assert_eq!(
        first,
        Ok(Event::MessageSent {
            key: Pallet::derived_key(&account, 0),
            metadata: metadata(vec![channel(1)]),
        })
    );
    assert_eq!(pallet.message_counter(), 1);

    let second = pallet.send_message(&account, metadata(vec![channel(1)]), b"second");
    assert_eq!(
        second,
        Ok(Event::MessageSent {
            key: Pallet::derived_key(&account, 1),
            metadata: metadata(vec![channel(1)]),
        })
    );
    assert_eq!(pallet.message_counter(), 2);
}

#[test]
fn sending_a_malformed_message_changes_nothing() {
    let mut pallet = Pallet::new(41);

    assert_eq!(
        pallet.send_message(&[1], metadata(vec![channel(1)]), &[]),
        Err(Error::MessageMalformed)
    );
    assert_eq!(pallet.message_counter(), 41);

    assert_eq!(pallet.send_message(&[1], metadata(vec![]), &[1]), Err(Error::MetadataMalformed));
    assert_eq!(pallet.message_counter(), 41);
}

#[test]
fn sending_stops_when_the_counter_is_full() {
    let mut pallet = Pallet::new(u128::MAX - 1);

    let last = pallet.send_message(&[1], metadata(vec![channel(1)]), &[1]);
    assert_eq!(
        last,
        Ok(Event::MessageSent {
            key: Pallet::derived_key(&[1], u128::MAX - 1),
            metadata: metadata(vec![channel(1)]),
        })
    );
    assert_eq!(pallet.message_counter(), u128::MAX);

    assert_eq!(
        pallet.send_message(&[1], metadata(vec![channel(1)]), &[1]),
        Err(Error::MessageCounterOverflow)
    );
    assert_eq!(pallet.message_counter(), u128::MAX);
}

#[test]
fn a_malformed_message_is_reported_before_a_full_counter() {
    let mut pallet = Pallet::new(u128::MAX);
    assert_eq!(pallet.send_message(&[1], metadata(vec![]), &[1]), Err(Error::MetadataMalformed));
}
