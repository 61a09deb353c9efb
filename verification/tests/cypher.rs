use nolik::cypher::{can_seal, BytesCypher, Cypher, CypherError};
use nolik::keys::{Nonce, PublicKey, SecretKey};
use nolik::messages::{Message, MessageEntry, MessageType};
use sodiumoxide::crypto::box_;

const ALICE_SK: [u8; 32] = [
    0x77, 0x07, 0x6d, 0x0a, 0x73, 0x18, 0xa5, 0x7d, 0x3c, 0x16, 0xc1, 0x72, 0x51, 0xb2, 0x66, 0x45,
    0xdf, 0x4c, 0x2f, 0x87, 0xeb, 0xc0, 0x99, 0x2a, 0xb1, 0x77, 0xfb, 0xa5, 0x1d, 0xb9, 0x2c, 0x2a,
];

const ALICE_PK: [u8; 32] = [
    0x85, 0x20, 0xf0, 0x09, 0x89, 0x30, 0xa7, 0x54, 0x74, 0x8b, 0x7d, 0xdc, 0xb4, 0x3e, 0xf7, 0x5a,
    0x0d, 0xbf, 0x3a, 0x0d, 0x26, 0x38, 0x1a, 0xf4, 0xeb, 0xa4, 0xa9, 0x8e, 0xaa, 0x9b, 0x4e, 0x6a,
];

const BOB_SK: [u8; 32] = [
    0x5d, 0xab, 0x08, 0x7e, 0x62, 0x4a, 0x8a, 0x4b, 0x79, 0xe1, 0x7f, 0x8b, 0x83, 0x80, 0x0e, 0xe6,
    0x6f, 0x3b, 0xb1, 0x29, 0x26, 0x18, 0xb6, 0xfd, 0x1c, 0x2f, 0x8b, 0x27, 0xff, 0x88, 0xe0, 0xeb,
];

const BOB_PK: [u8; 32] = [
    0xde, 0x9e, 0xdb, 0x7d, 0x7b, 0x7d, 0xc1, 0xb4, 0xd3, 0x5b, 0x61, 0xc2, 0xec, 0xe4, 0x35, 0x37,
    0x3f, 0x83, 0x43, 0xc8, 0x5b, 0x78, 0x67, 0x4d, 0xad, 0xfc, 0x7e, 0x14, 0x6f, 0x88, 0x2b, 0x4f,
];

const NONCE: [u8; 24] = [
    0x69, 0x69, 0x6e, 0xe9, 0x55, 0xb6, 0x2b, 0x73, 0xcd, 0x62, 0xbd, 0xa8, 0x75, 0xfc, 0x73, 0xd6,
    0x82, 0x19, 0xe0, 0x03, 0x6b, 0x7a, 0x0b, 0x37,
];

fn key_pair() -> (PublicKey, SecretKey) {
    let (pk, sk) = box_::gen_keypair();
    (PublicKey { bytes: pk.0 }, SecretKey { bytes: sk.0 })
}

fn fresh_nonce() -> Nonce {
    Nonce { bytes: box_::gen_nonce().0 }
}

fn entry(key: &str, value: &str, kind: MessageType) -> MessageEntry {
    MessageEntry { key: key.into(), value: value.into(), kind }
}

#[test]
fn encrypt_decrypt_message() {
    // Encryption and decryption using a Diffie-Hellman algorithm
    let (sender_pk, sender_sk) = key_pair();
    let (receiver_pk, receiver_sk) = key_pair();

    let nonce = fresh_nonce();

    let message = Message {
        entries: vec![MessageEntry {
            key: "key".into(),
            value: "value".into(),
            kind: MessageType::default(),
        }],
    };

    let encrypted_message = message.encrypt(&nonce, &receiver_pk, &sender_sk);
    let decrypted_message = encrypted_message
        .decrypt(&nonce, &sender_pk, &receiver_sk)
        .expect("could not decrypt a test message");

    assert_eq!(message, decrypted_message);
}

#[test]
fn public_key_of_a_known_secret_key() {
    assert_eq!(SecretKey { bytes: ALICE_SK }.public_key(), PublicKey { bytes: ALICE_PK });
    assert_eq!(SecretKey { bytes: BOB_SK }.public_key(), PublicKey { bytes: BOB_PK });
}

#[test]
fn public_key_is_what_libsodium_derives() {
    let (pk, sk) = key_pair();
    assert_eq!(sk.public_key(), pk);
}

#[test]
fn seal_of_known_bytes() {
    let nonce = Nonce { bytes: NONCE };
    let sealed =
        b"value"[..].encrypt(&nonce, &PublicKey { bytes: BOB_PK }, &SecretKey { bytes: ALICE_SK });
    assert_eq!(
        sealed,
        vec![
            0xc5, 0x90, 0x76, 0x8d, 0x91, 0x41, 0x33, 0x94, 0x20, 0xd9, 0xe0, 0x14, 0xb3, 0x65,
            0x66, 0xd5, 0x46, 0xff, 0x08, 0x2f, 0x11
        ]
    );

    let sealed_nothing =
        b""[..].encrypt(&nonce, &PublicKey { bytes: BOB_PK }, &SecretKey { bytes: ALICE_SK });
    assert_eq!(
        sealed_nothing,
        vec![
            0x25, 0x39, 0x12, 0x1d, 0x8e, 0x23, 0x4e, 0x65, 0x2d, 0x65, 0x1f, 0xa4, 0xc8, 0xcf,
            0xf8, 0x80
        ]
    );
}

#[test]
fn open_of_known_bytes() {
    let nonce = Nonce { bytes: NONCE };
    let sealed = [
        0xc5, 0x90, 0x76, 0x8d, 0x91, 0x41, 0x33, 0x94, 0x20, 0xd9, 0xe0, 0x14, 0xb3, 0x65, 0x66,
        0xd5, 0x46, 0xff, 0x08, 0x2f, 0x11,
    ];
    let opened = sealed[..]
        .decrypt(&nonce, &PublicKey { bytes: ALICE_PK }, &SecretKey { bytes: BOB_SK })
        .unwrap();
    assert_eq!(opened, b"value".to_vec());
}

#[test]
fn sealed_bytes_are_what_libsodium_seals() {
    let (_, sender_sk) = key_pair();
    let (receiver_pk, _) = key_pair();
    let nonce = fresh_nonce();
    let data = b"attack at dawn";

    let sealed = data[..].encrypt(&nonce, &receiver_pk, &sender_sk);
    let expected = box_::seal(
        data,
        &box_::Nonce(nonce.bytes),
        &box_::PublicKey(receiver_pk.bytes),
        &box_::SecretKey(sender_sk.bytes),
    );

    assert_eq!(sealed, expected);
    assert_eq!(sealed.len(), data.len() + 16);
    assert_ne!(&sealed[16..], &data[..]);
}

#[test]
fn libsodium_opens_what_is_sealed_here() {
    let (sender_pk, sender_sk) = key_pair();
    let (receiver_pk, receiver_sk) = key_pair();
    let nonce = fresh_nonce();

    let sealed = b"value"[..].encrypt(&nonce, &receiver_pk, &sender_sk);
    let opened = box_::open(
        &sealed,
        &box_::Nonce(nonce.bytes),
        &box_::PublicKey(sender_pk.bytes),
        &box_::SecretKey(receiver_sk.bytes),
    );

    assert_eq!(opened, Ok(b"value".to_vec()));
}

#[test]
fn bytes_round_trip_between_peers() {
    let (sender_pk, sender_sk) = key_pair();
    let (receiver_pk, receiver_sk) = key_pair();
    let nonce = fresh_nonce();

    let sealed = b"some bytes"[..].encrypt(&nonce, &receiver_pk, &sender_sk);
    let opened = sealed[..].decrypt(&nonce, &sender_pk, &receiver_sk).unwrap();

    assert_eq!(opened, b"some bytes".to_vec());
}

#[test]
fn bytes_round_trip_with_one_pair_of_keys() {
    // Sealing and opening derive one shared key from the same two keys,
    // whether or not these belong together.
    let (pk, _) = key_pair();
    let (_, sk) = key_pair();
    let nonce = fresh_nonce();

    let sealed = b"some bytes"[..].encrypt(&nonce, &pk, &sk);
    let opened = sealed[..].decrypt(&nonce, &pk, &sk).unwrap();

    assert_eq!(opened, b"some bytes".to_vec());
}

#[test]
fn message_round_trip_with_one_pair_of_keys() {
    let (pk, _) = key_pair();
    let (_, sk) = key_pair();
    let nonce = fresh_nonce();
    let message = Message {
        entries: vec![
            entry("subject", "hello", MessageType::RawData),
            entry("", "", MessageType::File),
            entry(
                "body",
                "a longer value, with more than one block of sixteen bytes",
                MessageType::File,
            ),
        ],
    };

    let sealed = message.encrypt(&nonce, &pk, &sk);
    let opened = sealed.decrypt(&nonce, &pk, &sk).unwrap();

    assert_eq!(opened, message);
}

#[test]
fn encrypt_keeps_order_count_and_kind() {
    let (receiver_pk, _) = key_pair();
    let (_, sender_sk) = key_pair();
    let nonce = fresh_nonce();
    let message = Message {
        entries: vec![
            entry("first", "1", MessageType::RawData),
            entry("second", "22", MessageType::File),
            entry("third", "333", MessageType::RawData),
        ],
    };

    let sealed = message.encrypt(&nonce, &receiver_pk, &sender_sk);

    assert_eq!(sealed.entries.len(), 3);
    for (plain, sealed) in message.entries.iter().zip(sealed.entries.iter()) {
        assert_eq!(sealed.kind, plain.kind);
        assert_eq!(sealed.key, plain.key[..].encrypt(&nonce, &receiver_pk, &sender_sk));
        assert_eq!(sealed.value, plain.value[..].encrypt(&nonce, &receiver_pk, &sender_sk));
        assert_eq!(sealed.key.len(), plain.key.len() + 16);
        assert_eq!(sealed.value.len(), plain.value.len() + 16);
    }
}

#[test]
fn entry_round_trip() {
    let (sender_pk, sender_sk) = key_pair();
    let (receiver_pk, receiver_sk) = key_pair();
    let nonce = fresh_nonce();
    let plain = entry("key", "value", MessageType::File);

    let sealed = plain.encrypt(&nonce, &receiver_pk, &sender_sk);
    assert_ne!(sealed.key, plain.key);
    assert_ne!(sealed.value, plain.value);
    assert_eq!(sealed.kind, MessageType::File);

    let opened = sealed.decrypt(&nonce, &sender_pk, &receiver_sk).unwrap();
    assert_eq!(opened, plain);
}

#[test]
fn empty_message_is_sealed_and_opened() {
    let (sender_pk, sender_sk) = key_pair();
    let (receiver_pk, receiver_sk) = key_pair();
    let nonce = fresh_nonce();
    let message = Message { entries: vec![] };

    let sealed = message.encrypt(&nonce, &receiver_pk, &sender_sk);
    assert_eq!(sealed, Message { entries: vec![] });

    let opened = sealed.decrypt(&nonce, &sender_pk, &receiver_sk).unwrap();
    assert_eq!(opened, message);
}

#[test]
fn decrypt_with_a_wrong_key_fails_for_the_sender() {
    let (sender_pk, sender_sk) = key_pair();
    let (receiver_pk, _) = key_pair();
    let (_, stranger_sk) = key_pair();
    let nonce = fresh_nonce();

    let sealed = b"value"[..].encrypt(&nonce, &receiver_pk, &sender_sk);
    let opened = sealed[..].decrypt(&nonce, &sender_pk, &stranger_sk);

    assert!(matches!(opened, Err(CypherError::DecryptionFailed(pk)) if pk == sender_pk));
}

#[test]
fn decrypt_with_a_wrong_nonce_fails() {
    let (sender_pk, sender_sk) = key_pair();
    let (receiver_pk, receiver_sk) = key_pair();
    let nonce = Nonce { bytes: [1; 24] };
    let other_nonce = Nonce { bytes: [2; 24] };

    let sealed = b"value"[..].encrypt(&nonce, &receiver_pk, &sender_sk);
    let opened = sealed[..].decrypt(&other_nonce, &sender_pk, &receiver_sk);

    assert!(matches!(opened, Err(CypherError::DecryptionFailed(pk)) if pk == sender_pk));
}

#[test]
fn decrypt_of_tampered_bytes_fails() {
    let (sender_pk, sender_sk) = key_pair();
    let (receiver_pk, receiver_sk) = key_pair();
    let nonce = fresh_nonce();

    let mut sealed = b"value"[..].encrypt(&nonce, &receiver_pk, &sender_sk);
    let last = sealed.len() - 1;
    sealed[last] ^= 1;
    let opened = sealed[..].decrypt(&nonce, &sender_pk, &receiver_sk);

    assert!(matches!(opened, Err(CypherError::DecryptionFailed(pk)) if pk == sender_pk));
}

#[test]
fn decrypt_of_bytes_shorter_than_a_tag_fails() {
    let (sender_pk, _) = key_pair();
    let (_, receiver_sk) = key_pair();
    let nonce = fresh_nonce();

    for len in 0..16 {
        let short = vec![0u8; len];
        let opened = short[..].decrypt(&nonce, &sender_pk, &receiver_sk);
        assert!(matches!(opened, Err(CypherError::DecryptionFailed(pk)) if pk == sender_pk));
    }
}

#[test]
fn message_with_one_bad_entry_fails_as_a_whole() {
    let (sender_pk, sender_sk) = key_pair();
    let (receiver_pk, receiver_sk) = key_pair();
    let nonce = fresh_nonce();
    let message = Message {
        entries: vec![
            entry("first", "1", MessageType::RawData),
            entry("second", "22", MessageType::RawData),
        ],
    };

    let mut sealed = message.encrypt(&nonce, &receiver_pk, &sender_sk);
    sealed.entries[1].value[0] ^= 0x80;
    let opened = sealed.decrypt(&nonce, &sender_pk, &receiver_sk);

    assert!(matches!(opened, Err(CypherError::DecryptionFailed(pk)) if pk == sender_pk));
}

#[test]
fn default_kind_is_raw_data() {
    assert_eq!(MessageType::default(), MessageType::RawData);
}

#[test]
fn what_fits_into_memory_can_be_sealed() {
    assert!(can_seal(b""));
    assert!(can_seal(b"value"));
    assert!(can_seal(&vec![0u8; 1 << 16]));
    assert!(entry("key", "value", MessageType::RawData).can_seal());
    assert!(Message { entries: vec![] }.can_seal());
    assert!(Message {
        entries: vec![
            entry("key", "value", MessageType::RawData),
            entry("", "", MessageType::File)
        ]
    }
    .can_seal());
}
