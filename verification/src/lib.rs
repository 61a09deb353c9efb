//! Metadata-private messaging for several recipients.
//!
//! A message body is sealed once for each pair of participants. Beside it
//! travels a metadata envelope: one channel for each participant, sealed by a
//! one-time broker key, from which that participant alone recovers the secret
//! nonce of the message and the list of participants, and a salted hash that
//! commits to every field of the envelope and every entry of the message.

pub mod binding;
pub mod channel;
pub mod commitment;
pub mod cypher;
pub mod hashing;
pub mod keys;
pub mod lemmas;
pub mod messages;
pub mod metadata;
pub mod pallet;
pub mod salsa_box;
