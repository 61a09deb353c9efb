//! Messages: ordered lists of typed key/value entries.

use vstd::prelude::*;

verus! {

/// What kind of payload an entry carries. The tag travels in the clear.
#[derive(Clone, Copy, Debug, PartialEq, Eq, Structural)]
pub enum MessageType {
    /// Bytes that mean what the participants agree they mean.
    RawData,
    /// The content of a file.
    File,
}

impl Default for MessageType {
    fn default() -> (kind: MessageType)
        ensures
            kind == MessageType::RawData,
    {
        MessageType::RawData
    }
}

/// One entry of a message.
#[derive(Clone, Debug, PartialEq, Eq)]
pub struct MessageEntry {
    pub key: Vec<u8>,
    pub value: Vec<u8>,
    pub kind: MessageType,
}

/// A message: its entries, in order.
#[derive(Clone, Debug, PartialEq, Eq)]
pub struct Message {
    pub entries: Vec<MessageEntry>,
}

/// An entry as plain data.
pub struct EntryView {
    pub key: Seq<u8>,
    pub value: Seq<u8>,
    pub kind: MessageType,
}

impl View for MessageEntry {
    type V = EntryView;

    open spec fn view(&self) -> EntryView {
        EntryView { key: self.key@, value: self.value@, kind: self.kind }
    }
}

impl View for Message {
    type V = Seq<EntryView>;

    open spec fn view(&self) -> Seq<EntryView> {
        Seq::new(self.entries@.len(), |i: int| self.entries@[i]@)
    }
}

} // verus!
