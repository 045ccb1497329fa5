//! The records kept about observed and deleted messages.

use vstd::prelude::*;

verus! {

/// What is remembered of a deleted message: who wrote it, what it said and
/// when it was sent. The timestamp type `T` is carried through untouched.
#[derive(Clone, Debug, PartialEq, Eq)]
pub struct SnipeRecord<T> {
    pub author: String,
    pub content: String,
    pub timestamp: T,
}

/// Mathematical value of a [`SnipeRecord`].
pub ghost struct SnipeRecordView<T> {
    pub author: Seq<char>,
    pub content: Seq<char>,
    pub timestamp: T,
}

impl<T> View for SnipeRecord<T> {
    type V = SnipeRecordView<T>;

    open spec fn view(&self) -> SnipeRecordView<T> {
        SnipeRecordView {
            author: self.author@,
            content: self.content@,
            timestamp: self.timestamp,
        }
    }
}

/// An observed message: its id within the channel and what a later
/// deletion would need to report.
#[derive(Clone, Debug, PartialEq, Eq)]
pub struct MessageRecord<T> {
    pub id: u64,
    pub author: String,
    pub content: String,
    pub timestamp: T,
}

/// Mathematical value of a [`MessageRecord`].
pub ghost struct MessageRecordView<T> {
    pub id: u64,
    pub author: Seq<char>,
    pub content: Seq<char>,
    pub timestamp: T,
}

impl<T> MessageRecordView<T> {
    /// The part of the record that survives a deletion.
    pub open spec fn summary(self) -> SnipeRecordView<T> {
        SnipeRecordView { author: self.author, content: self.content, timestamp: self.timestamp }
    }
}

impl<T> View for MessageRecord<T> {
    type V = MessageRecordView<T>;

    open spec fn view(&self) -> MessageRecordView<T> {
        MessageRecordView {
            id: self.id,
            author: self.author@,
            content: self.content@,
            timestamp: self.timestamp,
        }
    }
}

impl<T> MessageRecord<T> {
    /// Builds a record from its four parts.
    pub fn new(id: u64, author: String, content: String, timestamp: T) -> (r: Self)
        ensures
            r@ == (MessageRecordView { id, author: author@, content: content@, timestamp }),
    {
        MessageRecord { id, author, content, timestamp }
    }

    /// Drops the id, keeping what a snipe reports.
    pub fn into_snipe(self) -> (s: SnipeRecord<T>)
        ensures
            s@ == self@.summary(),
    {
        SnipeRecord { author: self.author, content: self.content, timestamp: self.timestamp }
    }
}

} // verus!
