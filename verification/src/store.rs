//! The per-channel slot holding the most recently deleted message.

use vstd::prelude::*;
use std::collections::HashMap;
use crate::record::SnipeRecord;
use crate::record::SnipeRecordView;

verus! {

/// The slots after a deletion in `channel` was resolved to `rec`: whatever
/// the channel held before is replaced.
pub open spec fn after_set<T>(
    slots: Map<u64, SnipeRecordView<T>>,
    channel: u64,
    rec: SnipeRecordView<T>,
) -> Map<u64, SnipeRecordView<T>> {
    slots.insert(channel, rec)
}

/// What a query of `channel` reports.
pub open spec fn lookup<T>(slots: Map<u64, SnipeRecordView<T>>, channel: u64) -> Option<
    SnipeRecordView<T>,
> {
    if slots.contains_key(channel) {
        Some(slots[channel])
    } else {
        None
    }
}

/// The slots after the deletions `sets`, each a channel with the record it
/// was resolved to, took place one after the other.
pub open spec fn after_sets<T>(
    slots: Map<u64, SnipeRecordView<T>>,
    sets: Seq<(u64, SnipeRecordView<T>)>,
) -> Map<u64, SnipeRecordView<T>>
    decreases sets.len(),
{
    if sets.len() == 0 {
        slots
    } else {
        after_set(after_sets(slots, sets.drop_last()), sets.last().0, sets.last().1)
    }
}

/// A query right after a deletion reports exactly the record of that
/// deletion, and no other channel's answer changes.
pub proof fn lemma_set_then_get<T>(
    slots: Map<u64, SnipeRecordView<T>>,
    channel: u64,
    rec: SnipeRecordView<T>,
)
    ensures
        lookup(after_set(slots, channel, rec), channel) == Some(rec),
        forall|c: u64| c != channel ==> lookup(after_set(slots, channel, rec), c) == lookup(slots, c),
{
}

/// The last deletion wins: of two deletions in a row in one channel only
/// the second is remembered, as if the first had never been.
pub proof fn lemma_last_set_wins<T>(
    slots: Map<u64, SnipeRecordView<T>>,
    channel: u64,
    first: SnipeRecordView<T>,
    second: SnipeRecordView<T>,
)
    ensures
        lookup(after_set(after_set(slots, channel, first), channel, second), channel) == Some(
            second,
        ),
        after_set(after_set(slots, channel, first), channel, second) == after_set(
            slots,
            channel,
            second,
        ),
{
    assert(after_set(after_set(slots, channel, first), channel, second) =~= after_set(
        slots,
        channel,
        second,
    ));
}

/// A channel in which no deletion was resolved has nothing to report,
/// whatever happened in other channels since the store was empty.
pub proof fn lemma_get_without_set<T>(sets: Seq<(u64, SnipeRecordView<T>)>, channel: u64)
    requires
        forall|i: int| 0 <= i < sets.len() ==> sets[i].0 != channel,
    ensures
        lookup(after_sets(Map::<u64, SnipeRecordView<T>>::empty(), sets), channel) is None,
    decreases sets.len(),
{
    if sets.len() > 0 {
        let front = sets.drop_last();
        assert(forall|i: int| 0 <= i < front.len() ==> front[i] == sets[i]);
        lemma_get_without_set(front, channel);
    }
}

/// The last deleted message of each channel, at most one per channel.
pub struct SnipeStore<T> {
    slots: HashMap<u64, SnipeRecord<T>>,
}

impl<T> View for SnipeStore<T> {
    type V = Map<u64, SnipeRecordView<T>>;

    closed spec fn view(&self) -> Map<u64, SnipeRecordView<T>> {
        self.slots@.map_values(|r: SnipeRecord<T>| r@)
    }
}

impl<T> SnipeStore<T> {
    /// A store in which no deletion has been resolved yet.
    pub fn new() -> (store: Self)
        ensures
            store@ == Map::<u64, SnipeRecordView<T>>::empty(),
    {
        let store = SnipeStore { slots: HashMap::new() };
        assert(store@ =~= Map::<u64, SnipeRecordView<T>>::empty());
        store
    }

    /// Makes the given message the last deleted one of `channel`,
    /// overwriting any earlier record of that channel.
    pub fn set(&mut self, channel: u64, author: String, content: String, timestamp: T)
        ensures
            final(self)@ == after_set(
                old(self)@,
                channel,
                SnipeRecordView { author: author@, content: content@, timestamp },
            ),
    {
        let rec = SnipeRecord { author, content, timestamp };
        self.slots.insert(channel, rec);
        assert(self@ =~= after_set(old(self)@, channel, rec@));
    }

    /// The last deleted message of `channel`, or `None` when no deletion has
    /// been resolved there.
    pub fn get(&self, channel: u64) -> (found: Option<&SnipeRecord<T>>)
        ensures
            match found {
                Some(r) => lookup(self@, channel) == Some(r@),
                None => lookup(self@, channel) is None,
            },
    {
        self.slots.get(&channel)
    }
}

} // verus!
