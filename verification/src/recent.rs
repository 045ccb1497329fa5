//! The bounded per-channel buffer of recently observed messages.

use vstd::prelude::*;
use std::collections::hash_map::Entry;
use std::collections::HashMap;
use std::collections::VecDeque;
use crate::record::MessageRecord;
use crate::record::MessageRecordView;
use crate::CAPACITY;

verus! {

/// The last `n` elements of `s`, in order; all of `s` when it has no more
/// than `n`.
pub open spec fn keep_last<A>(s: Seq<A>, n: nat) -> Seq<A> {
    if s.len() <= n {
        s
    } else {
        s.subrange(s.len() - n, s.len() as int)
    }
}

/// A channel's buffer after one more message arrived: the newcomer goes to
/// the back and only the latest `CAPACITY` records stay.
pub open spec fn after_record<T>(buf: Seq<MessageRecordView<T>>, rec: MessageRecordView<T>) -> Seq<
    MessageRecordView<T>,
> {
    keep_last(buf.push(rec), CAPACITY as nat)
}

/// Index of the oldest record in `buf` that carries `id`, if there is one.
pub open spec fn first_match<T>(buf: Seq<MessageRecordView<T>>, id: u64) -> Option<int>
    decreases buf.len(),
{
    if buf.len() == 0 {
        None
    } else if buf.last().id == id {
        match first_match(buf.drop_last(), id) {
            Some(i) => Some(i),
            None => Some(buf.len() - 1),
        }
    } else {
        first_match(buf.drop_last(), id)
    }
}

/// The record that a lookup of `id` hands out.
pub open spec fn taken<T>(buf: Seq<MessageRecordView<T>>, id: u64) -> Option<MessageRecordView<T>> {
    match first_match(buf, id) {
        Some(i) => Some(buf[i]),
        None => None,
    }
}

/// A channel's buffer after a lookup of `id`: the matched record is gone,
/// everything else keeps its place.
pub open spec fn after_take<T>(buf: Seq<MessageRecordView<T>>, id: u64) -> Seq<MessageRecordView<T>> {
    match first_match(buf, id) {
        Some(i) => buf.remove(i),
        None => buf,
    }
}

/// `first_match` finds exactly the least index whose record carries `id`.
pub proof fn lemma_first_match<T>(buf: Seq<MessageRecordView<T>>, id: u64)
    ensures
        match first_match(buf, id) {
            Some(i) => 0 <= i < buf.len() && buf[i].id == id && forall|j: int|
                0 <= j < i ==> buf[j].id != id,
            None => forall|j: int| 0 <= j < buf.len() ==> buf[j].id != id,
        },
    decreases buf.len(),
{
    if buf.len() > 0 {
        let front = buf.drop_last();
        lemma_first_match(front, id);
        assert(forall|j: int| 0 <= j < front.len() ==> front[j] == buf[j]);
    }
}

/// Any index known to be the least one carrying `id` is the one
/// `first_match` reports.
pub proof fn lemma_first_match_is<T>(buf: Seq<MessageRecordView<T>>, id: u64, i: int)
    requires
        0 <= i < buf.len(),
        buf[i].id == id,
        forall|j: int| 0 <= j < i ==> buf[j].id != id,
    ensures
        first_match(buf, id) == Some(i),
{
    lemma_first_match(buf, id);
}

/// A channel's buffer after the messages `ms` arrived one after the other.
pub open spec fn after_record_all<T>(
    buf: Seq<MessageRecordView<T>>,
    ms: Seq<MessageRecordView<T>>,
) -> Seq<MessageRecordView<T>>
    decreases ms.len(),
{
    if ms.len() == 0 {
        buf
    } else {
        after_record(after_record_all(buf, ms.drop_last()), ms.last())
    }
}

/// No two records of `buf` carry the same id.
pub open spec fn distinct_ids<T>(buf: Seq<MessageRecordView<T>>) -> bool {
    forall|i: int, j: int|
        0 <= i < buf.len() && 0 <= j < buf.len() && i != j ==> buf[i].id != buf[j].id
}

/// Trimming to the last `n` before and after a push gives what trimming
/// once after the push gives.
proof fn lemma_keep_last_push<A>(s: Seq<A>, x: A, n: nat)
    ensures
        keep_last(keep_last(s, n).push(x), n) =~= keep_last(s.push(x), n),
{
}

/// Recording messages one by one keeps exactly the latest `CAPACITY` of all
/// that the buffer has held and received, in arrival order. Once more than
/// `CAPACITY` have come together, the buffer is full and its record at
/// place `i` is the one that arrived `CAPACITY - i` from the end.
pub proof fn lemma_latest_are_kept<T>(buf: Seq<MessageRecordView<T>>, ms: Seq<MessageRecordView<T>>)
    requires
        buf.len() <= CAPACITY,
    ensures
        after_record_all(buf, ms) == keep_last(buf + ms, CAPACITY as nat),
        after_record_all(buf, ms).len() <= CAPACITY,
        (buf + ms).len() <= CAPACITY ==> after_record_all(buf, ms) == buf + ms,
        (buf + ms).len() > CAPACITY ==> after_record_all(buf, ms).len() == CAPACITY && forall|
            i: int,
        |
            0 <= i < CAPACITY ==> after_record_all(buf, ms)[i] == (buf + ms)[(buf + ms).len()
                - CAPACITY + i],
    decreases ms.len(),
{
    if ms.len() == 0 {
        assert(buf + ms =~= buf);
    } else {
        let front = ms.drop_last();
        lemma_latest_are_kept(buf, front);
        lemma_keep_last_push(buf + front, ms.last(), CAPACITY as nat);
        assert((buf + front).push(ms.last()) =~= buf + ms);
    }
}

/// A lookup succeeds exactly when some buffered record carries the id, and
/// what it hands out carries that id.
pub proof fn lemma_taken_iff_present<T>(buf: Seq<MessageRecordView<T>>, id: u64)
    ensures
        taken(buf, id) is Some <==> exists|i: int| 0 <= i < buf.len() && buf[i].id == id,
        taken(buf, id) matches Some(r) ==> r.id == id,
        taken(buf, id) is Some ==> after_take(buf, id).len() == buf.len() - 1,
{
    lemma_first_match(buf, id);
}

/// A lookup of an id that no buffered record carries finds nothing and
/// leaves the buffer as it was.
pub proof fn lemma_take_absent<T>(buf: Seq<MessageRecordView<T>>, id: u64)
    requires
        forall|i: int| 0 <= i < buf.len() ==> buf[i].id != id,
    ensures
        taken(buf, id) is None,
        after_take(buf, id) == buf,
{
    lemma_first_match(buf, id);
}

/// A record is consumed by the lookup that finds it: when at most one
/// buffered record carries `id`, a second lookup of `id` finds nothing.
pub proof fn lemma_take_twice<T>(buf: Seq<MessageRecordView<T>>, id: u64)
    requires
        forall|i: int, j: int|
            0 <= i < buf.len() && 0 <= j < buf.len() && buf[i].id == id && buf[j].id == id ==> i
                == j,
    ensures
        taken(after_take(buf, id), id) is None,
        after_take(after_take(buf, id), id) == after_take(buf, id),
{
    lemma_first_match(buf, id);
    let rest = after_take(buf, id);
    match first_match(buf, id) {
        Some(i) => {
            assert forall|j: int| 0 <= j < rest.len() implies rest[j].id != id by {
                if j < i {
                    assert(rest[j] == buf[j]);
                } else {
                    assert(rest[j] == buf[j + 1]);
                }
            }
        },
        None => {},
    }
    lemma_take_absent(rest, id);
}

/// A message that has been pushed out by later ones cannot be found any
/// more: after messages with ids of their own arrived, a lookup of the id
/// of any but the latest `CAPACITY` finds nothing and changes nothing.
pub proof fn lemma_evicted_is_absent<T>(
    buf: Seq<MessageRecordView<T>>,
    ms: Seq<MessageRecordView<T>>,
    k: int,
)
    requires
        buf.len() <= CAPACITY,
        distinct_ids(buf + ms),
        0 <= k < (buf + ms).len() - CAPACITY,
    ensures
        taken(after_record_all(buf, ms), (buf + ms)[k].id) is None,
        after_take(after_record_all(buf, ms), (buf + ms)[k].id) == after_record_all(buf, ms),
{
    let all = buf + ms;
    let kept = after_record_all(buf, ms);
    lemma_latest_are_kept(buf, ms);
    assert forall|i: int| 0 <= i < kept.len() implies kept[i].id != all[k].id by {
        assert(kept[i] == all[all.len() - CAPACITY + i]);
    }
    lemma_take_absent(kept, all[k].id);
}

/// No recorded message is lost while it is among the latest `CAPACITY`:
/// in whatever order the messages arrived, a lookup of the id of one of
/// them finds a record with that id, and finds that very message when the
/// ids are distinct.
pub proof fn lemma_recorded_is_found<T>(
    buf: Seq<MessageRecordView<T>>,
    ms: Seq<MessageRecordView<T>>,
    k: int,
)
    requires
        buf.len() <= CAPACITY,
        0 <= k < (buf + ms).len(),
        (buf + ms).len() - CAPACITY <= k,
    ensures
        taken(after_record_all(buf, ms), (buf + ms)[k].id) is Some,
        distinct_ids(buf + ms) ==> taken(after_record_all(buf, ms), (buf + ms)[k].id) == Some(
            (buf + ms)[k],
        ),
{
    let all = buf + ms;
    let kept = after_record_all(buf, ms);
    let id = all[k].id;
    lemma_latest_are_kept(buf, ms);
    let at = if all.len() <= CAPACITY {
        k
    } else {
        k - (all.len() - CAPACITY)
    };
    assert(0 <= at < kept.len() && kept[at] == all[k]);
    lemma_first_match(kept, id);
    if distinct_ids(all) {
        let i = first_match(kept, id).unwrap();
        let from = if all.len() <= CAPACITY {
            i
        } else {
            i + (all.len() - CAPACITY)
        };
        assert(kept[i] == all[from]);
        assert(from == k);
    }
}

/// The records of one buffer as mathematical values, oldest first.
pub open spec fn views<T>(buf: Seq<MessageRecord<T>>) -> Seq<MessageRecordView<T>> {
    buf.map_values(|r: MessageRecord<T>| r@)
}

/// Scans one buffer from the oldest record on and removes the first record
/// that carries `id`.
fn take_from<T>(buf: &mut VecDeque<MessageRecord<T>>, id: u64) -> (found: Option<MessageRecord<T>>)
    ensures
        match found {
            Some(r) => taken(views(old(buf)@), id) == Some(r@),
            None => taken(views(old(buf)@), id) is None,
        },
        views(final(buf)@) == after_take(views(old(buf)@), id),
        final(buf)@.len() <= old(buf)@.len(),
{
    let ghost before = views(buf@);
    let n: usize = buf.len();
    let mut i: usize = 0;
    while i < n && buf[i].id != id
        invariant
            n == buf@.len(),
            i <= n,
            before == views(buf@),
            forall|j: int| 0 <= j < i ==> before[j].id != id,
        decreases n - i,
    {
        i += 1;
    }
    if i < n {
        proof {
            lemma_first_match_is(before, id, i as int);
        }
        let found = buf.remove(i);
        assert(views(buf@) =~= before.remove(i as int));
        found
    } else {
        proof {
            lemma_first_match(before, id);
        }
        None
    }
}

/// Recently observed messages, per channel, oldest first.
pub struct RecentCache<T> {
    channels: HashMap<u64, VecDeque<MessageRecord<T>>>,
}

impl<T> RecentCache<T> {
    #[verifier::type_invariant]
    spec fn bounded(self) -> bool {
        forall|c: u64| #[trigger]
            self.channels@.contains_key(c) ==> self.channels@[c]@.len() <= CAPACITY
    }

    /// The records currently buffered for `channel`, oldest first.
    pub closed spec fn messages(self, channel: u64) -> Seq<MessageRecordView<T>> {
        if self.channels@.contains_key(channel) {
            views(self.channels@[channel]@)
        } else {
            Seq::empty()
        }
    }

    /// A cache that has seen nothing.
    pub fn new() -> (cache: Self)
        ensures
            forall|c: u64| cache.messages(c) == Seq::<MessageRecordView<T>>::empty(),
    {
        RecentCache { channels: HashMap::new() }
    }

    /// Remembers `rec` as the newest message of `channel`. When the channel
    /// already holds `CAPACITY` records the oldest one is dropped. Other
    /// channels are untouched.
    pub fn record(&mut self, channel: u64, rec: MessageRecord<T>)
        ensures
            final(self).messages(channel) == after_record(old(self).messages(channel), rec@),
            forall|c: u64| c != channel ==> final(self).messages(c) == old(self).messages(c),
            forall|c: u64| final(self).messages(c).len() <= CAPACITY,
    {
        proof {
            use_type_invariant(&*self);
        }
        let mut channels = self.lend();
        let buf = channels.entry(channel).or_insert(VecDeque::new());
        buf.push_back(rec);
        if buf.len() > CAPACITY {
            buf.pop_front();
        }
        self.channels = channels;
    }

    /// Looks for the oldest record of `channel` that carries `id`. When there
    /// is one it is removed from the buffer and handed out, so it cannot be
    /// matched a second time; the records around it keep their order. When
    /// there is none the answer is `None` and nothing changes. Other
    /// channels are untouched either way.
    pub fn take_by_id(&mut self, channel: u64, id: u64) -> (found: Option<MessageRecord<T>>)
        ensures
            match found {
                Some(r) => taken(old(self).messages(channel), id) == Some(r@),
                None => taken(old(self).messages(channel), id) is None,
            },
            final(self).messages(channel) == after_take(old(self).messages(channel), id),
            forall|c: u64| c != channel ==> final(self).messages(c) == old(self).messages(c),
            forall|c: u64| final(self).messages(c).len() <= CAPACITY,
    {
        proof {
            use_type_invariant(&*self);
        }
        let mut channels = self.lend();
        let found = match channels.entry(channel) {
            Entry::Occupied(slot) => take_from(slot.into_mut(), id),
            Entry::Vacant(_) => None,
        };
        self.channels = channels;
        found
    }

    /// How many records are buffered for `channel`: never more than
    /// `CAPACITY`.
    pub fn len(&self, channel: u64) -> (n: usize)
        ensures
            n == self.messages(channel).len(),
            n <= CAPACITY,
    {
        proof {
            use_type_invariant(self);
        }
        match self.channels.get(&channel) {
            Some(buf) => buf.len(),
            None => 0,
        }
    }

    /// The record at place `index` of the buffer of `channel`, counted from
    /// the oldest, which is at 0; `None` past the newest.
    pub fn get(&self, channel: u64, index: usize) -> (found: Option<&MessageRecord<T>>)
        ensures
            match found {
                Some(r) => index < self.messages(channel).len() && r@ == self.messages(
                    channel,
                )[index as int],
                None => index >= self.messages(channel).len(),
            },
    {
        match self.channels.get(&channel) {
            Some(buf) => if index < buf.len() {
                Some(&buf[index])
            } else {
                None
            },
            None => None,
        }
    }

    /// Moves the map out for editing and leaves an empty one behind, so that
    /// the bound on the buffers is asked of the edited map only once it is
    /// put back.
    fn lend(&mut self) -> (channels: HashMap<u64, VecDeque<MessageRecord<T>>>)
        ensures
            channels == old(self).channels,
            final(self).channels@ == Map::<u64, VecDeque<MessageRecord<T>>>::empty(),
    {
        let mut channels = HashMap::new();
        core::mem::swap(&mut self.channels, &mut channels);
        channels
    }
}

} // verus!
