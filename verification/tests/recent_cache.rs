use msnipe::recent::RecentCache;
use msnipe::record::MessageRecord;
use msnipe::CAPACITY;

fn msg(id: u64) -> MessageRecord<i64> {
    MessageRecord::new(id, format!("user{id}"), format!("text {id}"), 1_000 + id as i64)
}

fn ids(cache: &RecentCache<i64>, channel: u64) -> Vec<u64> {
    let mut out = Vec::new();
    let mut i = 0;
    while let Some(r) = cache.get(channel, i) {
        out.push(r.id);
        i += 1;
    }
    out
}

#[test]
fn capacity_is_twenty() {
    assert_eq!(CAPACITY, 20);
}

#[test]
fn new_cache_is_empty_everywhere() {
    let cache: RecentCache<i64> = RecentCache::new();
    assert_eq!(cache.len(0), 0);
    assert_eq!(cache.len(u64::MAX), 0);
    assert!(cache.get(5, 0).is_none());
}

#[test]
fn record_keeps_arrival_order() {
    let mut cache = RecentCache::new();
    for id in [5u64, 3, 9] {
        cache.record(1, msg(id));
    }
    assert_eq!(ids(&cache, 1), vec![5, 3, 9]);
    assert_eq!(cache.get(1, 1), Some(&msg(3)));
    assert!(cache.get(1, 3).is_none());
}

#[test]
fn record_up_to_capacity_keeps_all() {
    let mut cache = RecentCache::new();
    for id in 1..=20u64 {
        cache.record(1, msg(id));
    }
    assert_eq!(cache.len(1), 20);
    assert_eq!(ids(&cache, 1), (1..=20).collect::<Vec<u64>>());
}

#[test]
fn record_past_capacity_evicts_oldest() {
    let mut cache = RecentCache::new();
    for id in 1..=21u64 {
        cache.record(1, msg(id));
    }
    assert_eq!(cache.len(1), 20);
    assert_eq!(ids(&cache, 1), (2..=21).collect::<Vec<u64>>());
}

#[test]
fn record_many_keeps_most_recent_twenty_in_order() {
    let mut cache = RecentCache::new();
    for id in 1..=57u64 {
        cache.record(4, msg(id));
        assert!(cache.len(4) <= CAPACITY);
    }
    assert_eq!(ids(&cache, 4), (38..=57).collect::<Vec<u64>>());
    assert_eq!(cache.get(4, 0), Some(&msg(38)));
    assert_eq!(cache.get(4, 19), Some(&msg(57)));
}

#[test]
fn record_does_not_deduplicate() {
    let mut cache = RecentCache::new();
    cache.record(1, msg(7));
    cache.record(1, msg(7));
    assert_eq!(ids(&cache, 1), vec![7, 7]);
}

#[test]
fn channels_do_not_share_buffers() {
    let mut cache = RecentCache::new();
    for id in 1..=25u64 {
        cache.record(1, msg(id));
    }
    cache.record(2, msg(100));
    assert_eq!(cache.len(1), 20);
    assert_eq!(ids(&cache, 2), vec![100]);
    assert!(cache.take_by_id(2, 25).is_none());
    assert_eq!(cache.take_by_id(1, 25), Some(msg(25)));
    assert_eq!(ids(&cache, 2), vec![100]);
}

#[test]
fn take_by_id_returns_the_record() {
    let mut cache = RecentCache::new();
    cache.record(1, MessageRecord::new(1, "alice".to_string(), "hi".to_string(), 42i64));
    let got = cache.take_by_id(1, 1).unwrap();
    assert_eq!(got.id, 1);
    assert_eq!(got.author, "alice");
    assert_eq!(got.content, "hi");
    assert_eq!(got.timestamp, 42);
    assert_eq!(cache.len(1), 0);
}

#[test]
fn take_by_id_twice_returns_none() {
    let mut cache = RecentCache::new();
    for id in 1..=5u64 {
        cache.record(1, msg(id));
    }
    assert_eq!(cache.take_by_id(1, 3), Some(msg(3)));
    assert_eq!(cache.take_by_id(1, 3), None);
    assert_eq!(ids(&cache, 1), vec![1, 2, 4, 5]);
}

#[test]
fn take_by_id_finds_any_position() {
    for wanted in 1..=20u64 {
        let mut cache = RecentCache::new();
        for id in 1..=20u64 {
            cache.record(1, msg(id));
        }
        assert_eq!(cache.take_by_id(1, wanted), Some(msg(wanted)));
        let rest: Vec<u64> = (1..=20).filter(|id| *id != wanted).collect();
        assert_eq!(ids(&cache, 1), rest);
    }
}

#[test]
fn take_by_id_unknown_id_leaves_buffer() {
    let mut cache = RecentCache::new();
    for id in 1..=5u64 {
        cache.record(1, msg(id));
    }
    assert_eq!(cache.take_by_id(1, 99), None);
    assert_eq!(ids(&cache, 1), vec![1, 2, 3, 4, 5]);
}

#[test]
fn take_by_id_unknown_channel() {
    let mut cache: RecentCache<i64> = RecentCache::new();
    assert_eq!(cache.take_by_id(9, 1), None);
    assert_eq!(cache.len(9), 0);
}

#[test]
fn take_by_id_evicted_id_is_gone() {
    let mut cache = RecentCache::new();
    for id in 1..=21u64 {
        cache.record(1, msg(id));
    }
    assert_eq!(cache.take_by_id(1, 1), None);
    assert_eq!(ids(&cache, 1), (2..=21).collect::<Vec<u64>>());
}

#[test]
fn take_by_id_takes_oldest_of_duplicates() {
    let mut cache = RecentCache::new();
    cache.record(1, MessageRecord::new(7, "a".to_string(), "first".to_string(), 1i64));
    cache.record(1, msg(8));
    cache.record(1, MessageRecord::new(7, "b".to_string(), "second".to_string(), 2i64));
    assert_eq!(cache.take_by_id(1, 7).unwrap().content, "first");
    assert_eq!(ids(&cache, 1), vec![8, 7]);
    assert_eq!(cache.take_by_id(1, 7).unwrap().content, "second");
    assert_eq!(cache.take_by_id(1, 7), None);
}

#[test]
fn take_then_record_refills() {
    let mut cache = RecentCache::new();
    for id in 1..=20u64 {
        cache.record(1, msg(id));
    }
    assert!(cache.take_by_id(1, 10).is_some());
    cache.record(1, msg(21));
    assert_eq!(cache.len(1), 20);
    assert_eq!(cache.get(1, 0), Some(&msg(1)));
    cache.record(1, msg(22));
    assert_eq!(cache.get(1, 0), Some(&msg(2)));
    assert_eq!(cache.get(1, 19), Some(&msg(22)));
}

#[test]
fn every_recent_message_is_found() {
    let mut cache = RecentCache::new();
    for id in [14u64, 2, 9, 30, 11, 5] {
        cache.record(1, msg(id));
    }
    for id in [5u64, 14, 30, 2, 11, 9] {
        assert_eq!(cache.take_by_id(1, id), Some(msg(id)));
    }
    assert_eq!(cache.len(1), 0);
}

#[test]
fn into_snipe_drops_the_id() {
    let s = MessageRecord::new(3, "bob".to_string(), "bye".to_string(), 77i64).into_snipe();
    assert_eq!(s.author, "bob");
    assert_eq!(s.content, "bye");
    assert_eq!(s.timestamp, 77);
}
