use std::sync::Arc;

use msnipe::recent::RecentCache;
use msnipe::record::MessageRecord;
use tokio::sync::Mutex;

fn run_concurrent_records(n: u64, wanted: u64) {
    let runtime = tokio::runtime::Builder::new_multi_thread().worker_threads(4).build().unwrap();
    runtime.block_on(async {
        let cache = Arc::new(Mutex::new(RecentCache::<i64>::new()));
        let mut tasks = Vec::new();
        for id in 1..=n {
            let cache = Arc::clone(&cache);
            tasks.push(tokio::spawn(async move {
                let rec = MessageRecord::new(id, format!("user{id}"), format!("text {id}"), id as i64);
                cache.lock().await.record(3, rec);
            }));
        }
        for task in tasks {
            task.await.unwrap();
        }
        let mut cache = cache.lock().await;
        assert_eq!(cache.len(3) as u64, n);
        let got = cache.take_by_id(3, wanted).unwrap();
        assert_eq!(got.content, format!("text {wanted}"));
        assert_eq!(cache.len(3) as u64, n - 1);
    });
}

#[test]
fn concurrent_records_lose_nothing() {
    for wanted in 1..=20u64 {
        run_concurrent_records(20, wanted);
    }
}

#[test]
fn concurrent_records_of_a_few() {
    run_concurrent_records(1, 1);
    run_concurrent_records(7, 4);
}
