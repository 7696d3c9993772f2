use std::sync::{Arc, Mutex};

use rsheet::{CellValue, Reply, RSheet};

#[test]
fn concurrent_sets_against_distinct_cells_lose_nothing() {
    let pool = futures::executor::ThreadPool::new().expect("pool");
    let sheet = Arc::new(Mutex::new(RSheet::new()));
    let mut done = Vec::new();
    for t in 0..8u32 {
        let sheet = Arc::clone(&sheet);
        let (tx, rx) = futures::channel::oneshot::channel::<()>();
        pool.spawn_ok(async move {
            for i in 0..50u32 {
                let set = format!("set C{}_{} {}", t, i, i);
                let reply = sheet.lock().unwrap().handle_command(set.as_bytes());
                assert_eq!(reply, Reply::Okay);
                let get = format!("get C{}_{}", t, i);
                let reply = sheet.lock().unwrap().handle_command(get.as_bytes());
                assert_eq!(
                    reply,
                    Reply::Value(CellValue::Number((i as f64).to_bits()))
                );
            }
            tx.send(()).expect("done");
        });
        done.push(rx);
    }
    for rx in done {
        futures::executor::block_on(rx).expect("worker");
    }
    for t in 0..8u32 {
        for i in 0..50u32 {
            let get = format!("get C{}_{}", t, i);
            let reply = sheet.lock().unwrap().handle_command(get.as_bytes());
            assert_eq!(
                reply,
                Reply::Value(CellValue::Number((i as f64).to_bits()))
            );
        }
    }
}
