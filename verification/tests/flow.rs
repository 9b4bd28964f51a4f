use inagent::scheduler::{chunk_request_frames, done_frames, err_frames, Scheduler, MAX_SLOTS};

/// Twenty-five QUEUEs with no READY: exactly twenty dispatch, five wait;
/// five READYs then dispatch exactly those five, in FIFO order.
#[test]
fn slot_conservation_over_twenty_five_requests() {
    assert_eq!(MAX_SLOTS, 20);
    let mut sched = Scheduler::new();
    let mut dispatched = Vec::new();

    for i in 0..25u64 {
        if let Some(item) = sched.queue("/tmp/x".to_string(), i) {
            dispatched.push(item.index);
        }
    }
    assert_eq!(dispatched.len(), 20);
    assert_eq!(dispatched, (0..20).collect::<Vec<u64>>());
    assert_eq!(sched.available_slots(), 0);
    assert_eq!(sched.backlog_len(), 5);

    let mut late = Vec::new();
    for _ in 0..5 {
        match sched.ready() {
            Some(item) => late.push(item.index),
            None => panic!("a queued request should have taken the slot"),
        }
    }
    assert_eq!(late, vec![20, 21, 22, 23, 24]);
    assert_eq!(sched.backlog_len(), 0);
    assert_eq!(sched.available_slots(), 0);
}

/// A READY with nothing waiting just returns the slot.
#[test]
fn ready_without_backlog_frees_slot() {
    let mut sched = Scheduler::new();
    let item = sched.queue("/a".to_string(), 3).unwrap();
    assert_eq!(item.index, 3);
    assert_eq!(sched.available_slots(), MAX_SLOTS - 1);
    assert!(sched.ready().is_none());
    assert_eq!(sched.available_slots(), MAX_SLOTS);
}

/// Dispatch is FIFO over arrival, not the arriving item.
#[test]
fn dispatch_is_fifo_not_lifo() {
    let mut sched = Scheduler::new();
    // Drain the budget so the backlog builds up.
    for i in 0..20u64 {
        sched.queue("/a".to_string(), i).unwrap();
    }
    assert!(sched.queue("/b".to_string(), 100).is_none());
    assert!(sched.queue("/c".to_string(), 200).is_none());
    // A retry re-enters with no priority.
    assert!(sched.queue("/a".to_string(), 0).is_none());

    let first = sched.ready().unwrap();
    assert_eq!((first.path.as_str(), first.index), ("/b", 100));
    let second = sched.ready().unwrap();
    assert_eq!((second.path.as_str(), second.index), ("/c", 200));
    let third = sched.ready().unwrap();
    assert_eq!((third.path.as_str(), third.index), ("/a", 0));
}

#[test]
fn outbound_frames_are_exact() {
    let item = inagent::scheduler::ChunkQueueItem { path: "/tmp/x".to_string(), index: 12 };
    assert_eq!(
        chunk_request_frames(&item),
        vec!["/tmp/x".to_string(), "Chk".to_string(), "12".to_string()]
    );
    assert_eq!(
        done_frames(&"/tmp/x".to_string()),
        vec!["/tmp/x".to_string(), "Done".to_string()]
    );
    assert_eq!(
        err_frames(&"/tmp/x".to_string(), "File hash mismatch"),
        vec![
            "/tmp/x".to_string(),
            "Err".to_string(),
            "File hash mismatch".to_string()
        ]
    );
}
