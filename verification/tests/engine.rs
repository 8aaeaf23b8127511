use freqpool::{
    run_job, BridgeError, CompletionSignal, Observation, PoolError, ResultHandle, Text,
    WorkerPool,
};

#[test]
fn create_zero_units_fails() {
    let r = WorkerPool::create(0);
    assert!(matches!(r, Err(PoolError::PoolCreationFailure)));
}

#[test]
fn create_fixes_the_size() {
    let pool = WorkerPool::create(4).unwrap();
    assert_eq!(pool.size(), 4);
    assert_eq!(pool.active_units(), 0);
    assert_eq!(pool.queued_tasks(), 0);
    assert!(!pool.is_down());
}

#[test]
fn pool_never_exceeds_its_size() {
    let mut pool = WorkerPool::create(3).unwrap();
    for _ in 0..10 {
        pool.submit().unwrap();
    }
    assert_eq!(pool.size(), 3);
    assert_eq!(pool.active_units(), 3);
    assert_eq!(pool.queued_tasks(), 7);
}

#[test]
fn finishing_units_pick_up_queued_work() {
    let mut pool = WorkerPool::create(2).unwrap();
    for _ in 0..5 {
        pool.submit().unwrap();
    }
    assert_eq!(pool.active_units(), 2);
    assert_eq!(pool.queued_tasks(), 3);
    pool.finish_one();
    assert_eq!(pool.active_units(), 2);
    assert_eq!(pool.queued_tasks(), 2);
    pool.finish_one();
    pool.finish_one();
    assert_eq!(pool.active_units(), 2);
    assert_eq!(pool.queued_tasks(), 0);
    pool.finish_one();
    assert_eq!(pool.active_units(), 1);
    pool.finish_one();
    assert_eq!(pool.active_units(), 0);
}

#[test]
fn submission_after_teardown_fails() {
    let mut pool = WorkerPool::create(2).unwrap();
    pool.teardown();
    let r = pool.submit();
    assert!(matches!(r, Err(PoolError::DispatchFailure)));
}

#[test]
fn pending_handle_resolves_to_cancelled_at_teardown() {
    let text = Text::new(String::from("abc"));
    let mut pool = WorkerPool::create(2).unwrap();
    let (_job, mut handle) = text.process(2, &mut pool).unwrap();
    assert!(matches!(handle.observe(), Observation::Pending));
    pool.teardown();
    // The producer side never fires: the bridge resolves to cancelled
    // rather than hanging.
    handle.producer_dropped();
    assert!(matches!(handle.observe(), Observation::Cancelled));
}

#[test]
fn one_shot_signal_rejects_second_send() {
    let mut signal = CompletionSignal::new();
    let first = signal.send(freqpool::frequency_in_string(String::from("ab")));
    assert!(first.is_ok());
    let second = signal.send(freqpool::frequency_in_string(String::from("cd")));
    assert!(matches!(second, Err(BridgeError::AlreadySent)));
}

#[test]
fn dropped_producer_cancels_only_an_empty_signal() {
    let mut signal = CompletionSignal::new();
    signal.send(freqpool::frequency_in_string(String::from("x"))).unwrap();
    signal.drop_producer();
    let mut handle_signal = CompletionSignal::new();
    handle_signal.drop_producer();
    let r = handle_signal.send(freqpool::frequency_in_string(String::from("x")));
    assert!(matches!(r, Err(BridgeError::AlreadySent)));
}

#[test]
fn handle_delivers_exactly_once() {
    let mut handle = ResultHandle::new();
    let tally = freqpool::frequency_in_string(String::from("abc"));
    assert!(handle.deliver(tally).is_ok());
    let again = freqpool::frequency_in_string(String::from("zzz"));
    assert!(matches!(handle.deliver(again), Err(BridgeError::AlreadySent)));
    // The first delivery is the one observed.
    match handle.observe() {
        Observation::Delivered(c) => {
            assert_eq!(c.get('a'), 1);
            assert_eq!(c.get('z'), 0);
        },
        _ => panic!("handle should have resolved"),
    }
}

#[test]
fn observation_is_idempotent() {
    let text = Text::new(String::from("AaBb"));
    let mut pool = WorkerPool::create(4).unwrap();
    let (job, mut handle) = text.process(4, &mut pool).unwrap();
    run_job(job, &mut handle);
    let first = match handle.observe() {
        Observation::Delivered(c) => c,
        _ => panic!("handle should have resolved"),
    };
    let second = match handle.observe() {
        Observation::Delivered(c) => c,
        _ => panic!("handle should have resolved"),
    };
    assert_eq!(first.len(), second.len());
    for (key, count) in first.entries_vec() {
        assert_eq!(second.get(key), count);
    }
}

#[test]
fn process_is_non_blocking() {
    let text = Text::new(String::from("hello worker pool"));
    let mut pool = WorkerPool::create(2).unwrap();
    let (job, mut handle) = text.process(2, &mut pool).unwrap();
    // Control is back before any result exists; other work can run here.
    assert!(matches!(handle.observe(), Observation::Pending));
    assert!(pool.active_units() + pool.queued_tasks() > 0);
    run_job(job, &mut handle);
    match handle.observe() {
        Observation::Delivered(c) => {
            assert_eq!(c.get('o'), 4);
            assert_eq!(c.get('l'), 3);
        },
        _ => panic!("handle should have resolved"),
    }
}

#[test]
fn process_counts_match_across_concurrency() {
    let input = String::from("The Quick brown Fox jumps over the LAZY dog");
    let mut counts = Vec::new();
    for concurrency in [1usize, 2, 8] {
        let text = Text::new(input.clone());
        let mut pool = WorkerPool::create(8).unwrap();
        let (job, mut handle) = text.process(concurrency, &mut pool).unwrap();
        let task_count = job.count_chunks();
        assert!(task_count >= 1 && task_count <= concurrency.max(1));
        run_job(job, &mut handle);
        for _ in 0..task_count {
            pool.finish_one();
        }
        assert_eq!(pool.active_units(), 0);
        assert_eq!(pool.queued_tasks(), 0);
        match handle.observe() {
            Observation::Delivered(c) => counts.push(c),
            _ => panic!("handle should have resolved"),
        }
    }
    for c in &counts {
        assert_eq!(c.len(), counts[0].len());
        for (key, count) in counts[0].entries_vec() {
            assert_eq!(c.get(key), count);
        }
        assert_eq!(c.get('t'), 2);
        assert_eq!(c.get('q'), 1);
    }
}

#[test]
fn process_on_torn_down_pool_is_refused() {
    let text = Text::new(String::from("abc"));
    let mut pool = WorkerPool::create(2).unwrap();
    pool.teardown();
    let r = text.process(2, &mut pool);
    assert!(matches!(r, Err(PoolError::DispatchFailure)));
}

#[test]
fn empty_text_still_resolves() {
    let text = Text::new(String::new());
    let mut pool = WorkerPool::create(8).unwrap();
    let (job, mut handle) = text.process(8, &mut pool).unwrap();
    assert_eq!(job.count_chunks(), 1);
    run_job(job, &mut handle);
    match handle.observe() {
        Observation::Delivered(c) => assert_eq!(c.len(), 0),
        _ => panic!("handle should have resolved"),
    }
}
