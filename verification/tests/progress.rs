use std::sync::atomic::{AtomicU64, Ordering};
use std::sync::Arc;

use rusty_attachments::progress::{progress_fn, NoOpProgress, ProgressCallback};

struct TestProgress {
    count: u64,
}

#[test]
fn test_noop_progress() {
    let progress: NoOpProgress = NoOpProgress;
    let data: TestProgress = TestProgress { count: 42 };
    assert!(progress.on_progress(&data));
}

#[test]
fn test_fn_progress_continue() {
    let callback = progress_fn(|p: &TestProgress| p.count < 100);
    assert!(callback.on_progress(&TestProgress { count: 50 }));
}

#[test]
fn test_fn_progress_cancel() {
    let callback = progress_fn(|p: &TestProgress| p.count < 100);
    assert!(!callback.on_progress(&TestProgress { count: 150 }));
}

#[test]
fn test_fn_progress_captures_state() {
    let counter: Arc<AtomicU64> = Arc::new(AtomicU64::new(0));
    let counter_clone: Arc<AtomicU64> = counter.clone();

    let callback = progress_fn(move |_: &TestProgress| {
        counter_clone.fetch_add(1, Ordering::SeqCst);
        true
    });

    callback.on_progress(&TestProgress { count: 1 });
    callback.on_progress(&TestProgress { count: 2 });

    assert_eq!(counter.load(Ordering::SeqCst), 2);
}
