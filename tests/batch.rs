use bunkr_uploader::batch::BatchScheduler;
use bunkr_uploader::outcome::{FailedUploadInfo, TransferOutcome};

#[test]
fn ten_files_parallelism_three() {
    let mut b = BatchScheduler::new(10, 3);
    let mut running: Vec<usize> = Vec::new();
    let mut peak = 0usize;
    loop {
        while let Some(i) = b.start_next() {
            running.push(i);
        }
        peak = peak.max(running.len());
        assert!(b.in_flight() <= 3);
        if b.is_done() {
            break;
        }
        // Complete the oldest in flight; every third file fails.
        let i = running.remove(0);
        let outcome = if i % 3 == 0 {
            TransferOutcome::Failed(FailedUploadInfo {
                path: format!("f{}", i),
                error: "boom".to_string(),
                file_size: i as u64,
                status_code: Some(500),
            })
        } else {
            TransferOutcome::Uploaded(format!("https://cdn/{}", i))
        };
        assert!(b.complete(i, outcome));
    }
    assert_eq!(peak, 3);
    let (urls, failures) = b.finish();
    assert_eq!(urls.len() + failures.len(), 10);
    assert_eq!(failures.len(), 4);
    assert_eq!(urls[0], "https://cdn/1");
    assert_eq!(failures[1].path, "f3");
}

#[test]
fn completing_twice_or_unstarted_is_refused() {
    let mut b = BatchScheduler::new(2, 1);
    assert_eq!(b.start_next(), Some(0));
    assert_eq!(b.start_next(), None);
    assert!(!b.complete(1, TransferOutcome::Uploaded("x".to_string())));
    assert!(b.complete(0, TransferOutcome::Uploaded("x".to_string())));
    assert!(!b.complete(0, TransferOutcome::Uploaded("y".to_string())));
    assert_eq!(b.start_next(), Some(1));
    assert!(!b.is_done());
    assert!(b.complete(1, TransferOutcome::Uploaded("z".to_string())));
    assert!(b.is_done());
    let (urls, failures) = b.finish();
    assert_eq!(urls, vec!["x".to_string(), "z".to_string()]);
    assert!(failures.is_empty());
}

#[test]
fn empty_batch_is_done_at_once() {
    let b = BatchScheduler::new(0, 4);
    assert!(b.is_done());
    let (urls, failures) = b.finish();
    assert!(urls.is_empty() && failures.is_empty());
}
