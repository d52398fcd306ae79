use bunkr_uploader::plan::{plan_chunks, plan_transfer, count_chunks, ChunkTask, TransferPlan};

const MB: u64 = 1024 * 1024;

#[test]
fn twelve_megabytes_in_five_megabyte_chunks() {
    let chunks = plan_chunks(12 * MB, 5 * MB);
    assert_eq!(chunks.len(), 3);
    assert_eq!(chunks[0], ChunkTask { index: 0, offset: 0, length: 5 * MB });
    assert_eq!(chunks[1], ChunkTask { index: 1, offset: 5 * MB, length: 5 * MB });
    assert_eq!(chunks[2], ChunkTask { index: 2, offset: 10 * MB, length: 2 * MB });
}

#[test]
fn file_of_exactly_one_chunk_is_single_shot() {
    assert_eq!(plan_transfer(5 * MB, 5 * MB), TransferPlan::Single);
    assert_eq!(plan_transfer(5 * MB + 1, 5 * MB), TransferPlan::Chunked { count: 2 });
    assert_eq!(plan_transfer(0, 5 * MB), TransferPlan::Single);
}

#[test]
fn chunk_lengths_add_up() {
    for (s, c) in [(1u64, 1u64), (10, 3), (9, 3), (1000, 7), (u64::MAX, u64::MAX / 2)] {
        let chunks = plan_chunks(s, c);
        assert_eq!(chunks.len() as u64, count_chunks(s, c));
        let total: u128 = chunks.iter().map(|t| t.length as u128).sum();
        assert_eq!(total, s as u128);
        for (i, t) in chunks.iter().enumerate() {
            assert_eq!(t.index, i as u64);
            if i + 1 < chunks.len() {
                assert_eq!(t.length, c);
            }
        }
    }
    assert_eq!(plan_chunks(0, 4).len(), 0);
    assert_eq!(count_chunks(10, 3), 4);
}

use bunkr_uploader::outcome::{TransferOutcome, UploadResponse, UploadedFile};
use bunkr_uploader::upload::{start_upload, transport_failure, ChunkStep, UploadJob};

#[test]
fn chunked_upload_sends_chunks_in_order_then_finalizes() {
    let job = start_upload("/tmp/movie.mp4", "movie.mp4", Some("42"), 12 * MB, 5 * MB);
    let mut up = match job {
        UploadJob::Chunked(c) => c,
        UploadJob::Single(_) => panic!("a 12 MB file must go in chunks"),
    };
    let mut sent = Vec::new();
    let mut batch_ids = Vec::new();
    loop {
        match up.next_step() {
            ChunkStep::Send(req) => {
                assert_eq!(req.total_size, 12 * MB);
                assert_eq!(req.chunk_size, 5 * MB);
                assert_eq!(req.total_chunks, 3);
                assert_eq!(req.offset, req.index * 5 * MB);
                sent.push((req.index, req.length));
                batch_ids.push(req.batch_id.clone());
                assert!(up.on_chunk_answer(200, "").is_none());
            }
            ChunkStep::Finalize(f) => {
                assert_eq!(f.original, "movie.mp4");
                assert_eq!(f.media_type, "video/mp4");
                assert_eq!(f.album_id, Some(42));
                assert_eq!(f.batch_id, batch_ids[0]);
                let parsed = Ok(UploadResponse {
                    success: true,
                    files: Some(vec![UploadedFile { url: "https://cdn/x".to_string() }]),
                });
                match up.on_finalize_answer(200, "{}", parsed) {
                    TransferOutcome::Uploaded(u) => assert_eq!(u, "https://cdn/x"),
                    TransferOutcome::Failed(f) => panic!("unexpected failure {:?}", f),
                }
            }
            ChunkStep::Finished => break,
        }
    }
    assert_eq!(sent, vec![(0, 5 * MB), (1, 5 * MB), (2, 2 * MB)]);
    assert_eq!(batch_ids[0].len(), 36);
    assert!(batch_ids.iter().all(|b| b == &batch_ids[0]));
}

#[test]
fn failed_chunk_aborts_the_rest() {
    let mut up = match start_upload("/tmp/big.bin", "big.bin", None, 11, 5) {
        UploadJob::Chunked(c) => c,
        UploadJob::Single(_) => panic!("must be chunked"),
    };
    assert!(matches!(up.next_step(), ChunkStep::Send(_)));
    assert!(up.on_chunk_answer(200, "").is_none());
    match up.on_chunk_answer(502, "bad gateway") {
        Some(TransferOutcome::Failed(f)) => {
            assert_eq!(f.path, "/tmp/big.bin");
            assert_eq!(f.error, "Chunk 1 upload failed with status 502: bad gateway");
            assert_eq!(f.file_size, 11);
            assert_eq!(f.status_code, Some(502));
        }
        _ => panic!("a failed chunk must fail the file"),
    }
    assert!(matches!(up.next_step(), ChunkStep::Finished));
}

#[test]
fn finalize_without_album_and_unparsable_album() {
    let up = match start_upload("/tmp/a.bin", "a.bin", None, 11, 5) {
        UploadJob::Chunked(c) => c,
        UploadJob::Single(_) => panic!("must be chunked"),
    };
    let _ = up;
    let mut up = match start_upload("/tmp/a.bin", "a.bin", Some("abc"), 6, 5) {
        UploadJob::Chunked(c) => c,
        UploadJob::Single(_) => panic!("must be chunked"),
    };
    assert!(up.on_chunk_answer(200, "").is_none());
    assert!(up.on_chunk_answer(200, "").is_none());
    match up.next_step() {
        ChunkStep::Finalize(f) => {
            assert_eq!(f.album_id, Some(0));
            assert_eq!(f.media_type, "application/octet-stream");
        }
        _ => panic!("finalize expected"),
    }
}

#[test]
fn single_shot_upload_reads_the_answer() {
    let single = match start_upload("/tmp/pic.png", "pic.png", Some("7"), 100, 5 * MB) {
        UploadJob::Single(s) => s,
        UploadJob::Chunked(_) => panic!("small files go in one request"),
    };
    assert_eq!(single.media_type, "image/png");
    assert_eq!(single.album_id.as_deref(), Some("7"));
    let ok = single.on_answer(
        200,
        "",
        Ok(UploadResponse { success: true, files: Some(vec![UploadedFile { url: "u1".to_string() }]) }),
    );
    assert!(matches!(ok, TransferOutcome::Uploaded(ref u) if u == "u1"));
    match single.on_answer(404, "nope", Err("unused".to_string())) {
        TransferOutcome::Failed(f) => {
            assert_eq!(f.error, "Upload request failed with status 404: nope");
            assert_eq!(f.status_code, Some(404));
        }
        _ => panic!("404 must fail"),
    }
    match single.on_answer(200, "x", Err("expected value".to_string())) {
        TransferOutcome::Failed(f) => {
            assert_eq!(f.error, "Failed to parse upload response: expected value");
            assert_eq!(f.status_code, None);
        }
        _ => panic!("unparsable body must fail"),
    }
    match single.on_answer(200, "{}", Ok(UploadResponse { success: false, files: None })) {
        TransferOutcome::Failed(f) => assert_eq!(f.error, "Upload failed: server returned success=false"),
        _ => panic!("refusal must fail"),
    }
    match single.on_answer(200, "{}", Ok(UploadResponse { success: true, files: Some(vec![]) })) {
        TransferOutcome::Failed(f) => assert_eq!(f.error, "Upload failed: server named no uploaded file"),
        _ => panic!("an answer without a file must fail"),
    }
    match transport_failure("/tmp/pic.png", 100, "timed out") {
        TransferOutcome::Failed(f) => {
            assert_eq!(f.error, "Request could not be completed: timed out");
            assert_eq!(f.file_size, 100);
        }
        _ => panic!("transport failure must fail"),
    }
}
