use upload_core::driver::{run_upload, ChunkOutcome, UploadError, UploadOutcome};
use upload_core::plan::ChunkPlan;
use upload_core::progress::{percent, speed, Ratio};
use upload_core::transfer::{CancellationFlag, FileHandle, TransferState};

const MB: u64 = 1024 * 1024;

fn handle(name: &str, size: u64) -> FileHandle {
    FileHandle { path: format!("/videos/{}", name), filename: name.to_string(), size }
}

fn ok_chunk(elapsed_ms: u64) -> ChunkOutcome {
    ChunkOutcome { proceed: true, sent: Ok(elapsed_ms) }
}

fn halted_chunk() -> ChunkOutcome {
    ChunkOutcome { proceed: false, sent: Ok(0) }
}

#[test]
fn percent_is_exact() {
    let p = percent(50, 200);
    assert_eq!(p.num, 5000);
    assert_eq!(p.den, 200);
    // 5000 / 200 is exactly 25 percent
    assert_eq!(p.num, 25 * p.den);
}

#[test]
fn percent_of_full_file_is_100() {
    let p = percent(10 * MB, 10 * MB);
    assert_eq!(p.num, 100 * p.den);
}

#[test]
fn speed_matches_formula() {
    // 5000 bytes in 10 ms: 5000 / 1000 / 10 = 0.5 KB/ms, exactly 5000/10000
    let s = speed(5000, 10).unwrap();
    assert_eq!(s.num, 5000);
    assert_eq!(s.den, 10000);
}

#[test]
fn speed_guards_zero_elapsed() {
    assert!(speed(5000, 0).is_none());
    assert!(speed(0, 0).is_none());
}

#[test]
fn fixed_plan_splits_10_mb_into_five_2_mb_chunks() {
    let plan = ChunkPlan::fixed(10 * MB, 2 * MB);
    assert_eq!(plan.total_size, 10 * MB);
    assert_eq!(plan.chunk_sizes, vec![2 * MB; 5]);
}

#[test]
fn fixed_plan_keeps_the_remainder_as_a_final_smaller_chunk() {
    let plan = ChunkPlan::fixed(10, 4);
    assert_eq!(plan.chunk_sizes, vec![4, 4, 2]);
    assert_eq!(plan.total_size, 10);
}

#[test]
fn fixed_plan_of_empty_file_has_no_chunks() {
    let plan = ChunkPlan::fixed(0, 2 * MB);
    assert!(plan.chunk_sizes.is_empty());
    assert_eq!(plan.total_size, 0);
}

#[test]
fn explicit_plan_sums_its_chunks() {
    let plan = ChunkPlan::new(vec![4, 6]).unwrap();
    assert_eq!(plan.total_size, 10);
    assert_eq!(plan.chunk_sizes, vec![4, 6]);
}

#[test]
fn explicit_plan_rejects_empty_chunks() {
    assert!(ChunkPlan::new(vec![2, 0, 3]).is_none());
}

#[test]
fn explicit_plan_rejects_sizes_beyond_a_file_size() {
    assert!(ChunkPlan::new(vec![u64::MAX, 1]).is_none());
}

#[test]
fn upload_of_10_mb_in_five_chunks_completes_with_all_bytes() {
    let file = handle("movie.mp4", 10 * MB);
    let plan = ChunkPlan::fixed(10 * MB, 2 * MB);
    let outcomes = vec![ok_chunk(100), ok_chunk(200), ok_chunk(300), ok_chunk(400), ok_chunk(500)];
    let (outcome, events) = run_upload(&file, Ok(plan), &outcomes);
    match outcome {
        UploadOutcome::Completed { bytes_uploaded, speed } => {
            assert_eq!(bytes_uploaded, 10 * MB);
            // a positive speed: 10 MB over 500 ms
            let s = speed.unwrap();
            assert_eq!(s.num, (10 * MB) as u128);
            assert_eq!(s.den, 500 * 1000);
            assert!(s.num > 0 && s.den > 0);
        }
        other => panic!("expected a completed upload, got {:?}", other),
    }
    assert_eq!(events.len(), 5);
    for (i, ev) in events.iter().enumerate() {
        assert_eq!(ev.filename, "movie.mp4");
        assert_eq!(ev.total_size, 10 * MB);
        assert_eq!(ev.bytes_uploaded, (i as u64 + 1) * 2 * MB);
        assert_eq!(ev.elapsed_ms, (i as u64 + 1) * 100);
    }
    // bytes reported never decrease and end at the file size
    for w in events.windows(2) {
        assert!(w[0].bytes_uploaded < w[1].bytes_uploaded);
    }
    assert_eq!(events.last().unwrap().bytes_uploaded, 10 * MB);
    // the last chunk reports exactly 100 percent
    let last = events.last().unwrap();
    assert_eq!(last.percent.num, 100 * last.percent.den);
}

#[test]
fn cancelling_after_the_third_chunk_sends_nothing_further() {
    // The flag flips while chunk 3 is in flight: the boundary before chunk 4
    // reads false, so chunks 4 and 5 are never sent.
    let file = handle("movie.mp4", 10 * MB);
    let plan = ChunkPlan::fixed(10 * MB, 2 * MB);
    let outcomes = vec![ok_chunk(100), ok_chunk(200), ok_chunk(300), halted_chunk(), ok_chunk(500)];
    let (outcome, events) = run_upload(&file, Ok(plan), &outcomes);
    assert_eq!(outcome, UploadOutcome::Cancelled { bytes_uploaded: 6 * MB });
    assert_eq!(events.len(), 3);
    assert_eq!(events.last().unwrap().bytes_uploaded, 6 * MB);
}

#[test]
fn cancelling_before_any_chunk_uploads_zero_bytes() {
    let file = handle("movie.mp4", 10 * MB);
    let plan = ChunkPlan::fixed(10 * MB, 2 * MB);
    let outcomes = vec![halted_chunk(); 5];
    let (outcome, events) = run_upload(&file, Ok(plan), &outcomes);
    assert_eq!(outcome, UploadOutcome::Cancelled { bytes_uploaded: 0 });
    assert!(events.is_empty());
    // never a completed state: the caller sees a distinguished error
    assert_eq!(outcome.into_result(), Err(UploadError::CancelledError));
}

#[test]
fn probe_failure_fails_the_upload_before_any_chunk() {
    let file = handle("movie.mp4", 10 * MB);
    let outcomes = Vec::new();
    let (outcome, events) = run_upload(&file, Err(UploadError::NetworkError), &outcomes);
    assert_eq!(outcome, UploadOutcome::Failed { error: UploadError::NetworkError });
    assert!(events.is_empty());
}

#[test]
fn auth_and_io_failures_abort_before_any_chunk() {
    let file = handle("movie.mp4", 10 * MB);
    let outcomes = Vec::new();
    let (outcome, events) = run_upload(&file, Err(UploadError::AuthError), &outcomes);
    assert_eq!(outcome, UploadOutcome::Failed { error: UploadError::AuthError });
    assert!(events.is_empty());
    let (outcome, events) = run_upload(&file, Err(UploadError::IoError), &outcomes);
    assert_eq!(outcome, UploadOutcome::Failed { error: UploadError::IoError });
    assert!(events.is_empty());
}

#[test]
fn a_failed_chunk_send_aborts_the_whole_upload() {
    let file = handle("movie.mp4", 10 * MB);
    let plan = ChunkPlan::fixed(10 * MB, 2 * MB);
    let outcomes = vec![
        ok_chunk(100),
        ChunkOutcome { proceed: true, sent: Err(UploadError::NetworkError) },
        ok_chunk(300),
        ok_chunk(400),
        ok_chunk(500),
    ];
    let (outcome, events) = run_upload(&file, Ok(plan), &outcomes);
    assert_eq!(outcome, UploadOutcome::Failed { error: UploadError::NetworkError });
    assert_eq!(events.len(), 1);
    assert_eq!(events[0].bytes_uploaded, 2 * MB);
}

#[test]
fn empty_file_completes_at_once_with_no_events() {
    let file = handle("empty.mp4", 0);
    let plan = ChunkPlan::fixed(0, 2 * MB);
    let outcomes = Vec::new();
    let (outcome, events) = run_upload(&file, Ok(plan), &outcomes);
    assert_eq!(outcome, UploadOutcome::Completed { bytes_uploaded: 0, speed: None });
    assert!(events.is_empty());
}

#[test]
fn finished_runs_map_to_the_caller_facing_result() {
    let done = UploadOutcome::Completed {
        bytes_uploaded: 7,
        speed: Some(Ratio { num: 7, den: 1000 }),
    };
    assert_eq!(done.into_result(), Ok((7, Some(Ratio { num: 7, den: 1000 }))));
    let stopped = UploadOutcome::Cancelled { bytes_uploaded: 3 };
    assert_eq!(stopped.into_result(), Err(UploadError::CancelledError));
    let broken = UploadOutcome::Failed { error: UploadError::IoError };
    assert_eq!(broken.into_result(), Err(UploadError::IoError));
}

#[test]
fn cancellation_flag_lowers_once_and_stays_down() {
    let mut flag = CancellationFlag::new();
    assert!(flag.should_continue());
    flag.cancel();
    assert!(!flag.should_continue());
    flag.cancel();
    assert!(!flag.should_continue());
}

#[test]
fn transfer_state_accounts_for_each_chunk() {
    let plan = ChunkPlan::new(vec![4, 6]).unwrap();
    let mut state = TransferState::new("clip.mp4".to_string(), plan);
    assert_eq!(state.next_chunk_len(), Some(4));
    assert!(!state.is_complete());

    let ev = state.record_chunk(8);
    assert_eq!(ev.filename, "clip.mp4");
    assert_eq!(ev.bytes_uploaded, 4);
    assert_eq!(ev.total_size, 10);
    assert_eq!(ev.elapsed_ms, 8);
    assert_eq!(ev.percent.num, 400);
    assert_eq!(ev.percent.den, 10);
    assert_eq!(ev.speed, Some(Ratio { num: 4, den: 8000 }));

    assert_eq!(state.next_chunk_len(), Some(6));
    let ev = state.record_chunk(20);
    assert_eq!(ev.bytes_uploaded, 10);
    assert_eq!(ev.percent.num, 100 * ev.percent.den);
    assert_eq!(state.next_chunk_len(), None);
    assert!(state.is_complete());
}

#[test]
fn progress_bytes_follow_the_plan_prefix_sums() {
    let file = handle("clip.mp4", 6);
    let plan = ChunkPlan::new(vec![1, 2, 3]).unwrap();
    let outcomes = vec![ok_chunk(1), ok_chunk(2), ok_chunk(3)];
    let (outcome, events) = run_upload(&file, Ok(plan), &outcomes);
    let reported: Vec<u64> = events.iter().map(|e| e.bytes_uploaded).collect();
    assert_eq!(reported, vec![1, 3, 6]);
    assert!(matches!(outcome, UploadOutcome::Completed { bytes_uploaded: 6, .. }));
}
