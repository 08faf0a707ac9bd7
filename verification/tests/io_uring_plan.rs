use jwalk_meta::fs_detect::IoStrategy;
use jwalk_meta::io_uring_plan::{
    completion_target, statx_chunks, submission_plan, use_io_uring_for, IoUringAvailability,
    MIN_BATCH_FOR_IO_URING, RING_SIZE,
};
use std::cell::Cell;

fn probe_kernel() -> bool {
    io_uring::IoUring::<io_uring::squeue::Entry, io_uring::cqueue::Entry>::builder()
        .setup_submit_all()
        .build(1)
        .is_ok()
}

#[test]
fn test_io_uring_enabled_idempotent() {
    let mut availability = IoUringAvailability::new();
    let a = availability.io_uring_enabled(probe_kernel);
    let b = availability.io_uring_enabled(probe_kernel);
    assert_eq!(a, b);
}

#[test]
fn io_uring_probe_runs_once_and_its_answer_is_kept() {
    let probes = Cell::new(0u32);
    let mut availability = IoUringAvailability::new();
    let first = availability.io_uring_enabled(|| {
        probes.set(probes.get() + 1);
        false
    });
    let second = availability.io_uring_enabled(|| {
        probes.set(probes.get() + 1);
        true
    });
    assert!(!first);
    assert!(!second);
    assert_eq!(probes.get(), 1);
}

#[test]
fn test_min_batch_constant_nonzero() {
    assert!(MIN_BATCH_FOR_IO_URING >= 1);
}

#[test]
fn test_ring_size_constant_reasonable() {
    assert!(RING_SIZE >= 64);
    assert!(RING_SIZE <= 4096);
}

#[test]
fn chunks_cover_entries_in_ring_sized_pieces() {
    assert_eq!(statx_chunks(0), vec![]);
    assert_eq!(statx_chunks(1), vec![(0, 1)]);
    assert_eq!(statx_chunks(256), vec![(0, 256)]);
    assert_eq!(statx_chunks(257), vec![(0, 256), (256, 257)]);
    assert_eq!(statx_chunks(600), vec![(0, 256), (256, 512), (512, 600)]);
}

#[test]
fn submission_plan_skips_names_with_nul() {
    let names = vec![b"valid.txt".to_vec(), b"bad\0name".to_vec(), b"ok".to_vec()];
    assert_eq!(submission_plan(&names), vec![0, 2]);
    assert_eq!(submission_plan(&Vec::new()), Vec::<usize>::new());
}

#[test]
fn completion_fills_only_successful_known_submissions() {
    let local_to_entry = vec![0, 2, 5];
    assert_eq!(completion_target(&local_to_entry, 1, 0), Some(2));
    assert_eq!(completion_target(&local_to_entry, 2, 0), Some(5));
    assert_eq!(completion_target(&local_to_entry, 1, -2), None);
    assert_eq!(completion_target(&local_to_entry, 3, 0), None);
}

#[test]
fn io_uring_only_for_large_network_batches() {
    assert!(use_io_uring_for(8, IoStrategy::NetworkAsync, true));
    assert!(!use_io_uring_for(7, IoStrategy::NetworkAsync, true));
    assert!(!use_io_uring_for(100, IoStrategy::NetworkAsync, false));
    assert!(!use_io_uring_for(100, IoStrategy::LocalSync, true));
    assert!(!use_io_uring_for(100, IoStrategy::SkipNlinks, true));
}
