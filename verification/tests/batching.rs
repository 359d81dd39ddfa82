use rgigasync::batch::{Batch, BatchAccumulator, FileEntry};
use rgigasync::file_processing::{process_file, process_files, FileOutcome, ProcessError};
use rayon::iter::{IntoParallelRefIterator, ParallelIterator};
use std::sync::Mutex;

const MB: u64 = 1024 * 1024;

fn file(path: &str, size_bytes: u64) -> FileEntry {
    FileEntry { relative_path: path.to_string(), size_bytes }
}

fn names(batch: &Batch) -> Vec<&str> {
    batch.entries.iter().map(|s| s.as_str()).collect()
}

#[test]
fn new_accumulator_is_empty() {
    let acc = BatchAccumulator::new(10);
    assert_eq!(acc.max_batch_bytes(), 10);
    assert_eq!(acc.files_seen(), 0);
    assert_eq!(acc.batches_closed(), 0);
    assert_eq!(acc.open_len(), 0);
    assert_eq!(acc.open_bytes(), 0);
}

#[test]
fn append_below_threshold_keeps_batch_open() {
    let mut acc = BatchAccumulator::new(100);
    assert_eq!(acc.append(file("a", 60)), None);
    assert_eq!(acc.open_len(), 1);
    assert_eq!(acc.open_bytes(), 60);
    assert_eq!(acc.files_seen(), 1);
    assert_eq!(acc.batches_closed(), 0);
}

#[test]
fn append_reaching_threshold_closes_batch() {
    let mut acc = BatchAccumulator::new(100);
    assert_eq!(acc.append(file("a", 60)), None);
    let closed = acc.append(file("b", 40)).expect("the batch reached the threshold");
    assert_eq!(names(&closed), vec!["a", "b"]);
    assert_eq!(closed.cumulative_size_bytes, 100);
    assert_eq!(closed.sequence_number, 0);
    assert_eq!(acc.open_len(), 0);
    assert_eq!(acc.open_bytes(), 0);
    assert_eq!(acc.batches_closed(), 1);
    assert_eq!(acc.files_seen(), 2);
}

#[test]
fn crossing_file_is_included_not_deferred() {
    let mut acc = BatchAccumulator::new(100);
    assert_eq!(acc.append(file("a", 99)), None);
    let closed = acc.append(file("b", 500)).expect("the batch went beyond the threshold");
    assert_eq!(names(&closed), vec!["a", "b"]);
    assert_eq!(closed.cumulative_size_bytes, 599);
    assert_eq!(acc.flush(), None);
}

#[test]
fn one_byte_short_of_threshold_stays_open() {
    let mut acc = BatchAccumulator::new(100);
    assert_eq!(acc.append(file("a", 99)), None);
    let flushed = acc.flush().expect("the open batch holds a file");
    assert_eq!(names(&flushed), vec!["a"]);
    assert_eq!(flushed.cumulative_size_bytes, 99);
}

#[test]
fn large_file_closes_its_own_batch() {
    let mut acc = BatchAccumulator::new(256 * MB);
    let closed = acc.append(file("huge.bin", 300 * MB)).expect("a large file closes at once");
    assert_eq!(names(&closed), vec!["huge.bin"]);
    assert_eq!(closed.cumulative_size_bytes, 300 * MB);
    assert_eq!(closed.sequence_number, 0);
    assert_eq!(acc.open_len(), 0);
    let next = acc.append(file("huge2.bin", 256 * MB + 1)).expect("and so does the next");
    assert_eq!(names(&next), vec!["huge2.bin"]);
    assert_eq!(next.sequence_number, 1);
}

#[test]
fn large_file_joins_a_batch_that_is_open() {
    let mut acc = BatchAccumulator::new(256);
    assert_eq!(acc.append(file("small", 100)), None);
    let closed = acc.append(file("large", 300)).expect("the large file closes the batch");
    assert_eq!(names(&closed), vec!["small", "large"]);
    assert_eq!(closed.cumulative_size_bytes, 400);
}

#[test]
fn flush_of_new_accumulator_finds_nothing() {
    let mut acc = BatchAccumulator::new(256 * MB);
    assert_eq!(acc.flush(), None);
    assert_eq!(acc.batches_closed(), 0);
    assert_eq!(acc.flush(), None);
}

#[test]
fn flush_hands_out_the_open_batch_once() {
    let mut acc = BatchAccumulator::new(100);
    assert_eq!(acc.append(file("a", 1)), None);
    assert_eq!(acc.append(file("b", 2)), None);
    let flushed = acc.flush().expect("two files are waiting");
    assert_eq!(names(&flushed), vec!["a", "b"]);
    assert_eq!(flushed.cumulative_size_bytes, 3);
    assert_eq!(flushed.sequence_number, 0);
    assert_eq!(acc.batches_closed(), 1);
    assert_eq!(acc.flush(), None);
}

#[test]
fn flush_keeps_files_of_size_zero() {
    let mut acc = BatchAccumulator::new(100);
    assert_eq!(acc.append(file("empty-1", 0)), None);
    assert_eq!(acc.append(file("empty-2", 0)), None);
    let flushed = acc.flush().expect("files without bytes are files");
    assert_eq!(names(&flushed), vec!["empty-1", "empty-2"]);
    assert_eq!(flushed.cumulative_size_bytes, 0);
}

#[test]
fn threshold_zero_closes_on_every_append() {
    let mut acc = BatchAccumulator::new(0);
    let first = acc.append(file("a", 0)).expect("zero reaches zero");
    assert_eq!(names(&first), vec!["a"]);
    let second = acc.append(file("b", 7)).expect("seven reaches zero");
    assert_eq!(names(&second), vec!["b"]);
    assert_eq!(second.sequence_number, 1);
    assert_eq!(acc.flush(), None);
}

#[test]
fn fits_tells_when_the_counters_would_overflow() {
    let mut acc = BatchAccumulator::new(u64::MAX);
    assert!(acc.fits(&file("a", u64::MAX)));
    assert_eq!(acc.append(file("a", 1)), None);
    assert!(acc.fits(&file("b", u64::MAX - 1)));
    assert!(!acc.fits(&file("b", u64::MAX)));
}

#[test]
fn listing_has_one_path_per_line_in_order() {
    let batch = Batch {
        entries: vec!["dir/a.txt".to_string(), "b".to_string(), "c d/e".to_string()],
        cumulative_size_bytes: 3,
        sequence_number: 0,
    };
    assert_eq!(batch.listing(), "dir/a.txt\nb\nc d/e\n");
    let empty = Batch { entries: vec![], cumulative_size_bytes: 0, sequence_number: 4 };
    assert_eq!(empty.listing(), "");
}

#[test]
fn three_files_of_100_mb_make_one_batch() {
    let files = vec![file("one", 100 * MB), file("two", 100 * MB), file("three", 100 * MB)];
    let mut acc = BatchAccumulator::new(256 * MB);
    let mut dispatched: Vec<Batch> = Vec::new();
    for f in files.iter() {
        if let Some(batch) = acc.append(f.clone()) {
            dispatched.push(batch);
        }
        if dispatched.is_empty() {
            assert!(acc.open_bytes() < 256 * MB);
        }
    }
    assert_eq!(acc.flush(), None);
    assert_eq!(dispatched.len(), 1);
    assert_eq!(names(&dispatched[0]), vec!["one", "two", "three"]);
    assert_eq!(dispatched[0].cumulative_size_bytes, 300 * MB);

    let planned = process_files(256 * MB, &files).expect("the sizes fit");
    assert_eq!(planned, dispatched);
}

#[test]
fn empty_tree_dispatches_nothing() {
    let planned = process_files(256 * MB, &Vec::new()).expect("nothing can overflow");
    assert_eq!(planned, Vec::<Batch>::new());
}

#[test]
fn plan_holds_every_path_once_and_in_order() {
    let sizes: [u64; 10] = [5, 0, 17, 3, 40, 1, 1, 1, 30, 2];
    let files: Vec<FileEntry> =
        sizes.iter().enumerate().map(|(i, s)| file(&format!("f{}", i), *s)).collect();
    let planned = process_files(20, &files).expect("the sizes fit");
    let listed: Vec<String> = planned.iter().flat_map(|b| b.entries.clone()).collect();
    let found: Vec<String> = files.iter().map(|f| f.relative_path.clone()).collect();
    assert_eq!(listed, found);
    let grouped: Vec<Vec<&str>> = planned.iter().map(|b| names(b)).collect();
    assert_eq!(
        grouped,
        vec![vec!["f0", "f1", "f2"], vec!["f3", "f4"], vec!["f5", "f6", "f7", "f8"], vec!["f9"]]
    );
    let weights: Vec<u64> = planned.iter().map(|b| b.cumulative_size_bytes).collect();
    assert_eq!(weights, vec![22, 43, 33, 2]);
    let numbers: Vec<u64> = planned.iter().map(|b| b.sequence_number).collect();
    assert_eq!(numbers, vec![0, 1, 2, 3]);
}

#[test]
fn every_batch_but_the_last_reaches_the_threshold() {
    let threshold = 50;
    let sizes: Vec<u64> = (0..200u64).map(|i| (i * 37) % 23).collect();
    let files: Vec<FileEntry> =
        sizes.iter().enumerate().map(|(i, s)| file(&format!("p/{}", i), *s)).collect();
    let planned = process_files(threshold, &files).expect("the sizes fit");
    let mut at = 0usize;
    for (k, batch) in planned.iter().enumerate() {
        assert!(!batch.entries.is_empty());
        let own: u64 = sizes[at..at + batch.entries.len()].iter().sum();
        assert_eq!(batch.cumulative_size_bytes, own);
        let last = sizes[at + batch.entries.len() - 1];
        assert!(batch.cumulative_size_bytes - last < threshold);
        if k + 1 < planned.len() {
            assert!(batch.cumulative_size_bytes >= threshold);
        }
        at += batch.entries.len();
    }
    assert_eq!(at, files.len());
}

#[test]
fn any_order_of_arrival_dispatches_the_same_paths() {
    let files: Vec<FileEntry> =
        (0..50u64).map(|i| file(&format!("tree/{}", i), (i * 13) % 11)).collect();
    let mut expected: Vec<String> = files.iter().map(|f| f.relative_path.clone()).collect();
    expected.sort();
    for shift in [1usize, 7, 23] {
        let mut arrival = files.clone();
        arrival.rotate_left(shift);
        arrival.reverse();
        let planned = process_files(25, &arrival).expect("the sizes fit");
        let mut listed: Vec<String> = planned.iter().flat_map(|b| b.entries.clone()).collect();
        listed.sort();
        assert_eq!(listed, expected);
    }
}

#[test]
fn concurrent_producers_lose_and_double_nothing() {
    let files: Vec<FileEntry> =
        (0..2000u64).map(|i| file(&format!("d{}/f{}", i % 17, i), (i * 7919) % 4096)).collect();
    let shared = Mutex::new((BatchAccumulator::new(64 * 1024), Vec::<Batch>::new()));
    files.par_iter().for_each(|f| {
        let mut guard = shared.lock().unwrap();
        let (acc, dispatched) = &mut *guard;
        assert!(acc.fits(f));
        if let Some(batch) = acc.append(f.clone()) {
            dispatched.push(batch);
        }
    });
    let (mut acc, mut dispatched) = shared.into_inner().unwrap();
    if let Some(batch) = acc.flush() {
        dispatched.push(batch);
    }
    assert_eq!(acc.files_seen(), 2000);
    let numbers: Vec<u64> = dispatched.iter().map(|b| b.sequence_number).collect();
    assert_eq!(numbers, (0..dispatched.len() as u64).collect::<Vec<u64>>());
    for batch in dispatched.iter().rev().skip(1) {
        assert!(batch.cumulative_size_bytes >= 64 * 1024);
    }
    let mut listed: Vec<String> = dispatched.iter().flat_map(|b| b.entries.clone()).collect();
    listed.sort();
    let mut expected: Vec<String> = files.iter().map(|f| f.relative_path.clone()).collect();
    expected.sort();
    assert_eq!(listed, expected);
    let total: u64 = dispatched.iter().map(|b| b.cumulative_size_bytes).sum();
    assert_eq!(total, files.iter().map(|f| f.size_bytes).sum::<u64>());
}

#[test]
fn plan_refuses_a_batch_that_64_bits_cannot_weigh() {
    let files = vec![file("a", 1), file("b", u64::MAX)];
    assert_eq!(process_files(u64::MAX, &files), Err(ProcessError::BatchSizeOverflow));
    let files = vec![file("a", 1), file("b", u64::MAX - 1)];
    let planned = process_files(u64::MAX, &files).expect("the sum is the largest number");
    assert_eq!(planned.len(), 1);
    assert_eq!(planned[0].cumulative_size_bytes, u64::MAX);
    let files = vec![file("a", u64::MAX), file("b", u64::MAX)];
    let planned = process_files(u64::MAX, &files).expect("each file is a batch");
    assert_eq!(planned.len(), 2);
}

#[test]
fn process_file_counts_and_reports() {
    let mut acc = BatchAccumulator::new(10);
    let first = process_file(&mut acc, file("a", 4), 0, 2, 120);
    assert_eq!(first, FileOutcome { files_seen: 1, feedback_due: false, closed: None });
    let second = process_file(&mut acc, file("b", 4), 119, 2, 120);
    assert_eq!(second, FileOutcome { files_seen: 2, feedback_due: true, closed: None });
    let third = process_file(&mut acc, file("c", 4), 119, 2, 120);
    assert_eq!(third.files_seen, 3);
    assert!(!third.feedback_due);
    let closed = third.closed.expect("twelve bytes reach ten");
    assert_eq!(names(&closed), vec!["a", "b", "c"]);
    assert_eq!(closed.cumulative_size_bytes, 12);
    let fourth = process_file(&mut acc, file("d", 1), 120, 1000, 120);
    assert_eq!(fourth, FileOutcome { files_seen: 4, feedback_due: true, closed: None });
    let fifth = process_file(&mut acc, file("e", 1), 500, 1000, 120);
    assert!(fifth.feedback_due);
}

#[test]
fn batching_is_the_same_for_every_cadence() {
    let sizes: [u64; 9] = [4, 4, 4, 1, 30, 0, 9, 2, 2];
    let mut outcomes: Vec<Vec<Option<Batch>>> = Vec::new();
    for cadence in [0u64, 1, 2, 1_000_000] {
        let mut acc = BatchAccumulator::new(10);
        let mut closed = Vec::new();
        for (i, size) in sizes.iter().enumerate() {
            let outcome = process_file(&mut acc, file(&format!("f{}", i), *size), 0, cadence, 120);
            assert_eq!(outcome.files_seen, i as u64 + 1);
            assert_eq!(outcome.feedback_due, cadence > 0 && (i as u64 + 1) % cadence == 0);
            closed.push(outcome.closed);
        }
        closed.push(acc.flush());
        outcomes.push(closed);
    }
    assert_eq!(outcomes[0], outcomes[1]);
    assert_eq!(outcomes[0], outcomes[2]);
    assert_eq!(outcomes[0], outcomes[3]);
    let grouped: Vec<Vec<&str>> = outcomes[0].iter().flatten().map(|b| names(b)).collect();
    assert_eq!(
        grouped,
        vec![vec!["f0", "f1", "f2"], vec!["f3", "f4"], vec!["f5", "f6", "f7"], vec!["f8"]]
    );
}

#[test]
fn process_file_with_cadence_zero_appends_and_closes() {
    let mut acc = BatchAccumulator::new(100);
    let stays = process_file(&mut acc, file("a", 60), 0, 0, 120);
    assert_eq!(stays, FileOutcome { files_seen: 1, feedback_due: false, closed: None });
    assert_eq!(acc.open_len(), 1);
    assert_eq!(acc.open_bytes(), 60);
    let closes = process_file(&mut acc, file("b", 40), 200, 0, 120);
    assert!(closes.feedback_due);
    let batch = closes.closed.expect("the batch reached the threshold");
    assert_eq!(names(&batch), vec!["a", "b"]);
    assert_eq!(batch.cumulative_size_bytes, 100);
    assert_eq!(acc.open_len(), 0);
    assert_eq!(acc.open_bytes(), 0);
    let alone = process_file(&mut acc, file("huge", 101), 0, 0, 120);
    let batch = alone.closed.expect("a large file closes at once");
    assert_eq!(names(&batch), vec!["huge"]);
    assert_eq!(batch.sequence_number, 1);
    assert_eq!(acc.open_len(), 0);
}
