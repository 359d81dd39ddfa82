//! A run over the files of a tree: every file goes through the accumulator,
//! and every batch that closes is due for dispatch.

use crate::batch::{append_model, closed_view, Batch, BatchAccumulator, FileEntry, FileEntryView};
use crate::plan::{
    closed_count, dispatch_plan, lemma_append_follows_partition, lemma_flush_follows_partition,
    lemma_full_groups_stay, lemma_group_push, lemma_partition_push, lemma_partition_shape,
    lemma_state_after_nothing, open_group, partition, state_after, total_bytes,
};
use crate::progress::{feedback_due, feedback_due_spec};
use vstd::prelude::*;

verus! {

/// What the caller has to do after one file went through the accumulator.
#[derive(Debug, Clone, PartialEq, Eq)]
pub struct FileOutcome {
    /// Number of files processed so far, this one included.
    pub files_seen: u64,
    /// Whether a status line is due.
    pub feedback_due: bool,
    /// The batch that this file closed, to be dispatched now.
    pub closed: Option<Batch>,
}

/// Takes one file of the scan through the run: the file is appended to the
/// open batch and counted, and the outcome says whether a status line is due
/// and which batch, if any, has to be dispatched.
///
/// `elapsed_secs` is the whole number of seconds since the run began.  The
/// cadences decide only whether a status line is due: what is batched and
/// dispatched is the same for every cadence, zero included.  The counters
/// must fit (see [`BatchAccumulator::can_append`]).
pub fn process_file(
    acc: &mut BatchAccumulator,
    entry: FileEntry,
    elapsed_secs: u64,
    file_feedback_count: u64,
    time_feedback_interval: u64,
) -> (outcome: FileOutcome)
    requires
        old(acc).wf(),
        old(acc).can_append(&entry),
    ensures
        final(acc).wf(),
        final(acc)@ == append_model(old(acc)@, entry@).0,
        closed_view(outcome.closed) == append_model(old(acc)@, entry@).1,
        outcome.files_seen == old(acc)@.files_seen + 1,
        outcome.feedback_due == feedback_due_spec(
            outcome.files_seen as nat,
            file_feedback_count as nat,
            elapsed_secs as nat,
            time_feedback_interval as nat,
        ),
{
    let closed = acc.append(entry);
    let files_seen = acc.files_seen();
    let due = feedback_due(files_seen, file_feedback_count, elapsed_secs, time_feedback_interval);
    FileOutcome { files_seen, feedback_due: due, closed }
}

/// Why a run over a list of files cannot be planned.
#[derive(Debug, Clone, Copy, PartialEq, Eq)]
pub enum ProcessError {
    /// The files of one batch weigh more than 64 bits can count.
    BatchSizeOverflow,
}

/// Whether the size of every batch of the run can be held in 64 bits.
pub open spec fn batches_fit(files: Seq<FileEntryView>, max_batch_bytes: nat) -> bool {
    forall|k: int|
        0 <= k < partition(files, max_batch_bytes).len() ==> total_bytes(
            #[trigger] partition(files, max_batch_bytes)[k],
        ) <= u64::MAX
}

/// Plans a whole run: the files go through a fresh accumulator in the order
/// given, and the batches come back in the order in which they are due for
/// dispatch, the one that the final flush hands out last.
pub fn process_files(run_size: u64, files: &Vec<FileEntry>) -> (result: Result<
    Vec<Batch>,
    ProcessError,
>)
    ensures
        result is Ok <==> batches_fit(files.deep_view(), run_size as nat),
        result matches Ok(batches) ==> batches.deep_view() == dispatch_plan(
            files.deep_view(),
            run_size as nat,
        ),
{
    let ghost all = files.deep_view();
    let ghost limit = run_size as nat;
    let mut acc = BatchAccumulator::new(run_size);
    let mut batches: Vec<Batch> = Vec::new();
    let mut i: usize = 0;
    proof {
        lemma_state_after_nothing(limit);
        assert(all.take(0) =~= Seq::<FileEntryView>::empty());
        assert(batches.deep_view() =~= dispatch_plan(all.take(0), limit).take(0));
    }
    while i < files.len()
        invariant
            i <= files.len(),
            all == files.deep_view(),
            limit == run_size as nat,
            acc.wf(),
            acc@ == state_after(all.take(i as int), limit),
            batches.deep_view() == dispatch_plan(all.take(i as int), limit).take(
                closed_count(all.take(i as int), limit) as int,
            ),
        decreases files.len() - i,
    {
        let entry = FileEntry {
            relative_path: files[i].relative_path.clone(),
            size_bytes: files[i].size_bytes,
        };
        let ghost seen = all.take(i as int);
        let ghost next = all.take(i + 1);
        proof {
            assert(entry@ == all[i as int]);
            assert(next =~= seen.push(entry@));
            lemma_append_follows_partition(seen, entry@, limit);
            lemma_partition_push(seen, entry@, limit);
            lemma_group_push(open_group(seen, limit), entry@);
            lemma_partition_shape(next, limit);
        }
        if !acc.fits(&entry) {
            proof {
                let groups = partition(next, limit);
                let last = groups.len() - 1;
                assert(total_bytes(groups[last]) > u64::MAX);
                lemma_full_groups_stay(all, i + 1, limit);
                assert(partition(all, limit)[last] == groups[last]);
            }
            return Err(ProcessError::BatchSizeOverflow);
        }
        let ghost before = batches.deep_view();
        match acc.append(entry) {
            Some(batch) => {
                batches.push(batch);
                proof {
                    assert(batches.deep_view() =~= before.push(batch@));
                    assert(batches.deep_view() =~= dispatch_plan(next, limit).take(
                        closed_count(next, limit) as int,
                    ));
                }
            },
            None => {
                proof {
                    assert(batches.deep_view() =~= dispatch_plan(next, limit).take(
                        closed_count(next, limit) as int,
                    ));
                }
            },
        }
        i = i + 1;
    }
    proof {
        assert(all.take(i as int) =~= all);
        lemma_flush_follows_partition(all, limit);
        lemma_partition_shape(all, limit);
    }
    let ghost before = batches.deep_view();
    match acc.flush() {
        Some(batch) => {
            batches.push(batch);
            proof {
                assert(batches.deep_view() =~= before.push(batch@));
                assert(batches.deep_view() =~= dispatch_plan(all, limit));
            }
        },
        None => {
            proof {
                assert(batches.deep_view() =~= dispatch_plan(all, limit));
            }
        },
    }
    proof {
        assert forall|k: int| 0 <= k < partition(all, limit).len() implies total_bytes(
            #[trigger] partition(all, limit)[k],
        ) <= u64::MAX by {
            assert(batches.deep_view()[k].cumulative_size_bytes == total_bytes(
                partition(all, limit)[k],
            ));
            assert(batches.deep_view()[k] == batches[k]@);
        }
    }
    Ok(batches)
}

} // verus!
