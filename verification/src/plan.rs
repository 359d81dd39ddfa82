//! The grouping of a sequence of files into batches, as a mathematical
//! function, and what holds of it.
//!
//! [`partition`] cuts the files, in the order in which they arrive, into
//! consecutive groups.  A group is *full* once its files weigh at least the
//! threshold; the file that makes a group full is its last one.  The batches
//! that a run dispatches are the groups, in order: the full ones as they close,
//! and a last group that is not full at the final flush.

use crate::batch::{append_model, flush_model, AccumulatorView, BatchView, FileEntryView};
use vstd::prelude::*;

verus! {

/// Sum of the sizes of the files.
pub open spec fn total_bytes(files: Seq<FileEntryView>) -> nat
    decreases files.len(),
{
    if files.len() == 0 {
        0
    } else {
        total_bytes(files.drop_last()) + files.last().size_bytes
    }
}

/// The relative paths of the files, in order.
pub open spec fn paths(files: Seq<FileEntryView>) -> Seq<Seq<char>> {
    Seq::new(files.len(), |i: int| files[i].relative_path)
}

/// Whether the files weigh at least the threshold.
pub open spec fn is_full(group: Seq<FileEntryView>, max_batch_bytes: nat) -> bool {
    total_bytes(group) >= max_batch_bytes
}

/// The groups into which the files fall when they arrive in this order: a file
/// joins the last group unless that group is full, in which case it starts a
/// new one.
pub open spec fn partition(files: Seq<FileEntryView>, max_batch_bytes: nat) -> Seq<
    Seq<FileEntryView>,
>
    decreases files.len(),
{
    if files.len() == 0 {
        Seq::empty()
    } else {
        let before = partition(files.drop_last(), max_batch_bytes);
        if before.len() > 0 && !is_full(before.last(), max_batch_bytes) {
            before.drop_last().push(before.last().push(files.last()))
        } else {
            before.push(seq![files.last()])
        }
    }
}

/// The batch made of a group of files, with its place in the run.
pub open spec fn batch_of(group: Seq<FileEntryView>, sequence_number: nat) -> BatchView {
    BatchView {
        entries: paths(group),
        cumulative_size_bytes: total_bytes(group),
        sequence_number,
    }
}

/// The batches that a run over the files dispatches, in order.
pub open spec fn dispatch_plan(files: Seq<FileEntryView>, max_batch_bytes: nat) -> Seq<BatchView> {
    let groups = partition(files, max_batch_bytes);
    Seq::new(groups.len(), |k: int| batch_of(groups[k], k as nat))
}

/// The listings of the batches, batch by batch.
pub open spec fn listings(batches: Seq<BatchView>) -> Seq<Seq<Seq<char>>> {
    Seq::new(batches.len(), |k: int| batches[k].entries)
}

/// The group that is still being filled after the files have arrived: the last
/// group if it is not full, else none.
pub open spec fn open_group(files: Seq<FileEntryView>, max_batch_bytes: nat) -> Seq<FileEntryView> {
    let groups = partition(files, max_batch_bytes);
    if groups.len() > 0 && !is_full(groups.last(), max_batch_bytes) {
        groups.last()
    } else {
        Seq::empty()
    }
}

/// The number of groups that are full after the files have arrived.
pub open spec fn closed_count(files: Seq<FileEntryView>, max_batch_bytes: nat) -> nat {
    let groups = partition(files, max_batch_bytes);
    if groups.len() > 0 && !is_full(groups.last(), max_batch_bytes) {
        (groups.len() - 1) as nat
    } else {
        groups.len()
    }
}

/// The state of an accumulator to which the files were appended in order,
/// starting from the initial state.
pub open spec fn state_after(files: Seq<FileEntryView>, max_batch_bytes: nat) -> AccumulatorView {
    AccumulatorView {
        max_batch_bytes,
        open: batch_of(open_group(files, max_batch_bytes), closed_count(files, max_batch_bytes)),
        files_seen: files.len(),
    }
}

/// The batch that closes when the last of the files arrives, if one does.
pub open spec fn closed_by_last(files: Seq<FileEntryView>, max_batch_bytes: nat) -> Option<
    BatchView,
> {
    let groups = partition(files, max_batch_bytes);
    if groups.len() > 0 && is_full(groups.last(), max_batch_bytes) {
        Some(batch_of(groups.last(), (groups.len() - 1) as nat))
    } else {
        None
    }
}

/// Adding a file to a group adds its size and its path.
pub proof fn lemma_group_push(group: Seq<FileEntryView>, entry: FileEntryView)
    ensures
        total_bytes(group.push(entry)) == total_bytes(group) + entry.size_bytes,
        paths(group.push(entry)) == paths(group).push(entry.relative_path),
        total_bytes(seq![entry]) == entry.size_bytes,
        paths(seq![entry]) == seq![entry.relative_path],
{
    assert(group.push(entry).drop_last() =~= group);
    assert(paths(group.push(entry)) =~= paths(group).push(entry.relative_path));
    assert(seq![entry] =~= Seq::<FileEntryView>::empty().push(entry));
    assert(seq![entry].drop_last() =~= Seq::<FileEntryView>::empty());
    assert(total_bytes(Seq::<FileEntryView>::empty()) == 0);
    assert(paths(seq![entry]) =~= seq![entry.relative_path]);
}

/// How the groups change when one more file arrives.
pub proof fn lemma_partition_push(
    files: Seq<FileEntryView>,
    entry: FileEntryView,
    max_batch_bytes: nat,
)
    ensures
        ({
            let before = partition(files, max_batch_bytes);
            partition(files.push(entry), max_batch_bytes) == if before.len() > 0 && !is_full(
                before.last(),
                max_batch_bytes,
            ) {
                before.drop_last().push(before.last().push(entry))
            } else {
                before.push(seq![entry])
            }
        }),
{
    assert(files.push(entry).drop_last() =~= files);
}

/// The shape of the groups: none is empty, every group but the last is full,
/// and a group of several files was not full before its last file joined.
pub proof fn lemma_partition_shape(files: Seq<FileEntryView>, max_batch_bytes: nat)
    ensures
        forall|k: int|
            0 <= k < partition(files, max_batch_bytes).len() ==> (#[trigger] partition(
                files,
                max_batch_bytes,
            )[k]).len() > 0,
        forall|k: int|
            0 <= k < partition(files, max_batch_bytes).len() - 1 ==> is_full(
                #[trigger] partition(files, max_batch_bytes)[k],
                max_batch_bytes,
            ),
        forall|k: int|
            0 <= k < partition(files, max_batch_bytes).len() ==> {
                let group = #[trigger] partition(files, max_batch_bytes)[k];
                group.len() == 1 || !is_full(group.drop_last(), max_batch_bytes)
            },
        forall|k: int|
            0 <= k < partition(files, max_batch_bytes).len() && max_batch_bytes > 0
                ==> total_bytes((#[trigger] partition(files, max_batch_bytes)[k]).drop_last())
                < max_batch_bytes,
    decreases files.len(),
{
    assert(total_bytes(Seq::<FileEntryView>::empty()) == 0);
    if files.len() > 0 {
        let before = partition(files.drop_last(), max_batch_bytes);
        let entry = files.last();
        lemma_partition_shape(files.drop_last(), max_batch_bytes);
        let groups = partition(files, max_batch_bytes);
        if before.len() > 0 && !is_full(before.last(), max_batch_bytes) {
            let last = before.last().push(entry);
            assert(last.drop_last() =~= before.last());
            assert forall|k: int| 0 <= k < groups.len() implies (#[trigger] groups[k]).len() > 0
                && (k < groups.len() - 1 ==> is_full(groups[k], max_batch_bytes)) && (groups[k].len()
                == 1 || !is_full(groups[k].drop_last(), max_batch_bytes)) && (max_batch_bytes > 0
                ==> total_bytes(groups[k].drop_last()) < max_batch_bytes) by {
                if k < groups.len() - 1 {
                    assert(groups[k] == before[k]);
                } else {
                    assert(groups[k] == last);
                }
            }
        } else {
            assert forall|k: int| 0 <= k < groups.len() implies (#[trigger] groups[k]).len() > 0
                && (k < groups.len() - 1 ==> is_full(groups[k], max_batch_bytes)) && (groups[k].len()
                == 1 || !is_full(groups[k].drop_last(), max_batch_bytes)) && (max_batch_bytes > 0
                ==> total_bytes(groups[k].drop_last()) < max_batch_bytes) by {
                if k < groups.len() - 1 {
                    assert(groups[k] == before[k]);
                } else {
                    assert(groups[k] == seq![entry]);
                    assert(seq![entry].drop_last() =~= Seq::<FileEntryView>::empty());
                }
            }
        }
    }
}

/// Nothing is lost, doubled or reordered: the groups, laid end to end, are the
/// files as they arrived.
pub proof fn lemma_partition_complete(files: Seq<FileEntryView>, max_batch_bytes: nat)
    ensures
        partition(files, max_batch_bytes).flatten() == files,
    decreases files.len(),
{
    broadcast use Seq::lemma_flatten_push;

    if files.len() > 0 {
        let before = partition(files.drop_last(), max_batch_bytes);
        let entry = files.last();
        lemma_partition_complete(files.drop_last(), max_batch_bytes);
        assert(files =~= files.drop_last().push(entry));
        if before.len() > 0 && !is_full(before.last(), max_batch_bytes) {
            assert(before =~= before.drop_last().push(before.last()));
            assert(before.drop_last().push(before.last()).flatten() =~= before.drop_last().flatten()
                + before.last());
            assert(before.drop_last().push(before.last().push(entry)).flatten()
                =~= before.drop_last().flatten() + before.last().push(entry));
            assert(partition(files, max_batch_bytes).flatten() =~= files);
        } else {
            assert(before.push(seq![entry]).flatten() =~= before.flatten() + seq![entry]);
            assert(partition(files, max_batch_bytes).flatten() =~= files);
        }
    } else {
        assert(partition(files, max_batch_bytes).flatten() =~= files);
    }
}

/// Before any file has arrived the accumulator is in its initial state.
pub proof fn lemma_state_after_nothing(max_batch_bytes: nat)
    ensures
        state_after(Seq::empty(), max_batch_bytes) == AccumulatorView::initial(max_batch_bytes),
        dispatch_plan(Seq::empty(), max_batch_bytes) == Seq::<BatchView>::empty(),
{
    assert(paths(Seq::empty()) =~= Seq::<Seq<char>>::empty());
    assert(dispatch_plan(Seq::empty(), max_batch_bytes) =~= Seq::<BatchView>::empty());
}

/// The states that a run goes through are well-formed.
pub proof fn lemma_state_after_wf(files: Seq<FileEntryView>, max_batch_bytes: nat)
    ensures
        state_after(files, max_batch_bytes).wf(),
    decreases files.len(),
{
    if files.len() > 0 {
        lemma_state_after_wf(files.drop_last(), max_batch_bytes);
        assert(files =~= files.drop_last().push(files.last()));
        lemma_append_follows_partition(files.drop_last(), files.last(), max_batch_bytes);
    }
}

/// Appending to the accumulator is arriving in the partition: from the state
/// after some files, one append leads to the state after those files and the
/// new one, and hands out the group that the new file made full, if it did.
pub proof fn lemma_append_follows_partition(
    files: Seq<FileEntryView>,
    entry: FileEntryView,
    max_batch_bytes: nat,
)
    ensures
        append_model(state_after(files, max_batch_bytes), entry).0 == state_after(
            files.push(entry),
            max_batch_bytes,
        ),
        append_model(state_after(files, max_batch_bytes), entry).1 == closed_by_last(
            files.push(entry),
            max_batch_bytes,
        ),
{
    let before = partition(files, max_batch_bytes);
    let after = partition(files.push(entry), max_batch_bytes);
    lemma_partition_push(files, entry, max_batch_bytes);
    lemma_group_push(open_group(files, max_batch_bytes), entry);
    assert(paths(Seq::empty()) =~= Seq::<Seq<char>>::empty());
    if before.len() > 0 && !is_full(before.last(), max_batch_bytes) {
        assert(after.last() == before.last().push(entry));
    } else {
        assert(after.last() == seq![entry]);
        assert(Seq::<FileEntryView>::empty().push(entry) =~= seq![entry]);
    }
}

/// The flush at the end of a run hands out the last group if it is not full,
/// and nothing otherwise.
pub proof fn lemma_flush_follows_partition(files: Seq<FileEntryView>, max_batch_bytes: nat)
    ensures
        flush_model(state_after(files, max_batch_bytes)).1 == if open_group(
            files,
            max_batch_bytes,
        ).len() > 0 {
            Some(dispatch_plan(files, max_batch_bytes).last())
        } else {
            None
        },
{
    lemma_partition_shape(files, max_batch_bytes);
}

/// A group that is full is final: files that arrive later leave it as it is.
pub proof fn lemma_full_groups_stay(files: Seq<FileEntryView>, n: int, max_batch_bytes: nat)
    requires
        0 <= n <= files.len(),
    ensures
        closed_count(files.take(n), max_batch_bytes) <= closed_count(files, max_batch_bytes),
        forall|k: int|
            0 <= k < closed_count(files.take(n), max_batch_bytes) ==> #[trigger] partition(
                files,
                max_batch_bytes,
            )[k] == partition(files.take(n), max_batch_bytes)[k],
    decreases files.len(),
{
    if n == files.len() {
        assert(files.take(n) =~= files);
    } else {
        let shorter = files.drop_last();
        assert(shorter.take(n) =~= files.take(n));
        lemma_full_groups_stay(shorter, n, max_batch_bytes);
        assert(files =~= shorter.push(files.last()));
        lemma_partition_push(shorter, files.last(), max_batch_bytes);
        lemma_partition_shape(files, max_batch_bytes);
    }
}

/// Nothing is lost, doubled or reordered: the listings of the dispatched
/// batches, laid end to end, are the relative paths of the files in the order
/// in which they arrived.
pub proof fn lemma_plan_complete(files: Seq<FileEntryView>, max_batch_bytes: nat)
    ensures
        listings(dispatch_plan(files, max_batch_bytes)).flatten() == paths(files),
    decreases files.len(),
{
    broadcast use Seq::lemma_flatten_push;

    let lists = listings(dispatch_plan(files, max_batch_bytes));
    if files.len() > 0 {
        let shorter = files.drop_last();
        let entry = files.last();
        let before = partition(shorter, max_batch_bytes);
        let lists_before = listings(dispatch_plan(shorter, max_batch_bytes));
        lemma_plan_complete(shorter, max_batch_bytes);
        assert(files =~= shorter.push(entry));
        assert(paths(files) =~= paths(shorter).push(entry.relative_path));
        if before.len() > 0 && !is_full(before.last(), max_batch_bytes) {
            lemma_group_push(before.last(), entry);
            assert(lists_before =~= lists_before.drop_last().push(lists_before.last()));
            assert(lists =~= lists_before.drop_last().push(
                lists_before.last().push(entry.relative_path),
            ));
            assert(lists_before.drop_last().push(lists_before.last()).flatten()
                =~= lists_before.drop_last().flatten() + lists_before.last());
            assert(lists.flatten() =~= lists_before.drop_last().flatten()
                + lists_before.last().push(entry.relative_path));
            assert(lists.flatten() =~= paths(files));
        } else {
            lemma_group_push(Seq::empty(), entry);
            assert(lists =~= lists_before.push(seq![entry.relative_path]));
            assert(lists.flatten() =~= paths(files));
        }
    } else {
        assert(lists =~= Seq::<Seq<Seq<char>>>::empty());
        assert(lists.flatten() =~= paths(files));
    }
}

/// The paths of some files, counted with their multiplicity, do not depend on
/// the order of the files.
pub proof fn lemma_paths_of_reordered(files: Seq<FileEntryView>, arrival: Seq<FileEntryView>)
    requires
        arrival.to_multiset() == files.to_multiset(),
    ensures
        paths(arrival).to_multiset() == paths(files).to_multiset(),
    decreases files.len(),
{
    broadcast use {
        vstd::multiset::group_multiset_axioms,
        vstd::seq_lib::to_multiset_build,
        vstd::seq_lib::to_multiset_remove,
        vstd::seq_lib::to_multiset_len,
        vstd::seq_lib::to_multiset_contains,
    };

    if files.len() == 0 {
        assert(arrival.to_multiset().len() == 0);
        assert(paths(arrival) =~= paths(files));
    } else {
        let entry = files.last();
        let shorter = files.drop_last();
        assert(files =~= shorter.push(entry));
        assert(arrival.to_multiset().count(entry) > 0);
        assert(arrival.contains(entry));
        let j = choose|j: int| 0 <= j < arrival.len() && arrival[j] == entry;
        let rest = arrival.remove(j);
        assert(rest.to_multiset() =~= shorter.to_multiset());
        lemma_paths_of_reordered(shorter, rest);
        assert(paths(files) =~= paths(shorter).push(entry.relative_path));
        assert(paths(rest) =~= paths(arrival).remove(j));
        assert(paths(arrival)[j] == entry.relative_path);
        assert(paths(arrival).to_multiset().count(entry.relative_path) > 0);
        assert(paths(arrival).to_multiset() =~= paths(files).to_multiset());
    }
}

/// Completeness does not depend on the order in which the files reach the
/// accumulator.  Whatever that order, the listings of the dispatched batches
/// hold every relative path as often as the scan found it; if the scan found
/// no path twice, no path is dispatched twice.
pub proof fn lemma_plan_complete_in_any_order(
    files: Seq<FileEntryView>,
    arrival: Seq<FileEntryView>,
    max_batch_bytes: nat,
)
    requires
        arrival.to_multiset() == files.to_multiset(),
    ensures
        listings(dispatch_plan(arrival, max_batch_bytes)).flatten().to_multiset() == paths(
            files,
        ).to_multiset(),
        paths(files).no_duplicates() ==> listings(
            dispatch_plan(arrival, max_batch_bytes),
        ).flatten().no_duplicates(),
{
    lemma_plan_complete(arrival, max_batch_bytes);
    lemma_paths_of_reordered(files, arrival);
    if paths(files).no_duplicates() {
        paths(files).lemma_multiset_has_no_duplicates();
        paths(arrival).lemma_multiset_has_no_duplicates_conv();
    }
}

/// The threshold policy, batch by batch.  No dispatched batch is empty, the
/// batches are numbered in the order of dispatch, and every batch but the last
/// weighs at least the threshold.  The last one weighs less exactly if it
/// is what the final flush hands out.
pub proof fn lemma_plan_threshold(files: Seq<FileEntryView>, max_batch_bytes: nat)
    ensures
        forall|k: int|
            0 <= k < dispatch_plan(files, max_batch_bytes).len() ==> {
                let batch = #[trigger] dispatch_plan(files, max_batch_bytes)[k];
                &&& batch.entries.len() > 0
                &&& batch.sequence_number == k
                &&& k < dispatch_plan(files, max_batch_bytes).len() - 1
                    ==> batch.cumulative_size_bytes >= max_batch_bytes
            },
        dispatch_plan(files, max_batch_bytes).len() > 0 ==> (dispatch_plan(
            files,
            max_batch_bytes,
        ).last().cumulative_size_bytes < max_batch_bytes <==> flush_model(
            state_after(files, max_batch_bytes),
        ).1 is Some),
{
    lemma_partition_shape(files, max_batch_bytes);
    lemma_flush_follows_partition(files, max_batch_bytes);
}

} // verus!
