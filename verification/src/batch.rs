//! Files, batches, and the accumulator that groups files into batches.

use vstd::prelude::*;

verus! {

/// One regular file found by the scan of the source tree.
#[derive(Debug, Clone, PartialEq, Eq)]
pub struct FileEntry {
    /// Path of the file relative to the root of the source tree.
    pub relative_path: String,
    /// Size of the file in bytes.
    pub size_bytes: u64,
}

/// Mathematical value of a [`FileEntry`].
pub struct FileEntryView {
    pub relative_path: Seq<char>,
    pub size_bytes: nat,
}

impl View for FileEntry {
    type V = FileEntryView;

    open spec fn view(&self) -> FileEntryView {
        FileEntryView { relative_path: self.relative_path@, size_bytes: self.size_bytes as nat }
    }
}

impl DeepView for FileEntry {
    type V = FileEntryView;

    open spec fn deep_view(&self) -> FileEntryView {
        self@
    }
}

/// A group of files whose relative paths are mirrored by one invocation of
/// the external tool.
#[derive(Debug, Clone, PartialEq, Eq)]
pub struct Batch {
    /// Relative paths, in the order in which they were appended.
    pub entries: Vec<String>,
    /// Sum of the sizes of the appended files.
    pub cumulative_size_bytes: u64,
    /// Position of this batch among the batches of its accumulator, counted
    /// from zero.
    pub sequence_number: u64,
}

/// Mathematical value of a [`Batch`].
pub struct BatchView {
    pub entries: Seq<Seq<char>>,
    pub cumulative_size_bytes: nat,
    pub sequence_number: nat,
}

impl View for Batch {
    type V = BatchView;

    open spec fn view(&self) -> BatchView {
        BatchView {
            entries: self.entries.deep_view(),
            cumulative_size_bytes: self.cumulative_size_bytes as nat,
            sequence_number: self.sequence_number as nat,
        }
    }
}

impl DeepView for Batch {
    type V = BatchView;

    open spec fn deep_view(&self) -> BatchView {
        self@
    }
}

/// The text that lists the paths for the mirroring tool: every path, in
/// order, each followed by a line feed.
pub open spec fn listing_text(entries: Seq<Seq<char>>) -> Seq<char>
    decreases entries.len(),
{
    if entries.len() == 0 {
        Seq::empty()
    } else {
        listing_text(entries.drop_last()) + entries.last() + seq!['\n']
    }
}

impl Batch {
    /// The listing of the batch as the mirroring tool reads it: one relative
    /// path per line, in the order in which the paths were appended.
    pub fn listing(&self) -> (text: String)
        ensures
            text@ == listing_text(self@.entries),
    {
        let mut text = String::new();
        let mut i: usize = 0;
        while i < self.entries.len()
            invariant
                i <= self.entries.len(),
                text@ == listing_text(self@.entries.take(i as int)),
            decreases self.entries.len() - i,
        {
            text.append(self.entries[i].as_str());
            text.append("\n");
            proof {
                reveal_strlit("\n");
                let next = self@.entries.take(i + 1);
                assert(next.drop_last() =~= self@.entries.take(i as int));
                assert(next.last() == self.entries[i as int]@);
                assert("\n"@ =~= seq!['\n']);
            }
            i = i + 1;
        }
        assert(self@.entries.take(i as int) =~= self@.entries);
        text
    }
}

/// The batch that holds no file yet and has the given sequence number.
pub open spec fn empty_batch(sequence_number: nat) -> BatchView {
    BatchView { entries: Seq::empty(), cumulative_size_bytes: 0, sequence_number }
}

/// Mathematical value of a [`BatchAccumulator`].
pub struct AccumulatorView {
    /// Size at which the open batch closes.
    pub max_batch_bytes: nat,
    /// The batch that is being filled.
    pub open: BatchView,
    /// Number of files appended so far, over all batches.
    pub files_seen: nat,
}

impl AccumulatorView {
    /// The state before any file was appended.
    pub open spec fn initial(max_batch_bytes: nat) -> AccumulatorView {
        AccumulatorView { max_batch_bytes, open: empty_batch(0), files_seen: 0 }
    }

    /// What every reachable state satisfies: an open batch that holds files is
    /// below the threshold, one that holds none weighs nothing, and each closed
    /// batch took at least one file.
    pub open spec fn wf(self) -> bool {
        &&& self.open.entries.len() == 0 ==> self.open.cumulative_size_bytes == 0
        &&& self.open.entries.len() > 0 ==> self.open.cumulative_size_bytes < self.max_batch_bytes
        &&& self.open.sequence_number + self.open.entries.len() <= self.files_seen
    }
}

/// Effect of appending one file: the path joins the open batch and the size
/// is added to it.  If the batch then weighs at least the threshold it is
/// closed, the file that crossed the line included, and an empty batch with
/// the next sequence number is opened.  The pair holds the state after the
/// append and the batch that closed, if one did.
pub open spec fn append_model(acc: AccumulatorView, entry: FileEntryView) -> (
    AccumulatorView,
    Option<BatchView>,
) {
    let grown = BatchView {
        entries: acc.open.entries.push(entry.relative_path),
        cumulative_size_bytes: acc.open.cumulative_size_bytes + entry.size_bytes,
        sequence_number: acc.open.sequence_number,
    };
    if grown.cumulative_size_bytes >= acc.max_batch_bytes {
        (
            AccumulatorView {
                max_batch_bytes: acc.max_batch_bytes,
                open: empty_batch(acc.open.sequence_number + 1),
                files_seen: acc.files_seen + 1,
            },
            Some(grown),
        )
    } else {
        (
            AccumulatorView {
                max_batch_bytes: acc.max_batch_bytes,
                open: grown,
                files_seen: acc.files_seen + 1,
            },
            None,
        )
    }
}

/// Effect of the flush at the end of a scan: an open batch that holds files is
/// closed and an empty one is opened; an empty open batch stays as it is and
/// nothing is handed out.
pub open spec fn flush_model(acc: AccumulatorView) -> (AccumulatorView, Option<BatchView>) {
    if acc.open.entries.len() > 0 {
        (
            AccumulatorView {
                max_batch_bytes: acc.max_batch_bytes,
                open: empty_batch(acc.open.sequence_number + 1),
                files_seen: acc.files_seen,
            },
            Some(acc.open),
        )
    } else {
        (acc, None)
    }
}

/// The threshold decides, and nothing else: an append closes the open batch
/// exactly if it brings the batch to the threshold or beyond.  A batch that
/// closes weighs at least the threshold, with the file that closed it as its
/// last entry, and did not reach the threshold before that file; one that
/// stays open has grown by the file and is still below the threshold.
pub proof fn lemma_append_closes_at_threshold(acc: AccumulatorView, entry: FileEntryView)
    requires
        acc.wf(),
    ensures
        append_model(acc, entry).0.wf(),
        append_model(acc, entry).1 is Some <==> acc.open.cumulative_size_bytes + entry.size_bytes
            >= acc.max_batch_bytes,
        append_model(acc, entry).1 matches Some(batch) ==> {
            &&& batch.cumulative_size_bytes >= acc.max_batch_bytes
            &&& batch.cumulative_size_bytes == acc.open.cumulative_size_bytes + entry.size_bytes
            &&& batch.entries == acc.open.entries.push(entry.relative_path)
            &&& batch.sequence_number == acc.open.sequence_number
            &&& acc.open.cumulative_size_bytes < acc.max_batch_bytes || acc.open.entries.len() == 0
            &&& append_model(acc, entry).0.open == empty_batch(acc.open.sequence_number + 1)
        },
        append_model(acc, entry).1 is None ==> {
            let open = append_model(acc, entry).0.open;
            &&& open.cumulative_size_bytes == acc.open.cumulative_size_bytes + entry.size_bytes
            &&& open.cumulative_size_bytes < acc.max_batch_bytes
            &&& open.entries == acc.open.entries.push(entry.relative_path)
            &&& open.sequence_number == acc.open.sequence_number
        },
{
}

/// A file that alone weighs at least the threshold closes the batch that it
/// joins, at once.  If the open batch held nothing, the batch that closes holds
/// this file and no other.
pub proof fn lemma_large_file_closes_batch(acc: AccumulatorView, entry: FileEntryView)
    requires
        acc.wf(),
        entry.size_bytes >= acc.max_batch_bytes,
    ensures
        append_model(acc, entry).1 is Some,
        append_model(acc, entry).1->0.entries.last() == entry.relative_path,
        append_model(acc, entry).0.open.entries.len() == 0,
        acc.open.entries.len() == 0 ==> append_model(acc, entry).1 == Some(
            BatchView {
                entries: seq![entry.relative_path],
                cumulative_size_bytes: entry.size_bytes,
                sequence_number: acc.open.sequence_number,
            },
        ),
{
    if acc.open.entries.len() == 0 {
        assert(acc.open.entries.push(entry.relative_path) =~= seq![entry.relative_path]);
    }
}

/// With no file appended there is nothing to dispatch: the flush of a new
/// accumulator hands out no batch and leaves it as it was.
pub proof fn lemma_nothing_to_flush(max_batch_bytes: nat)
    ensures
        flush_model(AccumulatorView::initial(max_batch_bytes)) == (
            AccumulatorView::initial(max_batch_bytes),
            None::<BatchView>,
        ),
{
}

/// The value of a batch that may or may not be there.
pub open spec fn closed_view(closed: Option<Batch>) -> Option<BatchView> {
    match closed {
        Some(batch) => Some(batch@),
        None => None,
    }
}

/// Holds the open batch and closes it when its size reaches the threshold.
pub struct BatchAccumulator {
    max_batch_bytes: u64,
    open: Batch,
    files_seen: u64,
}

impl View for BatchAccumulator {
    type V = AccumulatorView;

    closed spec fn view(&self) -> AccumulatorView {
        AccumulatorView {
            max_batch_bytes: self.max_batch_bytes as nat,
            open: self.open@,
            files_seen: self.files_seen as nat,
        }
    }
}

impl BatchAccumulator {
    /// Well-formedness of the accumulator: that of its value.
    pub open spec fn wf(&self) -> bool {
        self@.wf()
    }

    /// An accumulator with an empty open batch, numbered zero.
    pub fn new(max_batch_bytes: u64) -> (acc: BatchAccumulator)
        ensures
            acc.wf(),
            acc@ == AccumulatorView::initial(max_batch_bytes as nat),
    {
        let acc = BatchAccumulator {
            max_batch_bytes,
            open: Batch { entries: Vec::new(), cumulative_size_bytes: 0, sequence_number: 0 },
            files_seen: 0,
        };
        assert(acc.open.entries.deep_view() =~= Seq::<Seq<char>>::empty());
        acc
    }

    /// The size at which the open batch closes.
    pub fn max_batch_bytes(&self) -> (limit: u64)
        ensures
            limit == self@.max_batch_bytes,
    {
        self.max_batch_bytes
    }

    /// Number of files appended so far, over all batches.
    pub fn files_seen(&self) -> (count: u64)
        ensures
            count == self@.files_seen,
    {
        self.files_seen
    }

    /// Number of batches handed out so far.
    pub fn batches_closed(&self) -> (count: u64)
        ensures
            count == self@.open.sequence_number,
    {
        self.open.sequence_number
    }

    /// Number of files in the open batch.
    pub fn open_len(&self) -> (count: usize)
        ensures
            count == self@.open.entries.len(),
    {
        self.open.entries.len()
    }

    /// Size of the open batch in bytes.
    pub fn open_bytes(&self) -> (bytes: u64)
        ensures
            bytes == self@.open.cumulative_size_bytes,
    {
        self.open.cumulative_size_bytes
    }

    /// Whether the machine can hold the counters after `entry` is appended:
    /// the size of the open batch and the number of files must stay within
    /// 64 bits.
    pub open spec fn can_append(&self, entry: &FileEntry) -> bool {
        &&& self@.open.cumulative_size_bytes + entry.size_bytes <= u64::MAX
        &&& self@.files_seen < u64::MAX
    }

    /// Tests [`Self::can_append`].
    pub fn fits(&self, entry: &FileEntry) -> (ok: bool)
        ensures
            ok == self.can_append(entry),
    {
        entry.size_bytes <= u64::MAX - self.open.cumulative_size_bytes && self.files_seen
            < u64::MAX
    }

    /// Adds `entry` to the open batch.  Returns the batch if this append made
    /// it reach the threshold; a fresh batch is then open.
    pub fn append(&mut self, entry: FileEntry) -> (closed: Option<Batch>)
        requires
            old(self).wf(),
            old(self).can_append(&entry),
        ensures
            final(self).wf(),
            final(self)@ == append_model(old(self)@, entry@).0,
            closed_view(closed) == append_model(old(self)@, entry@).1,
    {
        let ghost before = self.open.entries.deep_view();
        self.open.entries.push(entry.relative_path);
        assert(self.open.entries.deep_view() =~= before.push(entry.relative_path@));
        self.open.cumulative_size_bytes = self.open.cumulative_size_bytes + entry.size_bytes;
        self.files_seen = self.files_seen + 1;
        if self.open.cumulative_size_bytes >= self.max_batch_bytes {
            let mut batch = Batch {
                entries: Vec::new(),
                cumulative_size_bytes: 0,
                sequence_number: self.open.sequence_number + 1,
            };
            assert(batch.entries.deep_view() =~= Seq::<Seq<char>>::empty());
            std::mem::swap(&mut self.open, &mut batch);
            Some(batch)
        } else {
            None
        }
    }

    /// Ends the run of appends: hands out the open batch if it holds any
    /// file, and opens a fresh one.  An empty open batch is not handed out.
    pub fn flush(&mut self) -> (flushed: Option<Batch>)
        requires
            old(self).wf(),
        ensures
            final(self).wf(),
            final(self)@ == flush_model(old(self)@).0,
            closed_view(flushed) == flush_model(old(self)@).1,
    {
        if self.open.entries.len() > 0 {
            let mut batch = Batch {
                entries: Vec::new(),
                cumulative_size_bytes: 0,
                sequence_number: self.open.sequence_number + 1,
            };
            assert(batch.entries.deep_view() =~= Seq::<Seq<char>>::empty());
            std::mem::swap(&mut self.open, &mut batch);
            Some(batch)
        } else {
            None
        }
    }
}

} // verus!
