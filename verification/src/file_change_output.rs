//! Rows of a file-change tool's detail view: for every changed file its path
//! and one row per line of its diff, a blank row between files, then the
//! progress lines.
use vstd::prelude::*;
use vstd::string::StringSliceAdditionalSpecFns;
use crate::items::FileUpdateChange;
use crate::line_index::{
    line_starts_of, newline_offsets, push_newline_offsets, law_line_starts_extend,
    lemma_newline_offsets_bounds, lemma_offsets_shift, lemma_line_starts_len,
};
use crate::list_update::{ListUpdate, ToolStatus, same_strings};

verus! {

/// A row of the file-change detail view.
#[derive(Clone, Debug, PartialEq, Eq)]
pub enum FileChangeOutputRow {
    /// A line held by the view itself.
    Owned(String),
    /// The bytes `start..end` of the diff of change `change_index`.
    Diff { change_index: usize, start: usize, end: usize },
}

/// A row of the file-change detail view, with the text of owned rows as characters.
pub enum RowView {
    Owned(Seq<char>),
    Diff { change_index: usize, start: usize, end: usize },
}

impl FileChangeOutputRow {
    /// The row with owned text as characters.
    pub open spec fn row_view(self) -> RowView {
        match self {
            FileChangeOutputRow::Owned(text) => RowView::Owned(text@),
            FileChangeOutputRow::Diff { change_index, start, end } => RowView::Diff {
                change_index,
                start,
                end,
            },
        }
    }
}

/// Sum of `2 + starts[i].len()` over the first `k` changes.
pub open spec fn rows_before(starts: Seq<Seq<usize>>, k: int) -> int
    decreases k,
{
    if k <= 0 || k > starts.len() {
        0
    } else {
        rows_before(starts, k - 1) + 2 + starts[k - 1].len()
    }
}

/// Sum of `starts[i].len()` over the first `k` changes.
pub open spec fn diff_rows(starts: Seq<Seq<usize>>, k: int) -> int
    decreases k,
{
    if k <= 0 || k > starts.len() {
        0
    } else {
        diff_rows(starts, k - 1) + starts[k - 1].len()
    }
}

/// Row of the path of change `k`, as counted before the diff indexes of
/// earlier changes.
pub open spec fn change_row_start_of(starts: Seq<Seq<usize>>, k: int) -> int {
    rows_before(starts, if k < starts.len() { k } else { starts.len() as int })
}

/// The bytes of the diff of every change.
pub open spec fn diff_bytes(changes: Seq<FileUpdateChange>) -> Seq<Seq<u8>> {
    Seq::new(changes.len(), |i: int| vstd::utf8::encode_utf8(changes[i].diff@))
}

/// Sum over the first `k` diffs of their length plus three.
pub open spec fn diff_budget(diffs: Seq<Seq<u8>>, k: int) -> int
    decreases k,
{
    if k <= 0 || k > diffs.len() {
        0
    } else {
        diff_budget(diffs, k - 1) + diffs[k - 1].len() + 3
    }
}

/// The row at `index`, counting from the path of change `c`.
pub open spec fn row_from(
    labels: Seq<Seq<char>>,
    starts: Seq<Seq<usize>>,
    lens: Seq<usize>,
    progress: Seq<Seq<char>>,
    c: int,
    index: int,
) -> Option<RowView>
    decreases labels.len() - c,
{
    if c < 0 || index < 0 {
        None
    } else if c >= labels.len() {
        if progress.len() > 0 && labels.len() > 0 {
            if index == 0 {
                Some(RowView::Owned(Seq::empty()))
            } else if index - 1 < progress.len() {
                Some(RowView::Owned(progress[index - 1]))
            } else {
                None
            }
        } else if index < progress.len() {
            Some(RowView::Owned(progress[index]))
        } else {
            None
        }
    } else if index == 0 {
        Some(RowView::Owned(labels[c]))
    } else if c >= starts.len() {
        None
    } else {
        let i = index - 1;
        let lines = starts[c];
        if i < lines.len() {
            Some(
                RowView::Diff {
                    change_index: c as usize,
                    start: lines[i],
                    end: if i + 1 < lines.len() {
                        if lines[i + 1] >= 1 {
                            (lines[i + 1] - 1) as usize
                        } else {
                            0
                        }
                    } else {
                        lens[c]
                    },
                },
            )
        } else {
            let j = i - lines.len();
            if c + 1 < labels.len() {
                if j == 0 {
                    Some(RowView::Owned(Seq::empty()))
                } else {
                    row_from(labels, starts, lens, progress, c + 1, j - 1)
                }
            } else {
                row_from(labels, starts, lens, progress, c + 1, j)
            }
        }
    }
}

/// `rows_before` only depends on the first `k` entries.
pub proof fn lemma_rows_before_prefix(a: Seq<Seq<usize>>, b: Seq<Seq<usize>>, k: int)
    requires
        0 <= k <= a.len(),
        k <= b.len(),
        forall|i: int| 0 <= i < k ==> a[i].len() == b[i].len(),
    ensures
        rows_before(a, k) == rows_before(b, k),
    decreases k,
{
    if k > 0 {
        lemma_rows_before_prefix(a, b, k - 1);
    }
}

/// Prefix sums grow with `k`.
pub proof fn lemma_rows_before_monotone(a: Seq<Seq<usize>>, j: int, k: int)
    requires
        0 <= j <= k <= a.len(),
    ensures
        rows_before(a, j) <= rows_before(a, k),
        diff_rows(a, j) <= diff_rows(a, k),
        diff_rows(a, k) + 2 * k == rows_before(a, k),
    decreases k,
{
    if k > 0 {
        if j < k {
            lemma_rows_before_monotone(a, j, k - 1);
        }
        lemma_rows_before_monotone(a, k - 1, k - 1);
    }
}

/// Line indexes no longer than their texts plus one keep the row count
/// within the budget of those texts.
pub proof fn lemma_rows_within_budget(starts: Seq<Seq<usize>>, diffs: Seq<Seq<u8>>, k: int)
    requires
        0 <= k <= starts.len(),
        starts.len() == diffs.len(),
        forall|i: int| 0 <= i < starts.len() ==> #[trigger] starts[i].len() <= diffs[i].len() + 1,
    ensures
        rows_before(starts, k) <= diff_budget(diffs, k),
    decreases k,
{
    if k > 0 {
        lemma_rows_within_budget(starts, diffs, k - 1);
        assert(starts[k - 1].len() <= diffs[k - 1].len() + 1);
    }
}

/// The line indexes of a file-change view, with the lines shown around them.
pub struct FileChangeOutputState {
    pub change_labels: Vec<String>,
    pub progress: Vec<String>,
    pub diff_line_starts: Vec<Vec<usize>>,
    pub indexed_diff_lens: Vec<usize>,
    pub reset_diff_indexes: bool,
    pub status: Option<ToolStatus>,
    /// The diff bytes that each line index describes.
    pub indexed: Ghost<Seq<Seq<u8>>>,
}

/// The row updates of an incremental sync of change `c`.
pub open spec fn change_updates(
    final_starts: Seq<Seq<usize>>,
    old_starts: Seq<Seq<usize>>,
    old_lens: Seq<usize>,
    diffs: Seq<Seq<u8>>,
    c: int,
) -> Seq<ListUpdate> {
    if diffs[c].len() == old_lens[c] {
        Seq::empty()
    } else {
        let row_start = rows_before(final_starts, c) + 1;
        let old_count = old_starts[c].len();
        let added = final_starts[c].len() - old_count;
        (if added > 0 {
            seq![
                ListUpdate::Splice {
                    start: (row_start + old_count) as usize,
                    old_count: 0,
                    new_count: added as usize,
                },
            ]
        } else {
            Seq::empty()
        }) + (if old_count > 0 {
            seq![ListUpdate::Remeasure { index: (row_start + old_count - 1) as usize }]
        } else {
            Seq::empty()
        })
    }
}

/// The row updates of an incremental sync of the first `k` changes.
pub open spec fn sync_updates(
    final_starts: Seq<Seq<usize>>,
    old_starts: Seq<Seq<usize>>,
    old_lens: Seq<usize>,
    diffs: Seq<Seq<u8>>,
    k: int,
) -> Seq<ListUpdate>
    decreases k,
{
    if k <= 0 {
        Seq::empty()
    } else {
        sync_updates(final_starts, old_starts, old_lens, diffs, k - 1) + change_updates(
            final_starts,
            old_starts,
            old_lens,
            diffs,
            k - 1,
        )
    }
}


/// One `Remeasure` per changed label among the first `k`, at the row of that label.
pub open spec fn label_remeasures(
    old_labels: Seq<Seq<char>>,
    new_labels: Seq<Seq<char>>,
    starts: Seq<Seq<usize>>,
    k: int,
) -> Seq<ListUpdate>
    decreases k,
{
    if k <= 0 {
        Seq::empty()
    } else {
        label_remeasures(old_labels, new_labels, starts, k - 1) + if old_labels[k - 1]
            != new_labels[k - 1] {
            seq![ListUpdate::Remeasure { index: change_row_start_of(starts, k - 1) as usize }]
        } else {
            Seq::empty()
        }
    }
}

/// `sync_updates` over the first `k` changes only reads the first `k` line indexes.
pub proof fn lemma_sync_updates_prefix(
    a: Seq<Seq<usize>>,
    b: Seq<Seq<usize>>,
    old_starts: Seq<Seq<usize>>,
    old_lens: Seq<usize>,
    diffs: Seq<Seq<u8>>,
    k: int,
)
    requires
        0 <= k <= a.len(),
        k <= b.len(),
        forall|i: int| 0 <= i < k ==> a[i] == b[i],
    ensures
        sync_updates(a, old_starts, old_lens, diffs, k) == sync_updates(
            b,
            old_starts,
            old_lens,
            diffs,
            k,
        ),
    decreases k,
{
    if k > 0 {
        lemma_sync_updates_prefix(a, b, old_starts, old_lens, diffs, k - 1);
        lemma_rows_before_prefix(a, b, k - 1);
    }
}

/// The row count stays within the budget of indexed texts no longer than the diffs.
pub proof fn lemma_indexes_within_budget(
    starts: Seq<Seq<usize>>,
    indexed: Seq<Seq<u8>>,
    diffs: Seq<Seq<u8>>,
)
    requires
        starts.len() == indexed.len(),
        starts.len() == diffs.len(),
        forall|i: int|
            0 <= i < starts.len() ==> #[trigger] starts[i] == line_starts_of(indexed[i])
                && indexed[i].len() <= diffs[i].len(),
    ensures
        rows_before(starts, starts.len() as int) <= diff_budget(diffs, diffs.len() as int),
{
    assert forall|i: int| 0 <= i < starts.len() implies #[trigger] starts[i].len() <= diffs[i].len()
        + 1 by {
        lemma_line_starts_len(indexed[i]);
    }
    lemma_rows_within_budget(starts, diffs, starts.len() as int);
}

impl FileChangeOutputState {
    /// The line indexes as sequences.
    pub open spec fn starts(&self) -> Seq<Seq<usize>> {
        self.diff_line_starts@.map_values(|v: Vec<usize>| v@)
    }

    /// Every line index describes the diff bytes recorded for it.
    pub open spec fn wf(&self) -> bool {
        &&& self.starts().len() == self.indexed_diff_lens@.len()
        &&& self.starts().len() == self.indexed@.len()
        &&& forall|i: int|
            0 <= i < self.starts().len() ==> #[trigger] self.starts()[i] == line_starts_of(
                self.indexed@[i],
            ) && self.indexed_diff_lens@[i] == self.indexed@[i].len()
    }

    /// The row numbers fit in a `usize`.
    pub open spec fn rows_fit(&self) -> bool {
        rows_before(self.starts(), self.starts().len() as int) + 2 * self.change_labels@.len()
            + self.progress@.len() + 2 <= usize::MAX
    }

    /// Whether the next diffs must be indexed from scratch.
    pub open spec fn must_reset(&self, diffs: Seq<Seq<u8>>) -> bool {
        ||| self.reset_diff_indexes
        ||| diffs.len() != self.starts().len()
        ||| exists|i: int|
            0 <= i < diffs.len() && (i >= self.indexed_diff_lens@.len() || diffs[i].len()
                < self.indexed_diff_lens@[i] || !vstd::utf8::is_char_boundary(
                #[trigger] diffs[i],
                self.indexed_diff_lens@[i] as int,
            ))
    }

    /// The first row of the progress lines.
    pub open spec fn progress_row_start_spec(&self) -> int {
        self.change_labels@.len() + diff_rows(self.starts(), self.starts().len() as int) + if self.change_labels@.len() > 0 {
            self.change_labels@.len() - 1
        } else {
            0
        }
    }

    /// The number of progress rows, with the blank row before them.
    pub open spec fn progress_row_count_spec(&self) -> int {
        if self.progress@.len() == 0 {
            0
        } else {
            self.progress@.len() + if self.change_labels@.len() > 0 {
                1int
            } else {
                0
            }
        }
    }

    /// The number of rows.
    pub open spec fn row_count_spec(&self) -> int {
        self.progress_row_start_spec() + self.progress_row_count_spec()
    }

    /// A state with no rows.
    pub fn new() -> (s: Self)
        ensures
            s.wf(),
            s.rows_fit(),
            s.change_labels@.len() == 0,
            s.progress@.len() == 0,
            s.starts().len() == 0,
            !s.reset_diff_indexes,
            s.status is None,
    {
        let s = FileChangeOutputState {
            change_labels: Vec::new(),
            progress: Vec::new(),
            diff_line_starts: Vec::new(),
            indexed_diff_lens: Vec::new(),
            reset_diff_indexes: false,
            status: None,
            indexed: Ghost(Seq::empty()),
        };
        proof {
            assert(s.starts() =~= Seq::<Seq<usize>>::empty());
        }
        s
    }

    /// The row of the path of change `change_index`.
    pub fn change_row_start(&self, change_index: usize) -> (row: usize)
        requires
            rows_before(self.starts(), self.starts().len() as int) <= usize::MAX,
        ensures
            row == change_row_start_of(self.starts(), change_index as int),
    {
        let ghost starts = self.starts();
        let limit = if change_index < self.diff_line_starts.len() {
            change_index
        } else {
            self.diff_line_starts.len()
        };
        let mut total: usize = 0;
        let mut i: usize = 0;
        while i < limit
            invariant
                starts == self.starts(),
                limit <= starts.len(),
                0 <= i <= limit,
                total == rows_before(starts, i as int),
                rows_before(starts, starts.len() as int) <= usize::MAX,
            decreases limit - i,
        {
            proof {
                lemma_rows_before_monotone(starts, (i + 1) as int, starts.len() as int);
                assert(starts[i as int] == self.diff_line_starts@[i as int]@);
            }
            total = total + 1 + self.diff_line_starts[i].len() + 1;
            i = i + 1;
        }
        total
    }

    /// The first row of the progress lines.
    pub fn progress_row_start(&self) -> (row: usize)
        requires
            self.rows_fit(),
        ensures
            row == self.progress_row_start_spec(),
    {
        let ghost starts = self.starts();
        let mut lines: usize = 0;
        let mut i: usize = 0;
        proof {
            lemma_rows_before_monotone(starts, 0, starts.len() as int);
        }
        while i < self.diff_line_starts.len()
            invariant
                starts == self.starts(),
                0 <= i <= starts.len(),
                lines == diff_rows(starts, i as int),
                diff_rows(starts, starts.len() as int) <= usize::MAX,
            decreases starts.len() - i,
        {
            proof {
                lemma_rows_before_monotone(starts, (i + 1) as int, starts.len() as int);
                assert(starts[i as int] == self.diff_line_starts@[i as int]@);
            }
            lines = lines + self.diff_line_starts[i].len();
            i = i + 1;
        }
        let separators = if self.change_labels.len() > 0 {
            self.change_labels.len() - 1
        } else {
            0
        };
        self.change_labels.len() + lines + separators
    }

    /// The number of progress rows, with the blank row before them.
    pub fn progress_row_count(&self) -> (n: usize)
        requires
            self.rows_fit(),
        ensures
            n == self.progress_row_count_spec(),
    {
        proof {
            lemma_rows_before_monotone(self.starts(), 0, self.starts().len() as int);
        }
        if self.progress.len() == 0 {
            0
        } else {
            self.progress.len() + if self.change_labels.len() > 0 {
                1
            } else {
                0
            }
        }
    }

    /// The number of rows.
    pub fn row_count(&self) -> (n: usize)
        requires
            self.rows_fit(),
        ensures
            n == self.progress_row_start_spec() + self.progress_row_count_spec(),
    {
        proof {
            lemma_rows_before_monotone(self.starts(), 0, self.starts().len() as int);
        }
        self.progress_row_start() + self.progress_row_count()
    }

    /// Replaces the path labels and progress lines. A change in the number
    /// of labels or of status makes the next diffs be indexed from scratch;
    /// otherwise changed labels are remeasured and changed progress lines
    /// spliced.
    pub fn configure(
        &mut self,
        change_labels: Vec<String>,
        progress: Vec<String>,
        status: ToolStatus,
    ) -> (updates: Vec<ListUpdate>)
        requires
            old(self).wf(),
            old(self).rows_fit(),
            rows_before(old(self).starts(), old(self).starts().len() as int) + 2
                * change_labels@.len() + progress@.len() + 2 <= usize::MAX,
        ensures
            final(self).wf(),
            final(self).rows_fit(),
            final(self).diff_line_starts == old(self).diff_line_starts,
            final(self).indexed_diff_lens == old(self).indexed_diff_lens,
            final(self).indexed == old(self).indexed,
            final(self).change_labels@ == change_labels@,
            final(self).progress@ == progress@,
            final(self).status == Some(status),
            old(self).change_labels@.len() != change_labels@.len() ==> final(self).reset_diff_indexes
                && updates@.len() == 0,
            old(self).change_labels@.len() == change_labels@.len() ==> {
                &&& final(self).reset_diff_indexes == (old(self).reset_diff_indexes || (old(
                    self,
                ).status is Some && old(self).status != Some(status)))
                &&& updates@ == label_remeasures(
                    old(self).change_labels.deep_view(),
                    change_labels.deep_view(),
                    old(self).starts(),
                    change_labels@.len() as int,
                ) + if old(self).progress.deep_view() != progress.deep_view() {
                    seq![
                        ListUpdate::Splice {
                            start: final(self).progress_row_start_spec() as usize,
                            old_count: old(self).progress_row_count_spec() as usize,
                            new_count: final(self).progress_row_count_spec() as usize,
                        },
                    ]
                } else {
                    Seq::empty()
                }
            },
    {
        let mut updates: Vec<ListUpdate> = Vec::new();
        if let Some(old_status) = self.status {
            if old_status != status {
                self.reset_diff_indexes = true;
            }
        }
        if self.change_labels.len() != change_labels.len() {
            self.change_labels = change_labels;
            self.progress = progress;
            self.reset_diff_indexes = true;
            self.status = Some(status);
            return updates;
        }
        let ghost starts = self.starts();
        let ghost old_labels = self.change_labels.deep_view();
        let n = change_labels.len();
        let mut i: usize = 0;
        while i < n
            invariant
                starts == self.starts(),
                old_labels == self.change_labels.deep_view(),
                n == change_labels@.len(),
                n == self.change_labels@.len(),
                0 <= i <= n,
                rows_before(starts, starts.len() as int) <= usize::MAX,
                updates@ == label_remeasures(
                    old_labels,
                    change_labels.deep_view(),
                    starts,
                    i as int,
                ),
            decreases n - i,
        {
            let differs = self.change_labels[i] != change_labels[i];
            proof {
                assert(old_labels[i as int] == self.change_labels@[i as int]@);
                assert(change_labels.deep_view()[i as int] == change_labels@[i as int]@);
            }
            if differs {
                let row = self.change_row_start(i);
                updates.push(ListUpdate::Remeasure { index: row });
            }
            i = i + 1;
        }
        self.change_labels = change_labels;
        if !same_strings(&self.progress, &progress) {
            let start = self.progress_row_start();
            let old_count = self.progress_row_count();
            self.progress = progress;
            let new_count = self.progress_row_count();
            updates.push(ListUpdate::Splice { start, old_count, new_count });
        } else {
            self.progress = progress;
        }
        self.status = Some(status);
        updates
    }

    /// Whether the diffs of `changes` must be indexed from scratch.
    fn needs_reset(&self, changes: &[FileUpdateChange]) -> (r: bool)
        requires
            self.wf(),
        ensures
            r == self.must_reset(diff_bytes(changes@)),
    {
        let ghost diffs = diff_bytes(changes@);
        if self.reset_diff_indexes || changes.len() != self.diff_line_starts.len() {
            return true;
        }
        let mut i: usize = 0;
        while i < changes.len()
            invariant
                diffs == diff_bytes(changes@),
                self.wf(),
                changes@.len() == self.starts().len(),
                0 <= i <= changes@.len(),
                forall|j: int|
                    0 <= j < i ==> !(#[trigger] diffs[j].len() < self.indexed_diff_lens@[j]
                        || !vstd::utf8::is_char_boundary(
                        diffs[j],
                        self.indexed_diff_lens@[j] as int,
                    )),
            decreases changes@.len() - i,
        {
            let diff = changes[i].diff.as_str();
            let indexed_len = self.indexed_diff_lens[i];
            if diff.as_bytes().len() < indexed_len || !diff.is_char_boundary(indexed_len) {
                proof {
                    assert(diffs[i as int] == diff.spec_bytes());
                    assert(0 <= i < diffs.len() && (i >= self.indexed_diff_lens@.len()
                        || diffs[i as int].len() < self.indexed_diff_lens@[i as int]
                        || !vstd::utf8::is_char_boundary(
                        diffs[i as int],
                        self.indexed_diff_lens@[i as int] as int,
                    )));
                }
                return true;
            }
            proof {
                assert(diffs[i as int] == diff.spec_bytes());
            }
            i = i + 1;
        }
        false
    }

    /// Brings the line indexes up to date with the diffs of `changes`: from
    /// scratch when the number of changes differs or a diff shrank or was
    /// replaced, otherwise by indexing only the bytes appended to each diff.
    pub fn sync_diff_indexes(&mut self, changes: &[FileUpdateChange]) -> (updates: Vec<
        ListUpdate,
    >)
        requires
            old(self).wf(),
            diff_budget(diff_bytes(changes@), changes@.len() as int) + 2 * old(
                self,
            ).change_labels@.len() + old(self).progress@.len() + 2 <= usize::MAX,
        ensures
            final(self).wf(),
            final(self).rows_fit(),
            final(self).change_labels == old(self).change_labels,
            final(self).progress == old(self).progress,
            final(self).status == old(self).status,
            !final(self).reset_diff_indexes,
            old(self).must_reset(diff_bytes(changes@)) ==> {
                &&& final(self).indexed@ == diff_bytes(changes@)
                &&& updates@ == seq![ListUpdate::Reset { new_count: final(self).row_count_spec() as usize }]
            },
            !old(self).must_reset(diff_bytes(changes@)) ==> {
                let diffs = diff_bytes(changes@);
                &&& final(self).indexed@.len() == diffs.len()
                &&& forall|i: int|
                    0 <= i < diffs.len() ==> {
                        let old_len = old(self).indexed_diff_lens@[i] as int;
                        &&& #[trigger] final(self).indexed@[i] == old(self).indexed@[i]
                            + diffs[i].subrange(old_len, diffs[i].len() as int)
                        &&& final(self).starts()[i] == old(self).starts()[i] + newline_offsets(
                            diffs[i],
                            old_len,
                            diffs[i].len() as int,
                        )
                    }
                &&& updates@ == sync_updates(
                    final(self).starts(),
                    old(self).starts(),
                    old(self).indexed_diff_lens@,
                    diffs,
                    diffs.len() as int,
                )
            },
            // Indexing diffs that extend what was indexed before gives the
            // index of each whole diff.
            forall|i: int|
                0 <= i < changes@.len() && (old(self).must_reset(diff_bytes(changes@)) || old(
                    self,
                ).indexed@[i] == diff_bytes(changes@)[i].subrange(
                    0,
                    old(self).indexed_diff_lens@[i] as int,
                )) ==> #[trigger] final(self).starts()[i] == line_starts_of(
                    diff_bytes(changes@)[i],
                ),
    {
        let ghost diffs = diff_bytes(changes@);
        if self.needs_reset(changes) {
            self.replace_diff_indexes(changes);
            self.reset_diff_indexes = false;
            let mut updates: Vec<ListUpdate> = Vec::new();
            let new_count = self.row_count();
            updates.push(ListUpdate::Reset { new_count });
            return updates;
        }
        let ghost old_starts = self.starts();
        let ghost old_lens = self.indexed_diff_lens@;
        let ghost old_indexed = self.indexed@;
        proof {
            assert forall|j: int| 0 <= j < diffs.len() implies #[trigger] diffs[j].len()
                >= old_lens[j] && vstd::utf8::is_char_boundary(diffs[j], old_lens[j] as int) by {
                if !(diffs[j].len() >= old_lens[j] && vstd::utf8::is_char_boundary(
                    diffs[j],
                    old_lens[j] as int,
                )) {
                    assert(0 <= j < diffs.len() && (j >= old_lens.len() || diffs[j].len()
                        < old_lens[j] || !vstd::utf8::is_char_boundary(
                        diffs[j],
                        old_lens[j] as int,
                    )));
                }
            }
            assert forall|j: int| 0 <= j < old_starts.len() implies #[trigger] old_starts[j]
                == line_starts_of(old_indexed[j]) && old_indexed[j].len() == old_lens[j] by {
                assert(self.starts()[j] == line_starts_of(self.indexed@[j]));
            }
        }
        let n = changes.len();
        let mut updates: Vec<ListUpdate> = Vec::new();
        let mut c: usize = 0;
        while c < n
            invariant
                diffs == diff_bytes(changes@),
                n == changes@.len(),
                n == diffs.len(),
                0 <= c <= n,
                self.wf(),
                self.starts().len() == n,
                old_starts.len() == n,
                old_lens.len() == n,
                old_indexed.len() == n,
                self.change_labels == old(self).change_labels,
                self.progress == old(self).progress,
                self.status == old(self).status,
                !self.reset_diff_indexes,
                diff_budget(diffs, n as int) + 2 * self.change_labels@.len() + self.progress@.len()
                    + 2 <= usize::MAX,
                forall|j: int|
                    0 <= j < n ==> #[trigger] diffs[j].len() >= old_lens[j]
                        && vstd::utf8::is_char_boundary(diffs[j], old_lens[j] as int),
                forall|j: int|
                    0 <= j < c ==> {
                        &&& #[trigger] self.indexed@[j] == old_indexed[j] + diffs[j].subrange(
                            old_lens[j] as int,
                            diffs[j].len() as int,
                        )
                        &&& self.starts()[j] == old_starts[j] + newline_offsets(
                            diffs[j],
                            old_lens[j] as int,
                            diffs[j].len() as int,
                        )
                        &&& self.indexed_diff_lens@[j] == diffs[j].len()
                    },
                forall|j: int|
                    c <= j < n ==> {
                        &&& #[trigger] self.indexed@[j] == old_indexed[j]
                        &&& self.starts()[j] == old_starts[j]
                        &&& self.indexed_diff_lens@[j] == old_lens[j]
                    },
                forall|j: int|
                    0 <= j < n ==> #[trigger] old_starts[j] == line_starts_of(old_indexed[j])
                        && old_indexed[j].len() == old_lens[j],
                updates@ == sync_updates(self.starts(), old_starts, old_lens, diffs, c as int),
            decreases n - c,
        {
            let indexed_len = self.indexed_diff_lens[c];
            let bytes = changes[c].diff.as_str().as_bytes();
            proof {
                assert(bytes@ == diffs[c as int]);
                assert forall|j: int| 0 <= j < n implies #[trigger] self.indexed@[j].len()
                    <= diffs[j].len() by {
                    if j < c {
                        assert(self.indexed@[j] == old_indexed[j] + diffs[j].subrange(
                            old_lens[j] as int,
                            diffs[j].len() as int,
                        ));
                    } else {
                        assert(self.indexed@[j] == old_indexed[j]);
                    }
                }
                lemma_indexes_within_budget(self.starts(), self.indexed@, diffs);
            }
            proof {
                assert(self.indexed@[c as int] == old_indexed[c as int]);
                assert(indexed_len == old_lens[c as int]);
                assert(diffs[c as int].len() >= old_lens[c as int]);
            }
            if bytes.len() != indexed_len {
                let ghost before = self.starts();
                let ghost before_indexed = self.indexed@;
                let ghost before_lens = self.indexed_diff_lens@;
                proof {
                    lemma_rows_before_monotone(self.starts(), c as int, n as int);
                }
                let row_start = self.change_row_start(c) + 1;
                let old_line_count = self.diff_line_starts[c].len();
                self.extend_diff_index(c, bytes);
                let new_line_count = self.diff_line_starts[c].len();
                proof {
                    lemma_newline_offsets_bounds(bytes@, indexed_len as int, bytes@.len() as int);
                    lemma_sync_updates_prefix(self.starts(), before, old_starts, old_lens, diffs, c as int);
                    lemma_rows_before_prefix(self.starts(), before, c as int);
                    assert forall|j: int| 0 <= j < n implies #[trigger] self.indexed@[j].len()
                        <= diffs[j].len() by {
                        if j != c {
                            assert(self.starts()[j] == before[j]);
                        }
                        if j < c {
                            assert(before_indexed[j] == old_indexed[j] + diffs[j].subrange(
                                old_lens[j] as int,
                                diffs[j].len() as int,
                            ));
                        } else if j > c {
                            assert(before_indexed[j] == old_indexed[j]);
                        }
                    }
                    lemma_indexes_within_budget(self.starts(), self.indexed@, diffs);
                    lemma_rows_before_monotone(self.starts(), c as int + 1, n as int);
                    assert forall|j: int| 0 <= j < c + 1 implies {
                        &&& #[trigger] self.indexed@[j] == old_indexed[j] + diffs[j].subrange(
                            old_lens[j] as int,
                            diffs[j].len() as int,
                        )
                        &&& self.starts()[j] == old_starts[j] + newline_offsets(
                            diffs[j],
                            old_lens[j] as int,
                            diffs[j].len() as int,
                        )
                        &&& self.indexed_diff_lens@[j] == diffs[j].len()
                    } by {
                        if j < c {
                            assert(self.starts()[j] == before[j]);
                            assert(before_indexed[j] == old_indexed[j] + diffs[j].subrange(
                                old_lens[j] as int,
                                diffs[j].len() as int,
                            ));
                        } else {
                            assert(before_indexed[j] == old_indexed[j]);
                            assert(before[j] == old_starts[j]);
                        }
                    }
                    assert forall|j: int| c + 1 <= j < n implies {
                        &&& #[trigger] self.indexed@[j] == old_indexed[j]
                        &&& self.starts()[j] == old_starts[j]
                        &&& self.indexed_diff_lens@[j] == old_lens[j]
                    } by {
                        assert(self.starts()[j] == before[j]);
                        assert(before_indexed[j] == old_indexed[j]);
                    }
                }
                let added = new_line_count - old_line_count;
                let ghost prior = updates@;
                if added > 0 {
                    let insertion = row_start + old_line_count;
                    updates.push(
                        ListUpdate::Splice { start: insertion, old_count: 0, new_count: added },
                    );
                }
                if old_line_count > 0 {
                    let last_old_line = row_start + old_line_count - 1;
                    updates.push(ListUpdate::Remeasure { index: last_old_line });
                }
                proof {
                    assert(updates@ =~= prior + change_updates(
                        self.starts(),
                        old_starts,
                        old_lens,
                        diffs,
                        c as int,
                    ));
                }
            } else {
                proof {
                    assert(diffs[c as int].subrange(old_lens[c as int] as int, diffs[c as int].len() as int) =~= Seq::<u8>::empty());
                    assert(old_indexed[c as int] + Seq::<u8>::empty() =~= old_indexed[c as int]);
                    assert(newline_offsets(diffs[c as int], old_lens[c as int] as int, diffs[c as int].len() as int) =~= Seq::<usize>::empty());
                    assert(old_starts[c as int] + Seq::<usize>::empty() =~= old_starts[c as int]);
                    assert(change_updates(self.starts(), old_starts, old_lens, diffs, c as int) =~= Seq::<ListUpdate>::empty());
                    assert(updates@ + Seq::<ListUpdate>::empty() =~= updates@);
                    assert forall|j: int| 0 <= j < c + 1 implies {
                        &&& #[trigger] self.indexed@[j] == old_indexed[j] + diffs[j].subrange(
                            old_lens[j] as int,
                            diffs[j].len() as int,
                        )
                        &&& self.starts()[j] == old_starts[j] + newline_offsets(
                            diffs[j],
                            old_lens[j] as int,
                            diffs[j].len() as int,
                        )
                        &&& self.indexed_diff_lens@[j] == diffs[j].len()
                    } by {
                        if j == c {
                            assert(self.indexed@[j] == old_indexed[j]);
                        }
                    }
                }
            }
            c = c + 1;
        }
        proof {
            assert forall|j: int| 0 <= j < n implies #[trigger] self.indexed@[j].len()
                <= diffs[j].len() by {
                assert(self.indexed@[j] == old_indexed[j] + diffs[j].subrange(
                    old_lens[j] as int,
                    diffs[j].len() as int,
                ));
            }
            lemma_indexes_within_budget(self.starts(), self.indexed@, diffs);
            assert forall|i: int|
                0 <= i < n && old_indexed[i] == diffs[i].subrange(0, old_lens[i] as int)
                implies #[trigger] self.starts()[i] == line_starts_of(diffs[i]) by {
                assert(self.indexed@[i] =~= diffs[i]);
            }
        }
        updates
    }

    /// Extends the line index of change `c` with the newlines of `bytes`
    /// past what was indexed; the other changes keep theirs.
    fn extend_diff_index(&mut self, c: usize, bytes: &[u8])
        requires
            old(self).wf(),
            c < old(self).starts().len(),
            old(self).indexed_diff_lens@[c as int] <= bytes@.len(),
        ensures
            final(self).wf(),
            final(self).change_labels == old(self).change_labels,
            final(self).progress == old(self).progress,
            final(self).status == old(self).status,
            final(self).reset_diff_indexes == old(self).reset_diff_indexes,
            final(self).starts().len() == old(self).starts().len(),
            final(self).indexed@.len() == old(self).indexed@.len(),
            final(self).indexed_diff_lens@.len() == old(self).indexed_diff_lens@.len(),
            forall|j: int|
                0 <= j < old(self).starts().len() && j != c ==> {
                    &&& #[trigger] final(self).starts()[j] == old(self).starts()[j]
                    &&& final(self).indexed@[j] == old(self).indexed@[j]
                    &&& final(self).indexed_diff_lens@[j] == old(self).indexed_diff_lens@[j]
                },
            final(self).starts()[c as int] == old(self).starts()[c as int] + newline_offsets(
                bytes@,
                old(self).indexed_diff_lens@[c as int] as int,
                bytes@.len() as int,
            ),
            final(self).indexed@[c as int] == old(self).indexed@[c as int] + bytes@.subrange(
                old(self).indexed_diff_lens@[c as int] as int,
                bytes@.len() as int,
            ),
            final(self).indexed_diff_lens@[c as int] == bytes@.len(),
    {
        let indexed_len = self.indexed_diff_lens[c];
        let ghost before = self.starts();
        let ghost old_indexed = self.indexed@[c as int];
        proof {
            assert(before[c as int] == line_starts_of(old_indexed));
        }
        push_newline_offsets(&mut self.diff_line_starts[c], bytes, indexed_len);
        self.indexed_diff_lens.set(c, bytes.len());
        proof {
            let appended = bytes@.subrange(indexed_len as int, bytes@.len() as int);
            let whole = old_indexed + appended;
            self.indexed = Ghost(self.indexed@.update(c as int, whole));
            law_line_starts_extend(old_indexed, appended);
            lemma_offsets_shift(old_indexed, bytes@, indexed_len as int);
            assert(self.starts()[c as int] == before[c as int] + newline_offsets(
                bytes@,
                indexed_len as int,
                bytes@.len() as int,
            ));
            assert forall|j: int| 0 <= j < before.len() && j != c implies #[trigger] self.starts()[j]
                == before[j] by {
                assert(self.starts()[j] == self.diff_line_starts@[j]@);
            }
            assert forall|i: int| 0 <= i < self.starts().len() implies #[trigger] self.starts()[i]
                == line_starts_of(self.indexed@[i]) && self.indexed_diff_lens@[i]
                == self.indexed@[i].len() by {
                if i != c {
                    assert(before[i] == line_starts_of(old(self).indexed@[i]));
                }
            }
        }
    }

    /// Indexes the diff of every change from scratch.
    fn replace_diff_indexes(&mut self, changes: &[FileUpdateChange])
        requires
            diff_budget(diff_bytes(changes@), changes@.len() as int) + 2 * old(
                self,
            ).change_labels@.len() + old(self).progress@.len() + 2 <= usize::MAX,
        ensures
            final(self).wf(),
            final(self).rows_fit(),
            final(self).indexed@ == diff_bytes(changes@),
            final(self).change_labels == old(self).change_labels,
            final(self).progress == old(self).progress,
            final(self).status == old(self).status,
            final(self).reset_diff_indexes == old(self).reset_diff_indexes,
    {
        let ghost diffs = diff_bytes(changes@);
        let mut starts: Vec<Vec<usize>> = Vec::new();
        let mut lens: Vec<usize> = Vec::new();
        let mut i: usize = 0;
        while i < changes.len()
            invariant
                diffs == diff_bytes(changes@),
                0 <= i <= changes@.len(),
                starts@.len() == i,
                lens@.len() == i,
                forall|j: int|
                    0 <= j < i ==> #[trigger] starts@[j]@ == line_starts_of(diffs[j])
                        && lens@[j] == diffs[j].len(),
            decreases changes@.len() - i,
        {
            let bytes = changes[i].diff.as_str().as_bytes();
            let mut lines: Vec<usize> = Vec::new();
            lines.push(0);
            push_newline_offsets(&mut lines, bytes, 0);
            proof {
                assert(bytes@ == diffs[i as int]);
                assert(lines@ =~= line_starts_of(bytes@));
            }
            starts.push(lines);
            lens.push(bytes.len());
            i = i + 1;
        }
        self.diff_line_starts = starts;
        self.indexed_diff_lens = lens;
        self.indexed = Ghost(diffs);
        proof {
            assert(self.wf());
            lemma_indexes_within_budget(self.starts(), self.indexed@, diffs);
        }
    }

    /// The row at `index`, if there is one.
    pub fn row(&self, index: usize) -> (r: Option<FileChangeOutputRow>)
        requires
            self.wf(),
        ensures
            match r {
                Some(row) => row_from(
                    self.change_labels.deep_view(),
                    self.starts(),
                    self.indexed_diff_lens@,
                    self.progress.deep_view(),
                    0,
                    index as int,
                ) == Some(row.row_view()),
                None => row_from(
                    self.change_labels.deep_view(),
                    self.starts(),
                    self.indexed_diff_lens@,
                    self.progress.deep_view(),
                    0,
                    index as int,
                ) is None,
            },
    {
        let ghost labels = self.change_labels.deep_view();
        let ghost starts = self.starts();
        let ghost lens = self.indexed_diff_lens@;
        let ghost progress = self.progress.deep_view();
        let ghost goal = row_from(labels, starts, lens, progress, 0, index as int);
        let mut rest = index;
        let mut c: usize = 0;
        while c < self.change_labels.len()
            invariant
                self.wf(),
                labels == self.change_labels.deep_view(),
                starts == self.starts(),
                lens == self.indexed_diff_lens@,
                progress == self.progress.deep_view(),
                0 <= c <= labels.len(),
                goal == row_from(labels, starts, lens, progress, c as int, rest as int),
                goal == row_from(labels, starts, lens, progress, 0, index as int),
            decreases labels.len() - c,
        {
            if rest == 0 {
                proof {
                    assert(labels[c as int] == self.change_labels@[c as int]@);
                    assert(goal == Some(RowView::Owned(labels[c as int])));
                }
                let label = self.change_labels[c].clone();
                assert(label@ == labels[c as int]);
                return Some(FileChangeOutputRow::Owned(label));
            }
            rest = rest - 1;
            if c >= self.diff_line_starts.len() {
                return None;
            }
            proof {
                assert(starts[c as int] == self.diff_line_starts@[c as int]@);
            }
            let line_count = self.diff_line_starts[c].len();
            if rest < line_count {
                let start = self.diff_line_starts[c][rest];
                let end = if rest + 1 < line_count {
                    self.diff_line_starts[c][rest + 1].saturating_sub(1)
                } else {
                    self.indexed_diff_lens[c]
                };
                return Some(FileChangeOutputRow::Diff { change_index: c, start, end });
            }
            rest = rest - line_count;
            if c + 1 < self.change_labels.len() {
                if rest == 0 {
                    return Some(FileChangeOutputRow::Owned(String::new()));
                }
                rest = rest - 1;
            }
            c = c + 1;
        }
        if self.progress.len() > 0 && self.change_labels.len() > 0 {
            if rest == 0 {
                return Some(FileChangeOutputRow::Owned(String::new()));
            }
            rest = rest - 1;
        }
        if rest < self.progress.len() {
            proof {
                assert(progress[rest as int] == self.progress@[rest as int]@);
            }
            Some(FileChangeOutputRow::Owned(self.progress[rest].clone()))
        } else {
            None
        }
    }
}

} // verus!
