//! Rows of a command tool's detail view: owned header lines, one row per line
//! of the streamed output, then owned trailer lines.
use vstd::prelude::*;
use vstd::string::StringSliceAdditionalSpecFns;
use crate::line_index::{
    line_starts_of, newline_offsets, push_newline_offsets, law_line_starts_extend,
    lemma_offsets_shift,
};
use crate::list_update::{ListUpdate, ToolStatus, same_strings};

verus! {

/// A row of the command detail view.
#[derive(Clone, Debug, PartialEq, Eq)]
pub enum CommandOutputRow {
    /// A line held by the view itself.
    Owned(String),
    /// The output bytes in `start..end`.
    Output { start: usize, end: usize },
}

/// The line index of a command's output, with the lines shown around it.
pub struct CommandOutputState {
    pub before_output: Vec<String>,
    pub after_output: Vec<String>,
    pub output_line_starts: Vec<usize>,
    pub indexed_output_len: usize,
    pub output_present: bool,
    pub reset_output_index: bool,
    pub status: Option<ToolStatus>,
    /// The output bytes that the line index describes.
    pub indexed: Ghost<Seq<u8>>,
}

impl CommandOutputState {
    /// The line index describes `indexed`, which is empty while no output is present.
    pub open spec fn wf(&self) -> bool {
        &&& self.output_present ==> self.output_line_starts@ == line_starts_of(self.indexed@)
        &&& !self.output_present ==> self.output_line_starts@.len() == 0 && self.indexed@.len() == 0
        &&& self.indexed_output_len == self.indexed@.len()
    }

    /// Whether the next output must be indexed from scratch.
    pub open spec fn must_reset(&self, output: Option<Seq<u8>>) -> bool {
        ||| self.reset_output_index
        ||| output.is_some() != self.output_present
        ||| match output {
            Some(bytes) => bytes.len() < self.indexed_output_len || !vstd::utf8::is_char_boundary(
                bytes,
                self.indexed_output_len as int,
            ),
            None => false,
        }
    }

    /// A state with no rows.
    pub fn new() -> (s: Self)
        ensures
            s.wf(),
            s.before_output@.len() == 0,
            s.after_output@.len() == 0,
            s.output_line_starts@.len() == 0,
            s.indexed_output_len == 0,
            !s.output_present,
            !s.reset_output_index,
            s.status is None,
    {
        CommandOutputState {
            before_output: Vec::new(),
            after_output: Vec::new(),
            output_line_starts: Vec::new(),
            indexed_output_len: 0,
            output_present: false,
            reset_output_index: false,
            status: None,
            indexed: Ghost(Seq::empty()),
        }
    }

    /// The current line index of the output.
    pub fn output_line_starts(&self) -> (r: Vec<usize>)
        ensures
            r@ == self.output_line_starts@,
    {
        self.output_line_starts.clone()
    }

    /// Replaces the lines shown before and after the output; a change of
    /// status makes the next output be indexed from scratch.
    pub fn configure(
        &mut self,
        before_output: Vec<String>,
        after_output: Vec<String>,
        status: ToolStatus,
    ) -> (updates: Vec<ListUpdate>)
        requires
            old(self).wf(),
            before_output@.len() + old(self).output_line_starts@.len() + old(self).after_output@.len() <= usize::MAX,
        ensures
            final(self).wf(),
            final(self).reset_output_index == (old(self).reset_output_index || (old(self).status
                is Some && old(self).status != Some(status))),
            final(self).status == Some(status),
            final(self).before_output@ == before_output@,
            final(self).after_output@ == after_output@,
            final(self).output_line_starts@ == old(self).output_line_starts@,
            final(self).indexed_output_len == old(self).indexed_output_len,
            final(self).output_present == old(self).output_present,
            final(self).indexed@ == old(self).indexed@,
            updates@ == (if old(self).before_output.deep_view() != before_output.deep_view() {
                seq![
                    ListUpdate::Splice {
                        start: 0,
                        old_count: old(self).before_output@.len() as usize,
                        new_count: before_output@.len() as usize,
                    },
                ]
            } else {
                Seq::empty()
            }) + (if old(self).after_output.deep_view() != after_output.deep_view() {
                seq![
                    ListUpdate::Splice {
                        start: (before_output@.len() + old(self).output_line_starts@.len()) as usize,
                        old_count: old(self).after_output@.len() as usize,
                        new_count: after_output@.len() as usize,
                    },
                ]
            } else {
                Seq::empty()
            }),
    {
        let mut updates: Vec<ListUpdate> = Vec::new();
        if let Some(old_status) = self.status {
            if old_status != status {
                self.reset_output_index = true;
            }
        }
        if !same_strings(&self.before_output, &before_output) {
            let old_count = self.before_output.len();
            let new_count = before_output.len();
            self.before_output = before_output;
            updates.push(ListUpdate::Splice { start: 0, old_count, new_count });
        } else {
            self.before_output = before_output;
        }
        if !same_strings(&self.after_output, &after_output) {
            let start = self.before_output.len() + self.output_line_starts.len();
            let old_count = self.after_output.len();
            let new_count = after_output.len();
            self.after_output = after_output;
            updates.push(ListUpdate::Splice { start, old_count, new_count });
        } else {
            self.after_output = after_output;
        }
        self.status = Some(status);
        proof {
            assert(updates@ =~= (if old(self).before_output.deep_view()
                != self.before_output.deep_view() {
                seq![
                    ListUpdate::Splice {
                        start: 0,
                        old_count: old(self).before_output@.len() as usize,
                        new_count: self.before_output@.len() as usize,
                    },
                ]
            } else {
                Seq::empty()
            }) + (if old(self).after_output.deep_view() != self.after_output.deep_view() {
                seq![
                    ListUpdate::Splice {
                        start: (self.before_output@.len() + old(self).output_line_starts@.len()) as usize,
                        old_count: old(self).after_output@.len() as usize,
                        new_count: self.after_output@.len() as usize,
                    },
                ]
            } else {
                Seq::empty()
            }));
        }
        updates
    }

    /// Brings the line index up to date with `output`: from scratch when the
    /// output appeared, vanished, shrank or was replaced, otherwise by
    /// indexing only the bytes appended since the last call.
    pub fn sync_output_index(&mut self, output: Option<&str>) -> (updates: Vec<ListUpdate>)
        requires
            old(self).wf(),
            match output {
                Some(text) => old(self).before_output@.len() + text.spec_bytes().len() + 1
                    <= usize::MAX,
                None => true,
            },
        ensures
            final(self).wf(),
            final(self).before_output == old(self).before_output,
            final(self).after_output == old(self).after_output,
            final(self).status == old(self).status,
            !final(self).reset_output_index || (!old(self).must_reset(
                match output {
                    Some(text) => Some(text.spec_bytes()),
                    None => None,
                },
            ) && output is None && old(self).reset_output_index),
            old(self).must_reset(
                match output {
                    Some(text) => Some(text.spec_bytes()),
                    None => None,
                },
            ) ==> {
                &&& final(self).output_present == output.is_some()
                &&& final(self).indexed@ == match output {
                    Some(text) => text.spec_bytes(),
                    None => Seq::<u8>::empty(),
                }
                &&& updates@ == seq![
                    ListUpdate::Splice {
                        start: old(self).before_output@.len() as usize,
                        old_count: old(self).output_line_starts@.len() as usize,
                        new_count: final(self).output_line_starts@.len() as usize,
                    },
                ]
            },
            !old(self).must_reset(
                match output {
                    Some(text) => Some(text.spec_bytes()),
                    None => None,
                },
            ) ==> match output {
                None => {
                    &&& final(self).output_line_starts == old(self).output_line_starts
                    &&& final(self).indexed_output_len == old(self).indexed_output_len
                    &&& final(self).output_present == old(self).output_present
                    &&& final(self).reset_output_index == old(self).reset_output_index
                    &&& final(self).indexed@ == old(self).indexed@
                    &&& updates@.len() == 0
                },
                Some(text) => {
                    let bytes = text.spec_bytes();
                    let old_count = old(self).output_line_starts@.len();
                    let added = newline_offsets(
                        bytes,
                        old(self).indexed_output_len as int,
                        bytes.len() as int,
                    );
                    let insertion = old(self).before_output@.len() + old_count;
                    &&& final(self).output_present
                    &&& final(self).indexed@ == old(self).indexed@ + bytes.subrange(
                        old(self).indexed_output_len as int,
                        bytes.len() as int,
                    )
                    &&& final(self).output_line_starts@ == old(self).output_line_starts@ + added
                    &&& updates@ == (if added.len() > 0 {
                        seq![
                            ListUpdate::Splice {
                                start: insertion as usize,
                                old_count: 0,
                                new_count: added.len() as usize,
                            },
                        ]
                    } else {
                        Seq::empty()
                    }) + (if bytes.len() > old(self).indexed_output_len && old_count > 0 {
                        seq![ListUpdate::Remeasure { index: (insertion - 1) as usize }]
                    } else {
                        Seq::empty()
                    })
                },
            },
            // Indexing text that extends what was indexed before gives the
            // index of the whole text.
            match output {
                Some(text) => old(self).indexed@ == text.spec_bytes().subrange(
                    0,
                    old(self).indexed_output_len as int,
                ) || old(self).must_reset(Some(text.spec_bytes())) ==> final(self).output_line_starts@ == line_starts_of(text.spec_bytes()),
                None => true,
            },
    {
        let ghost out_bytes: Option<Seq<u8>> = match output {
            Some(text) => Some(text.spec_bytes()),
            None => None,
        };
        let mut must_reset = self.reset_output_index || output.is_some() != self.output_present;
        if let Some(text) = output {
            if text.len() < self.indexed_output_len || !text.is_char_boundary(
                self.indexed_output_len,
            ) {
                must_reset = true;
            }
        }
        assert(must_reset == self.must_reset(out_bytes));
        if must_reset {
            let updates = self.replace_output_index(output);
            self.reset_output_index = false;
            return updates;
        }
        let text = match output {
            Some(text) => text,
            None => {
                return Vec::new();
            },
        };
        let bytes = text.as_bytes();
        let ghost old_indexed = self.indexed@;
        let ghost old_starts = self.output_line_starts@;
        let old_len = self.indexed_output_len;
        let output_grew = bytes.len() > old_len;
        let old_line_count = self.output_line_starts.len();
        proof {
            crate::line_index::lemma_newline_offsets_bounds(
                old_indexed,
                0,
                old_indexed.len() as int,
            );
        }
        push_newline_offsets(&mut self.output_line_starts, bytes, old_len);
        self.indexed_output_len = bytes.len();
        proof {
            let appended = bytes@.subrange(old_len as int, bytes@.len() as int);
            let whole = old_indexed + appended;
            self.indexed = Ghost(whole);
            law_line_starts_extend(old_indexed, appended);
            // The scan of `bytes` past the old length equals the scan of the
            // same bytes placed after the old indexed text.
            lemma_offsets_shift(old_indexed, bytes@, old_len as int);
            crate::line_index::lemma_newline_offsets_bounds(
                bytes@,
                old_len as int,
                bytes@.len() as int,
            );
        }
        let added = self.output_line_starts.len() - old_line_count;
        let mut updates: Vec<ListUpdate> = Vec::new();
        if added > 0 {
            let insertion = self.before_output.len() + old_line_count;
            updates.push(ListUpdate::Splice { start: insertion, old_count: 0, new_count: added });
        }
        if output_grew && old_line_count > 0 {
            let last_old_line = self.before_output.len() + old_line_count - 1;
            updates.push(ListUpdate::Remeasure { index: last_old_line });
        }
        proof {
            if old_indexed == bytes@.subrange(0, old_len as int) {
                assert(self.indexed@ =~= bytes@);
            }
        }
        updates
    }

    /// Indexes `output` from scratch.
    fn replace_output_index(&mut self, output: Option<&str>) -> (updates: Vec<ListUpdate>)
        requires
            match output {
                Some(text) => old(self).before_output@.len() + text.spec_bytes().len() + 1
                    <= usize::MAX,
                None => true,
            },
        ensures
            final(self).wf(),
            final(self).before_output == old(self).before_output,
            final(self).after_output == old(self).after_output,
            final(self).status == old(self).status,
            final(self).reset_output_index == old(self).reset_output_index,
            final(self).output_present == output.is_some(),
            final(self).indexed@ == match output {
                Some(text) => text.spec_bytes(),
                None => Seq::<u8>::empty(),
            },
            updates@ == seq![
                ListUpdate::Splice {
                    start: old(self).before_output@.len() as usize,
                    old_count: old(self).output_line_starts@.len() as usize,
                    new_count: final(self).output_line_starts@.len() as usize,
                },
            ],
    {
        let old_line_count = self.output_line_starts.len();
        self.output_line_starts = Vec::new();
        self.output_present = output.is_some();
        match output {
            Some(text) => {
                let bytes = text.as_bytes();
                self.indexed_output_len = bytes.len();
                self.output_line_starts.push(0);
                push_newline_offsets(&mut self.output_line_starts, bytes, 0);
                self.indexed = Ghost(bytes@);
                proof {
                    assert(self.output_line_starts@ =~= line_starts_of(bytes@));
                }
            },
            None => {
                self.indexed_output_len = 0;
                self.indexed = Ghost(Seq::empty());
            },
        }
        let start = self.before_output.len();
        let mut updates: Vec<ListUpdate> = Vec::new();
        updates.push(
            ListUpdate::Splice {
                start,
                old_count: old_line_count,
                new_count: self.output_line_starts.len(),
            },
        );
        updates
    }

    /// The number of rows.
    pub fn row_count(&self) -> (n: usize)
        requires
            self.before_output@.len() + self.output_line_starts@.len() + self.after_output@.len()
                <= usize::MAX,
        ensures
            n == self.before_output@.len() + self.output_line_starts@.len()
                + self.after_output@.len(),
    {
        self.before_output.len() + self.output_line_starts.len() + self.after_output.len()
    }

    /// The row at `index`, if there is one.
    pub fn row(&self, index: usize) -> (r: Option<CommandOutputRow>)
        ensures
            r == self.row_spec(index as int),
    {
        if index < self.before_output.len() {
            return Some(CommandOutputRow::Owned(self.before_output[index].clone()));
        }
        let output_index = index - self.before_output.len();
        if output_index < self.output_line_starts.len() {
            let start = self.output_line_starts[output_index];
            let end = if output_index + 1 < self.output_line_starts.len() {
                self.output_line_starts[output_index + 1].saturating_sub(1)
            } else {
                self.indexed_output_len
            };
            return Some(CommandOutputRow::Output { start, end });
        }
        let after_index = output_index - self.output_line_starts.len();
        if after_index < self.after_output.len() {
            Some(CommandOutputRow::Owned(self.after_output[after_index].clone()))
        } else {
            None
        }
    }

    /// The row at `index`: the owned lines before the output, then one row
    /// per output line ending before the next line's newline, then the owned
    /// lines after it.
    pub open spec fn row_spec(&self, index: int) -> Option<CommandOutputRow> {
        let before = self.before_output@;
        let starts = self.output_line_starts@;
        let after = self.after_output@;
        if index < before.len() {
            Some(CommandOutputRow::Owned(before[index]))
        } else if index - before.len() < starts.len() {
            let i = index - before.len();
            Some(
                CommandOutputRow::Output {
                    start: starts[i],
                    end: if i + 1 < starts.len() {
                        if starts[i + 1] >= 1 {
                            (starts[i + 1] - 1) as usize
                        } else {
                            0
                        }
                    } else {
                        self.indexed_output_len
                    },
                },
            )
        } else if index - before.len() - starts.len() < after.len() {
            Some(CommandOutputRow::Owned(after[index - before.len() - starts.len()]))
        } else {
            None
        }
    }
}

} // verus!
