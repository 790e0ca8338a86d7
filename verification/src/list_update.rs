//! Changes to a virtual list of rows, applied by the view that shows it.
use vstd::prelude::*;

verus! {

/// One change to the rows of a virtual list.
#[derive(Clone, Copy, Debug, PartialEq, Eq, Structural)]
pub enum ListUpdate {
    /// The `old_count` rows from `start` are replaced by `new_count` rows.
    Splice { start: usize, old_count: usize, new_count: usize },
    /// The row at `index` keeps its place but must be measured again.
    Remeasure { index: usize },
    /// All rows are replaced by `new_count` rows.
    Reset { new_count: usize },
}

/// Status of a tool call as the transcript shows it.
#[derive(Clone, Copy, Debug, PartialEq, Eq, Structural)]
pub enum ToolStatus {
    Running,
    Succeeded,
    Failed,
}

impl ToolStatus {
    /// Whether the tool call has finished, successfully or not.
    pub fn done(self) -> (r: bool)
        ensures
            r == (self != ToolStatus::Running),
    {
        !matches!(self, ToolStatus::Running)
    }
}

/// Whether two lists of strings hold the same strings in the same order.
pub fn same_strings(a: &Vec<String>, b: &Vec<String>) -> (r: bool)
    ensures
        r == (a.deep_view() == b.deep_view()),
{
    if a.len() != b.len() {
        proof {
            assert(a.deep_view().len() != b.deep_view().len());
        }
        return false;
    }
    let mut i: usize = 0;
    while i < a.len()
        invariant
            a.len() == b.len(),
            0 <= i <= a.len(),
            forall|j: int| 0 <= j < i ==> a@[j]@ == b@[j]@,
        decreases a.len() - i,
    {
        if a[i] != b[i] {
            proof {
                assert(a.deep_view()[i as int] != b.deep_view()[i as int]);
            }
            return false;
        }
        i = i + 1;
    }
    proof {
        assert(a.deep_view() =~= b.deep_view());
    }
    true
}

} // verus!
