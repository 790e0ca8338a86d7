//! The state of a code-mode cell: the output it has produced, whether it
//! still runs, and which yield requests an observer has seen. Every item
//! pushed while the cell runs reaches an observer exactly once, in order.
use vstd::prelude::*;
use vstd::string::StringExecFns;
use crate::stored_values::{json_reformatted, reformat_json};
use crate::text::{decimal, push_decimal};

verus! {

/// Whether a cell runs, completed (with an error or not), or was terminated.
#[derive(Clone, Debug, PartialEq, Eq)]
pub enum CellStatus {
    Running,
    Completed { error_text: Option<String> },
    Terminated,
}

/// What an observer of a cell is told.
#[derive(Debug)]
pub enum RuntimeResponse<T> {
    /// The cell yielded: the output since the last response.
    Yielded { cell_id: String, content_items: Vec<T> },
    /// The cell completed: the rest of its output, and its error if any.
    Result { cell_id: String, content_items: Vec<T>, error_text: Option<String> },
    /// The cell was terminated: the rest of its output.
    Terminated { cell_id: String, content_items: Vec<T> },
}

impl<T> RuntimeResponse<T> {
    /// The output that the response hands over.
    pub open spec fn items(&self) -> Seq<T> {
        match self {
            RuntimeResponse::Yielded { content_items, .. } => content_items@,
            RuntimeResponse::Result { content_items, .. } => content_items@,
            RuntimeResponse::Terminated { content_items, .. } => content_items@,
        }
    }

    /// The id of the cell that the response is about.
    pub open spec fn cell_id(&self) -> Seq<char> {
        match self {
            RuntimeResponse::Yielded { cell_id, .. } => cell_id@,
            RuntimeResponse::Result { cell_id, .. } => cell_id@,
            RuntimeResponse::Terminated { cell_id, .. } => cell_id@,
        }
    }
}

/// Whether a response ends the cell's life.
pub open spec fn is_terminal_spec<T>(response: RuntimeResponse<T>) -> bool {
    !(response is Yielded)
}

/// Whether a response ends the cell's life.
pub fn is_terminal<T>(response: &RuntimeResponse<T>) -> (r: bool)
    ensures
        r == is_terminal_spec(*response),
{
    match response {
        RuntimeResponse::Yielded { .. } => false,
        _ => true,
    }
}

/// The response for a cell that does not exist.
pub fn missing_cell_response<T>(cell_id: String) -> (r: RuntimeResponse<T>)
    ensures
        r matches RuntimeResponse::Result { cell_id: id, content_items, error_text: Some(e) } && id
            == cell_id && content_items@.len() == 0 && e@ == "exec cell "@ + cell_id@
            + " not found"@,
{
    let mut text = String::from_str("exec cell ");
    text.append(cell_id.as_str());
    text.append(" not found");
    RuntimeResponse::Result { error_text: Some(text), cell_id, content_items: Vec::new() }
}

/// The state of a cell.
pub struct CellState<T> {
    pub id: String,
    pub output: Vec<T>,
    pub status: CellStatus,
    pub yield_generation: u64,
    pub observed_yield_generation: u64,
    /// Everything pushed while the cell ran.
    pub pushed: Ghost<Seq<T>>,
    /// Everything handed to observers.
    pub delivered: Ghost<Seq<T>>,
}

impl<T> CellState<T> {
    /// What was pushed is what was delivered followed by what waits; an
    /// observer never sees a yield request that was not made.
    pub open spec fn wf(&self) -> bool {
        &&& self.pushed@ == self.delivered@ + self.output@
        &&& self.observed_yield_generation <= self.yield_generation
    }

    /// Whether an observer has something to take: the end of the cell, or
    /// (unless only the end is wanted) a yield request not yet observed.
    pub open spec fn observable(&self, terminal_only: bool) -> bool {
        self.status != CellStatus::Running || (!terminal_only && self.yield_generation
            > self.observed_yield_generation)
    }

    /// A running cell with no output.
    pub fn new(id: String) -> (s: Self)
        ensures
            s.wf(),
            s.id == id,
            s.status == CellStatus::Running,
            s.output@.len() == 0,
            s.yield_generation == 0,
            s.observed_yield_generation == 0,
            s.pushed@.len() == 0,
            s.delivered@.len() == 0,
    {
        let s = CellState {
            id,
            output: Vec::new(),
            status: CellStatus::Running,
            yield_generation: 0,
            observed_yield_generation: 0,
            pushed: Ghost(Seq::empty()),
            delivered: Ghost(Seq::empty()),
        };
        assert(s.pushed@ =~= s.delivered@ + s.output@);
        s
    }

    /// Adds an item to the output while the cell runs; a finished cell
    /// ignores it.
    pub fn push(&mut self, item: T)
        requires
            old(self).wf(),
        ensures
            final(self).wf(),
            final(self).id == old(self).id,
            final(self).status == old(self).status,
            final(self).yield_generation == old(self).yield_generation,
            final(self).observed_yield_generation == old(self).observed_yield_generation,
            final(self).delivered == old(self).delivered,
            old(self).status == CellStatus::Running ==> final(self).output@ == old(self).output@.push(
                item,
            ) && final(self).pushed@ == old(self).pushed@.push(item),
            old(self).status != CellStatus::Running ==> final(self).output@ == old(self).output@
                && final(self).pushed == old(self).pushed,
    {
        if let CellStatus::Running = self.status {
            let ghost p = self.pushed@;
            self.output.push(item);
            proof {
                self.pushed = Ghost(p.push(item));
                assert(self.pushed@ =~= self.delivered@ + self.output@);
            }
        }
    }

    /// Asks the observer to hand over the output so far; returns whether
    /// the request was taken, which is while the cell runs.
    pub fn request_yield(&mut self) -> (taken: bool)
        requires
            old(self).wf(),
        ensures
            final(self).wf(),
            taken == (old(self).status == CellStatus::Running),
            final(self).id == old(self).id,
            final(self).status == old(self).status,
            final(self).output == old(self).output,
            final(self).pushed == old(self).pushed,
            final(self).delivered == old(self).delivered,
            final(self).observed_yield_generation == old(self).observed_yield_generation,
            final(self).yield_generation == if taken {
                if old(self).yield_generation < u64::MAX {
                    (old(self).yield_generation + 1) as u64
                } else {
                    u64::MAX
                }
            } else {
                old(self).yield_generation
            },
    {
        if let CellStatus::Running = self.status {
            self.yield_generation = self.yield_generation.saturating_add(1);
            true
        } else {
            false
        }
    }

    /// Ends a running cell: terminated when it was cancelled, else
    /// completed with `error_text`. Returns whether the cell was running;
    /// a finished cell stays as it was.
    pub fn complete(&mut self, error_text: Option<String>, cancelled: bool) -> (ended: bool)
        requires
            old(self).wf(),
        ensures
            final(self).wf(),
            ended == (old(self).status == CellStatus::Running),
            final(self).id == old(self).id,
            final(self).output == old(self).output,
            final(self).pushed == old(self).pushed,
            final(self).delivered == old(self).delivered,
            final(self).yield_generation == old(self).yield_generation,
            final(self).observed_yield_generation == old(self).observed_yield_generation,
            final(self).status == if !ended {
                old(self).status
            } else if cancelled {
                CellStatus::Terminated
            } else {
                CellStatus::Completed { error_text }
            },
    {
        if let CellStatus::Running = self.status {
            self.status = if cancelled {
                CellStatus::Terminated
            } else {
                CellStatus::Completed { error_text }
            };
            true
        } else {
            false
        }
    }

    /// Hands over the output when there is something to observe: a
    /// yield that was requested and not yet observed (unless only the end
    /// of the cell is wanted), or the end of the cell with the rest of its
    /// output.
    pub fn take_observable(&mut self, terminal_only: bool) -> (r: Option<RuntimeResponse<T>>)
        requires
            old(self).wf(),
        ensures
            final(self).wf(),
            final(self).id == old(self).id,
            final(self).status == old(self).status,
            final(self).pushed == old(self).pushed,
            final(self).yield_generation == old(self).yield_generation,
            r.is_some() == old(self).observable(terminal_only),
            match r {
                None => {
                    &&& (old(self).status == CellStatus::Running && (terminal_only
                        || old(self).yield_generation <= old(self).observed_yield_generation))
                    &&& final(self).output == old(self).output
                    &&& final(self).delivered == old(self).delivered
                    &&& final(self).observed_yield_generation
                        == old(self).observed_yield_generation
                },
                Some(response) => {
                    &&& response.cell_id() == old(self).id@
                    &&& response.items() == old(self).output@
                    &&& final(self).output@.len() == 0
                    &&& final(self).delivered@ == old(self).delivered@ + old(self).output@
                    &&& match old(self).status {
                        CellStatus::Running => {
                            &&& !terminal_only
                            &&& old(self).yield_generation > old(self).observed_yield_generation
                            &&& response is Yielded
                            &&& final(self).observed_yield_generation
                                == old(self).yield_generation
                        },
                        CellStatus::Completed { error_text } => {
                            &&& response matches RuntimeResponse::Result { error_text: e, .. }
                                && e == error_text
                            &&& final(self).observed_yield_generation
                                == old(self).observed_yield_generation
                        },
                        CellStatus::Terminated => {
                            &&& response is Terminated
                            &&& final(self).observed_yield_generation
                                == old(self).observed_yield_generation
                        },
                    }
                },
            },
    {
        let cell_id = self.id.clone();
        match &self.status {
            CellStatus::Running => {
                if terminal_only || self.yield_generation <= self.observed_yield_generation {
                    return None;
                }
                self.observed_yield_generation = self.yield_generation;
                let content_items = self.take_output();
                Some(RuntimeResponse::Yielded { cell_id, content_items })
            },
            CellStatus::Completed { error_text } => {
                let error_text = match error_text {
                    Some(e) => Some(e.clone()),
                    None => None,
                };
                let content_items = self.take_output();
                Some(RuntimeResponse::Result { cell_id, content_items, error_text })
            },
            CellStatus::Terminated => {
                let content_items = self.take_output();
                Some(RuntimeResponse::Terminated { cell_id, content_items })
            },
        }
    }

    /// Hands over the output so far as a yield, whatever the cell's state.
    pub fn take_yielded(&mut self) -> (r: RuntimeResponse<T>)
        requires
            old(self).wf(),
        ensures
            final(self).wf(),
            final(self).id == old(self).id,
            final(self).status == old(self).status,
            final(self).pushed == old(self).pushed,
            final(self).yield_generation == old(self).yield_generation,
            final(self).observed_yield_generation == old(self).observed_yield_generation,
            r is Yielded,
            r.cell_id() == old(self).id@,
            r.items() == old(self).output@,
            final(self).output@.len() == 0,
            final(self).delivered@ == old(self).delivered@ + old(self).output@,
    {
        let cell_id = self.id.clone();
        let content_items = self.take_output();
        RuntimeResponse::Yielded { cell_id, content_items }
    }

    fn take_output(&mut self) -> (items: Vec<T>)
        requires
            old(self).wf(),
        ensures
            final(self).wf(),
            items@ == old(self).output@,
            final(self).output@.len() == 0,
            final(self).delivered@ == old(self).delivered@ + old(self).output@,
            final(self).id == old(self).id,
            final(self).status == old(self).status,
            final(self).pushed == old(self).pushed,
            final(self).yield_generation == old(self).yield_generation,
            final(self).observed_yield_generation == old(self).observed_yield_generation,
    {
        let mut items: Vec<T> = Vec::new();
        std::mem::swap(&mut items, &mut self.output);
        proof {
            self.delivered = Ghost(self.delivered@ + items@);
            assert(self.pushed@ =~= self.delivered@ + self.output@);
        }
        items
    }

    /// Whether the cell still runs.
    pub fn is_running(&self) -> (r: bool)
        ensures
            r == (self.status == CellStatus::Running),
    {
        match self.status {
            CellStatus::Running => true,
            _ => false,
        }
    }
}

/// Law: a yield request is observed once. Right after an observer took
/// a yield, the cell has nothing more to observe until the next request,
/// and once a cell ended it always has its end to observe.
pub proof fn law_yield_observed_once<T>(before: CellState<T>, after: CellState<T>)
    requires
        before.wf(),
        before.observable(false),
        before.status == CellStatus::Running,
        after.status == before.status,
        after.yield_generation == before.yield_generation,
        after.observed_yield_generation == before.yield_generation,
    ensures
        !after.observable(false),
        !after.observable(true),
{
}

/// Law: an ended cell stays observable, whatever is asked.
pub proof fn law_end_stays_observable<T>(s: CellState<T>, terminal_only: bool)
    requires
        s.status != CellStatus::Running,
    ensures
        s.observable(terminal_only),
{
}

/// How long an observer waits for a cell, in milliseconds: the requested
/// time, with a grace second added to waits of ten seconds or more, capped
/// by the session's limit.
pub open spec fn yield_timeout_ms(yield_time_ms: u64, max_yield_time_ms: Option<u64>) -> int {
    let timeout: int = if yield_time_ms >= 10_000 {
        yield_time_ms + 1_000
    } else {
        yield_time_ms as int
    };
    match max_yield_time_ms {
        Some(limit) => if limit < timeout {
            limit as int
        } else {
            timeout
        },
        None => timeout,
    }
}

/// How long an observer waits for a cell, in milliseconds.
pub fn resolve_yield_timeout(yield_time_ms: u64, max_yield_time_ms: Option<u64>) -> (r: u128)
    ensures
        r == yield_timeout_ms(yield_time_ms, max_yield_time_ms),
{
    let timeout: u128 = if yield_time_ms >= 10_000 {
        yield_time_ms as u128 + 1_000
    } else {
        yield_time_ms as u128
    };
    match max_yield_time_ms {
        Some(limit) => {
            if (limit as u128) < timeout {
                limit as u128
            } else {
                timeout
            }
        },
        None => timeout,
    }
}

/// The number of the next cell and the counter after it, unless the
/// counter is exhausted.
pub fn allocate_cell_number(next: u64) -> (r: Result<(u64, u64), String>)
    ensures
        match r {
            Ok((id, after)) => next < u64::MAX && id == next && after == next + 1,
            Err(e) => next == u64::MAX && e@ == "code mode session exhausted its cell ID space"@,
        },
{
    match next.checked_add(1) {
        Some(after) => Ok((next, after)),
        None => Err(String::from_str("code mode session exhausted its cell ID space")),
    }
}

/// The tool at `index` among `count` enabled tools, if the index names one.
pub fn tool_index(index: i32, count: usize) -> (r: Option<usize>)
    ensures
        r == if 0 <= index < count {
            Some(index as usize)
        } else {
            None
        },
{
    if index < 0 {
        return None;
    }
    let i = index as usize;
    if i < count {
        Some(i)
    } else {
        None
    }
}

/// What a session answers about a cell that a request names.
#[derive(Clone, Copy, Debug, PartialEq, Eq, Structural)]
pub enum CellLookup {
    /// The cell runs, or ended and has not been closed yet.
    Live,
    /// No such cell: it never started or was closed.
    Missing,
}

/// The bookkeeping of a code-mode session: the number the next cell gets,
/// the numbers of the cells that are not closed, in the order they started,
/// and whether the session is shutting down.
pub struct SessionRegistry {
    next_cell_id: u64,
    open_cells: Vec<u64>,
    shutting_down: bool,
}

impl SessionRegistry {
    /// The number the next cell gets.
    pub closed spec fn next_id(self) -> u64 {
        self.next_cell_id
    }

    /// The cells that are not closed, in the order they started.
    pub closed spec fn open(self) -> Seq<u64> {
        self.open_cells@
    }

    /// Whether the session is shutting down.
    pub closed spec fn is_shutting_down(self) -> bool {
        self.shutting_down
    }

    /// Every open cell got a number before the next one, in increasing
    /// order, so no number is open twice.
    pub closed spec fn wf(self) -> bool {
        &&& forall|i: int| 0 <= i < self.open_cells@.len() ==> self.open_cells@[i] < self.next_cell_id
        &&& forall|i: int, j: int|
            0 <= i < j < self.open_cells@.len() ==> self.open_cells@[i] < self.open_cells@[j]
    }

    /// A session with no cells, whose first cell gets the number 1.
    pub fn new() -> (r: Self)
        ensures
            r.wf(),
            r.next_id() == 1,
            r.open() == Seq::<u64>::empty(),
            !r.is_shutting_down(),
    {
        SessionRegistry { next_cell_id: 1, open_cells: Vec::new(), shutting_down: false }
    }

    /// Starts a cell: it gets the next number and is open. A session that
    /// is shutting down, or whose numbers are exhausted, refuses, and then
    /// nothing changes.
    pub fn start_cell(&mut self) -> (r: Result<u64, String>)
        requires
            old(self).wf(),
        ensures
            final(self).wf(),
            final(self).is_shutting_down() == old(self).is_shutting_down(),
            old(self).is_shutting_down() ==> (r matches Err(e) && e@
                == "code mode session is shutting down"@),
            !old(self).is_shutting_down() && old(self).next_id() == u64::MAX ==> (r matches Err(e)
                && e@ == "code mode session exhausted its cell ID space"@),
            r is Err ==> final(self).open() == old(self).open() && final(self).next_id() == old(
                self,
            ).next_id(),
            !old(self).is_shutting_down() && old(self).next_id() < u64::MAX ==> (r matches Ok(id)
                && id == old(self).next_id() && final(self).next_id() == old(self).next_id() + 1
                && final(self).open() == old(self).open().push(id)),
    {
        if self.shutting_down {
            return Err(String::from_str("code mode session is shutting down"));
        }
        match allocate_cell_number(self.next_cell_id) {
            Ok((id, after)) => {
                self.next_cell_id = after;
                self.open_cells.push(id);
                Ok(id)
            },
            Err(e) => Err(e),
        }
    }

    fn position(&self, id: u64) -> (r: Option<usize>)
        ensures
            match r {
                Some(i) => i < self.open().len() && self.open()[i as int] == id,
                None => !self.open().contains(id),
            },
    {
        let mut i: usize = 0;
        while i < self.open_cells.len()
            invariant
                0 <= i <= self.open_cells@.len(),
                forall|j: int| 0 <= j < i ==> self.open_cells@[j] != id,
            decreases self.open_cells@.len() - i,
        {
            if self.open_cells[i] == id {
                return Some(i);
            }
            i = i + 1;
        }
        None
    }

    /// Whether a request for the cell `id` (to wait for it or to end it)
    /// finds it, or is answered that the cell is missing.
    pub fn lookup(&self, id: u64) -> (r: CellLookup)
        ensures
            r == if self.open().contains(id) {
                CellLookup::Live
            } else {
                CellLookup::Missing
            },
    {
        match self.position(id) {
            Some(_) => CellLookup::Live,
            None => CellLookup::Missing,
        }
    }

    /// Closes the cell `id` once it has ended: the first time, it leaves
    /// the open cells and the result says to tell the session's delegate;
    /// after that, nothing happens.
    pub fn finish_cell(&mut self, id: u64) -> (first: bool)
        requires
            old(self).wf(),
        ensures
            final(self).wf(),
            first == old(self).open().contains(id),
            final(self).open() == without(old(self).open(), id),
            final(self).next_id() == old(self).next_id(),
            final(self).is_shutting_down() == old(self).is_shutting_down(),
    {
        let ghost before = self.open_cells@;
        match self.position(id) {
            Some(i) => {
                self.open_cells.remove(i);
                proof {
                    before.remove_ensures(i as int);
                    lemma_filter_sorted_remove(before, i as int, id);
                }
                true
            },
            None => {
                proof {
                    lemma_filter_absent(before, id);
                }
                false
            },
        }
    }

    /// The session shuts down: it refuses new cells from now on, and the
    /// result lists the open cells, in the order they started, to cancel
    /// and close.
    pub fn begin_shutdown(&mut self) -> (cells: Vec<u64>)
        requires
            old(self).wf(),
        ensures
            final(self).wf(),
            final(self).is_shutting_down(),
            cells@ == old(self).open(),
            final(self).open() == old(self).open(),
            final(self).next_id() == old(self).next_id(),
    {
        self.shutting_down = true;
        self.open_cells.clone()
    }
}

proof fn lemma_filter_absent(s: Seq<u64>, id: u64)
    requires
        !s.contains(id),
    ensures
        without(s, id) == s,
    decreases s.len(),
{
    reveal_with_fuel(Seq::filter, 1);
    if s.len() > 0 {
        lemma_filter_absent(s.drop_last(), id);
        assert(s.drop_last().push(s.last()) =~= s);
    }
    assert(without(s, id) =~= s);
}

proof fn lemma_filter_sorted_remove(s: Seq<u64>, i: int, id: u64)
    requires
        0 <= i < s.len(),
        s[i] == id,
        forall|a: int, b: int| 0 <= a < b < s.len() ==> s[a] < s[b],
    ensures
        without(s, id) == s.remove(i),
    decreases s.len(),
{
    reveal_with_fuel(Seq::filter, 1);
    let last = s.len() - 1;
    if i == last {
        assert(!s.drop_last().contains(id)) by {
            if s.drop_last().contains(id) {
                let k = choose|k: int| 0 <= k < s.drop_last().len() && s.drop_last()[k] == id;
                assert(s[k] < s[last]);
            }
        }
        lemma_filter_absent(s.drop_last(), id);
        assert(s.remove(i) =~= s.drop_last());
    } else {
        lemma_filter_sorted_remove(s.drop_last(), i, id);
        assert(s.last() != id) by {
            assert(s[i] < s[last]);
        }
        assert(s.remove(i) =~= s.drop_last().remove(i).push(s.last()));
    }
}

/// The cells of `open` but `id`, in order.
pub open spec fn without(open: Seq<u64>, id: u64) -> Seq<u64> {
    open.filter(other_than(id))
}

/// Whether a cell is not `id`.
pub open spec fn other_than(id: u64) -> spec_fn(u64) -> bool {
    |c: u64| c != id
}

/// No cell left by `without` is `id`.
proof fn lemma_without_keeps_others(open: Seq<u64>, id: u64, i: int)
    requires
        0 <= i < without(open, id).len(),
    ensures
        without(open, id)[i] != id,
{
    open.lemma_filter_pred(other_than(id), i);
}

/// Every cell left by `without` was in `open`.
proof fn lemma_without_within(open: Seq<u64>, id: u64, x: u64)
    requires
        without(open, id).contains(x),
    ensures
        open.contains(x),
{
    open.lemma_filter_contains_rev(other_than(id), x);
}

/// Whether the cell `x` is among `cells[done..]`.
pub open spec fn pending(cells: Seq<u64>, done: int, x: u64) -> bool {
    exists|j: int| done <= j < cells.len() && cells[j] == x
}

/// Every cell in `open` is among `cells[done..]`.
pub open spec fn covered(open: Seq<u64>, cells: Seq<u64>, done: int) -> bool {
    forall|i: int| 0 <= i < open.len() ==> #[trigger] pending(cells, done, open[i])
}

/// A session's shutdown in progress: the cells that were open when it began,
/// in the order they started, and how many of them have been closed. The
/// cells are handled one at a time: the next one is cancelled and, once it
/// has ended, closed.
pub struct Shutdown {
    cells: Vec<u64>,
    done: usize,
}

impl Shutdown {
    /// The cells that were open when the shutdown began.
    pub closed spec fn cells(self) -> Seq<u64> {
        self.cells@
    }

    /// How many of them have been handled.
    pub closed spec fn done(self) -> nat {
        self.done as nat
    }

    /// Whether every cell still open in `registry` is one this shutdown has
    /// yet to handle.
    pub open spec fn covers(self, registry: SessionRegistry) -> bool {
        &&& self.done() <= self.cells().len()
        &&& registry.is_shutting_down()
        &&& covered(registry.open(), self.cells(), self.done() as int)
    }

    /// Begins shutting down `registry`: it refuses new cells from now on,
    /// and every cell open now is to be handled, in the order it started.
    pub fn begin(registry: &mut SessionRegistry) -> (s: Self)
        requires
            old(registry).wf(),
        ensures
            final(registry).wf(),
            final(registry).is_shutting_down(),
            final(registry).open() == old(registry).open(),
            final(registry).next_id() == old(registry).next_id(),
            s.cells() == old(registry).open(),
            s.done() == 0,
            s.covers(*final(registry)),
    {
        let cells = registry.begin_shutdown();
        let s = Shutdown { cells, done: 0 };
        assert forall|i: int| 0 <= i < registry.open().len() implies #[trigger] pending(
            s.cells(),
            0,
            registry.open()[i],
        ) by {
            assert(s.cells()[i] == registry.open()[i]);
        }
        s
    }

    /// The cell to cancel and wait for next, or none when every cell has
    /// been handled.
    pub fn next_cell(&self) -> (r: Option<u64>)
        requires
            self.done() <= self.cells().len(),
        ensures
            r == if self.done() < self.cells().len() {
                Some(self.cells()[self.done() as int])
            } else {
                None::<u64>
            },
    {
        if self.done < self.cells.len() {
            Some(self.cells[self.done])
        } else {
            None
        }
    }

    /// The cell that `next_cell` named has ended: it is closed, and the
    /// result says whether this was its first close, which the session's
    /// delegate is told of. A cell that an observer closed first is not
    /// reported again.
    pub fn cell_ended(&mut self, registry: &mut SessionRegistry) -> (first: bool)
        requires
            old(registry).wf(),
            old(self).done() < old(self).cells().len(),
            old(self).covers(*old(registry)),
        ensures
            final(registry).wf(),
            final(self).cells() == old(self).cells(),
            final(self).done() == old(self).done() + 1,
            first == old(registry).open().contains(old(self).cells()[old(self).done() as int]),
            final(registry).open() == without(
                old(registry).open(),
                old(self).cells()[old(self).done() as int],
            ),
            final(registry).next_id() == old(registry).next_id(),
            final(self).covers(*final(registry)),
    {
        let d = self.done;
        assert(d < self.cells.len());
        let id = self.cells[d];
        let ghost before = registry.open();
        let first = registry.finish_cell(id);
        proof {
            law_close_keeps_shutdown_cover(before, self.cells@, d as int, id);
            let after = registry.open();
            assert forall|i: int| 0 <= i < after.len() implies #[trigger] pending(
                self.cells@,
                d + 1,
                after[i],
            ) by {
                assert(pending(self.cells@, d as int, after[i]));
                let j = choose|j: int| d <= j < self.cells@.len() && self.cells@[j] == after[i];
                lemma_without_keeps_others(before, id, i);
                assert(j != d);
            }
        }
        self.done = d + 1;
        first
    }
}

/// Law: a cell that closes while the shutdown waits (its observer saw it
/// end) leaves the shutdown's cover intact.
pub proof fn law_close_keeps_shutdown_cover(open: Seq<u64>, cells: Seq<u64>, done: int, id: u64)
    requires
        covered(open, cells, done),
    ensures
        covered(without(open, id), cells, done),
{
    let after = without(open, id);
    assert forall|i: int| 0 <= i < after.len() implies #[trigger] pending(cells, done, after[i]) by {
        let x = after[i];
        assert(after.contains(x));
        lemma_without_within(open, id, x);
        let k = choose|k: int| 0 <= k < open.len() && open[k] == x;
        assert(pending(cells, done, open[k]));
    }
}

/// Law: once every cell of a shutdown has been handled, no cell is open, a
/// request for any cell finds it missing, and the session refuses new cells.
pub proof fn law_shutdown_closes_every_cell(s: Shutdown, registry: SessionRegistry)
    requires
        s.covers(registry),
        s.done() == s.cells().len(),
    ensures
        registry.open().len() == 0,
        forall|id: u64| !registry.open().contains(id),
        registry.is_shutting_down(),
{
    let open = registry.open();
    if open.len() > 0 {
        assert(pending(s.cells(), s.done() as int, open[0]));
    }
    assert forall|id: u64| !registry.open().contains(id) by {
        if registry.open().contains(id) {
            let k = choose|k: int| 0 <= k < open.len() && open[k] == id;
        }
    }
}

/// Law: once a cell is closed, a request for it finds it missing.
pub proof fn law_closed_cell_is_missing(open: Seq<u64>, id: u64)
    ensures
        !without(open, id).contains(id),
{
    let kept = without(open, id);
    if kept.contains(id) {
        let k = choose|k: int| 0 <= k < kept.len() && kept[k] == id;
        open.lemma_filter_pred(other_than(id), k);
    }
}

/// The ids a cell gives the tool calls it makes: `tool-1`, `tool-2`, and
/// so on, the counter wrapping around after the largest `u64`.
pub struct ToolCallIds {
    next: u64,
}

/// The counter after `n`, wrapping around after the largest `u64`.
pub open spec fn counter_after(n: u64) -> u64 {
    if n == u64::MAX {
        0
    } else {
        (n + 1) as u64
    }
}

impl ToolCallIds {
    /// The number of the next tool call.
    pub closed spec fn next(self) -> u64 {
        self.next
    }

    /// The first tool call gets the number 1.
    pub fn new() -> (r: Self)
        ensures
            r.next() == 1,
    {
        ToolCallIds { next: 1 }
    }

    /// The id of the next tool call: `tool-` and its number.
    pub fn take(&mut self) -> (id: String)
        ensures
            id@ == "tool-"@ + decimal(old(self).next() as nat),
            final(self).next() == counter_after(old(self).next()),
    {
        let mut id = String::from_str("tool-");
        push_decimal(&mut id, self.next);
        self.next = if self.next == u64::MAX {
            0
        } else {
            self.next + 1
        };
        id
    }
}

/// A tool call that a cell's code asked for.
pub struct PlannedToolCall {
    /// The position of the tool among the enabled tools.
    pub tool: usize,
    /// The id the call is known by while it runs.
    pub runtime_tool_call_id: String,
    /// The call's input as compact JSON text, if it has one.
    pub input: Option<String>,
}

/// What a cell's call of the tool at `index` among `tool_count` enabled
/// tools, with the JSON text `input_json`, becomes: an error when the index
/// names no tool or the input is not JSON (and no id is taken); else the
/// call, with the next id and its input in compact form.
pub fn plan_tool_call(
    ids: &mut ToolCallIds,
    index: i32,
    tool_count: usize,
    input_json: Option<&str>,
) -> (r: Result<PlannedToolCall, String>)
    ensures
        !(0 <= index < tool_count) ==> (r matches Err(e) && e@ == "invalid code-mode tool index"@),
        r is Err ==> final(ids).next() == old(ids).next(),
        r is Ok ==> final(ids).next() == counter_after(old(ids).next()),
        0 <= index < tool_count ==> match input_json {
            Some(text) => match json_reformatted(text@) {
                Err(m) => r matches Err(e) && e@ == "invalid tool input: "@ + m,
                Ok(t) => r matches Ok(call) && call.tool == index as usize && (call.input
                    matches Some(i) && i@ == t) && call.runtime_tool_call_id@ == "tool-"@
                    + decimal(old(ids).next() as nat),
            },
            None => r matches Ok(call) && call.tool == index as usize && call.input is None
                && call.runtime_tool_call_id@ == "tool-"@ + decimal(old(ids).next() as nat),
        },
{
    let tool = match tool_index(index, tool_count) {
        Some(tool) => tool,
        None => {
            return Err(String::from_str("invalid code-mode tool index"));
        },
    };
    let input = match input_json {
        Some(text) => match reformat_json(text) {
            Ok(t) => Some(t),
            Err(m) => {
                let mut e = String::from_str("invalid tool input: ");
                e.append(m.as_str());
                return Err(e);
            },
        },
        None => None,
    };
    let runtime_tool_call_id = ids.take();
    Ok(PlannedToolCall { tool, runtime_tool_call_id, input })
}

} // verus!
