//! Errors of the bridge to the embedded app server, and the values it hands
//! back to the views.
use vstd::prelude::*;
use vstd::string::StringExecFns;
use crate::items::Thread;

verus! {

/// Why a request to the app server failed.
#[derive(Clone, Debug, PartialEq, Eq)]
pub enum BridgeError {
    /// The server could not be reached.
    Transport(String),
    /// The server answered with an error.
    Rpc(String),
    /// The server's answer could not be read.
    Decode(String),
}

impl BridgeError {
    /// The message of the error, which is all that `Display` writes.
    pub open spec fn message_spec(&self) -> Seq<char> {
        match self {
            BridgeError::Transport(m) => m@,
            BridgeError::Rpc(m) => m@,
            BridgeError::Decode(m) => m@,
        }
    }

    /// The message of the error.
    pub fn message(&self) -> (r: String)
        ensures
            r@ == self.message_spec(),
    {
        match self {
            BridgeError::Transport(m) => m.clone(),
            BridgeError::Rpc(m) => m.clone(),
            BridgeError::Decode(m) => m.clone(),
        }
    }
}

/// A model as the server lists it, with its efforts already named.
pub struct ModelInfo {
    pub model: String,
    pub display_name: String,
    pub hidden: bool,
    pub supported_efforts: Vec<String>,
    pub default_effort: String,
}

/// A model that the composer offers.
#[derive(Clone, Debug, PartialEq, Eq)]
pub struct ModelOption {
    pub id: String,
    pub display_name: String,
    pub supported_efforts: Vec<String>,
    pub default_effort: String,
}

/// The models that are not hidden, in order.
pub open spec fn visible_models_spec(models: Seq<ModelInfo>, n: int) -> Seq<ModelInfo>
    decreases n,
{
    if n <= 0 {
        Seq::empty()
    } else {
        visible_models_spec(models, n - 1) + if models[n - 1].hidden {
            Seq::empty()
        } else {
            seq![models[n - 1]]
        }
    }
}

/// The options for the models that are not hidden, in order.
pub fn visible_models(models: Vec<ModelInfo>) -> (r: Vec<ModelOption>)
    ensures
        r@.len() == visible_models_spec(models@, models@.len() as int).len(),
        forall|i: int|
            0 <= i < r@.len() ==> {
                let m = visible_models_spec(models@, models@.len() as int)[i];
                &&& (#[trigger] r@[i]).id == m.model
                &&& r@[i].display_name == m.display_name
                &&& r@[i].supported_efforts == m.supported_efforts
                &&& r@[i].default_effort == m.default_effort
            },
{
    let ghost all = models@;
    let mut rest = models;
    let total = rest.len();
    let mut taken: usize = 0;
    let mut r: Vec<ModelOption> = Vec::new();
    while rest.len() > 0
        invariant
            rest@ == all.skip(taken as int),
            total == all.len(),
            taken <= total,
            r@.len() == visible_models_spec(all, taken as int).len(),
            forall|i: int|
                0 <= i < r@.len() ==> {
                    let m = visible_models_spec(all, taken as int)[i];
                    &&& (#[trigger] r@[i]).id == m.model
                    &&& r@[i].display_name == m.display_name
                    &&& r@[i].supported_efforts == m.supported_efforts
                    &&& r@[i].default_effort == m.default_effort
                },
        decreases rest@.len(),
    {
        let model = rest.remove(0);
        assert(model == all[taken as int]);
        let ghost before = visible_models_spec(all, taken as int);
        if !model.hidden {
            let ghost m = model;
            r.push(
                ModelOption {
                    id: model.model,
                    display_name: model.display_name,
                    supported_efforts: model.supported_efforts,
                    default_effort: model.default_effort,
                },
            );
            assert(visible_models_spec(all, taken as int + 1) == before.push(m));
        } else {
            assert(visible_models_spec(all, taken as int + 1) =~= before);
        }
        taken = taken + 1;
    }
    r
}

/// Who decides approvals, as the chat settings name it.
#[derive(Clone, Copy, Debug, PartialEq, Eq, Structural)]
pub enum ApprovalReviewerMode {
    User,
    AutoReview,
}

/// Who decides approvals, as the app server names it.
#[derive(Clone, Copy, Debug, PartialEq, Eq, Structural)]
pub enum ApprovalsReviewer {
    User,
    AutoReview,
}

/// Who the server is asked to let decide approvals, for the chat's setting.
pub fn approvals_reviewer_for(mode: ApprovalReviewerMode) -> (r: ApprovalsReviewer)
    ensures
        r == match mode {
            ApprovalReviewerMode::User => ApprovalsReviewer::User,
            ApprovalReviewerMode::AutoReview => ApprovalsReviewer::AutoReview,
        },
{
    match mode {
        ApprovalReviewerMode::User => ApprovalsReviewer::User,
        ApprovalReviewerMode::AutoReview => ApprovalsReviewer::AutoReview,
    }
}

/// The key the thread list is sorted by.
#[derive(Clone, Copy, Debug, PartialEq, Eq, Structural)]
pub enum ThreadSortKey {
    CreatedAt,
    UpdatedAt,
}

/// The direction of the thread list's order.
#[derive(Clone, Copy, Debug, PartialEq, Eq, Structural)]
pub enum SortDirection {
    Asc,
    Desc,
}

/// How many threads one page of the thread list holds at most.
pub const THREAD_PAGE_SIZE: u32 = 100;

/// A request for one page of the thread list.
#[derive(Clone, Debug, PartialEq, Eq)]
pub struct ThreadListRequest {
    /// Where the page starts; `None` for the first page.
    pub cursor: Option<String>,
    pub limit: Option<u32>,
    pub sort_key: Option<ThreadSortKey>,
    pub sort_direction: Option<SortDirection>,
    /// Whether archived threads are listed.
    pub archived: Option<bool>,
}

/// The listing of every thread, one page at a time: the threads read so far
/// and the cursor of the page to ask for next.
pub struct ThreadListing {
    threads: Vec<Thread>,
    cursor: Option<String>,
    done: bool,
}

impl ThreadListing {
    /// The threads read so far, in the order the pages gave them.
    pub closed spec fn threads(self) -> Seq<Thread> {
        self.threads@
    }

    /// The cursor of the next page to ask for; `None` asks for the first.
    pub closed spec fn cursor(self) -> Option<Seq<char>> {
        match self.cursor {
            Some(c) => Some(c@),
            None => None,
        }
    }

    /// Whether the last page was read.
    pub closed spec fn is_done(self) -> bool {
        self.done
    }

    /// Nothing read yet; the first page is asked for without a cursor.
    pub fn new() -> (r: Self)
        ensures
            r.threads() == Seq::<Thread>::empty(),
            r.cursor() is None,
            !r.is_done(),
    {
        ThreadListing { threads: Vec::new(), cursor: None, done: false }
    }

    /// The request for the next page: from the current cursor, a page of
    /// `THREAD_PAGE_SIZE` threads, newest update first, without archived
    /// threads.
    pub fn next_request(&self) -> (r: ThreadListRequest)
        ensures
            match r.cursor {
                Some(c) => self.cursor() == Some(c@),
                None => self.cursor() is None,
            },
            r.limit == Some(THREAD_PAGE_SIZE),
            r.sort_key == Some(ThreadSortKey::UpdatedAt),
            r.sort_direction == Some(SortDirection::Desc),
            r.archived == Some(false),
    {
        ThreadListRequest {
            cursor: self.next_cursor(),
            limit: Some(THREAD_PAGE_SIZE),
            sort_key: Some(ThreadSortKey::UpdatedAt),
            sort_direction: Some(SortDirection::Desc),
            archived: Some(false),
        }
    }

    /// A request failed: the listing ends with its error, and no later
    /// page is asked for.
    pub fn fail(self, error: BridgeError) -> (r: Result<Vec<Thread>, BridgeError>)
        ensures
            r == Err::<Vec<Thread>, BridgeError>(error),
    {
        Err(error)
    }

    /// The listing after its last page: every page's threads, in order.
    pub fn finish(self) -> (r: Result<Vec<Thread>, BridgeError>)
        requires
            self.is_done(),
        ensures
            r matches Ok(threads) && threads@ == self.threads(),
    {
        Ok(self.threads)
    }

    /// The cursor to send with the next request.
    pub fn next_cursor(&self) -> (r: Option<String>)
        ensures
            match r {
                Some(c) => self.cursor() == Some(c@),
                None => self.cursor() is None,
            },
    {
        match &self.cursor {
            Some(c) => Some(c.clone()),
            None => None,
        }
    }

    /// Takes a page: its threads follow those read so far, and its cursor is
    /// the next one to ask for; a page without a cursor is the last. The
    /// result says whether another page is to be asked for.
    pub fn take_page(&mut self, data: Vec<Thread>, next_cursor: Option<String>) -> (more: bool)
        requires
            !old(self).is_done(),
        ensures
            final(self).threads() == old(self).threads() + data@,
            final(self).cursor() == match next_cursor {
                Some(c) => Some(c@),
                None => None,
            },
            more == (next_cursor is Some),
            final(self).is_done() == !more,
    {
        let mut data = data;
        let ghost before = self.threads@;
        let ghost page = data@;
        self.threads.append(&mut data);
        assert(self.threads@ =~= before + page);
        let more = next_cursor.is_some();
        self.cursor = next_cursor;
        self.done = !more;
        more
    }

    /// Whether the last page was read.
    pub fn done(&self) -> (r: bool)
        ensures
            r == self.is_done(),
    {
        self.done
    }

    /// The threads of every page read, in order.
    pub fn into_threads(self) -> (r: Vec<Thread>)
        ensures
            r@ == self.threads(),
    {
        self.threads
    }
}

} // verus!
