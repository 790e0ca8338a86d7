//! Where a thread's chat is in the app's lists: among the chats outside
//! projects, or in a project; and what stays selected when a thread goes.
use vstd::prelude::*;
use crate::text::str_eq;

verus! {

/// Where a chat is.
#[derive(Clone, Copy, Debug, PartialEq, Eq, Structural)]
pub enum ChatLocation {
    /// At `chat_index` of the chats outside projects.
    Projectless { chat_index: usize },
    /// At `chat_index` of the chats of the project at `project_index`.
    Project { project_index: usize, chat_index: usize },
}

/// The first position of `id` in `ids` at or after `from`.
pub open spec fn first_position(ids: Seq<Seq<char>>, id: Seq<char>, from: int) -> Option<int>
    decreases ids.len() - from,
{
    if from < 0 || from >= ids.len() {
        None
    } else if ids[from] == id {
        Some(from)
    } else {
        first_position(ids, id, from + 1)
    }
}

/// The first project at or after `from` that holds a chat `id`, with the
/// first position of that chat in it.
pub open spec fn first_project_with(projects: Seq<Seq<Seq<char>>>, id: Seq<char>, from: int) -> Option<
    (int, int),
>
    decreases projects.len() - from,
{
    if from < 0 || from >= projects.len() {
        None
    } else {
        match first_position(projects[from], id, 0) {
            Some(c) => Some((from, c)),
            None => first_project_with(projects, id, from + 1),
        }
    }
}

/// Where the chat `id` is: among the chats outside projects first, then in
/// the projects in order; the first place it occurs.
pub open spec fn location_spec(
    projectless: Seq<Seq<char>>,
    projects: Seq<Seq<Seq<char>>>,
    id: Seq<char>,
) -> Option<ChatLocation> {
    match first_position(projectless, id, 0) {
        Some(i) => Some(ChatLocation::Projectless { chat_index: i as usize }),
        None => match first_project_with(projects, id, 0) {
            Some((p, c)) => Some(
                ChatLocation::Project { project_index: p as usize, chat_index: c as usize },
            ),
            None => None,
        },
    }
}

/// The ids of the chats of each project.
pub open spec fn project_ids(projects: Seq<Vec<String>>) -> Seq<Seq<Seq<char>>> {
    projects.map_values(|chats: Vec<String>| chats.deep_view())
}

/// The first position of `id` in `ids`.
pub fn position_of(ids: &Vec<String>, id: &str) -> (r: Option<usize>)
    ensures
        match r {
            Some(i) => first_position(ids.deep_view(), id@, 0) == Some(i as int),
            None => first_position(ids.deep_view(), id@, 0) is None,
        },
{
    let ghost all = ids.deep_view();
    let mut i: usize = 0;
    while i < ids.len()
        invariant
            all == ids.deep_view(),
            0 <= i <= ids@.len(),
            first_position(all, id@, 0) == first_position(all, id@, i as int),
        decreases ids@.len() - i,
    {
        assert(all[i as int] == ids@[i as int]@);
        if str_eq(ids[i].as_str(), id) {
            return Some(i);
        }
        i = i + 1;
    }
    None
}

/// Where the chat of thread `id` is, given the ids of the chats outside
/// projects and of the chats of each project.
pub fn locate_chat(projectless: &Vec<String>, projects: &Vec<Vec<String>>, id: &str) -> (r: Option<
    ChatLocation,
>)
    ensures
        r == location_spec(projectless.deep_view(), project_ids(projects@), id@),
{
    if let Some(i) = position_of(projectless, id) {
        return Some(ChatLocation::Projectless { chat_index: i });
    }
    let ghost all = project_ids(projects@);
    let mut p: usize = 0;
    while p < projects.len()
        invariant
            all == project_ids(projects@),
            first_position(projectless.deep_view(), id@, 0) is None,
            0 <= p <= projects@.len(),
            first_project_with(all, id@, 0) == first_project_with(all, id@, p as int),
        decreases projects@.len() - p,
    {
        assert(all[p as int] == projects@[p as int].deep_view());
        if let Some(c) = position_of(&projects[p], id) {
            return Some(ChatLocation::Project { project_index: p, chat_index: c });
        }
        p = p + 1;
    }
    None
}

/// The positions of the chats other than `id`, in order: the chats that
/// stay when the thread `id` is deleted.
pub fn positions_without(ids: &Vec<String>, id: &str) -> (kept: Vec<usize>)
    ensures
        forall|i: int| 0 <= i < kept@.len() ==> kept@[i] < ids@.len(),
        forall|i: int, j: int| 0 <= i < j < kept@.len() ==> kept@[i] < kept@[j],
        forall|k: int|
            0 <= k < ids@.len() ==> (kept@.contains(k as usize) <==> ids@[k]@ != id@),
{
    let mut kept: Vec<usize> = Vec::new();
    let mut k: usize = 0;
    while k < ids.len()
        invariant
            0 <= k <= ids@.len(),
            forall|i: int| 0 <= i < kept@.len() ==> kept@[i] < k,
            forall|i: int, j: int| 0 <= i < j < kept@.len() ==> kept@[i] < kept@[j],
            forall|c: int| 0 <= c < k ==> (kept@.contains(c as usize) <==> ids@[c]@ != id@),
        decreases ids@.len() - k,
    {
        let ghost before = kept@;
        if !str_eq(ids[k].as_str(), id) {
            kept.push(k);
            proof {
                assert forall|c: int| 0 <= c < k + 1 implies (kept@.contains(c as usize)
                    <==> ids@[c]@ != id@) by {
                    if c < k {
                        if before.contains(c as usize) {
                            let i = choose|i: int| 0 <= i < before.len() && before[i] == c as usize;
                            assert(kept@[i] == c as usize);
                        }
                        if kept@.contains(c as usize) {
                            let i = choose|i: int| 0 <= i < kept@.len() && kept@[i] == c as usize;
                            assert(i < before.len());
                        }
                    } else {
                        assert(kept@[kept@.len() - 1] == c as usize);
                    }
                }
            }
        } else {
            proof {
                assert forall|c: int| 0 <= c < k + 1 implies (kept@.contains(c as usize)
                    <==> ids@[c]@ != id@) by {
                    if c == k && kept@.contains(c as usize) {
                        let i = choose|i: int| 0 <= i < kept@.len() && kept@[i] == c as usize;
                        assert(kept@[i] < k);
                    }
                }
            }
        }
        k = k + 1;
    }
    kept
}

/// What is selected after a thread was deleted.
#[derive(Clone, Copy, Debug, PartialEq, Eq, Structural)]
pub enum Reselection {
    /// The chat that was active, where it is now.
    Active(ChatLocation),
    /// The first chat, as the active one is gone.
    First,
}

/// What is selected after a thread was deleted, given the chats that remain
/// and the thread that was active: the active chat where it is now, or the
/// first chat when it is gone; nothing changes when no chat was active.
pub fn reselect_after_removal(
    projectless: &Vec<String>,
    projects: &Vec<Vec<String>>,
    active_thread_id: Option<&str>,
) -> (r: Option<Reselection>)
    ensures
        r == match active_thread_id {
            None => None,
            Some(active) => match location_spec(
                projectless.deep_view(),
                project_ids(projects@),
                active@,
            ) {
                Some(location) => Some(Reselection::Active(location)),
                None => Some(Reselection::First),
            },
        },
{
    match active_thread_id {
        None => None,
        Some(active) => match locate_chat(projectless, projects, active) {
            Some(location) => Some(Reselection::Active(location)),
            None => Some(Reselection::First),
        },
    }
}

} // verus!
