//! What the app does with the threads that the app server lists: which
//! thread to open first, which threads stand outside any project, and how
//! the others group by working directory.
use vstd::prelude::*;
use crate::items::Thread;
use crate::thread_mapping::{
    ChatSummary, ChatView, chat_from_thread, empty_chat, empty_chat_spec, thread_chat_spec,
};
use crate::text::{contains_string, str_eq};
use vstd::string::StringExecFns;
use crate::values::{DataValue, get_spec, json_document, parse_json};

verus! {

/// The newest of the first `n` threads: the first one whose update time no
/// later thread exceeds.
pub open spec fn newest_thread(threads: Seq<Thread>, n: int) -> Option<int>
    decreases n,
{
    if n <= 0 {
        None
    } else {
        match newest_thread(threads, n - 1) {
            None => Some(n - 1),
            Some(j) => if threads[n - 1].updated_at > threads[j].updated_at {
                Some(n - 1)
            } else {
                Some(j)
            },
        }
    }
}

/// Whether the thread is marked as standing outside any project.
pub open spec fn is_projectless(ids: Seq<Seq<char>>, thread: Thread) -> bool {
    ids.contains(thread.id@)
}

/// The working directories of the first `n` threads that belong to a
/// project, each once, in the order in which they first occur.
pub open spec fn project_paths_of(threads: Seq<Thread>, ids: Seq<Seq<char>>, n: int) -> Seq<Seq<char>>
    decreases n,
{
    if n <= 0 {
        Seq::empty()
    } else {
        let paths = project_paths_of(threads, ids, n - 1);
        let t = threads[n - 1];
        if is_projectless(ids, t) || paths.contains(t.cwd@) {
            paths
        } else {
            paths.push(t.cwd@)
        }
    }
}

/// The positions among the first `n` threads of those that belong to the
/// project at `path`.
pub open spec fn threads_at(threads: Seq<Thread>, ids: Seq<Seq<char>>, path: Seq<char>, n: int) -> Seq<usize>
    decreases n,
{
    if n <= 0 {
        Seq::empty()
    } else {
        let t = threads[n - 1];
        threads_at(threads, ids, path, n - 1) + if !is_projectless(ids, t) && t.cwd@ == path {
            seq![(n - 1) as usize]
        } else {
            Seq::empty()
        }
    }
}

/// The positions among the first `n` threads of those that stand outside
/// any project.
pub open spec fn projectless_of(threads: Seq<Thread>, ids: Seq<Seq<char>>, n: int) -> Seq<usize>
    decreases n,
{
    if n <= 0 {
        Seq::empty()
    } else {
        projectless_of(threads, ids, n - 1) + if is_projectless(ids, threads[n - 1]) {
            seq![(n - 1) as usize]
        } else {
            Seq::empty()
        }
    }
}

/// The listed threads sorted out: the newest thread, the project
/// directories in order of first occurrence with the positions of their
/// threads, and the positions of the threads outside any project.
pub struct ThreadGroups {
    pub newest: Option<usize>,
    pub project_paths: Vec<String>,
    pub project_threads: Vec<Vec<usize>>,
    pub projectless: Vec<usize>,
}

/// A directory not among the projects has no threads yet.
proof fn lemma_threads_at_unknown(threads: Seq<Thread>, ids: Seq<Seq<char>>, path: Seq<char>, n: int)
    requires
        0 <= n <= threads.len(),
        !project_paths_of(threads, ids, n).contains(path),
    ensures
        threads_at(threads, ids, path, n) == Seq::<usize>::empty(),
    decreases n,
{
    if n > 0 {
        let paths = project_paths_of(threads, ids, n - 1);
        let t = threads[n - 1];
        if !is_projectless(ids, t) && !paths.contains(t.cwd@) {
            assert(project_paths_of(threads, ids, n) == paths.push(t.cwd@));
            assert(project_paths_of(threads, ids, n)[paths.len() as int] == t.cwd@);
        }
        if !is_projectless(ids, t) && paths.contains(t.cwd@) {
            assert(t.cwd@ != path);
        }
        assert(!paths.contains(path)) by {
            if paths.contains(path) {
                let k = choose|k: int| 0 <= k < paths.len() && paths[k] == path;
                assert(project_paths_of(threads, ids, n)[k] == path);
            }
        }
        lemma_threads_at_unknown(threads, ids, path, n - 1);
        assert(threads_at(threads, ids, path, n) =~= threads_at(threads, ids, path, n - 1));
    }
}

/// Sorts out the listed threads, given the ids of those that stand outside
/// any project.
pub fn group_threads(threads: &Vec<Thread>, projectless_ids: &Vec<String>) -> (r: ThreadGroups)
    ensures
        r.newest.is_some() == newest_thread(threads@, threads@.len() as int).is_some(),
        r.newest.is_some() ==> newest_thread(threads@, threads@.len() as int) == Some(
            r.newest.unwrap() as int,
        ),
        r.project_paths.deep_view() == project_paths_of(
            threads@,
            projectless_ids.deep_view(),
            threads@.len() as int,
        ),
        r.project_threads@.len() == r.project_paths@.len(),
        forall|p: int|
            0 <= p < r.project_threads@.len() ==> (#[trigger] r.project_threads@[p])@ == threads_at(
                threads@,
                projectless_ids.deep_view(),
                r.project_paths@[p]@,
                threads@.len() as int,
            ),
        r.projectless@ == projectless_of(
            threads@,
            projectless_ids.deep_view(),
            threads@.len() as int,
        ),
{
    let ghost ids = projectless_ids.deep_view();
    let mut newest: Option<usize> = None;
    let mut paths: Vec<String> = Vec::new();
    let mut groups: Vec<Vec<usize>> = Vec::new();
    let mut projectless: Vec<usize> = Vec::new();
    let mut i: usize = 0;
    while i < threads.len()
        invariant
            0 <= i <= threads@.len(),
            ids == projectless_ids.deep_view(),
            newest.is_some() == newest_thread(threads@, i as int).is_some(),
            newest.is_some() ==> newest_thread(threads@, i as int) == Some(newest.unwrap() as int)
                && newest.unwrap() < i,
            paths.deep_view() == project_paths_of(threads@, ids, i as int),
            groups@.len() == paths@.len(),
            forall|p: int|
                0 <= p < groups@.len() ==> (#[trigger] groups@[p])@ == threads_at(
                    threads@,
                    ids,
                    paths@[p]@,
                    i as int,
                ),
            projectless@ == projectless_of(threads@, ids, i as int),
        decreases threads@.len() - i,
    {
        let thread = &threads[i];
        let is_newest = match newest {
            None => true,
            Some(j) => thread.updated_at > threads[j].updated_at,
        };
        if is_newest {
            newest = Some(i);
        }
        if contains_string(projectless_ids, thread.id.as_str()) {
            projectless.push(i);
            proof {
                assert forall|p: int| 0 <= p < groups@.len() implies (#[trigger] groups@[p])@
                    == threads_at(threads@, ids, paths@[p]@, i as int + 1) by {
                    assert(threads_at(threads@, ids, paths@[p]@, i as int + 1) =~= threads_at(
                        threads@,
                        ids,
                        paths@[p]@,
                        i as int,
                    ));
                }
            }
        } else {
            let ghost before_paths = paths.deep_view();
            let mut q: usize = 0;
            let mut found = false;
            while q < paths.len() && !found
                invariant
                    0 <= q <= paths@.len(),
                    found ==> q < paths@.len() && paths@[q as int]@ == thread.cwd@,
                    !found ==> forall|p: int| 0 <= p < q ==> paths@[p]@ != thread.cwd@,
                decreases paths@.len() - q + if found {
                    0int
                } else {
                    1
                },
            {
                if str_eq(paths[q].as_str(), thread.cwd.as_str()) {
                    found = true;
                } else {
                    q = q + 1;
                }
            }
            if found {
                let ghost old_group = groups@[q as int]@;
                groups[q].push(i);
                proof {
                    assert(before_paths[q as int] == thread.cwd@);
                    assert(before_paths.contains(thread.cwd@));
                    assert forall|p: int| 0 <= p < groups@.len() implies (#[trigger] groups@[p])@
                        == threads_at(threads@, ids, paths@[p]@, i as int + 1) by {
                        if p != q {
                            assert(paths@[p]@ != thread.cwd@) by {
                                lemma_paths_distinct(threads@, ids, i as int, p, q as int);
                            }
                            assert(threads_at(threads@, ids, paths@[p]@, i as int + 1)
                                =~= threads_at(threads@, ids, paths@[p]@, i as int));
                        } else {
                            assert(threads_at(threads@, ids, paths@[p]@, i as int + 1)
                                =~= old_group.push(i));
                        }
                    }
                }
            } else {
                proof {
                    assert(!before_paths.contains(thread.cwd@)) by {
                        if before_paths.contains(thread.cwd@) {
                            let p = choose|p: int|
                                0 <= p < before_paths.len() && before_paths[p] == thread.cwd@;
                            assert(paths@[p]@ == before_paths[p]);
                        }
                    }
                    lemma_threads_at_unknown(threads@, ids, thread.cwd@, i as int);
                }
                paths.push(thread.cwd.clone());
                let mut group: Vec<usize> = Vec::new();
                group.push(i);
                groups.push(group);
                proof {
                    assert(paths.deep_view() =~= before_paths.push(thread.cwd@));
                    assert forall|p: int| 0 <= p < groups@.len() implies (#[trigger] groups@[p])@
                        == threads_at(threads@, ids, paths@[p]@, i as int + 1) by {
                        if p < before_paths.len() {
                            assert(paths@[p]@ == before_paths[p]);
                            assert(before_paths[p] != thread.cwd@) by {
                                assert(before_paths.contains(before_paths[p]));
                            }
                            assert(threads_at(threads@, ids, paths@[p]@, i as int + 1)
                                =~= threads_at(threads@, ids, paths@[p]@, i as int));
                        } else {
                            assert(threads_at(threads@, ids, paths@[p]@, i as int + 1)
                                =~= seq![i]);
                        }
                    }
                }
            }
        }
        i = i + 1;
    }
    ThreadGroups { newest, project_paths: paths, project_threads: groups, projectless }
}

/// The project directories are distinct.
proof fn lemma_paths_distinct(threads: Seq<Thread>, ids: Seq<Seq<char>>, n: int, p: int, q: int)
    requires
        0 <= n <= threads.len(),
        0 <= p < project_paths_of(threads, ids, n).len(),
        0 <= q < project_paths_of(threads, ids, n).len(),
        p != q,
    ensures
        project_paths_of(threads, ids, n)[p] != project_paths_of(threads, ids, n)[q],
    decreases n,
{
    if n > 0 {
        let paths = project_paths_of(threads, ids, n - 1);
        let t = threads[n - 1];
        if is_projectless(ids, t) || paths.contains(t.cwd@) {
            lemma_paths_distinct(threads, ids, n - 1, p, q);
        } else {
            if p < paths.len() && q < paths.len() {
                lemma_paths_distinct(threads, ids, n - 1, p, q);
            } else if p < paths.len() {
                assert(paths.contains(paths[p]));
            } else {
                assert(paths.contains(paths[q]));
            }
        }
    }
}

/// The latest update time among the given threads.
pub open spec fn latest_update(threads: Seq<Thread>, positions: Seq<usize>, n: int) -> Option<i64>
    decreases n,
{
    if n <= 0 {
        None
    } else {
        let t = threads[positions[n - 1] as int].updated_at;
        match latest_update(threads, positions, n - 1) {
            None => Some(t),
            Some(m) => Some(if t > m {
                t
            } else {
                m
            }),
        }
    }
}

/// The latest update time among the threads at `positions`.
pub fn latest_thread_update(threads: &Vec<Thread>, positions: &Vec<usize>) -> (r: Option<i64>)
    requires
        forall|i: int| 0 <= i < positions@.len() ==> (#[trigger] positions@[i]) < threads@.len(),
    ensures
        r == latest_update(threads@, positions@, positions@.len() as int),
{
    let mut latest: Option<i64> = None;
    let mut i: usize = 0;
    while i < positions.len()
        invariant
            0 <= i <= positions@.len(),
            forall|j: int| 0 <= j < positions@.len() ==> (#[trigger] positions@[j]) < threads@.len(),
            latest == latest_update(threads@, positions@, i as int),
        decreases positions@.len() - i,
    {
        let t = threads[positions[i]].updated_at;
        latest = match latest {
            None => Some(t),
            Some(m) => Some(if t > m {
                t
            } else {
                m
            }),
        };
        i = i + 1;
    }
    latest
}

/// The strings of `values[..n]`, each once, in order of first occurrence;
/// other values are left out.
pub open spec fn distinct_strings(values: Seq<DataValue>, n: int) -> Seq<Seq<char>>
    decreases n,
{
    if n <= 0 {
        Seq::empty()
    } else {
        let seen = distinct_strings(values, n - 1);
        match values[n - 1] {
            DataValue::Text(s) => if seen.contains(s@) {
                seen
            } else {
                seen.push(s@)
            },
            _ => seen,
        }
    }
}

/// The ids listed under `projectless-thread-ids` in a global state document.
pub open spec fn projectless_ids_spec(state: DataValue) -> Seq<Seq<char>> {
    match get_spec(state, "projectless-thread-ids"@) {
        Some(DataValue::Array(items)) => distinct_strings(items@, items@.len() as int),
        _ => Seq::empty(),
    }
}

/// The ids listed under `projectless-thread-ids` in a global state
/// document, each once.
pub fn projectless_ids_in(state: &DataValue) -> (r: Vec<String>)
    ensures
        r.deep_view() == projectless_ids_spec(*state),
{
    let mut r: Vec<String> = Vec::new();
    match state.get("projectless-thread-ids") {
        Some(DataValue::Array(items)) => {
            let mut i: usize = 0;
            while i < items.len()
                invariant
                    0 <= i <= items@.len(),
                    r.deep_view() == distinct_strings(items@, i as int),
                decreases items@.len() - i,
            {
                let ghost before = r.deep_view();
                if let DataValue::Text(s) = &items[i] {
                    if !contains_string(&r, s.as_str()) {
                        r.push(s.clone());
                        assert(r.deep_view() =~= before.push(s@));
                    }
                }
                i = i + 1;
            }
            r
        },
        _ => r,
    }
}

/// The ids of threads that the desktop app marks as standing outside any
/// project, read from the text of its global state file; none when the
/// text is not JSON.
pub fn parse_projectless_thread_ids(contents: &str) -> (r: Vec<String>)
    ensures
        r.deep_view() == match json_document(contents@) {
            Some(state) => projectless_ids_spec(state),
            None => Seq::empty(),
        },
{
    match parse_json(contents) {
        Some(state) => projectless_ids_in(&state),
        None => Vec::new(),
    }
}

/// Law: the projectless ids read from the state are a set: none repeats.
pub proof fn law_projectless_ids_are_distinct(values: Seq<DataValue>, n: int)
    ensures
        distinct_strings(values, n).no_duplicates(),
    decreases n,
{
    if n > 0 {
        law_projectless_ids_are_distinct(values, n - 1);
        let seen = distinct_strings(values, n - 1);
        match values[n - 1] {
            DataValue::Text(s) => {
                if !seen.contains(s@) {
                    assert forall|i: int, j: int|
                        0 <= i < seen.push(s@).len() && 0 <= j < seen.push(s@).len() && i != j
                        implies seen.push(s@)[i] != seen.push(s@)[j] by {
                        if i < seen.len() && j < seen.len() {
                        } else if i < seen.len() {
                            assert(seen.contains(seen[i]));
                        } else {
                            assert(seen.contains(seen[j]));
                        }
                    }
                }
            },
            _ => {},
        }
    }
}

/// Law: every project directory appears once among the groups.
pub proof fn law_project_paths_are_distinct(threads: Seq<Thread>, ids: Seq<Seq<char>>, n: int)
    requires
        0 <= n <= threads.len(),
    ensures
        project_paths_of(threads, ids, n).no_duplicates(),
{
    assert forall|p: int, q: int|
        0 <= p < project_paths_of(threads, ids, n).len() && 0 <= q < project_paths_of(
            threads,
            ids,
            n,
        ).len() && p != q implies project_paths_of(threads, ids, n)[p] != project_paths_of(
        threads,
        ids,
        n,
    )[q] by {
        lemma_paths_distinct(threads, ids, n, p, q);
    }
}

/// `paths` without the ones already seen, each once, in order.
pub open spec fn new_paths(paths: Seq<Seq<char>>, seen: Seq<Seq<char>>, n: int) -> Seq<Seq<char>>
    decreases n,
{
    if n <= 0 {
        Seq::empty()
    } else {
        let earlier = new_paths(paths, seen, n - 1);
        let p = paths[n - 1];
        if seen.contains(p) || earlier.contains(p) {
            earlier
        } else {
            earlier.push(p)
        }
    }
}

/// The new paths are distinct, none of them was seen, each comes from the
/// first `n` paths, and each of those is seen or new.
proof fn lemma_new_paths(paths: Seq<Seq<char>>, seen: Seq<Seq<char>>, n: int)
    requires
        0 <= n <= paths.len(),
    ensures
        new_paths(paths, seen, n).no_duplicates(),
        forall|x: Seq<char>| #[trigger] new_paths(paths, seen, n).contains(x) ==> !seen.contains(x),
        forall|x: Seq<char>|
            #[trigger] new_paths(paths, seen, n).contains(x) ==> paths.take(n).contains(x),
        forall|i: int|
            0 <= i < n ==> seen.contains(#[trigger] paths[i]) || new_paths(paths, seen, n).contains(
                paths[i],
            ),
    decreases n,
{
    if n > 0 {
        lemma_new_paths(paths, seen, n - 1);
        let earlier = new_paths(paths, seen, n - 1);
        let p = paths[n - 1];
        let now = new_paths(paths, seen, n);
        assert forall|x: Seq<char>| #[trigger] now.contains(x) implies paths.take(n).contains(x) by {
            if earlier.contains(x) {
                let k = choose|k: int| 0 <= k < n - 1 && #[trigger] paths.take(n - 1)[k] == x;
                assert(paths.take(n)[k] == x);
            } else {
                assert(x == p);
                assert(paths.take(n)[n - 1] == x);
            }
        }
        if !(seen.contains(p) || earlier.contains(p)) {
            assert(now == earlier.push(p));
            assert forall|x: Seq<char>| #[trigger] now.contains(x) implies !seen.contains(x) by {
                if x != p {
                    let k = choose|k: int| 0 <= k < now.len() && now[k] == x;
                    assert(k < earlier.len());
                    assert(earlier[k] == x);
                    assert(earlier.contains(x));
                }
            }
            assert forall|i: int, j: int| 0 <= i < j < now.len() implies now[i] != now[j] by {
                if j == now.len() - 1 {
                    assert(earlier.contains(now[i]));
                }
            }
            assert forall|i: int| 0 <= i < n implies seen.contains(#[trigger] paths[i])
                || now.contains(paths[i]) by {
                if i < n - 1 && earlier.contains(paths[i]) {
                    let k = choose|k: int| 0 <= k < earlier.len() && earlier[k] == paths[i];
                    assert(now[k] == paths[i]);
                }
                if i == n - 1 {
                    assert(now[now.len() - 1] == paths[i]);
                }
            }
        }
    }
}

/// Law: the projects the app starts with are listed once each: the
/// workspace first, then every project of the configuration, and nothing
/// else.
pub proof fn law_initial_projects_listed_once(workspace: Seq<char>, paths: Seq<Seq<char>>)
    ensures
        ({
            let r = seq![workspace] + new_paths(paths, seq![workspace], paths.len() as int);
            &&& r.no_duplicates()
            &&& r[0] == workspace
            &&& forall|i: int| 0 <= i < paths.len() ==> r.contains(#[trigger] paths[i])
            &&& forall|x: Seq<char>| #[trigger] r.contains(x) ==> x == workspace || paths.contains(x)
        }),
{
    let head = seq![workspace];
    let tail = new_paths(paths, head, paths.len() as int);
    let r = head + tail;
    lemma_new_paths(paths, head, paths.len() as int);
    assert(paths.take(paths.len() as int) =~= paths);
    assert(head.contains(workspace)) by {
        assert(head[0] == workspace);
    }
    assert forall|i: int, j: int| 0 <= i < j < r.len() implies r[i] != r[j] by {
        if i == 0 {
            assert(tail.contains(r[j])) by {
                assert(tail[j - 1] == r[j]);
            }
        } else {
            assert(r[i] == tail[i - 1] && r[j] == tail[j - 1]);
        }
    }
    assert forall|i: int| 0 <= i < paths.len() implies r.contains(#[trigger] paths[i]) by {
        if head.contains(paths[i]) {
            assert(r[0] == paths[i]);
        } else {
            let k = choose|k: int| 0 <= k < tail.len() && tail[k] == paths[i];
            assert(r[k + 1] == paths[i]);
        }
    }
    assert forall|x: Seq<char>| #[trigger] r.contains(x) implies x == workspace || paths.contains(x) by {
        let k = choose|k: int| 0 <= k < r.len() && r[k] == x;
        if k > 0 {
            assert(tail[k - 1] == x);
            assert(tail.contains(x));
        }
    }
}

/// The projects the app starts with: the workspace, then the projects of
/// the configuration that are not already listed, each once.
pub fn initial_project_paths(workspace: &str, config_paths: &Vec<String>) -> (r: Vec<String>)
    ensures
        r.deep_view() == seq![workspace@] + new_paths(
            config_paths.deep_view(),
            seq![workspace@],
            config_paths@.len() as int,
        ),
{
    let mut r: Vec<String> = Vec::new();
    r.push(String::from_str(workspace));
    let ghost head = seq![workspace@];
    assert(r.deep_view() =~= head);
    let mut i: usize = 0;
    while i < config_paths.len()
        invariant
            0 <= i <= config_paths@.len(),
            head == seq![workspace@],
            r.deep_view() == head + new_paths(config_paths.deep_view(), head, i as int),
        decreases config_paths@.len() - i,
    {
        let ghost earlier = new_paths(config_paths.deep_view(), head, i as int);
        let p = config_paths[i].as_str();
        assert(config_paths.deep_view()[i as int] == p@);
        let listed = contains_string(&r, p);
        proof {
            assert(r.deep_view().contains(p@) == (head.contains(p@) || earlier.contains(p@))) by {
                if r.deep_view().contains(p@) {
                    let k = choose|k: int| 0 <= k < r.deep_view().len() && r.deep_view()[k] == p@;
                    if k >= 1 {
                        assert(earlier[k - 1] == p@);
                    }
                }
                if head.contains(p@) {
                    assert(r.deep_view()[0] == p@);
                }
                if earlier.contains(p@) {
                    let k = choose|k: int| 0 <= k < earlier.len() && earlier[k] == p@;
                    assert(r.deep_view()[k + 1] == p@);
                }
            }
        }
        if !listed {
            let ghost prior = r.deep_view();
            r.push(String::from_str(p));
            assert(r.deep_view() =~= prior.push(p@));
            assert(r.deep_view() =~= head + earlier.push(p@));
        }
        i = i + 1;
    }
    r
}

/// The project directories of the listed threads that are not among the
/// existing projects, in order.
pub open spec fn discovered_paths(paths: Seq<Seq<char>>, existing: Seq<Seq<char>>, n: int) -> Seq<int>
    decreases n,
{
    if n <= 0 {
        Seq::empty()
    } else {
        discovered_paths(paths, existing, n - 1) + if existing.contains(paths[n - 1]) {
            Seq::empty()
        } else {
            seq![n - 1]
        }
    }
}

/// The positions of the project directories that are not among the
/// existing projects, in order: the projects to add.
pub fn discovered_project_positions(paths: &Vec<String>, existing: &Vec<String>) -> (r: Vec<
    usize,
>)
    ensures
        r@.map_values(|i: usize| i as int) == discovered_paths(
            paths.deep_view(),
            existing.deep_view(),
            paths@.len() as int,
        ),
{
    let mut r: Vec<usize> = Vec::new();
    let mut i: usize = 0;
    while i < paths.len()
        invariant
            0 <= i <= paths@.len(),
            r@.map_values(|i: usize| i as int) == discovered_paths(
                paths.deep_view(),
                existing.deep_view(),
                i as int,
            ),
        decreases paths@.len() - i,
    {
        let ghost before = r@.map_values(|i: usize| i as int);
        assert(paths.deep_view()[i as int] == paths@[i as int]@);
        if !contains_string(existing, paths[i].as_str()) {
            r.push(i);
            assert(r@.map_values(|i: usize| i as int) =~= before.push(i as int));
        } else {
            assert(before + Seq::<int>::empty() =~= before);
        }
        i = i + 1;
    }
    r
}

/// The latest update time among the first `n` threads.
pub open spec fn latest_of(threads: Seq<Thread>, n: int) -> Option<i64>
    decreases n,
{
    if n <= 0 {
        None
    } else {
        let t = threads[n - 1].updated_at;
        match latest_of(threads, n - 1) {
            None => Some(t),
            Some(m) => Some(if t > m {
                t
            } else {
                m
            }),
        }
    }
}

/// The chats of a project with `threads`: the chat of each thread, in
/// order, or the `empty` chat alone when it has none.
pub open spec fn loaded_chats_spec(threads: Seq<Thread>) -> Seq<ChatView> {
    if threads.len() == 0 {
        seq![empty_chat_spec()]
    } else {
        threads.map_values(|t: Thread| thread_chat_spec(t))
    }
}

/// The chats of one project made from its `threads`, with the latest update
/// time among them: the chat of each thread in order, or, when there are no
/// threads, the `empty` chat alone with its notice and no update time.
pub fn loaded_chats(threads: Vec<Thread>) -> (r: (Vec<ChatSummary>, Option<i64>))
    ensures
        r.0@.map_values(|c: ChatSummary| c.view()) == loaded_chats_spec(threads@),
        r.1 == latest_of(threads@, threads@.len() as int),
{
    let ghost all = threads@;
    let mut latest: Option<i64> = None;
    let mut i: usize = 0;
    while i < threads.len()
        invariant
            all == threads@,
            0 <= i <= all.len(),
            latest == latest_of(all, i as int),
        decreases all.len() - i,
    {
        let t = threads[i].updated_at;
        latest = match latest {
            None => Some(t),
            Some(m) => Some(if t > m {
                t
            } else {
                m
            }),
        };
        i = i + 1;
    }
    if threads.len() == 0 {
        let chats = vec![empty_chat()];
        assert(chats@.map_values(|c: ChatSummary| c.view()) =~= seq![empty_chat_spec()]);
        return (chats, latest);
    }
    let mut chats: Vec<ChatSummary> = Vec::new();
    let mut rest = threads;
    let mut k: usize = 0;
    while rest.len() > 0
        invariant
            rest@ == all.skip(k as int),
            k <= all.len(),
            all.len() <= usize::MAX,
            chats@.map_values(|c: ChatSummary| c.view()) == all.take(k as int).map_values(
                |t: Thread| thread_chat_spec(t),
            ),
        decreases rest@.len(),
    {
        let thread = rest.remove(0);
        assert(thread == all[k as int]);
        let chat = chat_from_thread(thread);
        let ghost before = chats@.map_values(|c: ChatSummary| c.view());
        chats.push(chat);
        assert(chats@.map_values(|c: ChatSummary| c.view()) =~= before.push(
            thread_chat_spec(all[k as int]),
        ));
        assert(all.take(k + 1) =~= all.take(k as int).push(all[k as int]));
        assert(all.take(k + 1).map_values(|t: Thread| thread_chat_spec(t)) =~= all.take(
            k as int,
        ).map_values(|t: Thread| thread_chat_spec(t)).push(thread_chat_spec(all[k as int])));
        k = k + 1;
    }
    assert(all.take(k as int) =~= all);
    (chats, latest)
}

} // verus!
