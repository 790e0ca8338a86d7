//! The rows of the sidebar: projects with the chats of the active project,
//! then the chats outside any project, each list paginated.
use vstd::prelude::*;
use crate::name_map::NameMap;
use crate::name_set::{NameSet, toggled};
use crate::text::contains_string;
use vstd::string::StringExecFns;

verus! {

/// How many more rows a "show more" row reveals.
pub const PAGE_SIZE: usize = 10;

/// Which list a "show more" row extends.
#[derive(Clone, Debug, PartialEq, Eq)]
pub enum PaginateKind {
    Projects,
    ProjectlessChats,
    ProjectChats { path: String },
}

/// A row of the sidebar, with the project or chat it shows.
#[derive(Clone, Debug, PartialEq, Eq)]
pub enum SidebarRow<Project, Chat> {
    /// The label of a section: `Projects` or `Chats`.
    SectionHeader { label: &'static str },
    /// A project folder, which shows the chats in it when it is expanded.
    Project { project_index: usize, project: Project, selected: bool, expanded: bool },
    /// A chat of the active project.
    Chat { project_index: usize, chat_index: usize, chat: Chat, selected: bool },
    /// A chat outside any project.
    ProjectlessChat { chat_index: usize, chat: Chat, selected: bool },
    /// A "show more" row.
    ShowMore { kind: PaginateKind },
}

/// A row of the sidebar as values.
pub enum RowView {
    SectionHeader(Seq<char>),
    Project { project_index: int, selected: bool, expanded: bool },
    Chat { project_index: int, chat_index: int, selected: bool },
    ProjectlessChat { chat_index: int, selected: bool },
    ShowMoreProjects,
    ShowMoreProjectlessChats,
    ShowMoreProjectChats(Seq<char>),
}

impl<Project, Chat> SidebarRow<Project, Chat> {
    /// The row as values, without the project or chat it shows.
    pub open spec fn view(self) -> RowView {
        match self {
            SidebarRow::SectionHeader { label } => RowView::SectionHeader(label@),
            SidebarRow::Project { project_index, selected, expanded, .. } => RowView::Project {
                project_index: project_index as int,
                selected,
                expanded,
            },
            SidebarRow::Chat { project_index, chat_index, selected, .. } => RowView::Chat {
                project_index: project_index as int,
                chat_index: chat_index as int,
                selected,
            },
            SidebarRow::ProjectlessChat { chat_index, selected, .. } => RowView::ProjectlessChat {
                chat_index: chat_index as int,
                selected,
            },
            SidebarRow::ShowMore { kind } => match kind {
                PaginateKind::Projects => RowView::ShowMoreProjects,
                PaginateKind::ProjectlessChats => RowView::ShowMoreProjectlessChats,
                PaginateKind::ProjectChats { path } => RowView::ShowMoreProjectChats(path@),
            },
        }
    }
}

/// The rows as values.
pub open spec fn rows_view<Project, Chat>(rows: Seq<SidebarRow<Project, Chat>>) -> Seq<RowView> {
    rows.map_values(|r: SidebarRow<Project, Chat>| r.view())
}

/// Whether the row shows a clone of the project or chat at its position:
/// of `projects`, of the active project's `chats`, or of the `projectless`
/// chats.
pub open spec fn shows_its_item<Project: Clone, Chat: Clone>(
    row: SidebarRow<Project, Chat>,
    projects: Seq<Project>,
    projectless: Seq<Chat>,
    chats: Seq<Chat>,
) -> bool {
    match row {
        SidebarRow::Project { project_index, project, .. } => project_index < projects.len()
            && cloned(projects[project_index as int], project),
        SidebarRow::Chat { chat_index, chat, .. } => chat_index < chats.len() && cloned(
            chats[chat_index as int],
            chat,
        ),
        SidebarRow::ProjectlessChat { chat_index, chat, .. } => chat_index < projectless.len()
            && cloned(projectless[chat_index as int], chat),
        _ => true,
    }
}

/// Whether every row shows a clone of the project or chat at its position.
pub open spec fn rows_show_their_items<Project: Clone, Chat: Clone>(
    rows: Seq<SidebarRow<Project, Chat>>,
    projects: Seq<Project>,
    projectless: Seq<Chat>,
    chats: Seq<Chat>,
) -> bool {
    forall|i: int|
        0 <= i < rows.len() ==> shows_its_item(#[trigger] rows[i], projects, projectless, chats)
}

/// What the sidebar shows, as counts and positions.
pub struct SidebarInput {
    pub project_count: nat,
    pub visible_project_count: nat,
    pub projectless_count: nat,
    pub visible_projectless_count: nat,
    pub active_project: nat,
    pub active_chat: nat,
    pub active_projectless_chat: Option<nat>,
    pub active_project_path: Option<Seq<char>>,
    pub active_project_chat_count: nat,
    pub visible_project_chat_count: nat,
    pub collapsed_projects: Seq<Seq<char>>,
}

/// The smaller of two counts.
pub open spec fn min_nat(a: nat, b: nat) -> nat {
    if a < b {
        a
    } else {
        b
    }
}

/// Whether project `k` is selected: it is the active project and no chat
/// outside projects is active.
pub open spec fn project_selected(input: SidebarInput, k: int) -> bool {
    k == input.active_project && input.active_projectless_chat is None
}

/// Whether project `k` is expanded: it is selected and its path is not collapsed.
pub open spec fn project_expanded(input: SidebarInput, k: int) -> bool {
    project_selected(input, k) && match input.active_project_path {
        Some(path) => !input.collapsed_projects.contains(path),
        None => false,
    }
}

/// The visible chats of the expanded project `k`, then a "show more" row
/// when some are hidden.
pub open spec fn project_chat_rows(input: SidebarInput, k: int) -> Seq<RowView> {
    Seq::new(
        min_nat(input.active_project_chat_count, input.visible_project_chat_count),
        |i: int| RowView::Chat { project_index: k, chat_index: i, selected: i == input.active_chat },
    ) + if input.active_project_chat_count > input.visible_project_chat_count {
        seq![RowView::ShowMoreProjectChats(input.active_project_path->0)]
    } else {
        Seq::empty()
    }
}

/// The rows of the first `n` visible projects.
pub open spec fn project_rows(input: SidebarInput, n: int) -> Seq<RowView>
    decreases n,
{
    if n <= 0 {
        Seq::empty()
    } else {
        let k = n - 1;
        project_rows(input, k) + seq![
            RowView::Project {
                project_index: k,
                selected: project_selected(input, k),
                expanded: project_expanded(input, k),
            },
        ] + if project_expanded(input, k) {
            project_chat_rows(input, k)
        } else {
            Seq::empty()
        }
    }
}

proof fn lemma_push_shows<Project: Clone, Chat: Clone>(
    rows: Seq<SidebarRow<Project, Chat>>,
    row: SidebarRow<Project, Chat>,
    projects: Seq<Project>,
    projectless: Seq<Chat>,
    chats: Seq<Chat>,
)
    requires
        rows_show_their_items(rows, projects, projectless, chats),
        shows_its_item(row, projects, projectless, chats),
    ensures
        rows_show_their_items(rows.push(row), projects, projectless, chats),
{
    assert forall|i: int| 0 <= i < rows.push(row).len() implies shows_its_item(
        #[trigger] rows.push(row)[i],
        projects,
        projectless,
        chats,
    ) by {
        if i < rows.len() {
            assert(rows.push(row)[i] == rows[i]);
        }
    }
}

/// The rows of the sidebar: a `Projects` section with the visible projects
/// (the active one expanded with its visible chats unless collapsed), then a
/// `Chats` section with the visible chats outside projects; each list that
/// hides some of its entries ends with a "show more" row.
pub open spec fn sidebar_rows_spec(input: SidebarInput) -> Seq<RowView> {
    (if input.project_count > 0 {
        seq![RowView::SectionHeader("Projects"@)] + project_rows(
            input,
            min_nat(input.project_count, input.visible_project_count) as int,
        ) + if input.project_count > input.visible_project_count {
            seq![RowView::ShowMoreProjects]
        } else {
            Seq::empty()
        }
    } else {
        Seq::empty()
    }) + if input.projectless_count > 0 {
        seq![RowView::SectionHeader("Chats"@)] + Seq::new(
            min_nat(input.projectless_count, input.visible_projectless_count),
            |i: int|
                RowView::ProjectlessChat {
                    chat_index: i,
                    selected: input.active_projectless_chat == Some(i as nat),
                },
        ) + if input.projectless_count > input.visible_projectless_count {
            seq![RowView::ShowMoreProjectlessChats]
        } else {
            Seq::empty()
        }
    } else {
        Seq::empty()
    }
}

/// Builds the rows of the sidebar from the projects, the chats outside
/// projects and the chats of the active project, and how many of each are
/// visible.
pub fn build_sidebar_rows<Project: Clone, Chat: Clone>(
    projects: &[Project],
    visible_project_count: usize,
    projectless_chats: &[Chat],
    visible_projectless_count: usize,
    active_project: usize,
    active_chat: usize,
    active_projectless_chat: Option<usize>,
    active_project_path: Option<&str>,
    active_project_chats: &[Chat],
    visible_project_chat_count: usize,
    collapsed_projects: &Vec<String>,
) -> (rows: Vec<SidebarRow<Project, Chat>>)
    ensures
        rows_show_their_items(rows@, projects@, projectless_chats@, active_project_chats@),
        rows_view(rows@) == sidebar_rows_spec(
            SidebarInput {
                project_count: projects@.len(),
                visible_project_count: visible_project_count as nat,
                projectless_count: projectless_chats@.len(),
                visible_projectless_count: visible_projectless_count as nat,
                active_project: active_project as nat,
                active_chat: active_chat as nat,
                active_projectless_chat: match active_projectless_chat {
                    Some(i) => Some(i as nat),
                    None => None,
                },
                active_project_path: match active_project_path {
                    Some(p) => Some(p@),
                    None => None,
                },
                active_project_chat_count: active_project_chats@.len(),
                visible_project_chat_count: visible_project_chat_count as nat,
                collapsed_projects: collapsed_projects.deep_view(),
            },
        ),
{
    let ghost input = SidebarInput {
        project_count: projects@.len(),
        visible_project_count: visible_project_count as nat,
        projectless_count: projectless_chats@.len(),
        visible_projectless_count: visible_projectless_count as nat,
        active_project: active_project as nat,
        active_chat: active_chat as nat,
        active_projectless_chat: match active_projectless_chat {
            Some(i) => Some(i as nat),
            None => None,
        },
        active_project_path: match active_project_path {
            Some(p) => Some(p@),
            None => None,
        },
        active_project_chat_count: active_project_chats@.len(),
        visible_project_chat_count: visible_project_chat_count as nat,
        collapsed_projects: collapsed_projects.deep_view(),
    };
    let mut rows: Vec<SidebarRow<Project, Chat>> = Vec::new();
    let project_count = projects.len();
    let chat_count = active_project_chats.len();
    if project_count > 0 {
        proof {
            lemma_push_shows(
                rows@,
                SidebarRow::SectionHeader { label: "Projects" },
                projects@,
                projectless_chats@,
                active_project_chats@,
            );
        }
        rows.push(SidebarRow::SectionHeader { label: "Projects" });
        let shown = if project_count < visible_project_count {
            project_count
        } else {
            visible_project_count
        };
        let ghost head = rows_view(rows@);
        assert(head =~= seq![RowView::SectionHeader("Projects"@)]);
        let mut k: usize = 0;
        while k < shown
            invariant
                0 <= k <= shown,
                shown == min_nat(input.project_count, input.visible_project_count),
                project_count == input.project_count,
                chat_count == input.active_project_chat_count,
                head == seq![RowView::SectionHeader("Projects"@)],
                rows_view(rows@) == head + project_rows(input, k as int),
                rows_show_their_items(rows@, projects@, projectless_chats@, active_project_chats@),
                project_count == projects@.len(),
                chat_count == active_project_chats@.len(),
                input.active_project == active_project,
                input.active_chat == active_chat,
                input.visible_project_chat_count == visible_project_chat_count,
                input.active_projectless_chat == match active_projectless_chat {
                    Some(i) => Some(i as nat),
                    None => None,
                },
                input.active_project_path == match active_project_path {
                    Some(p) => Some(p@),
                    None => None,
                },
                input.collapsed_projects == collapsed_projects.deep_view(),
            decreases shown - k,
        {
            let ghost before = rows_view(rows@);
            let selected = k == active_project && active_projectless_chat.is_none();
            let expanded = selected && match active_project_path {
                Some(path) => !contains_string(collapsed_projects, path),
                None => false,
            };
            assert(selected == project_selected(input, k as int));
            assert(expanded == project_expanded(input, k as int));
            let project = projects[k].clone();
            let row = SidebarRow::Project { project_index: k, project, selected, expanded };
            proof {
                lemma_push_shows(
                    rows@,
                    row,
                    projects@,
                    projectless_chats@,
                    active_project_chats@,
                );
            }
            rows.push(row);
            let ghost with_project = rows_view(rows@);
            assert(with_project =~= before.push(
                RowView::Project { project_index: k as int, selected, expanded },
            ));
            if expanded {
                let visible = if chat_count < visible_project_chat_count {
                    chat_count
                } else {
                    visible_project_chat_count
                };
                let mut c: usize = 0;
                while c < visible
                    invariant
                        0 <= c <= visible,
                        visible == min_nat(
                            input.active_project_chat_count,
                            input.visible_project_chat_count,
                        ),
                        input.active_chat == active_chat,
                        rows_show_their_items(rows@, projects@, projectless_chats@, active_project_chats@),
                        chat_count == active_project_chats@.len(),
                        input.active_project_chat_count == active_project_chats@.len(),
                        rows_view(rows@) == with_project + Seq::new(
                            c as nat,
                            |i: int|
                                RowView::Chat {
                                    project_index: k as int,
                                    chat_index: i,
                                    selected: i == input.active_chat,
                                },
                        ),
                    decreases visible - c,
                {
                    let ghost prior = rows_view(rows@);
                    let chat = active_project_chats[c].clone();
                    let row = SidebarRow::Chat {
                        project_index: k,
                        chat_index: c,
                        chat,
                        selected: c == active_chat,
                    };
                    proof {
                        lemma_push_shows(
                            rows@,
                            row,
                            projects@,
                            projectless_chats@,
                            active_project_chats@,
                        );
                    }
                    rows.push(row);
                    assert(rows_view(rows@) =~= prior.push(
                        RowView::Chat {
                            project_index: k as int,
                            chat_index: c as int,
                            selected: c == active_chat,
                        },
                    ));
                    assert(rows_view(rows@) =~= with_project + Seq::new(
                        (c + 1) as nat,
                        |i: int|
                            RowView::Chat {
                                project_index: k as int,
                                chat_index: i,
                                selected: i == input.active_chat,
                            },
                    ));
                    c = c + 1;
                }
                let ghost with_chats = rows_view(rows@);
                if chat_count > visible_project_chat_count {
                    let path = match active_project_path {
                        Some(p) => String::from_str(p),
                        None => String::new(),
                    };
                    let row = SidebarRow::ShowMore { kind: PaginateKind::ProjectChats { path } };
                    proof {
                        lemma_push_shows(
                            rows@,
                            row,
                            projects@,
                            projectless_chats@,
                            active_project_chats@,
                        );
                    }
                    rows.push(row);
                    assert(rows_view(rows@) =~= with_chats.push(
                        RowView::ShowMoreProjectChats(input.active_project_path->0),
                    ));
                }
                assert(rows_view(rows@) =~= before + seq![
                    RowView::Project { project_index: k as int, selected, expanded },
                ] + project_chat_rows(input, k as int));
            } else {
                assert(rows_view(rows@) =~= before + seq![
                    RowView::Project { project_index: k as int, selected, expanded },
                ] + Seq::<RowView>::empty());
            }
            assert(head + project_rows(input, k as int + 1) =~= before + seq![
                RowView::Project { project_index: k as int, selected, expanded },
            ] + if project_expanded(input, k as int) {
                project_chat_rows(input, k as int)
            } else {
                Seq::empty()
            });
            k = k + 1;
        }
        if project_count > visible_project_count {
            let ghost before = rows_view(rows@);
            proof {
                lemma_push_shows(
                    rows@,
                    SidebarRow::ShowMore { kind: PaginateKind::Projects },
                    projects@,
                    projectless_chats@,
                    active_project_chats@,
                );
            }
            rows.push(SidebarRow::ShowMore { kind: PaginateKind::Projects });
            assert(rows_view(rows@) =~= before.push(RowView::ShowMoreProjects));
        }
    }
    let ghost first = rows_view(rows@);
    let projectless_count = projectless_chats.len();
    if projectless_count > 0 {
        proof {
            lemma_push_shows(
                rows@,
                SidebarRow::SectionHeader { label: "Chats" },
                projects@,
                projectless_chats@,
                active_project_chats@,
            );
        }
        rows.push(SidebarRow::SectionHeader { label: "Chats" });
        let shown = if projectless_count < visible_projectless_count {
            projectless_count
        } else {
            visible_projectless_count
        };
        let ghost head = rows_view(rows@);
        assert(head =~= first + seq![RowView::SectionHeader("Chats"@)]);
        let mut c: usize = 0;
        while c < shown
            invariant
                0 <= c <= shown,
                shown == min_nat(input.projectless_count, input.visible_projectless_count),
                rows_show_their_items(rows@, projects@, projectless_chats@, active_project_chats@),
                projectless_count == projectless_chats@.len(),
                input.projectless_count == projectless_chats@.len(),
                input.active_projectless_chat == match active_projectless_chat {
                    Some(i) => Some(i as nat),
                    None => None,
                },
                rows_view(rows@) == head + Seq::new(
                    c as nat,
                    |i: int|
                        RowView::ProjectlessChat {
                            chat_index: i,
                            selected: input.active_projectless_chat == Some(i as nat),
                        },
                ),
            decreases shown - c,
        {
            let selected = match active_projectless_chat {
                Some(a) => a == c,
                None => false,
            };
            let ghost prior = rows_view(rows@);
            let chat = projectless_chats[c].clone();
            let row = SidebarRow::ProjectlessChat { chat_index: c, chat, selected };
            proof {
                lemma_push_shows(
                    rows@,
                    row,
                    projects@,
                    projectless_chats@,
                    active_project_chats@,
                );
            }
            rows.push(row);
            assert(rows_view(rows@) =~= prior.push(
                RowView::ProjectlessChat { chat_index: c as int, selected },
            ));
            assert(rows_view(rows@) =~= head + Seq::new(
                (c + 1) as nat,
                |i: int|
                    RowView::ProjectlessChat {
                        chat_index: i,
                        selected: input.active_projectless_chat == Some(i as nat),
                    },
            ));
            c = c + 1;
        }
        if projectless_count > visible_projectless_count {
            let ghost before = rows_view(rows@);
            proof {
                lemma_push_shows(
                    rows@,
                    SidebarRow::ShowMore { kind: PaginateKind::ProjectlessChats },
                    projects@,
                    projectless_chats@,
                    active_project_chats@,
                );
            }
            rows.push(SidebarRow::ShowMore { kind: PaginateKind::ProjectlessChats });
            assert(rows_view(rows@) =~= before.push(RowView::ShowMoreProjectlessChats));
        }
    } else {
        assert(first + Seq::<RowView>::empty() =~= first);
    }
    rows
}


/// `n` more `PAGE_SIZE`, held at the largest `usize`.
pub open spec fn add_page(n: nat) -> nat {
    if n + PAGE_SIZE > usize::MAX {
        usize::MAX as nat
    } else {
        n + PAGE_SIZE as nat
    }
}

/// What the sidebar keeps between renders: the projects the user collapsed and
/// how many entries of each list are visible.
pub struct SidebarPagination {
    collapsed_projects: NameSet,
    visible_project_count: usize,
    visible_projectless_count: usize,
    project_chat_visible_counts: NameMap<usize>,
}

impl SidebarPagination {
    /// Nothing is collapsed twice and no project has two chat counts.
    pub closed spec fn wf(self) -> bool {
        &&& self.collapsed_projects.wf()
        &&& self.project_chat_visible_counts.wf()
    }

    /// The paths of the collapsed projects.
    pub closed spec fn collapsed(self) -> Set<Seq<char>> {
        self.collapsed_projects@
    }

    /// The paths of the collapsed projects, in the order they were collapsed.
    pub closed spec fn collapsed_list(self) -> Seq<Seq<char>> {
        self.collapsed_projects.list()
    }

    /// How many projects are visible.
    pub closed spec fn project_limit(self) -> nat {
        self.visible_project_count as nat
    }

    /// How many chats outside projects are visible.
    pub closed spec fn projectless_limit(self) -> nat {
        self.visible_projectless_count as nat
    }

    /// How many chats are visible in each project whose list was extended.
    pub closed spec fn chat_limits(self) -> Map<Seq<char>, usize> {
        self.project_chat_visible_counts@
    }

    /// How many chats of the project at `p` are visible.
    pub open spec fn chat_limit(self, p: Seq<char>) -> nat {
        if self.chat_limits().contains_key(p) {
            self.chat_limits()[p] as nat
        } else {
            PAGE_SIZE as nat
        }
    }

    /// Nothing collapsed and one page of each list visible.
    pub fn new() -> (r: Self)
        ensures
            r.wf(),
            r.collapsed() == Set::<Seq<char>>::empty(),
            r.project_limit() == PAGE_SIZE,
            r.projectless_limit() == PAGE_SIZE,
            r.chat_limits() == Map::<Seq<char>, usize>::empty(),
    {
        let r = SidebarPagination {
            collapsed_projects: NameSet::new(),
            visible_project_count: PAGE_SIZE,
            visible_projectless_count: PAGE_SIZE,
            project_chat_visible_counts: NameMap::new(),
        };
        r
    }

    /// How many chats of the project at `path` are visible: one page until
    /// the list was extended.
    pub fn project_chat_visible_count(&self, path: &str) -> (r: usize)
        requires
            self.wf(),
        ensures
            r == self.chat_limit(path@),
    {
        match self.project_chat_visible_counts.get(path) {
            Some(count) => *count,
            None => PAGE_SIZE,
        }
    }

    /// The rows of the sidebar for what the state holds now: each list
    /// shows as many entries as it has, up to its limit, and the chats of the
    /// active project (at `active_project_path`, or at the empty path when it
    /// has none) up to that project's limit.
    pub fn visible_rows<Project: Clone, Chat: Clone>(
        &self,
        projects: &[Project],
        projectless_chats: &[Chat],
        active_project: usize,
        active_chat: usize,
        active_projectless_chat: Option<usize>,
        active_project_path: Option<&str>,
        active_project_chats: &[Chat],
    ) -> (rows: Vec<SidebarRow<Project, Chat>>)
        requires
            self.wf(),
        ensures
            rows_show_their_items(rows@, projects@, projectless_chats@, active_project_chats@),
            rows_view(rows@) == sidebar_rows_spec(
                SidebarInput {
                    project_count: projects@.len(),
                    visible_project_count: min_nat(self.project_limit(), projects@.len()),
                    projectless_count: projectless_chats@.len(),
                    visible_projectless_count: min_nat(
                        self.projectless_limit(),
                        projectless_chats@.len(),
                    ),
                    active_project: active_project as nat,
                    active_chat: active_chat as nat,
                    active_projectless_chat: match active_projectless_chat {
                        Some(i) => Some(i as nat),
                        None => None,
                    },
                    active_project_path: match active_project_path {
                        Some(p) => Some(p@),
                        None => None,
                    },
                    active_project_chat_count: active_project_chats@.len(),
                    visible_project_chat_count: min_nat(
                        self.chat_limit(
                            match active_project_path {
                                Some(p) => p@,
                                None => Seq::empty(),
                            },
                        ),
                        active_project_chats@.len(),
                    ),
                    collapsed_projects: self.collapsed_list(),
                },
            ),
    {
        let visible_projects = if self.visible_project_count < projects.len() {
            self.visible_project_count
        } else {
            projects.len()
        };
        let visible_projectless = if self.visible_projectless_count < projectless_chats.len() {
            self.visible_projectless_count
        } else {
            projectless_chats.len()
        };
        let limit = match active_project_path {
            Some(p) => self.project_chat_visible_count(p),
            None => {
                proof {
                    reveal_strlit("");
                }
                assert(""@ =~= Seq::<char>::empty());
                self.project_chat_visible_count("")
            },
        };
        let visible_chats = if limit < active_project_chats.len() {
            limit
        } else {
            active_project_chats.len()
        };
        build_sidebar_rows(
            projects,
            visible_projects,
            projectless_chats,
            visible_projectless,
            active_project,
            active_chat,
            active_projectless_chat,
            active_project_path,
            active_project_chats,
            visible_chats,
            self.collapsed_projects.names(),
        )
    }

    /// A click on the row of project `index`, whose path is `path`: the
    /// project that is shown (it is the active one and no chat outside
    /// projects is active) is collapsed or expanded again; any other is
    /// expanded, and the result says to select it.
    pub fn toggle_project(
        &mut self,
        index: usize,
        path: &str,
        active_project: usize,
        active_projectless_chat: Option<usize>,
    ) -> (select: bool)
        requires
            old(self).wf(),
        ensures
            final(self).wf(),
            select == !(index == active_project && active_projectless_chat is None),
            final(self).collapsed() == if select {
                old(self).collapsed().remove(path@)
            } else {
                toggled(old(self).collapsed(), path@)
            },
            final(self).project_limit() == old(self).project_limit(),
            final(self).projectless_limit() == old(self).projectless_limit(),
            final(self).chat_limits() == old(self).chat_limits(),
    {
        let is_active = index == active_project && active_projectless_chat.is_none();
        if is_active {
            self.collapsed_projects.toggle(path);
        } else {
            self.collapsed_projects.remove(path);
        }
        !is_active
    }

    /// A click on a "show more" row: its list shows one page more.
    pub fn show_more(&mut self, kind: &PaginateKind)
        requires
            old(self).wf(),
        ensures
            final(self).wf(),
            final(self).collapsed() == old(self).collapsed(),
            match kind {
                PaginateKind::Projects => {
                    &&& final(self).project_limit() == add_page(old(self).project_limit())
                    &&& final(self).projectless_limit() == old(self).projectless_limit()
                    &&& final(self).chat_limits() == old(self).chat_limits()
                },
                PaginateKind::ProjectlessChats => {
                    &&& final(self).project_limit() == old(self).project_limit()
                    &&& final(self).projectless_limit() == add_page(
                        old(self).projectless_limit(),
                    )
                    &&& final(self).chat_limits() == old(self).chat_limits()
                },
                PaginateKind::ProjectChats { path } => {
                    &&& final(self).project_limit() == old(self).project_limit()
                    &&& final(self).projectless_limit() == old(self).projectless_limit()
                    &&& final(self).chat_limits() == old(self).chat_limits().insert(
                        path@,
                        add_page(old(self).chat_limit(path@)) as usize,
                    )
                },
            },
    {
        match kind {
            PaginateKind::Projects => {
                self.visible_project_count = page_more(self.visible_project_count);
            },
            PaginateKind::ProjectlessChats => {
                self.visible_projectless_count = page_more(self.visible_projectless_count);
            },
            PaginateKind::ProjectChats { path } => {
                let count = self.project_chat_visible_count(path.as_str());
                self.set_chat_limit(path.as_str(), page_more(count));
            },
        }
    }

    /// A click on a "show all" row: its list shows every entry.
    pub fn show_all(&mut self, kind: &PaginateKind)
        requires
            old(self).wf(),
        ensures
            final(self).wf(),
            final(self).collapsed() == old(self).collapsed(),
            match kind {
                PaginateKind::Projects => {
                    &&& final(self).project_limit() == usize::MAX
                    &&& final(self).projectless_limit() == old(self).projectless_limit()
                    &&& final(self).chat_limits() == old(self).chat_limits()
                },
                PaginateKind::ProjectlessChats => {
                    &&& final(self).project_limit() == old(self).project_limit()
                    &&& final(self).projectless_limit() == usize::MAX
                    &&& final(self).chat_limits() == old(self).chat_limits()
                },
                PaginateKind::ProjectChats { path } => {
                    &&& final(self).project_limit() == old(self).project_limit()
                    &&& final(self).projectless_limit() == old(self).projectless_limit()
                    &&& final(self).chat_limits() == old(self).chat_limits().insert(
                        path@,
                        usize::MAX,
                    )
                },
            },
    {
        match kind {
            PaginateKind::Projects => {
                self.visible_project_count = usize::MAX;
            },
            PaginateKind::ProjectlessChats => {
                self.visible_projectless_count = usize::MAX;
            },
            PaginateKind::ProjectChats { path } => {
                self.set_chat_limit(path.as_str(), usize::MAX);
            },
        }
    }

    fn set_chat_limit(&mut self, path: &str, count: usize)
        requires
            old(self).wf(),
        ensures
            final(self).wf(),
            final(self).collapsed_projects == old(self).collapsed_projects,
            final(self).project_limit() == old(self).project_limit(),
            final(self).projectless_limit() == old(self).projectless_limit(),
            final(self).chat_limits() == old(self).chat_limits().insert(path@, count),
    {
        self.project_chat_visible_counts.insert(path.to_string(), count);
    }
}

/// One page more than `n`, held at the largest `usize`.
fn page_more(n: usize) -> (r: usize)
    ensures
        r == add_page(n as nat),
{
    if n > usize::MAX - PAGE_SIZE {
        usize::MAX
    } else {
        n + PAGE_SIZE
    }
}

} // verus!
