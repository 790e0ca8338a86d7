//! The desktop app's global state as far as this app reads and changes it:
//! the threads kept outside projects and the last selected model.
use vstd::prelude::*;
use vstd::string::StringExecFns;
use crate::text::{chars_of, contains_string, push_char, str_eq};
use crate::values::{get_spec, json_document, parse_json, DataValue};

verus! {

/// Whether every character is an ASCII digit or a dot.
pub open spec fn is_version(s: Seq<char>) -> bool {
    forall|i: int| 0 <= i < s.len() ==> ('0' <= #[trigger] s[i] <= '9' || s[i] == '.')
}

/// `s` with every dot replaced by a hyphen.
pub open spec fn dots_to_hyphens(s: Seq<char>) -> Seq<char> {
    s.map_values(|c: char| if c == '.' { '-' } else { c })
}

/// The model slug that the desktop app uses for a Codex model name:
/// `gpt-<version>[-sol]` with a version of digits and dots becomes
/// `gpt-<version with hyphens>-thinking`; other names stay as they are.
pub open spec fn desktop_model_slug_spec(model: Seq<char>) -> Seq<char> {
    if model.len() >= 4 && model.subrange(0, 4) == "gpt-"@ {
        let name = model.subrange(4, model.len() as int);
        let version = if name.len() >= 4 && name.subrange(name.len() - 4, name.len() as int)
            == "-sol"@ {
            name.subrange(0, name.len() - 4)
        } else {
            name
        };
        if is_version(version) {
            "gpt-"@ + dots_to_hyphens(version) + "-thinking"@
        } else {
            model
        }
    } else {
        model
    }
}

/// The model slug that the desktop app uses for a Codex model name.
pub fn desktop_model_slug(model: &str) -> (r: String)
    ensures
        r@ == desktop_model_slug_spec(model@),
{
    proof {
        reveal_strlit("gpt-");
        reveal_strlit("-sol");
    }
    let chars = chars_of(model);
    let n = chars.len();
    if !(n >= 4 && chars[0] == 'g' && chars[1] == 'p' && chars[2] == 't' && chars[3] == '-') {
        proof {
            if n >= 4 && chars@.subrange(0, 4) == "gpt-"@ {
                assert(chars@.subrange(0, 4)[0] == 'g');
                assert(chars@.subrange(0, 4)[1] == 'p');
                assert(chars@.subrange(0, 4)[2] == 't');
                assert(chars@.subrange(0, 4)[3] == '-');
            }
        }
        return String::from_str(model);
    }
    assert(chars@.subrange(0, 4) =~= "gpt-"@);
    let sol = n >= 8 && chars[n - 4] == '-' && chars[n - 3] == 's' && chars[n - 2] == 'o' && chars[n
        - 1] == 'l';
    let ghost name = chars@.subrange(4, n as int);
    proof {
        if name.len() >= 4 {
            let tail = name.subrange(name.len() - 4, name.len() as int);
            if tail == "-sol"@ {
                assert(tail[0] == chars@[n - 4]);
                assert(tail[1] == chars@[n - 3]);
                assert(tail[2] == chars@[n - 2]);
                assert(tail[3] == chars@[n - 1]);
            }
            if sol {
                assert(tail =~= "-sol"@);
            }
        }
    }
    let end = if sol {
        n - 4
    } else {
        n
    };
    let ghost version = chars@.subrange(4, end as int);
    assert(version =~= if sol {
        name.subrange(0, name.len() - 4)
    } else {
        name
    });
    assert(desktop_model_slug_spec(model@) == if is_version(version) {
        "gpt-"@ + dots_to_hyphens(version) + "-thinking"@
    } else {
        model@
    });
    let mut i: usize = 4;
    while i < end
        invariant
            4 <= i <= end <= n,
            n == chars@.len(),
            version == chars@.subrange(4, end as int),
            desktop_model_slug_spec(model@) == if is_version(version) {
                "gpt-"@ + dots_to_hyphens(version) + "-thinking"@
            } else {
                model@
            },
            forall|j: int| 4 <= j < i ==> ('0' <= #[trigger] chars@[j] <= '9' || chars@[j] == '.'),
        decreases end - i,
    {
        let c = chars[i];
        if !(('0' <= c && c <= '9') || c == '.') {
            assert(version[i - 4] == c);
            assert(!is_version(version));
            return String::from_str(model);
        }
        i = i + 1;
    }
    assert(is_version(version)) by {
        assert forall|j: int| 0 <= j < version.len() implies ('0' <= #[trigger] version[j] <= '9'
            || version[j] == '.') by {
            assert(version[j] == chars@[j + 4]);
        }
    }
    let mut r = String::from_str("gpt-");
    let mut k: usize = 4;
    while k < end
        invariant
            4 <= k <= end <= n,
            n == chars@.len(),
            version == chars@.subrange(4, end as int),
            r@ == "gpt-"@ + dots_to_hyphens(chars@.subrange(4, k as int)),
            desktop_model_slug_spec(model@) == "gpt-"@ + dots_to_hyphens(version) + "-thinking"@,
        decreases end - k,
    {
        let c = chars[k];
        push_char(&mut r, if c == '.' { '-' } else { c });
        assert(dots_to_hyphens(chars@.subrange(4, k as int + 1)) =~= dots_to_hyphens(
            chars@.subrange(4, k as int),
        ).push(if c == '.' { '-' } else { c }));
        k = k + 1;
    }
    r.append("-thinking");
    r
}

/// The thinking effort name that the desktop app uses for a Codex
/// reasoning effort.
pub open spec fn desktop_thinking_effort_spec(effort: Seq<char>) -> Seq<char> {
    if effort == "medium"@ {
        "standard"@
    } else if effort == "high"@ {
        "extended"@
    } else {
        effort
    }
}

/// The thinking effort name that the desktop app uses for a Codex
/// reasoning effort.
pub fn desktop_thinking_effort(effort: &str) -> (r: String)
    ensures
        r@ == desktop_thinking_effort_spec(effort@),
{
    if str_eq(effort, "medium") {
        String::from_str("standard")
    } else if str_eq(effort, "high") {
        String::from_str("extended")
    } else {
        String::from_str(effort)
    }
}

/// Law: only the efforts `medium` and `high` are renamed (to `standard` and
/// `extended`); every other effort is remembered as it is.
pub proof fn law_other_efforts_are_kept(effort: Seq<char>)
    ensures
        effort != "medium"@ && effort != "high"@ ==> desktop_thinking_effort_spec(effort) == effort,
        effort == "medium"@ ==> desktop_thinking_effort_spec(effort) == "standard"@,
        effort == "high"@ ==> desktop_thinking_effort_spec(effort) == "extended"@,
{
    reveal_strlit("medium");
    reveal_strlit("high");
    assert("high"@ != "medium"@) by {
        assert("high"@[0] != "medium"@[0]);
    }
}

/// The path of the backup copy of a state file.
pub fn backup_path(path: &str) -> (r: String)
    ensures
        r@ == path@ + ".bak"@,
{
    let mut r = String::from_str(path);
    r.append(".bak");
    r
}

/// The model selection that the desktop app remembers.
#[derive(Clone, Debug, PartialEq, Eq)]
pub struct LastSelectedModel {
    pub slug: String,
    pub thinking_effort: Option<String>,
    pub version_id: Option<String>,
}

/// The parts of the desktop app's global state that this app reads and
/// changes; everything else in the file is kept as it is by whoever writes
/// the file.
#[derive(Clone, Debug, PartialEq, Eq)]
pub struct GlobalStateModel {
    pub projectless_thread_ids: Vec<String>,
    /// Whether the persisted atom state is present, and the model selection in it.
    pub persisted_atom_state: Option<Option<LastSelectedModel>>,
}

impl GlobalStateModel {
    /// The model selection, when the state holds one.
    pub fn last_selected_model(&self) -> (r: Option<LastSelectedModel>)
        ensures
            r == match self.persisted_atom_state {
                Some(Some(selection)) => Some(selection),
                _ => None,
            },
    {
        match &self.persisted_atom_state {
            Some(Some(selection)) => Some(
                LastSelectedModel {
                    slug: selection.slug.clone(),
                    thinking_effort: match &selection.thinking_effort {
                        Some(e) => Some(e.clone()),
                        None => None,
                    },
                    version_id: match &selection.version_id {
                        Some(v) => Some(v.clone()),
                        None => None,
                    },
                },
            ),
            _ => None,
        }
    }

    /// Marks a thread as standing outside any project, once.
    pub fn add_projectless_thread(&mut self, thread_id: &str)
        ensures
            final(self).persisted_atom_state == old(self).persisted_atom_state,
            final(self).projectless_thread_ids.deep_view() == with_id(
                old(self).projectless_thread_ids.deep_view(),
                thread_id@,
            ),
    {
        if !contains_string(&self.projectless_thread_ids, thread_id) {
            let ghost before = self.projectless_thread_ids.deep_view();
            self.projectless_thread_ids.push(String::from_str(thread_id));
            assert(self.projectless_thread_ids.deep_view() =~= before.push(thread_id@));
        }
    }

    /// Remembers `model` with `effort` as the desktop app names them,
    /// creating the selection (at version `latest`) when there is none and
    /// keeping its version otherwise.
    pub fn update_last_selected_model(&mut self, model: &str, effort: &str)
        ensures
            final(self).projectless_thread_ids == old(self).projectless_thread_ids,
            final(self).persisted_atom_state matches Some(Some(selection)) && {
                &&& selection.slug@ == desktop_model_slug_spec(model@)
                &&& selection.thinking_effort matches Some(e) && e@
                    == desktop_thinking_effort_spec(effort@)
                &&& selection.version_id matches Some(v) && v@ == match old(
                    self,
                ).persisted_atom_state {
                    Some(Some(previous)) => match previous.version_id {
                        Some(pv) => pv@,
                        None => "latest"@,
                    },
                    _ => "latest"@,
                }
            },
    {
        let previous_version = match &self.persisted_atom_state {
            Some(Some(previous)) => match &previous.version_id {
                Some(v) => v.clone(),
                None => String::from_str("latest"),
            },
            _ => String::from_str("latest"),
        };
        let selection = LastSelectedModel {
            slug: desktop_model_slug(model),
            thinking_effort: Some(desktop_thinking_effort(effort)),
            version_id: Some(previous_version),
        };
        self.persisted_atom_state = Some(Some(selection));
    }
}

/// A model selection as values: its slug, thinking effort and version.
pub type SelectionView = (Seq<char>, Option<Seq<char>>, Option<Seq<char>>);

impl LastSelectedModel {
    /// The selection as values.
    pub open spec fn view(self) -> SelectionView {
        (
            self.slug@,
            match self.thinking_effort {
                Some(e) => Some(e@),
                None => None,
            },
            match self.version_id {
                Some(v) => Some(v@),
                None => None,
            },
        )
    }
}

impl GlobalStateModel {
    /// The state as values: the projectless ids, and whether the persisted
    /// atom state is present with the selection in it.
    pub open spec fn view(self) -> (Seq<Seq<char>>, Option<Option<SelectionView>>) {
        (
            self.projectless_thread_ids.deep_view(),
            match self.persisted_atom_state {
                Some(Some(selection)) => Some(Some(selection.view())),
                Some(None) => Some(None),
                None => None,
            },
        )
    }
}

/// The texts of `items`, when every one of them is a text.
pub open spec fn texts_read(items: Seq<DataValue>) -> Option<Seq<Seq<char>>>
    decreases items.len(),
{
    if items.len() == 0 {
        Some(Seq::empty())
    } else {
        match (texts_read(items.drop_last()), items.last()) {
            (Some(read), DataValue::Text(t)) => Some(read.push(t@)),
            _ => None,
        }
    }
}

/// A list of texts that may be left out: none when it is missing, the texts
/// of an array of texts; anything else is refused (`None`).
pub open spec fn text_list_read(v: Option<DataValue>) -> Option<Seq<Seq<char>>> {
    match v {
        None => Some(Seq::empty()),
        Some(DataValue::Array(items)) => texts_read(items@),
        _ => None,
    }
}

/// A text that may be left out: none when it is missing or null, the text
/// itself; anything else is refused (`None`).
pub open spec fn optional_text_read(v: Option<DataValue>) -> Option<Option<Seq<char>>> {
    match v {
        None => Some(None),
        Some(DataValue::Null) => Some(None),
        Some(DataValue::Text(t)) => Some(Some(t@)),
        _ => None,
    }
}

/// The model selection under `chatgpt-last-selected-model-v1`: none when
/// missing or null; a table with a text `slug` and optional texts
/// `thinkingEffort` and `versionId`; anything else is refused (`None`).
pub open spec fn selection_read(v: Option<DataValue>) -> Option<Option<SelectionView>> {
    match v {
        None => Some(None),
        Some(DataValue::Null) => Some(None),
        Some(DataValue::Table(entries)) => {
            let t = DataValue::Table(entries);
            match (
                get_spec(t, "slug"@),
                optional_text_read(get_spec(t, "thinkingEffort"@)),
                optional_text_read(get_spec(t, "versionId"@)),
            ) {
                (Some(DataValue::Text(slug)), Some(effort), Some(version)) => Some(
                    Some((slug@, effort, version)),
                ),
                _ => None,
            }
        },
        _ => None,
    }
}

/// The persisted atom state under `electron-persisted-atom-state`: absent
/// when missing or null; a table, with the selection in it; anything else
/// is refused (`None`).
pub open spec fn atoms_read(v: Option<DataValue>) -> Option<Option<Option<SelectionView>>> {
    match v {
        None => Some(None),
        Some(DataValue::Null) => Some(None),
        Some(DataValue::Table(entries)) => match selection_read(
            get_spec(DataValue::Table(entries), "chatgpt-last-selected-model-v1"@),
        ) {
            Some(selection) => Some(Some(selection)),
            None => None,
        },
        _ => None,
    }
}

/// What the state holds of `doc`: a table whose projectless ids and
/// persisted atom state read as above; anything else is refused (`None`).
/// Other fields are not read.
pub open spec fn state_read(doc: DataValue) -> Option<(Seq<Seq<char>>, Option<Option<SelectionView>>)> {
    match doc {
        DataValue::Table(_) => match (
            text_list_read(get_spec(doc, "projectless-thread-ids"@)),
            atoms_read(get_spec(doc, "electron-persisted-atom-state"@)),
        ) {
            (Some(ids), Some(atoms)) => Some((ids, atoms)),
            _ => None,
        },
        _ => None,
    }
}

/// Reads an optional text field.
fn read_optional_text(v: Option<&DataValue>) -> (r: Result<Option<String>, ()>)
    ensures
        match optional_text_read(
            match v {
                Some(x) => Some(*x),
                None => None,
            },
        ) {
            Some(o) => r matches Ok(t) && match t {
                Some(s) => o == Some(s@),
                None => o is None,
            },
            None => r is Err,
        },
{
    match v {
        None => Ok(None),
        Some(DataValue::Null) => Ok(None),
        Some(DataValue::Text(t)) => Ok(Some(t.clone())),
        _ => Err(()),
    }
}

/// Reads the model selection.
fn read_selection(v: Option<&DataValue>) -> (r: Result<Option<LastSelectedModel>, ()>)
    ensures
        match selection_read(
            match v {
                Some(x) => Some(*x),
                None => None,
            },
        ) {
            Some(o) => r matches Ok(t) && match t {
                Some(m) => o == Some(m.view()),
                None => o is None,
            },
            None => r is Err,
        },
{
    match v {
        None => Ok(None),
        Some(DataValue::Null) => Ok(None),
        Some(t) => match t {
            DataValue::Table(_) => {
                let slug = match t.get("slug") {
                    Some(DataValue::Text(s)) => s.clone(),
                    _ => {
                        return Err(());
                    },
                };
                let effort = read_optional_text(t.get("thinkingEffort"))?;
                let version = read_optional_text(t.get("versionId"))?;
                Ok(Some(LastSelectedModel { slug, thinking_effort: effort, version_id: version }))
            },
            _ => Err(()),
        },
    }
}

/// Reads a list of texts.
fn read_text_list(v: Option<&DataValue>) -> (r: Result<Vec<String>, ()>)
    ensures
        match text_list_read(
            match v {
                Some(x) => Some(*x),
                None => None,
            },
        ) {
            Some(o) => r matches Ok(t) && t.deep_view() == o,
            None => r is Err,
        },
{
    match v {
        None => Ok(Vec::new()),
        Some(DataValue::Array(items)) => {
            let mut out: Vec<String> = Vec::new();
            let mut i: usize = 0;
            while i < items.len()
                invariant
                    0 <= i <= items@.len(),
                    texts_read(items@.take(i as int)) == Some(out.deep_view()),
                    text_list_read(
                        match v {
                            Some(x) => Some(*x),
                            None => None,
                        },
                    ) == texts_read(items@),
                decreases items@.len() - i,
            {
                assert(items@.take(i as int + 1).drop_last() =~= items@.take(i as int));
                match &items[i] {
                    DataValue::Text(t) => {
                        let ghost before = out.deep_view();
                        out.push(t.clone());
                        assert(out.deep_view() =~= before.push(t@));
                    },
                    _ => {
                        proof {
                            assert(!(items@[i as int] is Text));
                            lemma_texts_read_refused(items@, i as int + 1);
                            assert(texts_read(items@) is None);
                        }
                        return Err(());
                    },
                }
                i = i + 1;
            }
            assert(items@.take(items@.len() as int) =~= items@);
            Ok(out)
        },
        _ => Err(()),
    }
}

/// A list with a part that is no text is refused, as is every longer
/// prefix of it.
proof fn lemma_texts_read_refused(items: Seq<DataValue>, n: int)
    requires
        0 < n <= items.len(),
        !(items[n - 1] is Text),
    ensures
        texts_read(items) is None,
    decreases items.len(),
{
    if n < items.len() {
        lemma_texts_read_refused(items.drop_last(), n);
    } else {
        assert(items.last() == items[n - 1]);
    }
}

impl GlobalStateModel {
    /// Reads the state from a parsed global state document: the ids of the
    /// threads outside projects and the model selection, or `None` when the
    /// document is no table or one of these fields has another shape than
    /// the state file has.
    pub fn from_document(doc: &DataValue) -> (r: Option<GlobalStateModel>)
        ensures
            match state_read(*doc) {
                Some(v) => r matches Some(m) && m.view() == v,
                None => r is None,
            },
    {
        match doc {
            DataValue::Table(_) => {},
            _ => {
                return None;
            },
        }
        let ids = match read_text_list(doc.get("projectless-thread-ids")) {
            Ok(ids) => ids,
            Err(()) => {
                return None;
            },
        };
        let atoms = match doc.get("electron-persisted-atom-state") {
            None => None,
            Some(DataValue::Null) => None,
            Some(t) => match t {
                DataValue::Table(_) => match read_selection(
                    t.get("chatgpt-last-selected-model-v1"),
                ) {
                    Ok(selection) => Some(selection),
                    Err(()) => {
                        return None;
                    },
                },
                _ => {
                    return None;
                },
            },
        };
        Some(GlobalStateModel { projectless_thread_ids: ids, persisted_atom_state: atoms })
    }
}

/// Reads the state from the text of a global state file, or `None` when
/// the text is not JSON or not the shape of the state.
pub fn parse_global_state(contents: &str) -> (r: Option<GlobalStateModel>)
    ensures
        match json_document(contents@) {
            Some(doc) => match state_read(doc) {
                Some(v) => r matches Some(m) && m.view() == v,
                None => r is None,
            },
            None => r is None,
        },
{
    match parse_json(contents) {
        Some(doc) => GlobalStateModel::from_document(&doc),
        None => None,
    }
}

/// The ids with `id` added at the end unless it is already there.
pub open spec fn with_id(ids: Seq<Seq<char>>, id: Seq<char>) -> Seq<Seq<char>> {
    if ids.contains(id) {
        ids
    } else {
        ids.push(id)
    }
}

/// Law: marking a thread as outside any project twice is marking it once,
/// and a list without repeated ids stays without.
pub proof fn law_add_projectless_thread_is_idempotent(ids: Seq<Seq<char>>, id: Seq<char>)
    ensures
        with_id(with_id(ids, id), id) == with_id(ids, id),
        ids.no_duplicates() ==> with_id(ids, id).no_duplicates(),
{
    if !ids.contains(id) {
        assert(ids.push(id)[ids.len() as int] == id);
        assert(ids.push(id).contains(id));
    }
}

/// Law: the desktop slug of a desktop slug is itself, so mapping a model
/// name that is already a desktop slug changes nothing.
pub proof fn law_desktop_model_slug_is_idempotent(model: Seq<char>)
    ensures
        desktop_model_slug_spec(desktop_model_slug_spec(model)) == desktop_model_slug_spec(model),
{
    reveal_strlit("gpt-");
    reveal_strlit("-sol");
    reveal_strlit("-thinking");
    let slug = desktop_model_slug_spec(model);
    if slug != model {
        let name = model.subrange(4, model.len() as int);
        let version = if name.len() >= 4 && name.subrange(name.len() - 4, name.len() as int)
            == "-sol"@ {
            name.subrange(0, name.len() - 4)
        } else {
            name
        };
        let mapped = dots_to_hyphens(version);
        assert(slug == "gpt-"@ + mapped + "-thinking"@);
        assert(slug.subrange(0, 4) =~= "gpt-"@);
        let name2 = slug.subrange(4, slug.len() as int);
        assert(name2 =~= mapped + "-thinking"@);
        let tail = name2.subrange(name2.len() - 4, name2.len() as int);
        assert(tail[0] == name2[name2.len() - 4]);
        assert(name2[name2.len() - 4] == 'k');
        assert(tail != "-sol"@) by {
            assert("-sol"@[0] == '-');
        }
        let h: int = mapped.len() as int + 2;
        assert(name2[h] == 'h');
        assert(!is_version(name2));
    }
}

/// What reading one copy of the state file gave.
#[derive(Clone, Copy, Debug, PartialEq, Eq, Structural)]
pub enum FileOutcome {
    /// The file does not exist.
    Missing,
    /// The file could not be read for another reason.
    Unreadable,
    /// The file was read but does not hold a state.
    Unparsable,
    /// The file holds a state.
    Parsed,
}

/// Why loading the state failed.
#[derive(Clone, Copy, Debug, PartialEq, Eq, Structural)]
pub enum LoadFailure {
    /// The state file could not be read.
    ReadPrimary,
    /// The state file does not hold a state and its backup could not be read.
    ReadBackupAfterBadPrimary,
    /// Neither the state file nor its backup holds a state.
    ParseBoth,
    /// The state file is missing and its backup does not hold a state.
    ParseBackup,
    /// The state file is missing and its backup could not be read.
    ReadBackup,
}

/// Where the loaded state comes from.
#[derive(Clone, Copy, Debug, PartialEq, Eq, Structural)]
pub enum LoadChoice {
    /// The state file.
    Primary,
    /// The backup, which is read only when the state file is missing or
    /// does not hold a state.
    ReadBackup,
    /// The backup's state.
    Backup,
    /// A default state: neither file exists.
    Default,
    /// Loading fails.
    Fail(LoadFailure),
}

/// What to do after reading the state file: use it when it holds a state,
/// read the backup when it is missing or does not hold a state, and fail
/// when it could not be read.
pub fn after_primary(primary: FileOutcome) -> (r: LoadChoice)
    ensures
        r == match primary {
            FileOutcome::Parsed => LoadChoice::Primary,
            FileOutcome::Unreadable => LoadChoice::Fail(LoadFailure::ReadPrimary),
            _ => LoadChoice::ReadBackup,
        },
{
    match primary {
        FileOutcome::Parsed => LoadChoice::Primary,
        FileOutcome::Unreadable => LoadChoice::Fail(LoadFailure::ReadPrimary),
        _ => LoadChoice::ReadBackup,
    }
}

/// Where the state comes from once the backup was read, after the state
/// file was missing or did not hold a state: the backup's state when it
/// holds one; a default state when both files are missing; else the
/// failure that says which file let it down.
pub fn after_backup(primary: FileOutcome, backup: FileOutcome) -> (r: LoadChoice)
    requires
        primary == FileOutcome::Missing || primary == FileOutcome::Unparsable,
    ensures
        r == if primary == FileOutcome::Unparsable {
            match backup {
                FileOutcome::Parsed => LoadChoice::Backup,
                FileOutcome::Unparsable => LoadChoice::Fail(LoadFailure::ParseBoth),
                _ => LoadChoice::Fail(LoadFailure::ReadBackupAfterBadPrimary),
            }
        } else {
            match backup {
                FileOutcome::Parsed => LoadChoice::Backup,
                FileOutcome::Unparsable => LoadChoice::Fail(LoadFailure::ParseBackup),
                FileOutcome::Missing => LoadChoice::Default,
                FileOutcome::Unreadable => LoadChoice::Fail(LoadFailure::ReadBackup),
            }
        },
{
    if primary == FileOutcome::Unparsable {
        match backup {
            FileOutcome::Parsed => LoadChoice::Backup,
            FileOutcome::Unparsable => LoadChoice::Fail(LoadFailure::ParseBoth),
            _ => LoadChoice::Fail(LoadFailure::ReadBackupAfterBadPrimary),
        }
    } else {
        match backup {
            FileOutcome::Parsed => LoadChoice::Backup,
            FileOutcome::Unparsable => LoadChoice::Fail(LoadFailure::ParseBackup),
            FileOutcome::Missing => LoadChoice::Default,
            FileOutcome::Unreadable => LoadChoice::Fail(LoadFailure::ReadBackup),
        }
    }
}

} // verus!
