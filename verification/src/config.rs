//! The projects listed in the Codex configuration file.
use vstd::prelude::*;
use crate::values::{DataValue, get_spec, parse_toml, toml_document};

verus! {

/// The keys of the `projects` table of a configuration document, in the
/// document's order.
pub open spec fn project_paths_spec(config: DataValue) -> Seq<Seq<char>> {
    match get_spec(config, "projects"@) {
        Some(DataValue::Table(entries)) => entries@.map_values(|e: (String, DataValue)| e.0@),
        _ => Seq::empty(),
    }
}

/// The keys of the `projects` table of a configuration document.
pub fn project_paths_in(config: &DataValue) -> (r: Vec<String>)
    ensures
        r.deep_view() == project_paths_spec(*config),
{
    let mut r: Vec<String> = Vec::new();
    match config.get("projects") {
        Some(DataValue::Table(entries)) => {
            let mut i: usize = 0;
            while i < entries.len()
                invariant
                    0 <= i <= entries@.len(),
                    r.deep_view() == entries@.take(i as int).map_values(
                        |e: (String, DataValue)| e.0@,
                    ),
                decreases entries@.len() - i,
            {
                let ghost before = r.deep_view();
                let key = entries[i].0.clone();
                assert(key@ == entries@[i as int].0@);
                r.push(key);
                assert(r.deep_view() =~= before.push(entries@[i as int].0@));
                assert(r.deep_view() =~= entries@.take(i as int + 1).map_values(
                    |e: (String, DataValue)| e.0@,
                ));
                i = i + 1;
            }
            assert(entries@.take(entries@.len() as int) =~= entries@);
            r
        },
        _ => r,
    }
}

/// The project paths listed in the text of a Codex configuration file;
/// none when the text is not TOML.
pub fn parse_codex_config_project_paths(config: &str) -> (r: Vec<String>)
    ensures
        r.deep_view() == match toml_document(config@) {
            Some(doc) => project_paths_spec(doc),
            None => Seq::empty(),
        },
{
    match parse_toml(config) {
        Some(doc) => project_paths_in(&doc),
        None => Vec::new(),
    }
}

} // verus!
