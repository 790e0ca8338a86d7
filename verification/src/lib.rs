pub mod text;
pub mod name_set;
pub mod name_map;
pub mod line_index;
pub mod list_update;
pub mod command_output;
pub mod items;
pub mod file_change_output;
pub mod transcript;
pub mod tools;
pub mod projection;
pub mod history_rows;
pub mod history_view;
pub mod composer;
pub mod submission;
pub mod chat_location;
pub mod tool_gallery;
pub mod thread_mapping;
pub mod values;
pub mod results;
pub mod config;
pub mod global_state;
pub mod sidebar;
pub mod scroll_profile;
pub mod code_cell;
pub mod stored_values;
pub mod bridge;
pub mod math;
pub mod approvals;
pub mod tool_views;
