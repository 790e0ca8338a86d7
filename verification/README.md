# codex_gui

The logic of a desktop client for Codex threads, verified with Verus: how
threads map onto projects and chats, how a chat's turns and items become one
markdown transcript with custom blocks, how tool calls are grouped, summarised
and titled, how the sidebar and the history view keep their state, how long
command and diff outputs are indexed by line, and how the app reads its
configuration and the desktop app's global state.

## Layout

- `src/` — the verified library. Each module states its behaviour over spec
  functions and views; `law_*` proof functions state properties that span
  several calls.
  - `text`, `name_set`, `name_map`, `line_index`: strings, sets and maps of
    names, and line offsets.
  - `items`: threads, turns and items as the app server reports them.
  - `transcript`, `projection`, `tools`, `tool_views`, `history_rows`,
    `history_view`, `math`: the chat transcript and its blocks.
  - `command_output`, `file_change_output`, `list_update`: the row lists of
    command output and file diffs.
  - `thread_mapping`, `results`, `sidebar`, `chat_location`: threads as
    projects and chats, and where a thread's chat is.
  - `composer`, `submission`: what the composer sends and where a
    submission goes.
  - `values`, `config`, `global_state`: parsed JSON and TOML documents.
  - `code_cell`, `stored_values`: the code-mode cell protocol and the values
    cells store.
  - `bridge`, `approvals`, `scroll_profile`, `tool_gallery`: app-server
    replies, approval dialogs, and the options and documents of the scroll
    profile and tool gallery programs.
- `tests/` — tests of the library on concrete values.
- `app/` — the scroll profile program, the file I/O around the library, the
  JSON reply a code-mode cell gets for a nested tool call, and the one title
  that needs floating point.
