# editor

The data model behind a visual code editor, verified with Verus.

- `src/json2.rs`: JSON responses turned into parsed documents in which every
  node records its path; finding a node by path.
- `src/schema_builder.rs`: schemas inferred from parsed documents, walking a
  schema with the path of each node, and reaching a node by its path to edit it.
- `src/json_http_client_builder.rs`: the state of building a JSON HTTP client
  from a test response, and the response type that a schema describes.
- `src/undo.rs`: undo and redo stacks.
- `src/window_positions.rs`: where the editor's windows are.
- `src/insert_code_menu.rs`, `src/code_editor.rs`: the insert-code menu's
  search text and highlighted option, insertion points, which command each
  key press gives, and the editor state that those commands change (menu
  highlight, undo and redo).
- `src/opener.rs`: the keys of the opener popup.
- `src/key_order.rs`: the order of strings, by their UTF-8 bytes.
- `src/chat_test_window.rs`, `src/text.rs`, `src/keys.rs`, `src/ui_toolkit.rs`,
  `src/async_executor.rs`: smaller pieces of the user interface.

`app/main.rs` reads a JSON document, prints the fields of the schema inferred
from it, and shows the default window layout.
