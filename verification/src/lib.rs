use vstd::prelude::*;

pub mod async_executor;
pub mod chat_test_window;
pub mod code_editor;
pub mod json2;
pub mod json_http_client_builder;
pub mod insert_code_menu;
pub mod key_order;
pub mod keys;
pub mod opener;
pub mod schema_builder;
pub mod text;
pub mod ui_toolkit;
pub mod undo;
pub mod window_positions;

verus! {
} // verus!
