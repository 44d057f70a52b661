use editor::async_executor::{with_executor_context, AsyncExecutor};
use editor::chat_test_window::ChatTestWindow;
use editor::code_editor::{command_for_keypress, CodeEditorState, EditorCommand, InsertionPoint};
use editor::insert_code_menu::InsertCodeMenu;
use editor::keys::{Key, Keypress};
use editor::opener::{opener_command_for_keypress, OpenerCommand};
use editor::text::{is_in_symbol_range, symbolize_text, Text, TextProps, NO_BREAK_SPACE};
use editor::undo::UndoHistory;
use editor::window_positions::{
    WindowPositions, CHAT_TEST_WINDOW_ID, INITIAL_WINDOW_HEIGHT, INITIAL_WINDOW_WIDTH,
    QUICK_START_GUIDE_WINDOW_ID,
};
use std::cell::Cell;
use std::rc::Rc;

#[test]
fn default_layout_has_the_guide_and_the_chat_window() {
    let w = WindowPositions::default();
    let guide = w.get_open_window(&QUICK_START_GUIDE_WINDOW_ID).expect("guide");
    assert_eq!(guide.id, QUICK_START_GUIDE_WINDOW_ID);
    assert_eq!(guide.pos(), (5, 30));
    assert_eq!(guide.size, (300, 200));
    let chat = w.get_open_window(&CHAT_TEST_WINDOW_ID).expect("chat");
    assert_eq!(chat.pos(), (5, 235));
    assert_eq!(chat.size, (300, 500));
}

#[test]
fn window_ids_are_the_known_uuids() {
    let guide = uuid::Uuid::parse_str("8d12c907-3129-40b2-af67-a6f727a1e888").unwrap();
    let chat = uuid::Uuid::parse_str("1f5dbdf2-c8b7-4594-bc3e-9a4ca4c6184b").unwrap();
    assert_eq!(guide.as_u128(), QUICK_START_GUIDE_WINDOW_ID);
    assert_eq!(chat.as_u128(), CHAT_TEST_WINDOW_ID);
}

#[test]
fn added_window_opens_right_of_the_guide() {
    let mut w = WindowPositions::default();
    assert!(w.get_open_window(&7).is_none());
    w.add_window(7);
    let win = w.get_open_window(&7).expect("opened");
    assert_eq!(win.id, 7);
    assert_eq!(win.pos(), (310, 30));
    assert_eq!(win.size, (INITIAL_WINDOW_WIDTH, INITIAL_WINDOW_HEIGHT));
}

#[test]
fn adding_an_open_window_again_changes_nothing() {
    let mut w = WindowPositions::default();
    w.add_window(7);
    w.set_window(7, (100, 120), (10, 20));
    w.add_window(7);
    let win = w.get_open_window(&7).unwrap();
    assert_eq!(win.pos(), (100, 120));
    assert_eq!(win.size, (10, 20));
    w.add_window(QUICK_START_GUIDE_WINDOW_ID);
    assert_eq!(w.get_open_window(&QUICK_START_GUIDE_WINDOW_ID).unwrap().pos(), (5, 30));
}

#[test]
fn set_window_moves_and_resizes() {
    let mut w = WindowPositions::default();
    w.set_window(CHAT_TEST_WINDOW_ID, (-3, 4), (1, 2));
    let win = w.get_open_window(&CHAT_TEST_WINDOW_ID).unwrap();
    assert_eq!(win.id, CHAT_TEST_WINDOW_ID);
    assert_eq!(win.pos(), (-3, 4));
    assert_eq!(win.size, (1, 2));
    let guide = w.get_open_window(&QUICK_START_GUIDE_WINDOW_ID).unwrap();
    assert_eq!(guide.pos(), (5, 30));
}

#[test]
fn closed_window_is_gone_and_others_stay() {
    let mut w = WindowPositions::default();
    w.close_window(QUICK_START_GUIDE_WINDOW_ID);
    assert!(w.get_open_window(&QUICK_START_GUIDE_WINDOW_ID).is_none());
    assert!(w.get_open_window(&CHAT_TEST_WINDOW_ID).is_some());
    w.close_window(99);
    assert!(w.get_open_window(&CHAT_TEST_WINDOW_ID).is_some());
}

#[test]
fn open_windows_among_ids_keep_their_order() {
    let mut w = WindowPositions::default();
    w.add_window(3);
    let ids = vec![CHAT_TEST_WINDOW_ID, 42, 3, QUICK_START_GUIDE_WINDOW_ID];
    let open = w.get_open_windows(&ids);
    let got: Vec<u128> = open.iter().map(|x| x.id).collect();
    assert_eq!(got, vec![CHAT_TEST_WINDOW_ID, 3, QUICK_START_GUIDE_WINDOW_ID]);
}

#[test]
fn undo_gives_back_the_recorded_state() {
    let mut h: UndoHistory<String> = UndoHistory::new();
    h.record_previous_state(&"before".to_string(), Some(1));
    let c = h.undo(&"now".to_string(), Some(2)).expect("a state");
    assert_eq!(c.root, "before");
    assert_eq!(c.cursor_position, Some(1));
}

#[test]
fn redo_gives_back_what_undo_left() {
    let mut h: UndoHistory<String> = UndoHistory::new();
    h.record_previous_state(&"v1".to_string(), None);
    let back = h.undo(&"v2".to_string(), Some(9)).unwrap();
    assert_eq!(back.root, "v1");
    let forward = h.redo(&"v1".to_string(), None).expect("redo");
    assert_eq!(forward.root, "v2");
    assert_eq!(forward.cursor_position, Some(9));
    // and undoing again gives the state that redo saved
    let again = h.undo(&"v2".to_string(), None).unwrap();
    assert_eq!(again.root, "v1");
}

#[test]
fn recording_forgets_what_could_be_redone() {
    let mut h: UndoHistory<u32> = UndoHistory::new();
    h.record_previous_state(&1, None);
    h.undo(&2, None);
    h.record_previous_state(&3, None);
    assert!(h.redo(&4, None).is_none());
}

#[test]
fn undo_with_nothing_recorded_is_none_but_can_be_redone() {
    let mut h: UndoHistory<u32> = UndoHistory::new();
    assert!(h.undo(&5, Some(3)).is_none());
    let r = h.redo(&6, None).expect("the state saved by undo");
    assert_eq!(r.root, 5);
    assert_eq!(r.cursor_position, Some(3));
}

#[test]
fn redo_with_nothing_undone_is_none() {
    let mut h: UndoHistory<u32> = UndoHistory::new();
    h.record_previous_state(&1, None);
    assert!(h.redo(&2, None).is_none());
    let c = h.undo(&2, None).unwrap();
    assert_eq!(c.root, 1);
}

#[test]
fn chat_window_starts_empty() {
    assert_eq!(ChatTestWindow::new().view(), "");
}

#[test]
fn chat_window_shows_one_line_per_message() {
    let mut w = ChatTestWindow::new();
    w.add_message("alice".to_string(), "hi there".to_string());
    assert_eq!(w.view(), "<alice> hi there");
    w.add_message("bot".to_string(), "".to_string());
    assert_eq!(w.view(), "<alice> hi there\n<bot> ");
}

#[test]
fn symbol_range_bounds() {
    assert!(!is_in_symbol_range('\u{efff}'));
    assert!(is_in_symbol_range('\u{f000}'));
    assert!(is_in_symbol_range('\u{f2b9}'));
    assert!(is_in_symbol_range('\u{f72f}'));
    assert!(!is_in_symbol_range('\u{f730}'));
    assert!(!is_in_symbol_range('a'));
}

#[test]
fn text_is_shown_with_no_break_spaces() {
    let t = Text::create(TextProps { text: "a b  c".to_string() });
    let shown = t.display_text();
    assert_ne!(shown, "a b  c");
    let expected: String = "a b  c".chars().map(|c| if c == ' ' { NO_BREAK_SPACE } else { c }).collect();
    assert_eq!(shown, expected);
    assert_eq!(shown.chars().filter(|c| *c == '\u{a0}').count(), 3);
}

#[test]
fn text_change_says_whether_it_differs() {
    let mut t = Text::create(TextProps { text: "x".to_string() });
    assert!(!t.change(TextProps { text: "x".to_string() }));
    assert!(t.change(TextProps { text: "y z".to_string() }));
    assert_eq!(t.display_text(), "y\u{a0}z");
}

#[test]
fn keypress_keeps_key_and_modifiers() {
    let k = Keypress::new(Key::Enter, true, false);
    assert_eq!(k.key, Key::Enter);
    assert!(k.ctrl);
    assert!(!k.shift);
}

#[test]
fn executor_starts_without_a_callback_and_takes_one() {
    let mut e: AsyncExecutor<Cell<u32>> = AsyncExecutor::new();
    assert!(e.onupdate.is_none());
    let cb = Rc::new(Cell::new(4));
    e.setonupdate(cb.clone());
    assert_eq!(e.onupdate.as_ref().unwrap().get(), 4);
}

#[test]
fn executor_context_runs_with_a_fresh_executor() {
    let ran = Cell::new(false);
    with_executor_context(|e: AsyncExecutor<u8>| {
        assert!(e.onupdate.is_none());
        ran.set(true);
    });
    assert!(ran.get());
}

#[test]
fn symbolized_text_marks_icon_characters() {
    let spans = symbolize_text("a\u{f013}b");
    assert_eq!(spans, vec![('a', false), ('\u{f013}', true), ('b', false)]);
    assert!(symbolize_text("").is_empty());
}

#[test]
fn empty_text_is_drawn_as_one_space() {
    let t = Text::create(TextProps { text: String::new() });
    assert_eq!(t.spans(), vec![(' ', false)]);
    let t = Text::create(TextProps { text: "x \u{f000}".to_string() });
    assert_eq!(t.spans(), vec![('x', false), (NO_BREAK_SPACE, false), ('\u{f000}', true)]);
}

#[test]
fn insertion_points_that_select_a_node_when_editing() {
    assert_eq!(InsertionPoint::Editing(3).node_id_to_select_when_marking_as_editing(), Some(3));
    assert_eq!(InsertionPoint::StructLiteralField(4).node_id_to_select_when_marking_as_editing(), Some(4));
    assert_eq!(
        InsertionPoint::ListLiteralElement { list_literal_id: 5, pos: 2 }.node_id_to_select_when_marking_as_editing(),
        Some(5)
    );
    assert_eq!(InsertionPoint::Before(6).node_id_to_select_when_marking_as_editing(), None);
    assert_eq!(InsertionPoint::After(6).node_id_to_select_when_marking_as_editing(), None);
    assert_eq!(InsertionPoint::BeginningOfBlock(6).node_id_to_select_when_marking_as_editing(), None);
    assert_eq!(InsertionPoint::Replace(6).node_id_to_select_when_marking_as_editing(), None);
    assert_eq!(InsertionPoint::Wrap(6).node_id_to_select_when_marking_as_editing(), None);
}

#[test]
fn no_insert_menu_while_editing_in_place() {
    assert!(InsertCodeMenu::for_insertion_point(InsertionPoint::Editing(1)).is_none());
    let m = InsertCodeMenu::for_insertion_point(InsertionPoint::After(1)).expect("a menu");
    assert_eq!(m.input_str(), "");
    assert_eq!(m.insertion_point, InsertionPoint::After(1));
    assert_eq!(m.selected_index(4), 0);
}

#[test]
fn insert_menu_highlight_goes_round() {
    let mut m = InsertCodeMenu::for_insertion_point(InsertionPoint::Before(9)).unwrap();
    m.select_prev();
    assert_eq!(m.selected_index(3), 2);
    m.select_prev();
    m.select_prev();
    assert_eq!(m.selected_index(3), 0);
    m.select_prev();
    assert_eq!(m.selected_index(3), 2);
    for _ in 0..5 {
        m.select_next();
    }
    // five down from four above the first: the second of three
    assert_eq!(m.selected_index(3), 1);
    m.select_next();
    assert_eq!(m.selected_index(3), 2);
    assert_eq!(m.selected_index(0), 0);
    assert_eq!(m.selected_index(1), 0);
}

#[test]
fn new_search_text_highlights_the_first_option() {
    let mut m = InsertCodeMenu::for_insertion_point(InsertionPoint::Replace(2)).unwrap();
    m.select_next();
    m.select_next();
    m.set_search_str("");
    assert_eq!(m.selected_index(10), 2);
    m.set_search_str("pri");
    assert_eq!(m.input_str(), "pri");
    assert_eq!(m.selected_index(10), 0);
    m.select_next();
    m.set_search_str("pri");
    assert_eq!(m.selected_index(10), 1);
}

fn kp(key: Key, ctrl: bool, shift: bool) -> Keypress {
    Keypress::new(key, ctrl, shift)
}

#[test]
fn keypress_commands_in_selection_mode() {
    assert_eq!(command_for_keypress(false, &kp(Key::C, true, false)), Some(EditorCommand::Copy));
    assert_eq!(command_for_keypress(false, &kp(Key::V, true, false)), Some(EditorCommand::Paste));
    assert_eq!(command_for_keypress(false, &kp(Key::Escape, false, false)), Some(EditorCommand::Deselect));
    assert_eq!(command_for_keypress(false, &kp(Key::J, false, false)), Some(EditorCommand::SelectDown));
    assert_eq!(command_for_keypress(false, &kp(Key::DownArrow, false, true)), Some(EditorCommand::SelectDown));
    assert_eq!(command_for_keypress(false, &kp(Key::DownArrow, true, false)), Some(EditorCommand::MenuNext));
    assert_eq!(command_for_keypress(false, &kp(Key::K, false, false)), Some(EditorCommand::SelectUp));
    assert_eq!(command_for_keypress(false, &kp(Key::H, false, false)), Some(EditorCommand::SelectBack));
    assert_eq!(command_for_keypress(false, &kp(Key::L, false, false)), Some(EditorCommand::SelectForward));
    assert_eq!(command_for_keypress(false, &kp(Key::C, false, false)), Some(EditorCommand::EditSelected));
    assert_eq!(command_for_keypress(false, &kp(Key::D, false, false)), Some(EditorCommand::DeleteSelected));
    assert_eq!(command_for_keypress(false, &kp(Key::A, false, false)), Some(EditorCommand::AppendInSelected));
    assert_eq!(command_for_keypress(false, &kp(Key::E, false, true)), Some(EditorCommand::ExtractIntoVariable));
    assert_eq!(command_for_keypress(false, &kp(Key::W, false, true)), Some(EditorCommand::WrapSelected));
    assert_eq!(command_for_keypress(false, &kp(Key::R, false, false)), Some(EditorCommand::ReplaceSelected));
    assert_eq!(command_for_keypress(false, &kp(Key::R, true, true)), None);
    assert_eq!(command_for_keypress(false, &kp(Key::R, true, false)), Some(EditorCommand::Redo));
    assert_eq!(command_for_keypress(false, &kp(Key::O, false, true)), Some(EditorCommand::InsertLineAbove));
    assert_eq!(command_for_keypress(false, &kp(Key::O, false, false)), Some(EditorCommand::InsertLineBelow));
    assert_eq!(command_for_keypress(false, &kp(Key::U, false, false)), Some(EditorCommand::Undo));
    assert_eq!(command_for_keypress(false, &kp(Key::V, false, true)), Some(EditorCommand::SelectCurrentLine));
    assert_eq!(command_for_keypress(false, &kp(Key::Tab, false, true)), Some(EditorCommand::MenuPrev));
    assert_eq!(command_for_keypress(false, &kp(Key::X, false, false)), None);
}

#[test]
fn keypress_commands_while_editing() {
    assert_eq!(command_for_keypress(true, &kp(Key::Escape, false, false)), Some(EditorCommand::EscapeAndUndo));
    assert_eq!(command_for_keypress(true, &kp(Key::J, false, false)), None);
    assert_eq!(command_for_keypress(true, &kp(Key::U, false, false)), None);
    assert_eq!(command_for_keypress(true, &kp(Key::Delete, false, false)), Some(EditorCommand::DeleteSelected));
    assert_eq!(command_for_keypress(true, &kp(Key::DownArrow, false, false)), Some(EditorCommand::MenuNext));
    assert_eq!(command_for_keypress(true, &kp(Key::UpArrow, false, false)), Some(EditorCommand::MenuPrev));
    assert_eq!(command_for_keypress(true, &kp(Key::Tab, false, false)), Some(EditorCommand::MenuNext));
    assert_eq!(command_for_keypress(true, &kp(Key::C, true, false)), Some(EditorCommand::Copy));
}

fn state(root: u32) -> CodeEditorState<u32> {
    CodeEditorState { root, cursor_position: None, editing: false, insert_code_menu: None, history: UndoHistory::new() }
}

#[test]
fn editor_keys_move_the_menu_highlight() {
    let mut s = state(1);
    s.editing = true;
    s.insert_code_menu = InsertCodeMenu::for_insertion_point(InsertionPoint::After(4));
    assert_eq!(s.handle_keypress(&kp(Key::Tab, false, false)), Some(EditorCommand::MenuNext));
    assert_eq!(s.handle_keypress(&kp(Key::DownArrow, false, false)), Some(EditorCommand::MenuNext));
    assert_eq!(s.insert_code_menu.as_ref().unwrap().selected_index(5), 2);
    assert_eq!(s.handle_keypress(&kp(Key::UpArrow, false, false)), Some(EditorCommand::MenuPrev));
    assert_eq!(s.insert_code_menu.as_ref().unwrap().selected_index(5), 1);
}

#[test]
fn editor_keys_undo_and_redo() {
    let mut s = state(2);
    s.history.record_previous_state(&1, Some(7));
    assert_eq!(s.handle_keypress(&kp(Key::U, false, false)), Some(EditorCommand::Undo));
    assert_eq!(s.root, 1);
    assert_eq!(s.cursor_position, Some(7));
    assert_eq!(s.handle_keypress(&kp(Key::R, true, false)), Some(EditorCommand::Redo));
    assert_eq!(s.root, 2);
    assert_eq!(s.cursor_position, None);
    assert_eq!(s.handle_keypress(&kp(Key::J, false, false)), Some(EditorCommand::SelectDown));
    assert_eq!(s.root, 2);
}

#[test]
fn escape_while_editing_undoes_and_closes_the_menu() {
    let mut s = state(5);
    s.history.record_previous_state(&4, None);
    s.editing = true;
    s.insert_code_menu = InsertCodeMenu::for_insertion_point(InsertionPoint::Before(1));
    assert_eq!(s.handle_keypress(&kp(Key::Escape, false, false)), Some(EditorCommand::EscapeAndUndo));
    assert!(!s.editing);
    assert!(s.insert_code_menu.is_none());
    assert_eq!(s.root, 4);
    let mut t = state(5);
    t.editing = true;
    t.handle_keypress(&kp(Key::Escape, false, false));
    assert!(!t.editing);
    assert_eq!(t.root, 5);
}

#[test]
fn opener_keys() {
    assert_eq!(opener_command_for_keypress(&kp(Key::DownArrow, true, true)), Some(OpenerCommand::SelectNext));
    assert_eq!(opener_command_for_keypress(&kp(Key::Tab, false, false)), Some(OpenerCommand::SelectNext));
    assert_eq!(opener_command_for_keypress(&kp(Key::UpArrow, false, false)), Some(OpenerCommand::SelectPrev));
    assert_eq!(opener_command_for_keypress(&kp(Key::Tab, false, true)), Some(OpenerCommand::SelectPrev));
    assert_eq!(opener_command_for_keypress(&kp(Key::Tab, true, false)), None);
    assert_eq!(opener_command_for_keypress(&kp(Key::Escape, true, false)), Some(OpenerCommand::Close));
    assert_eq!(opener_command_for_keypress(&kp(Key::J, false, false)), None);
}

#[test]
fn escape_outside_editing_clears_the_selection() {
    let mut s = state(3);
    s.cursor_position = Some(12);
    s.history.record_previous_state(&1, None);
    assert_eq!(s.handle_keypress(&kp(Key::Escape, false, false)), Some(EditorCommand::Deselect));
    assert_eq!(s.cursor_position, None);
    assert_eq!(s.root, 3);
    assert!(!s.editing);
    // the history is untouched: undo still gives the recorded state
    s.undo();
    assert_eq!(s.root, 1);
}

#[test]
fn mark_as_editing_opens_the_menu_and_undo_restores() {
    let mut s = state(8);
    s.cursor_position = Some(2);
    s.mark_as_editing(InsertionPoint::StructLiteralField(5));
    assert!(s.editing);
    assert_eq!(s.cursor_position, Some(5));
    let m = s.insert_code_menu.as_ref().expect("a menu");
    assert_eq!(m.insertion_point, InsertionPoint::StructLiteralField(5));
    assert_eq!(m.input_str(), "");
    s.root = 9;
    s.undo();
    assert_eq!(s.root, 8);
    assert_eq!(s.cursor_position, Some(2));
    let mut t = state(1);
    t.mark_as_editing(InsertionPoint::Editing(4));
    assert!(t.insert_code_menu.is_none());
    assert_eq!(t.cursor_position, Some(4));
    t.mark_as_editing(InsertionPoint::After(4));
    assert_eq!(t.cursor_position, None);
}
