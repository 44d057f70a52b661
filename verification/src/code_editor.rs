use vstd::prelude::*;

use crate::insert_code_menu::InsertCodeMenu;
use crate::keys::{Key, Keypress};
use crate::undo::{after_record, after_redo, after_undo, saves, UndoHistory};

verus! {

/// Where code is about to be inserted, relative to nodes of the code
/// (identified by their ids).
#[derive(Debug, Clone, Copy, PartialEq, Eq, Structural)]
pub enum InsertionPoint {
    BeginningOfBlock(u128),
    Before(u128),
    After(u128),
    StructLiteralField(u128),
    Editing(u128),
    ListLiteralElement { list_literal_id: u128, pos: usize },
    Replace(u128),
    Wrap(u128),
}

/// The node to select when the code at `ip` is marked as being edited:
/// the field, the node being edited or the list literal; none for the
/// other insertion points.
pub open spec fn node_to_select_when_editing(ip: InsertionPoint) -> Option<u128> {
    match ip {
        InsertionPoint::StructLiteralField(id) => Some(id),
        InsertionPoint::Editing(id) => Some(id),
        InsertionPoint::ListLiteralElement { list_literal_id, .. } => Some(list_literal_id),
        _ => None,
    }
}

impl InsertionPoint {
    /// The node to select when the code here is marked as being edited.
    pub fn node_id_to_select_when_marking_as_editing(&self) -> (r: Option<u128>)
        ensures
            r == node_to_select_when_editing(*self),
    {
        match *self {
            InsertionPoint::BeginningOfBlock(_) => None,
            InsertionPoint::Before(_) => None,
            InsertionPoint::After(_) => None,
            InsertionPoint::Replace(_) => None,
            InsertionPoint::Wrap(_) => None,
            InsertionPoint::StructLiteralField(id) => Some(id),
            InsertionPoint::Editing(id) => Some(id),
            InsertionPoint::ListLiteralElement { list_literal_id, .. } => Some(list_literal_id),
        }
    }
}


/// What a key press asks the code editor to do.
#[derive(Debug, Clone, Copy, PartialEq, Eq, Structural)]
pub enum EditorCommand {
    Copy,
    Paste,
    EscapeAndUndo,
    Deselect,
    SelectDown,
    SelectUp,
    SelectBack,
    SelectForward,
    EditSelected,
    DeleteSelected,
    AppendInSelected,
    ExtractIntoVariable,
    WrapSelected,
    ReplaceSelected,
    Redo,
    InsertLineAbove,
    InsertLineBelow,
    Undo,
    SelectCurrentLine,
    MenuNext,
    MenuPrev,
}

/// The command that `kp` gives, in editing mode or in selection mode: the
/// first of these rules that matches decides. Ctrl+C and ctrl+V copy and
/// paste in both modes; Escape undoes the edit while editing and deselects
/// otherwise; in selection mode the vim-like letters and the arrows move the
/// selection, and letters edit it; Tab and the arrows move the insert-code
/// menu's highlight. Ctrl+shift+R gives nothing.
pub open spec fn keypress_command(editing: bool, kp: Keypress) -> Option<EditorCommand> {
    match (editing, kp.key, kp.shift, kp.ctrl) {
        (_, Key::C, false, true) => Some(EditorCommand::Copy),
        (_, Key::V, false, true) => Some(EditorCommand::Paste),
        (true, Key::Escape, _, _) => Some(EditorCommand::EscapeAndUndo),
        (false, Key::Escape, _, _) => Some(EditorCommand::Deselect),
        (false, Key::J, false, false) | (false, Key::DownArrow, _, false) => Some(
            EditorCommand::SelectDown,
        ),
        (false, Key::K, false, false) | (false, Key::UpArrow, _, false) => Some(
            EditorCommand::SelectUp,
        ),
        (false, Key::B, false, false) | (false, Key::LeftArrow, _, false) | (
            false,
            Key::H,
            false,
            false,
        ) => Some(EditorCommand::SelectBack),
        (false, Key::W, false, false) | (false, Key::RightArrow, _, false) | (
            false,
            Key::L,
            false,
            false,
        ) => Some(EditorCommand::SelectForward),
        (false, Key::C, false, false) => Some(EditorCommand::EditSelected),
        (false, Key::D, false, false) | (_, Key::Delete, _, _) => Some(EditorCommand::DeleteSelected),
        (false, Key::A, false, false) => Some(EditorCommand::AppendInSelected),
        (false, Key::E, true, false) => Some(EditorCommand::ExtractIntoVariable),
        (false, Key::W, true, false) => Some(EditorCommand::WrapSelected),
        (false, Key::R, false, false) => Some(EditorCommand::ReplaceSelected),
        (false, Key::R, true, true) => None,
        (false, Key::R, false, true) => Some(EditorCommand::Redo),
        (false, Key::O, true, false) => Some(EditorCommand::InsertLineAbove),
        (false, Key::O, false, false) => Some(EditorCommand::InsertLineBelow),
        (false, Key::U, false, false) => Some(EditorCommand::Undo),
        (false, Key::V, true, false) => Some(EditorCommand::SelectCurrentLine),
        (_, Key::Tab, false, false) | (_, Key::DownArrow, _, _) => Some(EditorCommand::MenuNext),
        (_, Key::Tab, true, false) | (_, Key::UpArrow, _, _) => Some(EditorCommand::MenuPrev),
        _ => None,
    }
}

/// The command that `keypress` gives, in editing mode or not.
pub fn command_for_keypress(editing: bool, keypress: &Keypress) -> (r: Option<EditorCommand>)
    ensures
        r == keypress_command(editing, *keypress),
{
    match (editing, keypress.key, keypress.shift, keypress.ctrl) {
        (_, Key::C, false, true) => Some(EditorCommand::Copy),
        (_, Key::V, false, true) => Some(EditorCommand::Paste),
        (true, Key::Escape, _, _) => Some(EditorCommand::EscapeAndUndo),
        (false, Key::Escape, _, _) => Some(EditorCommand::Deselect),
        (false, Key::J, false, false) | (false, Key::DownArrow, _, false) => Some(
            EditorCommand::SelectDown,
        ),
        (false, Key::K, false, false) | (false, Key::UpArrow, _, false) => Some(
            EditorCommand::SelectUp,
        ),
        (false, Key::B, false, false) | (false, Key::LeftArrow, _, false) | (
            false,
            Key::H,
            false,
            false,
        ) => Some(EditorCommand::SelectBack),
        (false, Key::W, false, false) | (false, Key::RightArrow, _, false) | (
            false,
            Key::L,
            false,
            false,
        ) => Some(EditorCommand::SelectForward),
        (false, Key::C, false, false) => Some(EditorCommand::EditSelected),
        (false, Key::D, false, false) | (_, Key::Delete, _, _) => Some(EditorCommand::DeleteSelected),
        (false, Key::A, false, false) => Some(EditorCommand::AppendInSelected),
        (false, Key::E, true, false) => Some(EditorCommand::ExtractIntoVariable),
        (false, Key::W, true, false) => Some(EditorCommand::WrapSelected),
        (false, Key::R, false, false) => Some(EditorCommand::ReplaceSelected),
        // ctrl+shift+R is taken, and does nothing yet
        (false, Key::R, true, true) => None,
        (false, Key::R, false, true) => Some(EditorCommand::Redo),
        (false, Key::O, true, false) => Some(EditorCommand::InsertLineAbove),
        (false, Key::O, false, false) => Some(EditorCommand::InsertLineBelow),
        (false, Key::U, false, false) => Some(EditorCommand::Undo),
        (false, Key::V, true, false) => Some(EditorCommand::SelectCurrentLine),
        (_, Key::Tab, false, false) | (_, Key::DownArrow, _, _) => Some(EditorCommand::MenuNext),
        (_, Key::Tab, true, false) | (_, Key::UpArrow, _, _) => Some(EditorCommand::MenuPrev),
        _ => None,
    }
}

/// Ctrl+C copies and ctrl+V pastes (shift not held), in editing mode and in
/// selection mode alike.
pub proof fn lemma_copy_paste_in_both_modes(editing: bool)
    ensures
        keypress_command(editing, Keypress { key: Key::C, ctrl: true, shift: false }) == Some(
            EditorCommand::Copy,
        ),
        keypress_command(editing, Keypress { key: Key::V, ctrl: true, shift: false }) == Some(
            EditorCommand::Paste,
        ),
{
}

/// In selection mode without ctrl, the arrow keys move the selection the way
/// they point, whether shift is held or not: left back, right forward, down
/// down, up up; and the vim keys h, l, j, k (and b, w) do the same unshifted.
pub proof fn lemma_selection_keys(shift: bool)
    ensures
        keypress_command(false, Keypress { key: Key::LeftArrow, ctrl: false, shift }) == Some(
            EditorCommand::SelectBack,
        ),
        keypress_command(false, Keypress { key: Key::RightArrow, ctrl: false, shift }) == Some(
            EditorCommand::SelectForward,
        ),
        keypress_command(false, Keypress { key: Key::DownArrow, ctrl: false, shift }) == Some(
            EditorCommand::SelectDown,
        ),
        keypress_command(false, Keypress { key: Key::UpArrow, ctrl: false, shift }) == Some(
            EditorCommand::SelectUp,
        ),
        keypress_command(false, Keypress { key: Key::H, ctrl: false, shift: false }) == Some(
            EditorCommand::SelectBack,
        ),
        keypress_command(false, Keypress { key: Key::B, ctrl: false, shift: false }) == Some(
            EditorCommand::SelectBack,
        ),
        keypress_command(false, Keypress { key: Key::L, ctrl: false, shift: false }) == Some(
            EditorCommand::SelectForward,
        ),
        keypress_command(false, Keypress { key: Key::W, ctrl: false, shift: false }) == Some(
            EditorCommand::SelectForward,
        ),
        keypress_command(false, Keypress { key: Key::J, ctrl: false, shift: false }) == Some(
            EditorCommand::SelectDown,
        ),
        keypress_command(false, Keypress { key: Key::K, ctrl: false, shift: false }) == Some(
            EditorCommand::SelectUp,
        ),
{
}

/// Escape leaves the edit (undoing it) while editing, and clears the
/// selection otherwise, whatever modifiers are held.
pub proof fn lemma_escape(ctrl: bool, shift: bool)
    ensures
        keypress_command(true, Keypress { key: Key::Escape, ctrl, shift }) == Some(
            EditorCommand::EscapeAndUndo,
        ),
        keypress_command(false, Keypress { key: Key::Escape, ctrl, shift }) == Some(
            EditorCommand::Deselect,
        ),
{
}

/// While editing, only copy, paste, Escape, Delete and the menu keys do
/// anything: a letter key other than ctrl+C and ctrl+V gives no command.
pub proof fn lemma_letters_do_nothing_while_editing(kp: Keypress)
    requires
        kp.key != Key::Escape && kp.key != Key::Delete && kp.key != Key::Tab && kp.key
            != Key::DownArrow && kp.key != Key::UpArrow,
        !(kp.ctrl && !kp.shift && (kp.key == Key::C || kp.key == Key::V)),
    ensures
        keypress_command(true, kp) is None,
{
}

/// In selection mode the unshifted letters without ctrl edit the selection:
/// c edits it, d deletes it, a appends in it, r replaces it, o inserts a
/// line below, u undoes; with shift, e extracts it into a variable, w wraps
/// it, o inserts a line above, v selects the line; ctrl+R redoes, and
/// Delete deletes in either mode.
pub proof fn lemma_selection_mode_letters(editing: bool, ctrl: bool, shift: bool)
    ensures
        keypress_command(false, Keypress { key: Key::C, ctrl: false, shift: false }) == Some(
            EditorCommand::EditSelected,
        ),
        keypress_command(false, Keypress { key: Key::D, ctrl: false, shift: false }) == Some(
            EditorCommand::DeleteSelected,
        ),
        keypress_command(false, Keypress { key: Key::A, ctrl: false, shift: false }) == Some(
            EditorCommand::AppendInSelected,
        ),
        keypress_command(false, Keypress { key: Key::R, ctrl: false, shift: false }) == Some(
            EditorCommand::ReplaceSelected,
        ),
        keypress_command(false, Keypress { key: Key::O, ctrl: false, shift: false }) == Some(
            EditorCommand::InsertLineBelow,
        ),
        keypress_command(false, Keypress { key: Key::U, ctrl: false, shift: false }) == Some(
            EditorCommand::Undo,
        ),
        keypress_command(false, Keypress { key: Key::E, ctrl: false, shift: true }) == Some(
            EditorCommand::ExtractIntoVariable,
        ),
        keypress_command(false, Keypress { key: Key::W, ctrl: false, shift: true }) == Some(
            EditorCommand::WrapSelected,
        ),
        keypress_command(false, Keypress { key: Key::O, ctrl: false, shift: true }) == Some(
            EditorCommand::InsertLineAbove,
        ),
        keypress_command(false, Keypress { key: Key::V, ctrl: false, shift: true }) == Some(
            EditorCommand::SelectCurrentLine,
        ),
        keypress_command(false, Keypress { key: Key::R, ctrl: true, shift: false }) == Some(
            EditorCommand::Redo,
        ),
        keypress_command(editing, Keypress { key: Key::Delete, ctrl, shift }) == Some(
            EditorCommand::DeleteSelected,
        ),
{
}

/// Tab moves the insert-code menu's highlight down and shift+Tab up, in
/// either mode; while editing, the arrows do the same whatever is held.
pub proof fn lemma_menu_keys(editing: bool, ctrl: bool, shift: bool)
    ensures
        keypress_command(editing, Keypress { key: Key::Tab, ctrl: false, shift: false }) == Some(
            EditorCommand::MenuNext,
        ),
        keypress_command(editing, Keypress { key: Key::Tab, ctrl: false, shift: true }) == Some(
            EditorCommand::MenuPrev,
        ),
        keypress_command(true, Keypress { key: Key::DownArrow, ctrl, shift }) == Some(
            EditorCommand::MenuNext,
        ),
        keypress_command(true, Keypress { key: Key::UpArrow, ctrl, shift }) == Some(
            EditorCommand::MenuPrev,
        ),
{
}

/// The part of a code editor's state that lives beside the code tree: the
/// code's root, where the cursor is, whether code is being edited, the
/// insert-code menu, and the undo history.
pub struct CodeEditorState<R> {
    pub root: R,
    pub cursor_position: Option<u128>,
    pub editing: bool,
    pub insert_code_menu: Option<InsertCodeMenu>,
    pub history: UndoHistory<R>,
}

/// `new` is `old` with the menu's highlight moved by `delta`, when there is a menu.
pub open spec fn menu_moved(old: Option<InsertCodeMenu>, new: Option<InsertCodeMenu>, delta: int) -> bool {
    match old {
        None => new is None,
        Some(m) => new matches Some(n) && n.selected() == m.selected() + delta && n.search()
            == m.search() && n.insertion() == m.insertion(),
    }
}

/// Whether the menu's highlight can move by `delta` without leaving `isize`.
pub open spec fn menu_can_move(m: Option<InsertCodeMenu>, delta: int) -> bool {
    match m {
        None => true,
        Some(m) => isize::MIN <= m.selected() + delta <= isize::MAX,
    }
}

impl<R: Clone> CodeEditorState<R> {
    /// `new` is `old` after undoing: the current state is saved for redo,
    /// and the latest saved state, if any, becomes the code and the cursor.
    pub open spec fn undone(old: Self, new: Self) -> bool {
        let (h, c) = after_undo(old.history.stacks(), new.history.stacks().redo.last());
        &&& new.history.stacks() == h
        &&& saves(new.history.stacks().redo.last(), old.root, old.cursor_position)
        &&& match c {
            Some(cell) => new.root == cell.root && new.cursor_position == cell.cursor_position,
            None => new.root == old.root && new.cursor_position == old.cursor_position,
        }
    }

    /// `new` is `old` after redoing: with something to redo, the current
    /// state is saved for undo and the latest undone state becomes the code
    /// and the cursor; with nothing to redo, nothing changes.
    pub open spec fn redone(old: Self, new: Self) -> bool {
        if old.history.stacks().redo.len() == 0 {
            new.history.stacks() == old.history.stacks() && new.root == old.root
                && new.cursor_position == old.cursor_position
        } else {
            let (h, c) = after_redo(old.history.stacks(), new.history.stacks().undo.last());
            &&& new.history.stacks() == h
            &&& saves(new.history.stacks().undo.last(), old.root, old.cursor_position)
            &&& new.root == c.unwrap().root
            &&& new.cursor_position == c.unwrap().cursor_position
        }
    }

    /// Goes back to the latest saved state of the code.
    pub fn undo(&mut self)
        ensures
            Self::undone(*old(self), *final(self)),
            final(self).editing == old(self).editing,
            final(self).insert_code_menu == old(self).insert_code_menu,
    {
        match self.history.undo(&self.root, self.cursor_position) {
            Some(cell) => {
                self.root = cell.root;
                self.cursor_position = cell.cursor_position;
            },
            None => {},
        }
    }

    /// Goes forward to the latest undone state of the code.
    pub fn redo(&mut self)
        ensures
            Self::redone(*old(self), *final(self)),
            final(self).editing == old(self).editing,
            final(self).insert_code_menu == old(self).insert_code_menu,
    {
        match self.history.redo(&self.root, self.cursor_position) {
            Some(cell) => {
                self.root = cell.root;
                self.cursor_position = cell.cursor_position;
            },
            None => {},
        }
    }

    /// Clears the selection.
    pub fn deselect_selected_code(&mut self)
        ensures
            *final(self) == (CodeEditorState::<R> { cursor_position: None, ..*old(self) }),
    {
        self.cursor_position = None;
    }

    /// `new` is `old` marked as editing at `ip`: the insert-code menu opened
    /// for `ip` (none while editing in place), the old code and cursor saved
    /// for undo, the node that `ip` edits selected, and editing on.
    pub open spec fn marked_as_editing(old: Self, new: Self, ip: InsertionPoint) -> bool {
        &&& (ip is Editing <==> new.insert_code_menu is None)
        &&& (new.insert_code_menu matches Some(m) ==> m.search() == Seq::<char>::empty()
            && m.selected() == 0 && m.insertion() == ip)
        &&& new.history.stacks() == after_record(old.history.stacks(), new.history.stacks().undo.last())
        &&& saves(new.history.stacks().undo.last(), old.root, old.cursor_position)
        &&& new.cursor_position == node_to_select_when_editing(ip)
        &&& new.editing
        &&& new.root == old.root
    }

    /// Starts editing at `ip`: opens the insert-code menu for it, saves the
    /// current code for undo, and selects the node being edited.
    pub fn mark_as_editing(&mut self, ip: InsertionPoint)
        ensures
            Self::marked_as_editing(*old(self), *final(self), ip),
    {
        self.insert_code_menu = InsertCodeMenu::for_insertion_point(ip);
        self.history.record_previous_state(&self.root, self.cursor_position);
        self.cursor_position = ip.node_id_to_select_when_marking_as_editing();
        self.editing = true;
    }

    /// Undoing right after starting an edit gives back the code (a copy of
    /// it) and the cursor from before the edit, and the undo stack from
    /// before it.
    pub proof fn lemma_undo_after_mark_as_editing(old: Self, mid: Self, new: Self, ip: InsertionPoint)
        requires
            Self::marked_as_editing(old, mid, ip),
            Self::undone(mid, new),
        ensures
            cloned::<R>(old.root, new.root),
            new.cursor_position == old.cursor_position,
            new.history.stacks().undo == old.history.stacks().undo,
    {
        assert(mid.history.stacks().undo.drop_last() =~= old.history.stacks().undo);
    }

    /// Closes the insert-code menu and stops editing.
    pub fn hide_insert_code_menu(&mut self)
        ensures
            final(self).insert_code_menu is None,
            !final(self).editing,
            Self::same_code(*old(self), *final(self)),
    {
        self.insert_code_menu = None;
        self.editing = false;
    }

    /// Whether `new` has the same code, cursor and history as `old`.
    pub open spec fn same_code(old: Self, new: Self) -> bool {
        &&& new.root == old.root
        &&& new.cursor_position == old.cursor_position
        &&& new.history == old.history
    }

    /// `new` is `old` after leaving the edit: not editing and no menu; where
    /// the menu was open, the edit is undone, else the code stays.
    pub open spec fn escaped(old: Self, new: Self) -> bool {
        &&& !new.editing
        &&& new.insert_code_menu is None
        &&& old.insert_code_menu is None ==> Self::same_code(old, new)
        &&& old.insert_code_menu is Some ==> Self::undone(old, new)
    }

    /// `new` is `old` after `command`, as far as this state goes.
    pub open spec fn after_command(old: Self, new: Self, command: Option<EditorCommand>) -> bool {
        match command {
            Some(EditorCommand::MenuNext) => menu_moved(old.insert_code_menu, new.insert_code_menu, 1)
                && Self::same_code(old, new) && new.editing == old.editing,
            Some(EditorCommand::MenuPrev) => menu_moved(old.insert_code_menu, new.insert_code_menu, -1)
                && Self::same_code(old, new) && new.editing == old.editing,
            Some(EditorCommand::Undo) => Self::undone(old, new) && new.editing == old.editing
                && new.insert_code_menu == old.insert_code_menu,
            Some(EditorCommand::Redo) => Self::redone(old, new) && new.editing == old.editing
                && new.insert_code_menu == old.insert_code_menu,
            Some(EditorCommand::EscapeAndUndo) => Self::escaped(old, new),
            Some(EditorCommand::Deselect) => new == (CodeEditorState::<R> {
                cursor_position: None,
                ..old
            }),
            _ => new == old,
        }
    }

    /// Stops editing; where the insert-code menu was open, undoes what the
    /// edit did and closes the menu.
    pub fn escape_out_of_autocomplete_and_undo(&mut self)
        ensures
            Self::escaped(*old(self), *final(self)),
    {
        self.editing = false;
        if self.insert_code_menu.is_some() {
            self.undo();
            self.hide_insert_code_menu();
        }
    }

    /// Handles a key press as far as this state goes: moves the menu's
    /// highlight, undoes, redoes, leaves the edit, or clears the selection,
    /// as the command of the key press says, and gives that command back. The commands that work
    /// on the code tree leave this state as it is.
    pub fn handle_keypress(&mut self, keypress: &Keypress) -> (r: Option<EditorCommand>)
        requires
            keypress_command(old(self).editing, *keypress) == Some(EditorCommand::MenuNext)
                ==> menu_can_move(old(self).insert_code_menu, 1),
            keypress_command(old(self).editing, *keypress) == Some(EditorCommand::MenuPrev)
                ==> menu_can_move(old(self).insert_code_menu, -1),
        ensures
            r == keypress_command(old(self).editing, *keypress),
            Self::after_command(*old(self), *final(self), r),
    {
        let command = command_for_keypress(self.editing, keypress);
        match command {
            Some(EditorCommand::MenuNext) => {
                match &mut self.insert_code_menu {
                    Some(menu) => menu.select_next(),
                    None => {},
                }
            },
            Some(EditorCommand::MenuPrev) => {
                match &mut self.insert_code_menu {
                    Some(menu) => menu.select_prev(),
                    None => {},
                }
            },
            Some(EditorCommand::Undo) => self.undo(),
            Some(EditorCommand::Redo) => self.redo(),
            Some(EditorCommand::EscapeAndUndo) => self.escape_out_of_autocomplete_and_undo(),
            Some(EditorCommand::Deselect) => self.deselect_selected_code(),
            _ => {},
        }
        command
    }
}

} // verus!
