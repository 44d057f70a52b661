use vstd::prelude::*;

verus! {

/// A saved state of the code being edited: the root of the code and where
/// the cursor was.
pub struct UndoHistoryCell<R> {
    pub root: R,
    pub cursor_position: Option<u128>,
}

/// The undo and redo stacks of an editor, in the order the states were pushed.
pub struct UndoHistory<R> {
    undo_stack: Vec<UndoHistoryCell<R>>,
    redo_stack: Vec<UndoHistoryCell<R>>,
}

/// The two stacks of a history.
pub struct HistoryView<R> {
    pub undo: Seq<UndoHistoryCell<R>>,
    pub redo: Seq<UndoHistoryCell<R>>,
}

/// Recording a state pushes it on the undo stack and forgets what could be redone.
pub open spec fn after_record<R>(h: HistoryView<R>, c: UndoHistoryCell<R>) -> HistoryView<R> {
    HistoryView { undo: h.undo.push(c), redo: Seq::empty() }
}

/// Undoing pushes the current state `c` on the redo stack and takes the
/// latest state off the undo stack, if there is one.
pub open spec fn after_undo<R>(h: HistoryView<R>, c: UndoHistoryCell<R>) -> (HistoryView<R>, Option<UndoHistoryCell<R>>) {
    if h.undo.len() == 0 {
        (HistoryView { undo: h.undo, redo: h.redo.push(c) }, None)
    } else {
        (HistoryView { undo: h.undo.drop_last(), redo: h.redo.push(c) }, Some(h.undo.last()))
    }
}

/// Redoing takes the latest state off the redo stack and pushes the current
/// state `c` on the undo stack; with nothing to redo, nothing changes.
pub open spec fn after_redo<R>(h: HistoryView<R>, c: UndoHistoryCell<R>) -> (HistoryView<R>, Option<UndoHistoryCell<R>>) {
    if h.redo.len() == 0 {
        (h, None)
    } else {
        (HistoryView { undo: h.undo.push(c), redo: h.redo.drop_last() }, Some(h.redo.last()))
    }
}

/// Whether `c` saves a copy of `root` with the cursor at `cursor`.
pub open spec fn saves<R: Clone>(c: UndoHistoryCell<R>, root: R, cursor: Option<u128>) -> bool {
    cloned::<R>(root, c.root) && c.cursor_position == cursor
}


/// Undoing right after recording a state gives that state back.
pub proof fn lemma_undo_gives_back_recorded<R>(h: HistoryView<R>, c: UndoHistoryCell<R>, d: UndoHistoryCell<R>)
    ensures
        after_undo(after_record(h, c), d).1 == Some(c),
        after_undo(after_record(h, c), d).0.undo == h.undo,
{
    assert(after_record(h, c).undo.drop_last() =~= h.undo);
}

/// Redoing right after an undo gives back the state that the undo saved,
/// and leaves the redo stack as it was before the undo.
pub proof fn lemma_redo_gives_back_undone<R>(h: HistoryView<R>, c: UndoHistoryCell<R>, d: UndoHistoryCell<R>)
    ensures
        after_redo(after_undo(h, c).0, d).1 == Some(c),
        after_redo(after_undo(h, c).0, d).0.redo == h.redo,
        after_redo(after_undo(h, c).0, d).0.undo == after_undo(h, c).0.undo.push(d),
{
    assert(h.redo.push(c).drop_last() =~= h.redo);
}

/// After recording a state there is nothing to redo.
pub proof fn lemma_record_forgets_redo<R>(h: HistoryView<R>, c: UndoHistoryCell<R>, d: UndoHistoryCell<R>)
    ensures
        after_record(h, c).redo.len() == 0,
        after_redo(after_record(h, c), d) == (after_record(h, c), None::<UndoHistoryCell<R>>),
{
}

impl<R: Clone> UndoHistory<R> {
    /// The two stacks.
    pub closed spec fn stacks(self) -> HistoryView<R> {
        HistoryView { undo: self.undo_stack@, redo: self.redo_stack@ }
    }

    /// An empty history.
    pub fn new() -> (r: Self)
        ensures
            r.stacks() == (HistoryView::<R> { undo: Seq::empty(), redo: Seq::empty() }),
    {
        Self { undo_stack: Vec::new(), redo_stack: Vec::new() }
    }

    /// Saves the state before an edit.
    pub fn record_previous_state(&mut self, root: &R, cursor_position: Option<u128>)
        ensures
            final(self).stacks() == after_record(old(self).stacks(), final(self).stacks().undo.last()),
            saves(final(self).stacks().undo.last(), *root, cursor_position),
    {
        let root = root.clone();
        self.undo_stack.push(UndoHistoryCell { root, cursor_position });
        self.redo_stack.clear();
    }

    /// Goes back to the latest saved state, saving the current one for redo.
    pub fn undo(&mut self, current_root: &R, cursor_position: Option<u128>) -> (r: Option<UndoHistoryCell<R>>)
        ensures
            (final(self).stacks(), r) == after_undo(old(self).stacks(), final(self).stacks().redo.last()),
            saves(final(self).stacks().redo.last(), *current_root, cursor_position),
    {
        self.redo_stack.push(UndoHistoryCell { root: current_root.clone(), cursor_position });
        self.undo_stack.pop()
    }

    /// Goes forward to the latest undone state, saving the current one for undo.
    pub fn redo(&mut self, current_root: &R, cursor_position: Option<u128>) -> (r: Option<UndoHistoryCell<R>>)
        ensures
            old(self).stacks().redo.len() == 0 ==> final(self).stacks() == old(self).stacks() && r is None,
            old(self).stacks().redo.len() > 0 ==> (final(self).stacks(), r) == after_redo(
                old(self).stacks(),
                final(self).stacks().undo.last(),
            ) && saves(final(self).stacks().undo.last(), *current_root, cursor_position),
    {
        let redone_state = match self.redo_stack.pop() {
            Some(s) => s,
            None => {
                return None;
            },
        };
        self.undo_stack.push(UndoHistoryCell { root: current_root.clone(), cursor_position });
        Some(redone_state)
    }
}

} // verus!
