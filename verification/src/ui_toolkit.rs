use vstd::prelude::*;

verus! {

/// An entry of a selection list: a group heading, or an item the user can pick.
pub enum SelectableItem<T> {
    GroupHeader(&'static str),
    Selectable { item: T, label: String, is_selected: bool },
}

/// The space above the contents of a child region.
#[derive(Debug, Copy, Clone)]
pub enum ChildRegionTopPadding {
    Default,
    NoPadding,
}

/// How wide a child region is drawn.
#[derive(Debug, Copy, Clone)]
pub enum ChildRegionWidth {
    FitContent,
    All,
}

/// Whether a child region is drawn with a frame.
#[derive(Debug, Copy, Clone)]
pub enum ChildRegionFrameStyle {
    Framed,
    NoFrame,
}

} // verus!
