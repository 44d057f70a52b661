use std::collections::HashMap;
use vstd::prelude::*;

verus! {

/// The window with the quick start guide (8d12c907-3129-40b2-af67-a6f727a1e888).
pub const QUICK_START_GUIDE_WINDOW_ID: u128 = 0x8d12c907_3129_40b2_af67_a6f727a1e888u128;

/// The window for trying out chat programs (1f5dbdf2-c8b7-4594-bc3e-9a4ca4c6184b).
pub const CHAT_TEST_WINDOW_ID: u128 = 0x1f5dbdf2_c8b7_4594_bc3e_9a4ca4c6184bu128;

// windows start just under the title bar
pub const INITIAL_WINDOW_X: isize = 5;
pub const INITIAL_WINDOW_Y: isize = 30;
pub const INITIAL_WINDOW_WIDTH: usize = 550;
pub const INITIAL_WINDOW_HEIGHT: usize = 650;

pub const QUICK_START_WINDOW_WIDTH: usize = 300;
pub const QUICK_START_WINDOW_HEIGHT: usize = 200;
pub const CHAT_TEST_WINDOW_WIDTH: usize = 300;
pub const CHAT_TEST_WINDOW_HEIGHT: usize = 500;

/// An open window: its identifier, the position of its top left corner and its size.
#[derive(Clone, Copy, Debug)]
pub struct Window {
    pub id: u128,
    pub x: isize,
    pub y: isize,
    pub size: (usize, usize),
}

impl Window {
    /// The position of the top left corner.
    pub fn pos(&self) -> (r: (isize, isize))
        ensures
            r == (self.x, self.y),
    {
        (self.x, self.y)
    }
}

/// Where the windows of the editor are, by window identifier.
pub struct WindowPositions {
    size: (usize, usize),
    open_windows: HashMap<u128, Window>,
}

/// The place where a newly opened window goes: right of the quick start window.
pub open spec fn next_window_position() -> (isize, isize) {
    ((INITIAL_WINDOW_X + QUICK_START_WINDOW_WIDTH as isize + 5) as isize, INITIAL_WINDOW_Y)
}

/// The windows that are open when the editor starts.
pub open spec fn default_windows() -> Map<u128, Window> {
    Map::empty().insert(
        QUICK_START_GUIDE_WINDOW_ID,
        Window {
            id: QUICK_START_GUIDE_WINDOW_ID,
            size: (QUICK_START_WINDOW_WIDTH, QUICK_START_WINDOW_HEIGHT),
            x: INITIAL_WINDOW_X,
            y: INITIAL_WINDOW_Y,
        },
    ).insert(
        CHAT_TEST_WINDOW_ID,
        Window {
            id: CHAT_TEST_WINDOW_ID,
            size: (CHAT_TEST_WINDOW_WIDTH, CHAT_TEST_WINDOW_HEIGHT),
            x: INITIAL_WINDOW_X,
            y: (INITIAL_WINDOW_Y + QUICK_START_WINDOW_HEIGHT as isize + 5) as isize,
        },
    )
}


/// The window with identifier `id` in `windows`, if there is one.
pub open spec fn window_of(windows: Map<u128, Window>, id: u128) -> Option<Window> {
    if windows.contains_key(id) {
        Some(windows[id])
    } else {
        None
    }
}

/// `windows` with window `id` opened at the place for new windows, unless it
/// is open already.
pub open spec fn with_window_added(windows: Map<u128, Window>, id: u128) -> Map<u128, Window> {
    if windows.contains_key(id) {
        windows
    } else {
        windows.insert(
            id,
            Window {
                id,
                x: next_window_position().0,
                y: next_window_position().1,
                size: (INITIAL_WINDOW_WIDTH, INITIAL_WINDOW_HEIGHT),
            },
        )
    }
}

/// `windows` with the open window `id` moved to `pos` and resized to `size`.
pub open spec fn with_window_set(
    windows: Map<u128, Window>,
    id: u128,
    pos: (isize, isize),
    size: (usize, usize),
) -> Map<u128, Window> {
    windows.insert(id, Window { id: windows[id].id, x: pos.0, y: pos.1, size })
}

/// Opening a window that is open already changes nothing, so opening twice
/// is the same as opening once.
pub proof fn lemma_add_window_idempotent(windows: Map<u128, Window>, id: u128)
    ensures
        with_window_added(with_window_added(windows, id), id) == with_window_added(windows, id),
        with_window_added(windows, id).contains_key(id),
{
}

/// After moving a window, looking it up gives its new position and size.
pub proof fn lemma_get_after_set(windows: Map<u128, Window>, id: u128, pos: (isize, isize), size: (usize, usize))
    requires
        windows.contains_key(id),
    ensures
        window_of(with_window_set(windows, id, pos, size), id) matches Some(w) && w.x == pos.0 && w.y
            == pos.1 && w.size == size && w.id == windows[id].id,
{
}

/// After closing a window, it is not open, and the other windows stay as they were.
pub proof fn lemma_get_after_close(windows: Map<u128, Window>, id: u128, other: u128)
    ensures
        window_of(windows.remove(id), id) is None,
        other != id ==> window_of(windows.remove(id), other) == window_of(windows, other),
{
}

impl Default for WindowPositions {
    /// The layout the editor starts with: the quick start guide with the
    /// chat test window under it.
    fn default() -> (r: Self)
        ensures
            r.windows() == default_windows(),
            r.area() == (4000usize, 3000usize),
    {
        broadcast use vstd::std_specs::hash::group_hash_axioms;

        let mut open_windows: HashMap<u128, Window> = HashMap::new();
        open_windows.insert(
            QUICK_START_GUIDE_WINDOW_ID,
            Window {
                id: QUICK_START_GUIDE_WINDOW_ID,
                size: (QUICK_START_WINDOW_WIDTH, QUICK_START_WINDOW_HEIGHT),
                x: INITIAL_WINDOW_X,
                y: INITIAL_WINDOW_Y,
            },
        );
        open_windows.insert(
            CHAT_TEST_WINDOW_ID,
            Window {
                id: CHAT_TEST_WINDOW_ID,
                size: (CHAT_TEST_WINDOW_WIDTH, CHAT_TEST_WINDOW_HEIGHT),
                x: INITIAL_WINDOW_X,
                y: INITIAL_WINDOW_Y + QUICK_START_WINDOW_HEIGHT as isize + 5,
            },
        );
        Self { size: (4000, 3000), open_windows }
    }
}

impl WindowPositions {
    /// The open windows by identifier.
    pub closed spec fn windows(self) -> Map<u128, Window> {
        self.open_windows@
    }

    /// The size of the area the windows are laid out in.
    pub closed spec fn area(self) -> (usize, usize) {
        self.size
    }

    /// Opens a window at the place for new windows, unless it is open already.
    pub fn add_window(&mut self, window_id: u128)
        ensures
            final(self).windows() == with_window_added(old(self).windows(), window_id),
            final(self).area() == old(self).area(),
    {
        broadcast use vstd::std_specs::hash::group_hash_axioms;

        if self.open_windows.contains_key(&window_id) {
            return;
        }
        let initial_pos = self.get_next_window_position();
        self.open_windows.insert(
            window_id,
            Window {
                id: window_id,
                x: initial_pos.0,
                y: initial_pos.1,
                size: (INITIAL_WINDOW_WIDTH, INITIAL_WINDOW_HEIGHT),
            },
        );
    }

    /// Moves and resizes an open window.
    pub fn set_window(&mut self, window_id: u128, pos: (isize, isize), size: (usize, usize))
        requires
            old(self).windows().contains_key(window_id),
        ensures
            final(self).windows() == with_window_set(old(self).windows(), window_id, pos, size),
            final(self).area() == old(self).area(),
    {
        broadcast use vstd::std_specs::hash::group_hash_axioms;

        let old_id = match self.open_windows.get(&window_id) {
            Some(win) => win.id,
            None => window_id,
        };
        self.open_windows.insert(window_id, Window { id: old_id, size, x: pos.0, y: pos.1 });
    }

    /// Where a newly opened window goes.
    fn get_next_window_position(&self) -> (r: (isize, isize))
        ensures
            r == next_window_position(),
    {
        (INITIAL_WINDOW_X + QUICK_START_WINDOW_WIDTH as isize + 5, INITIAL_WINDOW_Y)
    }

    /// The window with identifier `id`, if it is open.
    pub fn get_open_window(&self, id: &u128) -> (r: Option<Window>)
        ensures
            r == window_of(self.windows(), *id),
    {
        broadcast use vstd::std_specs::hash::group_hash_axioms;

        match self.open_windows.get(id) {
            Some(w) => Some(*w),
            None => None,
        }
    }

    /// The open windows among `ids`, in the order of `ids`.
    pub fn get_open_windows(&self, ids: &Vec<u128>) -> (r: Vec<Window>)
        ensures
            r@ == open_among(self.windows(), ids@),
    {
        let mut r: Vec<Window> = Vec::new();
        let mut i: usize = 0;
        while i < ids.len()
            invariant
                0 <= i <= ids.len(),
                r@ == open_among(self.windows(), ids@.subrange(0, i as int)),
            decreases ids.len() - i,
        {
            let w = self.get_open_window(&ids[i]);
            proof {
                assert(ids@.subrange(0, i + 1).drop_last() =~= ids@.subrange(0, i as int));
            }
            match w {
                Some(w) => r.push(w),
                None => {},
            }
            i = i + 1;
        }
        proof {
            assert(ids@.subrange(0, i as int) =~= ids@);
        }
        r
    }

    /// Closes a window.
    pub fn close_window(&mut self, id: u128)
        ensures
            final(self).windows() == old(self).windows().remove(id),
            final(self).area() == old(self).area(),
    {
        broadcast use vstd::std_specs::hash::group_hash_axioms;

        self.open_windows.remove(&id);
    }
}

/// The windows among `ids` that are open in `windows`, in the order of `ids`.
pub open spec fn open_among(windows: Map<u128, Window>, ids: Seq<u128>) -> Seq<Window>
    decreases ids.len(),
{
    if ids.len() == 0 {
        seq![]
    } else if windows.contains_key(ids.last()) {
        open_among(windows, ids.drop_last()).push(windows[ids.last()])
    } else {
        open_among(windows, ids.drop_last())
    }
}

} // verus!
