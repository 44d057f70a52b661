use vstd::prelude::*;

use crate::code_editor::InsertionPoint;
use vstd::arithmetic::div_mod::{
    lemma_fundamental_div_mod, lemma_fundamental_div_mod_converse, lemma_mod_bound, lemma_mod_pos_bound,
};

verus! {

/// The menu for inserting code: what the user has typed to search, which
/// option is highlighted, and where the chosen code goes.
#[derive(Clone)]
pub struct InsertCodeMenu {
    input_str: String,
    selected_option_index: isize,
    pub insertion_point: InsertionPoint,
}

/// The index of the highlighted option among `num_options`: the selection
/// counter taken round the options (it may have been moved below the first
/// or past the last), or 0 when there are none.
pub open spec fn wrapped_index(selected: int, num_options: int) -> int {
    if num_options == 0 {
        0
    } else {
        selected % num_options
    }
}

/// The highlight goes round: moving it down past the last option reaches the
/// first again, and moving it up from the first reaches the last.
pub proof fn lemma_highlight_wraps_round(selected: int, num_options: int)
    requires
        num_options > 0,
    ensures
        wrapped_index(selected + num_options, num_options) == wrapped_index(selected, num_options),
        wrapped_index(num_options, num_options) == 0,
        wrapped_index(-1, num_options) == num_options - 1,
        0 <= wrapped_index(selected, num_options) < num_options,
{
    lemma_mod_bound(selected, num_options);
    lemma_fundamental_div_mod(selected, num_options);
    let q = selected / num_options;
    let r = selected % num_options;
    assert(selected + num_options == (q + 1) * num_options + r) by (nonlinear_arith)
        requires
            selected == num_options * q + r,
    ;
    lemma_fundamental_div_mod_converse(selected + num_options, num_options, q + 1, r);
    lemma_fundamental_div_mod_converse(num_options, num_options, 1, 0);
    lemma_fundamental_div_mod_converse(-1, num_options, -1, num_options - 1);
}

/// Rust's remainder of a negative counter, taken back into `0..n`, is the
/// counter's remainder from below.
proof fn lemma_negative_wraps_round(idx: int, n: int)
    requires
        idx < 0,
        n > 0,
    ensures
        (-idx) % n == 0 ==> idx % n == 0,
        (-idx) % n != 0 ==> idx % n == n - (-idx) % n,
{
    let a = -idx;
    let q = a / n;
    let m = a % n;
    lemma_fundamental_div_mod(a, n);
    lemma_mod_pos_bound(a, n);
    if m == 0 {
        assert(idx == (-q) * n + 0) by (nonlinear_arith)
            requires
                a == n * q + m,
                m == 0,
                idx == -a,
        ;
        lemma_fundamental_div_mod_converse(idx, n, -q, 0);
    } else {
        assert(idx == (-q - 1) * n + (n - m)) by (nonlinear_arith)
            requires
                a == n * q + m,
                idx == -a,
        ;
        lemma_fundamental_div_mod_converse(idx, n, -q - 1, n - m);
    }
}

impl InsertCodeMenu {
    /// The search text typed so far.
    pub closed spec fn search(self) -> Seq<char> {
        self.input_str@
    }

    /// Where the chosen code goes.
    pub closed spec fn insertion(self) -> InsertionPoint {
        self.insertion_point
    }

    /// How far the highlight has been moved from the first option (down is positive).
    pub closed spec fn selected(self) -> int {
        self.selected_option_index as int
    }

    /// A menu for inserting at `insertion_point`, with an empty search and the
    /// first option highlighted; none while a node is being edited in place.
    pub fn for_insertion_point(insertion_point: InsertionPoint) -> (r: Option<Self>)
        ensures
            insertion_point is Editing <==> r is None,
            r matches Some(m) ==> m.search() == Seq::<char>::empty() && m.selected() == 0
                && m.insertion() == insertion_point,
    {
        match insertion_point {
            // a literal or a name is being edited in place: no menu for that
            InsertionPoint::Editing(_) => None,
            _ => Some(
                Self { input_str: String::new(), selected_option_index: 0, insertion_point },
            ),
        }
    }

    /// Moves the highlight one option down.
    pub fn select_next(&mut self)
        requires
            old(self).selected() < isize::MAX,
        ensures
            final(self).selected() == old(self).selected() + 1,
            final(self).search() == old(self).search(),
            final(self).insertion() == old(self).insertion(),
    {
        self.selected_option_index = self.selected_option_index + 1;
    }

    /// Moves the highlight one option up.
    pub fn select_prev(&mut self)
        requires
            old(self).selected() > isize::MIN,
        ensures
            final(self).selected() == old(self).selected() - 1,
            final(self).search() == old(self).search(),
            final(self).insertion() == old(self).insertion(),
    {
        self.selected_option_index = self.selected_option_index - 1;
    }

    /// The search text typed so far.
    pub fn input_str(&self) -> (r: &str)
        ensures
            r@ == self.search(),
    {
        self.input_str.as_str()
    }

    /// Takes a new search text; a changed search highlights the first option again.
    pub fn set_search_str(&mut self, input_str: &str)
        ensures
            final(self).search() == input_str@,
            final(self).selected() == if input_str@ == old(self).search() {
                old(self).selected()
            } else {
                0
            },
            final(self).insertion() == old(self).insertion(),
    {
        let typed = input_str.to_owned();
        if typed != self.input_str {
            self.input_str = typed;
            self.selected_option_index = 0;
        }
    }

    /// The index of the highlighted option among `num_options` options.
    pub fn selected_index(&self, num_options: usize) -> (r: usize)
        requires
            num_options <= isize::MAX,
        ensures
            r as int == wrapped_index(self.selected(), num_options as int),
            num_options > 0 ==> r < num_options,
    {
        if num_options == 0 {
            return 0;
        }
        let n = num_options as isize;
        let selected = self.selected_option_index % n;
        proof {
            let idx = self.selected_option_index as int;
            if idx < 0 {
                lemma_negative_wraps_round(idx, n as int);
            }
        }
        if selected == 0 {
            0
        } else if selected > 0 {
            selected as usize
        } else {
            (n + selected) as usize
        }
    }
}

} // verus!
