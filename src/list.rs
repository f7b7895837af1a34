//! An ordered sequence of entries with one cursor that wraps around.
use vstd::prelude::*;
use vstd::arithmetic::div_mod::{lemma_add_mod_noop, lemma_mod_self_0, lemma_small_mod};

verus! {

/// The index after `i` in a list of `len` entries, wrapping to the front.
pub open spec fn next_index(i: nat, len: nat) -> nat {
    if i + 1 >= len {
        0
    } else {
        i + 1
    }
}

/// The index before `i` in a list of `len` entries, wrapping to the back.
pub open spec fn previous_index(i: nat, len: nat) -> nat {
    if i == 0 {
        if len == 0 { 0 } else { (len - 1) as nat }
    } else {
        (i - 1) as nat
    }
}

/// The index reached from `i` by `k` steps forward.
pub open spec fn advance_times(i: nat, len: nat, k: nat) -> nat
    decreases k,
{
    if k == 0 {
        i
    } else {
        next_index(advance_times(i, len, (k - 1) as nat), len)
    }
}

/// A sequence of entries and the index of the selected one.
pub struct StatefulList<T> {
    pub selected: usize,
    pub items: Vec<T>,
}

impl<T> StatefulList<T> {
    /// The list is not empty and its cursor lies inside it.
    pub open spec fn wf(&self) -> bool {
        0 < self.items@.len() && self.selected < self.items@.len()
    }

    /// A list of `items` with the first one selected.
    pub fn with_items(items: Vec<T>) -> (r: StatefulList<T>)
        requires
            items@.len() > 0,
        ensures
            r.wf(),
            r.items@ == items@,
            r.selected == 0,
    {
        StatefulList { selected: 0, items }
    }

    /// A list of `items` with the one at `index` selected.
    pub fn with_items_select(items: Vec<T>, index: usize) -> (r: StatefulList<T>)
        requires
            index < items@.len(),
        ensures
            r.wf(),
            r.items@ == items@,
            r.selected == index,
    {
        StatefulList { selected: index, items }
    }

    /// The index of the selected entry.
    pub fn selected(&self) -> (r: usize)
        ensures
            r == self.selected,
    {
        self.selected
    }

    /// Moves the cursor to `index`.
    pub fn select(&mut self, index: usize)
        requires
            index < old(self).items@.len(),
        ensures
            final(self).wf(),
            final(self).items@ == old(self).items@,
            final(self).selected == index,
    {
        self.selected = index;
    }

    /// Moves the cursor one step forward, from the last entry to the first.
    pub fn next(&mut self)
        requires
            old(self).wf(),
        ensures
            final(self).wf(),
            final(self).items@ == old(self).items@,
            final(self).selected as nat == next_index(
                old(self).selected as nat,
                old(self).items@.len(),
            ),
    {
        let i = if self.selected >= self.items.len() - 1 {
            0
        } else {
            self.selected + 1
        };
        self.selected = i;
    }

    /// Moves the cursor one step back, from the first entry to the last.
    pub fn previous(&mut self)
        requires
            old(self).wf(),
        ensures
            final(self).wf(),
            final(self).items@ == old(self).items@,
            final(self).selected as nat == previous_index(
                old(self).selected as nat,
                old(self).items@.len(),
            ),
    {
        let i = if self.selected == 0 {
            self.items.len() - 1
        } else {
            self.selected - 1
        };
        self.selected = i;
    }
}

proof fn lemma_advance_times_mod(i: nat, len: nat, k: nat)
    requires
        i < len,
    ensures
        advance_times(i, len, k) as int == (i + k) as int % (len as int),
    decreases k,
{
    if k == 0 {
        lemma_small_mod(i, len);
    } else {
        let k1 = (k - 1) as nat;
        lemma_advance_times_mod(i, len, k1);
        let r = advance_times(i, len, k1);
        let x = (i + k1) as int;
        let m = len as int;
        lemma_add_mod_noop(x, 1, m);
        assert(r < len);
        if len == 1 {
            lemma_mod_self_0(1);
            lemma_small_mod(0, 1);
        } else {
            lemma_small_mod(1, len);
            if r + 1 < len {
                lemma_small_mod(r + 1, len);
            } else {
                lemma_mod_self_0(m);
            }
        }
    }
}

/// Advancing the cursor of a list as many times as the list is long brings
/// it back to where it started.
pub proof fn lemma_advance_full_circle(i: nat, len: nat)
    requires
        i < len,
    ensures
        advance_times(i, len, len) == i,
{
    lemma_advance_times_mod(i, len, len);
    vstd::arithmetic::div_mod::lemma_mod_add_multiples_vanish(i as int, len as int);
    lemma_small_mod(i, len);
}

} // verus!
