//! The state behind the widgets of the chat screen: which line of a list is
//! selected, which popup is open, and a countdown for what is shown only for
//! a while. Drawing them is left to whoever owns the terminal.

use vstd::prelude::*;

verus! {

/// The popup that lies over the chat, if any.
#[derive(Clone, Copy, Debug, PartialEq, Eq, Structural)]
pub enum PopupState {
    Help,
    List,
    Closed,
}

/// A list with a cursor. `selected` is the position of the cursor; a cursor
/// past the last item stands for "follow the end of the list".
#[derive(Debug)]
pub struct StatefulList<T> {
    pub items: Vec<T>,
    pub selected: Option<usize>,
    pub is_highlighted: bool,
}

/// Where the cursor stands after a step towards the end of a list of `len`
/// items: on the first item where there was no cursor, one further down
/// where there is room, else where it was. An empty list has no cursor to
/// move.
pub open spec fn spec_next(selected: Option<usize>, len: nat) -> Option<usize> {
    if len == 0 {
        selected
    } else {
        match selected {
            Some(i) => if i >= len - 1 {
                Some(i)
            } else {
                Some((i + 1) as usize)
            },
            None => Some(0usize),
        }
    }
}

/// Where the cursor stands after a step towards the start of a list of `len`
/// items: on the first item where there was no cursor or it stood there
/// already, else one further up.
pub open spec fn spec_previous(selected: Option<usize>, len: nat) -> Option<usize> {
    if len == 0 {
        selected
    } else {
        match selected {
            Some(i) => if i == 0 {
                Some(0usize)
            } else {
                Some((i - 1) as usize)
            },
            None => Some(0usize),
        }
    }
}

impl<T> StatefulList<T> {
    /// A list of `items` without a cursor.
    pub fn with_items(items: Vec<T>) -> (list: Self)
        ensures
            list.items == items,
            list.selected is None,
            !list.is_highlighted,
    {
        StatefulList { items, selected: None, is_highlighted: false }
    }

    /// Puts the cursor past the last item.
    pub fn select_last(&mut self)
        ensures
            final(self).selected == Some(old(self).items.len()),
            final(self).items == old(self).items,
            final(self).is_highlighted == old(self).is_highlighted,
    {
        self.selected = Some(self.items.len());
    }

    /// Moves the cursor one step towards the end.
    pub fn next(&mut self)
        ensures
            final(self).selected == spec_next(old(self).selected, old(self).items@.len()),
            final(self).items == old(self).items,
            final(self).is_highlighted == old(self).is_highlighted,
    {
        let len = self.items.len();
        if len != 0 {
            let i = match self.selected {
                Some(i) => {
                    if i >= len - 1 {
                        i
                    } else {
                        i + 1
                    }
                },
                None => 0,
            };
            self.selected = Some(i);
        }
    }

    /// Moves the cursor one step towards the start.
    pub fn previous(&mut self)
        ensures
            final(self).selected == spec_previous(old(self).selected, old(self).items@.len()),
            final(self).items == old(self).items,
            final(self).is_highlighted == old(self).is_highlighted,
    {
        if self.items.len() != 0 {
            let i = match self.selected {
                Some(i) => {
                    if i == 0 {
                        i
                    } else {
                        i - 1
                    }
                },
                None => 0,
            };
            self.selected = Some(i);
        }
    }
}

impl<T> Default for StatefulList<T> {
    fn default() -> (list: Self)
        ensures
            list.items@.len() == 0,
            list.selected is None,
            !list.is_highlighted,
    {
        StatefulList { items: Vec::new(), selected: None, is_highlighted: false }
    }
}

/// Within a list, a step down and a step up never leave the list: a cursor
/// that stands on an item stays on an item.
pub proof fn lemma_cursor_stays_inside(selected: Option<usize>, len: nat)
    requires
        selected matches Some(i) ==> i < len,
        len > 0,
    ensures
        spec_next(selected, len) matches Some(i) && i < len,
        spec_previous(selected, len) matches Some(i) && i < len,
{
}

/// A countdown in ticks. It runs only while unlocked; it has passed whenever
/// it stands at zero.
#[derive(Clone, Copy, Debug, PartialEq, Eq, Structural)]
pub struct Timer {
    pub treshold_time: usize,
    pub counter: usize,
    pub start: bool,
}

impl Timer {
    /// A locked countdown over `treshold_time` ticks, standing at zero.
    pub fn new(treshold_time: usize) -> (t: Self)
        ensures
            t == (Timer { treshold_time, counter: 0, start: false }),
    {
        Timer { treshold_time, counter: 0, start: false }
    }

    /// Lets the countdown run.
    pub fn unlock(&mut self)
        ensures
            *final(self) == (Timer { start: true, ..*old(self) }),
    {
        self.start = true;
    }

    /// Holds the countdown.
    pub fn lock(&mut self)
        ensures
            *final(self) == (Timer { start: false, ..*old(self) }),
    {
        self.start = false;
    }

    /// The countdown after one tick: a locked one is left alone, one that
    /// stands at zero starts over from its length, and all running ones
    /// lose a tick.
    pub open spec fn spec_dec(self) -> Timer {
        if !self.start {
            self
        } else if self.counter == 0 {
            Timer { counter: (self.treshold_time - 1) as usize, ..self }
        } else {
            Timer { counter: (self.counter - 1) as usize, ..self }
        }
    }

    /// One tick. A running countdown of length zero cannot tick.
    pub fn dec(&mut self)
        requires
            old(self).start && old(self).counter == 0 ==> old(self).treshold_time > 0,
        ensures
            *final(self) == old(self).spec_dec(),
    {
        if self.start {
            if self.counter == 0 {
                self.counter = self.treshold_time;
            }
            self.counter -= 1;
        }
    }

    /// Whether the countdown stands at zero.
    pub fn has_time_passed(&self) -> (r: bool)
        ensures
            r == (self.counter == 0),
    {
        self.counter == 0
    }
}

} // verus!
