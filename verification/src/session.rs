//! Interaction memory shared by every drag value of one context.

use vstd::prelude::*;
use crate::total_order::ClampRange;
use crate::total_order::clamp_to_range;

verus! {

/// What the context remembers between frames: which widget was dragged last,
/// the full-precision value its drag has reached, and the raw text of the
/// widget that is being edited.
#[derive(Clone, Debug)]
pub struct MonoState {
    pub last_dragged_id: Option<u64>,
    pub last_dragged_value: Option<u64>,
    pub edit_string: Option<String>,
}

impl Default for MonoState {
    fn default() -> (r: Self)
        ensures
            r.is_empty(),
    {
        MonoState { last_dragged_id: None, last_dragged_value: None, edit_string: None }
    }
}

impl MonoState {
    /// Nothing is remembered.
    pub open spec fn is_empty(self) -> bool {
        self.last_dragged_id is None && self.last_dragged_value is None
            && self.edit_string is None
    }

    /// No drag is under way.
    pub open spec fn drag_is_clear(self) -> bool {
        self.last_dragged_id is None && self.last_dragged_value is None
    }

    /// The value a drag of widget `id` continues from: the remembered
    /// full-precision value if this widget was the one dragged last, else the
    /// committed `value`.
    pub open spec fn baseline(self, id: u64, value: u64) -> u64 {
        if self.last_dragged_id == Some(id) && self.last_dragged_value is Some {
            self.last_dragged_value->0
        } else {
            value
        }
    }

    /// The memory of a fresh context.
    pub fn new() -> (r: Self)
        ensures
            r.is_empty(),
    {
        MonoState { last_dragged_id: None, last_dragged_value: None, edit_string: None }
    }

    /// Ends a frame: a pointer press or release forgets the drag. The edit
    /// text is never touched.
    pub fn end_frame(&mut self, any_pressed: bool, any_released: bool)
        ensures
            (any_pressed || any_released) ==> final(self).drag_is_clear(),
            !(any_pressed || any_released) ==> final(self).last_dragged_id == old(
                self,
            ).last_dragged_id && final(self).last_dragged_value == old(self).last_dragged_value,
            final(self).edit_string == old(self).edit_string,
    {
        if any_pressed || any_released {
            self.last_dragged_id = None;
            self.last_dragged_value = None;
        }
    }

    /// Hands out the edit text and leaves none behind.
    pub fn take_edit_string(&mut self) -> (text: Option<String>)
        ensures
            text == old(self).edit_string,
            final(self).edit_string is None,
            final(self).last_dragged_id == old(self).last_dragged_id,
            final(self).last_dragged_value == old(self).last_dragged_value,
    {
        self.edit_string.take()
    }

    /// Replaces the edit text.
    pub fn store_edit_string(&mut self, text: Option<String>)
        ensures
            final(self).edit_string == text,
            final(self).last_dragged_id == old(self).last_dragged_id,
            final(self).last_dragged_value == old(self).last_dragged_value,
    {
        self.edit_string = text;
    }

    /// Executable form of [`MonoState::baseline`].
    pub fn drag_baseline(&self, id: u64, value: u64) -> (r: u64)
        ensures
            r == self.baseline(id, value),
    {
        match self.last_dragged_id {
            Some(last) => {
                if last == id {
                    match self.last_dragged_value {
                        Some(stored) => stored,
                        None => value,
                    }
                } else {
                    value
                }
            },
            None => value,
        }
    }

    /// Finishes one dragging frame of widget `id`. `running` is the
    /// full-precision value the drag has reached, `rounded` the round value
    /// picked near it. The memory keeps `running`, not what is committed; the
    /// value to commit is `rounded` clamped to `range`.
    pub fn commit_drag(&mut self, id: u64, running: u64, rounded: u64, range: ClampRange) -> (r:
        u64)
        ensures
            r == range.clamped(rounded),
            range.contains(r),
            final(self).last_dragged_id == Some(id),
            final(self).last_dragged_value == Some(running),
            final(self).edit_string == old(self).edit_string,
            final(self).baseline(id, r) == running,
    {
        self.last_dragged_id = Some(id);
        self.last_dragged_value = Some(running);
        clamp_to_range(rounded, range)
    }
}

/// Once the drag memory is clear, as it is after every pointer press or
/// release, the next drag of any widget starts from its committed value.
pub proof fn lemma_clear_drag_restarts(state: MonoState, id: u64, value: u64)
    requires
        state.drag_is_clear(),
    ensures
        state.baseline(id, value) == value,
{
}

/// A zero-delta frame after a drag leaves the memory on the dragged widget,
/// and the drag goes on from the full-precision value, not from the rounded
/// one that was committed.
pub proof fn lemma_drag_continues(state: MonoState, id: u64, running: u64, committed: u64)
    requires
        state.last_dragged_id == Some(id),
        state.last_dragged_value == Some(running),
    ensures
        state.baseline(id, committed) == running,
        forall|other: u64| other != id ==> state.baseline(other, committed) == committed,
{
}

} // verus!
