//! What a child update hands to its parent: an instruction that only the parent
//! interprets, and a deferred effect to run after the update has finished.
use vstd::prelude::*;

verus! {

/// An input field of an item row.
#[derive(Clone, Copy, Debug, PartialEq, Eq, Structural)]
pub enum FormField {
    Name,
    Quantity,
    Price,
}

/// A deferred effect: a focus request, run once the current update has returned.
#[derive(Clone, Copy, Debug, PartialEq, Eq, Structural)]
pub enum Effect {
    /// Move focus to the next control in focus order.
    FocusNext,
    /// Move focus to the previous control in focus order.
    FocusPrevious,
    /// Focus the given field of the item with the given id.
    Focus(FormField, usize),
}

/// The result of a child update.
#[derive(Clone, Copy, Debug, PartialEq, Eq)]
pub struct Action<I> {
    pub instruction: Option<I>,
    pub effect: Option<Effect>,
}

impl<I> Action<I> {
    pub fn none() -> (r: Self)
        ensures
            r.instruction.is_none(),
            r.effect.is_none(),
    {
        Action { instruction: None, effect: None }
    }

    pub fn instruction(instruction: I) -> (r: Self)
        ensures
            r.instruction == Some(instruction),
            r.effect.is_none(),
    {
        Action { instruction: Some(instruction), effect: None }
    }

    pub fn effect(effect: Effect) -> (r: Self)
        ensures
            r.instruction.is_none(),
            r.effect == Some(effect),
    {
        Action { instruction: None, effect: Some(effect) }
    }

    pub fn with_effect(self, effect: Effect) -> (r: Self)
        ensures
            r.instruction == self.instruction,
            r.effect == Some(effect),
    {
        Action { instruction: self.instruction, effect: Some(effect) }
    }
}

} // verus!
