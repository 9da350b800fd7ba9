//! What the screen asks of the combat: which action a click chooses.

use crate::action::Action;
use crate::combat::Combatant;
use crate::trigger::Triggerable;
use vstd::prelude::*;

verus! {

/// The action that a click on its button chooses: the action itself where
/// the button was clicked and `source` may perform the action against
/// `target`, else none.
pub fn action_clicked<'a, T: Triggerable>(
    clicked: bool,
    action: &'a Action,
    source: &Combatant<T>,
    target: &Combatant<T>,
) -> (chosen: Option<&'a Action>)
    ensures
        chosen == if clicked && action.legal(source@.ledger, target@.ledger) {
            Some(action)
        } else {
            None
        },
{
    if clicked {
        if action.can_perform(&source.tokens, &target.tokens) {
            return Some(action);
        }
    }
    None
}

} // verus!
