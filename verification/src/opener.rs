use vstd::prelude::*;

use crate::keys::{Key, Keypress};

verus! {

/// What a key press asks of the opener (the popup for opening code).
#[derive(Debug, Clone, Copy, PartialEq, Eq, Structural)]
pub enum OpenerCommand {
    SelectNext,
    SelectPrev,
    Close,
}

/// The opener's command for `kp`: the down arrow or Tab selects the next
/// option, the up arrow or shift+Tab the previous one, Escape closes it;
/// the first rule that matches decides.
pub open spec fn opener_keypress_command(kp: Keypress) -> Option<OpenerCommand> {
    match (kp.key, kp.ctrl, kp.shift) {
        (Key::DownArrow, _, _) | (Key::Tab, false, false) => Some(OpenerCommand::SelectNext),
        (Key::UpArrow, _, _) | (Key::Tab, false, true) => Some(OpenerCommand::SelectPrev),
        (Key::Escape, _, _) => Some(OpenerCommand::Close),
        _ => None,
    }
}

/// The opener's command for `keypress`.
pub fn opener_command_for_keypress(keypress: &Keypress) -> (r: Option<OpenerCommand>)
    ensures
        r == opener_keypress_command(*keypress),
{
    match (keypress.key, keypress.ctrl, keypress.shift) {
        (Key::DownArrow, _, _) | (Key::Tab, false, false) => Some(OpenerCommand::SelectNext),
        (Key::UpArrow, _, _) | (Key::Tab, false, true) => Some(OpenerCommand::SelectPrev),
        (Key::Escape, _, _) => Some(OpenerCommand::Close),
        _ => None,
    }
}

/// Escape closes the opener whatever modifiers are held; the down arrow
/// always selects the next option and the up arrow the previous one.
pub proof fn lemma_opener_keys(ctrl: bool, shift: bool)
    ensures
        opener_keypress_command(Keypress { key: Key::Escape, ctrl, shift }) == Some(OpenerCommand::Close),
        opener_keypress_command(Keypress { key: Key::DownArrow, ctrl, shift }) == Some(
            OpenerCommand::SelectNext,
        ),
        opener_keypress_command(Keypress { key: Key::UpArrow, ctrl, shift }) == Some(
            OpenerCommand::SelectPrev,
        ),
        opener_keypress_command(Keypress { key: Key::Tab, ctrl: false, shift: false }) == Some(
            OpenerCommand::SelectNext,
        ),
        opener_keypress_command(Keypress { key: Key::Tab, ctrl: false, shift: true }) == Some(
            OpenerCommand::SelectPrev,
        ),
{
}

} // verus!
