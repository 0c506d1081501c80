use vstd::prelude::*;

verus! {

/// An abstract action that a key press stands for.
#[derive(Clone, Copy, Debug, PartialEq, Eq, Structural)]
pub enum Action {
    Up,
    Down,
    Left,
    Right,
    Confirm,
}

/// A raw key code that stands for no action.
#[derive(Clone, Copy, Debug, PartialEq, Eq, Structural)]
pub struct UnrecognizedInput {
    pub code: u32,
}

pub const KEY_W: u32 = 87;
pub const KEY_A: u32 = 65;
pub const KEY_S: u32 = 83;
pub const KEY_D: u32 = 68;
pub const KEY_ARROW_UP: u32 = 38;
pub const KEY_ARROW_DOWN: u32 = 40;
pub const KEY_ARROW_LEFT: u32 = 37;
pub const KEY_ARROW_RIGHT: u32 = 39;
pub const KEY_SPACE: u32 = 32;

/// The action a raw key code stands for: a letter key and an arrow key for
/// each direction, and the space bar to confirm.
pub open spec fn action_of(code: u32) -> Option<Action> {
    if code == KEY_W || code == KEY_ARROW_UP {
        Some(Action::Up)
    } else if code == KEY_S || code == KEY_ARROW_DOWN {
        Some(Action::Down)
    } else if code == KEY_A || code == KEY_ARROW_LEFT {
        Some(Action::Left)
    } else if code == KEY_D || code == KEY_ARROW_RIGHT {
        Some(Action::Right)
    } else if code == KEY_SPACE {
        Some(Action::Confirm)
    } else {
        None
    }
}

/// Maps a raw key code to its action, or reports it as unrecognized.
pub fn classify(code: u32) -> (r: Result<Action, UnrecognizedInput>)
    ensures
        r matches Ok(a) ==> action_of(code) == Some(a),
        r matches Err(e) ==> action_of(code) is None && e.code == code,
        action_of(code) is Some ==> r is Ok,
{
    match code {
        KEY_W | KEY_ARROW_UP => Ok(Action::Up),
        KEY_S | KEY_ARROW_DOWN => Ok(Action::Down),
        KEY_A | KEY_ARROW_LEFT => Ok(Action::Left),
        KEY_D | KEY_ARROW_RIGHT => Ok(Action::Right),
        KEY_SPACE => Ok(Action::Confirm),
        _ => Err(UnrecognizedInput { code }),
    }
}

} // verus!
