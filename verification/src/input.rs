use vstd::prelude::*;

verus! {

/// A pair of signed grid coordinates or a step between cells.
#[derive(Clone, Copy, Debug, PartialEq, Eq, Structural, Hash)]
pub struct IVec2 {
    pub x: i32,
    pub y: i32,
}

/// Which of the four movement keys (W, S, A, D) are in some state.
#[derive(Clone, Copy, Debug, PartialEq, Eq, Structural)]
pub struct MovementKeys {
    pub w: bool,
    pub s: bool,
    pub a: bool,
    pub d: bool,
}

/// A key read from the terminal, as far as movement cares.
#[derive(Clone, Copy, Debug, PartialEq, Eq, Structural)]
pub enum TerminalKey {
    Char(char),
    Up,
    Down,
    Left,
    Right,
    Other,
}

/// What the player's movement system does in one frame: step the player in
/// `direction`, and first clear the time of its last step where
/// `reset_step_timer` holds.
#[derive(Clone, Copy, Debug, PartialEq, Eq, Structural)]
pub struct MoveOrder {
    pub direction: IVec2,
    pub reset_step_timer: bool,
}

/// The direction held by the keys where every pressed key counts: `S` wins
/// over `W` on the vertical axis and `D` over `A` on the horizontal one.
pub open spec fn spec_movement_direction(keys: MovementKeys) -> IVec2 {
    IVec2 {
        x: if keys.d {
            1
        } else if keys.a {
            -1i32
        } else {
            0
        },
        y: if keys.s {
            -1i32
        } else if keys.w {
            1
        } else {
            0
        },
    }
}

/// The direction, before normalising, in which the held keys move the
/// player on the free-moving map: up for W, down for S, left for A, right
/// for D, where a later key of W, S, A, D overrides an earlier one on its
/// axis; a diagonal where keys of both axes are held.
pub fn movement_direction(keys: MovementKeys) -> (dir: IVec2)
    ensures
        dir == spec_movement_direction(keys),
{
    let mut dir = IVec2 { x: 0, y: 0 };
    if keys.w {
        dir.y = 1;
    }
    if keys.s {
        dir.y = -1;
    }
    if keys.a {
        dir.x = -1;
    }
    if keys.d {
        dir.x = 1;
    }
    dir
}

/// The single step that the pressed keys ask for on the grid: the first of
/// W (up), S (down), A (left), D (right) that is pressed, or none.
pub open spec fn spec_grid_step(pressed: MovementKeys) -> Option<IVec2> {
    if pressed.w {
        Some(IVec2 { x: 0, y: 1 })
    } else if pressed.s {
        Some(IVec2 { x: 0, y: -1i32 })
    } else if pressed.a {
        Some(IVec2 { x: -1i32, y: 0 })
    } else if pressed.d {
        Some(IVec2 { x: 1, y: 0 })
    } else {
        None
    }
}

/// One of the movement keys was let go.
pub open spec fn any_key(keys: MovementKeys) -> bool {
    keys.w || keys.s || keys.a || keys.d
}

/// What the keyboard movement system does this frame, given the keys that
/// are pressed and those just released: nothing where no movement key is
/// pressed; else a step in the direction of the first pressed key of W, S,
/// A, D, clearing the step timer where a movement key was just released.
pub fn handle_player_movement(pressed: MovementKeys, just_released: MovementKeys) -> (order: Option<
    MoveOrder,
>)
    ensures
        order == (match spec_grid_step(pressed) {
            Some(dir) => Some(MoveOrder { direction: dir, reset_step_timer: any_key(just_released) }),
            None => None::<MoveOrder>,
        }),
{
    let direction = if pressed.w {
        IVec2 { x: 0, y: 1 }
    } else if pressed.s {
        IVec2 { x: 0, y: -1 }
    } else if pressed.a {
        IVec2 { x: -1, y: 0 }
    } else if pressed.d {
        IVec2 { x: 1, y: 0 }
    } else {
        IVec2 { x: 0, y: 0 }
    };
    if direction.x == 0 && direction.y == 0 {
        return None;
    }
    let reset_step_timer = just_released.w || just_released.s || just_released.a || just_released.d;
    Some(MoveOrder { direction, reset_step_timer })
}

/// The step that a terminal key asks for: `w` or the up arrow up, `s` or
/// the down arrow down, `a` or the left arrow left, `d` or the right arrow
/// right; none for any other key or for no key.
pub open spec fn spec_terminal_step(key: Option<TerminalKey>) -> Option<IVec2> {
    match key {
        Some(TerminalKey::Char('w')) | Some(TerminalKey::Up) => Some(IVec2 { x: 0, y: 1 }),
        Some(TerminalKey::Char('s')) | Some(TerminalKey::Down) => Some(IVec2 { x: 0, y: -1i32 }),
        Some(TerminalKey::Char('a')) | Some(TerminalKey::Left) => Some(IVec2 { x: -1i32, y: 0 }),
        Some(TerminalKey::Char('d')) | Some(TerminalKey::Right) => Some(IVec2 { x: 1, y: 0 }),
        _ => None,
    }
}

/// What the terminal movement system does with the key read this frame:
/// nothing for a key that asks for no step; else that step, always after
/// clearing the step timer.
pub fn handle_terminal_player_movement(key: Option<TerminalKey>) -> (order: Option<MoveOrder>)
    ensures
        order == (match spec_terminal_step(key) {
            Some(dir) => Some(MoveOrder { direction: dir, reset_step_timer: true }),
            None => None::<MoveOrder>,
        }),
{
    let direction = match key {
        Some(TerminalKey::Char('w')) | Some(TerminalKey::Up) => IVec2 { x: 0, y: 1 },
        Some(TerminalKey::Char('s')) | Some(TerminalKey::Down) => IVec2 { x: 0, y: -1 },
        Some(TerminalKey::Char('a')) | Some(TerminalKey::Left) => IVec2 { x: -1, y: 0 },
        Some(TerminalKey::Char('d')) | Some(TerminalKey::Right) => IVec2 { x: 1, y: 0 },
        _ => return None,
    };
    Some(MoveOrder { direction, reset_step_timer: true })
}

} // verus!
