//! The keys that move the view.

use vstd::prelude::*;

verus! {

/// A key, by its place on the keyboard.
#[derive(Clone, Copy, Debug, PartialEq, Eq, Structural)]
pub enum KeyCode {
    KeyA,
    KeyD,
    KeyS,
    KeyW,
    KeyZ,
    ArrowDown,
    ArrowLeft,
    ArrowRight,
    ArrowUp,
    Other,
}

/// A key that went down or up, or that is held and repeats.
#[derive(Clone, Copy, Debug, PartialEq, Eq, Structural)]
pub struct KeyPress {
    pub code: KeyCode,
    pub pressed: bool,
    pub repeat: bool,
}

/// A way in which the view moves.
#[derive(Clone, Copy, Debug, PartialEq, Eq, Structural)]
pub enum Direction {
    Left,
    Right,
    Up,
    Down,
}

impl KeyCode {
    /// The way in which a key moves the view.
    pub open spec fn moves(self) -> Option<Direction> {
        match self {
            KeyCode::KeyA | KeyCode::ArrowLeft => Some(Direction::Left),
            KeyCode::KeyD | KeyCode::ArrowRight => Some(Direction::Right),
            KeyCode::KeyW | KeyCode::ArrowUp => Some(Direction::Up),
            KeyCode::KeyS | KeyCode::ArrowDown => Some(Direction::Down),
            _ => None,
        }
    }

    /// The way in which a key moves the view.
    pub fn direction(self) -> (direction: Option<Direction>)
        ensures
            direction == self.moves(),
    {
        match self {
            KeyCode::KeyA | KeyCode::ArrowLeft => Some(Direction::Left),
            KeyCode::KeyD | KeyCode::ArrowRight => Some(Direction::Right),
            KeyCode::KeyW | KeyCode::ArrowUp => Some(Direction::Up),
            KeyCode::KeyS | KeyCode::ArrowDown => Some(Direction::Down),
            _ => None,
        }
    }
}

/// The ways in which the view is to move, for the keys that are held.
#[derive(Clone, Copy, Debug, PartialEq, Eq, Structural)]
pub struct NavigationInput {
    pub left: bool,
    pub right: bool,
    pub up: bool,
    pub down: bool,
}

impl Default for NavigationInput {
    fn default() -> (input: Self)
        ensures
            input == NavigationInput::at_rest(),
    {
        NavigationInput { left: false, right: false, up: false, down: false }
    }
}

impl NavigationInput {
    /// No key is held.
    pub open spec fn at_rest() -> NavigationInput {
        NavigationInput { left: false, right: false, up: false, down: false }
    }

    /// Whether the view is to move in a direction.
    pub open spec fn holds(self, direction: Direction) -> bool {
        match direction {
            Direction::Left => self.left,
            Direction::Right => self.right,
            Direction::Up => self.up,
            Direction::Down => self.down,
        }
    }

    /// The input after a key: one that moves the view sets whether the view is to
    /// move its way, unless it only repeats; nothing else changes.
    pub open spec fn after_key(self, key: KeyPress) -> NavigationInput {
        if key.repeat && key.pressed {
            self
        } else {
            match key.code.moves() {
                Some(Direction::Left) => NavigationInput { left: key.pressed, ..self },
                Some(Direction::Right) => NavigationInput { right: key.pressed, ..self },
                Some(Direction::Up) => NavigationInput { up: key.pressed, ..self },
                Some(Direction::Down) => NavigationInput { down: key.pressed, ..self },
                None => self,
            }
        }
    }

    /// Whether the view is to move.
    pub fn any_pressed(&self) -> (any: bool)
        ensures
            any == exists|direction: Direction| self.holds(direction),
    {
        assert(self.holds(Direction::Left) == self.left);
        assert(self.holds(Direction::Right) == self.right);
        assert(self.holds(Direction::Up) == self.up);
        assert(self.holds(Direction::Down) == self.down);
        self.left || self.right || self.up || self.down
    }

    /// Takes a key in, and says whether it is one that moves the view.
    pub fn handle_navigation_key(&mut self, key: KeyPress) -> (handled: bool)
        ensures
            *final(self) == old(self).after_key(key),
            handled == (key.code.moves() is Some),
    {
        let direction = key.code.direction();
        if key.repeat && key.pressed {
            return direction.is_some();
        }
        match direction {
            Some(Direction::Left) => {
                self.left = key.pressed;
                true
            },
            Some(Direction::Right) => {
                self.right = key.pressed;
                true
            },
            Some(Direction::Up) => {
                self.up = key.pressed;
                true
            },
            Some(Direction::Down) => {
                self.down = key.pressed;
                true
            },
            None => false,
        }
    }
}

/// Letting go of a key stops the movement that pressing it started, and nothing
/// else.
pub proof fn released_key_stops_the_view(
    input: NavigationInput,
    code: KeyCode,
    direction: Direction,
)
    requires
        code.moves() == Some(direction),
    ensures
        input.after_key(KeyPress { code, pressed: true, repeat: false }).holds(direction),
        !input.after_key(KeyPress { code, pressed: true, repeat: false }).after_key(
            KeyPress { code, pressed: false, repeat: false },
        ).holds(direction),
        forall|other: Direction|
            other != direction ==> #[trigger] input.after_key(
                KeyPress { code, pressed: true, repeat: false },
            ).after_key(KeyPress { code, pressed: false, repeat: false }).holds(other)
                == input.holds(other),
{
}

/// A and the left arrow move the view left, D and the right arrow right, W and the
/// arrow up move it up, S and the arrow down move it down, and other keys do not.
pub proof fn keys_have_their_directions(code: KeyCode)
    ensures
        code.moves() == Some(Direction::Left) <==> code is KeyA || code is ArrowLeft,
        code.moves() == Some(Direction::Right) <==> code is KeyD || code is ArrowRight,
        code.moves() == Some(Direction::Up) <==> code is KeyW || code is ArrowUp,
        code.moves() == Some(Direction::Down) <==> code is KeyS || code is ArrowDown,
        code.moves() is None <==> code is KeyZ || code is Other,
{
}

/// A key sets whether the view moves its way to whether it is pressed, and leaves the
/// other ways alone; one that is held and repeats, or that moves nothing, changes
/// nothing.
pub proof fn keys_set_their_direction_only(input: NavigationInput, key: KeyPress)
    ensures
        ({
            let after = input.after_key(key);
            let acts = !(key.repeat && key.pressed);
            let left = key.code is KeyA || key.code is ArrowLeft;
            let right = key.code is KeyD || key.code is ArrowRight;
            let up = key.code is KeyW || key.code is ArrowUp;
            let down = key.code is KeyS || key.code is ArrowDown;
            &&& after.left == if acts && left {
                key.pressed
            } else {
                input.left
            }
            &&& after.right == if acts && right {
                key.pressed
            } else {
                input.right
            }
            &&& after.up == if acts && up {
                key.pressed
            } else {
                input.up
            }
            &&& after.down == if acts && down {
                key.pressed
            } else {
                input.down
            }
        }),
{
}

/// The view is to move exactly the ways that the input holds, and at rest no way.
pub proof fn input_holds_its_directions(input: NavigationInput, direction: Direction)
    ensures
        input.holds(Direction::Left) == input.left,
        input.holds(Direction::Right) == input.right,
        input.holds(Direction::Up) == input.up,
        input.holds(Direction::Down) == input.down,
        !NavigationInput::at_rest().holds(direction),
{
}

} // verus!
