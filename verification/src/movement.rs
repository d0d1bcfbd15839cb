//! Semantic input intents and the actor's velocity state.

use vstd::prelude::*;

verus! {

/// Horizontal acceleration a movement intent applies per tick, in
/// micro-units per millisecond of speed.
pub const ACCEL_STEP: i64 = 10_000;

/// Maximum horizontal speed a freshly spawned actor is configured with.
pub const DEFAULT_MAX_SPEED: i64 = 100_000;

/// Largest configurable maximum horizontal speed the library accepts; it
/// keeps every velocity computation inside machine integer bounds.
pub const MAX_SPEED_LIMIT: i64 = 1_000_000_000;

/// One semantic input intent, mapped one-to-one from a recognized key.
#[derive(Clone, Copy, PartialEq, Eq, Structural, Debug)]
pub enum PlayerInput {
    Left,
    Right,
    Up,
    Down,
    Attack,
    ResetLevel,
}

/// The set of intents one tick produced: independent flags, fresh each
/// tick, a value with no identity beyond the tick.
#[derive(Clone, Copy, PartialEq, Eq, Structural, Debug)]
pub struct PlayerInputEvent {
    pub left: bool,
    pub right: bool,
    pub up: bool,
    pub down: bool,
    pub attack: bool,
    pub reset_level: bool,
}

impl PlayerInputEvent {
    /// Which flag an intent value selects.
    pub open spec fn spec_contains(self, input: PlayerInput) -> bool {
        match input {
            PlayerInput::Left => self.left,
            PlayerInput::Right => self.right,
            PlayerInput::Up => self.up,
            PlayerInput::Down => self.down,
            PlayerInput::Attack => self.attack,
            PlayerInput::ResetLevel => self.reset_level,
        }
    }

    /// Set membership test for one intent.
    pub fn contains(&self, input: PlayerInput) -> (r: bool)
        ensures
            r == self.spec_contains(input),
    {
        match input {
            PlayerInput::Left => self.left,
            PlayerInput::Right => self.right,
            PlayerInput::Up => self.up,
            PlayerInput::Down => self.down,
            PlayerInput::Attack => self.attack,
            PlayerInput::ResetLevel => self.reset_level,
        }
    }

    /// The empty intent set: a tick on which nothing is pressed.
    pub fn none() -> (ev: PlayerInputEvent)
        ensures
            ev == (PlayerInputEvent {
                left: false,
                right: false,
                up: false,
                down: false,
                attack: false,
                reset_level: false,
            }),
    {
        PlayerInputEvent {
            left: false,
            right: false,
            up: false,
            down: false,
            attack: false,
            reset_level: false,
        }
    }
}

/// Maps the tick's raw pressed state, one recognized key per intent, to
/// the tick's intent set.
pub fn handle_keyboard_input(
    left: bool,
    right: bool,
    up: bool,
    down: bool,
    attack: bool,
    reset_level: bool,
) -> (ev: PlayerInputEvent)
    ensures
        ev == (PlayerInputEvent { left, right, up, down, attack, reset_level }),
{
    PlayerInputEvent { left, right, up, down, attack, reset_level }
}

/// An actor's velocity, in micro-units per millisecond, with the actor's
/// configured maximum horizontal speed.
#[derive(Clone, Copy, PartialEq, Eq, Structural, Debug)]
pub struct Velocity {
    pub vx: i64,
    pub vy: i64,
    pub max_speed: i64,
}

impl Velocity {
    /// The horizontal speed never exceeds the configured maximum, and the
    /// maximum is inside the library's machine bound.
    pub open spec fn wf(self) -> bool {
        &&& 0 <= self.max_speed <= MAX_SPEED_LIMIT
        &&& -self.max_speed <= self.vx <= self.max_speed
    }
}

impl Default for Velocity {
    /// A resting actor with the default maximum horizontal speed.
    fn default() -> (v: Velocity)
        ensures
            v == (Velocity { vx: 0, vy: 0, max_speed: DEFAULT_MAX_SPEED }),
            v.wf(),
    {
        Velocity { vx: 0, vy: 0, max_speed: DEFAULT_MAX_SPEED }
    }
}

} // verus!
