//! The input debouncer: one buffered move with a short validity window.
//!
//! A key edge stores the intended move and restarts its timer. Ticks without
//! a key edge age the stored move. The next processing tick takes it: a move
//! no older than three frame times fires, an older one is dropped.

use crate::cursor::Direction;
use vstd::prelude::*;

verus! {

/// Frames per second that the game's timing constants are counted in.
pub const FPS: u64 = 60;

/// Nanoseconds in one second.
pub const NANOS_PER_SECOND: u64 = 1_000_000_000;

/// How long a buffered move stays valid: three frame times, in nanoseconds.
pub const INPUT_WINDOW: u64 = 3 * NANOS_PER_SECOND / FPS;

/// What the keyboard reports in one tick. The direction keys and `space`
/// are true when the key went down in this tick, the shift keys while they
/// are held.
#[derive(Copy, Clone, Debug, PartialEq, Eq, Structural, Hash)]
pub struct Keys {
    pub e: bool,
    pub arrow_up: bool,
    pub d: bool,
    pub arrow_down: bool,
    pub s: bool,
    pub arrow_left: bool,
    pub f: bool,
    pub arrow_right: bool,
    pub left_shift: bool,
    pub right_shift: bool,
    pub space: bool,
}

impl Keys {
    /// The direction whose key went down in this tick. Each direction has two
    /// keys; when several directions are pressed at once, up wins over down,
    /// down over left, and left over right.
    pub open spec fn direction(self) -> Option<Direction> {
        if self.e || self.arrow_up {
            Some(Direction::Up)
        } else if self.d || self.arrow_down {
            Some(Direction::Down)
        } else if self.s || self.arrow_left {
            Some(Direction::Left)
        } else if self.f || self.arrow_right {
            Some(Direction::Right)
        } else {
            None
        }
    }

    /// Whether either shift key is held.
    pub open spec fn shift(self) -> bool {
        self.left_shift || self.right_shift
    }

    /// A tick in which no key is down.
    pub fn none() -> (keys: Keys)
        ensures
            keys.direction() is None,
            !keys.shift(),
            !keys.space,
    {
        Keys {
            e: false,
            arrow_up: false,
            d: false,
            arrow_down: false,
            s: false,
            arrow_left: false,
            f: false,
            arrow_right: false,
            left_shift: false,
            right_shift: false,
            space: false,
        }
    }

    /// The direction whose key went down in this tick, if any.
    pub fn direction_pressed(&self) -> (direction: Option<Direction>)
        ensures
            direction == self.direction(),
    {
        if self.e || self.arrow_up {
            Some(Direction::Up)
        } else if self.d || self.arrow_down {
            Some(Direction::Down)
        } else if self.s || self.arrow_left {
            Some(Direction::Left)
        } else if self.f || self.arrow_right {
            Some(Direction::Right)
        } else {
            None
        }
    }

    /// Whether either shift key is held.
    pub fn shift_held(&self) -> (held: bool)
        ensures
            held == self.shift(),
    {
        self.left_shift || self.right_shift
    }
}

/// A move that is due: its direction, and whether it slides the line under
/// the cursor (shift was held at the key edge) or moves the cursor.
#[derive(Copy, Clone, Debug, PartialEq, Eq, Structural, Hash)]
pub struct Intent {
    pub direction: Direction,
    pub slide: bool,
}

/// The debouncer's state. While `direction` is `None` nothing is pending.
/// Otherwise a move is pending, `shift_held` is its modifier and `elapsed`
/// is its age in nanoseconds, which stops growing at `u64::MAX`.
#[derive(Copy, Clone, Debug, PartialEq, Eq, Structural, Hash)]
pub struct PreviousInput {
    pub elapsed: u64,
    pub direction: Option<Direction>,
    pub shift_held: bool,
}

impl PreviousInput {
    /// The state after a tick of `delta` nanoseconds without a key edge:
    /// a pending move grows older, an idle debouncer stays as it is.
    pub open spec fn aged(self, delta: u64) -> PreviousInput {
        if self.direction is Some {
            PreviousInput {
                elapsed: if self.elapsed + delta > u64::MAX {
                    u64::MAX
                } else {
                    (self.elapsed + delta) as u64
                },
                ..self
            }
        } else {
            self
        }
    }

    /// The state after one input tick: a key edge replaces whatever was
    /// pending by a new move of age zero, no key edge ages what is pending.
    pub open spec fn after_tick(self, delta: u64, keys: Keys) -> PreviousInput {
        match keys.direction() {
            Some(direction) => PreviousInput {
                elapsed: 0,
                direction: Some(direction),
                shift_held: keys.shift(),
            },
            None => self.aged(delta),
        }
    }

    /// The state after a run of ticks without a key edge, oldest first.
    pub open spec fn after_idle_ticks(self, deltas: Seq<u64>) -> PreviousInput
        decreases deltas.len(),
    {
        if deltas.len() == 0 {
            self
        } else {
            self.after_idle_ticks(deltas.drop_last()).aged(deltas.last())
        }
    }

    /// The move that a processing tick fires in this state: the pending one,
    /// if it is no older than the input window.
    pub open spec fn due(self) -> Option<Intent> {
        match self.direction {
            Some(direction) if self.elapsed <= INPUT_WINDOW => Some(
                Intent { direction, slide: self.shift_held },
            ),
            _ => None,
        }
    }

    /// The state after a processing tick has taken the pending move, fired
    /// or dropped.
    pub open spec fn consumed(self) -> PreviousInput {
        PreviousInput { direction: None, ..self }
    }

    /// A debouncer with nothing pending.
    pub fn new() -> (input: PreviousInput)
        ensures
            input.direction is None,
            input.elapsed == 0,
            !input.shift_held,
    {
        PreviousInput { elapsed: 0, direction: None, shift_held: false }
    }

    /// Takes the pending move out of the debouncer. Returns it if it is
    /// still fresh; a stale one is dropped without effect.
    pub fn take(&mut self) -> (intent: Option<Intent>)
        ensures
            intent == old(self).due(),
            *final(self) == old(self).consumed(),
    {
        let pending = self.direction;
        self.direction = None;
        match pending {
            Some(direction) => {
                if self.elapsed > INPUT_WINDOW {
                    None
                } else {
                    Some(Intent { direction, slide: self.shift_held })
                }
            },
            None => None,
        }
    }
}

impl Default for PreviousInput {
    fn default() -> (input: PreviousInput)
        ensures
            input.direction is None,
            input.elapsed == 0,
            !input.shift_held,
    {
        PreviousInput::new()
    }
}

/// One input tick: records a key edge as the pending move, or lets the
/// pending move age by `delta` nanoseconds.
pub fn update_input(prev_input: &mut PreviousInput, delta: u64, keys: &Keys)
    ensures
        *final(prev_input) == old(prev_input).after_tick(delta, *keys),
{
    match keys.direction_pressed() {
        Some(direction) => {
            prev_input.elapsed = 0;
            prev_input.direction = Some(direction);
            prev_input.shift_held = keys.shift_held();
        },
        None => {
            if prev_input.direction.is_some() {
                prev_input.elapsed = prev_input.elapsed.saturating_add(delta);
            }
        },
    }
}

/// The sum of a run of tick lengths.
pub open spec fn total(deltas: Seq<u64>) -> nat
    decreases deltas.len(),
{
    if deltas.len() == 0 {
        0
    } else {
        total(deltas.drop_last()) + deltas.last() as nat
    }
}

/// Idle ticks change nothing but the age of a pending move, which grows by
/// their total length.
pub proof fn lemma_idle_ticks(input: PreviousInput, deltas: Seq<u64>)
    ensures
        input.after_idle_ticks(deltas).direction == input.direction,
        input.after_idle_ticks(deltas).shift_held == input.shift_held,
        input.direction is None ==> input.after_idle_ticks(deltas) == input,
        input.direction is Some ==> input.after_idle_ticks(deltas).elapsed == if input.elapsed + total(
            deltas,
        ) > u64::MAX {
            u64::MAX as int
        } else {
            input.elapsed + total(deltas)
        },
    decreases deltas.len(),
{
    if deltas.len() > 0 {
        lemma_idle_ticks(input, deltas.drop_last());
    }
}

/// A key edge followed by idle ticks of at most three frame times in total
/// fires exactly the move that was pressed, and fires it once: after the
/// processing tick has taken it, nothing is due until the next key edge.
/// When the idle ticks add up to more than three frame times the move is
/// dropped: the processing tick fires nothing and leaves nothing pending.
pub proof fn lemma_debounce(
    before: PreviousInput,
    delta: u64,
    keys: Keys,
    waits: Seq<u64>,
    later: Seq<u64>,
)
    requires
        keys.direction() is Some,
    ensures
        ({
            let waited = before.after_tick(delta, keys).after_idle_ticks(waits);
            let pressed = Intent { direction: keys.direction().unwrap(), slide: keys.shift() };
            &&& total(waits) <= INPUT_WINDOW ==> waited.due() == Some(pressed)
            &&& total(waits) > INPUT_WINDOW ==> waited.due() is None
            &&& waited.consumed().direction is None
            &&& waited.consumed().after_idle_ticks(later).due() is None
        }),
{
    let pressed = before.after_tick(delta, keys);
    lemma_idle_ticks(pressed, waits);
    lemma_idle_ticks(pressed.after_idle_ticks(waits).consumed(), later);
}

} // verus!
