//! The per-tick steps of the game: acting on the buffered move, resetting
//! the board, and keeping the clear count.
//!
//! Each step takes the state it works on by reference and returns what the
//! presentation has to show. The program around the library runs them once
//! per frame: input first, then the move, then the reset and the refill.

use crate::board::BoardState;
use crate::clears::clear_count;
use crate::cursor::{moved, BoardLocation};
use crate::input::{Keys, PreviousInput};
use crate::slide::{slide_commits, SlideOutcome};
use vstd::prelude::*;

verus! {

/// The tag of the animation that carries the ejected piece off the board.
/// Its completion is what scores a slide.
pub const PIECE_SLIDE_COMPLETED: u64 = 1;

/// How many frames a slide animation lasts.
pub const PIECE_SLIDE_FRAMES: u64 = 5;

/// What a processing tick did with the buffered move.
#[derive(Copy, Clone, Debug, PartialEq, Eq)]
pub enum MoveOutcome {
    /// An animation was running or the board had an empty cell. Nothing was
    /// looked at, and a buffered move stays buffered.
    Blocked,
    /// No move was buffered.
    Idle,
    /// The buffered move was older than the input window and was dropped.
    Dropped,
    /// The cursor moved to this position.
    CursorMoved(BoardLocation),
    /// The line under the cursor slid. These are the moves to animate.
    Slid(SlideOutcome),
}

/// The running total of clears.
#[derive(Copy, Clone, Debug, PartialEq, Eq, Structural, Hash)]
pub struct ClearCount {
    pub total: u64,
}

/// One processing tick. While an animation is in progress or the board has
/// an empty cell, nothing happens. Otherwise the buffered move is taken out
/// of the debouncer: a stale one is dropped, a fresh one with the modifier
/// slides the line under the cursor, a fresh one without it moves the cursor.
pub fn move_player_cursor(
    anim_in_progress: bool,
    cursor: &mut BoardLocation,
    prev_input: &mut PreviousInput,
    board_state: &mut BoardState,
) -> (outcome: MoveOutcome)
    ensures
        final(cursor).wf(),
        final(board_state).same_entities(*old(board_state)),
        anim_in_progress || !old(board_state).full() ==> {
            &&& outcome is Blocked
            &&& *final(prev_input) == *old(prev_input)
            &&& *final(cursor) == *old(cursor)
            &&& *final(board_state) == *old(board_state)
        },
        !anim_in_progress && old(board_state).full() ==> {
            &&& *final(prev_input) == old(prev_input).consumed()
            &&& match old(prev_input).due() {
                None => {
                    &&& outcome is Idle <==> old(prev_input).direction is None
                    &&& outcome is Dropped <==> old(prev_input).direction is Some
                    &&& *final(cursor) == *old(cursor)
                    &&& *final(board_state) == *old(board_state)
                },
                Some(intent) => if intent.slide {
                    &&& outcome matches MoveOutcome::Slid(slide)
                    &&& slide_commits(
                        *old(board_state),
                        *final(board_state),
                        old(cursor)@,
                        intent.direction,
                        slide,
                    )
                    &&& *final(cursor) == *old(cursor)
                } else {
                    &&& outcome == MoveOutcome::CursorMoved(*final(cursor))
                    &&& final(cursor)@ == moved(old(cursor)@, intent.direction)
                    &&& *final(board_state) == *old(board_state)
                },
            }
        },
{
    let _ = cursor.x();
    if anim_in_progress || board_state.has_empty() {
        return MoveOutcome::Blocked;
    }
    let was_pending = prev_input.direction.is_some();
    match prev_input.take() {
        None => {
            if was_pending {
                MoveOutcome::Dropped
            } else {
                MoveOutcome::Idle
            }
        },
        Some(intent) => {
            if intent.slide {
                MoveOutcome::Slid(board_state.slide(cursor, intent.direction))
            } else {
                MoveOutcome::CursorMoved(cursor.move_cursor(intent.direction))
            }
        },
    }
}

/// Empties the board when the reset key went down in this tick.
pub fn maybe_reset_board(keys: &Keys, board_state: &mut BoardState)
    ensures
        final(board_state).same_entities(*old(board_state)),
        keys.space ==> final(board_state).vacant(),
        !keys.space ==> *final(board_state) == *old(board_state),
{
    if keys.space {
        board_state.clear_all();
    }
}

/// How many of the completed animations carried an ejected piece.
pub open spec fn completed_slides(events: Seq<u64>) -> nat
    decreases events.len(),
{
    if events.len() == 0 {
        0
    } else {
        completed_slides(events.drop_last()) + if events.last() == PIECE_SLIDE_COMPLETED {
            1nat
        } else {
            0nat
        }
    }
}

/// The clear count after scoring: for each completed slide the total grows
/// by `clears`, and it stops growing at `u64::MAX`.
pub open spec fn scored(total: u64, slides: nat, clears: nat) -> u64 {
    if total + slides * clears > u64::MAX {
        u64::MAX
    } else {
        (total + slides * clears) as u64
    }
}

/// The scoring step. `events` holds the tags of the animations that
/// completed since the last tick. For each one that carried an ejected
/// piece off the board, the cascading count of the board is added to the
/// total. While the board has an empty cell there is nothing to count, and
/// the total stays.
pub fn update_complete_count(events: &[u64], board_state: &BoardState, score: &mut ClearCount)
    ensures
        board_state.full() ==> final(score).total == scored(
            old(score).total,
            completed_slides(events@),
            clear_count(board_state.layout()),
        ),
        !board_state.full() ==> *final(score) == *old(score),
{
    if board_state.has_empty() {
        return;
    }
    let clears = board_state.count_clears() as u64;
    let ghost start = score.total;
    assert(completed_slides(events@.subrange(0, 0)) == 0) by {
        assert(events@.subrange(0, 0) =~= Seq::<u64>::empty());
    }
    assert(0 * clears == 0);
    for i in 0..events.len()
        invariant
            clears <= 10,
            score.total == scored(start, completed_slides(events@.subrange(0, i as int)), clears as nat),
    {
        let ghost seen = completed_slides(events@.subrange(0, i as int));
        assert(events@.subrange(0, i + 1).drop_last() =~= events@.subrange(0, i as int));
        assert((seen + 1) * clears == seen * clears + clears) by (nonlinear_arith);
        assert(seen * clears >= 0) by (nonlinear_arith)
            requires
                seen >= 0,
                clears >= 0,
        ;
        if events[i] == PIECE_SLIDE_COMPLETED {
            score.total = score.total.saturating_add(clears);
        }
    }
    assert(events@.subrange(0, events@.len() as int) =~= events@);
}

} // verus!
