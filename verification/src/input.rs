//! Input: which requests the keys that went down in a frame stand for.

use vstd::prelude::*;
use crate::pieces::{Direction, RotationEvent};

verus! {

/// The requests that key presses stand for: one counterclockwise turn if the
/// key for it went down, followed by one clockwise turn if the key for that
/// went down.
pub open spec fn keyboard_events(
    counterclockwise_pressed: bool,
    clockwise_pressed: bool,
) -> Seq<RotationEvent> {
    (if counterclockwise_pressed {
        seq![RotationEvent { direction: Direction::CounterClockwise }]
    } else {
        Seq::<RotationEvent>::empty()
    }) + (if clockwise_pressed {
        seq![RotationEvent { direction: Direction::Clockwise }]
    } else {
        Seq::<RotationEvent>::empty()
    })
}

/// The system that turns key presses into requests.
pub struct InputPlugin;

impl InputPlugin {
    /// The rotation requests of one frame. Each argument says whether the key
    /// for that turn went down in this frame; a key that is held down counts
    /// once, in the frame in which it went down.
    pub fn handle_keyboard_input(counterclockwise_pressed: bool, clockwise_pressed: bool) -> (events:
        Vec<RotationEvent>)
        ensures
            events@ == keyboard_events(counterclockwise_pressed, clockwise_pressed),
    {
        let mut events: Vec<RotationEvent> = Vec::new();
        if counterclockwise_pressed {
            events.push(RotationEvent { direction: Direction::CounterClockwise });
        }
        if clockwise_pressed {
            events.push(RotationEvent { direction: Direction::Clockwise });
        }
        assert(events@ =~= keyboard_events(counterclockwise_pressed, clockwise_pressed));
        events
    }
}

} // verus!
