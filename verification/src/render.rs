//! Decisions of the render loop: which window-system events lead to a
//! drawn frame, and how long to wait between frames.
use vstd::prelude::*;

verus! {

/// The events the render loop tells apart.
#[derive(Debug, Clone, Copy, PartialEq, Eq, Structural)]
pub enum LoopEvent {
    /// The user asked to close the window.
    CloseRequested,
    /// Any other window event.
    OtherWindowEvent,
    /// The loop woke because the time it waited for was reached.
    ResumeTimeReached,
    /// The loop started.
    Init,
    /// The loop woke for any other reason.
    OtherStartCause,
    /// Any other event.
    Other,
}

/// What the render loop does in answer to an event.
#[derive(Debug, Clone, Copy, PartialEq, Eq, Structural)]
pub enum LoopAction {
    /// Leave the loop.
    Exit,
    /// Do nothing until the next event.
    Ignore,
    /// Schedule the next wake-up, then draw every frame not yet drawn.
    Draw,
}

/// The action for an event: exit on a close request, draw when the loop
/// starts or its wait is over, and ignore everything else.
pub open spec fn action_for(event: LoopEvent) -> LoopAction {
    match event {
        LoopEvent::CloseRequested => LoopAction::Exit,
        LoopEvent::ResumeTimeReached => LoopAction::Draw,
        LoopEvent::Init => LoopAction::Draw,
        _ => LoopAction::Ignore,
    }
}

/// Decides what the render loop does with `event`.
pub fn decide(event: LoopEvent) -> (action: LoopAction)
    ensures
        action == action_for(event),
{
    match event {
        LoopEvent::CloseRequested => LoopAction::Exit,
        LoopEvent::OtherWindowEvent => LoopAction::Ignore,
        LoopEvent::ResumeTimeReached => LoopAction::Draw,
        LoopEvent::Init => LoopAction::Draw,
        LoopEvent::OtherStartCause => LoopAction::Ignore,
        LoopEvent::Other => LoopAction::Ignore,
    }
}

/// Nanoseconds to wait between frames: a second divided by the frame-rate
/// cap, or no wait when there is no cap.
pub fn frame_interval_nanos(max_fps: Option<u32>) -> (nanos: u32)
    requires
        max_fps matches Some(fps) ==> fps > 0,
    ensures
        max_fps matches Some(fps) ==> nanos == 1_000_000_000int / (fps as int),
        max_fps is None ==> nanos == 0,
{
    match max_fps {
        Some(fps) => 1_000_000_000 / fps,
        None => 0,
    }
}

} // verus!
