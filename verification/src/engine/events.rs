use vstd::prelude::*;

verus! {

/// What the window system tells the application, as far as the application
/// reacts to it.
#[derive(Clone, Copy, Debug, PartialEq, Eq, Structural)]
pub enum WindowSignal {
    CloseRequested,
    RedrawRequested,
    Resized,
    /// Any other event.
    Other,
}

/// What the application does next.
#[derive(Clone, Copy, Debug, PartialEq, Eq, Structural)]
pub enum Reaction {
    /// Leave the event loop.
    Exit,
    /// Draw a frame.
    Draw,
    /// Throw the swapchain away, then draw a frame.
    InvalidateAndDraw,
    Ignore,
}

/// The reaction to each signal: a close request ends the loop, a redraw
/// request draws, a resize throws the swapchain away and draws, unless there
/// are no device resources, which ends the loop; anything else is ignored.
pub open spec fn reaction(signal: WindowSignal, has_device_resources: bool) -> Reaction {
    match signal {
        WindowSignal::CloseRequested => Reaction::Exit,
        WindowSignal::RedrawRequested => Reaction::Draw,
        WindowSignal::Resized => if has_device_resources {
            Reaction::InvalidateAndDraw
        } else {
            Reaction::Exit
        },
        WindowSignal::Other => Reaction::Ignore,
    }
}

/// Decides what to do on a window event.
pub fn on_window_event(signal: WindowSignal, has_device_resources: bool) -> (next: Reaction)
    ensures
        next == reaction(signal, has_device_resources),
{
    match signal {
        WindowSignal::CloseRequested => Reaction::Exit,
        WindowSignal::RedrawRequested => Reaction::Draw,
        WindowSignal::Resized => {
            if has_device_resources {
                Reaction::InvalidateAndDraw
            } else {
                Reaction::Exit
            }
        },
        WindowSignal::Other => Reaction::Ignore,
    }
}

/// Decides what to do after a frame was drawn: go on when it succeeded, leave
/// the event loop when it failed.
pub fn after_draw(drawn: bool) -> (next: Reaction)
    ensures
        drawn ==> next == Reaction::Ignore,
        !drawn ==> next == Reaction::Exit,
{
    if drawn {
        Reaction::Ignore
    } else {
        Reaction::Exit
    }
}

} // verus!
