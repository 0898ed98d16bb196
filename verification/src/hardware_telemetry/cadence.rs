//! The telemetry cadence: what the sampling loop does when a wait for the
//! next tick ends.  The interval is read afresh before every wait, so a
//! changed interval takes effect at once.
use vstd::prelude::*;

verus! {

/// What ended a wait for the next tick.
#[derive(Debug, Clone, Copy, PartialEq, Eq, Structural)]
pub enum TickEvent {
    /// The full interval elapsed.
    Elapsed,
    /// A new interval was published during the wait.
    IntervalChanged,
    /// Nothing can publish an interval any more.
    IntervalSourceClosed,
}

/// What the loop does next.
#[derive(Debug, Clone, Copy, PartialEq, Eq, Structural)]
pub enum TickAction {
    /// Sample now.
    Tick,
    /// Wait again, for the interval as it now stands.
    Restart,
}

/// Decides the next action: an elapsed interval ticks; a changed interval
/// restarts the wait with the new interval; a closed source stops waiting.
pub fn next_tick(event: TickEvent) -> (action: TickAction)
    ensures
        action == TickAction::Restart <==> event == TickEvent::IntervalChanged,
{
    match event {
        TickEvent::IntervalChanged => TickAction::Restart,
        TickEvent::Elapsed => TickAction::Tick,
        TickEvent::IntervalSourceClosed => TickAction::Tick,
    }
}

} // verus!
