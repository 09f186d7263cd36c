use vstd::prelude::*;

verus! {

/// Phase of the control loop.
#[derive(Debug, Clone, Copy, PartialEq, Eq, Structural)]
pub enum DriverState {
    /// The producer is live and samples are aggregated every tick.
    Running,
    /// The producer has closed; the samples still buffered are flushed.
    Draining,
    /// The stream has ended and the endpoints were disconnected.
    Stopped,
}

/// What the control loop does after a drain.
#[derive(Debug, Clone, Copy, PartialEq, Eq, Structural)]
pub enum DriverAction {
    /// Aggregate the drained samples and send the result to every endpoint.
    Dispatch,
    /// Nothing was drained yet the stream goes on: let the tick pass.
    Skip,
    /// The stream has ended: disconnect every endpoint and leave the loop.
    Disconnect,
    /// The loop has already stopped: do nothing.
    Idle,
}

/// What one drain observed: how many samples came out, and whether the
/// producer had closed by then.
#[derive(Debug, Clone, Copy, PartialEq, Eq, Structural)]
pub struct Tick {
    pub count: usize,
    pub producer_closed: bool,
}

/// A drain that ends the stream: nothing came out and nothing more will.
pub open spec fn is_end(tick: Tick) -> bool {
    tick.count == 0 && tick.producer_closed
}

/// The driver's transition on one drain.
pub open spec fn transition(state: DriverState, tick: Tick) -> (DriverState, DriverAction) {
    if state == DriverState::Stopped {
        (DriverState::Stopped, DriverAction::Idle)
    } else if tick.count > 0 {
        if tick.producer_closed || state == DriverState::Draining {
            (DriverState::Draining, DriverAction::Dispatch)
        } else {
            (DriverState::Running, DriverAction::Dispatch)
        }
    } else if tick.producer_closed {
        (DriverState::Stopped, DriverAction::Disconnect)
    } else {
        (state, DriverAction::Skip)
    }
}

/// How many disconnects the driver issues over a run of drains.
pub open spec fn disconnects(state: DriverState, ticks: Seq<Tick>) -> nat
    decreases ticks.len(),
{
    if ticks.len() == 0 {
        0
    } else {
        let (next, action) = transition(state, ticks[0]);
        (if action == DriverAction::Disconnect { 1nat } else { 0nat }) + disconnects(
            next,
            ticks.skip(1),
        )
    }
}

/// The state the driver reaches after a run of drains.
pub open spec fn state_after(state: DriverState, ticks: Seq<Tick>) -> DriverState
    decreases ticks.len(),
{
    if ticks.len() == 0 {
        state
    } else {
        state_after(transition(state, ticks[0]).0, ticks.skip(1))
    }
}

/// Decides the next state and action from the current state and the result
/// of one drain.
pub fn step(state: DriverState, tick: Tick) -> (r: (DriverState, DriverAction))
    ensures
        r == transition(state, tick),
{
    match state {
        DriverState::Stopped => (DriverState::Stopped, DriverAction::Idle),
        _ => {
            if tick.count > 0 {
                if tick.producer_closed || state == DriverState::Draining {
                    (DriverState::Draining, DriverAction::Dispatch)
                } else {
                    (DriverState::Running, DriverAction::Dispatch)
                }
            } else if tick.producer_closed {
                (DriverState::Stopped, DriverAction::Disconnect)
            } else {
                (state, DriverAction::Skip)
            }
        },
    }
}

/// Once stopped, the driver stays stopped and never disconnects again.
pub proof fn lemma_stopped_is_final(ticks: Seq<Tick>)
    ensures
        disconnects(DriverState::Stopped, ticks) == 0,
        state_after(DriverState::Stopped, ticks) == DriverState::Stopped,
    decreases ticks.len(),
{
    if ticks.len() > 0 {
        lemma_stopped_is_final(ticks.skip(1));
    }
}

/// Over any run of drains from a live state, the endpoints are disconnected
/// exactly once if the stream ends somewhere in the run and never otherwise,
/// and the driver is stopped afterwards exactly when the stream has ended.
pub proof fn lemma_disconnect_exactly_once(state: DriverState, ticks: Seq<Tick>)
    requires
        state != DriverState::Stopped,
    ensures
        disconnects(state, ticks) <= 1,
        disconnects(state, ticks) == 1 <==> exists|i: int| 0 <= i < ticks.len() && is_end(ticks[i]),
        state_after(state, ticks) == DriverState::Stopped <==> exists|i: int|
            0 <= i < ticks.len() && is_end(ticks[i]),
    decreases ticks.len(),
{
    if ticks.len() > 0 {
        let rest = ticks.skip(1);
        let next = transition(state, ticks[0]).0;
        if is_end(ticks[0]) {
            lemma_stopped_is_final(rest);
        } else {
            lemma_disconnect_exactly_once(next, rest);
            if exists|i: int| 0 <= i < ticks.len() && is_end(ticks[i]) {
                let i = choose|i: int| 0 <= i < ticks.len() && is_end(ticks[i]);
                assert(is_end(rest[i - 1]));
            }
            if exists|j: int| 0 <= j < rest.len() && is_end(rest[j]) {
                let j = choose|j: int| 0 <= j < rest.len() && is_end(rest[j]);
                assert(is_end(ticks[j + 1]));
            }
        }
    }
}

} // verus!
