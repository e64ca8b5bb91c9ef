use crate::error::Error;
use crate::message::Message;
use vstd::prelude::*;

verus! {

// ---------------------------------------------------------------------------
// The supervisor's retry policy.  The supervisor repeatedly constructs a
// session, drains it, and republishes what happened onto one bounded
// outward event channel; on failure it classifies the cause, cools down,
// and tries again — forever.  The decisions live here; the loop that
// performs them is driven outside the library.
// ---------------------------------------------------------------------------

/// How long a connect attempt may take before it is abandoned, in seconds.
pub const CONNECT_TIMEOUT_SECONDS: u64 = 75;

/// The long cooldown after an operator error — configuration or
/// credentials — in seconds.  Such failures are unlikely to self-resolve
/// quickly, and hammering the authentication path helps nobody.
pub const LONG_COOLDOWN_SECONDS: u64 = 300;

/// The short cooldown after a transient failure, in seconds.
pub const SHORT_COOLDOWN_SECONDS: u64 = 10;

/// The unconditional floor slept after every attempt, in seconds, so that
/// even the fast paths cannot spin tightly.
pub const RETRY_FLOOR_SECONDS: u64 = 5;

/// The capacity of the outward event channel.  A slow consumer applies
/// backpressure through it all the way into the supervisor loop.
pub const CHANNEL_CAPACITY: usize = 32;

/// The observable connection state, reported to the caller.  It does not
/// gate the supervisor's own logic.
#[derive(Debug, Copy, Clone, Eq, PartialEq)]
pub enum ConnectionState {
    /// An attempt is being made.
    Connecting,
    /// A session is live and joined to the room.
    Connected,
    /// The last session is gone; a new attempt will follow.
    Disconnected,
}

/// One event on the outward channel, consumed in emission order.
#[derive(Debug, Clone)]
pub enum StreamEvent {
    /// A connectivity transition.
    ConnectionState(ConnectionState),
    /// A failure, made visible to the caller before the state transition.
    Error(Error),
    /// A decoded bulletin.
    Message(Message),
}

/// How one connect attempt ended.
#[derive(Debug)]
pub enum ConnectOutcome {
    /// The session connected, authenticated and joined the room.
    Connected,
    /// The attempt failed with a classified error.
    Failed(Error),
    /// The attempt never resolved within the connect timeout.
    TimedOut,
}

/// The cooldown owed after a failed connect attempt: operator errors get
/// the long cooldown, anything else — including causes not explicitly
/// classified — the short one.
pub open spec fn cooldown_spec(e: Error) -> u64 {
    match e {
        Error::Configuration(_) => LONG_COOLDOWN_SECONDS,
        Error::Credentials(_) => LONG_COOLDOWN_SECONDS,
        _ => SHORT_COOLDOWN_SECONDS,
    }
}

/// What one resolved connect attempt publishes, and how long it then cools
/// down before the unconditional floor sleep.
pub struct AttemptPlan {
    /// The events to publish, in order.
    pub events: Vec<StreamEvent>,
    /// The cooldown to sleep after publishing, in seconds.
    pub cooldown_seconds: u64,
}

/// Decide what a resolved connect attempt publishes and how long it cools
/// down.  A success announces the connected state.  A failure makes the
/// error visible, then announces the disconnected state, then owes its
/// cooldown.  A bare timeout announces only the disconnected state — no
/// error event — and owes no cooldown beyond the floor.
pub fn plan_connect_outcome(outcome: ConnectOutcome) -> (r: AttemptPlan)
    ensures
        outcome is Connected ==> (r.events@ == seq![
            StreamEvent::ConnectionState(ConnectionState::Connected),
        ] && r.cooldown_seconds == 0),
        outcome matches ConnectOutcome::Failed(e) ==> (r.events@ == seq![
            StreamEvent::Error(e),
            StreamEvent::ConnectionState(ConnectionState::Disconnected),
        ] && r.cooldown_seconds == cooldown_spec(e)),
        outcome is TimedOut ==> (r.events@ == seq![
            StreamEvent::ConnectionState(ConnectionState::Disconnected),
        ] && r.cooldown_seconds == 0),
{
    match outcome {
        ConnectOutcome::Connected => {
            let mut events: Vec<StreamEvent> = Vec::new();
            events.push(StreamEvent::ConnectionState(ConnectionState::Connected));
            proof {
                assert(events@ =~= seq![
                    StreamEvent::ConnectionState(ConnectionState::Connected),
                ]);
            }
            AttemptPlan { events, cooldown_seconds: 0 }
        },
        ConnectOutcome::Failed(e) => {
            let cooldown_seconds = match &e {
                Error::Configuration(_) => LONG_COOLDOWN_SECONDS,
                Error::Credentials(_) => LONG_COOLDOWN_SECONDS,
                _ => SHORT_COOLDOWN_SECONDS,
            };
            let ghost ge = e;
            let mut events: Vec<StreamEvent> = Vec::new();
            events.push(StreamEvent::Error(e));
            events.push(StreamEvent::ConnectionState(ConnectionState::Disconnected));
            proof {
                assert(events@ =~= seq![
                    StreamEvent::Error(ge),
                    StreamEvent::ConnectionState(ConnectionState::Disconnected),
                ]);
            }
            AttemptPlan { events, cooldown_seconds }
        },
        ConnectOutcome::TimedOut => {
            let mut events: Vec<StreamEvent> = Vec::new();
            events.push(StreamEvent::ConnectionState(ConnectionState::Disconnected));
            proof {
                assert(events@ =~= seq![
                    StreamEvent::ConnectionState(ConnectionState::Disconnected),
                ]);
            }
            AttemptPlan { events, cooldown_seconds: 0 }
        },
    }
}

/// Decide what the supervisor publishes when an attempt begins: the
/// connecting transition, before anything else of the attempt.
pub fn plan_attempt_start() -> (r: Vec<StreamEvent>)
    ensures
        r@ == seq![StreamEvent::ConnectionState(ConnectionState::Connecting)],
{
    let mut events: Vec<StreamEvent> = Vec::new();
    events.push(StreamEvent::ConnectionState(ConnectionState::Connecting));
    proof {
        assert(events@ =~= seq![StreamEvent::ConnectionState(ConnectionState::Connecting)]);
    }
    events
}

/// Decide what the supervisor publishes when a live session fails while
/// being drained: the error, then the disconnect transition, in that
/// order.  The session is then torn down without waiting and a new attempt
/// begins after the floor sleep.
pub fn plan_drain_failure(e: Error) -> (r: Vec<StreamEvent>)
    ensures
        r@ == seq![
            StreamEvent::Error(e),
            StreamEvent::ConnectionState(ConnectionState::Disconnected),
        ],
{
    let ghost ge = e;
    let mut events: Vec<StreamEvent> = Vec::new();
    events.push(StreamEvent::Error(e));
    events.push(StreamEvent::ConnectionState(ConnectionState::Disconnected));
    proof {
        assert(events@ =~= seq![
            StreamEvent::Error(ge),
            StreamEvent::ConnectionState(ConnectionState::Disconnected),
        ]);
    }
    events
}

} // verus!
