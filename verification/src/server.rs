//! The server's settings, and what its accept loop does on each thing that
//! happens to it.

use vstd::prelude::*;
use vstd::string::StringExecFns;

verus! {

/// What a server is started with: where it listens and which file it
/// serves. Neither changes afterwards.
#[derive(Debug)]
pub struct LineServer {
    endpoint: String,
    filename: String,
}

impl LineServer {
    /// The address that the server listens on.
    pub closed spec fn endpoint_text(&self) -> Seq<char> {
        self.endpoint@
    }

    /// The path of the file that the server serves.
    pub closed spec fn filename_text(&self) -> Seq<char> {
        self.filename@
    }

    /// The settings of a server that listens on `endpoint` and serves the
    /// lines of the file `filename`.
    pub fn new(endpoint: &str, filename: &str) -> (server: LineServer)
        ensures
            server.endpoint_text() == endpoint@,
            server.filename_text() == filename@,
    {
        LineServer { endpoint: String::from_str(endpoint), filename: String::from_str(filename) }
    }

    /// The address that the server listens on.
    pub fn endpoint(&self) -> (endpoint: &str)
        ensures
            endpoint@ == self.endpoint_text(),
    {
        self.endpoint.as_str()
    }

    /// The path of the file that the server serves.
    pub fn filename(&self) -> (filename: &str)
        ensures
            filename@ == self.filename_text(),
    {
        self.filename.as_str()
    }
}

/// Why a server did not start.
#[derive(Debug, Clone, Copy, PartialEq, Eq, Structural)]
pub enum StartupError {
    /// The address could not be bound.
    BindFailure,
}

/// Where the accept loop stands.
#[derive(Debug, Clone, Copy, PartialEq, Eq, Structural)]
pub enum AcceptState {
    /// The address is not bound yet.
    Binding,
    /// Connections are accepted.
    Accepting,
    /// No connection is accepted any more; the handlers are awaited.
    Draining,
    /// The loop has returned with success.
    Stopped,
    /// The loop has returned because the address could not be bound.
    Failed,
}

/// What can happen to the accept loop.
#[derive(Debug, Clone, Copy, PartialEq, Eq, Structural)]
pub enum AcceptEvent {
    /// The address was bound.
    Bound,
    /// The address could not be bound.
    BindFailed,
    /// A client connected.
    ConnectionArrived,
    /// The shutdown signal was raised.
    Cancelled,
    /// Every handler that was spawned has finished.
    HandlersFinished,
}

/// What the accept loop is to do after an event.
#[derive(Debug, Clone, Copy, PartialEq, Eq, Structural)]
pub enum AcceptAction {
    /// Wait for the shutdown signal or for a client, whichever comes first.
    Listen,
    /// Return the failure to bind, at once.
    Fail,
    /// Spawn a handler for the connection, add it to the task set, and
    /// wait again.
    SpawnHandler,
    /// Accept nothing more, close the task set to new entries, and wait
    /// until every handler has finished.
    CloseAndWait,
    /// Return success.
    Finish,
    /// Do nothing: the event does not count where the loop stands.
    Nothing,
}

/// What the accept loop in state `state` does on `event`, and where it
/// stands afterwards.
pub open spec fn accept_transition(state: AcceptState, event: AcceptEvent) -> (
    AcceptState,
    AcceptAction,
) {
    match (state, event) {
        (AcceptState::Binding, AcceptEvent::Bound) => (AcceptState::Accepting, AcceptAction::Listen),
        (AcceptState::Binding, AcceptEvent::BindFailed) => (
            AcceptState::Failed,
            AcceptAction::Fail,
        ),
        (AcceptState::Accepting, AcceptEvent::ConnectionArrived) => (
            AcceptState::Accepting,
            AcceptAction::SpawnHandler,
        ),
        (AcceptState::Accepting, AcceptEvent::Cancelled) => (
            AcceptState::Draining,
            AcceptAction::CloseAndWait,
        ),
        (AcceptState::Draining, AcceptEvent::HandlersFinished) => (
            AcceptState::Stopped,
            AcceptAction::Finish,
        ),
        _ => (state, AcceptAction::Nothing),
    }
}

/// What a run returns once its loop stands in `state`, if it has returned:
/// success, or the failure to bind.
pub open spec fn run_result(state: AcceptState) -> Option<Result<(), StartupError>> {
    match state {
        AcceptState::Stopped => Some(Ok(())),
        AcceptState::Failed => Some(Err(StartupError::BindFailure)),
        _ => None,
    }
}

/// Where an accept loop that starts in `state` stands after `events`, taken
/// in the order in which they came.
pub open spec fn accept_state_after(state: AcceptState, events: Seq<AcceptEvent>) -> AcceptState
    decreases events.len(),
{
    if events.len() == 0 {
        state
    } else {
        accept_state_after(accept_transition(state, events.first()).0, events.drop_first())
    }
}

/// How many handlers an accept loop that starts in `state` spawns while it
/// takes in `events`.
pub open spec fn spawned(state: AcceptState, events: Seq<AcceptEvent>) -> nat
    decreases events.len(),
{
    if events.len() == 0 {
        0
    } else {
        let (next, action) = accept_transition(state, events.first());
        let one: nat = if action == AcceptAction::SpawnHandler {
            1
        } else {
            0
        };
        one + spawned(next, events.drop_first())
    }
}

/// The accept loop takes events in the order in which they came.
pub proof fn accept_events_are_taken_in_order(
    state: AcceptState,
    earlier: Seq<AcceptEvent>,
    later: Seq<AcceptEvent>,
)
    ensures
        accept_state_after(state, earlier + later) == accept_state_after(
            accept_state_after(state, earlier),
            later,
        ),
        spawned(state, earlier + later) == spawned(state, earlier) + spawned(
            accept_state_after(state, earlier),
            later,
        ),
    decreases earlier.len(),
{
    if earlier.len() == 0 {
        assert(earlier + later =~= later);
    } else {
        assert((earlier + later).first() == earlier.first());
        assert((earlier + later).drop_first() =~= earlier.drop_first() + later);
        accept_events_are_taken_in_order(
            accept_transition(state, earlier.first()).0,
            earlier.drop_first(),
            later,
        );
    }
}

/// A loop that accepts no more never accepts again: from the states
/// `Draining`, `Stopped` and `Failed` no handler is spawned, whatever
/// happens, and the loop never goes back to `Accepting`.
pub proof fn closed_loop_spawns_nothing(state: AcceptState, events: Seq<AcceptEvent>)
    requires
        state == AcceptState::Draining || state == AcceptState::Stopped || state
            == AcceptState::Failed,
    ensures
        spawned(state, events) == 0,
        accept_state_after(state, events) != AcceptState::Accepting,
        accept_state_after(state, events) != AcceptState::Binding,
    decreases events.len(),
{
    if events.len() > 0 {
        closed_loop_spawns_nothing(accept_transition(state, events.first()).0, events.drop_first());
    }
}

/// Once the shutdown signal has reached a loop whose address is bound, no
/// connection is accepted any more: the handlers spawned are those spawned
/// before the signal came.
pub proof fn nothing_is_accepted_after_the_signal(
    state: AcceptState,
    before: Seq<AcceptEvent>,
    after: Seq<AcceptEvent>,
)
    requires
        accept_state_after(state, before) != AcceptState::Binding,
    ensures
        spawned(state, before + seq![AcceptEvent::Cancelled] + after) == spawned(state, before),
        accept_state_after(state, before + seq![AcceptEvent::Cancelled] + after)
            != AcceptState::Accepting,
{
    let signal = seq![AcceptEvent::Cancelled];
    let then = signal + after;
    let reached = accept_state_after(state, before);
    assert(before + signal + after =~= before + then);
    accept_events_are_taken_in_order(state, before, then);
    assert(then.first() == AcceptEvent::Cancelled);
    assert(then.drop_first() =~= after);
    closed_loop_spawns_nothing(accept_transition(reached, AcceptEvent::Cancelled).0, after);
}

/// A failure to bind ends the run at once: nothing is accepted, and the
/// run returns that failure.
pub proof fn bind_failure_is_final(later: Seq<AcceptEvent>)
    ensures
        accept_transition(AcceptState::Binding, AcceptEvent::BindFailed) == (
            AcceptState::Failed,
            AcceptAction::Fail,
        ),
        accept_state_after(AcceptState::Binding, seq![AcceptEvent::BindFailed] + later)
            == AcceptState::Failed,
        spawned(AcceptState::Binding, seq![AcceptEvent::BindFailed] + later) == 0,
        run_result(AcceptState::Failed) == Some(
            Err::<(), StartupError>(StartupError::BindFailure),
        ),
{
    let first = seq![AcceptEvent::BindFailed];
    assert(first.drop_first() =~= Seq::<AcceptEvent>::empty());
    assert(accept_state_after(AcceptState::Failed, first.drop_first()) == AcceptState::Failed);
    assert(spawned(AcceptState::Failed, first.drop_first()) == 0);
    accept_events_are_taken_in_order(AcceptState::Binding, first, later);
    failed_loop_stays_failed(later);
    closed_loop_spawns_nothing(AcceptState::Failed, later);
}

/// A run that failed to bind stays failed.
pub proof fn failed_loop_stays_failed(events: Seq<AcceptEvent>)
    ensures
        accept_state_after(AcceptState::Failed, events) == AcceptState::Failed,
    decreases events.len(),
{
    if events.len() > 0 {
        failed_loop_stays_failed(events.drop_first());
    }
}

/// From `state`, the events at `signal` and `finished` are what a run needs
/// before it returns with success: the shutdown signal, unless the loop
/// took it before, and after it the news that every handler has finished.
pub open spec fn leads_to_return(
    state: AcceptState,
    events: Seq<AcceptEvent>,
    signal: int,
    finished: int,
) -> bool {
    &&& 0 <= finished < events.len()
    &&& events[finished] == AcceptEvent::HandlersFinished
    &&& state != AcceptState::Draining ==> 0 <= signal < finished && events[signal]
        == AcceptEvent::Cancelled
}

/// A run returns with success only after the shutdown signal, and after
/// that only once every handler that was spawned has finished: where the
/// loop has stopped, its events hold the signal and, later, the news that
/// the handlers have finished. The result gives the two places.
pub proof fn run_returns_after_its_handlers(state: AcceptState, events: Seq<AcceptEvent>) -> (at: (
    int,
    int,
))
    requires
        state != AcceptState::Stopped,
        accept_state_after(state, events) == AcceptState::Stopped,
    ensures
        leads_to_return(state, events, at.0, at.1),
    decreases events.len(),
{
    if events.len() == 0 {
        (0, 0)
    } else {
        let next = accept_transition(state, events.first()).0;
        if next == AcceptState::Stopped {
            (0, 0)
        } else {
            let rest = run_returns_after_its_handlers(next, events.drop_first());
            if state == AcceptState::Draining || next != AcceptState::Draining {
                (rest.0 + 1, rest.1 + 1)
            } else {
                (0, rest.1 + 1)
            }
        }
    }
}

/// The accept loop of one server run.
#[derive(Debug)]
pub struct AcceptLoop {
    state: AcceptState,
}

impl View for AcceptLoop {
    type V = AcceptState;

    closed spec fn view(&self) -> AcceptState {
        self.state
    }
}

impl AcceptLoop {
    /// The loop of a server that has not bound its address yet.
    pub fn new() -> (accept: AcceptLoop)
        ensures
            accept@ == AcceptState::Binding,
    {
        AcceptLoop { state: AcceptState::Binding }
    }

    /// Where the loop stands.
    pub fn state(&self) -> (state: AcceptState)
        ensures
            state == self@,
    {
        self.state
    }

    /// Takes in `event` and says what is to be done.
    pub fn handle(&mut self, event: AcceptEvent) -> (action: AcceptAction)
        ensures
            (final(self)@, action) == accept_transition(old(self)@, event),
    {
        match (self.state, event) {
            (AcceptState::Binding, AcceptEvent::Bound) => {
                self.state = AcceptState::Accepting;
                AcceptAction::Listen
            },
            (AcceptState::Binding, AcceptEvent::BindFailed) => {
                self.state = AcceptState::Failed;
                AcceptAction::Fail
            },
            (AcceptState::Accepting, AcceptEvent::ConnectionArrived) => AcceptAction::SpawnHandler,
            (AcceptState::Accepting, AcceptEvent::Cancelled) => {
                self.state = AcceptState::Draining;
                AcceptAction::CloseAndWait
            },
            (AcceptState::Draining, AcceptEvent::HandlersFinished) => {
                self.state = AcceptState::Stopped;
                AcceptAction::Finish
            },
            _ => AcceptAction::Nothing,
        }
    }

    /// What the run returns, if its loop has returned.
    pub fn outcome(&self) -> (outcome: Option<Result<(), StartupError>>)
        ensures
            outcome == run_result(self@),
    {
        match self.state {
            AcceptState::Stopped => Some(Ok(())),
            AcceptState::Failed => Some(Err(StartupError::BindFailure)),
            _ => None,
        }
    }
}

} // verus!
