//! The life of one connection, as a state machine, and the end of the
//! listeners.
//!
//! A connection is served until it finishes or until its maximum lifetime
//! has passed; then it is asked to shut down gracefully and given a grace
//! period; when that has passed too, it is closed. Waiting and serving are
//! the caller's: the machine is told what happened and says what to do next.

use vstd::prelude::*;
use crate::config::ServerConnectionConfiguration;
use crate::connection::ConnectionGuard;
use crate::request::{HttpRequest, RequestHead, RequestIDFactory};
use crate::time::TimeSpan;

verus! {

/// Where a connection is in its life.
#[derive(Clone, Copy, Debug, PartialEq, Eq, Structural)]
pub enum ConnectionPhase {
    /// The connection is being served; `timeouts_seen` of its time limits
    /// have passed.
    Serving { timeouts_seen: usize },
    /// The connection is closed.
    Closed,
}

/// What happened while a connection was being served.
#[derive(Clone, Copy, Debug, PartialEq, Eq, Structural)]
pub enum ConnectionEvent {
    /// Serving came to an end, with or without an error.
    Finished,
    /// The time limit passed before serving came to an end.
    TimedOut,
}

/// What to do with a connection next.
#[derive(Clone, Copy, Debug, PartialEq, Eq, Structural)]
pub enum ConnectionAction {
    /// Serve the connection for at most `timeout`.
    Serve { timeout: TimeSpan },
    /// Ask the connection to shut down gracefully, then go on serving it for
    /// at most `timeout`.
    ShutdownGracefully { timeout: TimeSpan },
    /// Close the connection.
    Close,
}

/// The phase and the action at the start of a connection with the given
/// time limits.
pub open spec fn spec_start(durations: Seq<TimeSpan>) -> (ConnectionPhase, ConnectionAction) {
    if durations.len() == 0 {
        (ConnectionPhase::Closed, ConnectionAction::Close)
    } else {
        (
            ConnectionPhase::Serving { timeouts_seen: 0 },
            ConnectionAction::Serve { timeout: durations[0] },
        )
    }
}

/// The phase and the action after `event` happened in `phase`.
pub open spec fn spec_step(
    durations: Seq<TimeSpan>,
    phase: ConnectionPhase,
    event: ConnectionEvent,
) -> (ConnectionPhase, ConnectionAction) {
    match phase {
        ConnectionPhase::Closed => (ConnectionPhase::Closed, ConnectionAction::Close),
        ConnectionPhase::Serving { timeouts_seen } => match event {
            ConnectionEvent::Finished => (ConnectionPhase::Closed, ConnectionAction::Close),
            ConnectionEvent::TimedOut => if timeouts_seen + 1 < durations.len() {
                (
                    ConnectionPhase::Serving { timeouts_seen: (timeouts_seen + 1) as usize },
                    ConnectionAction::ShutdownGracefully { timeout: durations[timeouts_seen + 1] },
                )
            } else {
                (ConnectionPhase::Closed, ConnectionAction::Close)
            },
        },
    }
}

/// The phase after a sequence of events, from the start of the connection.
pub open spec fn spec_run(durations: Seq<TimeSpan>, events: Seq<ConnectionEvent>) -> ConnectionPhase
    decreases events.len(),
{
    if events.len() == 0 {
        spec_start(durations).0
    } else {
        spec_step(durations, spec_run(durations, events.drop_last()), events.last()).0
    }
}

/// The time that has passed in a phase at the least: the sum of the time
/// limits that have passed.
pub open spec fn spec_time_served(durations: Seq<TimeSpan>, timeouts_seen: int) -> int
    decreases timeouts_seen,
{
    if timeouts_seen <= 0 || timeouts_seen > durations.len() {
        0
    } else {
        spec_time_served(durations, timeouts_seen - 1) + durations[timeouts_seen - 1].nanos
    }
}

/// What serves the connections: the handler of their requests, the source of
/// request identities, and the time limits of a connection.
pub struct ConnectionHandler<H> {
    request_handler: H,
    request_id_factory: RequestIDFactory,
    connection_timeout_durations: Vec<TimeSpan>,
}

impl<H> ConnectionHandler<H> {
    /// The handler of the requests.
    pub closed spec fn spec_request_handler(&self) -> H {
        self.request_handler
    }

    /// The time limits of a connection: first its maximum lifetime, then the
    /// grace period for shutting down.
    pub closed spec fn durations(&self) -> Seq<TimeSpan> {
        self.connection_timeout_durations@
    }

    pub fn new(
        request_handler: H,
        request_id_factory: RequestIDFactory,
        connection_configuration: &ServerConnectionConfiguration,
    ) -> (handler: Self)
        ensures
            handler.spec_request_handler() == request_handler,
            handler.durations() == seq![
                connection_configuration.max_lifetime,
                connection_configuration.graceful_shutdown_timeout,
            ],
    {
        let mut connection_timeout_durations: Vec<TimeSpan> = Vec::new();
        connection_timeout_durations.push(connection_configuration.max_lifetime);
        connection_timeout_durations.push(connection_configuration.graceful_shutdown_timeout);
        let handler = Self { request_handler, request_id_factory, connection_timeout_durations };
        assert(handler.durations() =~= seq![
            connection_configuration.max_lifetime,
            connection_configuration.graceful_shutdown_timeout,
        ]);
        handler
    }

    /// The handler of the requests.
    pub fn request_handler(&self) -> (request_handler: &H)
        ensures
            *request_handler == self.spec_request_handler(),
    {
        &self.request_handler
    }

    /// Takes in a request on a connection: counts it on the connection,
    /// gives it an identity, and packages it with the connection's identity.
    pub fn begin_request(&self, connection: &ConnectionGuard, head: RequestHead) -> (request:
        HttpRequest)
        ensures
            request.connection_id == connection.spec_id(),
            request.head == head,
    {
        connection.increment_num_requests();
        let request_id = self.request_id_factory.new_request_id();
        HttpRequest::new(connection.id(), request_id, head)
    }

    /// The phase and the first action of a new connection: serve it for at
    /// most its maximum lifetime.
    pub fn start_connection(&self) -> (first: (ConnectionPhase, ConnectionAction))
        ensures
            first == spec_start(self.durations()),
    {
        if self.connection_timeout_durations.len() == 0 {
            (ConnectionPhase::Closed, ConnectionAction::Close)
        } else {
            (
                ConnectionPhase::Serving { timeouts_seen: 0 },
                ConnectionAction::Serve { timeout: self.connection_timeout_durations[0] },
            )
        }
    }

    /// The next phase and action of a connection in `phase` to which `event`
    /// happened: a connection that finished is closed; one whose maximum
    /// lifetime has passed is asked to shut down gracefully and served for the
    /// grace period; one whose grace period has passed too is closed.
    pub fn next_step(&self, phase: ConnectionPhase, event: ConnectionEvent) -> (next: (
        ConnectionPhase,
        ConnectionAction,
    ))
        ensures
            next == spec_step(self.durations(), phase, event),
    {
        match phase {
            ConnectionPhase::Closed => (ConnectionPhase::Closed, ConnectionAction::Close),
            ConnectionPhase::Serving { timeouts_seen } => match event {
                ConnectionEvent::Finished => (ConnectionPhase::Closed, ConnectionAction::Close),
                ConnectionEvent::TimedOut => {
                    if timeouts_seen < self.connection_timeout_durations.len()
                        && timeouts_seen + 1 < self.connection_timeout_durations.len() {
                        (
                            ConnectionPhase::Serving { timeouts_seen: timeouts_seen + 1 },
                            ConnectionAction::ShutdownGracefully {
                                timeout: self.connection_timeout_durations[timeouts_seen + 1],
                            },
                        )
                    } else {
                        (ConnectionPhase::Closed, ConnectionAction::Close)
                    }
                },
            },
        }
    }
}

/// Why the listeners came to an end.
#[derive(Clone, Debug)]
pub enum ListenerExit {
    /// There was no listener to wait for.
    NoListener,
    /// A listener's task could not be joined.
    JoinFailed { message: String },
    /// A listener failed.
    Failed { message: String },
    /// A listener returned without an error, which it never should.
    Returned,
}

/// The error with which the server ends.
#[derive(Clone, Debug)]
pub enum ServerError {
    NoListener,
    JoinFailed { message: String },
    ListenerFailed { message: String },
    ListenerReturned,
}

/// The error with which the server ends when its first listener has come to
/// an end: the end of any listener is an error, also where the listener
/// itself reported none.
pub fn server_exit_error(exit: ListenerExit) -> (error: ServerError)
    ensures
        exit is NoListener <==> error is NoListener,
        exit is Returned <==> error is ListenerReturned,
        exit matches ListenerExit::JoinFailed { message } ==> error
            == (ServerError::JoinFailed { message }),
        exit matches ListenerExit::Failed { message } ==> error
            == (ServerError::ListenerFailed { message }),
{
    match exit {
        ListenerExit::NoListener => ServerError::NoListener,
        ListenerExit::JoinFailed { message } => ServerError::JoinFailed { message },
        ListenerExit::Failed { message } => ServerError::ListenerFailed { message },
        ListenerExit::Returned => ServerError::ListenerReturned,
    }
}

/// Every event that is a time-out.
pub open spec fn all_timeouts(events: Seq<ConnectionEvent>) -> bool {
    forall|i: int| 0 <= i < events.len() ==> #[trigger] events[i] == ConnectionEvent::TimedOut
}

/// A connection that never finishes by itself is served through each of its
/// time limits in turn and is closed when the last has passed.
pub proof fn lemma_timeouts_close_connection(
    durations: Seq<TimeSpan>,
    events: Seq<ConnectionEvent>,
)
    requires
        all_timeouts(events),
        durations.len() <= usize::MAX,
    ensures
        events.len() < durations.len() ==> spec_run(durations, events) == (
        ConnectionPhase::Serving { timeouts_seen: events.len() as usize }),
        events.len() >= durations.len() ==> spec_run(durations, events) == ConnectionPhase::Closed,
    decreases events.len(),
{
    if events.len() > 0 {
        assert(all_timeouts(events.drop_last()));
        assert(events.last() == ConnectionEvent::TimedOut);
        lemma_timeouts_close_connection(durations, events.drop_last());
    }
}

/// A connection is closed once serving has finished, and a closed connection
/// stays closed.
pub proof fn lemma_finished_connection_is_closed(
    durations: Seq<TimeSpan>,
    events: Seq<ConnectionEvent>,
    index: int,
)
    requires
        0 <= index < events.len(),
        events[index] == ConnectionEvent::Finished,
    ensures
        spec_run(durations, events) == ConnectionPhase::Closed,
    decreases events.len(),
{
    if index < events.len() - 1 {
        lemma_finished_connection_is_closed(durations, events.drop_last(), index);
    }
}

/// With a maximum lifetime and a grace period, a connection is asked to shut
/// down gracefully when the maximum lifetime has passed, and is closed when
/// the grace period has passed too: it is open for no longer than the two
/// together.
pub proof fn lemma_two_phase_shutdown(max_lifetime: TimeSpan, grace: TimeSpan)
    ensures
        spec_start(seq![max_lifetime, grace]) == (
            ConnectionPhase::Serving { timeouts_seen: 0 },
            ConnectionAction::Serve { timeout: max_lifetime },
        ),
        spec_step(
            seq![max_lifetime, grace],
            ConnectionPhase::Serving { timeouts_seen: 0 },
            ConnectionEvent::TimedOut,
        ) == (
            ConnectionPhase::Serving { timeouts_seen: 1 },
            ConnectionAction::ShutdownGracefully { timeout: grace },
        ),
        spec_step(
            seq![max_lifetime, grace],
            ConnectionPhase::Serving { timeouts_seen: 1 },
            ConnectionEvent::TimedOut,
        ) == (ConnectionPhase::Closed, ConnectionAction::Close),
        spec_time_served(seq![max_lifetime, grace], 2) == max_lifetime.nanos + grace.nanos,
{
    let durations = seq![max_lifetime, grace];
    assert(spec_time_served(durations, 0) == 0);
    assert(spec_time_served(durations, 1) == max_lifetime.nanos);
    assert(spec_time_served(durations, 2) == max_lifetime.nanos + grace.nanos);
}

} // verus!
