//! Worker that subscribes to komorebi's notifications and forwards
//! [`WorldState`] snapshots.
//!
//! For every notification komorebi connects to the subscriber's socket, writes
//! the full state and closes the connection. A connection that ends is
//! therefore no sign that the subscription has died.
//!
//! komorebi keeps its list of subscribers in memory only, so after a restart
//! the subscription is forgotten. A watchdog probes komorebi's own socket, and
//! when komorebi is back after having been away it asks the worker to tear its
//! session down and to subscribe anew. Such an end of a session is a healthy
//! one: the worker subscribes again at once. After any other end it waits, for
//! longer the more often this happens in a row.
//!
//! What is done on the sockets and what comes of it lies outside. The functions
//! here take what has happened and say what is next.

use vstd::prelude::*;

use crate::komorebi::state;
use crate::komorebi::state::WorldState;
use crate::komorebi::types;
use crate::model;
use crate::paths;

verus! {

/// Initial delay, in milliseconds, between reconnect attempts when the
/// subscription breaks.
pub const BACKOFF_MIN_MS: u64 = 500;

/// Upper bound on the reconnect delay, in milliseconds.
pub const BACKOFF_MAX_MS: u64 = 10_000;

/// A session that stayed up at least this long, in milliseconds, is considered
/// healthy: when it ends, the reconnect delay is reset to its minimum.
pub const HEALTHY_SESSION_MS: u64 = 5_000;

/// How often, in milliseconds, the watchdog probes komorebi's main socket.
pub const WATCHDOG_INTERVAL_MS: u64 = 500;

/// How long, in milliseconds, a connection may stall while it is read.
pub const READ_TIMEOUT_MS: u64 = 250;

// ---------------------------------------------------------------------------
// Sockets
// ---------------------------------------------------------------------------

/// Stable subscriber-socket name. komorebi keys its subscribers by name, so
/// subscribing again replaces the old entry.
pub fn subscription_name() -> (name: String)
    ensures
        name@ == "komorebi-tray-grid.sock"@,
{
    "komorebi-tray-grid.sock".to_owned()
}

/// The path of a socket in komorebi's directory, given the directory for local
/// application data.
pub open spec fn socket_path(local: Option<Seq<char>>, name: Seq<char>) -> Option<Seq<char>> {
    match local {
        Some(dir) => Some(paths::joined(paths::joined(dir, "komorebi"@), name)),
        None => None,
    }
}

/// Full path of a subscriber socket.
pub fn subscriber_socket_path(local: Option<&str>, name: &str) -> (path: Option<String>)
    requires
        paths::is_plain_name(name@),
    ensures
        model::opt_view(path) == socket_path(model::opt_view(local), name@),
{
    match local {
        Some(dir) => {
            proof {
                reveal_strlit("komorebi");
            }
            Some(paths::join(paths::join(dir, "komorebi").as_str(), name))
        },
        None => None,
    }
}

/// Path to komorebi's main control socket.
pub fn komorebi_socket_path(local: Option<&str>) -> (path: Option<String>)
    ensures
        model::opt_view(path) == socket_path(model::opt_view(local), "komorebi.sock"@),
{
    proof {
        reveal_strlit("komorebi.sock");
    }
    subscriber_socket_path(local, "komorebi.sock")
}

// ---------------------------------------------------------------------------
// Fetching the state
// ---------------------------------------------------------------------------

/// What came of asking komorebi for its state.
#[derive(Debug)]
pub enum QueryReply {
    /// komorebi did not answer.
    Unreachable,
    /// The answer is not of the right form.
    Malformed,
    /// The answer.
    State(types::State),
}

/// Why the state could not be fetched.
#[derive(Debug, Copy, Clone, PartialEq, Eq, Structural)]
pub enum FetchError {
    /// komorebi did not answer.
    Query,
    /// The answer is not of the right form.
    Parse,
}

/// Projects komorebi's answer to the query for its state.
pub fn fetch_state(reply: QueryReply) -> (world: Result<WorldState, FetchError>)
    ensures
        match reply {
            QueryReply::Unreachable => world matches Err(FetchError::Query),
            QueryReply::Malformed => world matches Err(FetchError::Parse),
            QueryReply::State(raw) => world matches Ok(w) && w@ == state::world_of(raw),
        },
{
    match reply {
        QueryReply::Unreachable => Err(FetchError::Query),
        QueryReply::Malformed => Err(FetchError::Parse),
        QueryReply::State(raw) => Ok(WorldState::from(&raw)),
    }
}

/// What to send to the consumer after the state was fetched: the state, or
/// nothing where that has failed. A failure is not fatal.
pub fn push_fresh_state(fetched: Result<WorldState, FetchError>) -> (send: Option<WorldState>)
    ensures
        match fetched {
            Ok(world) => send == Some(world),
            Err(_) => send is None,
        },
{
    match fetched {
        Ok(world) => Some(world),
        Err(_) => None,
    }
}

/// Whether the consumer is still there after a fresh state was pushed.
/// `received` tells what came of sending it, if there was one to send.
pub fn consumer_is_there(received: Option<bool>) -> (there: bool)
    ensures
        there == (received != Some(false)),
{
    match received {
        Some(received) => received,
        None => true,
    }
}

// ---------------------------------------------------------------------------
// One session
// ---------------------------------------------------------------------------

/// Why a session has ended without an error.
#[derive(Debug, Copy, Clone, PartialEq, Eq, Structural)]
pub enum SessionEnd {
    /// The consumer is gone.
    ReceiverGone,
    /// The watchdog has asked for a new subscription.
    WatchdogTriggered,
}

/// What a connection delivered.
#[derive(Debug)]
pub enum Notification {
    /// A notification with the full state.
    State(types::State),
    /// Nothing: a probe, or the watchdog's wake-up.
    Empty,
    /// Something that is not of the right form.
    Malformed,
}

/// What has happened in a session.
#[derive(Debug)]
pub enum SessionEvent {
    /// The subscription was made, or has failed.
    Subscribed { succeeded: bool },
    /// A connection was accepted. `restart` tells whether the watchdog had
    /// asked for a new subscription, a request that is taken back by this.
    Accepted { restart: bool },
    /// No connection can be accepted any more.
    AcceptFailed,
    /// The connection was read.
    Read(Notification),
    /// A fresh state was pushed; tells whether the consumer is still there.
    Pushed { there: bool },
    /// A state was sent; tells whether the consumer has received it.
    Sent { received: bool },
}

/// What is done next in a session.
#[derive(Debug)]
pub enum SessionStep {
    /// Accept the next connection.
    Accept,
    /// Read the accepted connection.
    Read,
    /// Send a state to the consumer.
    Send(WorldState),
    /// Fetch a fresh state and push it.
    PushFresh,
    /// The session is over.
    End(SessionEnd),
    /// The session has failed.
    Fail,
}

/// View of a [`SessionStep`].
pub ghost enum SessionStepView {
    Accept,
    Read,
    Send(state::WorldView),
    PushFresh,
    End(SessionEnd),
    Fail,
}

impl View for SessionStep {
    type V = SessionStepView;

    open spec fn view(&self) -> SessionStepView {
        match self {
            SessionStep::Accept => SessionStepView::Accept,
            SessionStep::Read => SessionStepView::Read,
            SessionStep::Send(world) => SessionStepView::Send(world@),
            SessionStep::PushFresh => SessionStepView::PushFresh,
            SessionStep::End(end) => SessionStepView::End(*end),
            SessionStep::Fail => SessionStepView::Fail,
        }
    }
}

/// What follows an event in a session.
pub open spec fn session_step(event: SessionEvent) -> SessionStepView {
    match event {
        SessionEvent::Subscribed { succeeded } => if succeeded {
            SessionStepView::Accept
        } else {
            SessionStepView::Fail
        },
        SessionEvent::Accepted { restart } => if restart {
            SessionStepView::End(SessionEnd::WatchdogTriggered)
        } else {
            SessionStepView::Read
        },
        SessionEvent::AcceptFailed => SessionStepView::Fail,
        SessionEvent::Read(Notification::State(raw)) => SessionStepView::Send(
            state::world_of(raw),
        ),
        SessionEvent::Read(Notification::Empty) => SessionStepView::Accept,
        SessionEvent::Read(Notification::Malformed) => SessionStepView::PushFresh,
        SessionEvent::Pushed { there } => if there {
            SessionStepView::Accept
        } else {
            SessionStepView::End(SessionEnd::ReceiverGone)
        },
        SessionEvent::Sent { received } => if received {
            SessionStepView::Accept
        } else {
            SessionStepView::End(SessionEnd::ReceiverGone)
        },
    }
}

/// Decides what follows an event in a session: after the subscription,
/// connections are accepted one after the other, and the state that each one
/// delivers is forwarded.
pub fn subscribe_loop(event: SessionEvent) -> (step: SessionStep)
    ensures
        step@ == session_step(event),
{
    match event {
        SessionEvent::Subscribed { succeeded } => if succeeded {
            SessionStep::Accept
        } else {
            SessionStep::Fail
        },
        SessionEvent::Accepted { restart } => if restart {
            SessionStep::End(SessionEnd::WatchdogTriggered)
        } else {
            SessionStep::Read
        },
        SessionEvent::AcceptFailed => SessionStep::Fail,
        SessionEvent::Read(notification) => match notification {
            Notification::State(raw) => SessionStep::Send(WorldState::from(&raw)),
            Notification::Empty => SessionStep::Accept,
            Notification::Malformed => SessionStep::PushFresh,
        },
        SessionEvent::Pushed { there } => if there {
            SessionStep::Accept
        } else {
            SessionStep::End(SessionEnd::ReceiverGone)
        },
        SessionEvent::Sent { received } => if received {
            SessionStep::Accept
        } else {
            SessionStep::End(SessionEnd::ReceiverGone)
        },
    }
}

// ---------------------------------------------------------------------------
// The worker
// ---------------------------------------------------------------------------

/// What has happened in the worker.
#[derive(Debug, Copy, Clone, PartialEq, Eq, Structural)]
pub enum WorkerEvent {
    /// The worker was started.
    Started,
    /// A fresh state was pushed; tells whether the consumer is still there.
    Pushed { there: bool },
    /// A session has ended without an error.
    SessionEnded(SessionEnd),
    /// A session has failed after this many milliseconds.
    SessionFailed { session_ms: u64 },
    /// The worker has slept for as long as it was told to.
    Slept,
}

/// What the worker does next.
#[derive(Debug, Copy, Clone, PartialEq, Eq, Structural)]
pub enum WorkerStep {
    /// Fetch a fresh state and push it.
    PushFresh,
    /// Start a session by subscribing.
    Subscribe,
    /// Sleep for this many milliseconds.
    Sleep { ms: u64 },
    /// Exit.
    Exit,
}

/// The state of the worker between its sessions.
#[derive(Debug)]
pub struct Worker {
    backoff_ms: u64,
}

impl View for Worker {
    type V = u64;

    closed spec fn view(&self) -> u64 {
        self.backoff_ms
    }
}

/// Twice a delay, up to the upper bound.
pub open spec fn next_backoff(backoff: u64) -> u64 {
    if backoff * 2 <= BACKOFF_MAX_MS {
        (backoff * 2) as u64
    } else {
        BACKOFF_MAX_MS
    }
}

/// The delay after an event, and what the worker does next.
pub open spec fn worker_step(backoff: u64, event: WorkerEvent) -> (u64, WorkerStep) {
    match event {
        WorkerEvent::Started => (backoff, WorkerStep::PushFresh),
        WorkerEvent::Pushed { there } => if there {
            (backoff, WorkerStep::Subscribe)
        } else {
            (backoff, WorkerStep::Exit)
        },
        WorkerEvent::SessionEnded(SessionEnd::ReceiverGone) => (backoff, WorkerStep::Exit),
        WorkerEvent::SessionEnded(SessionEnd::WatchdogTriggered) => (
            BACKOFF_MIN_MS,
            WorkerStep::PushFresh,
        ),
        WorkerEvent::SessionFailed { session_ms } => {
            let ms = if session_ms >= HEALTHY_SESSION_MS {
                BACKOFF_MIN_MS
            } else {
                backoff
            };
            (next_backoff(ms), WorkerStep::Sleep { ms })
        },
        WorkerEvent::Slept => (backoff, WorkerStep::PushFresh),
    }
}

impl Worker {
    /// A worker that has not failed yet.
    pub fn new() -> (worker: Worker)
        ensures
            worker@ == BACKOFF_MIN_MS,
    {
        Worker { backoff_ms: BACKOFF_MIN_MS }
    }
}

/// Decides what follows an event in the worker.
///
/// The worker pushes a fresh state, runs a session, and does so over and over
/// until the consumer is gone. Where a session has failed, it sleeps first;
/// where the watchdog has ended it, it does not.
pub fn run_worker(worker: &mut Worker, event: WorkerEvent) -> (step: WorkerStep)
    ensures
        (final(worker)@, step) == worker_step(old(worker)@, event),
{
    match event {
        WorkerEvent::Started => WorkerStep::PushFresh,
        WorkerEvent::Pushed { there } => if there {
            WorkerStep::Subscribe
        } else {
            WorkerStep::Exit
        },
        WorkerEvent::SessionEnded(SessionEnd::ReceiverGone) => WorkerStep::Exit,
        WorkerEvent::SessionEnded(SessionEnd::WatchdogTriggered) => {
            worker.backoff_ms = BACKOFF_MIN_MS;
            WorkerStep::PushFresh
        },
        WorkerEvent::SessionFailed { session_ms } => {
            if session_ms >= HEALTHY_SESSION_MS {
                worker.backoff_ms = BACKOFF_MIN_MS;
            }
            let ms: u64 = worker.backoff_ms;
            worker.backoff_ms = if ms <= BACKOFF_MAX_MS / 2 {
                ms * 2
            } else {
                BACKOFF_MAX_MS
            };
            WorkerStep::Sleep { ms }
        },
        WorkerEvent::Slept => WorkerStep::PushFresh,
    }
}

// ---------------------------------------------------------------------------
// The watchdog
// ---------------------------------------------------------------------------

/// What the watchdog learns.
#[derive(Debug, Copy, Clone, PartialEq, Eq, Structural)]
pub enum WatchdogEvent {
    /// Whether the system is shutting down.
    Checked { shutting_down: bool },
    /// The watchdog has waited for [`WATCHDOG_INTERVAL_MS`], or its session
    /// has ended meanwhile.
    Waited { stopped: bool },
    /// komorebi's socket was probed.
    Probed { alive: bool },
}

/// What the watchdog does next.
#[derive(Debug, Copy, Clone, PartialEq, Eq, Structural)]
pub enum WatchdogStep {
    /// Check whether the system is shutting down.
    Check,
    /// Wait for the interval, or until the session ends.
    Wait,
    /// Probe komorebi's socket.
    Probe,
    /// Ask the worker for a new subscription and wake it up by connecting to
    /// its socket; then check whether the system is shutting down.
    TriggerRestart,
    /// Stop.
    Stop,
}

/// The state of the watchdog.
#[derive(Debug)]
pub struct Watchdog {
    was_alive: bool,
}

impl View for Watchdog {
    type V = bool;

    closed spec fn view(&self) -> bool {
        self.was_alive
    }
}

/// Whether komorebi was alive at the last probe, after an event, and what the
/// watchdog does next.
pub open spec fn watchdog_step(was_alive: bool, event: WatchdogEvent) -> (bool, WatchdogStep) {
    match event {
        WatchdogEvent::Checked { shutting_down } => if shutting_down {
            (was_alive, WatchdogStep::Stop)
        } else {
            (was_alive, WatchdogStep::Wait)
        },
        WatchdogEvent::Waited { stopped } => if stopped {
            (was_alive, WatchdogStep::Stop)
        } else {
            (was_alive, WatchdogStep::Probe)
        },
        WatchdogEvent::Probed { alive } => if alive && !was_alive {
            (alive, WatchdogStep::TriggerRestart)
        } else {
            (alive, WatchdogStep::Check)
        },
    }
}

/// Whether komorebi is alive: it is not taken to be while the system is
/// shutting down, and else where its socket can be connected to.
pub fn komorebi_is_alive(shutting_down: bool, connected: bool) -> (alive: bool)
    ensures
        alive == (!shutting_down && connected),
{
    if shutting_down {
        false
    } else {
        connected
    }
}

/// The sockets of the watchdog: the one that it probes and the one of the
/// worker. Without a directory for them there is no watchdog.
pub fn watchdog_sockets(local: Option<&str>, name: &str) -> (sockets: Option<(String, String)>)
    requires
        paths::is_plain_name(name@),
    ensures
        match sockets {
            Some((komorebi, worker)) => {
                &&& socket_path(model::opt_view(local), "komorebi.sock"@) == Some(komorebi@)
                &&& socket_path(model::opt_view(local), name@) == Some(worker@)
            },
            None => local is None,
        },
{
    let komorebi = match komorebi_socket_path(local) {
        Some(path) => path,
        None => return None,
    };
    match subscriber_socket_path(local, name) {
        Some(worker) => Some((komorebi, worker)),
        None => None,
    }
}

impl Watchdog {
    /// A watchdog that knows from a first probe whether komorebi is alive.
    pub fn new(alive: bool) -> (watchdog: Watchdog)
        ensures
            watchdog@ == alive,
    {
        Watchdog { was_alive: alive }
    }

    /// Decides what follows an event in the watchdog.
    pub fn step(&mut self, event: WatchdogEvent) -> (step: WatchdogStep)
        ensures
            (final(self)@, step) == watchdog_step(old(self)@, event),
    {
        match event {
            WatchdogEvent::Checked { shutting_down } => if shutting_down {
                WatchdogStep::Stop
            } else {
                WatchdogStep::Wait
            },
            WatchdogEvent::Waited { stopped } => if stopped {
                WatchdogStep::Stop
            } else {
                WatchdogStep::Probe
            },
            WatchdogEvent::Probed { alive } => {
                let back = alive && !self.was_alive;
                self.was_alive = alive;
                if back {
                    WatchdogStep::TriggerRestart
                } else {
                    WatchdogStep::Check
                }
            },
        }
    }
}

// ---------------------------------------------------------------------------
// Laws
// ---------------------------------------------------------------------------

/// The delay stays between its bounds, whatever happens, and the worker never
/// sleeps for longer or shorter.
pub proof fn law_backoff_is_bounded(backoff: u64, event: WorkerEvent)
    requires
        BACKOFF_MIN_MS <= backoff <= BACKOFF_MAX_MS,
    ensures
        BACKOFF_MIN_MS <= worker_step(backoff, event).0 <= BACKOFF_MAX_MS,
        worker_step(backoff, event).1 matches WorkerStep::Sleep { ms } ==> BACKOFF_MIN_MS <= ms
            <= BACKOFF_MAX_MS,
{
}

/// The delay after `n` failures in a row of sessions that were not healthy.
pub open spec fn backoff_after(n: nat) -> u64
    decreases n,
{
    if n == 0 {
        BACKOFF_MIN_MS
    } else {
        worker_step(backoff_after((n - 1) as nat), WorkerEvent::SessionFailed { session_ms: 0 }).0
    }
}

/// The delays of sessions that fail in a row double from the minimum, until
/// the fifth has reached the upper bound.
pub proof fn law_backoff_doubles(n: nat)
    ensures
        backoff_after(0) == 500,
        backoff_after(1) == 1000,
        backoff_after(2) == 2000,
        backoff_after(3) == 4000,
        backoff_after(4) == 8000,
        n >= 5 ==> backoff_after(n) == 10_000,
    decreases n,
{
    reveal_with_fuel(backoff_after, 6);
    if n > 5 {
        law_backoff_doubles((n - 1) as nat);
    }
}

/// After a healthy session, and after one that the watchdog has ended, the
/// next delay is the shortest one again.
pub proof fn law_healthy_sessions_reset_the_backoff(backoff: u64, session_ms: u64)
    ensures
        session_ms >= HEALTHY_SESSION_MS ==> worker_step(
            backoff,
            WorkerEvent::SessionFailed { session_ms },
        ).1 == (WorkerStep::Sleep { ms: BACKOFF_MIN_MS }),
        worker_step(backoff, WorkerEvent::SessionEnded(SessionEnd::WatchdogTriggered)).0
            == BACKOFF_MIN_MS,
{
}

/// After a restart of komorebi the worker does not sleep: it pushes a fresh
/// state and subscribes.
pub proof fn law_restart_resubscribes_at_once(backoff: u64)
    ensures
        ({
            let (b1, s1) = worker_step(
                backoff,
                WorkerEvent::SessionEnded(SessionEnd::WatchdogTriggered),
            );
            let (b2, s2) = worker_step(b1, WorkerEvent::Pushed { there: true });
            s1 == WorkerStep::PushFresh && s2 == WorkerStep::Subscribe
        }),
{
}

/// After a failed session the worker sleeps, pushes a fresh state and
/// subscribes again.
pub proof fn law_failed_sessions_are_retried(backoff: u64, session_ms: u64)
    ensures
        ({
            let (b1, s1) = worker_step(backoff, WorkerEvent::SessionFailed { session_ms });
            let (b2, s2) = worker_step(b1, WorkerEvent::Slept);
            let (b3, s3) = worker_step(b2, WorkerEvent::Pushed { there: true });
            s1 is Sleep && s2 == WorkerStep::PushFresh && s3 == WorkerStep::Subscribe
        }),
{
}

/// The worker exits only when the consumer is gone.
pub proof fn law_worker_exits_with_its_consumer_only(backoff: u64, event: WorkerEvent)
    ensures
        worker_step(backoff, event).1 == WorkerStep::Exit <==> event == (WorkerEvent::Pushed {
            there: false,
        }) || event == WorkerEvent::SessionEnded(SessionEnd::ReceiverGone),
{
}

/// The end of a connection, and what it delivers, never ends a session: only
/// the consumer, the watchdog or the socket does.
pub proof fn law_notifications_never_end_a_session(notification: Notification)
    ensures
        !(session_step(SessionEvent::Read(notification)) is End),
        !(session_step(SessionEvent::Read(notification)) is Fail),
{
}

/// The watchdog triggers a restart exactly when komorebi is back after having
/// been away.
pub proof fn law_watchdog_triggers_on_return_only(was_alive: bool, event: WatchdogEvent)
    ensures
        watchdog_step(was_alive, event).1 == WatchdogStep::TriggerRestart <==> !was_alive && event
            == (WatchdogEvent::Probed { alive: true }),
{
}

/// Sockets lie in a directory named `komorebi`, whatever that directory lies in.
pub proof fn law_sockets_lie_in_komorebis_directory(local: Seq<char>, name: Seq<char>)
    requires
        paths::is_proper_name(name),
    ensures
        exists|above: Seq<char>|
            socket_path(Some(local), name) == Some(#[trigger] (above + ("komorebi\\"@ + name))),
{
    reveal_strlit("\\");
    reveal_strlit("komorebi");
    reveal_strlit("komorebi\\");
    reveal_strlit(".");
    reveal_strlit("..");
    let first = "komorebi"@;
    paths::law_names_are_joined_one_below_the_other(local, first, name);
    let above = choose|above: Seq<char>|
        paths::joined(paths::joined(local, first), name) == #[trigger] (above + (first + "\\"@
            + name));
    assert(first + "\\"@ + name =~= "komorebi\\"@ + name);
    assert(socket_path(Some(local), name) == Some(above + ("komorebi\\"@ + name)));
}

/// Below a directory whose path has no verbatim prefix, that directory is
/// `komorebi` right below it.
pub proof fn law_sockets_of_an_ordinary_directory(local: Seq<char>, name: Seq<char>)
    requires
        local.len() > 0,
        !paths::is_separator(local.last()),
        !paths::is_drive(local),
        !paths::is_verbatim(local + "\\"@),
    ensures
        socket_path(Some(local), name) == Some(local + "\\komorebi\\"@ + name),
{
    reveal_strlit("\\");
    reveal_strlit("\\\\?\\");
    reveal_strlit("komorebi");
    reveal_strlit("\\komorebi\\");
    let prefix = "\\\\?\\"@;
    let dir = local + "\\"@ + "komorebi"@;
    if paths::is_verbatim(local) {
        assert((local + "\\"@).subrange(0, 4) =~= local.subrange(0, 4));
    }
    if paths::is_verbatim(dir) {
        assert(forall|i: int| 0 <= i < 4 ==> dir[i] == #[trigger] dir.subrange(0, 4)[i]);
        assert(dir[3] == dir.subrange(0, 4)[3] && dir[2] == dir.subrange(0, 4)[2]);
        if local.len() < 3 {
            assert(dir[3] != '\\');
        }
        assert((local + "\\"@).subrange(0, 4) =~= prefix);
    }
    assert(dir.last() == 'i');
    assert(paths::joined(local, "komorebi"@) == dir);
    assert("\\komorebi\\"@ =~= "\\"@ + "komorebi"@ + "\\"@);
    assert(paths::joined(dir, name) =~= local + "\\komorebi\\"@ + name);
}

/// The worker starts with a fresh state, subscribes once that is pushed, and asks for
/// a fresh state again when it has slept. None of this changes the delay.
pub proof fn law_worker_refreshes_and_subscribes(backoff: u64)
    ensures
        worker_step(backoff, WorkerEvent::Started) == (backoff, WorkerStep::PushFresh),
        worker_step(backoff, WorkerEvent::Pushed { there: true }) == (
            backoff,
            WorkerStep::Subscribe,
        ),
        worker_step(backoff, WorkerEvent::Slept) == (backoff, WorkerStep::PushFresh),
{
}

/// A session that fails within five seconds is retried after the present delay, and
/// the next delay is twice as long, up to ten seconds. One that fails later is
/// retried after half a second, as is the first one.
pub proof fn law_failures_are_delayed(backoff: u64, session_ms: u64)
    requires
        backoff <= 10_000,
    ensures
        ({
            let (next, step) = worker_step(backoff, WorkerEvent::SessionFailed { session_ms });
            let delay = if session_ms < 5_000 {
                backoff
            } else {
                500
            };
            &&& step == (WorkerStep::Sleep { ms: delay })
            &&& delay <= 5_000 ==> next == 2 * delay
            &&& delay > 5_000 ==> next == 10_000
        }),
        backoff_after(0) == 500,
{
}

/// A restart of komorebi shortens the delay to half a second.
pub proof fn law_restarts_shorten_the_delay(backoff: u64)
    ensures
        worker_step(backoff, WorkerEvent::SessionEnded(SessionEnd::WatchdogTriggered)) == (
            500u64,
            WorkerStep::PushFresh,
        ),
{
}

/// Every state that a notification delivers is forwarded: one monitor for each that
/// komorebi reports, in the same order. A notification that cannot be read is made up
/// for by a fresh state, and an empty connection by nothing.
pub proof fn law_notified_states_are_forwarded(raw: types::State)
    ensures
        session_step(SessionEvent::Read(Notification::State(raw))) == SessionStepView::Send(
            state::world_of(raw),
        ),
        session_step(SessionEvent::Read(Notification::Malformed)) == SessionStepView::PushFresh,
        session_step(SessionEvent::Read(Notification::Empty)) == SessionStepView::Accept,
{
}

/// A session accepts connections one after the other as long as the consumer is there
/// and the watchdog does not ask for a new subscription, and fails where it cannot be
/// subscribed or accept any more.
pub proof fn law_sessions_go_on_until_they_are_ended()
    ensures
        session_step(SessionEvent::Subscribed { succeeded: true }) == SessionStepView::Accept,
        session_step(SessionEvent::Subscribed { succeeded: false }) == SessionStepView::Fail,
        session_step(SessionEvent::Accepted { restart: false }) == SessionStepView::Read,
        session_step(SessionEvent::Accepted { restart: true }) == SessionStepView::End(
            SessionEnd::WatchdogTriggered,
        ),
        session_step(SessionEvent::AcceptFailed) == SessionStepView::Fail,
        session_step(SessionEvent::Pushed { there: true }) == SessionStepView::Accept,
        session_step(SessionEvent::Pushed { there: false }) == SessionStepView::End(
            SessionEnd::ReceiverGone,
        ),
        session_step(SessionEvent::Sent { received: true }) == SessionStepView::Accept,
        session_step(SessionEvent::Sent { received: false }) == SessionStepView::End(
            SessionEnd::ReceiverGone,
        ),
{
}

/// The watchdog waits and probes in turn, remembers what it has found last, and stops
/// exactly where the session has ended or the system is shutting down.
pub proof fn law_watchdog_waits_and_probes(was_alive: bool, alive: bool)
    ensures
        watchdog_step(was_alive, WatchdogEvent::Checked { shutting_down: false }) == (
            was_alive,
            WatchdogStep::Wait,
        ),
        watchdog_step(was_alive, WatchdogEvent::Checked { shutting_down: true }) == (
            was_alive,
            WatchdogStep::Stop,
        ),
        watchdog_step(was_alive, WatchdogEvent::Waited { stopped: false }) == (
            was_alive,
            WatchdogStep::Probe,
        ),
        watchdog_step(was_alive, WatchdogEvent::Waited { stopped: true }) == (
            was_alive,
            WatchdogStep::Stop,
        ),
        watchdog_step(was_alive, WatchdogEvent::Probed { alive }).0 == alive,
        watchdog_step(was_alive, WatchdogEvent::Probed { alive }).1 == if alive && !was_alive {
            WatchdogStep::TriggerRestart
        } else {
            WatchdogStep::Check
        },
{
}

/// The watchdog probes twice a second, and a connection that stalls is given up after
/// a quarter of a second.
pub proof fn law_intervals()
    ensures
        WATCHDOG_INTERVAL_MS == 500,
        READ_TIMEOUT_MS == 250,
{
}

} // verus!
