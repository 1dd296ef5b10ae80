//! The client actor that keeps a connection to one peer alive.
//!
//! The actor connects, forwards the messages it is sent over the connection,
//! and reconnects with an exponential backoff when the connection cannot be
//! established or is lost. After five consecutive failures it gives up and
//! waits until it is told to retry or to shut down.
//!
//! The decisions are a state machine: [`ClientPhase::step`] takes the
//! current phase and what just happened, and returns the next phase and what
//! the transport has to do.

use vstd::prelude::*;
use vstd::string::StringExecFns;

verus! {

/// The number of consecutive failures after which the actor stops retrying.
pub const MAX_CONNECTION_FAILURES: u32 = 5;

/// How many operations may queue up for a client actor.
pub const CLIENT_QUEUE_CAPACITY: usize = 5;

/// The largest response, in bytes, a client accepts from its peer.
pub const MAX_BUFFER_SIZE: usize = 256 << 10;

/// An operation sent to a client actor.
#[derive(Debug, Clone, Copy, PartialEq, Eq, Structural)]
pub enum EventKind {
    /// A message to forward to the peer.
    Message,
    /// Reconnect if the actor gave up on the peer.
    Retry,
    /// Stop the actor.
    Shutdown,
}

/// Where a client actor stands.
#[derive(Debug, Clone, Copy, PartialEq, Eq, Structural)]
pub enum ClientPhase {
    /// Trying to connect, after `failures` consecutive failures.
    Connecting { failures: u32 },
    /// Connected: operations are read and messages forwarded.
    Driving,
    /// Gave up connecting: operations are read, messages are dropped,
    /// and only a retry or a shutdown changes the phase.
    Waiting,
    /// The actor has ended.
    Stopped,
}

/// What just happened to a client actor.
#[derive(Debug, Clone, Copy, PartialEq, Eq, Structural)]
pub enum ClientEvent {
    /// A connection attempt failed.
    ConnectFailed,
    /// A connection attempt succeeded.
    Connected,
    /// The next operation was read from the queue.
    Op(EventKind),
    /// The queue was closed: no operation will arrive any more.
    QueueClosed,
    /// Opening a stream on the connection failed: the connection is lost.
    StreamFailed,
}

/// What the transport has to do after a step.
#[derive(Debug, Clone, Copy, PartialEq, Eq, Structural)]
pub enum ClientAction {
    /// Nothing.
    Idle,
    /// Wait this many seconds before going on.
    Backoff { seconds: u64 },
    /// Open a stream and send the message over it.
    OpenStream,
    /// Drop the message without sending it.
    DropMessage,
}

/// Seconds to wait after the `attempt`-th consecutive failure: `2^attempt`.
pub open spec fn backoff_seconds(attempt: nat) -> nat
    decreases attempt,
{
    if attempt == 0 {
        1
    } else {
        2 * backoff_seconds((attempt - 1) as nat)
    }
}

/// Computes `2^attempt`, the backoff after the `attempt`-th consecutive failure.
pub fn backoff_for(attempt: u32) -> (s: u64)
    requires
        attempt <= MAX_CONNECTION_FAILURES,
    ensures
        s == backoff_seconds(attempt as nat),
{
    proof {
        reveal_with_fuel(backoff_seconds, 6);
    }
    match attempt {
        0 => 1,
        1 => 2,
        2 => 4,
        3 => 8,
        4 => 16,
        _ => 32,
    }
}

impl ClientPhase {
    /// The phase is one the actor can be in: while connecting, fewer than
    /// the maximum number of failures have happened.
    pub open spec fn wf(self) -> bool {
        match self {
            ClientPhase::Connecting { failures } => failures < MAX_CONNECTION_FAILURES,
            _ => true,
        }
    }

    /// The phase the actor starts in.
    pub open spec fn initial() -> ClientPhase {
        ClientPhase::Connecting { failures: 0 }
    }

    /// The next phase and the action of one step.
    pub open spec fn next(self, event: ClientEvent) -> (ClientPhase, ClientAction) {
        match self {
            ClientPhase::Connecting { failures } => match event {
                ClientEvent::ConnectFailed => {
                    let f = (failures + 1) as u32;
                    let wait = ClientAction::Backoff { seconds: backoff_seconds(f as nat) as u64 };
                    if f < MAX_CONNECTION_FAILURES {
                        (ClientPhase::Connecting { failures: f }, wait)
                    } else {
                        (ClientPhase::Waiting, wait)
                    }
                },
                ClientEvent::Connected => (ClientPhase::Driving, ClientAction::Idle),
                _ => (self, ClientAction::Idle),
            },
            ClientPhase::Driving => match event {
                ClientEvent::Op(EventKind::Message) => (ClientPhase::Driving, ClientAction::OpenStream),
                ClientEvent::Op(EventKind::Retry) => (ClientPhase::Driving, ClientAction::Idle),
                ClientEvent::Op(EventKind::Shutdown) => (ClientPhase::Stopped, ClientAction::Idle),
                ClientEvent::QueueClosed => (ClientPhase::Stopped, ClientAction::Idle),
                ClientEvent::StreamFailed => (
                    ClientPhase::Connecting { failures: 1 },
                    ClientAction::Backoff { seconds: backoff_seconds(1) as u64 },
                ),
                _ => (self, ClientAction::Idle),
            },
            ClientPhase::Waiting => match event {
                ClientEvent::Op(EventKind::Message) => (ClientPhase::Waiting, ClientAction::DropMessage),
                ClientEvent::Op(EventKind::Retry) => (ClientPhase::initial(), ClientAction::Idle),
                ClientEvent::Op(EventKind::Shutdown) => (ClientPhase::Stopped, ClientAction::Idle),
                ClientEvent::QueueClosed => (ClientPhase::Stopped, ClientAction::Idle),
                _ => (self, ClientAction::Idle),
            },
            ClientPhase::Stopped => (ClientPhase::Stopped, ClientAction::Idle),
        }
    }

    /// The phase a new actor starts in: connecting, with no failure yet.
    pub fn start() -> (p: ClientPhase)
        ensures
            p == ClientPhase::initial(),
            p.wf(),
    {
        ClientPhase::Connecting { failures: 0 }
    }

    /// One step of the actor.
    ///
    /// - While connecting, a failed attempt waits `2^n` seconds after the
    ///   `n`-th consecutive failure and then tries again, or gives up after
    ///   the fifth; a successful attempt starts forwarding.
    /// - While connected, a message is sent over a new stream, a retry does
    ///   nothing, and a shutdown or a closed queue ends the actor. When a
    ///   stream cannot be opened the connection is lost: the actor waits two
    ///   seconds and reconnects, counting this as the first failure.
    /// - After giving up, messages are dropped, a retry starts connecting
    ///   afresh, and a shutdown or a closed queue ends the actor.
    /// - Events that cannot happen in a phase change nothing.
    pub fn step(self, event: ClientEvent) -> (r: (ClientPhase, ClientAction))
        requires
            self.wf(),
        ensures
            r == self.next(event),
            r.0.wf(),
    {
        match self {
            ClientPhase::Connecting { failures } => match event {
                ClientEvent::ConnectFailed => {
                    let f = failures + 1;
                    let wait = ClientAction::Backoff { seconds: backoff_for(f) };
                    if f < MAX_CONNECTION_FAILURES {
                        (ClientPhase::Connecting { failures: f }, wait)
                    } else {
                        (ClientPhase::Waiting, wait)
                    }
                },
                ClientEvent::Connected => (ClientPhase::Driving, ClientAction::Idle),
                _ => (self, ClientAction::Idle),
            },
            ClientPhase::Driving => match event {
                ClientEvent::Op(EventKind::Message) => (ClientPhase::Driving, ClientAction::OpenStream),
                ClientEvent::Op(EventKind::Retry) => (ClientPhase::Driving, ClientAction::Idle),
                ClientEvent::Op(EventKind::Shutdown) => (ClientPhase::Stopped, ClientAction::Idle),
                ClientEvent::QueueClosed => (ClientPhase::Stopped, ClientAction::Idle),
                ClientEvent::StreamFailed => (
                    ClientPhase::Connecting { failures: 1 },
                    ClientAction::Backoff { seconds: backoff_for(1) },
                ),
                _ => (self, ClientAction::Idle),
            },
            ClientPhase::Waiting => match event {
                ClientEvent::Op(EventKind::Message) => (ClientPhase::Waiting, ClientAction::DropMessage),
                ClientEvent::Op(EventKind::Retry) => (ClientPhase::start(), ClientAction::Idle),
                ClientEvent::Op(EventKind::Shutdown) => (ClientPhase::Stopped, ClientAction::Idle),
                ClientEvent::QueueClosed => (ClientPhase::Stopped, ClientAction::Idle),
                _ => (self, ClientAction::Idle),
            },
            ClientPhase::Stopped => (ClientPhase::Stopped, ClientAction::Idle),
        }
    }
}

/// The error text of an actor that gave up connecting.
pub open spec fn spec_give_up_message() -> Seq<char> {
    "aborting connection reties. Failed to establish a connection within the maximum retry threshold."@
}

/// Whether a step is the one that gives up connecting: the actor was
/// connecting and is now waiting.
pub open spec fn spec_gives_up(before: ClientPhase, after: ClientPhase) -> bool {
    before is Connecting && after == ClientPhase::Waiting
}

impl ClientPhase {
    /// Whether the step from `self` to `after` gives up connecting.
    pub fn gives_up(&self, after: &ClientPhase) -> (r: bool)
        ensures
            r == spec_gives_up(*self, *after),
    {
        match (self, after) {
            (ClientPhase::Connecting { .. }, ClientPhase::Waiting) => true,
            _ => false,
        }
    }
}

/// The error an actor reports when it gives up connecting.
pub fn give_up_message() -> (m: String)
    ensures
        m@ == spec_give_up_message(),
{
    String::from_str(
        "aborting connection reties. Failed to establish a connection within the maximum retry threshold.",
    )
}

/// A step gives up exactly when the fifth consecutive connection attempt
/// fails: then the error of giving up is reported.
pub proof fn lemma_gives_up_only_on_fifth_failure(phase: ClientPhase, event: ClientEvent)
    requires
        phase.wf(),
    ensures
        spec_gives_up(phase, phase.next(event).0) <==> (phase == ClientPhase::Connecting {
            failures: (MAX_CONNECTION_FAILURES - 1) as u32,
        } && event == ClientEvent::ConnectFailed),
{
}

/// The phase after a sequence of events, and the actions taken on the way.
pub open spec fn run(phase: ClientPhase, events: Seq<ClientEvent>) -> (ClientPhase, Seq<ClientAction>)
    decreases events.len(),
{
    if events.len() == 0 {
        (phase, Seq::empty())
    } else {
        let first = phase.next(events[0]);
        let tail = run(first.0, events.drop_first());
        (tail.0, seq![first.1] + tail.1)
    }
}

/// `n` connection failures in a row.
pub open spec fn failures(n: nat) -> Seq<ClientEvent> {
    Seq::new(n, |i: int| ClientEvent::ConnectFailed)
}

/// From `k` failures, `n` more failures (with `k + n` at most five) lead to
/// `k + n` failures, or to giving up at five, and the `i`-th of them waits
/// `2^(k + i + 1)` seconds.
proof fn lemma_failures_from(k: nat, n: nat)
    requires
        k < 5,
        k + n <= 5,
    ensures
        ({
            let (p, acts) = run(ClientPhase::Connecting { failures: k as u32 }, failures(n));
            &&& p == (if k + n < 5 {
                ClientPhase::Connecting { failures: (k + n) as u32 }
            } else {
                ClientPhase::Waiting
            })
            &&& acts.len() == n
            &&& forall|i: int|
                0 <= i < n ==> #[trigger] acts[i] == ClientAction::Backoff {
                    seconds: backoff_seconds((k + i + 1) as nat) as u64,
                }
        }),
    decreases n,
{
    let start = ClientPhase::Connecting { failures: k as u32 };
    if n > 0 {
        let first = start.next(ClientEvent::ConnectFailed);
        let a1 = first.1;
        assert(failures(n).drop_first() =~= failures((n - 1) as nat));
        if n > 1 {
            lemma_failures_from(k + 1, (n - 1) as nat);
        } else {
            assert(failures(0) =~= Seq::<ClientEvent>::empty());
        }
        let rest = run(first.0, failures((n - 1) as nat)).1;
        let acts = seq![a1] + rest;
        assert(run(start, failures(n)).1 == acts);
        assert forall|i: int| 0 <= i < n implies #[trigger] acts[i] == ClientAction::Backoff {
            seconds: backoff_seconds((k + i + 1) as nat) as u64,
        } by {
            if i > 0 {
                assert(acts[i] == rest[i - 1]);
            }
        }
    } else {
        assert(failures(0) =~= Seq::<ClientEvent>::empty());
    }
}

/// A fresh actor gives up after exactly five consecutive connection
/// failures, having waited 2, 4, 8, 16 and 32 seconds; with fewer failures
/// it is still connecting.
pub proof fn lemma_gives_up_after_five_failures(n: nat)
    requires
        n <= 5,
    ensures
        ({
            let (p, acts) = run(ClientPhase::initial(), failures(n));
            &&& (n < 5 ==> p == ClientPhase::Connecting { failures: n as u32 })
            &&& (n == 5 ==> p == ClientPhase::Waiting)
            &&& acts.len() == n
            &&& forall|i: int|
                0 <= i < n ==> #[trigger] acts[i] == ClientAction::Backoff {
                    seconds: backoff_seconds((i + 1) as nat) as u64,
                }
        }),
{
    lemma_failures_from(0, n);
}

/// An actor that has ended stays ended, whatever happens.
pub proof fn lemma_stopped_is_final(events: Seq<ClientEvent>)
    ensures
        run(ClientPhase::Stopped, events).0 == ClientPhase::Stopped,
        run(ClientPhase::Stopped, events).1.len() == events.len(),
        forall|i: int|
            0 <= i < events.len() ==> #[trigger] run(ClientPhase::Stopped, events).1[i]
                == ClientAction::Idle,
    decreases events.len(),
{
    if events.len() > 0 {
        lemma_stopped_is_final(events.drop_first());
        let rest = run(ClientPhase::Stopped, events.drop_first()).1;
        assert(run(ClientPhase::Stopped, events).1 == seq![ClientAction::Idle] + rest);
        assert forall|i: int| 0 <= i < events.len() implies #[trigger] run(
            ClientPhase::Stopped,
            events,
        ).1[i] == ClientAction::Idle by {
            if i > 0 {
                assert(run(ClientPhase::Stopped, events).1[i] == rest[i - 1]);
            }
        }
    }
}

/// Once the actor reads operations, a shutdown ends it.
pub proof fn lemma_shutdown_stops(phase: ClientPhase)
    requires
        phase == ClientPhase::Driving || phase == ClientPhase::Waiting,
    ensures
        phase.next(ClientEvent::Op(EventKind::Shutdown)).0 == ClientPhase::Stopped,
{
}

/// A message is sent only over an established connection, and it is
/// dropped only after the actor gave up; no other step touches it.
pub proof fn lemma_messages_sent_only_when_connected(phase: ClientPhase, event: ClientEvent)
    ensures
        phase.next(event).1 == ClientAction::OpenStream <==> (phase == ClientPhase::Driving
            && event == ClientEvent::Op(EventKind::Message)),
        phase.next(event).1 == ClientAction::DropMessage <==> (phase == ClientPhase::Waiting
            && event == ClientEvent::Op(EventKind::Message)),
{
}

/// A successful connection restores the whole retry budget: from any number
/// of earlier failures, connecting and then losing the connection counts
/// as one failure, with the shortest wait.
pub proof fn lemma_connection_resets_failures(k: u32)
    requires
        k < MAX_CONNECTION_FAILURES,
    ensures
        run(ClientPhase::Connecting { failures: k }, seq![ClientEvent::Connected, ClientEvent::StreamFailed])
            == (
            ClientPhase::Connecting { failures: 1 },
            seq![ClientAction::Idle, ClientAction::Backoff { seconds: 2 }],
        ),
{
    reveal_with_fuel(run, 3);
    let evs = seq![ClientEvent::Connected, ClientEvent::StreamFailed];
    assert(evs.drop_first() =~= seq![ClientEvent::StreamFailed]);
    assert(evs.drop_first().drop_first() =~= Seq::<ClientEvent>::empty());
    assert(backoff_seconds(1) == 2) by {
        reveal_with_fuel(backoff_seconds, 2);
    }
    assert(run(ClientPhase::Connecting { failures: k }, evs).1 =~= seq![
        ClientAction::Idle,
        ClientAction::Backoff { seconds: 2 },
    ]);
}

/// A successful connection attempt always starts forwarding, however many
/// attempts failed before it.
pub proof fn lemma_connected_starts_driving(k: u32)
    requires
        k < MAX_CONNECTION_FAILURES,
    ensures
        (ClientPhase::Connecting { failures: k }).next(ClientEvent::Connected) == (
            ClientPhase::Driving,
            ClientAction::Idle,
        ),
{
}

/// Once a connection is established, the next message is sent over it: from
/// any phase that is connecting or connected, the event `Connected`
/// followed by a message opens a stream for that message, and the actor is
/// then connected.
pub proof fn lemma_message_after_connect_is_sent(phase: ClientPhase)
    requires
        phase.wf(),
        (phase is Connecting) || phase == ClientPhase::Driving,
    ensures
        run(phase, seq![ClientEvent::Connected, ClientEvent::Op(EventKind::Message)]) == (
            ClientPhase::Driving,
            seq![ClientAction::Idle, ClientAction::OpenStream],
        ),
{
    reveal_with_fuel(run, 3);
    let evs = seq![ClientEvent::Connected, ClientEvent::Op(EventKind::Message)];
    assert(evs.drop_first() =~= seq![ClientEvent::Op(EventKind::Message)]);
    assert(evs.drop_first().drop_first() =~= Seq::<ClientEvent>::empty());
    assert(run(phase, evs).1 =~= seq![ClientAction::Idle, ClientAction::OpenStream]);
}

/// A retry after giving up starts connecting with the whole retry budget.
pub proof fn lemma_retry_restarts(phase: ClientPhase)
    requires
        phase == ClientPhase::Waiting,
    ensures
        phase.next(ClientEvent::Op(EventKind::Retry)) == (ClientPhase::initial(), ClientAction::Idle),
{
}

/// Waking a connected actor changes nothing: a retry is a no-op while the
/// connection is up.
pub proof fn lemma_wake_while_connected_is_noop()
    ensures
        ClientPhase::Driving.next(ClientEvent::Op(EventKind::Retry)) == (
            ClientPhase::Driving,
            ClientAction::Idle,
        ),
{
}

/// `n` messages in a row.
pub open spec fn messages(n: nat) -> Seq<ClientEvent> {
    Seq::new(n, |i: int| ClientEvent::Op(EventKind::Message))
}

/// A connected actor that is told to shut down after `n` messages first
/// sends every one of them, then ends.
pub proof fn lemma_shutdown_after_pending_messages(n: nat)
    ensures
        ({
            let (p, acts) = run(
                ClientPhase::Driving,
                messages(n).push(ClientEvent::Op(EventKind::Shutdown)),
            );
            &&& p == ClientPhase::Stopped
            &&& acts.len() == n + 1
            &&& forall|i: int| 0 <= i < n ==> #[trigger] acts[i] == ClientAction::OpenStream
            &&& acts[n as int] == ClientAction::Idle
        }),
    decreases n,
{
    let evs = messages(n).push(ClientEvent::Op(EventKind::Shutdown));
    if n == 0 {
        reveal_with_fuel(run, 2);
        assert(evs.drop_first() =~= Seq::<ClientEvent>::empty());
        assert(evs[0] == ClientEvent::Op(EventKind::Shutdown));
        assert(run(ClientPhase::Driving, evs).1 =~= seq![ClientAction::Idle]);
    } else {
        assert(evs[0] == ClientEvent::Op(EventKind::Message));
        assert(evs.drop_first() =~= messages((n - 1) as nat).push(ClientEvent::Op(EventKind::Shutdown)));
        lemma_shutdown_after_pending_messages((n - 1) as nat);
        let rest = run(ClientPhase::Driving, evs.drop_first()).1;
        let acts = run(ClientPhase::Driving, evs).1;
        assert(acts == seq![ClientAction::OpenStream] + rest);
        assert forall|i: int| 0 <= i < n implies #[trigger] acts[i] == ClientAction::OpenStream by {
            if i > 0 {
                assert(acts[i] == rest[i - 1]);
            }
        }
        assert(acts[n as int] == rest[n - 1]);
    }
}

/// How one attempt to keep the connection up ended.
#[derive(Debug, Clone, Copy, PartialEq, Eq, Structural)]
pub enum AttemptOutcome {
    /// No connection could be established.
    ConnectFailed,
    /// A connection was established, then lost.
    ConnectionLost,
    /// A connection was established and ended without error: the actor was
    /// shut down or its queue was closed.
    ConnectionEnded,
}

/// The events of one attempt.
pub open spec fn outcome_events(o: AttemptOutcome) -> Seq<ClientEvent> {
    match o {
        AttemptOutcome::ConnectFailed => seq![ClientEvent::ConnectFailed],
        AttemptOutcome::ConnectionLost => seq![ClientEvent::Connected, ClientEvent::StreamFailed],
        AttemptOutcome::ConnectionEnded => seq![ClientEvent::Connected, ClientEvent::QueueClosed],
    }
}

/// The events of a sequence of attempts.
pub open spec fn attempt_events(os: Seq<AttemptOutcome>) -> Seq<ClientEvent>
    decreases os.len(),
{
    if os.len() == 0 {
        Seq::empty()
    } else {
        attempt_events(os.drop_last()) + outcome_events(os.last())
    }
}

/// The failures since the last established connection: each failed attempt
/// adds one, each established connection starts the count afresh, and a
/// lost connection is itself a failure.
pub open spec fn trailing_failures(os: Seq<AttemptOutcome>) -> nat
    decreases os.len(),
{
    if os.len() == 0 {
        0
    } else {
        match os.last() {
            AttemptOutcome::ConnectFailed => 1 + trailing_failures(os.drop_last()),
            AttemptOutcome::ConnectionLost => 1,
            AttemptOutcome::ConnectionEnded => 0,
        }
    }
}

/// No attempt so far ended the connection without error, and at no point did
/// the failures since the last connection reach the maximum.
pub open spec fn undecided(os: Seq<AttemptOutcome>) -> bool {
    &&& forall|j: int| 0 <= j < os.len() ==> os[j] != AttemptOutcome::ConnectionEnded
    &&& forall|j: int|
        1 <= j <= os.len() ==> #[trigger] trailing_failures(os.take(j)) < MAX_CONNECTION_FAILURES
}

/// Running `a` then `b` is running `a + b`.
proof fn lemma_run_append(p: ClientPhase, a: Seq<ClientEvent>, b: Seq<ClientEvent>)
    ensures
        run(p, a + b) == (run(run(p, a).0, b).0, run(p, a).1 + run(run(p, a).0, b).1),
    decreases a.len(),
{
    if a.len() == 0 {
        assert(a + b =~= b);
        assert(run(p, a).1 + run(p, b).1 =~= run(p, b).1);
    } else {
        assert((a + b)[0] == a[0]);
        assert((a + b).drop_first() =~= a.drop_first() + b);
        let first = p.next(a[0]);
        lemma_run_append(first.0, a.drop_first(), b);
        let mid = run(first.0, a.drop_first());
        let tail = run(mid.0, b);
        assert(seq![first.1] + (mid.1 + tail.1) =~= (seq![first.1] + mid.1) + tail.1);
    }
}

/// One attempt, from `t` failures.
proof fn lemma_outcome_step(t: u32, o: AttemptOutcome)
    requires
        t < MAX_CONNECTION_FAILURES,
    ensures
        run(ClientPhase::Connecting { failures: t }, outcome_events(o)).0 == match o {
            AttemptOutcome::ConnectFailed => if t + 1 < MAX_CONNECTION_FAILURES {
                ClientPhase::Connecting { failures: (t + 1) as u32 }
            } else {
                ClientPhase::Waiting
            },
            AttemptOutcome::ConnectionLost => ClientPhase::Connecting { failures: 1 },
            AttemptOutcome::ConnectionEnded => ClientPhase::Stopped,
        },
{
    reveal_with_fuel(run, 3);
    let evs = outcome_events(o);
    if evs.len() == 2 {
        assert(evs.drop_first().drop_first() =~= Seq::<ClientEvent>::empty());
        assert(evs.drop_first() =~= seq![evs[1]]);
    } else {
        assert(evs.drop_first() =~= Seq::<ClientEvent>::empty());
    }
}

/// The failures since the last connection are all failed attempts.
proof fn lemma_trailing_failures_are_failures(os: Seq<AttemptOutcome>)
    ensures
        trailing_failures(os) <= os.len(),
        forall|i: int|
            os.len() - trailing_failures(os) <= i < os.len() ==> #[trigger] os[i]
                != AttemptOutcome::ConnectionEnded,
    decreases os.len(),
{
    if os.len() > 0 {
        let q = os.drop_last();
        lemma_trailing_failures_are_failures(q);
        assert forall|i: int|
            os.len() - trailing_failures(os) <= i < os.len() implies #[trigger] os[i]
                != AttemptOutcome::ConnectionEnded by {
            if i < os.len() - 1 {
                assert(os[i] == q[i]);
            }
        }
    }
}

/// While undecided, the actor is connecting, with the failures since the
/// last connection as its count.
proof fn lemma_undecided_phase(os: Seq<AttemptOutcome>)
    requires
        undecided(os),
    ensures
        trailing_failures(os) < MAX_CONNECTION_FAILURES,
        run(ClientPhase::initial(), attempt_events(os)).0 == (ClientPhase::Connecting {
            failures: trailing_failures(os) as u32,
        }),
    decreases os.len(),
{
    assert(os.take(os.len() as int) =~= os);
    if os.len() == 0 {
        assert(attempt_events(os) =~= Seq::<ClientEvent>::empty());
    } else {
        let q = os.drop_last();
        assert forall|j: int| 1 <= j <= q.len() implies #[trigger] trailing_failures(q.take(j))
            < MAX_CONNECTION_FAILURES by {
            assert(q.take(j) =~= os.take(j));
        }
        assert forall|j: int| 0 <= j < q.len() implies q[j] != AttemptOutcome::ConnectionEnded by {
            assert(q[j] == os[j]);
        }
        lemma_undecided_phase(q);
        lemma_run_append(ClientPhase::initial(), attempt_events(q), outcome_events(os.last()));
        lemma_outcome_step(trailing_failures(q) as u32, os.last());
        assert(trailing_failures(os.take(os.len() as int)) < MAX_CONNECTION_FAILURES);
        assert(os[os.len() - 1] != AttemptOutcome::ConnectionEnded);
    }
}

/// Keeping the connection up ends without error exactly when a connection
/// was established and then ended without error before the failures since
/// the last connection reached five; it gives up exactly when they reach
/// five, and then the last five attempts all failed. Otherwise the actor is
/// still connecting, with the failures since the last connection as its
/// count. Each failed attempt adds one failure, a lost connection counts as
/// one, and an established connection starts the count afresh.
pub proof fn lemma_keep_alive_outcome(os: Seq<AttemptOutcome>)
    requires
        os.len() > 0,
        undecided(os.drop_last()),
    ensures
        ({
            let p = run(ClientPhase::initial(), attempt_events(os)).0;
            &&& p == ClientPhase::Stopped <==> os.last() == AttemptOutcome::ConnectionEnded
            &&& p == ClientPhase::Waiting <==> trailing_failures(os) == MAX_CONNECTION_FAILURES
            &&& (p != ClientPhase::Stopped && p != ClientPhase::Waiting) ==> p == ClientPhase::Connecting {
                failures: trailing_failures(os) as u32,
            }
            &&& trailing_failures(os) <= MAX_CONNECTION_FAILURES
            &&& trailing_failures(os) == MAX_CONNECTION_FAILURES ==> forall|i: int|
                os.len() - 5 <= i < os.len() ==> #[trigger] os[i] != AttemptOutcome::ConnectionEnded
        }),
{
    let q = os.drop_last();
    lemma_undecided_phase(q);
    lemma_run_append(ClientPhase::initial(), attempt_events(q), outcome_events(os.last()));
    lemma_outcome_step(trailing_failures(q) as u32, os.last());
    lemma_trailing_failures_are_failures(os);
}

/// The seconds an actor waits over a sequence of actions.
pub open spec fn total_backoff(acts: Seq<ClientAction>) -> nat
    decreases acts.len(),
{
    if acts.len() == 0 {
        0
    } else {
        (match acts[0] {
            ClientAction::Backoff { seconds } => seconds as nat,
            _ => 0,
        }) + total_backoff(acts.drop_first())
    }
}

/// The backoffs stay small: `2^n` is at most 64 for `n` up to six.
proof fn lemma_backoff_small(n: nat)
    requires
        n <= 6,
    ensures
        1 <= backoff_seconds(n) <= 64,
{
    reveal_with_fuel(backoff_seconds, 7);
}

/// Waiting `2^(k+1)`, ..., `2^(k+n)` seconds takes `2^(k+n+1) - 2^(k+1)` seconds.
proof fn lemma_total_backoff_geometric(acts: Seq<ClientAction>, k: nat, n: nat)
    requires
        acts.len() == n,
        k + n <= 5,
        forall|i: int|
            0 <= i < n ==> #[trigger] acts[i] == (ClientAction::Backoff {
                seconds: backoff_seconds((k + i + 1) as nat) as u64,
            }),
    ensures
        total_backoff(acts) + backoff_seconds(k + 1) == backoff_seconds(k + n + 1),
    decreases n,
{
    if n > 0 {
        let rest = acts.drop_first();
        assert forall|i: int| 0 <= i < (n - 1) as nat implies #[trigger] rest[i] == ClientAction::Backoff {
            seconds: backoff_seconds(((k + 1) as nat + i + 1) as nat) as u64,
        } by {
            assert(rest[i] == acts[i + 1]);
        }
        lemma_total_backoff_geometric(rest, k + 1, (n - 1) as nat);
        lemma_backoff_small(k + 1);
        assert(acts[0] == ClientAction::Backoff { seconds: backoff_seconds(k + 1) as u64 });
        assert(backoff_seconds(k + 2) == 2 * backoff_seconds(k + 1));
    }
}

/// Every wait is one of 2, 4, 8, 16 or 32 seconds: `2^k` after the `k`-th
/// consecutive failure.
pub proof fn lemma_backoff_values(phase: ClientPhase, event: ClientEvent)
    requires
        phase.wf(),
    ensures
        phase.next(event).1 matches ClientAction::Backoff { seconds } ==> (seconds == 2
            || seconds == 4 || seconds == 8 || seconds == 16 || seconds == 32),
{
    reveal_with_fuel(backoff_seconds, 6);
}

/// Between two established connections, or before giving up, an actor waits
/// at most 62 seconds: from a fresh start, `n` failed attempts wait
/// `2^(n+1) - 2` seconds in all; after a lost connection and `n` more failed
/// attempts it has waited `2^(n+2) - 2` seconds.
pub proof fn lemma_backoff_between_connections(n: nat)
    ensures
        n <= 5 ==> total_backoff(run(ClientPhase::initial(), failures(n)).1) + 2 == backoff_seconds(
            n + 1,
        ),
        n <= 5 ==> total_backoff(run(ClientPhase::initial(), failures(n)).1) <= 62,
        n <= 4 ==> total_backoff(
            run(ClientPhase::Driving, seq![ClientEvent::StreamFailed] + failures(n)).1,
        ) + 2 == backoff_seconds(n + 2),
        n <= 4 ==> total_backoff(
            run(ClientPhase::Driving, seq![ClientEvent::StreamFailed] + failures(n)).1,
        ) <= 62,
{
    reveal_with_fuel(backoff_seconds, 7);
    if n <= 5 {
        lemma_failures_from(0, n);
        let acts = run(ClientPhase::initial(), failures(n)).1;
        lemma_total_backoff_geometric(acts, 0, n);
        lemma_backoff_small(n + 1);
    }
    if n <= 4 {
        let lost = seq![ClientEvent::StreamFailed];
        lemma_run_append(ClientPhase::Driving, lost, failures(n));
        reveal_with_fuel(run, 2);
        assert(lost.drop_first() =~= Seq::<ClientEvent>::empty());
        let after = run(ClientPhase::Driving, lost);
        assert(after.0 == ClientPhase::Connecting { failures: 1 });
        assert(after.1 =~= seq![ClientAction::Backoff { seconds: 2 }]);
        lemma_failures_from(1, n);
        let rest = run(ClientPhase::Connecting { failures: 1 }, failures(n)).1;
        lemma_total_backoff_geometric(rest, 1, n);
        let all = after.1 + rest;
        assert(all.drop_first() =~= rest);
        assert(total_backoff(all) == 2 + total_backoff(rest));
        lemma_backoff_small(n + 2);
    }
}

/// The server name a client connects with: the configured one, or
/// `localhost` when none is configured.
pub fn effective_server_name(server_name: Option<String>) -> (name: String)
    ensures
        name@ == (match server_name {
            Some(n) => n@,
            None => "localhost"@,
        }),
{
    match server_name {
        Some(n) => n,
        None => String::from_str("localhost"),
    }
}

} // verus!
