//! The connection race: sequential fallback over an address queue under one
//! deadline.
//!
//! `TcpConnector` consumes an ordered queue of candidate addresses.  It holds
//! no socket itself: a driver owns the in-flight connect attempt and the
//! clock, and reports each scheduling opportunity as an event — the current
//! instant together with what polling the attempt produced.  The machine
//! answers with the next action: suspend, try the next address, or finish.
//!
//! The deadline check comes first on every step and wins ties: an attempt
//! racing the deadline at the exact boundary resolves in favor of `Timeout`,
//! even if the attempt was about to succeed and even if untried addresses
//! remain.  Per-address failures are recovered locally by advancing to the
//! next candidate; only the most recent underlying error is retained.

use std::collections::VecDeque;
use vstd::prelude::*;

use crate::addr::SocketAddress;
use crate::service::ResolverError;

verus! {

/// The phase of the race.
#[derive(Clone, Copy, PartialEq, Eq, Structural, Debug)]
pub enum RaceState {
    /// No attempt has been started yet.
    Idle,
    /// Exactly one connect attempt is in flight.
    Attempting,
    /// A candidate connected; terminal.
    Succeeded,
    /// The race failed with a timeout, an exhausted queue, or an empty queue
    /// at entry; terminal.
    Failed,
}

/// What polling the in-flight connect attempt produced, as reported by the
/// driver.
#[derive(Debug, PartialEq, Eq)]
pub enum ConnectPoll {
    /// The attempt completed: the driver holds a connected stream.
    Connected,
    /// The attempt is still in flight.
    Pending,
    /// The attempt failed with the given underlying transport error.
    Failed(String),
}

/// The machine's answer to one scheduling opportunity.
#[derive(Debug, PartialEq, Eq)]
pub enum RaceStep {
    /// Keep waiting on the current attempt.
    Suspend,
    /// Drop the current attempt and start a new one to this address.
    Next(SocketAddress),
    /// The stream just polled is the race's result; remaining addresses are
    /// discarded unused.
    Succeeded,
    /// The race is over with this error.
    Failed(ResolverError),
}

/// The mathematical state of a `TcpConnector`.
#[verifier::ext_equal]
pub ghost struct RaceModel {
    /// Remaining untried addresses, front first.
    pub queue: Seq<SocketAddress>,
    /// The absolute instant past which the race fails with `Timeout`.
    pub deadline: u64,
    /// The address of the in-flight attempt, in phase `Attempting`.
    pub attempt: Option<SocketAddress>,
    /// The phase.
    pub state: RaceState,
}

/// The state a race starts in: the whole queue untried, the deadline set to
/// `now + timeout_ms` (saturating), no attempt yet.
pub open spec fn race_start(queue: Seq<SocketAddress>, now: u64, timeout_ms: u64) -> RaceModel {
    RaceModel {
        queue,
        deadline: if now + timeout_ms > u64::MAX {
            u64::MAX
        } else {
            (now + timeout_ms) as u64
        },
        attempt: None,
        state: RaceState::Idle,
    }
}

/// Entering the race: pop the front address and attempt it.  An empty queue
/// at entry is a caller contract violation and fails fast with
/// `InvalidInput` instead of relying on caller discipline.
pub open spec fn race_begin(m: RaceModel) -> (RaceModel, Result<SocketAddress, ResolverError>) {
    if m.queue.len() == 0 {
        (
            RaceModel { state: RaceState::Failed, ..m },
            Err(ResolverError::InvalidInput("no address to connect to")),
        )
    } else {
        (
            RaceModel {
                queue: m.queue.drop_first(),
                attempt: Some(m.queue[0]),
                state: RaceState::Attempting,
                ..m
            },
            Ok(m.queue[0]),
        )
    }
}

/// One scheduling step while attempting.  The deadline is checked first and
/// wins ties; otherwise a successful attempt ends the race, a pending one
/// suspends it, and a failed one advances to the next candidate or, with the
/// queue exhausted, fails with the last underlying error.
pub open spec fn race_poll(m: RaceModel, now: u64, event: ConnectPoll) -> (RaceModel, RaceStep) {
    if now >= m.deadline {
        (RaceModel { state: RaceState::Failed, ..m }, RaceStep::Failed(ResolverError::Timeout))
    } else {
        match event {
            ConnectPoll::Connected => (
                RaceModel { state: RaceState::Succeeded, ..m },
                RaceStep::Succeeded,
            ),
            ConnectPoll::Pending => (m, RaceStep::Suspend),
            ConnectPoll::Failed(e) => if m.queue.len() == 0 {
                (
                    RaceModel { state: RaceState::Failed, attempt: None, ..m },
                    RaceStep::Failed(ResolverError::IoError(e)),
                )
            } else {
                (
                    RaceModel { queue: m.queue.drop_first(), attempt: Some(m.queue[0]), ..m },
                    RaceStep::Next(m.queue[0]),
                )
            },
        }
    }
}

/// A TCP stream connector: the race-phase state machine.
pub struct TcpConnector {
    addrs: VecDeque<SocketAddress>,
    deadline: u64,
    attempt: Option<SocketAddress>,
    state: RaceState,
}

impl View for TcpConnector {
    type V = RaceModel;

    closed spec fn view(&self) -> RaceModel {
        RaceModel {
            queue: self.addrs@,
            deadline: self.deadline,
            attempt: self.attempt,
            state: self.state,
        }
    }
}

impl TcpConnector {
    /// A race over `addrs` with the default timeout of one second.
    pub fn new(addrs: VecDeque<SocketAddress>, now: u64) -> (c: TcpConnector)
        ensures
            c@ == race_start(addrs@, now, 1000),
    {
        TcpConnector::with_timeout(addrs, now, 1000)
    }

    /// A race over `addrs` whose deadline is `now + timeout_ms`.  The
    /// deadline is fixed here, at the moment racing begins: resolution time
    /// is excluded from the connect timeout budget.
    pub fn with_timeout(addrs: VecDeque<SocketAddress>, now: u64, timeout_ms: u64) -> (c:
        TcpConnector)
        ensures
            c@ == race_start(addrs@, now, timeout_ms),
    {
        let deadline: u64 = if timeout_ms > u64::MAX - now {
            u64::MAX
        } else {
            now + timeout_ms
        };
        TcpConnector { addrs, deadline, attempt: None, state: RaceState::Idle }
    }

    /// The absolute instant past which the race fails with `Timeout`.
    pub fn deadline(&self) -> (r: u64)
        ensures
            r == self@.deadline,
    {
        self.deadline
    }

    /// The phase the race is in.
    pub fn state(&self) -> (r: RaceState)
        ensures
            r == self@.state,
    {
        self.state
    }

    /// Starts the race: pops the front address, which the driver should now
    /// attempt to connect to.  Fails fast with `InvalidInput` when the queue
    /// is empty at entry.
    pub fn begin(&mut self) -> (r: Result<SocketAddress, ResolverError>)
        requires
            old(self)@.state == RaceState::Idle,
        ensures
            final(self)@ == race_begin(old(self)@).0,
            r == race_begin(old(self)@).1,
    {
        match self.addrs.pop_front() {
            None => {
                self.state = RaceState::Failed;
                proof {
                    assert(self@ =~= race_begin(old(self)@).0);
                }
                Err(ResolverError::InvalidInput("no address to connect to"))
            },
            Some(front) => {
                self.attempt = Some(front);
                self.state = RaceState::Attempting;
                proof {
                    assert(self@ =~= race_begin(old(self)@).0);
                }
                Ok(front)
            },
        }
    }

    /// One scheduling opportunity: `now` is the current instant and `event`
    /// is what polling the in-flight attempt produced.
    pub fn poll(&mut self, now: u64, event: ConnectPoll) -> (r: RaceStep)
        requires
            old(self)@.state == RaceState::Attempting,
        ensures
            final(self)@ == race_poll(old(self)@, now, event).0,
            r == race_poll(old(self)@, now, event).1,
    {
        if now >= self.deadline {
            self.state = RaceState::Failed;
            proof {
                assert(self@ =~= race_poll(old(self)@, now, event).0);
            }
            return RaceStep::Failed(ResolverError::Timeout);
        }
        match event {
            ConnectPoll::Connected => {
                self.state = RaceState::Succeeded;
                proof {
                    assert(self@ =~= race_poll(old(self)@, now, event).0);
                }
                RaceStep::Succeeded
            },
            ConnectPoll::Pending => {
                proof {
                    assert(self@ =~= race_poll(old(self)@, now, event).0);
                }
                RaceStep::Suspend
            },
            ConnectPoll::Failed(e) => {
                match self.addrs.pop_front() {
                    None => {
                        self.attempt = None;
                        self.state = RaceState::Failed;
                        proof {
                            assert(self@ =~= race_poll(old(self)@, now, event).0);
                        }
                        RaceStep::Failed(ResolverError::IoError(e))
                    },
                    Some(front) => {
                        self.attempt = Some(front);
                        proof {
                            assert(self@ =~= race_poll(old(self)@, now, event).0);
                        }
                        RaceStep::Next(front)
                    },
                }
            },
        }
    }
}

/// Sequential fallback: racing `[a, b, c]` where the attempts to `a` and `b`
/// fail and the attempt to `c` succeeds, all before the deadline, ends in
/// `Succeeded` via `c`.  The success step carries no error value at all, so
/// nothing of the earlier failures is retained in the final result.
pub proof fn lemma_sequential_fallback(
    a: SocketAddress,
    b: SocketAddress,
    c: SocketAddress,
    now: u64,
    timeout_ms: u64,
    t1: u64,
    t2: u64,
    t3: u64,
    e1: String,
    e2: String,
)
    requires
        t1 < race_start(seq![a, b, c], now, timeout_ms).deadline,
        t2 < race_start(seq![a, b, c], now, timeout_ms).deadline,
        t3 < race_start(seq![a, b, c], now, timeout_ms).deadline,
    ensures
        ({
            let m0 = race_start(seq![a, b, c], now, timeout_ms);
            let s1 = race_begin(m0);
            let s2 = race_poll(s1.0, t1, ConnectPoll::Failed(e1));
            let s3 = race_poll(s2.0, t2, ConnectPoll::Failed(e2));
            let s4 = race_poll(s3.0, t3, ConnectPoll::Connected);
            &&& s1.1 == Ok::<SocketAddress, ResolverError>(a)
            &&& s2.1 == RaceStep::Next(b)
            &&& s3.1 == RaceStep::Next(c)
            &&& s4.1 == RaceStep::Succeeded
            &&& s4.0.state == RaceState::Succeeded
        }),
{
    let q: Seq<SocketAddress> = seq![a, b, c];
    assert(q[0] == a);
    assert(q.drop_first() =~= seq![b, c]);
    assert(seq![b, c][0] == b);
    assert(seq![b, c].drop_first() =~= seq![c]);
    assert(seq![c][0] == c);
    assert(seq![c].drop_first() =~= Seq::<SocketAddress>::empty());
}

/// Exhaustion reports the last underlying error: racing `[a, b]` where both
/// attempts fail before the deadline ends in `ConnectionFailed` wrapping
/// exactly the second attempt's error, and nothing of the first.
pub proof fn lemma_last_error_reported(
    a: SocketAddress,
    b: SocketAddress,
    now: u64,
    timeout_ms: u64,
    t1: u64,
    t2: u64,
    e1: String,
    e2: String,
)
    requires
        t1 < race_start(seq![a, b], now, timeout_ms).deadline,
        t2 < race_start(seq![a, b], now, timeout_ms).deadline,
    ensures
        ({
            let m0 = race_start(seq![a, b], now, timeout_ms);
            let s1 = race_begin(m0);
            let s2 = race_poll(s1.0, t1, ConnectPoll::Failed(e1));
            let s3 = race_poll(s2.0, t2, ConnectPoll::Failed(e2));
            &&& s1.1 == Ok::<SocketAddress, ResolverError>(a)
            &&& s2.1 == RaceStep::Next(b)
            &&& s3.1 == RaceStep::Failed(ResolverError::IoError(e2))
            &&& s3.0.state == RaceState::Failed
        }),
{
    let q: Seq<SocketAddress> = seq![a, b];
    assert(q[0] == a);
    assert(q.drop_first() =~= seq![b]);
    assert(seq![b][0] == b);
    assert(seq![b].drop_first() =~= Seq::<SocketAddress>::empty());
}

/// One attempt at a time: whenever the race is in phase `Attempting` there
/// is an in-flight attempt, and every transition preserves that.
pub open spec fn race_wf(m: RaceModel) -> bool {
    m.state == RaceState::Attempting ==> m.attempt is Some
}

/// Every step of the race preserves `race_wf`, and a race starts
/// well-formed.
pub proof fn lemma_one_attempt_live(
    queue: Seq<SocketAddress>,
    m: RaceModel,
    now: u64,
    timeout_ms: u64,
    event: ConnectPoll,
)
    requires
        race_wf(m),
    ensures
        race_wf(race_start(queue, now, timeout_ms)),
        race_wf(race_begin(m).0),
        race_wf(race_poll(m, now, event).0),
{
}

/// The deadline wins every tie: once the deadline has passed, a scheduling
/// step fails with `Timeout` whatever the in-flight attempt produced — even
/// an attempt about to succeed — and however many untried addresses remain
/// in the queue.
pub proof fn lemma_deadline_wins(m: RaceModel, now: u64, event: ConnectPoll)
    requires
        m.state == RaceState::Attempting,
        now >= m.deadline,
    ensures
        race_poll(m, now, event).1 == RaceStep::Failed(ResolverError::Timeout),
        race_poll(m, now, event).0.state == RaceState::Failed,
        race_poll(m, now, event).0.queue == m.queue,
{
}

} // verus!
