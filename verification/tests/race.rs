use std::collections::VecDeque;

use resolver::addr::IpAddress;
use resolver::addr::SocketAddress;
use resolver::race::ConnectPoll;
use resolver::race::RaceStep;
use resolver::race::TcpConnector;
use resolver::service::ResolverError;

fn sock(a: u8, b: u8, c: u8, d: u8, port: u16) -> SocketAddress {
    SocketAddress::new(IpAddress::v4(a, b, c, d), port)
}

fn queue(addrs: &[SocketAddress]) -> VecDeque<SocketAddress> {
    let mut q = VecDeque::new();
    for a in addrs {
        q.push_back(*a);
    }
    q
}

#[test]
fn third_candidate_wins() {
    // A and B fail, C succeeds: the race succeeds via C, and the final
    // result carries nothing of the earlier errors.
    let a = sock(10, 0, 0, 1, 80);
    let b = sock(10, 0, 0, 2, 80);
    let c = sock(10, 0, 0, 3, 80);
    let mut race = TcpConnector::with_timeout(queue(&[a, b, c]), 0, 1000);
    assert_eq!(race.begin(), Ok(a));
    assert_eq!(
        race.poll(10, ConnectPoll::Failed(String::from("connection refused"))),
        RaceStep::Next(b)
    );
    assert_eq!(
        race.poll(20, ConnectPoll::Failed(String::from("host unreachable"))),
        RaceStep::Next(c)
    );
    assert_eq!(race.poll(30, ConnectPoll::Connected), RaceStep::Succeeded);
}

#[test]
fn last_error_is_reported() {
    // Both candidates fail: the result wraps exactly the second (last)
    // underlying error.
    let a = sock(10, 0, 0, 1, 80);
    let b = sock(10, 0, 0, 2, 80);
    let mut race = TcpConnector::with_timeout(queue(&[a, b]), 0, 1000);
    assert_eq!(race.begin(), Ok(a));
    assert_eq!(
        race.poll(10, ConnectPoll::Failed(String::from("refused by a"))),
        RaceStep::Next(b)
    );
    assert_eq!(
        race.poll(20, ConnectPoll::Failed(String::from("refused by b"))),
        RaceStep::Failed(ResolverError::IoError(String::from("refused by b")))
    );
}

#[test]
fn deadline_beats_pending_attempt() {
    // The deadline elapses while an attempt is pending and an untried
    // address remains: the result is Timeout, not a further attempt.
    let a = sock(10, 0, 0, 1, 80);
    let b = sock(10, 0, 0, 2, 80);
    let mut race = TcpConnector::with_timeout(queue(&[a, b]), 0, 50);
    assert_eq!(race.begin(), Ok(a));
    assert_eq!(race.poll(10, ConnectPoll::Pending), RaceStep::Suspend);
    assert_eq!(
        race.poll(60, ConnectPoll::Pending),
        RaceStep::Failed(ResolverError::Timeout)
    );
}

#[test]
fn deadline_beats_success_at_boundary() {
    // The deadline check takes priority even over an attempt that is about
    // to succeed, and an attempt racing the deadline at the exact boundary
    // resolves in favor of Timeout.
    let a = sock(10, 0, 0, 1, 80);
    let mut race = TcpConnector::with_timeout(queue(&[a]), 0, 50);
    assert_eq!(race.begin(), Ok(a));
    assert_eq!(
        race.poll(50, ConnectPoll::Connected),
        RaceStep::Failed(ResolverError::Timeout)
    );
}

#[test]
fn slow_connects_time_out() {
    // A 10 ms budget with every candidate connect taking 50 ms: the first
    // scheduling opportunity falls past the deadline and the race fails
    // with Timeout.
    let a = sock(10, 0, 0, 1, 80);
    let mut race = TcpConnector::with_timeout(queue(&[a]), 0, 10);
    assert_eq!(race.begin(), Ok(a));
    assert_eq!(
        race.poll(50, ConnectPoll::Pending),
        RaceStep::Failed(ResolverError::Timeout)
    );
}

#[test]
fn empty_queue_fails_fast() {
    // An empty queue at race entry is rejected with a structured error
    // rather than relying on caller discipline.
    let mut race = TcpConnector::with_timeout(VecDeque::new(), 0, 1000);
    assert_eq!(
        race.begin(),
        Err(ResolverError::InvalidInput("no address to connect to"))
    );
}

#[test]
fn single_candidate_succeeds() {
    let a = sock(127, 0, 0, 1, 9000);
    let mut race = TcpConnector::new(queue(&[a]), 0);
    assert_eq!(race.deadline(), 1000);
    assert_eq!(race.begin(), Ok(a));
    assert_eq!(race.poll(999, ConnectPoll::Connected), RaceStep::Succeeded);
}

#[test]
fn deadline_saturates() {
    let a = sock(127, 0, 0, 1, 9000);
    let race = TcpConnector::with_timeout(queue(&[a]), u64::MAX - 3, 1000);
    assert_eq!(race.deadline(), u64::MAX);
}

#[test]
fn exhaustion_after_fallback() {
    // A single failure on the only remaining candidate after a fallback
    // still reports the last error.
    let a = sock(10, 0, 0, 1, 80);
    let b = sock(10, 0, 0, 2, 80);
    let c = sock(10, 0, 0, 3, 80);
    let mut race = TcpConnector::with_timeout(queue(&[a, b, c]), 100, 500);
    assert_eq!(race.begin(), Ok(a));
    assert_eq!(
        race.poll(150, ConnectPoll::Failed(String::from("e1"))),
        RaceStep::Next(b)
    );
    assert_eq!(
        race.poll(200, ConnectPoll::Failed(String::from("e2"))),
        RaceStep::Next(c)
    );
    assert_eq!(
        race.poll(250, ConnectPoll::Failed(String::from("e3"))),
        RaceStep::Failed(ResolverError::IoError(String::from("e3")))
    );
}
