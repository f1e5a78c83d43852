use netdial::dispatch::{chain, select_all_ok, tcp_connect_par, tcp_connect_seq, tcp_listen_seq};
use netdial::endpoint::{Endpoint, IpAddress, MalformedEndpoint, SocketAddress};
use netdial::machine::{Action, AttemptStatus, Call, Event, Failure, Operation, Outcome, Phase};

fn host(name: &str, port: u16) -> Result<Endpoint, MalformedEndpoint> {
    Ok(Endpoint::Host(name.to_string(), port))
}

fn ips(n: u8) -> Vec<IpAddress> {
    (1..=n).map(|d| IpAddress::v4(10, 0, 0, d)).collect()
}

fn addr(d: u8, port: u16) -> SocketAddress {
    SocketAddress::new(IpAddress::v4(10, 0, 0, d), port)
}

fn class(call: &Call) -> Option<Option<Failure>> {
    match call.outcome() {
        None => None,
        Some(Outcome::Success { .. }) => Some(None),
        Some(Outcome::Failure(f)) => Some(Some(f)),
    }
}

#[test]
fn sequential_success_on_kth_address_takes_k_invocations() {
    for k in 1..=5usize {
        let (mut call, _) = tcp_listen_seq(host("example.test", 9000));
        let mut invocations = 0;
        let mut action = call.step(Event::Resolved(ips(5)));
        loop {
            match action {
                Action::Start { first, addrs } => {
                    assert_eq!(addrs, vec![addr(first as u8 + 1, 9000)]);
                    assert_eq!(first, invocations);
                    invocations += 1;
                    action = if first + 1 == k {
                        call.step(Event::AttemptSucceeded(first))
                    } else {
                        call.step(Event::AttemptFailed(first))
                    };
                }
                Action::Finish { outcome, cancel } => {
                    assert_eq!(outcome, Outcome::Success { attempt: k - 1, addr: addr(k as u8, 9000) });
                    assert_eq!(cancel, vec![]);
                    break;
                }
                other => panic!("unexpected action {:?}", other),
            }
        }
        assert_eq!(invocations, k);
        assert_eq!(call.started(), k);
        for i in 0..5 {
            let expected = if i + 1 < k {
                AttemptStatus::Failed
            } else if i + 1 == k {
                AttemptStatus::Succeeded
            } else {
                AttemptStatus::NotStarted
            };
            assert_eq!(call.status_of(i), Some(expected));
        }
    }
}

#[test]
fn sequential_all_fail_after_exactly_n_invocations() {
    let (mut call, _) = tcp_connect_seq(host("example.test", 80));
    assert_eq!(call.step(Event::Resolved(ips(3))), Action::Start { first: 0, addrs: vec![addr(1, 80)] });
    assert_eq!(call.step(Event::AttemptFailed(0)), Action::Start { first: 1, addrs: vec![addr(2, 80)] });
    assert_eq!(call.step(Event::AttemptFailed(1)), Action::Start { first: 2, addrs: vec![addr(3, 80)] });
    assert_eq!(
        call.step(Event::AttemptFailed(2)),
        Action::Finish { outcome: Outcome::Failure(Failure::AllAttemptsFailed), cancel: vec![] }
    );
    assert_eq!(call.started(), 3);
    assert_eq!(call.candidates(), 3);
}

#[test]
fn sequential_ignores_completions_of_attempts_not_in_flight() {
    let (mut call, _) = tcp_connect_seq(host("example.test", 80));
    call.step(Event::Resolved(ips(3)));
    assert_eq!(call.step(Event::AttemptFailed(1)), Action::Wait);
    assert_eq!(call.step(Event::AttemptSucceeded(2)), Action::Wait);
    assert_eq!(call.step(Event::AttemptSucceeded(3)), Action::Wait);
    assert_eq!(call.step(Event::ResolveFailed), Action::Wait);
    assert_eq!(call.step(Event::Resolved(ips(1))), Action::Wait);
    assert_eq!(call.started(), 1);
    assert_eq!(call.candidates(), 3);
    assert_eq!(call.phase(), Phase::Attempting);
    assert_eq!(call.status_of(0), Some(AttemptStatus::Pending));
}

#[test]
fn parallel_starts_every_attempt_at_once() {
    let (mut call, _) = tcp_connect_par(host("example.test", 443));
    let action = call.step(Event::Resolved(ips(4)));
    assert_eq!(
        action,
        Action::Start { first: 0, addrs: vec![addr(1, 443), addr(2, 443), addr(3, 443), addr(4, 443)] }
    );
    assert_eq!(call.started(), 4);
    for i in 0..4 {
        assert_eq!(call.status_of(i), Some(AttemptStatus::Pending));
    }
}

#[test]
fn parallel_winner_abandons_exactly_those_still_in_flight() {
    let (mut call, _) = tcp_connect_par(host("example.test", 443));
    call.step(Event::Resolved(ips(4)));
    assert_eq!(call.step(Event::AttemptFailed(1)), Action::Wait);
    let action = call.step(Event::AttemptSucceeded(2));
    assert_eq!(
        action,
        Action::Finish { outcome: Outcome::Success { attempt: 2, addr: addr(3, 443) }, cancel: vec![0, 3] }
    );
    assert_eq!(call.status_of(0), Some(AttemptStatus::Cancelled));
    assert_eq!(call.status_of(1), Some(AttemptStatus::Failed));
    assert_eq!(call.status_of(2), Some(AttemptStatus::Succeeded));
    assert_eq!(call.status_of(3), Some(AttemptStatus::Cancelled));
    for i in 0..4 {
        assert_ne!(call.status_of(i), Some(AttemptStatus::Pending));
    }
}

#[test]
fn parallel_fails_only_when_all_have_failed() {
    let (mut call, _) = tcp_connect_par(host("example.test", 443));
    call.step(Event::Resolved(ips(3)));
    assert_eq!(call.step(Event::AttemptFailed(2)), Action::Wait);
    assert_eq!(call.step(Event::AttemptFailed(2)), Action::Wait);
    assert_eq!(call.outcome(), None);
    assert_eq!(call.step(Event::AttemptFailed(0)), Action::Wait);
    assert_eq!(
        call.step(Event::AttemptFailed(1)),
        Action::Finish { outcome: Outcome::Failure(Failure::AllAttemptsFailed), cancel: vec![] }
    );
    assert_eq!(call.started(), 3);
    assert_eq!(call.step(Event::AttemptSucceeded(1)), Action::Wait);
    assert_eq!(call.outcome(), Some(Outcome::Failure(Failure::AllAttemptsFailed)));
}

#[test]
fn parallel_single_address() {
    let (mut call, _) = tcp_connect_par(host("example.test", 443));
    assert_eq!(call.step(Event::Resolved(ips(1))), Action::Start { first: 0, addrs: vec![addr(1, 443)] });
    assert_eq!(
        call.step(Event::AttemptSucceeded(0)),
        Action::Finish { outcome: Outcome::Success { attempt: 0, addr: addr(1, 443) }, cancel: vec![] }
    );
}

#[test]
fn outcome_class_is_stable_across_repeats_and_completion_orders() {
    // The operation succeeds on the second address only.
    let orders: Vec<Vec<usize>> = vec![vec![0, 1, 2], vec![2, 1, 0], vec![1, 0, 2], vec![2, 0, 1]];
    let mut classes = Vec::new();
    for order in orders.iter() {
        for _ in 0..2 {
            let (mut call, _) = tcp_connect_par(host("example.test", 80));
            call.step(Event::Resolved(ips(3)));
            for &i in order.iter() {
                if i == 1 {
                    call.step(Event::AttemptSucceeded(i));
                } else {
                    call.step(Event::AttemptFailed(i));
                }
            }
            classes.push(class(&call));
        }
    }
    let (mut call, _) = tcp_connect_seq(host("example.test", 80));
    call.step(Event::Resolved(ips(3)));
    call.step(Event::AttemptFailed(0));
    call.step(Event::AttemptSucceeded(1));
    classes.push(class(&call));
    for c in classes {
        assert_eq!(c, Some(None));
    }
}

#[test]
fn race_on_given_addresses() {
    let addrs = vec![addr(1, 80), addr(2, 80)];
    let (mut call, action) = select_all_ok(Operation::TcpConnect, addrs.clone());
    assert_eq!(action, Action::Start { first: 0, addrs });
    assert_eq!(call.started(), 2);
    assert_eq!(
        call.step(Event::AttemptSucceeded(1)),
        Action::Finish { outcome: Outcome::Success { attempt: 1, addr: addr(2, 80) }, cancel: vec![0] }
    );
}

#[test]
fn chain_on_given_addresses() {
    let (call, action) = chain(Operation::UdpBind, vec![]);
    assert_eq!(
        action,
        Action::Finish { outcome: Outcome::Failure(Failure::NoAddressesAvailable), cancel: vec![] }
    );
    assert_eq!(call.started(), 0);
    let (mut call, action) = chain(Operation::UdpBind, vec![addr(1, 53), addr(2, 53)]);
    assert_eq!(action, Action::Start { first: 0, addrs: vec![addr(1, 53)] });
    assert_eq!(call.step(Event::AttemptFailed(0)), Action::Start { first: 1, addrs: vec![addr(2, 53)] });
    assert_eq!(call.started(), 2);
}
