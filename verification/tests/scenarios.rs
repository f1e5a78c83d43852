use netdial::dispatch::{tcp_connect_par, tcp_connect_seq, tcp_listen_seq, udp_bind_seq};
use netdial::endpoint::{join_port, Endpoint, IpAddress, MalformedEndpoint, SocketAddress};
use netdial::machine::{
    Action, AttemptStatus, Call, Event, Failure, Operation, Outcome, Phase, Strategy,
};

fn host(name: &str, port: u16) -> Result<Endpoint, MalformedEndpoint> {
    Ok(Endpoint::Host(name.to_string(), port))
}

fn literal(a: u8, b: u8, c: u8, d: u8, port: u16) -> SocketAddress {
    SocketAddress::new(IpAddress::v4(a, b, c, d), port)
}

fn two_addresses() -> Vec<IpAddress> {
    vec![IpAddress::v4(10, 0, 0, 1), IpAddress::v4(10, 0, 0, 2)]
}

fn finished(outcome: Outcome, cancel: Vec<usize>) -> Action {
    Action::Finish { outcome, cancel }
}

#[test]
fn literal_endpoint_connects_directly_without_resolution() {
    let addr = literal(203, 0, 113, 7, 443);
    let (mut call, first) = tcp_connect_seq(Ok(Endpoint::SocketAddr(addr)));
    assert_eq!(first, Action::Direct(addr));
    assert_eq!(call.phase(), Phase::Direct);
    assert_eq!(call.started(), 1);
    assert_eq!(call.candidates(), 1);
    assert_eq!(call.address_of(0), Some(addr));
    let done = call.step(Event::AttemptSucceeded(0));
    assert_eq!(done, finished(Outcome::Success { attempt: 0, addr }, vec![]));
    assert_eq!(call.started(), 1);
    assert_eq!(call.outcome(), Some(Outcome::Success { attempt: 0, addr }));
}

#[test]
fn literal_endpoint_never_asks_the_resolver_under_any_entry_point() {
    let addr = literal(203, 0, 113, 7, 443);
    let begun = vec![
        tcp_connect_par(Ok(Endpoint::SocketAddr(addr))),
        tcp_connect_seq(Ok(Endpoint::SocketAddr(addr))),
        tcp_listen_seq(Ok(Endpoint::SocketAddr(addr))),
        udp_bind_seq(Ok(Endpoint::SocketAddr(addr))),
    ];
    for (mut call, first) in begun {
        assert_eq!(first, Action::Direct(addr));
        let events = vec![
            Event::ResolveFailed,
            Event::Resolved(two_addresses()),
            Event::AttemptFailed(3),
            Event::AttemptFailed(0),
            Event::AttemptSucceeded(0),
        ];
        for event in events {
            let action = call.step(event);
            assert!(!matches!(action, Action::Resolve(_)));
        }
        assert_eq!(call.outcome(), Some(Outcome::Failure(Failure::DirectAttemptFailed)));
        assert_eq!(call.started(), 1);
    }
}

#[test]
fn literal_endpoint_failure_is_the_operations_own() {
    let addr = literal(192, 0, 2, 1, 7);
    let (mut call, _) = udp_bind_seq(Ok(Endpoint::SocketAddr(addr)));
    let done = call.step(Event::AttemptFailed(0));
    assert_eq!(done, finished(Outcome::Failure(Failure::DirectAttemptFailed), vec![]));
    assert_eq!(call.status_of(0), Some(AttemptStatus::Failed));
}

#[test]
fn sequential_connect_falls_back_to_second_address() {
    let (mut call, first) = tcp_connect_seq(host("example.test", 80));
    assert_eq!(first, Action::Resolve("example.test".to_string()));
    assert_eq!(call.phase(), Phase::Resolving(80));
    assert_eq!(call.started(), 0);

    let one = literal(10, 0, 0, 1, 80);
    let two = literal(10, 0, 0, 2, 80);
    let action = call.step(Event::Resolved(two_addresses()));
    assert_eq!(action, Action::Start { first: 0, addrs: vec![one] });
    assert_eq!(call.started(), 1);
    assert_eq!(call.status_of(1), Some(AttemptStatus::NotStarted));

    let action = call.step(Event::AttemptFailed(0));
    assert_eq!(action, Action::Start { first: 1, addrs: vec![two] });
    assert_eq!(call.started(), 2);

    let action = call.step(Event::AttemptSucceeded(1));
    assert_eq!(action, finished(Outcome::Success { attempt: 1, addr: two }, vec![]));
    assert_eq!(call.started(), 2);
    assert_eq!(call.status_of(0), Some(AttemptStatus::Failed));
    assert_eq!(call.status_of(1), Some(AttemptStatus::Succeeded));
}

#[test]
fn parallel_connect_first_success_cancels_the_other() {
    let (mut call, first) = tcp_connect_par(host("example.test", 80));
    assert_eq!(first, Action::Resolve("example.test".to_string()));

    let one = literal(10, 0, 0, 1, 80);
    let two = literal(10, 0, 0, 2, 80);
    let action = call.step(Event::Resolved(two_addresses()));
    assert_eq!(action, Action::Start { first: 0, addrs: vec![one, two] });
    assert_eq!(call.started(), 2);
    assert_eq!(call.status_of(0), Some(AttemptStatus::Pending));
    assert_eq!(call.status_of(1), Some(AttemptStatus::Pending));

    let action = call.step(Event::AttemptSucceeded(0));
    assert_eq!(action, finished(Outcome::Success { attempt: 0, addr: one }, vec![1]));
    assert_eq!(call.status_of(0), Some(AttemptStatus::Succeeded));
    assert_eq!(call.status_of(1), Some(AttemptStatus::Cancelled));

    // A late completion of the abandoned attempt changes nothing.
    assert_eq!(call.step(Event::AttemptSucceeded(1)), Action::Wait);
    assert_eq!(call.outcome(), Some(Outcome::Success { attempt: 0, addr: one }));
}

#[test]
fn empty_resolution_is_no_addresses_for_every_entry_point() {
    let begun = vec![
        tcp_connect_par(host("example.test", 80)),
        tcp_connect_seq(host("example.test", 80)),
        tcp_listen_seq(host("example.test", 80)),
        udp_bind_seq(host("example.test", 80)),
    ];
    for (mut call, _) in begun {
        let action = call.step(Event::Resolved(vec![]));
        assert_eq!(action, finished(Outcome::Failure(Failure::NoAddressesAvailable), vec![]));
        assert_eq!(call.started(), 0);
        assert_eq!(call.candidates(), 0);
        assert_eq!(call.status_of(0), None);
        assert_eq!(call.address_of(0), None);
    }
}

#[test]
fn malformed_endpoint_ends_at_once() {
    let (mut call, first) = tcp_listen_seq(Err(MalformedEndpoint));
    assert_eq!(first, finished(Outcome::Failure(Failure::MalformedEndpoint), vec![]));
    assert_eq!(call.outcome(), Some(Outcome::Failure(Failure::MalformedEndpoint)));
    assert_eq!(call.started(), 0);
    assert_eq!(call.step(Event::Resolved(two_addresses())), Action::Wait);
    assert_eq!(call.started(), 0);
    assert_eq!(call.outcome(), Some(Outcome::Failure(Failure::MalformedEndpoint)));
}

#[test]
fn resolver_failure_is_passed_on() {
    let (mut call, _) = tcp_connect_par(host("nowhere.test", 1));
    let action = call.step(Event::ResolveFailed);
    assert_eq!(action, finished(Outcome::Failure(Failure::ResolutionFailure), vec![]));
    assert_eq!(call.started(), 0);
}

#[test]
fn entry_points_fix_operation_and_strategy() {
    let (call, _) = tcp_connect_par(host("h", 1));
    assert_eq!((call.operation(), call.strategy()), (Operation::TcpConnect, Strategy::Parallel));
    let (call, _) = tcp_connect_seq(host("h", 1));
    assert_eq!((call.operation(), call.strategy()), (Operation::TcpConnect, Strategy::Sequential));
    let (call, _) = tcp_listen_seq(host("h", 1));
    assert_eq!((call.operation(), call.strategy()), (Operation::TcpListen, Strategy::Sequential));
    let (call, _) = udp_bind_seq(host("h", 1));
    assert_eq!((call.operation(), call.strategy()), (Operation::UdpBind, Strategy::Sequential));
}

#[test]
fn v4_is_the_big_endian_integer_of_its_octets() {
    assert_eq!(IpAddress::v4(10, 0, 0, 1), IpAddress::V4(0x0A00_0001));
    assert_eq!(IpAddress::v4(203, 0, 113, 7), IpAddress::V4(3405803783));
    assert_eq!(IpAddress::v4(255, 255, 255, 255), IpAddress::V4(u32::MAX));
    assert_eq!(IpAddress::v4(0, 0, 0, 0), IpAddress::V4(0));
}

#[test]
fn join_port_keeps_the_resolvers_order() {
    let ips = vec![IpAddress::V6(1), IpAddress::v4(10, 0, 0, 2), IpAddress::v4(10, 0, 0, 1)];
    assert_eq!(
        join_port(&ips, 8080),
        vec![
            SocketAddress { ip: IpAddress::V6(1), port: 8080 },
            literal(10, 0, 0, 2, 8080),
            literal(10, 0, 0, 1, 8080),
        ]
    );
    assert_eq!(join_port(&vec![], 1), vec![]);
}

#[test]
fn port_zero_and_port_max_are_kept() {
    let (mut call, _) = udp_bind_seq(host("h", 0));
    let action = call.step(Event::Resolved(vec![IpAddress::v4(127, 0, 0, 1)]));
    assert_eq!(action, Action::Start { first: 0, addrs: vec![literal(127, 0, 0, 1, 0)] });
    let (mut call, _) = udp_bind_seq(host("h", 65535));
    let action = call.step(Event::Resolved(vec![IpAddress::v4(127, 0, 0, 1)]));
    assert_eq!(action, Action::Start { first: 0, addrs: vec![literal(127, 0, 0, 1, 65535)] });
}

#[test]
fn call_on_addresses_alone() {
    let addrs = vec![literal(10, 0, 0, 1, 80)];
    let (call, action) = Call::attempt_all(Operation::TcpListen, Strategy::Sequential, addrs.clone());
    assert_eq!(action, Action::Start { first: 0, addrs });
    assert_eq!(call.phase(), Phase::Attempting);
    assert_eq!(call.operation(), Operation::TcpListen);
}
