//! The entry points: one per pairing of socket operation and strategy.
//!
//! Each takes the endpoint as the conversion step delivered it, and returns
//! the call together with the first thing to do.

use vstd::prelude::*;
use crate::endpoint::{Endpoint, EndpointView, MalformedEndpoint, SocketAddress};
use crate::machine::{
    attempt_all, numbers, Action, ActionView, AttemptStatus, Call, CallView, Failure, Operation,
    Outcome, Phase, Strategy,
};

verus! {

/// The value of what the conversion step delivered.
pub open spec fn normalized(ep: Result<Endpoint, MalformedEndpoint>) -> Result<EndpointView, MalformedEndpoint> {
    match ep {
        Ok(endpoint) => Ok(endpoint@),
        Err(e) => Err(e),
    }
}

/// The state in which a call begins, and its first action.
///
/// No endpoint: the call is over at once. A literal address: the operation
/// is performed on it directly. A host name: the resolver is asked.
pub open spec fn begin(
    operation: Operation,
    strategy: Strategy,
    ep: Result<EndpointView, MalformedEndpoint>,
) -> (CallView, ActionView) {
    let idle = CallView {
        operation,
        strategy,
        phase: Phase::Done(Outcome::Failure(Failure::MalformedEndpoint)),
        candidates: Seq::empty(),
        status: Seq::empty(),
        started: 0,
    };
    match ep {
        Err(_) => (
            idle,
            ActionView::Finish {
                outcome: Outcome::Failure(Failure::MalformedEndpoint),
                cancel: Seq::empty(),
            },
        ),
        Ok(EndpointView::SocketAddr(addr)) => (
            CallView {
                phase: Phase::Direct,
                candidates: seq![addr],
                status: seq![AttemptStatus::Pending],
                started: 1,
                ..idle
            },
            ActionView::Direct(addr),
        ),
        Ok(EndpointView::Host(name, port)) => (
            CallView { phase: Phase::Resolving(port), ..idle },
            ActionView::Resolve(name),
        ),
    }
}

/// Begins a call of `operation` under `strategy`: resolves only if the
/// endpoint is a host name.
pub fn if_host_resolve(
    operation: Operation,
    strategy: Strategy,
    ep: Result<Endpoint, MalformedEndpoint>,
) -> (r: (Call, Action))
    ensures
        r.0.wf(),
        r.0@ == begin(operation, strategy, normalized(ep)).0,
        r.1@ == begin(operation, strategy, normalized(ep)).1,
{
    match ep {
        Err(_) => {
            let outcome = Outcome::Failure(Failure::MalformedEndpoint);
            let cancel: Vec<usize> = Vec::new();
            assert(numbers(cancel@) =~= Seq::<int>::empty());
            (Call::idle(operation, strategy, Phase::Done(outcome)), Action::Finish { outcome, cancel })
        },
        Ok(Endpoint::SocketAddr(addr)) => (Call::direct(operation, strategy, addr), Action::Direct(addr)),
        Ok(Endpoint::Host(name, port)) => (
            Call::idle(operation, strategy, Phase::Resolving(port)),
            Action::Resolve(name),
        ),
    }
}

/// The race: starts an attempt on every one of `addrs` at once. The first
/// to succeed wins and the others are abandoned; the call fails when all
/// have failed. There must be an address to race on.
pub fn select_all_ok(operation: Operation, addrs: Vec<SocketAddress>) -> (r: (Call, Action))
    requires
        addrs@.len() >= 1,
    ensures
        r.0.wf(),
        r.0@ == attempt_all(operation, Strategy::Parallel, addrs@).0,
        r.1@ == (ActionView::Start { first: 0, addrs: addrs@ }),
        r.0@.started == addrs@.len(),
{
    assert(addrs@.take(addrs@.len() as int) =~= addrs@);
    Call::attempt_all(operation, Strategy::Parallel, addrs)
}

/// The fallback chain: attempts `addrs` one at a time, in order, each only
/// when the one before it has failed. With no address the call ends at once
/// with `NoAddressesAvailable`.
pub fn chain(operation: Operation, addrs: Vec<SocketAddress>) -> (r: (Call, Action))
    ensures
        r.0.wf(),
        r.0@ == attempt_all(operation, Strategy::Sequential, addrs@).0,
        r.1@ == attempt_all(operation, Strategy::Sequential, addrs@).1,
        addrs@.len() == 0 ==> r.1@ == (ActionView::Finish {
            outcome: Outcome::Failure(Failure::NoAddressesAvailable),
            cancel: Seq::empty(),
        }),
        addrs@.len() >= 1 ==> r.1@ == (ActionView::Start { first: 0, addrs: seq![addrs@[0]] }),
{
    assert(addrs@.len() >= 1 ==> addrs@.take(1) =~= seq![addrs@[0]]);
    Call::attempt_all(operation, Strategy::Sequential, addrs)
}

/// Begins a TCP connect that races all resolved addresses.
pub fn tcp_connect_par(ep: Result<Endpoint, MalformedEndpoint>) -> (r: (Call, Action))
    ensures
        r.0.wf(),
        r.0@ == begin(Operation::TcpConnect, Strategy::Parallel, normalized(ep)).0,
        r.1@ == begin(Operation::TcpConnect, Strategy::Parallel, normalized(ep)).1,
{
    if_host_resolve(Operation::TcpConnect, Strategy::Parallel, ep)
}

/// Begins a TCP connect that tries the resolved addresses one after another.
pub fn tcp_connect_seq(ep: Result<Endpoint, MalformedEndpoint>) -> (r: (Call, Action))
    ensures
        r.0.wf(),
        r.0@ == begin(Operation::TcpConnect, Strategy::Sequential, normalized(ep)).0,
        r.1@ == begin(Operation::TcpConnect, Strategy::Sequential, normalized(ep)).1,
{
    if_host_resolve(Operation::TcpConnect, Strategy::Sequential, ep)
}

/// Begins a TCP listen that tries the resolved addresses one after another.
pub fn tcp_listen_seq(ep: Result<Endpoint, MalformedEndpoint>) -> (r: (Call, Action))
    ensures
        r.0.wf(),
        r.0@ == begin(Operation::TcpListen, Strategy::Sequential, normalized(ep)).0,
        r.1@ == begin(Operation::TcpListen, Strategy::Sequential, normalized(ep)).1,
{
    if_host_resolve(Operation::TcpListen, Strategy::Sequential, ep)
}

/// Begins a UDP bind that tries the resolved addresses one after another.
pub fn udp_bind_seq(ep: Result<Endpoint, MalformedEndpoint>) -> (r: (Call, Action))
    ensures
        r.0.wf(),
        r.0@ == begin(Operation::UdpBind, Strategy::Sequential, normalized(ep)).0,
        r.1@ == begin(Operation::UdpBind, Strategy::Sequential, normalized(ep)).1,
{
    if_host_resolve(Operation::UdpBind, Strategy::Sequential, ep)
}

} // verus!
