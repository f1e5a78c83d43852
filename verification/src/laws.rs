//! What holds of every call, proved from the transition function.

use vstd::prelude::*;
use crate::endpoint::{EndpointView, IpAddress, MalformedEndpoint, SocketAddress, with_port};
use crate::machine::{
    all_are, awaited, expressible, has_pending, losers, next, next_keeps_valid, valid, ActionView,
    AttemptStatus, CallView, EventView, Failure, Operation, Outcome, Phase, Strategy,
};
use crate::dispatch::begin;

verus! {

/// The state that `c` reaches by taking `events` in order.
pub open spec fn run(c: CallView, events: Seq<EventView>) -> CallView
    decreases events.len(),
{
    if events.len() == 0 {
        c
    } else {
        next(run(c, events.drop_last()), events.last()).0
    }
}

/// The actions that `c` answers to `events` with, in order.
pub open spec fn trace(c: CallView, events: Seq<EventView>) -> Seq<ActionView>
    decreases events.len(),
{
    if events.len() == 0 {
        Seq::empty()
    } else {
        trace(c, events.drop_last()).push(next(run(c, events.drop_last()), events.last()).1)
    }
}

/// Whether each of `events` is the value of some `Event`.
pub open spec fn all_expressible(events: Seq<EventView>) -> bool {
    forall|k: int| 0 <= k < events.len() ==> expressible(#[trigger] events[k])
}

/// A call begins in a valid state, whatever the endpoint.
pub proof fn law_begins_valid(
    operation: Operation,
    strategy: Strategy,
    ep: Result<EndpointView, MalformedEndpoint>,
)
    ensures
        valid(begin(operation, strategy, ep).0),
{
}

/// Every state that a valid state reaches is valid.
pub proof fn law_run_keeps_valid(c: CallView, events: Seq<EventView>)
    requires
        valid(c),
        all_expressible(events),
    ensures
        valid(run(c, events)),
    decreases events.len(),
{
    if events.len() > 0 {
        law_run_keeps_valid(c, events.drop_last());
        next_keeps_valid(run(c, events.drop_last()), events.last());
    }
}

/// The resolver is asked by the first action of a call on a host name, and
/// never otherwise: a call on a literal address begins with the direct
/// operation on that address, and no later action of any call asks the
/// resolver.
pub proof fn law_literal_never_resolves(
    operation: Operation,
    strategy: Strategy,
    addr: SocketAddress,
    events: Seq<EventView>,
)
    ensures
        begin(operation, strategy, Ok(EndpointView::SocketAddr(addr))).1 == ActionView::Direct(addr),
        trace(begin(operation, strategy, Ok(EndpointView::SocketAddr(addr))).0, events).len()
            == events.len(),
        forall|k: int| 0 <= k < events.len() ==> !(#[trigger] trace(
            begin(operation, strategy, Ok(EndpointView::SocketAddr(addr))).0,
            events,
        )[k] is Resolve),
{
    lemma_trace_never_resolves(begin(operation, strategy, Ok(EndpointView::SocketAddr(addr))).0, events);
}

/// No answer to an event asks the resolver.
pub proof fn lemma_trace_never_resolves(c: CallView, events: Seq<EventView>)
    ensures
        trace(c, events).len() == events.len(),
        forall|k: int| 0 <= k < events.len() ==> !(#[trigger] trace(c, events)[k] is Resolve),
    decreases events.len(),
{
    if events.len() > 0 {
        lemma_trace_never_resolves(c, events.drop_last());
    }
}

/// A call never starts more attempts than it has addresses, and the
/// attempts started are those numbered below the count.
pub proof fn law_at_most_one_attempt_per_address(c: CallView)
    requires
        valid(c),
    ensures
        c.started <= c.candidates.len(),
        forall|i: int| 0 <= i < c.status.len() ==> (#[trigger] c.status[i] != AttemptStatus::NotStarted
            <==> i < c.started),
{
}

/// Under the sequential strategy at most one attempt is in flight.
pub proof fn law_sequential_one_in_flight(c: CallView, i: int, j: int)
    requires
        valid(c),
        c.strategy == Strategy::Sequential,
        0 <= i < c.status.len(),
        0 <= j < c.status.len(),
        c.status[i] == AttemptStatus::Pending,
        c.status[j] == AttemptStatus::Pending,
    ensures
        i == j,
{
}

/// Under the sequential strategy a call that succeeded on attempt `k`
/// (counted from 0) started exactly `k + 1` attempts: those before it
/// failed, and none after it was started.
pub proof fn law_sequential_stops_at_first_success(c: CallView, k: int)
    requires
        valid(c),
        c.strategy == Strategy::Sequential,
        c.phase matches Phase::Done(Outcome::Success { attempt, .. }) && attempt == k,
    ensures
        c.started == k + 1,
        c.started <= c.candidates.len(),
        all_are(c.status, 0, k, AttemptStatus::Failed),
        all_are(c.status, k + 1, c.status.len() as int, AttemptStatus::NotStarted),
{
}

/// Under the sequential strategy, when the attempt in flight fails, the
/// next address is attempted, alone, if there is one; otherwise the call
/// ends with every attempt failed. When it succeeds the call ends at once,
/// with nothing to abandon.
pub proof fn law_sequential_advances_on_failure(c: CallView, i: int)
    requires
        valid(c),
        c.strategy == Strategy::Sequential,
        c.phase is Attempting,
        awaited(c, i),
    ensures
        i + 1 == c.started,
        i + 1 < c.candidates.len() ==> next(c, EventView::AttemptFailed(i)).1 == (ActionView::Start {
            first: i + 1,
            addrs: seq![c.candidates[i + 1]],
        }) && next(c, EventView::AttemptFailed(i)).0.started == c.started + 1,
        i + 1 == c.candidates.len() ==> next(c, EventView::AttemptFailed(i)).1 == (ActionView::Finish {
            outcome: Outcome::Failure(Failure::AllAttemptsFailed),
            cancel: Seq::empty(),
        }),
        next(c, EventView::AttemptSucceeded(i)).1 == (ActionView::Finish {
            outcome: Outcome::Success { attempt: i as usize, addr: c.candidates[i] },
            cancel: Seq::empty(),
        }),
        next(c, EventView::AttemptSucceeded(i)).0.started == c.started,
{
    let status = c.status.update(i, AttemptStatus::Failed);
    assert(!has_pending(status));
    lemma_losers(c.status, i);
    let l = losers(c.status, i);
    if l.len() > 0 {
        assert(l.contains(l[0]));
    }
    assert(l =~= Seq::empty());
}

/// The abandoned attempts are exactly those in flight other than the winner.
pub proof fn lemma_losers(status: Seq<AttemptStatus>, winner: int)
    ensures
        forall|j: int| #[trigger] losers(status, winner).contains(j) <==> (0 <= j < status.len()
            && status[j] == AttemptStatus::Pending && j != winner),
    decreases status.len(),
{
    if status.len() > 0 {
        let i = status.len() - 1;
        let before = losers(status.drop_last(), winner);
        lemma_losers(status.drop_last(), winner);
        assert forall|j: int| #[trigger] losers(status, winner).contains(j) <==> (0 <= j < status.len()
            && status[j] == AttemptStatus::Pending && j != winner) by {
            if status[i] == AttemptStatus::Pending && i != winner {
                let l = before.push(i);
                assert(l[before.len() as int] == i);
                if before.contains(j) {
                    let k = choose|k: int| 0 <= k < before.len() && before[k] == j;
                    assert(l[k] == j);
                }
            }
            if 0 <= j < i {
                assert(status.drop_last()[j] == status[j]);
            }
        }
    }
}

/// Under the parallel strategy a resolution to `N >= 1` addresses starts
/// `N` attempts at once, one on each address paired with the port, in the
/// resolver's order.
pub proof fn law_parallel_starts_all(c: CallView, port: u16, ips: Seq<IpAddress>)
    requires
        valid(c),
        c.strategy == Strategy::Parallel,
        c.phase == Phase::Resolving(port),
        ips.len() >= 1,
    ensures
        next(c, EventView::Resolved(ips)).1 == (ActionView::Start { first: 0, addrs: with_port(ips, port) }),
        next(c, EventView::Resolved(ips)).0.phase is Attempting,
        next(c, EventView::Resolved(ips)).0.started == ips.len(),
        next(c, EventView::Resolved(ips)).0.candidates == with_port(ips, port),
        all_are(next(c, EventView::Resolved(ips)).0.status, 0, ips.len() as int, AttemptStatus::Pending),
{
    let addrs = with_port(ips, port);
    assert(addrs.take(addrs.len() as int) =~= addrs);
}

/// Under the sequential strategy a resolution to `N >= 1` addresses starts
/// one attempt, on the first address.
pub proof fn law_sequential_starts_one(c: CallView, port: u16, ips: Seq<IpAddress>)
    requires
        valid(c),
        c.strategy == Strategy::Sequential,
        c.phase == Phase::Resolving(port),
        ips.len() >= 1,
    ensures
        next(c, EventView::Resolved(ips)).1 == (ActionView::Start {
            first: 0,
            addrs: seq![SocketAddress { ip: ips[0], port }],
        }),
        next(c, EventView::Resolved(ips)).0.started == 1,
        next(c, EventView::Resolved(ips)).0.candidates == with_port(ips, port),
{
    let addrs = with_port(ips, port);
    assert(addrs.take(1) =~= seq![SocketAddress { ip: ips[0], port }]);
}

/// The first success wins, whatever became of the other attempts: the call
/// is done with that attempt's address, the attempts to abandon are exactly
/// the others that were in flight, and nothing is in flight afterwards.
pub proof fn law_first_success_wins(c: CallView, i: int)
    requires
        valid(c),
        awaited(c, i),
    ensures
        next(c, EventView::AttemptSucceeded(i)).0.phase == Phase::Done(
            Outcome::Success { attempt: i as usize, addr: c.candidates[i] },
        ),
        next(c, EventView::AttemptSucceeded(i)).1 matches ActionView::Finish { outcome, cancel }
            && outcome == (Outcome::Success { attempt: i as usize, addr: c.candidates[i] })
            && forall|j: int| #[trigger] cancel.contains(j) <==> (0 <= j < c.status.len() && c.status[j]
                == AttemptStatus::Pending && j != i),
        !has_pending(next(c, EventView::AttemptSucceeded(i)).0.status),
{
    lemma_losers(c.status, i);
}

/// Once a call is done nothing is in flight, and no event changes it: the
/// outcome is fixed once.
pub proof fn law_done_is_final(c: CallView, ev: EventView)
    requires
        valid(c),
        c.phase is Done,
    ensures
        !has_pending(c.status),
        next(c, ev) == (c, ActionView::Wait),
{
}

/// A resolution to no address ends the call with `NoAddressesAvailable`
/// under either strategy, with no attempt started.
pub proof fn law_empty_resolution(c: CallView, port: u16)
    requires
        valid(c),
        c.phase == Phase::Resolving(port),
    ensures
        next(c, EventView::Resolved(Seq::empty())).1 == (ActionView::Finish {
            outcome: Outcome::Failure(Failure::NoAddressesAvailable),
            cancel: Seq::empty(),
        }),
        next(c, EventView::Resolved(Seq::empty())).0.phase == Phase::Done(
            Outcome::Failure(Failure::NoAddressesAvailable),
        ),
        next(c, EventView::Resolved(Seq::empty())).0.started == 0,
        next(c, EventView::Resolved(Seq::empty())).0.status.len() == 0,
{
}

/// A call that ended with `AllAttemptsFailed` had `N >= 1` addresses,
/// started an attempt on each, and each failed.
pub proof fn law_all_failed_after_all_attempts(c: CallView)
    requires
        valid(c),
        c.phase == Phase::Done(Outcome::Failure(Failure::AllAttemptsFailed)),
    ensures
        c.candidates.len() >= 1,
        c.started == c.candidates.len(),
        all_are(c.status, 0, c.status.len() as int, AttemptStatus::Failed),
{
}

/// When the last attempt that had not failed fails, the call ends with
/// `AllAttemptsFailed`; while another is in flight the call waits.
pub proof fn law_last_failure_ends(c: CallView, i: int)
    requires
        valid(c),
        c.phase is Attempting,
        awaited(c, i),
    ensures
        (forall|j: int| 0 <= j < c.status.len() && j != i ==> #[trigger] c.status[j]
            == AttemptStatus::Failed) ==> next(c, EventView::AttemptFailed(i)).0.phase == Phase::Done(
            Outcome::Failure(Failure::AllAttemptsFailed),
        ),
        (exists|j: int| 0 <= j < c.status.len() && j != i && #[trigger] c.status[j]
            == AttemptStatus::Pending) ==> next(c, EventView::AttemptFailed(i)) == (
            CallView { status: c.status.update(i, AttemptStatus::Failed), ..c },
            ActionView::Wait,
        ),
{
    let status = c.status.update(i, AttemptStatus::Failed);
    if forall|j: int| 0 <= j < c.status.len() && j != i ==> #[trigger] c.status[j] == AttemptStatus::Failed {
        assert(!has_pending(status));
        if c.started < c.status.len() {
            assert(c.status[c.started as int] == AttemptStatus::NotStarted);
        }
    }
    if exists|j: int| 0 <= j < c.status.len() && j != i && #[trigger] c.status[j] == AttemptStatus::Pending {
        let j = choose|j: int| 0 <= j < c.status.len() && j != i && #[trigger] c.status[j]
            == AttemptStatus::Pending;
        assert(status[j] == AttemptStatus::Pending);
    }
}

/// The class of an outcome: `None` for a success, else the failure.
pub open spec fn class_of(o: Outcome) -> Option<Failure> {
    match o {
        Outcome::Success { .. } => None,
        Outcome::Failure(f) => Some(f),
    }
}

/// Whether `ev`, arriving in state `c`, is what a deterministic resolver and
/// operation report: the resolver answers `resolution` (`None` for its
/// failure), and the operation succeeds exactly on the addresses in `good`.
pub open spec fn agrees(
    c: CallView,
    ev: EventView,
    resolution: Option<Seq<IpAddress>>,
    good: Set<SocketAddress>,
) -> bool {
    match ev {
        EventView::Resolved(ips) => resolution == Some(ips),
        EventView::ResolveFailed => resolution is None,
        EventView::AttemptSucceeded(i) => 0 <= i < c.candidates.len() ==> good.contains(c.candidates[i]),
        EventView::AttemptFailed(i) => 0 <= i < c.candidates.len() ==> !good.contains(c.candidates[i]),
    }
}

/// Whether each of `events`, taken from `c` on, agrees with `resolution` and
/// `good`. The order in which attempts complete is left open.
pub open spec fn faithful(
    c: CallView,
    events: Seq<EventView>,
    resolution: Option<Seq<IpAddress>>,
    good: Set<SocketAddress>,
) -> bool
    decreases events.len(),
{
    events.len() == 0 || (faithful(c, events.drop_last(), resolution, good) && agrees(
        run(c, events.drop_last()),
        events.last(),
        resolution,
        good,
    ))
}

/// Whether the operation succeeds on one of `addrs`.
pub open spec fn some_good(addrs: Seq<SocketAddress>, good: Set<SocketAddress>) -> bool {
    exists|i: int| 0 <= i < addrs.len() && good.contains(#[trigger] addrs[i])
}

/// The class of outcome that an endpoint, a resolver's answer and the set of
/// addresses on which the operation succeeds call for.
pub open spec fn expected_class(
    ep: Result<EndpointView, MalformedEndpoint>,
    resolution: Option<Seq<IpAddress>>,
    good: Set<SocketAddress>,
) -> Option<Failure> {
    match ep {
        Err(_) => Some(Failure::MalformedEndpoint),
        Ok(EndpointView::SocketAddr(addr)) => if good.contains(addr) {
            None
        } else {
            Some(Failure::DirectAttemptFailed)
        },
        Ok(EndpointView::Host(_, port)) => match resolution {
            None => Some(Failure::ResolutionFailure),
            Some(ips) => if ips.len() == 0 {
                Some(Failure::NoAddressesAvailable)
            } else if some_good(with_port(ips, port), good) {
                None
            } else {
                Some(Failure::AllAttemptsFailed)
            },
        },
    }
}

/// The addresses that a call on `ep` has to attempt once the resolver has
/// answered `resolution`, in the order to attempt them.
pub open spec fn addresses_of(
    ep: Result<EndpointView, MalformedEndpoint>,
    resolution: Option<Seq<IpAddress>>,
) -> Seq<SocketAddress> {
    match ep {
        Err(_) => Seq::empty(),
        Ok(EndpointView::SocketAddr(addr)) => seq![addr],
        Ok(EndpointView::Host(_, port)) => match resolution {
            None => Seq::empty(),
            Some(ips) => with_port(ips, port),
        },
    }
}

/// What ties a state to the endpoint it began with and to what the resolver
/// and the operation report.
pub open spec fn tied(
    c: CallView,
    ep: Result<EndpointView, MalformedEndpoint>,
    resolution: Option<Seq<IpAddress>>,
    good: Set<SocketAddress>,
) -> bool {
    &&& valid(c)
    &&& forall|i: int| 0 <= i < c.status.len() ==> (#[trigger] c.status[i] == AttemptStatus::Failed
        ==> !good.contains(c.candidates[i])) && (c.status[i] == AttemptStatus::Succeeded
        ==> good.contains(c.candidates[i]))
    &&& c.candidates.len() > 0 ==> c.candidates == addresses_of(ep, resolution)
    &&& match c.phase {
        Phase::Resolving(port) => ep matches Ok(EndpointView::Host(_, p)) && p == port,
        Phase::Direct => ep matches Ok(EndpointView::SocketAddr(_)),
        Phase::Attempting => ep matches Ok(EndpointView::Host(_, _)),
        Phase::Done(o) => class_of(o) == expected_class(ep, resolution, good),
    }
}

/// A transition on an agreeing event keeps the state tied.
pub proof fn lemma_next_keeps_tied(
    c: CallView,
    ev: EventView,
    ep: Result<EndpointView, MalformedEndpoint>,
    resolution: Option<Seq<IpAddress>>,
    good: Set<SocketAddress>,
)
    requires
        tied(c, ep, resolution, good),
        agrees(c, ev, resolution, good),
        expressible(ev),
    ensures
        tied(next(c, ev).0, ep, resolution, good),
{
    next_keeps_valid(c, ev);
    let d = next(c, ev).0;
    match c.phase {
        Phase::Resolving(port) => {},
        Phase::Direct => {},
        Phase::Attempting => {
            match ev {
                EventView::AttemptSucceeded(i) => {
                    if awaited(c, i) {
                        assert(good.contains(c.candidates[i]));
                    }
                },
                EventView::AttemptFailed(i) => {
                    if awaited(c, i) {
                        if d.phase is Done {
                            let addrs = addresses_of(ep, resolution);
                            assert forall|j: int| 0 <= j < addrs.len() implies !good.contains(
                                #[trigger] addrs[j],
                            ) by {
                                assert(d.status[j] == AttemptStatus::Failed);
                            }
                        }
                    }
                },
                _ => {},
            }
        },
        Phase::Done(_) => {},
    }
}

/// A faithful run keeps the state tied.
pub proof fn lemma_run_keeps_tied(
    c: CallView,
    events: Seq<EventView>,
    ep: Result<EndpointView, MalformedEndpoint>,
    resolution: Option<Seq<IpAddress>>,
    good: Set<SocketAddress>,
)
    requires
        tied(c, ep, resolution, good),
        faithful(c, events, resolution, good),
        all_expressible(events),
    ensures
        tied(run(c, events), ep, resolution, good),
    decreases events.len(),
{
    if events.len() > 0 {
        lemma_run_keeps_tied(c, events.drop_last(), ep, resolution, good);
        lemma_next_keeps_tied(run(c, events.drop_last()), events.last(), ep, resolution, good);
    }
}

/// With a deterministic resolver and operation, the class of the outcome of
/// a call is fixed by the endpoint, the resolver's answer and the addresses
/// on which the operation succeeds: it depends neither on the strategy nor on
/// the order in which attempts complete.
pub proof fn law_outcome_class_is_determined(
    operation: Operation,
    strategy: Strategy,
    ep: Result<EndpointView, MalformedEndpoint>,
    resolution: Option<Seq<IpAddress>>,
    good: Set<SocketAddress>,
    events: Seq<EventView>,
)
    requires
        faithful(begin(operation, strategy, ep).0, events, resolution, good),
        all_expressible(events),
    ensures
        run(begin(operation, strategy, ep).0, events).phase matches Phase::Done(o) ==> class_of(o)
            == expected_class(ep, resolution, good),
{
    lemma_run_keeps_tied(begin(operation, strategy, ep).0, events, ep, resolution, good);
}

/// Repeating a call with the same deterministic resolver and operation gives
/// the same class of outcome, whatever the order in which attempts completed
/// each time.
pub proof fn law_same_class_each_time(
    operation: Operation,
    strategy: Strategy,
    ep: Result<EndpointView, MalformedEndpoint>,
    resolution: Option<Seq<IpAddress>>,
    good: Set<SocketAddress>,
    first: Seq<EventView>,
    second: Seq<EventView>,
)
    requires
        faithful(begin(operation, strategy, ep).0, first, resolution, good),
        faithful(begin(operation, strategy, ep).0, second, resolution, good),
        all_expressible(first),
        all_expressible(second),
        run(begin(operation, strategy, ep).0, first).phase is Done,
        run(begin(operation, strategy, ep).0, second).phase is Done,
    ensures
        class_of(run(begin(operation, strategy, ep).0, first).phase->Done_0) == class_of(
            run(begin(operation, strategy, ep).0, second).phase->Done_0,
        ),
{
    law_outcome_class_is_determined(operation, strategy, ep, resolution, good, first);
    law_outcome_class_is_determined(operation, strategy, ep, resolution, good, second);
}

/// With a deterministic resolver and operation, a call that succeeds does so
/// on one of the endpoint's addresses, and on one on which the operation
/// succeeds. Under the sequential strategy it is the first such address in
/// the resolver's order, and the attempts started are those up to it: if the
/// `k`-th address is the first to succeed, exactly `k` attempts are made.
pub proof fn law_success_is_on_a_good_address(
    operation: Operation,
    strategy: Strategy,
    ep: Result<EndpointView, MalformedEndpoint>,
    resolution: Option<Seq<IpAddress>>,
    good: Set<SocketAddress>,
    events: Seq<EventView>,
)
    requires
        faithful(begin(operation, strategy, ep).0, events, resolution, good),
        all_expressible(events),
    ensures
        run(begin(operation, strategy, ep).0, events).phase matches Phase::Done(
            Outcome::Success { attempt, addr },
        ) ==> {
            &&& attempt < addresses_of(ep, resolution).len()
            &&& addr == addresses_of(ep, resolution)[attempt as int]
            &&& good.contains(addr)
            &&& strategy == Strategy::Sequential ==> {
                &&& run(begin(operation, strategy, ep).0, events).started == attempt + 1
                &&& forall|j: int| 0 <= j < attempt ==> !good.contains(#[trigger] addresses_of(ep, resolution)[j])
            }
        },
{
    let c0 = begin(operation, strategy, ep).0;
    lemma_run_keeps_tied(c0, events, ep, resolution, good);
    lemma_run_keeps_strategy(c0, events);
    let c = run(c0, events);
    if let Phase::Done(Outcome::Success { attempt, addr }) = c.phase {
        assert(c.status[attempt as int] == AttemptStatus::Succeeded);
        if strategy == Strategy::Sequential {
            assert forall|j: int| 0 <= j < attempt implies !good.contains(
                #[trigger] addresses_of(ep, resolution)[j],
            ) by {
                assert(c.status[j] == AttemptStatus::Failed);
            }
        }
    }
}

/// A call keeps its operation and its strategy.
pub proof fn lemma_run_keeps_strategy(c: CallView, events: Seq<EventView>)
    ensures
        run(c, events).strategy == c.strategy,
        run(c, events).operation == c.operation,
    decreases events.len(),
{
    if events.len() > 0 {
        lemma_run_keeps_strategy(c, events.drop_last());
    }
}

/// A call that is not done is never stuck: the resolver has been asked, or
/// an attempt is in flight, so a completion is still to come.
pub proof fn law_never_stuck(c: CallView)
    requires
        valid(c),
        !(c.phase is Done),
    ensures
        c.phase is Resolving || has_pending(c.status),
{
    if c.phase is Direct {
        assert(c.status[0] == AttemptStatus::Pending);
    }
}

/// How many of `actions` complete the call.
pub open spec fn finishes(actions: Seq<ActionView>) -> nat
    decreases actions.len(),
{
    if actions.len() == 0 {
        0
    } else {
        finishes(actions.drop_last()) + if actions.last() is Finish { 1nat } else { 0nat }
    }
}

/// A call produces one outcome, once: among its first action and its answers
/// to any events there is one `Finish` if the call is done after them, and
/// none if it is not.
pub proof fn law_one_outcome(
    operation: Operation,
    strategy: Strategy,
    ep: Result<EndpointView, MalformedEndpoint>,
    events: Seq<EventView>,
)
    ensures
        finishes(seq![begin(operation, strategy, ep).1] + trace(begin(operation, strategy, ep).0, events))
            == if run(begin(operation, strategy, ep).0, events).phase is Done { 1nat } else { 0nat },
    decreases events.len(),
{
    let (c0, a0) = begin(operation, strategy, ep);
    let actions = seq![a0] + trace(c0, events);
    if events.len() == 0 {
        assert(actions =~= seq![a0]);
        assert(actions.drop_last() =~= Seq::<ActionView>::empty());
        assert(finishes(actions.drop_last()) == 0);
    } else {
        law_one_outcome(operation, strategy, ep, events.drop_last());
        let earlier = seq![a0] + trace(c0, events.drop_last());
        assert(actions.drop_last() =~= earlier);
    }
}

} // verus!
