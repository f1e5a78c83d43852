//! The state of one call and its transition function.
//!
//! A call is driven from outside: each completion of resolver or socket work
//! is handed to [`Call::step`] as an [`Event`], and the [`Action`] that comes
//! back says what to do next.

use vstd::prelude::*;
use crate::endpoint::{IpAddress, SocketAddress, with_port, join_port};

verus! {

/// The socket operation that a call performs on each address.
#[derive(Clone, Copy, Debug, PartialEq, Eq, Structural)]
pub enum Operation {
    TcpConnect,
    TcpListen,
    UdpBind,
}

/// How the resolved addresses are attempted.
#[derive(Clone, Copy, Debug, PartialEq, Eq, Structural)]
pub enum Strategy {
    /// All at once; the first success wins and the rest are abandoned.
    Parallel,
    /// One at a time, in order; the next starts only when the last has failed.
    Sequential,
}

/// The classes of failure of a call.
#[derive(Clone, Copy, Debug, PartialEq, Eq, Structural)]
pub enum Failure {
    /// The caller's input was no endpoint.
    MalformedEndpoint,
    /// The resolver failed.
    ResolutionFailure,
    /// The resolver succeeded with an empty list.
    NoAddressesAvailable,
    /// Every resolved address was attempted and every attempt failed.
    AllAttemptsFailed,
    /// The single operation on a literal address failed; its own error is
    /// the call's error.
    DirectAttemptFailed,
}

/// The single result of a call.
#[derive(Clone, Copy, Debug, PartialEq, Eq, Structural)]
pub enum Outcome {
    /// The attempt numbered `attempt`, made on `addr`, produced the socket.
    Success { attempt: usize, addr: SocketAddress },
    Failure(Failure),
}

/// Where one attempt stands.
#[derive(Clone, Copy, Debug, PartialEq, Eq, Structural)]
pub enum AttemptStatus {
    NotStarted,
    Pending,
    Failed,
    Succeeded,
    Cancelled,
}

/// Where the call stands.
#[derive(Clone, Copy, Debug, PartialEq, Eq, Structural)]
pub enum Phase {
    /// The resolver was asked; the port waits for the addresses.
    Resolving(u16),
    /// The operation on a literal address is in flight.
    Direct,
    /// Attempts on resolved addresses are in flight.
    Attempting,
    /// The outcome is fixed.
    Done(Outcome),
}

/// A completion reported by the caller.
#[derive(Debug, PartialEq, Eq)]
pub enum Event {
    Resolved(Vec<IpAddress>),
    ResolveFailed,
    AttemptSucceeded(usize),
    AttemptFailed(usize),
}

/// What the caller is to do next.
#[derive(Debug, PartialEq, Eq)]
pub enum Action {
    /// Ask the resolver for the addresses of this host.
    Resolve(String),
    /// Perform the operation on this literal address, as attempt 0.
    Direct(SocketAddress),
    /// Start attempts `first`, `first + 1`, ... on these addresses.
    Start { first: usize, addrs: Vec<SocketAddress> },
    /// Nothing to do but to await the next completion.
    Wait,
    /// Abandon the attempts listed in `cancel` and complete with `outcome`.
    Finish { outcome: Outcome, cancel: Vec<usize> },
}

pub enum EventView {
    Resolved(Seq<IpAddress>),
    ResolveFailed,
    AttemptSucceeded(int),
    AttemptFailed(int),
}

pub enum ActionView {
    Resolve(Seq<char>),
    Direct(SocketAddress),
    Start { first: int, addrs: Seq<SocketAddress> },
    Wait,
    Finish { outcome: Outcome, cancel: Seq<int> },
}

/// The value of a list of attempt numbers.
pub open spec fn numbers(v: Seq<usize>) -> Seq<int> {
    v.map_values(|i: usize| i as int)
}

impl View for Event {
    type V = EventView;

    open spec fn view(&self) -> EventView {
        match *self {
            Event::Resolved(ips) => EventView::Resolved(ips@),
            Event::ResolveFailed => EventView::ResolveFailed,
            Event::AttemptSucceeded(i) => EventView::AttemptSucceeded(i as int),
            Event::AttemptFailed(i) => EventView::AttemptFailed(i as int),
        }
    }
}

impl View for Action {
    type V = ActionView;

    open spec fn view(&self) -> ActionView {
        match *self {
            Action::Resolve(host) => ActionView::Resolve(host@),
            Action::Direct(addr) => ActionView::Direct(addr),
            Action::Start { first, addrs } => ActionView::Start { first: first as int, addrs: addrs@ },
            Action::Wait => ActionView::Wait,
            Action::Finish { outcome, cancel } => ActionView::Finish {
                outcome,
                cancel: numbers(cancel@),
            },
        }
    }
}

/// The mathematical state of a call.
pub struct CallView {
    pub operation: Operation,
    pub strategy: Strategy,
    pub phase: Phase,
    /// The addresses to attempt, in the order to attempt them.
    pub candidates: Seq<SocketAddress>,
    /// The status of the attempt on each candidate.
    pub status: Seq<AttemptStatus>,
    /// How many attempts have been started: those numbered below it.
    pub started: nat,
}

/// Whether some attempt is in flight.
pub open spec fn has_pending(status: Seq<AttemptStatus>) -> bool {
    exists|i: int| 0 <= i < status.len() && #[trigger] status[i] == AttemptStatus::Pending
}

/// Whether attempt `i` is in flight, so that a completion of it is awaited.
pub open spec fn awaited(c: CallView, i: int) -> bool {
    &&& c.phase is Direct || c.phase is Attempting
    &&& 0 <= i < c.status.len()
    &&& c.status[i] == AttemptStatus::Pending
}

/// The statuses right after resolution: the first `started` in flight.
pub open spec fn initial_status(n: nat, started: nat) -> Seq<AttemptStatus> {
    Seq::new(n, |i: int| if i < started { AttemptStatus::Pending } else { AttemptStatus::NotStarted })
}

/// The statuses once `winner` has succeeded: every other attempt that was in
/// flight is abandoned.
pub open spec fn settle(status: Seq<AttemptStatus>, winner: int) -> Seq<AttemptStatus> {
    Seq::new(status.len(), |i: int|
        if i == winner {
            AttemptStatus::Succeeded
        } else if status[i] == AttemptStatus::Pending {
            AttemptStatus::Cancelled
        } else {
            status[i]
        })
}

/// The attempts in flight other than `winner`, in ascending order.
pub open spec fn losers(status: Seq<AttemptStatus>, winner: int) -> Seq<int>
    decreases status.len(),
{
    if status.len() == 0 {
        Seq::empty()
    } else {
        let i = status.len() - 1;
        let before = losers(status.drop_last(), winner);
        if status[i] == AttemptStatus::Pending && i != winner {
            before.push(i)
        } else {
            before
        }
    }
}

/// The event changes nothing.
pub open spec fn stay(c: CallView) -> (CallView, ActionView) {
    (c, ActionView::Wait)
}

/// The call ends in failure `f`, with nothing in flight.
pub open spec fn fail(c: CallView, f: Failure) -> (CallView, ActionView) {
    (
        CallView { phase: Phase::Done(Outcome::Failure(f)), ..c },
        ActionView::Finish { outcome: Outcome::Failure(f), cancel: Seq::empty() },
    )
}

/// How many attempts start at once on `n >= 1` addresses.
pub open spec fn opening(strategy: Strategy, n: nat) -> nat {
    match strategy {
        Strategy::Parallel => n,
        Strategy::Sequential => 1,
    }
}

/// The addresses `addrs` are handed to the strategy: none ends the call with
/// `NoAddressesAvailable`; otherwise the opening attempts start.
pub open spec fn attempt_all(operation: Operation, strategy: Strategy, addrs: Seq<SocketAddress>) -> (
    CallView,
    ActionView,
) {
    let k = if addrs.len() == 0 { 0 } else { opening(strategy, addrs.len()) };
    let c = CallView {
        operation,
        strategy,
        phase: Phase::Attempting,
        candidates: addrs,
        status: initial_status(addrs.len(), k),
        started: k,
    };
    if addrs.len() == 0 {
        fail(c, Failure::NoAddressesAvailable)
    } else {
        (c, ActionView::Start { first: 0, addrs: addrs.take(k as int) })
    }
}

/// The resolver returned `ips` while the call waited with `port`.
pub open spec fn resolved(c: CallView, port: u16, ips: Seq<IpAddress>) -> (CallView, ActionView) {
    attempt_all(c.operation, c.strategy, with_port(ips, port))
}

/// Attempt `i`, which was in flight, succeeded.
pub open spec fn win(c: CallView, i: int) -> (CallView, ActionView) {
    let outcome = Outcome::Success { attempt: i as usize, addr: c.candidates[i] };
    (
        CallView { phase: Phase::Done(outcome), status: settle(c.status, i), ..c },
        ActionView::Finish { outcome, cancel: losers(c.status, i) },
    )
}

/// Attempt `i`, which was in flight, failed.
pub open spec fn lose(c: CallView, i: int) -> (CallView, ActionView) {
    let status = c.status.update(i, AttemptStatus::Failed);
    let c1 = CallView { status, ..c };
    if c.phase is Direct {
        fail(c1, Failure::DirectAttemptFailed)
    } else if has_pending(status) {
        stay(c1)
    } else if c.started < status.len() {
        let j = c.started as int;
        (
            CallView { status: status.update(j, AttemptStatus::Pending), started: c.started + 1, ..c1 },
            ActionView::Start { first: j, addrs: seq![c.candidates[j]] },
        )
    } else {
        fail(c1, Failure::AllAttemptsFailed)
    }
}

/// The transition function: the state after `ev`, and what to do then.
pub open spec fn next(c: CallView, ev: EventView) -> (CallView, ActionView) {
    match c.phase {
        Phase::Resolving(port) => match ev {
            EventView::Resolved(ips) => resolved(c, port, ips),
            EventView::ResolveFailed => fail(c, Failure::ResolutionFailure),
            _ => stay(c),
        },
        Phase::Direct | Phase::Attempting => match ev {
            EventView::AttemptSucceeded(i) => if awaited(c, i) { win(c, i) } else { stay(c) },
            EventView::AttemptFailed(i) => if awaited(c, i) { lose(c, i) } else { stay(c) },
            _ => stay(c),
        },
        Phase::Done(_) => stay(c),
    }
}

/// Whether every attempt numbered in `lo..hi` has status `s`.
pub open spec fn all_are(status: Seq<AttemptStatus>, lo: int, hi: int, s: AttemptStatus) -> bool {
    forall|i: int| lo <= i < hi && 0 <= i < status.len() ==> #[trigger] status[i] == s
}

/// Validity of a state: what holds of every state that a call can reach.
pub open spec fn valid(c: CallView) -> bool {
    let n = c.status.len() as int;
    &&& c.candidates.len() == n
    &&& n <= usize::MAX
    &&& c.started <= n
    &&& forall|i: int| 0 <= i < n ==> (#[trigger] c.status[i] == AttemptStatus::NotStarted <==> i >= c.started)
    &&& match c.phase {
        Phase::Resolving(_) => n == 0,
        Phase::Direct => n == 1 && c.status[0] == AttemptStatus::Pending,
        Phase::Attempting => {
            &&& has_pending(c.status)
            &&& forall|i: int| 0 <= i < n ==> #[trigger] c.status[i] != AttemptStatus::Succeeded
                && c.status[i] != AttemptStatus::Cancelled
            &&& c.strategy == Strategy::Parallel ==> c.started == n
            &&& c.strategy == Strategy::Sequential ==> all_are(c.status, 0, c.started - 1, AttemptStatus::Failed)
        },
        Phase::Done(Outcome::Success { attempt, addr }) => {
            &&& attempt < n
            &&& addr == c.candidates[attempt as int]
            &&& c.status[attempt as int] == AttemptStatus::Succeeded
            &&& forall|i: int| 0 <= i < n && i != attempt ==> #[trigger] c.status[i] != AttemptStatus::Pending
                && c.status[i] != AttemptStatus::Succeeded
            &&& c.strategy == Strategy::Parallel ==> c.started == n
            &&& c.strategy == Strategy::Sequential ==> c.started == attempt + 1
                && all_are(c.status, 0, attempt as int, AttemptStatus::Failed)
        },
        Phase::Done(Outcome::Failure(Failure::AllAttemptsFailed)) => {
            &&& n >= 1
            &&& c.started == n
            &&& all_are(c.status, 0, n, AttemptStatus::Failed)
        },
        Phase::Done(Outcome::Failure(Failure::DirectAttemptFailed)) => {
            n == 1 && c.status[0] == AttemptStatus::Failed
        },
        Phase::Done(Outcome::Failure(_)) => n == 0,
    }
}

/// Whether `ev` is the value of some `Event`: a list of addresses has a
/// length that the machine can hold.
pub open spec fn expressible(ev: EventView) -> bool {
    ev matches EventView::Resolved(ips) ==> ips.len() <= usize::MAX
}

/// Every transition from a valid state leads to a valid state.
pub proof fn next_keeps_valid(c: CallView, ev: EventView)
    requires
        valid(c),
        expressible(ev),
    ensures
        valid(next(c, ev).0),
{
    let d = next(c, ev).0;
    match c.phase {
        Phase::Resolving(port) => {
            if let EventView::Resolved(ips) = ev {
                let n = with_port(ips, port).len();
                if n > 0 {
                    assert(d.status[0] == AttemptStatus::Pending);
                }
            }
        },
        Phase::Direct | Phase::Attempting => {
            match ev {
                EventView::AttemptSucceeded(i) => {
                    if awaited(c, i) {
                        assert(d.status[i] == AttemptStatus::Succeeded);
                    }
                },
                EventView::AttemptFailed(i) => {
                    if awaited(c, i) {
                        let status = c.status.update(i, AttemptStatus::Failed);
                        if c.phase is Attempting && !has_pending(status) {
                            if c.started < status.len() {
                                assert(d.status[c.started as int] == AttemptStatus::Pending);
                            }
                        }
                    }
                },
                _ => {},
            }
        },
        Phase::Done(_) => {},
    }
}

/// One call: its operation and strategy, and how far it has come.
#[derive(Debug)]
pub struct Call {
    operation: Operation,
    strategy: Strategy,
    phase: Phase,
    candidates: Vec<SocketAddress>,
    status: Vec<AttemptStatus>,
    started: usize,
}

impl View for Call {
    type V = CallView;

    closed spec fn view(&self) -> CallView {
        CallView {
            operation: self.operation,
            strategy: self.strategy,
            phase: self.phase,
            candidates: self.candidates@,
            status: self.status@,
            started: self.started as nat,
        }
    }
}

/// Whether some attempt of `status` is in flight.
fn any_pending(status: &Vec<AttemptStatus>) -> (b: bool)
    ensures
        b == has_pending(status@),
{
    let mut i: usize = 0;
    while i < status.len()
        invariant
            i <= status.len(),
            forall|j: int| 0 <= j < i ==> #[trigger] status@[j] != AttemptStatus::Pending,
        decreases status.len() - i,
    {
        match status[i] {
            AttemptStatus::Pending => {
                return true;
            },
            _ => {},
        }
        i += 1;
    }
    false
}

/// The first `k` addresses of `addrs`.
fn first_addresses(addrs: &Vec<SocketAddress>, k: usize) -> (head: Vec<SocketAddress>)
    requires
        k <= addrs@.len(),
    ensures
        head@ == addrs@.take(k as int),
{
    let mut head: Vec<SocketAddress> = Vec::new();
    let mut i: usize = 0;
    while i < k
        invariant
            i <= k <= addrs@.len(),
            head@ == addrs@.take(i as int),
        decreases k - i,
    {
        head.push(addrs[i]);
        assert(addrs@.take(i + 1) =~= addrs@.take(i as int).push(addrs@[i as int]));
        i += 1;
    }
    head
}

/// `n` statuses, the first `k` of them in flight.
fn opening_status(n: usize, k: usize) -> (status: Vec<AttemptStatus>)
    ensures
        status@ == initial_status(n as nat, k as nat),
{
    let mut status: Vec<AttemptStatus> = Vec::new();
    let mut i: usize = 0;
    while i < n
        invariant
            i <= n,
            status@ =~= initial_status(i as nat, k as nat),
        decreases n - i,
    {
        status.push(if i < k { AttemptStatus::Pending } else { AttemptStatus::NotStarted });
        i += 1;
    }
    status
}

/// Marks `winner` as succeeded and abandons every other attempt in flight;
/// returns the abandoned ones.
fn settle_attempts(status: &mut Vec<AttemptStatus>, winner: usize) -> (cancel: Vec<usize>)
    requires
        winner < old(status)@.len(),
    ensures
        final(status)@ == settle(old(status)@, winner as int),
        numbers(cancel@) == losers(old(status)@, winner as int),
{
    let ghost before = status@;
    let n = status.len();
    let mut cancel: Vec<usize> = Vec::new();
    let mut i: usize = 0;
    while i < n
        invariant
            i <= n,
            n == before.len(),
            status@.len() == n,
            winner < n,
            forall|j: int| 0 <= j < i ==> #[trigger] status@[j] == settle(before, winner as int)[j],
            forall|j: int| i <= j < n ==> #[trigger] status@[j] == before[j],
            numbers(cancel@) == losers(before.take(i as int), winner as int),
        decreases n - i,
    {
        proof {
            assert(before.take(i + 1).drop_last() =~= before.take(i as int));
        }
        if i == winner {
            status.set(i, AttemptStatus::Succeeded);
        } else {
            match status[i] {
                AttemptStatus::Pending => {
                    status.set(i, AttemptStatus::Cancelled);
                    let ghost listed = cancel@;
                    cancel.push(i);
                    assert(numbers(cancel@) =~= numbers(listed).push(i as int));
                },
                _ => {},
            }
        }
        i += 1;
    }
    assert(before.take(n as int) =~= before);
    assert(status@ =~= settle(before, winner as int));
    cancel
}

impl Call {
    /// Whether the state is one that a call can reach.
    pub open spec fn wf(&self) -> bool {
        valid(self@)
    }

    /// A call that has nothing to attempt yet, in phase `phase`.
    pub(crate) fn idle(operation: Operation, strategy: Strategy, phase: Phase) -> (call: Call)
        ensures
            call@ == (CallView {
                operation,
                strategy,
                phase,
                candidates: Seq::empty(),
                status: Seq::empty(),
                started: 0,
            }),
    {
        let call = Call {
            operation,
            strategy,
            phase,
            candidates: Vec::new(),
            status: Vec::new(),
            started: 0,
        };
        assert(call@.candidates =~= Seq::empty());
        assert(call@.status =~= Seq::empty());
        call
    }

    /// A call whose one attempt, on the literal address `addr`, is in flight.
    pub(crate) fn direct(operation: Operation, strategy: Strategy, addr: SocketAddress) -> (call: Call)
        ensures
            call@ == (CallView {
                operation,
                strategy,
                phase: Phase::Direct,
                candidates: seq![addr],
                status: seq![AttemptStatus::Pending],
                started: 1,
            }),
    {
        let mut candidates: Vec<SocketAddress> = Vec::new();
        candidates.push(addr);
        let mut status: Vec<AttemptStatus> = Vec::new();
        status.push(AttemptStatus::Pending);
        let call = Call { operation, strategy, phase: Phase::Direct, candidates, status, started: 1 };
        assert(call@.candidates =~= seq![addr]);
        assert(call@.status =~= seq![AttemptStatus::Pending]);
        call
    }

    /// The operation that the call performs.
    pub fn operation(&self) -> (op: Operation)
        ensures
            op == self@.operation,
    {
        self.operation
    }

    /// The strategy that the call follows.
    pub fn strategy(&self) -> (s: Strategy)
        ensures
            s == self@.strategy,
    {
        self.strategy
    }

    /// Where the call stands.
    pub fn phase(&self) -> (p: Phase)
        ensures
            p == self@.phase,
    {
        self.phase
    }

    /// The outcome, once the call is done.
    pub fn outcome(&self) -> (o: Option<Outcome>)
        ensures
            o == (match self@.phase {
                Phase::Done(outcome) => Some(outcome),
                _ => None,
            }),
    {
        match self.phase {
            Phase::Done(outcome) => Some(outcome),
            _ => None,
        }
    }

    /// How many attempts have been started so far.
    pub fn started(&self) -> (k: usize)
        ensures
            k == self@.started,
    {
        self.started
    }

    /// How many addresses the call has to attempt.
    pub fn candidates(&self) -> (n: usize)
        ensures
            n == self@.candidates.len(),
    {
        self.candidates.len()
    }

    /// The address of attempt `i`, if there is such an attempt.
    pub fn address_of(&self, i: usize) -> (addr: Option<SocketAddress>)
        ensures
            addr == (if i < self@.candidates.len() {
                Some(self@.candidates[i as int])
            } else {
                None
            }),
    {
        if i < self.candidates.len() {
            Some(self.candidates[i])
        } else {
            None
        }
    }

    /// The status of attempt `i`, if there is such an attempt.
    pub fn status_of(&self, i: usize) -> (status: Option<AttemptStatus>)
        ensures
            status == (if i < self@.status.len() {
                Some(self@.status[i as int])
            } else {
                None
            }),
    {
        if i < self.status.len() {
            Some(self.status[i])
        } else {
            None
        }
    }

    /// Ends the call in failure `f`.
    fn finish(&mut self, f: Failure) -> (action: Action)
        ensures
            final(self)@ == fail(old(self)@, f).0,
            action@ == fail(old(self)@, f).1,
    {
        self.phase = Phase::Done(Outcome::Failure(f));
        let cancel: Vec<usize> = Vec::new();
        assert(numbers(cancel@) =~= Seq::<int>::empty());
        Action::Finish { outcome: Outcome::Failure(f), cancel }
    }

    /// Begins on a list of addresses, without a resolver: hands `addrs` to
    /// `strategy`, which starts its opening attempts, or ends the call at
    /// once if there is no address.
    pub fn attempt_all(operation: Operation, strategy: Strategy, addrs: Vec<SocketAddress>) -> (r: (
        Call,
        Action,
    ))
        ensures
            r.0.wf(),
            r.0@ == attempt_all(operation, strategy, addrs@).0,
            r.1@ == attempt_all(operation, strategy, addrs@).1,
    {
        let n = addrs.len();
        let k: usize = if n == 0 {
            0
        } else {
            match strategy {
                Strategy::Parallel => n,
                Strategy::Sequential => 1,
            }
        };
        let head = first_addresses(&addrs, k);
        let mut call = Call {
            operation,
            strategy,
            phase: Phase::Attempting,
            candidates: addrs,
            status: opening_status(n, k),
            started: k,
        };
        proof {
            if n > 0 {
                assert(call@.status[0] == AttemptStatus::Pending);
            }
        }
        if n == 0 {
            let action = call.finish(Failure::NoAddressesAvailable);
            (call, action)
        } else {
            (call, Action::Start { first: 0, addrs: head })
        }
    }

    /// Whether a completion of attempt `i` is awaited.
    fn is_awaited(&self, i: usize) -> (b: bool)
        requires
            self.wf(),
        ensures
            b == awaited(self@, i as int),
    {
        let running = match self.phase {
            Phase::Direct => true,
            Phase::Attempting => true,
            _ => false,
        };
        if running && i < self.status.len() {
            match self.status[i] {
                AttemptStatus::Pending => true,
                _ => false,
            }
        } else {
            false
        }
    }

    /// Attempt `i` succeeded: it wins, and the others in flight are abandoned.
    fn on_success(&mut self, i: usize) -> (action: Action)
        requires
            old(self).wf(),
            awaited(old(self)@, i as int),
        ensures
            final(self)@ == win(old(self)@, i as int).0,
            action@ == win(old(self)@, i as int).1,
    {
        let outcome = Outcome::Success { attempt: i, addr: self.candidates[i] };
        let cancel = settle_attempts(&mut self.status, i);
        self.phase = Phase::Done(outcome);
        Action::Finish { outcome, cancel }
    }

    /// Attempt `i` failed: the call waits, starts the next attempt, or ends.
    fn on_failure(&mut self, i: usize) -> (action: Action)
        requires
            old(self).wf(),
            awaited(old(self)@, i as int),
        ensures
            final(self)@ == lose(old(self)@, i as int).0,
            action@ == lose(old(self)@, i as int).1,
    {
        self.status.set(i, AttemptStatus::Failed);
        match self.phase {
            Phase::Direct => self.finish(Failure::DirectAttemptFailed),
            _ => {
                if any_pending(&self.status) {
                    Action::Wait
                } else if self.started < self.status.len() {
                    let j = self.started;
                    self.status.set(j, AttemptStatus::Pending);
                    self.started = j + 1;
                    let mut addrs: Vec<SocketAddress> = Vec::new();
                    addrs.push(self.candidates[j]);
                    assert(addrs@ =~= seq![self.candidates@[j as int]]);
                    Action::Start { first: j, addrs }
                } else {
                    self.finish(Failure::AllAttemptsFailed)
                }
            },
        }
    }

    /// Takes one completion and says what to do next.
    ///
    /// A completion that is not awaited (of an attempt that is not in
    /// flight, or of the resolver when it was not asked) changes nothing.
    pub fn step(&mut self, event: Event) -> (action: Action)
        requires
            old(self).wf(),
        ensures
            final(self).wf(),
            final(self)@ == next(old(self)@, event@).0,
            action@ == next(old(self)@, event@).1,
    {
        let ghost before = self@;
        let ghost ev = event@;
        proof {
            if let Event::Resolved(ips) = &event {
                assert(ips.len() == ips@.len());
            }
        }
        let action = match self.phase {
            Phase::Resolving(port) => match event {
                Event::Resolved(ips) => {
                    let (call, action) = Call::attempt_all(self.operation, self.strategy, join_port(&ips, port));
                    *self = call;
                    action
                },
                Event::ResolveFailed => self.finish(Failure::ResolutionFailure),
                _ => Action::Wait,
            },
            Phase::Direct | Phase::Attempting => match event {
                Event::AttemptSucceeded(i) => if self.is_awaited(i) {
                    self.on_success(i)
                } else {
                    Action::Wait
                },
                Event::AttemptFailed(i) => if self.is_awaited(i) {
                    self.on_failure(i)
                } else {
                    Action::Wait
                },
                _ => Action::Wait,
            },
            Phase::Done(_) => Action::Wait,
        };
        proof {
            next_keeps_valid(before, ev);
        }
        action
    }
}

} // verus!
