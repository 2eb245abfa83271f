//! A modelled gateway environment, and what the engine does in it.
//!
//! The environment answers the engine's operations as a single gateway with
//! a table of mappings would: an add on a taken slot reports a conflict, a
//! remove of a free slot fails.

use vstd::prelude::*;

use crate::address::{candidates, Interface};
use crate::config::{PortMappingProtocol, UpnpConfig};
use crate::reconciler::{
    failed, Action, Event, FailureKind, MappingError, Mode, OperationOutcome, PhaseModel,
    ReconcilerModel,
};

verus! {

/// The interface list the system reports (`None`: listing fails), the local
/// addresses from which discovery reaches the gateway, and the slots of the
/// gateway that hold a mapping.
pub struct World {
    pub interfaces: Option<Vec<Interface>>,
    pub reachable: Set<u32>,
    pub mappings: Set<(PortMappingProtocol, u16)>,
}

impl World {
    pub open spec fn with_mappings(self, mappings: Set<(PortMappingProtocol, u16)>) -> World {
        World { mappings, ..self }
    }

    /// The environment after operation `a`, and its reply.
    pub open spec fn respond(self, a: Action) -> (World, Event) {
        match a {
            Action::ListInterfaces => match self.interfaces {
                Some(v) => (self, Event::Interfaces(v)),
                None => (self, Event::InterfacesUnavailable),
            },
            Action::Discover { bind } => if self.reachable.contains(bind) {
                (self, Event::GatewayFound)
            } else {
                (self, Event::NoGateway)
            },
            Action::AddMapping { protocol, port, .. } => if self.mappings.contains((protocol, port)) {
                (self, Event::AddFailed(MappingError::PortInUse))
            } else {
                (self.with_mappings(self.mappings.insert((protocol, port))), Event::Added)
            },
            Action::RemoveMapping { protocol, port } => if self.mappings.contains((protocol, port)) {
                (self.with_mappings(self.mappings.remove((protocol, port))), Event::Removed)
            } else {
                (self, Event::RemoveFailed)
            },
            // Nothing is asked of the gateway; a finished engine ignores any reply.
            Action::Finished => (self, Event::RemoveFailed),
        }
    }
}

/// Up to `turns` rounds of the engine against the environment: the final
/// state and environment, and the operations performed.
pub open spec fn drive(m: ReconcilerModel, w: World, turns: nat) -> (
    ReconcilerModel,
    World,
    Seq<Action>,
)
    decreases turns,
{
    if turns == 0 || m.phase is Done {
        (m, w, Seq::empty())
    } else {
        let a = m.action();
        let (w1, e) = w.respond(a);
        let (m2, w2, t) = drive(m.next(e), w1, (turns - 1) as nat);
        (m2, w2, seq![a] + t)
    }
}

/// The first position at or after `from` whose address reaches the gateway,
/// or the length of `c` if there is none.
pub open spec fn first_reachable(c: Seq<u32>, reachable: Set<u32>, from: nat) -> nat
    decreases c.len() - from,
{
    if from >= c.len() {
        c.len()
    } else if reachable.contains(c[from as int]) {
        from
    } else {
        first_reachable(c, reachable, from + 1)
    }
}

pub open spec fn discover_actions(c: Seq<u32>, from: nat, to: nat) -> Seq<Action> {
    c.subrange(from as int, to as int).map_values(|b: u32| Action::Discover { bind: b })
}

/// The bind addresses a request tries, or `None` if listing fails.
pub open spec fn search_list(w: World, r: UpnpConfig) -> Option<Seq<u32>> {
    if r.is_exact() {
        Some(seq![r.address->0.prefix])
    } else {
        match w.interfaces {
            Some(v) => Some(candidates(r.address, v@)),
            None => None,
        }
    }
}

/// Where a request's mapping points in the environment, or why none is found.
pub open spec fn resolution(w: World, r: UpnpConfig) -> Result<u32, FailureKind> {
    match search_list(w, r) {
        None => Err(FailureKind::InterfaceEnumeration),
        Some(c) => {
            let j = first_reachable(c, w.reachable, 0);
            if j < c.len() {
                Ok(c[j as int])
            } else {
                Err(FailureKind::NoMatchingGateway)
            }
        },
    }
}

/// The operations that find the gateway for a request.
pub open spec fn resolution_trace(w: World, r: UpnpConfig) -> Seq<Action> {
    let listing = if r.is_exact() {
        Seq::empty()
    } else {
        seq![Action::ListInterfaces]
    };
    match search_list(w, r) {
        None => listing,
        Some(c) => {
            let j = first_reachable(c, w.reachable, 0);
            listing + discover_actions(c, 0, if j < c.len() { j + 1 } else { c.len() })
        },
    }
}

pub open spec fn add_action(r: UpnpConfig, target: u32) -> Action {
    Action::AddMapping {
        protocol: r.protocol,
        port: r.port,
        target,
        duration: r.duration,
        comment: r.comment,
    }
}

pub open spec fn remove_action(r: UpnpConfig) -> Action {
    Action::RemoveMapping { protocol: r.protocol, port: r.port }
}

/// The slot of the gateway that a request names.
pub open spec fn slot(r: UpnpConfig) -> (PortMappingProtocol, u16) {
    (r.protocol, r.port)
}

/// The operations on the gateway once it is found from `target`: an add,
/// with removal and a second add where the slot is taken; or a removal.
pub open spec fn mapping_trace(mode: Mode, w: World, r: UpnpConfig, target: u32) -> Seq<Action> {
    match mode {
        Mode::Add => if w.mappings.contains(slot(r)) {
            seq![add_action(r, target), remove_action(r), add_action(r, target)]
        } else {
            seq![add_action(r, target)]
        },
        Mode::Remove => seq![remove_action(r)],
    }
}

/// Every operation that one request performs in the environment.
pub open spec fn request_trace(mode: Mode, w: World, r: UpnpConfig) -> Seq<Action> {
    match resolution(w, r) {
        Ok(target) => resolution_trace(w, r) + mapping_trace(mode, w, r, target),
        Err(_) => resolution_trace(w, r),
    }
}

pub open spec fn request_outcome(w: World, r: UpnpConfig) -> OperationOutcome {
    match resolution(w, r) {
        Ok(_) => OperationOutcome::Success,
        Err(kind) => failed(kind),
    }
}

/// The environment after one request.
pub open spec fn request_world(mode: Mode, w: World, r: UpnpConfig) -> World {
    match resolution(w, r) {
        Ok(_) => match mode {
            Mode::Add => w.with_mappings(w.mappings.insert(slot(r))),
            Mode::Remove => w.with_mappings(w.mappings.remove(slot(r))),
        },
        Err(_) => w,
    }
}

/// The requests from position `i` on, one after another: their outcomes,
/// the environment after them, and the operations performed.
pub open spec fn settle_from(mode: Mode, w: World, requests: Seq<UpnpConfig>, i: nat) -> (
    Seq<OperationOutcome>,
    World,
    Seq<Action>,
)
    decreases requests.len() - i,
{
    if i >= requests.len() {
        (Seq::empty(), w, Seq::empty())
    } else {
        let r = requests[i as int];
        let rest = settle_from(mode, request_world(mode, w, r), requests, i + 1);
        (seq![request_outcome(w, r)] + rest.0, rest.1, request_trace(mode, w, r) + rest.2)
    }
}

/// `d` is `tail` after the operations `prefix`.
pub open spec fn continues(
    d: (ReconcilerModel, World, Seq<Action>),
    prefix: Seq<Action>,
    tail: (ReconcilerModel, World, Seq<Action>),
) -> bool {
    d.0 == tail.0 && d.1 == tail.1 && d.2 == prefix + tail.2
}

proof fn lemma_first_reachable_bounds(c: Seq<u32>, reachable: Set<u32>, from: nat)
    requires
        from <= c.len(),
    ensures
        from <= first_reachable(c, reachable, from) <= c.len(),
        first_reachable(c, reachable, from) < c.len() ==> reachable.contains(
            c[first_reachable(c, reachable, from) as int],
        ),
    decreases c.len() - from,
{
    if from < c.len() && !reachable.contains(c[from as int]) {
        lemma_first_reachable_bounds(c, reachable, from + 1);
    }
}

proof fn lemma_discovery(m: ReconcilerModel, w: World, f: nat)
    requires
        m.wf(),
        m.phase is Discovering,
    ensures
        ({
            let c = m.phase->candidates;
            let n = m.phase->next;
            let j = first_reachable(c, w.reachable, n);
            let stop = if j < c.len() { j + 1 } else { c.len() };
            let after = if j < c.len() {
                m.found(c[j as int])
            } else {
                m.complete(failed(FailureKind::NoMatchingGateway))
            };
            continues(
                drive(m, w, (stop - n) as nat + f),
                discover_actions(c, n, stop),
                drive(after, w, f),
            )
        }),
    decreases m.phase->candidates.len() - m.phase->next,
{
    let c = m.phase->candidates;
    let n = m.phase->next;
    let a = m.action();
    assert(a == Action::Discover { bind: c[n as int] });
    if w.reachable.contains(c[n as int]) {
        assert(first_reachable(c, w.reachable, n) == n);
        assert(w.respond(a) == (w, Event::GatewayFound));
        assert(m.next(Event::GatewayFound) == m.found(c[n as int]));
        assert(discover_actions(c, n, n + 1) =~= seq![a]);
        assert(drive(m, w, 1 + f) == ({
            let d = drive(m.found(c[n as int]), w, f);
            (d.0, d.1, seq![a] + d.2)
        }));
    } else if n + 1 < c.len() {
        let m1 = m.with_phase(PhaseModel::Discovering { candidates: c, next: n + 1 });
        assert(w.respond(a) == (w, Event::NoGateway));
        assert(m.next(Event::NoGateway) == m1);
        lemma_discovery(m1, w, f);
        lemma_first_reachable_bounds(c, w.reachable, n + 1);
        let j = first_reachable(c, w.reachable, n);
        assert(j == first_reachable(c, w.reachable, n + 1));
        let stop = if j < c.len() { j + 1 } else { c.len() };
        let after = if j < c.len() {
            m.found(c[j as int])
        } else {
            m.complete(failed(FailureKind::NoMatchingGateway))
        };
        assert(m1.found(c[j as int]) == m.found(c[j as int]));
        assert(m1.complete(failed(FailureKind::NoMatchingGateway)) == m.complete(
            failed(FailureKind::NoMatchingGateway),
        ));
        assert(discover_actions(c, n, stop) =~= seq![a] + discover_actions(c, n + 1, stop));
        let tail = drive(m1, w, (stop - n - 1) as nat + f);
        assert(drive(m, w, (stop - n) as nat + f) == (tail.0, tail.1, seq![a] + tail.2));
        assert(seq![a] + tail.2 =~= discover_actions(c, n, stop) + drive(after, w, f).2);
    } else {
        assert(first_reachable(c, w.reachable, n) == c.len());
        assert(w.respond(a) == (w, Event::NoGateway));
        let after = m.complete(failed(FailureKind::NoMatchingGateway));
        assert(m.next(Event::NoGateway) == after);
        assert(discover_actions(c, n, n + 1) =~= seq![a]);
        assert(drive(m, w, 1 + f) == ({
            let d = drive(after, w, f);
            (d.0, d.1, seq![a] + d.2)
        }));
    }
}

proof fn lemma_mapping(m: ReconcilerModel, w: World, target: u32, f: nat)
    requires
        m.wf(),
        m.index < m.requests.len(),
    ensures
        ({
            let r = m.current();
            let t = mapping_trace(m.mode, w, r, target);
            let w1 = match m.mode {
                Mode::Add => w.with_mappings(w.mappings.insert(slot(r))),
                Mode::Remove => w.with_mappings(w.mappings.remove(slot(r))),
            };
            continues(
                drive(m.found(target), w, t.len() + f),
                t,
                drive(m.complete(OperationOutcome::Success), w1, f),
            )
        }),
{
    let r = m.current();
    let m0 = m.found(target);
    let done = m.complete(OperationOutcome::Success);
    let k = slot(r);
    match m.mode {
        Mode::Add => {
            let add = add_action(r, target);
            assert(m0.action() == add);
            if w.mappings.contains(k) {
                let m1 = m0.with_phase(PhaseModel::Clearing { target });
                assert(w.respond(add) == (w, Event::AddFailed(MappingError::PortInUse)));
                assert(m0.next(Event::AddFailed(MappingError::PortInUse)) == m1);
                let w2 = w.with_mappings(w.mappings.remove(k));
                assert(m1.action() == remove_action(r));
                assert(w.respond(remove_action(r)) == (w2, Event::Removed));
                let m2 = m0.with_phase(PhaseModel::Adding { target, retried: true });
                assert(m1.next(Event::Removed) == m2);
                assert(m2.action() == add);
                let w3 = w2.with_mappings(w2.mappings.insert(k));
                assert(!w2.mappings.contains(k));
                assert(w2.respond(add) == (w3, Event::Added));
                assert(m2.next(Event::Added) == done);
                assert(w3.mappings =~= w.mappings.insert(k));
                assert(w3 == w.with_mappings(w.mappings.insert(k)));
                let d = drive(done, w3, f);
                assert(drive(m2, w2, 1 + f) == (d.0, d.1, seq![add] + d.2));
                assert(drive(m1, w, 2 + f) == (d.0, d.1, seq![remove_action(r)] + (seq![add]
                    + d.2)));
                assert(drive(m0, w, 3 + f) == (d.0, d.1, seq![add] + (seq![remove_action(r)] + (
                seq![add] + d.2))));
                assert(seq![add] + (seq![remove_action(r)] + (seq![add] + d.2)) =~= seq![
                    add,
                    remove_action(r),
                    add,
                ] + d.2);
            } else {
                let w1 = w.with_mappings(w.mappings.insert(k));
                assert(w.respond(add) == (w1, Event::Added));
                assert(m0.next(Event::Added) == done);
                let d = drive(done, w1, f);
                assert(drive(m0, w, 1 + f) == (d.0, d.1, seq![add] + d.2));
            }
        },
        Mode::Remove => {
            let rm = remove_action(r);
            assert(m0.action() == rm);
            let w1 = w.with_mappings(w.mappings.remove(k));
            if w.mappings.contains(k) {
                assert(w.respond(rm) == (w1, Event::Removed));
                assert(m0.next(Event::Removed) == done);
            } else {
                assert(w.mappings.remove(k) =~= w.mappings);
                assert(w1 == w);
                assert(w.respond(rm) == (w, Event::RemoveFailed));
                assert(m0.next(Event::RemoveFailed) == done);
            }
            let d = drive(done, w1, f);
            assert(drive(m0, w, 1 + f) == (d.0, d.1, seq![rm] + d.2));
        },
    }
}

proof fn lemma_continues_trans(
    d1: (ReconcilerModel, World, Seq<Action>),
    p1: Seq<Action>,
    d2: (ReconcilerModel, World, Seq<Action>),
    p2: Seq<Action>,
    d3: (ReconcilerModel, World, Seq<Action>),
)
    requires
        continues(d1, p1, d2),
        continues(d2, p2, d3),
    ensures
        continues(d1, p1 + p2, d3),
{
    assert(p1 + (p2 + d3.2) =~= (p1 + p2) + d3.2);
}

/// From discovery on, a request runs to its outcome.
proof fn lemma_after_listing(m: ReconcilerModel, w: World, f: nat)
    requires
        m.wf(),
        m.phase is Discovering,
        search_list(w, m.current()) == Some(m.phase->candidates),
        m.phase->next == 0,
    ensures
        ({
            let r = m.current();
            let c = m.phase->candidates;
            let j = first_reachable(c, w.reachable, 0);
            let t = discover_actions(c, 0, if j < c.len() { j + 1 } else { c.len() });
            let rest = match resolution(w, r) {
                Ok(target) => mapping_trace(m.mode, w, r, target),
                Err(_) => Seq::empty(),
            };
            continues(
                drive(m, w, (t + rest).len() + f),
                t + rest,
                drive(m.complete(request_outcome(w, r)), request_world(m.mode, w, r), f),
            )
        }),
{
    let r = m.current();
    let c = m.phase->candidates;
    let j = first_reachable(c, w.reachable, 0);
    lemma_first_reachable_bounds(c, w.reachable, 0);
    let stop = if j < c.len() { j + 1 } else { c.len() };
    let t = discover_actions(c, 0, stop);
    assert(t.len() == stop);
    if j < c.len() {
        let target = c[j as int];
        let mt = mapping_trace(m.mode, w, r, target);
        lemma_discovery(m, w, mt.len() + f);
        lemma_mapping(m, w, target, f);
        assert(m.found(target).complete(OperationOutcome::Success) == m.complete(
            OperationOutcome::Success,
        ));
        lemma_continues_trans(
            drive(m, w, stop + mt.len() + f),
            t,
            drive(m.found(target), w, mt.len() + f),
            mt,
            drive(m.complete(OperationOutcome::Success), request_world(m.mode, w, r), f),
        );
        assert((t + mt).len() + f == stop + mt.len() + f);
    } else {
        lemma_discovery(m, w, f);
        assert(t + Seq::<Action>::empty() =~= t);
    }
}

/// One request, from its start to its outcome.
pub proof fn lemma_request(m: ReconcilerModel, w: World, f: nat)
    requires
        m.wf(),
        m.index < m.requests.len(),
        m.phase == crate::reconciler::start_phase(m.current()),
    ensures
        ({
            let r = m.current();
            let t = request_trace(m.mode, w, r);
            continues(
                drive(m, w, t.len() + f),
                t,
                drive(m.complete(request_outcome(w, r)), request_world(m.mode, w, r), f),
            )
        }),
{
    let r = m.current();
    let t = request_trace(m.mode, w, r);
    if r.is_exact() {
        lemma_after_listing(m, w, f);
        let c = m.phase->candidates;
        let j = first_reachable(c, w.reachable, 0);
        let td = discover_actions(c, 0, if j < c.len() { j + 1 } else { c.len() });
        assert(resolution_trace(w, r) =~= td);
    } else {
        assert(m.action() == Action::ListInterfaces);
        match w.interfaces {
            None => {
                assert(w.respond(Action::ListInterfaces) == (w, Event::InterfacesUnavailable));
                let d = drive(m.complete(request_outcome(w, r)), w, f);
                assert(drive(m, w, 1 + f) == (d.0, d.1, seq![Action::ListInterfaces] + d.2));
            },
            Some(v) => {
                let c = candidates(r.address, v@);
                assert(w.respond(Action::ListInterfaces) == (w, Event::Interfaces(v)));
                if c.len() == 0 {
                    assert(first_reachable(c, w.reachable, 0) == 0);
                    assert(discover_actions(c, 0, 0) =~= Seq::<Action>::empty());
                    assert(t =~= seq![Action::ListInterfaces]);
                    let d = drive(m.complete(request_outcome(w, r)), w, f);
                    assert(drive(m, w, 1 + f) == (d.0, d.1, seq![Action::ListInterfaces] + d.2));
                } else {
                    let m1 = m.with_phase(PhaseModel::Discovering { candidates: c, next: 0 });
                    assert(m.next(Event::Interfaces(v)) == m1);
                    lemma_after_listing(m1, w, f);
                    let j = first_reachable(c, w.reachable, 0);
                    let td = discover_actions(c, 0, if j < c.len() { j + 1 } else { c.len() });
                    let rest = match resolution(w, r) {
                        Ok(target) => mapping_trace(m.mode, w, r, target),
                        Err(_) => Seq::empty(),
                    };
                    assert(m1.complete(request_outcome(w, r)) == m.complete(request_outcome(w, r)));
                    assert(m1.mode == m.mode);
                    assert(m1.current() == r);
                    let d = drive(m1, w, (td + rest).len() + f);
                    assert(drive(m, w, 1 + (td + rest).len() + f) == (d.0, d.1, seq![
                        Action::ListInterfaces,
                    ] + d.2));
                    assert(t =~= seq![Action::ListInterfaces] + (td + rest));
                    assert(seq![Action::ListInterfaces] + ((td + rest) + drive(
                        m.complete(request_outcome(w, r)),
                        request_world(m.mode, w, r),
                        f,
                    ).2) =~= t + drive(
                        m.complete(request_outcome(w, r)),
                        request_world(m.mode, w, r),
                        f,
                    ).2);
                }
            },
        }
    }
}

/// The engine, started at a request boundary, settles every remaining
/// request as `settle_from` says.
pub proof fn lemma_settle(m: ReconcilerModel, w: World, f: nat)
    requires
        m.wf(),
        m.index < m.requests.len() ==> m.phase == crate::reconciler::start_phase(m.current()),
    ensures
        ({
            let s = settle_from(m.mode, w, m.requests, m.index);
            drive(m, w, s.2.len() + f) == (ReconcilerModel {
                index: m.requests.len(),
                phase: PhaseModel::Done,
                outcomes: m.outcomes + s.0,
                ..m
            }, s.1, s.2)
        }),
    decreases m.requests.len() - m.index,
{
    let s = settle_from(m.mode, w, m.requests, m.index);
    if m.index >= m.requests.len() {
        assert(m.outcomes + s.0 =~= m.outcomes);
    } else {
        let r = m.current();
        let o = request_outcome(w, r);
        let w1 = request_world(m.mode, w, r);
        let rest = settle_from(m.mode, w1, m.requests, m.index + 1);
        let t = request_trace(m.mode, w, r);
        let m1 = m.complete(o);
        assert(m1.wf()) by {
            assert forall|i: int| 0 <= i < m1.requests.len() implies (
            #[trigger] m1.requests[i]).wf() by {
                assert(m.requests[i].wf());
            }
        }
        lemma_request(m, w, rest.2.len() + f);
        lemma_settle(m1, w1, f);
        assert(s.2.len() + f == t.len() + (rest.2.len() + f));
        assert(m1.outcomes + rest.0 =~= m.outcomes + s.0);
        assert(t + rest.2 == s.2);
    }
}

} // verus!
