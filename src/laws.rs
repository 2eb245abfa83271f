//! Properties of the reconciliation engine, over sequences of replies and
//! over a modelled gateway environment.

use vstd::prelude::*;

use crate::address::{candidates, Interface};
use crate::config::UpnpConfig;
use crate::reconciler::{
    failed, initial, Action, Event, FailureKind, Mode, OperationOutcome, PhaseModel,
    ReconcilerModel,
};
use crate::world::{
    add_action, drive, lemma_settle, remove_action, request_trace, resolution, settle_from, slot,
    World,
};

verus! {

/// The state after the replies `events`, in order.
pub open spec fn replay(m: ReconcilerModel, events: Seq<Event>) -> ReconcilerModel
    decreases events.len(),
{
    if events.len() == 0 {
        m
    } else {
        replay(m, events.drop_last()).next(events.last())
    }
}

/// The replies of a search in which the interface list is `ifaces` and the
/// first `misses` discovery attempts find no gateway.
pub open spec fn search_replies(ifaces: Vec<Interface>, misses: nat) -> Seq<Event> {
    seq![Event::Interfaces(ifaces)] + Seq::new(misses, |_i: int| Event::NoGateway)
}

/// A request with an exact host address never asks for the interface list,
/// and the only discovery it asks for binds to that host: this holds of
/// every well-formed state, and every state a reconciler reaches is one.
pub proof fn exact_address_skips_enumeration(m: ReconcilerModel)
    requires
        m.wf(),
        m.index < m.requests.len(),
        m.current().is_exact(),
    ensures
        m.action() != Action::ListInterfaces,
        m.action() matches Action::Discover { bind } ==> bind == m.current().address->0.prefix,
{
}

proof fn lemma_search_prefix(m: ReconcilerModel, ifaces: Vec<Interface>, misses: nat)
    requires
        m.wf(),
        m.phase is Listing,
        !m.current().is_exact(),
        misses < candidates(m.current().address, ifaces@).len(),
    ensures
        replay(m, search_replies(ifaces, misses)) == m.with_phase(
            PhaseModel::Discovering {
                candidates: candidates(m.current().address, ifaces@),
                next: misses,
            },
        ),
    decreases misses,
{
    let s = search_replies(ifaces, misses);
    if misses == 0 {
        assert(s.drop_last() =~= Seq::<Event>::empty());
        assert(s.last() == Event::Interfaces(ifaces));
        assert(replay(m, Seq::<Event>::empty()) == m);
    } else {
        lemma_search_prefix(m, ifaces, (misses - 1) as nat);
        assert(s.drop_last() =~= search_replies(ifaces, (misses - 1) as nat));
        assert(s.last() == Event::NoGateway);
    }
}

/// A request without an exact host address (none, or a range) lists the
/// interfaces and then tries the candidates in the order reported: the
/// non-loopback IPv4 interfaces, inside the range where one is given (see
/// `lemma_candidates_are_eligible_interfaces`). After `misses` failed
/// attempts it binds to the next candidate, a gateway found there becomes
/// the target, and once every candidate has failed the request fails with
/// `NoMatchingGateway`.
pub proof fn search_order(m: ReconcilerModel, ifaces: Vec<Interface>, misses: nat)
    requires
        m.wf(),
        m.phase is Listing,
        !m.current().is_exact(),
        misses <= candidates(m.current().address, ifaces@).len(),
    ensures
        ({
            let c = candidates(m.current().address, ifaces@);
            let replies = search_replies(ifaces, misses);
            &&& misses < c.len() ==> replay(m, replies).action() == (Action::Discover {
                bind: c[misses as int],
            })
            &&& misses < c.len() ==> replay(m, replies.push(Event::GatewayFound)) == m.found(
                c[misses as int],
            )
            &&& misses == c.len() ==> replay(m, replies) == m.complete(
                failed(FailureKind::NoMatchingGateway),
            )
        }),
{
    let c = candidates(m.current().address, ifaces@);
    let replies = search_replies(ifaces, misses);
    if misses < c.len() {
        lemma_search_prefix(m, ifaces, misses);
        assert(replies.push(Event::GatewayFound).drop_last() =~= replies);
    } else if misses == 0 {
        assert(replies.drop_last() =~= Seq::<Event>::empty());
        assert(replies.last() == Event::Interfaces(ifaces));
        assert(replay(m, Seq::<Event>::empty()) == m);
    } else {
        lemma_search_prefix(m, ifaces, (misses - 1) as nat);
        assert(replies.drop_last() =~= search_replies(ifaces, (misses - 1) as nat));
    }
}

/// A batch run against a modelled gateway environment, with as many turns
/// as its operations take (and any number more): the reconciler finishes,
/// with the outcomes, the environment and the operations that
/// `settle_from` gives, request by request in order.
pub proof fn batch_in_environment(mode: Mode, requests: Seq<UpnpConfig>, w: World, extra: nat)
    requires
        forall|i: int| 0 <= i < requests.len() ==> (#[trigger] requests[i]).wf(),
    ensures
        ({
            let s = settle_from(mode, w, requests, 0);
            let d = drive(initial(mode, requests), w, s.2.len() + extra);
            &&& d.0.phase is Done
            &&& d.0.outcomes == s.0
            &&& d.1 == s.1
            &&& d.2 == s.2
        }),
{
    let m = initial(mode, requests);
    lemma_settle(m, w, extra);
    assert(Seq::<OperationOutcome>::empty() + settle_from(mode, w, requests, 0).0 =~= settle_from(
        mode,
        w,
        requests,
        0,
    ).0);
}

/// Applying one mapping twice in a row succeeds both times and leaves its
/// slot taken. The second time the slot is already taken, so the gateway
/// reports a conflict and the mapping is removed and added again: the last
/// three operations are an add, a removal and an add.
pub proof fn applying_twice_succeeds(r: UpnpConfig, w: World, extra: nat)
    requires
        r.wf(),
        resolution(w, r) is Ok,
    ensures
        ({
            let requests = seq![r];
            let target = resolution(w, r)->Ok_0;
            let first = drive(
                initial(Mode::Add, requests),
                w,
                settle_from(Mode::Add, w, requests, 0).2.len() + extra,
            );
            let second = drive(
                initial(Mode::Add, requests),
                first.1,
                settle_from(Mode::Add, first.1, requests, 0).2.len() + extra,
            );
            let t = second.2;
            &&& first.0.outcomes == seq![OperationOutcome::Success]
            &&& second.0.outcomes == seq![OperationOutcome::Success]
            &&& first.1.mappings.contains(slot(r))
            &&& second.1 == first.1
            &&& t.len() >= 3
            &&& t[t.len() - 3] == add_action(r, target)
            &&& t[t.len() - 2] == remove_action(r)
            &&& t[t.len() - 1] == add_action(r, target)
        }),
{
    let requests = seq![r];
    assert forall|i: int| 0 <= i < requests.len() implies (#[trigger] requests[i]).wf() by {}
    batch_in_environment(Mode::Add, requests, w, extra);
    let first = settle_from(Mode::Add, w, requests, 0);
    let w1 = crate::world::request_world(Mode::Add, w, r);
    assert(settle_from(Mode::Add, w1, requests, 1) == (
        Seq::<OperationOutcome>::empty(),
        w1,
        Seq::<Action>::empty(),
    ));
    assert(first.1 == w1);
    assert(first.0 =~= seq![OperationOutcome::Success]);
    assert(resolution(w1, r) == resolution(w, r));
    batch_in_environment(Mode::Add, requests, w1, extra);
    let second = settle_from(Mode::Add, w1, requests, 0);
    let w2 = crate::world::request_world(Mode::Add, w1, r);
    assert(settle_from(Mode::Add, w2, requests, 1) == (
        Seq::<OperationOutcome>::empty(),
        w2,
        Seq::<Action>::empty(),
    ));
    assert(second.0 =~= seq![OperationOutcome::Success]);
    assert(w1.mappings.insert(slot(r)) =~= w1.mappings);
    assert(second.2 =~= request_trace(Mode::Add, w1, r));
}

/// One request's failure leaves the others alone: of three requests where
/// the first and third find their gateway and the second does not, the
/// outcomes are a success, the second one's failure and a success, in order.
pub proof fn failure_is_isolated(
    r1: UpnpConfig,
    r2: UpnpConfig,
    r3: UpnpConfig,
    mode: Mode,
    w: World,
    extra: nat,
)
    requires
        r1.wf(),
        r2.wf(),
        r3.wf(),
        resolution(w, r1) is Ok,
        resolution(w, r2) is Err,
        resolution(w, r3) is Ok,
    ensures
        ({
            let requests = seq![r1, r2, r3];
            let d = drive(
                initial(mode, requests),
                w,
                settle_from(mode, w, requests, 0).2.len() + extra,
            );
            &&& d.0.phase is Done
            &&& d.0.outcomes == seq![
                OperationOutcome::Success,
                failed(resolution(w, r2)->Err_0),
                OperationOutcome::Success,
            ]
        }),
{
    let requests = seq![r1, r2, r3];
    assert forall|i: int| 0 <= i < requests.len() implies (#[trigger] requests[i]).wf() by {}
    batch_in_environment(mode, requests, w, extra);
    let s0 = settle_from(mode, w, requests, 0);
    let w1 = crate::world::request_world(mode, w, r1);
    let s1 = settle_from(mode, w1, requests, 1);
    let w2 = crate::world::request_world(mode, w1, r2);
    let s2 = settle_from(mode, w2, requests, 2);
    let w3 = crate::world::request_world(mode, w2, r3);
    let s3 = settle_from(mode, w3, requests, 3);
    assert(resolution(w1, r2) == resolution(w, r2));
    assert(resolution(w2, r3) == resolution(w, r3));
    assert(s3.0 =~= Seq::<OperationOutcome>::empty());
    assert(s0.0 =~= seq![
        OperationOutcome::Success,
        failed(resolution(w, r2)->Err_0),
        OperationOutcome::Success,
    ]);
}

/// Withdrawal is best effort: withdrawing a mapping whose slot is free
/// still succeeds once the gateway is found, although the removal itself
/// is refused, and the last operation is that removal.
pub proof fn withdrawing_absent_mapping_succeeds(r: UpnpConfig, w: World, extra: nat)
    requires
        r.wf(),
        resolution(w, r) is Ok,
        !w.mappings.contains(slot(r)),
    ensures
        ({
            let requests = seq![r];
            let d = drive(
                initial(Mode::Remove, requests),
                w,
                settle_from(Mode::Remove, w, requests, 0).2.len() + extra,
            );
            &&& d.0.outcomes == seq![OperationOutcome::Success]
            &&& d.2.len() > 0
            &&& d.2.last() == remove_action(r)
            &&& w.respond(remove_action(r)).1 == Event::RemoveFailed
            &&& d.1 == w
        }),
{
    let requests = seq![r];
    assert forall|i: int| 0 <= i < requests.len() implies (#[trigger] requests[i]).wf() by {}
    batch_in_environment(Mode::Remove, requests, w, extra);
    let s = settle_from(Mode::Remove, w, requests, 0);
    let w1 = crate::world::request_world(Mode::Remove, w, r);
    assert(settle_from(Mode::Remove, w1, requests, 1) == (
        Seq::<OperationOutcome>::empty(),
        w1,
        Seq::<Action>::empty(),
    ));
    assert(s.0 =~= seq![OperationOutcome::Success]);
    assert(w.mappings.remove(slot(r)) =~= w.mappings);
    assert(s.2 =~= request_trace(Mode::Remove, w, r));
}

} // verus!
