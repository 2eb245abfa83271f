//! The reconciliation engine.
//!
//! A [`Reconciler`] works through a batch of mapping requests in order. At
//! each point it names one gateway operation (an [`Action`]); the caller
//! performs it and reports the reply as an [`Event`]. Each request ends in an
//! [`OperationOutcome`], and no request's failure stops the ones after it.

use vstd::prelude::*;

use crate::address::{candidate_addresses, candidates, Interface};
use crate::config::{PortMappingProtocol, UpnpConfig};

verus! {

/// Whether the batch opens the mappings or withdraws them.
#[derive(Clone, Copy, Debug, PartialEq, Eq, Structural)]
pub enum Mode {
    Add,
    Remove,
}

/// An error the gateway reports for an add or remove request.
#[derive(Clone, Debug, PartialEq, Eq)]
pub enum MappingError {
    /// Another mapping already holds the protocol and port.
    PortInUse,
    /// Any other failure, with its description.
    Other(String),
}

/// Why a request failed.
#[derive(Clone, Debug, PartialEq, Eq)]
pub enum FailureKind {
    /// The local interfaces could not be listed.
    InterfaceEnumeration,
    /// No candidate address, the exact one or an interface's, led to a
    /// gateway.
    NoMatchingGateway,
    /// The gateway refused the mapping.
    Mapping(MappingError),
}

/// The result of one request.
#[derive(Clone, Debug, PartialEq, Eq)]
pub enum OperationOutcome {
    Success,
    Failure(FailureKind),
}

/// The gateway operation the caller is asked to perform next.
#[derive(Clone, Debug, PartialEq, Eq)]
pub enum Action {
    /// List the local network interfaces.
    ListInterfaces,
    /// Search for a gateway from the local address `bind`, any port.
    Discover { bind: u32 },
    /// Ask the gateway found last to map `port` to `target`:`port`.
    AddMapping { protocol: PortMappingProtocol, port: u16, target: u32, duration: u32, comment: String },
    /// Ask the gateway found last to drop the mapping of `port`.
    RemoveMapping { protocol: PortMappingProtocol, port: u16 },
    /// Every request has its outcome.
    Finished,
}

/// The reply to the last [`Action`].
#[derive(Clone, Debug, PartialEq, Eq)]
pub enum Event {
    /// The local interfaces, in the order the system reports them.
    Interfaces(Vec<Interface>),
    InterfacesUnavailable,
    GatewayFound,
    NoGateway,
    Added,
    AddFailed(MappingError),
    Removed,
    RemoveFailed,
}

/// Where the current request stands.
pub enum PhaseModel {
    Listing,
    Discovering { candidates: Seq<u32>, next: nat },
    Adding { target: u32, retried: bool },
    Clearing { target: u32 },
    Removing,
    Done,
}

/// The abstract state of a [`Reconciler`].
pub struct ReconcilerModel {
    pub mode: Mode,
    pub requests: Seq<UpnpConfig>,
    pub index: nat,
    pub phase: PhaseModel,
    pub outcomes: Seq<OperationOutcome>,
}

/// The phase a request starts in: an exact address goes straight to
/// discovery, anything else first lists the interfaces.
pub open spec fn start_phase(r: UpnpConfig) -> PhaseModel {
    if r.is_exact() {
        PhaseModel::Discovering { candidates: seq![r.address->0.prefix], next: 0 }
    } else {
        PhaseModel::Listing
    }
}

/// A batch about to start on its first request.
pub open spec fn initial(mode: Mode, requests: Seq<UpnpConfig>) -> ReconcilerModel {
    ReconcilerModel {
        mode,
        requests,
        index: 0,
        phase: if requests.len() == 0 { PhaseModel::Done } else { start_phase(requests[0]) },
        outcomes: Seq::empty(),
    }
}

pub open spec fn failed(kind: FailureKind) -> OperationOutcome {
    OperationOutcome::Failure(kind)
}

impl ReconcilerModel {
    pub open spec fn current(self) -> UpnpConfig {
        self.requests[self.index as int]
    }

    pub open spec fn wf(self) -> bool {
        &&& self.index <= self.requests.len()
        &&& self.outcomes.len() == self.index
        &&& forall|i: int| 0 <= i < self.requests.len() ==> (#[trigger] self.requests[i]).wf()
        &&& (self.phase is Done <==> self.index == self.requests.len())
        &&& (self.phase matches PhaseModel::Discovering { candidates, next } ==> next
            < candidates.len())
        &&& (self.phase is Adding || self.phase is Clearing ==> self.mode == Mode::Add)
        &&& (self.phase is Removing ==> self.mode == Mode::Remove)
        &&& (self.index < self.requests.len() && self.current().is_exact() ==> {
            &&& !(self.phase is Listing)
            &&& (self.phase matches PhaseModel::Discovering { candidates, .. } ==> candidates
                == seq![self.current().address->0.prefix])
        })
    }

    pub open spec fn with_phase(self, phase: PhaseModel) -> ReconcilerModel {
        ReconcilerModel { phase, ..self }
    }

    /// The current request ends with `outcome` and the next one starts.
    pub open spec fn complete(self, outcome: OperationOutcome) -> ReconcilerModel {
        let index = self.index + 1;
        ReconcilerModel {
            index,
            phase: if index < self.requests.len() {
                start_phase(self.requests[index as int])
            } else {
                PhaseModel::Done
            },
            outcomes: self.outcomes.push(outcome),
            ..self
        }
    }

    /// A gateway answered from `target`: the mapping operation follows.
    pub open spec fn found(self, target: u32) -> ReconcilerModel {
        match self.mode {
            Mode::Add => self.with_phase(PhaseModel::Adding { target, retried: false }),
            Mode::Remove => self.with_phase(PhaseModel::Removing),
        }
    }

    /// The operation asked for in this state.
    pub open spec fn action(self) -> Action {
        let r = self.current();
        match self.phase {
            PhaseModel::Listing => Action::ListInterfaces,
            PhaseModel::Discovering { candidates, next } => Action::Discover {
                bind: candidates[next as int],
            },
            PhaseModel::Adding { target, .. } => Action::AddMapping {
                protocol: r.protocol,
                port: r.port,
                target,
                duration: r.duration,
                comment: r.comment,
            },
            PhaseModel::Clearing { .. } => Action::RemoveMapping { protocol: r.protocol, port: r.port },
            PhaseModel::Removing => Action::RemoveMapping { protocol: r.protocol, port: r.port },
            PhaseModel::Done => Action::Finished,
        }
    }

    /// The state after the reply `e`. A reply that does not answer the
    /// pending operation leaves the state as it is.
    pub open spec fn next(self, e: Event) -> ReconcilerModel {
        match self.phase {
            PhaseModel::Listing => match e {
                Event::Interfaces(ifaces) => {
                    let c = candidates(self.current().address, ifaces@);
                    if c.len() == 0 {
                        self.complete(failed(FailureKind::NoMatchingGateway))
                    } else {
                        self.with_phase(PhaseModel::Discovering { candidates: c, next: 0 })
                    }
                },
                Event::InterfacesUnavailable => self.complete(
                    failed(FailureKind::InterfaceEnumeration),
                ),
                _ => self,
            },
            PhaseModel::Discovering { candidates, next } => match e {
                Event::GatewayFound => self.found(candidates[next as int]),
                Event::NoGateway => if next + 1 < candidates.len() {
                    self.with_phase(PhaseModel::Discovering { candidates, next: next + 1 })
                } else {
                    self.complete(failed(FailureKind::NoMatchingGateway))
                },
                _ => self,
            },
            PhaseModel::Adding { target, retried } => match e {
                Event::Added => self.complete(OperationOutcome::Success),
                Event::AddFailed(err) => if !retried && err is PortInUse {
                    self.with_phase(PhaseModel::Clearing { target })
                } else {
                    self.complete(failed(FailureKind::Mapping(err)))
                },
                _ => self,
            },
            PhaseModel::Clearing { target } => match e {
                Event::Removed | Event::RemoveFailed => self.with_phase(
                    PhaseModel::Adding { target, retried: true },
                ),
                _ => self,
            },
            PhaseModel::Removing => match e {
                Event::Removed | Event::RemoveFailed => self.complete(OperationOutcome::Success),
                _ => self,
            },
            PhaseModel::Done => self,
        }
    }
}

enum Phase {
    Listing,
    Discovering { candidates: Vec<u32>, next: usize },
    Adding { target: u32, retried: bool },
    Clearing { target: u32 },
    Removing,
    Done,
}

impl Phase {
    spec fn model(&self) -> PhaseModel {
        match self {
            Phase::Listing => PhaseModel::Listing,
            Phase::Discovering { candidates, next } => PhaseModel::Discovering {
                candidates: candidates@,
                next: *next as nat,
            },
            Phase::Adding { target, retried } => PhaseModel::Adding {
                target: *target,
                retried: *retried,
            },
            Phase::Clearing { target } => PhaseModel::Clearing { target: *target },
            Phase::Removing => PhaseModel::Removing,
            Phase::Done => PhaseModel::Done,
        }
    }
}

/// Works through a batch of mapping requests, one gateway operation at a
/// time. The driver asks for [`Reconciler::action`], performs it, and feeds
/// the reply to [`Reconciler::step`] until the action is
/// [`Action::Finished`].
pub struct Reconciler {
    mode: Mode,
    requests: Vec<UpnpConfig>,
    index: usize,
    phase: Phase,
    outcomes: Vec<OperationOutcome>,
}

impl View for Reconciler {
    type V = ReconcilerModel;

    closed spec fn view(&self) -> ReconcilerModel {
        ReconcilerModel {
            mode: self.mode,
            requests: self.requests@,
            index: self.index as nat,
            phase: self.phase.model(),
            outcomes: self.outcomes@,
        }
    }
}

fn start_phase_of(r: &UpnpConfig) -> (p: Phase)
    requires
        r.wf(),
    ensures
        p.model() == start_phase(*r),
{
    match &r.address {
        Some(c) if c.is_host() => {
            let mut candidates: Vec<u32> = Vec::new();
            candidates.push(c.prefix);
            Phase::Discovering { candidates, next: 0 }
        },
        _ => Phase::Listing,
    }
}

/// Records `outcome` for request `index` and moves on to the next request.
fn finish_request(
    mode: Mode,
    requests: Vec<UpnpConfig>,
    index: usize,
    outcomes: Vec<OperationOutcome>,
    outcome: OperationOutcome,
) -> (r: Reconciler)
    requires
        index < requests@.len(),
        outcomes@.len() == index,
        forall|i: int| 0 <= i < requests@.len() ==> (#[trigger] requests@[i]).wf(),
    ensures
        r@ == (ReconcilerModel {
            mode,
            requests: requests@,
            index: index as nat,
            phase: PhaseModel::Listing,
            outcomes: outcomes@,
        }).complete(outcome),
{
    let mut outcomes = outcomes;
    outcomes.push(outcome);
    let n = requests.len();
    let index = index + 1;
    let phase = if index < n {
        start_phase_of(&requests[index])
    } else {
        Phase::Done
    };
    Reconciler { mode, requests, index, phase, outcomes }
}

impl Reconciler {
    #[verifier::type_invariant]
    spec fn inv(self) -> bool {
        self@.wf()
    }

    /// A batch over `requests`, in their order.
    pub fn new(mode: Mode, requests: Vec<UpnpConfig>) -> (r: Reconciler)
        requires
            forall|i: int| 0 <= i < requests@.len() ==> (#[trigger] requests@[i]).wf(),
        ensures
            r@ == initial(mode, requests@),
            r@.wf(),
    {
        let phase = if requests.len() == 0 {
            Phase::Done
        } else {
            start_phase_of(&requests[0])
        };
        Reconciler { mode, requests, index: 0, phase, outcomes: Vec::new() }
    }

    pub fn mode(&self) -> (r: Mode)
        ensures
            r == self@.mode,
    {
        self.mode
    }

    /// The outcomes of the requests finished so far, in request order.
    pub fn outcomes(&self) -> (r: &Vec<OperationOutcome>)
        ensures
            r@ == self@.outcomes,
    {
        &self.outcomes
    }

    /// The outcome of every request, once the batch is finished.
    pub fn into_outcomes(self) -> (r: Vec<OperationOutcome>)
        ensures
            r@ == self@.outcomes,
    {
        let Reconciler { outcomes, .. } = self;
        outcomes
    }

    /// Whether every request has its outcome.
    pub fn is_finished(&self) -> (r: bool)
        ensures
            r == (self@.phase is Done),
            r == (self@.index == self@.requests.len()),
    {
        proof {
            use_type_invariant(self);
        }
        match self.phase {
            Phase::Done => true,
            _ => false,
        }
    }

    /// The request being worked on, if any is left.
    pub fn current(&self) -> (r: Option<&UpnpConfig>)
        ensures
            r matches Some(c) ==> self@.index < self@.requests.len() && *c == self@.current(),
            r is None <==> self@.phase is Done,
    {
        proof {
            use_type_invariant(self);
        }
        if self.index < self.requests.len() {
            Some(&self.requests[self.index])
        } else {
            None
        }
    }

    /// The state after the reply `event` to the pending action.
    pub fn step(self, event: Event) -> (r: Reconciler)
        ensures
            r@ == self@.next(event),
            r@.wf(),
    {
        proof {
            use_type_invariant(&self);
        }
        let Reconciler { mode, requests, index, phase, outcomes } = self;
        match phase {
            Phase::Listing => match event {
                Event::Interfaces(ifaces) => {
                    let c = candidate_addresses(&requests[index].address, &ifaces);
                    if c.len() == 0 {
                        finish_request(
                            mode,
                            requests,
                            index,
                            outcomes,
                            OperationOutcome::Failure(FailureKind::NoMatchingGateway),
                        )
                    } else {
                        Reconciler {
                            mode,
                            requests,
                            index,
                            phase: Phase::Discovering { candidates: c, next: 0 },
                            outcomes,
                        }
                    }
                },
                Event::InterfacesUnavailable => finish_request(
                    mode,
                    requests,
                    index,
                    outcomes,
                    OperationOutcome::Failure(FailureKind::InterfaceEnumeration),
                ),
                _ => Reconciler { mode, requests, index, phase: Phase::Listing, outcomes },
            },
            Phase::Discovering { candidates, next } => match event {
                Event::GatewayFound => {
                    let target = candidates[next];
                    let phase = match mode {
                        Mode::Add => Phase::Adding { target, retried: false },
                        Mode::Remove => Phase::Removing,
                    };
                    Reconciler { mode, requests, index, phase, outcomes }
                },
                Event::NoGateway => {
                    let n = candidates.len();
                    if next + 1 < n {
                        Reconciler {
                            mode,
                            requests,
                            index,
                            phase: Phase::Discovering { candidates, next: next + 1 },
                            outcomes,
                        }
                    } else {
                        finish_request(
                            mode,
                            requests,
                            index,
                            outcomes,
                            OperationOutcome::Failure(FailureKind::NoMatchingGateway),
                        )
                    }
                },
                _ => Reconciler {
                    mode,
                    requests,
                    index,
                    phase: Phase::Discovering { candidates, next },
                    outcomes,
                },
            },
            Phase::Adding { target, retried } => match event {
                Event::Added => finish_request(
                    mode,
                    requests,
                    index,
                    outcomes,
                    OperationOutcome::Success,
                ),
                Event::AddFailed(err) => {
                    let conflict = match err {
                        MappingError::PortInUse => true,
                        MappingError::Other(_) => false,
                    };
                    if !retried && conflict {
                        Reconciler { mode, requests, index, phase: Phase::Clearing { target }, outcomes }
                    } else {
                        finish_request(
                            mode,
                            requests,
                            index,
                            outcomes,
                            OperationOutcome::Failure(FailureKind::Mapping(err)),
                        )
                    }
                },
                _ => Reconciler {
                    mode,
                    requests,
                    index,
                    phase: Phase::Adding { target, retried },
                    outcomes,
                },
            },
            Phase::Clearing { target } => match event {
                Event::Removed | Event::RemoveFailed => Reconciler {
                    mode,
                    requests,
                    index,
                    phase: Phase::Adding { target, retried: true },
                    outcomes,
                },
                _ => Reconciler { mode, requests, index, phase: Phase::Clearing { target }, outcomes },
            },
            Phase::Removing => match event {
                Event::Removed | Event::RemoveFailed => finish_request(
                    mode,
                    requests,
                    index,
                    outcomes,
                    OperationOutcome::Success,
                ),
                _ => Reconciler { mode, requests, index, phase: Phase::Removing, outcomes },
            },
            Phase::Done => Reconciler { mode, requests, index, phase: Phase::Done, outcomes },
        }
    }

    /// The gateway operation to perform next.
    pub fn action(&self) -> (a: Action)
        ensures
            a == self@.action(),
    {
        proof {
            use_type_invariant(self);
        }
        match &self.phase {
            Phase::Listing => Action::ListInterfaces,
            Phase::Discovering { candidates, next } => Action::Discover { bind: candidates[*next] },
            Phase::Adding { target, .. } => {
                let r = &self.requests[self.index];
                Action::AddMapping {
                    protocol: r.protocol,
                    port: r.port,
                    target: *target,
                    duration: r.duration,
                    comment: r.comment.clone(),
                }
            },
            Phase::Clearing { .. } | Phase::Removing => {
                let r = &self.requests[self.index];
                Action::RemoveMapping { protocol: r.protocol, port: r.port }
            },
            Phase::Done => Action::Finished,
        }
    }
}

} // verus!
