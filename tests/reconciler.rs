use std::collections::HashSet;

use easy_upnp::{
    Action, Event, FailureKind, Interface, Ipv4Cidr, MappingError, Mode, OperationOutcome,
    PortMappingProtocol, Reconciler, UpnpConfig,
};

fn ip(a: u8, b: u8, c: u8, d: u8) -> u32 {
    u32::from_be_bytes([a, b, c, d])
}

fn v4(addr: u32) -> Interface {
    Interface { ipv4: Some(addr), is_loopback: false }
}

fn request(address: Option<Ipv4Cidr>, port: u16, protocol: PortMappingProtocol) -> UpnpConfig {
    UpnpConfig { address, port, protocol, duration: 60, comment: "Test 1".to_string() }
}

/// A gateway that keeps its mappings in memory, behind a fake interface
/// list and a fake discovery.
struct FakeNet {
    interfaces: Option<Vec<Interface>>,
    enumeration_allowed: bool,
    reachable: Vec<u32>,
    mappings: HashSet<(PortMappingProtocol, u16)>,
    always_in_use: bool,
    refuse_with: Option<String>,
    log: Vec<Action>,
}

impl FakeNet {
    fn new(interfaces: Vec<Interface>, reachable: Vec<u32>) -> FakeNet {
        FakeNet {
            interfaces: Some(interfaces),
            enumeration_allowed: true,
            reachable,
            mappings: HashSet::new(),
            always_in_use: false,
            refuse_with: None,
            log: Vec::new(),
        }
    }

    fn reply(&mut self, action: &Action) -> Event {
        match action {
            Action::ListInterfaces => {
                assert!(self.enumeration_allowed, "interfaces listed");
                match &self.interfaces {
                    Some(v) => Event::Interfaces(v.clone()),
                    None => Event::InterfacesUnavailable,
                }
            }
            Action::Discover { bind } => {
                if self.reachable.contains(bind) {
                    Event::GatewayFound
                } else {
                    Event::NoGateway
                }
            }
            Action::AddMapping { protocol, port, .. } => {
                if let Some(message) = &self.refuse_with {
                    Event::AddFailed(MappingError::Other(message.clone()))
                } else if self.always_in_use || self.mappings.contains(&(*protocol, *port)) {
                    Event::AddFailed(MappingError::PortInUse)
                } else {
                    self.mappings.insert((*protocol, *port));
                    Event::Added
                }
            }
            Action::RemoveMapping { protocol, port } => {
                if self.mappings.remove(&(*protocol, *port)) {
                    Event::Removed
                } else {
                    Event::RemoveFailed
                }
            }
            Action::Finished => panic!("no operation after the end"),
        }
    }

    fn run(&mut self, mode: Mode, requests: Vec<UpnpConfig>) -> Vec<OperationOutcome> {
        self.log.clear();
        let mut r = Reconciler::new(mode, requests);
        loop {
            let action = r.action();
            if action == Action::Finished {
                break;
            }
            let event = self.reply(&action);
            self.log.push(action);
            r = r.step(event);
        }
        assert!(r.is_finished());
        r.into_outcomes()
    }

    fn discovered(&self) -> Vec<u32> {
        self.log
            .iter()
            .filter_map(|a| match a {
                Action::Discover { bind } => Some(*bind),
                _ => None,
            })
            .collect()
    }
}

#[test]
fn exact_address_skips_interface_enumeration() {
    let host = ip(192, 168, 0, 10);
    let mut net = FakeNet::new(vec![v4(ip(10, 0, 0, 5))], vec![host]);
    net.enumeration_allowed = false;
    let out = net.run(
        Mode::Add,
        vec![request(Some(Ipv4Cidr::host(host)), 80, PortMappingProtocol::TCP)],
    );
    assert_eq!(out, vec![OperationOutcome::Success]);
    assert_eq!(net.log[0], Action::Discover { bind: host });
    assert!(!net.log.contains(&Action::ListInterfaces));
    assert!(matches!(net.log[1], Action::AddMapping { target, port: 80, .. } if target == host));
}

#[test]
fn exact_address_without_gateway_fails() {
    let host = ip(192, 168, 0, 10);
    let mut net = FakeNet::new(vec![], vec![]);
    net.enumeration_allowed = false;
    let out = net.run(
        Mode::Add,
        vec![request(Some(Ipv4Cidr::host(host)), 80, PortMappingProtocol::TCP)],
    );
    assert_eq!(out, vec![OperationOutcome::Failure(FailureKind::NoMatchingGateway)]);
    assert_eq!(net.log, vec![Action::Discover { bind: host }]);
}

#[test]
fn unspecified_address_tries_interfaces_in_order() {
    let ifaces = vec![
        Interface { ipv4: Some(ip(127, 0, 0, 1)), is_loopback: true },
        Interface { ipv4: None, is_loopback: false },
        v4(ip(10, 0, 0, 5)),
        v4(ip(192, 168, 1, 9)),
        v4(ip(172, 16, 0, 2)),
    ];
    let mut net = FakeNet::new(ifaces, vec![ip(192, 168, 1, 9), ip(172, 16, 0, 2)]);
    let out = net.run(Mode::Add, vec![request(None, 12345, PortMappingProtocol::UDP)]);
    assert_eq!(out, vec![OperationOutcome::Success]);
    assert_eq!(net.log[0], Action::ListInterfaces);
    assert_eq!(net.discovered(), vec![ip(10, 0, 0, 5), ip(192, 168, 1, 9)]);
    assert_eq!(
        net.log.last(),
        Some(&Action::AddMapping {
            protocol: PortMappingProtocol::UDP,
            port: 12345,
            target: ip(192, 168, 1, 9),
            duration: 60,
            comment: "Test 1".to_string(),
        })
    );
}

#[test]
fn unspecified_address_exhausts_every_interface() {
    let ifaces = vec![v4(ip(10, 0, 0, 5)), v4(ip(192, 168, 1, 9))];
    let mut net = FakeNet::new(ifaces, vec![]);
    let out = net.run(Mode::Add, vec![request(None, 80, PortMappingProtocol::TCP)]);
    assert_eq!(out, vec![OperationOutcome::Failure(FailureKind::NoMatchingGateway)]);
    assert_eq!(net.discovered(), vec![ip(10, 0, 0, 5), ip(192, 168, 1, 9)]);
}

#[test]
fn no_usable_interface_fails_without_discovery() {
    let ifaces = vec![Interface { ipv4: Some(ip(127, 0, 0, 1)), is_loopback: true }];
    let mut net = FakeNet::new(ifaces, vec![ip(127, 0, 0, 1)]);
    let out = net.run(Mode::Add, vec![request(None, 80, PortMappingProtocol::TCP)]);
    assert_eq!(out, vec![OperationOutcome::Failure(FailureKind::NoMatchingGateway)]);
    assert_eq!(net.log, vec![Action::ListInterfaces]);
}

#[test]
fn interface_listing_failure_is_reported() {
    let mut net = FakeNet::new(vec![], vec![]);
    net.interfaces = None;
    let out = net.run(Mode::Remove, vec![request(None, 80, PortMappingProtocol::TCP)]);
    assert_eq!(out, vec![OperationOutcome::Failure(FailureKind::InterfaceEnumeration)]);
}

#[test]
fn applying_twice_removes_then_adds() {
    let host = ip(10, 0, 0, 5);
    let mut net = FakeNet::new(vec![v4(host)], vec![host]);
    let req = request(None, 8080, PortMappingProtocol::TCP);
    let first = net.run(Mode::Add, vec![req.clone()]);
    assert_eq!(first, vec![OperationOutcome::Success]);
    assert_eq!(net.log.len(), 3);
    let second = net.run(Mode::Add, vec![req]);
    assert_eq!(second, vec![OperationOutcome::Success]);
    let n = net.log.len();
    assert!(matches!(net.log[n - 3], Action::AddMapping { port: 8080, .. }));
    assert_eq!(
        net.log[n - 2],
        Action::RemoveMapping { protocol: PortMappingProtocol::TCP, port: 8080 }
    );
    assert!(matches!(net.log[n - 1], Action::AddMapping { port: 8080, .. }));
    assert!(net.mappings.contains(&(PortMappingProtocol::TCP, 8080)));
}

#[test]
fn persistent_conflict_fails_after_one_retry() {
    let host = ip(10, 0, 0, 5);
    let mut net = FakeNet::new(vec![v4(host)], vec![host]);
    net.always_in_use = true;
    let out = net.run(Mode::Add, vec![request(None, 80, PortMappingProtocol::TCP)]);
    assert_eq!(out, vec![OperationOutcome::Failure(FailureKind::Mapping(MappingError::PortInUse))]);
    let adds = net.log.iter().filter(|a| matches!(a, Action::AddMapping { .. })).count();
    assert_eq!(adds, 2);
}

#[test]
fn other_mapping_error_is_not_retried() {
    let host = ip(10, 0, 0, 5);
    let mut net = FakeNet::new(vec![v4(host)], vec![host]);
    net.refuse_with = Some("ActionNotAuthorized".to_string());
    let out = net.run(Mode::Add, vec![request(None, 80, PortMappingProtocol::TCP)]);
    assert_eq!(
        out,
        vec![OperationOutcome::Failure(FailureKind::Mapping(MappingError::Other(
            "ActionNotAuthorized".to_string()
        )))]
    );
    assert!(!net.log.iter().any(|a| matches!(a, Action::RemoveMapping { .. })));
}

#[test]
fn partial_failure_is_isolated() {
    let good = ip(10, 0, 0, 5);
    let unreachable = ip(10, 0, 0, 77);
    let mut net = FakeNet::new(vec![v4(good)], vec![good]);
    let out = net.run(
        Mode::Add,
        vec![
            request(None, 1000, PortMappingProtocol::TCP),
            request(Some(Ipv4Cidr::host(unreachable)), 1001, PortMappingProtocol::TCP),
            request(None, 1002, PortMappingProtocol::UDP),
        ],
    );
    assert_eq!(
        out,
        vec![
            OperationOutcome::Success,
            OperationOutcome::Failure(FailureKind::NoMatchingGateway),
            OperationOutcome::Success,
        ]
    );
}

#[test]
fn withdrawing_unknown_mapping_succeeds() {
    let host = ip(10, 0, 0, 5);
    let mut net = FakeNet::new(vec![v4(host)], vec![host]);
    let out = net.run(Mode::Remove, vec![request(None, 4242, PortMappingProtocol::UDP)]);
    assert_eq!(out, vec![OperationOutcome::Success]);
    assert_eq!(
        net.log.last(),
        Some(&Action::RemoveMapping { protocol: PortMappingProtocol::UDP, port: 4242 })
    );
}

#[test]
fn round_trip_apply_then_withdraw() {
    let host = ip(192, 168, 0, 10);
    let mut net = FakeNet::new(vec![v4(host)], vec![host]);
    let requests = vec![request(None, 12345, PortMappingProtocol::UDP)];
    assert_eq!(net.run(Mode::Add, requests.clone()), vec![OperationOutcome::Success]);
    assert!(net.mappings.contains(&(PortMappingProtocol::UDP, 12345)));
    assert_eq!(net.run(Mode::Remove, requests), vec![OperationOutcome::Success]);
    assert!(net.mappings.is_empty());
}

#[test]
fn cidr_range_selects_matching_interface() {
    let range = Ipv4Cidr::from_prefix_and_bits(ip(192, 168, 1, 0), 24).unwrap();
    let ifaces = vec![v4(ip(10, 0, 0, 5)), v4(ip(192, 168, 1, 9))];
    let mut net = FakeNet::new(ifaces, vec![ip(10, 0, 0, 5), ip(192, 168, 1, 9)]);
    let out = net.run(Mode::Add, vec![request(Some(range), 80, PortMappingProtocol::TCP)]);
    assert_eq!(out, vec![OperationOutcome::Success]);
    assert_eq!(net.discovered(), vec![ip(192, 168, 1, 9)]);
}

#[test]
fn empty_batch_is_finished_at_once() {
    let r = Reconciler::new(Mode::Add, vec![]);
    assert!(r.is_finished());
    assert_eq!(r.action(), Action::Finished);
    assert!(r.current().is_none());
    assert!(r.into_outcomes().is_empty());
}

#[test]
fn unrelated_reply_is_ignored() {
    let r = Reconciler::new(Mode::Add, vec![request(None, 80, PortMappingProtocol::TCP)]);
    assert_eq!(r.action(), Action::ListInterfaces);
    let r = r.step(Event::Added);
    assert_eq!(r.action(), Action::ListInterfaces);
    assert!(r.outcomes().is_empty());
    assert_eq!(r.mode(), Mode::Add);
}

#[test]
fn withdraw_mode_discovers_then_removes() {
    let host = ip(10, 0, 0, 5);
    let r = Reconciler::new(
        Mode::Remove,
        vec![request(Some(Ipv4Cidr::host(host)), 22, PortMappingProtocol::TCP)],
    );
    assert_eq!(r.current().map(|c| c.port), Some(22));
    let r = r.step(Event::GatewayFound);
    assert_eq!(r.action(), Action::RemoveMapping { protocol: PortMappingProtocol::TCP, port: 22 });
    let r = r.step(Event::RemoveFailed);
    assert!(r.is_finished());
    assert_eq!(r.outcomes(), &vec![OperationOutcome::Success]);
}

#[test]
fn cidr_range_tries_only_matching_interfaces_then_fails() {
    let range = Ipv4Cidr::from_prefix_and_bits(ip(192, 168, 1, 0), 24).unwrap();
    let ifaces = vec![
        v4(ip(192, 168, 1, 3)),
        Interface { ipv4: Some(ip(192, 168, 1, 1)), is_loopback: true },
        v4(ip(10, 0, 0, 5)),
        v4(ip(192, 168, 1, 9)),
    ];
    let mut net = FakeNet::new(ifaces, vec![ip(10, 0, 0, 5)]);
    let out = net.run(Mode::Add, vec![request(Some(range), 80, PortMappingProtocol::TCP)]);
    assert_eq!(out, vec![OperationOutcome::Failure(FailureKind::NoMatchingGateway)]);
    assert_eq!(net.discovered(), vec![ip(192, 168, 1, 3), ip(192, 168, 1, 9)]);
}
