use easy_upnp::{candidate_addresses, Interface, Ipv4Cidr};

fn ip(a: u8, b: u8, c: u8, d: u8) -> u32 {
    u32::from_be_bytes([a, b, c, d])
}

#[test]
fn prefix_is_cut_to_its_bits() {
    let c = Ipv4Cidr::from_prefix_and_bits(ip(192, 168, 1, 35), 24).unwrap();
    assert_eq!(c.prefix, ip(192, 168, 1, 0));
    assert_eq!(c.bits, 24);
    assert!(!c.is_host());
}

#[test]
fn too_many_bits_are_refused() {
    assert_eq!(Ipv4Cidr::from_prefix_and_bits(ip(10, 0, 0, 1), 33), None);
    assert!(Ipv4Cidr::from_prefix_and_bits(ip(10, 0, 0, 1), 32).unwrap().is_host());
}

#[test]
fn range_membership() {
    let c = Ipv4Cidr::from_prefix_and_bits(ip(192, 168, 1, 0), 24).unwrap();
    assert!(c.contains(ip(192, 168, 1, 9)));
    assert!(c.contains(ip(192, 168, 1, 255)));
    assert!(!c.contains(ip(192, 168, 2, 9)));
    let odd = Ipv4Cidr::from_prefix_and_bits(ip(10, 0, 0, 0), 9).unwrap();
    assert!(odd.contains(ip(10, 127, 255, 255)));
    assert!(!odd.contains(ip(10, 128, 0, 0)));
}

#[test]
fn whole_space_and_single_host() {
    let all = Ipv4Cidr::from_prefix_and_bits(ip(1, 2, 3, 4), 0).unwrap();
    assert_eq!(all.prefix, 0);
    assert!(all.contains(0));
    assert!(all.contains(u32::MAX));
    let host = Ipv4Cidr::host(ip(10, 0, 0, 5));
    assert!(host.contains(ip(10, 0, 0, 5)));
    assert!(!host.contains(ip(10, 0, 0, 4)));
}

#[test]
fn cidr_candidates_keep_only_matching_interfaces() {
    let range = Ipv4Cidr::from_prefix_and_bits(ip(192, 168, 1, 0), 24).unwrap();
    let ifaces = vec![
        Interface { ipv4: Some(ip(10, 0, 0, 5)), is_loopback: false },
        Interface { ipv4: Some(ip(192, 168, 1, 9)), is_loopback: false },
    ];
    assert_eq!(candidate_addresses(&Some(range), &ifaces), vec![ip(192, 168, 1, 9)]);
}

#[test]
fn candidates_skip_loopback_and_non_ipv4() {
    let ifaces = vec![
        Interface { ipv4: Some(ip(127, 0, 0, 1)), is_loopback: true },
        Interface { ipv4: None, is_loopback: false },
        Interface { ipv4: Some(ip(10, 0, 0, 5)), is_loopback: false },
        Interface { ipv4: Some(ip(172, 16, 0, 2)), is_loopback: false },
    ];
    assert_eq!(candidate_addresses(&None, &ifaces), vec![ip(10, 0, 0, 5), ip(172, 16, 0, 2)]);
    assert!(candidate_addresses(&None, &vec![]).is_empty());
}
