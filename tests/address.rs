use digsigctl::address::{discover_address, resolve_bind_address, IpAddress, ResolveError, Subnet};

fn v4(a: u8, b: u8, c: u8, d: u8) -> IpAddress {
    IpAddress::V4(u32::from_be_bytes([a, b, c, d]))
}

#[test]
fn v4_subnet_contains_its_hosts() {
    let net = Subnet { network: v4(192, 168, 1, 0), prefix: 24 };
    assert!(net.contains(v4(192, 168, 1, 77)));
    assert!(!net.contains(v4(192, 168, 2, 77)));
}

#[test]
fn zero_prefix_contains_every_address_of_its_family() {
    let net = Subnet { network: v4(10, 0, 0, 0), prefix: 0 };
    assert!(net.contains(v4(203, 0, 113, 9)));
    assert!(!net.contains(IpAddress::V6(1)));
}

#[test]
fn full_prefix_contains_only_the_address() {
    let net = Subnet { network: v4(10, 0, 0, 1), prefix: 32 };
    assert!(net.contains(v4(10, 0, 0, 1)));
    assert!(!net.contains(v4(10, 0, 0, 2)));
}

#[test]
fn v6_subnet_contains_its_hosts() {
    let network: u128 = 0xfd56_1dda_8794_cb90 << 64;
    let net = Subnet { network: IpAddress::V6(network), prefix: 64 };
    assert!(net.contains(IpAddress::V6(network | 0x1234)));
    assert!(!net.contains(IpAddress::V6(network ^ (1 << 64))));
    assert!(!net.contains(v4(127, 0, 0, 1)));
}

#[test]
fn discover_picks_first_match_in_order() {
    let net = Subnet { network: v4(10, 1, 0, 0), prefix: 16 };
    let candidates = vec![v4(127, 0, 0, 1), v4(10, 1, 4, 2), v4(10, 1, 9, 9)];
    assert_eq!(discover_address(&net, &candidates), Some(v4(10, 1, 4, 2)));
}

#[test]
fn discover_reports_not_found() {
    let net = Subnet { network: v4(10, 1, 0, 0), prefix: 16 };
    let candidates = vec![v4(127, 0, 0, 1), v4(10, 2, 4, 2)];
    assert_eq!(discover_address(&net, &candidates), None);
    assert_eq!(discover_address(&net, &Vec::new()), None);
}

#[test]
fn resolve_parses_default_network() {
    let network: u128 = 0xfd56_1dda_8794_cb90 << 64;
    let candidates = vec![v4(127, 0, 0, 1), IpAddress::V6(1), IpAddress::V6(network | 7)];
    assert_eq!(
        resolve_bind_address("fd56:1dda:8794:cb90::/64", &candidates),
        Ok(IpAddress::V6(network | 7))
    );
}

#[test]
fn resolve_parses_v4_network() {
    let candidates = vec![v4(192, 168, 0, 5), v4(10, 1, 9, 32)];
    assert_eq!(resolve_bind_address("10.1.0.0/16", &candidates), Ok(v4(10, 1, 9, 32)));
}

#[test]
fn resolve_rejects_malformed_subnet() {
    let candidates = vec![v4(10, 1, 9, 32)];
    assert_eq!(resolve_bind_address("10.1.0.0/33", &candidates), Err(ResolveError::InvalidSubnet));
    assert_eq!(resolve_bind_address("not a network", &candidates), Err(ResolveError::InvalidSubnet));
}

#[test]
fn resolve_reports_missing_address() {
    let candidates = vec![v4(192, 168, 0, 5)];
    assert_eq!(resolve_bind_address("10.1.0.0/16", &candidates), Err(ResolveError::NotFound));
}
