use punch::maintain::nat_test;
use punch::network::{
    mapping_addr, Ipv4Address, Ipv6Address, Model, NatInfo, NatType, SocketAddress, SocketIndex,
    UdpIndex,
};

fn v4(a: u8, b: u8, c: u8, d: u8) -> Ipv4Address {
    Ipv4Address { a, b, c, d }
}

fn mapped(a: u8, b: u8, c: u8, d: u8) -> Ipv6Address {
    let mut octets = [0u8; 16];
    octets[10] = 0xff;
    octets[11] = 0xff;
    octets[12] = a;
    octets[13] = b;
    octets[14] = c;
    octets[15] = d;
    Ipv6Address { octets }
}

#[test]
fn nothing_public_is_known_at_the_start() {
    let info = NatInfo::initial(vec![10, 20], 30);
    assert_eq!(info.nat_type, NatType::Cone);
    assert!(info.public_ips.is_empty());
    assert_eq!(info.public_udp_ports, vec![0, 0]);
    assert!(info.mapping_tcp_addr.is_empty());
    assert!(info.mapping_udp_addr.is_empty());
    assert_eq!(info.public_port_range, 0);
    assert_eq!(info.local_ipv4, v4(0, 0, 0, 0));
    assert_eq!(info.ipv6, None);
    assert_eq!(info.local_udp_ports, vec![10, 20]);
    assert_eq!(info.local_tcp_port, 30);
    assert_eq!(info.public_tcp_port, 0);
}

#[test]
fn addresses_are_mapped_to_version_four() {
    assert_eq!(
        mapping_addr(SocketAddress::V4(v4(1, 2, 3, 4), 5)),
        Some((v4(1, 2, 3, 4), 5))
    );
    assert_eq!(
        mapping_addr(SocketAddress::V6(mapped(1, 2, 3, 4), 5)),
        Some((v4(1, 2, 3, 4), 5))
    );
    let mut other = mapped(1, 2, 3, 4);
    other.octets[3] = 1;
    assert_eq!(mapping_addr(SocketAddress::V6(other, 5)), None);
    let mut other = mapped(1, 2, 3, 4);
    other.octets[11] = 0xfe;
    assert_eq!(mapping_addr(SocketAddress::V6(other, 5)), None);
}

#[test]
fn only_global_addresses_are_taken() {
    let local = vec![
        v4(0, 1, 2, 3),
        v4(10, 0, 0, 1),
        v4(172, 16, 0, 1),
        v4(172, 31, 255, 255),
        v4(192, 168, 1, 1),
        v4(100, 64, 0, 1),
        v4(100, 127, 0, 1),
        v4(127, 0, 0, 1),
        v4(169, 254, 0, 1),
        v4(192, 0, 0, 1),
        v4(192, 0, 2, 1),
        v4(198, 51, 100, 1),
        v4(203, 0, 113, 1),
        v4(198, 18, 0, 1),
        v4(198, 19, 255, 1),
        v4(240, 0, 0, 1),
        v4(255, 255, 255, 255),
    ];
    let global = vec![
        v4(1, 1, 1, 1),
        v4(172, 15, 0, 1),
        v4(172, 32, 0, 1),
        v4(100, 63, 0, 1),
        v4(100, 128, 0, 1),
        v4(192, 0, 0, 9),
        v4(192, 0, 0, 10),
        v4(198, 17, 0, 1),
        v4(198, 20, 0, 1),
        v4(224, 0, 0, 1),
        v4(239, 255, 255, 255),
        v4(1, 1, 1, 1),
    ];
    let mut ips = local.clone();
    ips.extend_from_slice(&global);
    let mut info = NatInfo::initial(vec![], 0);
    info.set_public_info(NatType::Symmetric, ips, 7);
    assert_eq!(info.public_ips, global);
    assert_eq!(info.nat_type, NatType::Symmetric);
    assert_eq!(info.public_port_range, 7);
}

#[test]
fn tcp_port_is_taken_with_any_address() {
    let mut info = NatInfo::initial(vec![], 0);
    info.update_tcp_public_addr(SocketAddress::V4(v4(10, 0, 0, 1), 80));
    assert_eq!(info.public_tcp_port, 80);
    assert!(info.public_ips.is_empty());
    info.update_tcp_public_addr(SocketAddress::V4(v4(8, 8, 8, 8), 81));
    assert_eq!(info.public_tcp_port, 81);
    assert_eq!(info.public_ips, vec![v4(8, 8, 8, 8)]);
    info.update_tcp_public_addr(SocketAddress::V6(Ipv6Address { octets: [1; 16] }, 82));
    assert_eq!(info.public_tcp_port, 81);
}

#[test]
fn udp_ports_are_taken_by_socket() {
    let mut info = NatInfo::initial(vec![1, 2, 3], 0);
    let addr = SocketAddress::V4(v4(8, 8, 4, 4), 500);
    info.update_public_addr(SocketIndex::Udp(UdpIndex::MainV4(0)), addr);
    info.update_public_addr(SocketIndex::Udp(UdpIndex::MainV6(2)), addr);
    info.update_public_addr(SocketIndex::Udp(UdpIndex::SubV4(1)), addr);
    info.update_public_addr(SocketIndex::Udp(UdpIndex::MainV4(3)), addr);
    info.update_public_addr(SocketIndex::Other, addr);
    assert_eq!(info.public_udp_ports, vec![500, 0, 500]);
    assert_eq!(info.public_tcp_port, 0);
    info.update_public_addr(SocketIndex::Tcp(9), addr);
    assert_eq!(info.public_tcp_port, 500);
    assert_eq!(info.public_ips, vec![v4(8, 8, 4, 4)]);
}

#[test]
fn local_address_of_a_socket_is_not_taken() {
    let mut info = NatInfo::initial(vec![1], 0);
    info.update_public_addr(
        SocketIndex::Udp(UdpIndex::MainV4(0)),
        SocketAddress::V4(v4(192, 168, 0, 2), 500),
    );
    info.update_public_addr(
        SocketIndex::Tcp(0),
        SocketAddress::V6(Ipv6Address { octets: [2; 16] }, 500),
    );
    assert_eq!(info.public_udp_ports, vec![0]);
    assert_eq!(info.public_tcp_port, 0);
    assert!(info.public_ips.is_empty());
}

#[test]
fn learning_twice_is_learning_once() {
    let mut info = NatInfo::initial(vec![1], 0);
    let addr = SocketAddress::V6(mapped(9, 9, 9, 9), 53);
    for _ in 0..2 {
        info.update_public_addr(SocketIndex::Udp(UdpIndex::MainV6(0)), addr);
        info.update_tcp_public_addr(addr);
        assert_eq!(info.public_ips, vec![v4(9, 9, 9, 9)]);
        assert_eq!(info.public_udp_ports, vec![53]);
        assert_eq!(info.public_tcp_port, 53);
    }
}

#[test]
fn local_addresses_are_taken_as_far_as_found() {
    let mut info = NatInfo::initial(vec![], 0);
    let ipv6 = Ipv6Address { octets: [7; 16] };
    info.update_local_addr(Some(v4(10, 1, 2, 3)), Some(ipv6));
    assert_eq!(info.local_ipv4, v4(10, 1, 2, 3));
    assert_eq!(info.ipv6, Some(ipv6));
    info.update_local_addr(None, None);
    assert_eq!(info.local_ipv4, v4(10, 1, 2, 3));
    assert_eq!(info.ipv6, None);
}

#[test]
fn copy_holds_the_same() {
    let mut info = NatInfo::initial(vec![1, 2], 3);
    info.set_public_info(NatType::Symmetric, vec![v4(1, 1, 1, 1)], 4);
    let copy = info.copy();
    assert_eq!(copy.public_ips, info.public_ips);
    assert_eq!(copy.local_udp_ports, vec![1, 2]);
    assert_eq!(copy.local_tcp_port, 3);
    assert_eq!(copy.nat_type, NatType::Symmetric);
}

#[test]
fn symmetric_networks_use_many_sockets() {
    assert_eq!(nat_test(Some(NatType::Cone)), Some(Model::Low));
    assert_eq!(nat_test(Some(NatType::Symmetric)), Some(Model::High));
    assert_eq!(nat_test(None), None);
}
