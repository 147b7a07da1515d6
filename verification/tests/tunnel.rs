use punch::client::{ClientFramedStream, Incoming, Way};
use punch::clock::now;
use punch::error::{ErrorKind, PunchError};
use punch::kcp_stream::KcpContext;
use punch::maintain::{heartbeat, route_pings};
use punch::network::{Ipv4Address, NatType, SocketAddress, SocketIndex, UdpIndex};
use punch::protocol::{convert_ping_pong, ping_pong_time, NetPacket, ProtocolType};
use punch::punch::{
    check_oneself_id, new_tunnel_component, servers_to_ask, PunchContext, PunchStep, Puncher,
};
use punch::tunnel::{
    batch, batch_buffers, check_stun_lengths, data_handle, packet_on_route, ping_step, pong_step,
    response_handle, stream_step, DataStep, TunnelRouter, BATCH_LEN, DATAGRAM_LEN, DEFAULT_RTT,
};
use rust_p2p_core::punch::{PunchInfo, PunchModel, Puncher as CorePuncher};
use rust_p2p_core::route::route_table::{Route, RouteTable};
use rust_p2p_core::route::RouteKey;
use rust_p2p_core::tunnel::config::LoadBalance;

fn id(text: &str) -> String {
    text.to_string()
}

fn routes_to(peers: &[&str]) -> RouteTable<String> {
    let table = RouteTable::new(LoadBalance::default());
    for peer in peers {
        table.add_route_if_absent(id(peer), Route::from_default_rt(RouteKey::default(), 0));
    }
    table
}

fn puncher(peers: &[&str]) -> Puncher {
    Puncher::new(id("me"), CorePuncher::new(None, None), TunnelRouter::new(routes_to(peers)))
}

fn punch_info(local_port: u16) -> PunchInfo {
    PunchInfo::new(
        PunchModel::all(),
        rust_p2p_core::nat::NatInfo {
            nat_type: Default::default(),
            public_ips: vec![],
            public_udp_ports: vec![],
            mapping_tcp_addr: vec![],
            mapping_udp_addr: vec![],
            public_port_range: 0,
            local_ipv4: [10, 0, 0, 1].into(),
            ipv6: None,
            local_udp_ports: vec![],
            local_tcp_port: local_port,
            public_tcp_port: 0,
        },
    )
}

#[test]
fn packet_needs_a_route_and_a_length() {
    assert_eq!(
        packet_on_route::<u8>(None, &[1]).err(),
        Some(PunchError::RouteNotFound)
    );
    let (packet, route) = packet_on_route(Some(7u8), &[1, 2]).unwrap();
    assert_eq!(&packet[..], &[0x83, 0, 6, 0, 1, 2]);
    assert_eq!(route, 7);
    let (packet, _) = packet_on_route(Some(7u8), &vec![9; 65531]).unwrap();
    assert_eq!(&packet[..5], &[0x83, 0xff, 0xff, 0, 9]);
    assert_eq!(packet.len(), 65535);
    assert_eq!(
        packet_on_route(Some(7u8), &vec![9; 65532]).err(),
        Some(PunchError::PacketLenInvalid)
    );
    assert_eq!(PunchError::RouteNotFound.kind(), ErrorKind::NotFound);
    assert_eq!(PunchError::RouteNotFound.message().unwrap(), "route not found");
}

#[test]
fn router_looks_up_routes() {
    let router = TunnelRouter::new(routes_to(&["peer"]));
    let (packet, route) = router.try_send_to(&[1], &id("peer")).unwrap();
    assert_eq!(&packet[..], &[0x83, 0, 5, 0, 1]);
    assert_eq!(route.route_key(), RouteKey::default());
    let (packet, route) = router.send_to(&[1], &id("peer")).unwrap();
    assert_eq!(&packet[..], &[0x83, 0, 5, 0, 1]);
    assert_eq!(route.route_key(), RouteKey::default());
    assert_eq!(
        router.try_send_to(&[1], &id("other")).err(),
        Some(PunchError::RouteNotFound)
    );
    assert!(router.is_reachable(&id("peer")));
    assert!(!router.is_reachable(&id("other")));
    assert!(router.no_need_punch(&id("peer")));
    assert!(!router.no_need_punch(&id("other")));
    assert_eq!(router.peer_of(&RouteKey::default()), Some(id("peer")));
    assert_eq!(router.all_routes().len(), 1);
    assert!(!router.route_table().is_empty());
}

#[test]
fn relayed_route_needs_punching() {
    let table = RouteTable::new(LoadBalance::default());
    table.add_route_if_absent(id("peer"), Route::from_default_rt(RouteKey::default(), 1));
    let router = TunnelRouter::new(table);
    assert!(router.is_reachable(&id("peer")));
    assert!(!router.no_need_punch(&id("peer")));
}

fn handle<'a>(oneself_id: &str, routes: &RouteTable<String>, data: &'a [u8]) -> DataStep<'a> {
    let mut context = PunchContext::new(id(oneself_id), vec![], vec![], vec![1], 0);
    let router = TunnelRouter::new(routes.clone());
    let index = SocketIndex::Udp(UdpIndex::MainV4(0));
    data_handle(&mut context, &router, &RouteKey::default(), index, data)
}

/// The response of a server with a mapped address, behind other attributes.
fn response(others: &[u8], tagged: bool) -> Vec<u8> {
    let mut bytes = vec![1u8, 1, 0, 0];
    let tag: u128 = if tagged { 1827549368 << 64 } else { 0 };
    bytes.extend_from_slice(&(tag | 5).to_be_bytes());
    bytes.extend_from_slice(others);
    bytes.extend_from_slice(&[0, 1, 0, 8, 0, 1, 0x12, 0x34, 8, 8, 4, 4]);
    let len = (bytes.len() - 20) as u16;
    bytes[2..4].copy_from_slice(&len.to_be_bytes());
    bytes
}

#[test]
fn address_in_a_response_is_taken_up() {
    let mut context = PunchContext::new(id("me"), vec![], vec![], vec![1], 0);
    let router = TunnelRouter::new(routes_to(&[]));
    let index = SocketIndex::Udp(UdpIndex::MainV4(0));
    let data = response(&[0x80, 0x22, 0, 3, b'a', b'b', b'c', 0], true);
    assert!(check_stun_lengths(&data));
    let step = data_handle(&mut context, &router, &RouteKey::default(), index, &data);
    assert!(matches!(step, DataStep::Done));
    let ip = Ipv4Address { a: 8, b: 8, c: 4, d: 4 };
    assert_eq!(context.nat_info().public_ips, vec![ip]);
    assert_eq!(context.nat_info().public_udp_ports, vec![0x1234]);
}

#[test]
fn sixteen_octets_in_a_response_are_taken_up() {
    let mut context = PunchContext::new(id("me"), vec![], vec![], vec![], 0);
    let router = TunnelRouter::new(routes_to(&[]));
    let mut data = response(&[], true);
    data.truncate(20);
    data.extend_from_slice(&[0, 1, 0, 20, 0, 2, 0, 99]);
    data.extend_from_slice(&[0, 0, 0, 0, 0, 0, 0, 0, 0, 0, 0xff, 0xff, 9, 8, 7, 6]);
    data[3] = 24;
    let step = data_handle(&mut context, &router, &RouteKey::default(), SocketIndex::Tcp(0), &data);
    assert!(matches!(step, DataStep::Done));
    let ip = Ipv4Address { a: 9, b: 8, c: 7, d: 6 };
    assert_eq!(context.nat_info().public_ips, vec![ip]);
    assert_eq!(context.nat_info().public_tcp_port, 99);
}

#[test]
fn response_to_another_is_no_packet() {
    let routes = routes_to(&[]);
    let data = response(&[], false);
    assert!(matches!(
        handle("me", &routes, &data),
        DataStep::Failed(PunchError::PacketLenInvalid)
    ));
    assert!(matches!(
        handle("me", &routes, &[1, 1]),
        DataStep::Failed(PunchError::PacketTooShort)
    ));
    assert!(matches!(
        handle("me", &routes, &[1, 0, 4, 0]),
        DataStep::Failed(PunchError::PingPongTooShort)
    ));
}

#[test]
fn response_with_its_address_given_is_taken_up() {
    let mut context = PunchContext::new(id("me"), vec![], vec![], vec![1], 0);
    let router = TunnelRouter::new(routes_to(&[]));
    let index = SocketIndex::Udp(UdpIndex::MainV4(0));
    let key = RouteKey::default();
    let ip = Ipv4Address { a: 8, b: 8, c: 8, d: 8 };
    let address = Some(SocketAddress::V4(ip, 99));
    let step = response_handle(&mut context, &router, &key, index, &[1, 1], address);
    assert!(matches!(step, DataStep::Done));
    assert_eq!(context.nat_info().public_ips, vec![ip]);
    assert_eq!(context.nat_info().public_udp_ports, vec![99]);
    let step = response_handle(&mut context, &router, &key, index, &[1, 0, 4, 0], None);
    assert!(matches!(step, DataStep::Failed(PunchError::PingPongTooShort)));
}

#[test]
fn lengths_beyond_rounding_do_not_fit() {
    assert!(check_stun_lengths(&[1, 1]));
    assert!(check_stun_lengths(&response(&[], true)));
    assert!(!check_stun_lengths(&response(&[0x80, 0x22, 0xff, 0xfd], true)));
    let untagged = response(&[0x80, 0x22, 0xff, 0xfd], false);
    assert!(check_stun_lengths(&untagged));
    assert!(matches!(
        handle("me", &routes_to(&[]), &untagged),
        DataStep::Failed(PunchError::PacketLenInvalid)
    ));
    assert!(check_stun_lengths(&response(&[0x80, 0x22, 0xff, 0xfc], true)));
    let mut trailing = response(&[], true);
    trailing.extend_from_slice(&[0x80, 0x22, 0xff, 0xff]);
    trailing[3] += 4;
    assert!(check_stun_lengths(&trailing));
    assert!(!check_stun_lengths(&response(&[0, 0x1d, 0, 4, 0, 1, 0xff, 0xff], true)));
    assert!(check_stun_lengths(&response(&[0, 0x1d, 0, 4, 0, 1, 0, 0], true)));
}

#[test]
fn ping_is_answered() {
    let routes = routes_to(&[]);
    let packet = ping_pong_time(ProtocolType::Ping, "peer", 5).unwrap();
    let data = packet.into_buffer();
    assert!(routes.route_one(&id("peer")).is_none());
    match handle("me", &routes, &data) {
        DataStep::Answer { peer_id, answer } => {
            assert_eq!(peer_id, "peer");
            assert_eq!(
                answer.unwrap().buffer(),
                &[0x82, 0, 11, 0, 2, b'm', b'e', 0, 0, 0, 5]
            );
        }
        _ => panic!("not answered"),
    }
    let learnt = routes.route_one(&id("peer")).unwrap();
    assert_eq!(learnt.route_key(), RouteKey::default());
    assert_eq!(learnt.metric(), 0);
    assert_eq!(learnt.rtt(), DEFAULT_RTT);
    let routes = routes_to(&[]);
    assert!(matches!(
        handle("peer", &routes, &data),
        DataStep::Failed(PunchError::ConnectToOneself)
    ));
    assert!(routes.is_empty());
    assert_eq!(PunchError::ConnectToOneself.kind(), ErrorKind::Other);
    assert_eq!(
        PunchError::ConnectToOneself.message().unwrap(),
        "Cannot connect to oneself"
    );
    match ping_step(&"m".repeat(256), "peer", 5) {
        DataStep::Answer { answer, .. } => assert_eq!(answer.err(), Some(PunchError::IdTooLong)),
        _ => panic!("not answered"),
    }
}

#[test]
fn pong_is_measured() {
    match pong_step("peer", 100, Ok(130)) {
        DataStep::Measured { peer_id, rtt } => {
            assert_eq!(peer_id, "peer");
            assert_eq!(rtt, 30);
        }
        _ => panic!("not measured"),
    }
    assert!(matches!(
        pong_step("peer", 100, Ok(99)),
        DataStep::Measured { rtt: 0, .. }
    ));
    assert!(matches!(
        pong_step("peer", 100, Err(PunchError::ClockBehind)),
        DataStep::Failed(PunchError::ClockBehind)
    ));
    let time = now().unwrap().saturating_sub(1000);
    let packet = ping_pong_time(ProtocolType::Pong, "peer", time).unwrap();
    let routes = routes_to(&["peer"]);
    match handle("me", &routes, packet.buffer()) {
        DataStep::Measured { peer_id, rtt } => {
            assert_eq!(peer_id, "peer");
            assert!((1000..11_000).contains(&rtt));
            let learnt = routes.route_one(&id("peer")).unwrap();
            assert_eq!(learnt.route_key(), RouteKey::default());
            assert_eq!(learnt.metric(), 0);
            assert_eq!(learnt.rtt(), rtt);
        }
        _ => panic!("not measured"),
    }
}

#[test]
fn stream_data_comes_out_at_a_known_peer() {
    let (data, _) = packet_on_route(Some(()), &[11, 12, 13]).unwrap();
    match handle("me", &routes_to(&["peer"]), &data) {
        DataStep::Stream { peer_id, data } => {
            assert_eq!(peer_id, "peer");
            assert_eq!(data, &[11, 12, 13]);
        }
        _ => panic!("no stream data"),
    }
    let routes = routes_to(&[]);
    assert!(matches!(handle("me", &routes, &data), DataStep::Done));
    assert!(routes.is_empty());
    let routes = routes_to(&["peer"]);
    routes.remove_route(&id("peer"), &RouteKey::default());
    routes.add_route(id("peer"), Route::from(RouteKey::default(), 0, 7));
    assert!(matches!(handle("me", &routes, &data), DataStep::Stream { .. }));
    assert_eq!(routes.route_one(&id("peer")).unwrap().rtt(), 7);
    assert!(matches!(stream_step(None, &[1]), DataStep::Done));
}

#[test]
fn broken_packets_fail() {
    let routes = routes_to(&[]);
    assert!(matches!(
        handle("me", &routes, &[0x84, 0, 4, 0]),
        DataStep::Failed(PunchError::InvalidProtocol(4))
    ));
    assert!(matches!(
        handle("me", &routes, &[0x81, 0, 5, 0]),
        DataStep::Failed(PunchError::PacketLenInvalid)
    ));
    assert!(matches!(
        handle("me", &routes, &[0x82, 0, 4, 0]),
        DataStep::Failed(PunchError::PingPongTooShort)
    ));
}

#[test]
fn batches_are_cut_out_of_buffers() {
    let mut buffers = batch_buffers();
    assert_eq!(buffers.len(), BATCH_LEN);
    assert!(buffers.iter().all(|b| b.len() == DATAGRAM_LEN && b.iter().all(|v| *v == 0)));
    buffers[0][0] = 1;
    buffers[1][..2].copy_from_slice(&[2, 3]);
    let datagrams = batch(&buffers, &vec![1, 2, 0], 2);
    assert_eq!(datagrams, vec![&[1u8][..], &[2, 3][..]]);
}

#[test]
fn component_has_its_servers_and_ports() {
    let context = new_tunnel_component(id("me"), Some(7), Some(vec![1, 2])).unwrap();
    assert_eq!(context.oneself_id, "me");
    assert_eq!(
        context.tcp_stun_servers,
        vec!["stun.flashdance.cx", "stun.sipnet.net", "stun.nextcloud.com:443"]
    );
    assert_eq!(
        context.udp_stun_servers,
        vec![
            "stun.miwifi.com",
            "stun.chat.bilibili.com",
            "stun.hitv.com",
            "stun.l.google.com:19302",
            "stun1.l.google.com:19302",
            "stun2.l.google.com:19302",
        ]
    );
    assert_eq!(context.nat_info().local_tcp_port, 7);
    assert_eq!(context.nat_info().local_udp_ports, vec![1, 2]);
    let context = new_tunnel_component(id("me"), None, None).unwrap();
    assert_eq!(context.nat_info().local_tcp_port, 0);
    assert!(context.nat_info().local_udp_ports.is_empty());
}

#[test]
fn long_own_id_is_refused() {
    assert_eq!(check_oneself_id(&"a".repeat(255)), Ok(()));
    let error = new_tunnel_component("a".repeat(256), None, None).err().unwrap();
    assert_eq!(error, PunchError::OneselfIdTooLong);
    assert_eq!(error.kind(), ErrorKind::InvalidInput);
    assert_eq!(error.message().unwrap(), "oneself_id too long");
}

#[test]
fn few_servers_are_asked() {
    let mut context = PunchContext::new(id("me"), vec![], vec![], vec![], 0);
    context.udp_stun_servers = (0..20).map(|i| format!("s{i}")).collect();
    let mut orders: Vec<Vec<String>> = Vec::new();
    for _ in 0..20 {
        let servers = context.stun_servers();
        assert_eq!(servers.len(), 3);
        assert!(servers.iter().all(|s| context.udp_stun_servers.contains(s)));
        assert!(servers[0] != servers[1] && servers[1] != servers[2] && servers[0] != servers[2]);
        orders.push(servers);
    }
    assert!(orders.iter().any(|order| order != &orders[0]));
    assert_eq!(servers_to_ask(vec![id("a"), id("b")]), vec!["a", "b"]);
    assert_eq!(
        servers_to_ask(vec![id("a"), id("b"), id("c"), id("d")]),
        vec!["a", "b", "c"]
    );
}

#[test]
fn outcome_of_a_test_is_taken_up() {
    let mut context = PunchContext::new(id("me"), vec![], vec![], vec![], 0);
    assert!(context.update_nat_info(None).is_none());
    let ip = Ipv4Address { a: 1, b: 2, c: 3, d: 4 };
    let info = context.update_nat_info(Some((NatType::Symmetric, vec![ip], 9))).unwrap();
    assert_eq!(info.nat_type, NatType::Symmetric);
    assert_eq!(info.public_ips, vec![ip]);
    assert_eq!(info.public_port_range, 9);
    assert_eq!(puncher(&[]).nat_info(&context).public_ips, vec![ip]);
}

#[test]
fn attempts_are_made_one_at_a_time_and_never_to_oneself() {
    let puncher = puncher(&["near"]);
    assert!(matches!(
        puncher.punch(false, &id("me"), &punch_info(1)),
        PunchStep::Finish(Ok(()))
    ));
    assert!(matches!(
        puncher.punch(true, &id("me"), &punch_info(1)),
        PunchStep::Finish(Err(PunchError::ConnectToOneself))
    ));
    assert!(matches!(
        puncher.punch(true, &id("near"), &punch_info(1)),
        PunchStep::Finish(Ok(()))
    ));
    assert!(matches!(
        puncher.punch(true, &id("far"), &punch_info(0)),
        PunchStep::Finish(Ok(()))
    ));
    match puncher.punch(true, &id("far"), &punch_info(1)) {
        PunchStep::Send(packet) => {
            let (from, _) = convert_ping_pong(packet.payload()).unwrap();
            assert_eq!(packet.protocol(), Ok(ProtocolType::Ping));
            assert_eq!(from, "me");
        }
        _ => panic!("not sent"),
    }
}

#[test]
fn attempt_goes_on_step_by_step() {
    let puncher = puncher(&[]);
    assert!(matches!(puncher.punch_allowed(true, &id("far")), PunchStep::AskPuncher));
    assert!(matches!(puncher.punch_needed(true), PunchStep::AskRoutes));
    assert!(matches!(puncher.punch_needed(false), PunchStep::Finish(Ok(()))));
    assert!(matches!(puncher.punch_unrouted(true), PunchStep::Finish(Ok(()))));
    assert!(matches!(puncher.punch_unrouted(false), PunchStep::Send(_)));
    let nameless = Puncher::new(
        "m".repeat(256),
        CorePuncher::new(None, None),
        TunnelRouter::new(routes_to(&[])),
    );
    assert!(matches!(
        nameless.punch_unrouted(false),
        PunchStep::Finish(Err(PunchError::IdTooLong))
    ));
    assert!(puncher.sender().need_punch(&punch_info(5)));
}

#[test]
fn streams_are_opened_to_others_only() {
    let puncher = puncher(&["peer"]);
    assert!(puncher.is_reachable(&id("peer")));
    assert!(puncher.router().is_reachable(&id("peer")));
    let mut context: KcpContext<u8> = KcpContext::starting_at(3);
    assert_eq!(
        puncher.connect(&mut context, id("me"), 0).err(),
        Some(PunchError::ConnectToOneself)
    );
    let stream = puncher.connect(&mut context, id("peer"), 1).unwrap();
    assert_eq!(stream.conv(), 3);
    assert_eq!(stream.peer_id(), "peer");
}

#[test]
fn heartbeat_pings_every_route() {
    let router = TunnelRouter::new(routes_to(&["peer"]));
    let mut pings = heartbeat(&id("me"), &router);
    let (packet, route) = pings.next().unwrap();
    assert_eq!(route.route_key(), RouteKey::default());
    let packet = NetPacket::new(packet).unwrap();
    assert_eq!(packet.protocol(), Ok(ProtocolType::Ping));
    assert_eq!(convert_ping_pong(packet.payload()).unwrap().0, "me");
    assert!(pings.next().is_none());
    let table = vec![(id("a"), vec![1u8, 2]), (id("b"), vec![]), (id("c"), vec![3])];
    let mut pings = route_pings(&id("me"), &table);
    let (route, packet) = route_pings(&id("me"), &table).next_route().unwrap();
    assert_eq!(route, 1);
    assert!(packet.is_ok());
    let mut routes: Vec<u8> = Vec::new();
    while let Some((_, route)) = pings.next() {
        routes.push(route);
    }
    assert_eq!(routes, vec![1, 2, 3]);
    let mut none = route_pings(&"m".repeat(256), &table);
    let (route, packet) = none.next_route().unwrap();
    assert_eq!(route, 1);
    assert_eq!(packet.err(), Some(PunchError::IdTooLong));
    assert!(none.next().is_none());
    assert!(none.next_route().is_none());
}

#[test]
fn direct_stream_is_created_once_where_the_peer_is_reachable() {
    let mut context: KcpContext<u8> = KcpContext::starting_at(8);
    let mut client = ClientFramedStream::new(id("peer"), 'r');
    let far = puncher(&[]);
    assert!(client.try_create_kcp_stream(&far, &mut context, 1).is_none());
    let near = puncher(&["peer"]);
    let stream = client.try_create_kcp_stream(&near, &mut context, 1).unwrap();
    assert_eq!(stream.conv(), 8);
    client.kcp_framed = Some('k');
    assert!(client.try_create_kcp_stream(&near, &mut context, 1).is_none());
    let oneself = ClientFramedStream::new(id("me"), 'r');
    assert!(oneself.create_if_reachable(true, &near, &mut context, 1).is_none());
    assert!(oneself.create_if_reachable(false, &near, &mut context, 1).is_none());
}

#[test]
fn message_finds_a_way() {
    let mut client = ClientFramedStream::new(id("peer"), 'r');
    assert_eq!(client.send_way(true), Way::Relay);
    client.kcp_framed = Some('k');
    assert_eq!(client.send_way(true), Way::Direct);
    assert_eq!(client.direct_sent(true), None);
    assert_eq!(client.kcp_framed, Some('k'));
    assert_eq!(client.send_way(true), Way::Direct);
    assert_eq!(client.direct_sent(false), Some(Way::Relay));
    assert_eq!(client.kcp_framed, None);
    client.kcp_framed = Some('k');
    assert_eq!(client.send_way(false), Way::Relay);
    assert_eq!(client.kcp_framed, None);
    assert_eq!(client.relay_framed, 'r');
    assert_eq!(client.peer_id, "peer");
}

#[test]
fn broken_direct_stream_is_dropped() {
    let mut client = ClientFramedStream::new(id("peer"), 'r');
    client.kcp_framed = Some('k');
    let data = bytes::BytesMut::from(&[1u8][..]);
    let returned = client.next::<u8>(Incoming::Direct(Some(Ok(data.clone()))));
    assert_eq!(returned, Some(Some(Ok(data.clone()))));
    assert_eq!(client.next::<u8>(Incoming::Relay(None)), Some(None));
    assert_eq!(client.next(Incoming::Relay(Some(Err(4u8)))), Some(Some(Err(4))));
    assert_eq!(client.kcp_framed, Some('k'));
    assert_eq!(client.next(Incoming::Direct(Some(Err(4u8)))), None);
    assert_eq!(client.kcp_framed, None);
    client.kcp_framed = Some('k');
    assert_eq!(client.next::<u8>(Incoming::Direct(None)), None);
    assert_eq!(client.kcp_framed, None);
}
