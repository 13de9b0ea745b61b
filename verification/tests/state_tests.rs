use netsentinel::capture::CaptureStats;
use netsentinel::ethernet::parse_frame;
use netsentinel::flow::{FlowKey, FlowState};
use netsentinel::frame::{CapturedFrame, Ipv4Address, MacAddr};
use netsentinel::protocol::ProtocolStats;
use netsentinel::state::AggregatorState;

fn syn_frame_bytes(flags: u8) -> Vec<u8> {
    vec![
        0xff, 0xff, 0xff, 0xff, 0xff, 0xff, // dst MAC (broadcast)
        0x00, 0x11, 0x22, 0x33, 0x44, 0x55, // src MAC
        0x08, 0x00, // IPv4
        0x45, 0x00, 0x00, 0x28, 0x00, 0x01, 0x40, 0x00, 0x40, 0x06, 0x00, 0x00, // IPv4 hdr
        0xc0, 0xa8, 0x01, 0x01, // 192.168.1.1
        0xc0, 0xa8, 0x01, 0x02, // 192.168.1.2
        0x30, 0x39, // sport 12345
        0x00, 0x50, // dport 80
        0x00, 0x00, 0x00, 0x00, 0x00, 0x00, 0x00, 0x00, // seq, ack
        0x50, flags, // data offset 5, flags
        0xff, 0xff, 0x00, 0x00, 0x00, 0x00, // window, checksum, urgent
    ]
}

#[test]
fn test_flow_state() {
    let key = FlowKey {
        src_mac: MacAddr::new([0x00, 0x11, 0x22, 0x33, 0x44, 0x55]),
        dst_mac: MacAddr::new([0xff, 0xff, 0xff, 0xff, 0xff, 0xff]),
        src_ip: Some(Ipv4Address::new(192, 168, 1, 1)),
        dst_ip: Some(Ipv4Address::new(192, 168, 1, 2)),
        src_port: Some(12345),
        dst_port: Some(80),
        vlan_id: None,
        protocol: Some(6),
    };

    let mut flow = FlowState::new(key, 1_700_000_000);

    flow.update(100, Some(0x02), 1_700_000_000); // SYN
    flow.update(60, Some(0x12), 1_700_000_001); // SYN-ACK
    flow.update(52, Some(0x10), 1_700_000_002); // ACK

    assert_eq!(flow.packet_count, 3);
    assert_eq!(flow.byte_count, 212);

    let flags = flow.tcp_flags_seen;
    assert!(flags & 0x02 != 0); // SYN
    assert!(flags & 0x10 != 0); // ACK
}

#[test]
fn test_flow_key_display() {
    let key = FlowKey {
        src_mac: MacAddr::new([0x00, 0x11, 0x22, 0x33, 0x44, 0x55]),
        dst_mac: MacAddr::new([0x66, 0x77, 0x88, 0x99, 0xaa, 0xbb]),
        src_ip: Some(Ipv4Address::new(192, 168, 1, 1)),
        dst_ip: Some(Ipv4Address::new(10, 0, 0, 1)),
        src_port: Some(54321),
        dst_port: Some(443),
        vlan_id: None,
        protocol: Some(6),
    };

    let display = key.to_display_string();
    assert!(display.contains("192.168.1.1:54321"));
    assert!(display.contains("10.0.0.1:443"));
    assert!(display.contains("TCP"));
}

#[test]
fn test_flow_key_display_l2_fallback() {
    let key = FlowKey {
        src_mac: MacAddr::new([0x00, 0x11, 0x22, 0x33, 0x44, 0x55]),
        dst_mac: MacAddr::new([0xff, 0xff, 0xff, 0xff, 0xff, 0xff]),
        src_ip: None,
        dst_ip: None,
        src_port: None,
        dst_port: None,
        vlan_id: Some(100),
        protocol: None,
    };
    assert_eq!(key.to_display_string(), "00:11:22:33:44:55 -> ff:ff:ff:ff:ff:ff [L2]");
}

#[test]
fn protocol_test_protocol_names() {
    let tcp = ProtocolStats::new(0x0800, Some(6), 0);
    assert_eq!(tcp.name(), "TCP");

    let udp = ProtocolStats::new(0x0800, Some(17), 0);
    assert_eq!(udp.name(), "UDP");

    let arp = ProtocolStats::new(0x0806, None, 0);
    assert_eq!(arp.name(), "ARP");

    let ipv6 = ProtocolStats::new(0x86DD, None, 0);
    assert_eq!(ipv6.name(), "IPv6");
}

#[test]
fn test_protocol_stats_update() {
    let mut stats = ProtocolStats::new(0x0800, Some(6), 0);

    stats.update(100, 1);
    stats.update(200, 2);

    assert_eq!(stats.packet_count, 2);
    assert_eq!(stats.byte_count, 300);
}

#[test]
fn test_capture_stats() {
    let mut stats = CaptureStats::new();
    stats.packets_captured += 100;
    stats.bytes_captured += 5000;

    let snapshot = stats.snapshot();
    assert_eq!(snapshot.packets_captured, 100);
    assert_eq!(snapshot.bytes_captured, 5000);
}

#[test]
fn test_plain_tcp_syn_to_port_80() {
    let data = syn_frame_bytes(0x02);
    let frame = parse_frame("eth0", &data).unwrap();

    let mut state = AggregatorState::new();
    let result = state.process_frame_at(&frame, 1_700_000_000);

    // One new device: the source only; the destination is broadcast.
    assert_eq!(result.new_devices.len(), 1);
    assert_eq!(result.new_devices[0].to_string(), "00:11:22:33:44:55");

    assert_eq!(result.new_flows.len(), 1);
    let key = &result.new_flows[0];
    assert_eq!(key.vlan_id, None);
    assert_eq!(key.protocol, Some(6));
    assert_eq!(key.src_port, Some(12345));
    assert_eq!(key.dst_port, Some(80));

    assert_eq!(state.flows.len(), 1);
    assert_eq!(state.flows[0].tcp_flags_seen, 0x02);
    assert_eq!(state.devices.len(), 1);
}

#[test]
fn test_tagged_arp_vid_100() {
    let data = vec![
        0xff, 0xff, 0xff, 0xff, 0xff, 0xff, 0x00, 0x11, 0x22, 0x33, 0x44, 0x55, 0x81, 0x00,
        0x00, 0x64, // TCI: VID 100
        0x08, 0x06, // ARP
    ];
    let frame = parse_frame("eth0", &data).unwrap();
    assert_eq!(frame.vlan.as_ref().unwrap().id, 100);
    assert_eq!(frame.ethertype, 0x0806);
    assert!(frame.src_ip.is_none());

    let mut state = AggregatorState::new();
    state.process_frame_at(&frame, 1_700_000_000);

    assert_eq!(state.vlans.len(), 1);
    assert_eq!(state.vlans[0].vlan_id, 100);
    assert_eq!(state.vlans[0].packet_count, 1);
}

#[test]
fn test_qinq_ipv4_udp() {
    let data = vec![
        0xff, 0xff, 0xff, 0xff, 0xff, 0xff, 0x00, 0x11, 0x22, 0x33, 0x44, 0x55, //
        0x88, 0xa8, 0x00, 0xc8, // outer TCI VID=200
        0x81, 0x00, 0x00, 0x64, // inner TCI VID=100
        0x08, 0x00, // IPv4
        0x45, 0x00, 0x00, 0x2c, 0x00, 0x01, 0x40, 0x00, 0x40, 0x11, 0x00, 0x00, // proto 17
        0x0a, 0x00, 0x00, 0x01, 0x0a, 0x00, 0x00, 0x02, // 10.0.0.1 -> 10.0.0.2
        0x00, 0x35, // sport 53
        0x30, 0x39, // dport 12345
        0x00, 0x64, // UDP length 100
        0x00, 0x00, // checksum
    ];
    let frame = parse_frame("eth0", &data).unwrap();
    let qinq = frame.qinq.as_ref().unwrap();
    assert!(frame.vlan.is_none());
    assert_eq!(qinq.outer_vlan.id, 200);
    assert_eq!(qinq.inner_vlan.id, 100);
    assert_eq!(frame.vlan_id(), Some(100));
    assert_eq!(frame.outer_vlan_id(), Some(200));
    assert_eq!(frame.payload_size, 92);

    let mut state = AggregatorState::new();
    state.process_frame_at(&frame, 1_700_000_000);
    assert_eq!(state.vlans.len(), 1);
    assert_eq!(state.vlans[0].vlan_id, 100);
    assert_eq!(state.vlans[0].outer_vlan_id, Some(200));
}

#[test]
fn test_bidirectional_tcp_handshake() {
    let mut state = AggregatorState::new();
    for (i, flags) in [0x02u8, 0x12, 0x10].iter().enumerate() {
        let data = syn_frame_bytes(*flags);
        let frame = parse_frame("eth0", &data).unwrap();
        state.process_frame_at(&frame, 1_700_000_000 + i as u64);
    }

    assert_eq!(state.flows.len(), 1);
    assert_eq!(state.flows[0].packet_count, 3);
    assert_eq!(state.flows[0].tcp_flags_seen, 0x12);
    assert!(!state.flows[0].is_tcp_completed());
}

#[test]
fn test_unicast_dst_creates_device_multicast_does_not() {
    // Unicast destination: both endpoints get device entries.
    let mut unicast = syn_frame_bytes(0x02);
    unicast[0] = 0x00;
    unicast[1] = 0xaa;
    let frame = parse_frame("eth0", &unicast).unwrap();
    let mut state = AggregatorState::new();
    let result = state.process_frame_at(&frame, 1_700_000_000);
    assert_eq!(result.new_devices.len(), 2);
    assert_eq!(state.devices.len(), 2);

    // Multicast destination (first-byte LSB set): source only.
    let mut multicast = syn_frame_bytes(0x02);
    multicast[0] = 0x01;
    let frame = parse_frame("eth0", &multicast).unwrap();
    let mut state = AggregatorState::new();
    let result = state.process_frame_at(&frame, 1_700_000_000);
    assert_eq!(result.new_devices.len(), 1);
    assert_eq!(state.devices.len(), 1);
}

#[test]
fn test_totals_after_three_records() {
    let mut state = AggregatorState::new();
    let sizes = [54u64, 54, 58];
    let mut frames: Vec<CapturedFrame> = Vec::new();
    for flags in [0x02u8, 0x12, 0x10] {
        let mut data = syn_frame_bytes(flags);
        if flags == 0x10 {
            data.extend_from_slice(&[0, 0, 0, 0]);
        }
        frames.push(parse_frame("eth0", &data).unwrap());
    }
    for frame in &frames {
        state.process_frame_at(frame, 1_700_000_000);
    }
    assert_eq!(state.total_packets, 3);
    assert_eq!(state.total_bytes, sizes.iter().sum::<u64>());
}

#[test]
fn test_counters_at_least_one_per_observed_key() {
    let data = syn_frame_bytes(0x02);
    let frame = parse_frame("eth0", &data).unwrap();
    let mut state = AggregatorState::new();
    state.process_frame_at(&frame, 1_700_000_000);

    for d in &state.devices {
        assert!(d.packets_sent + d.packets_received >= 1);
    }
    for f in &state.flows {
        assert!(f.packet_count >= 1);
        assert!(f.byte_count >= frame.frame_size as u64);
    }
    for p in &state.protocols {
        assert!(p.packet_count >= 1);
    }
}

#[test]
fn test_tcp_flags_accumulate_monotonically() {
    let mut state = AggregatorState::new();
    let mut seen: u8 = 0;
    for flags in [0x02u8, 0x12, 0x10, 0x18, 0x11] {
        let data = syn_frame_bytes(flags);
        let frame = parse_frame("eth0", &data).unwrap();
        state.process_frame_at(&frame, 1_700_000_000);
        let now = state.flows[0].tcp_flags_seen;
        // every previously seen bit is still set
        assert_eq!(now & seen, seen);
        seen = now;
    }
    assert_eq!(seen, 0x02 | 0x12 | 0x10 | 0x18 | 0x11);
}

#[test]
fn test_device_ip_and_vlan_membership() {
    let data = vec![
        0x00, 0xaa, 0xbb, 0xcc, 0xdd, 0xee, 0x00, 0x11, 0x22, 0x33, 0x44, 0x55, 0x81, 0x00,
        0x00, 0x2a, // VID 42
        0x08, 0x00, 0x45, 0x00, 0x00, 0x28, 0x00, 0x01, 0x40, 0x00, 0x40, 0x06, 0x00, 0x00,
        0xc0, 0xa8, 0x01, 0x01, 0xc0, 0xa8, 0x01, 0x02, 0x30, 0x39, 0x00, 0x50, 0x00, 0x00,
        0x00, 0x00, 0x00, 0x00, 0x00, 0x00, 0x50, 0x02, 0xff, 0xff, 0x00, 0x00, 0x00, 0x00,
    ];
    let frame = parse_frame("eth0", &data).unwrap();
    let mut state = AggregatorState::new();
    state.process_frame_at(&frame, 1_700_000_000);

    assert_eq!(state.devices.len(), 2);
    let src = &state.devices[0];
    assert_eq!(src.mac.to_string(), "00:11:22:33:44:55");
    assert_eq!(src.packets_sent, 1);
    assert_eq!(src.ips.len(), 1);
    assert_eq!(src.ips[0].ip, Ipv4Address::new(192, 168, 1, 1));
    assert_eq!(src.ips[0].packets_sent, 1);
    assert_eq!(src.vlan_list(), vec![42u16]);

    let dst = &state.devices[1];
    assert_eq!(dst.packets_received, 1);
    assert_eq!(dst.ips[0].ip, Ipv4Address::new(192, 168, 1, 2));
    assert_eq!(dst.ips[0].packets_received, 1);
}
