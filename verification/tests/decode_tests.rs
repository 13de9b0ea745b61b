use netsentinel::ethernet::{parse_ethernet, parse_frame};
use netsentinel::frame::{DecodeError, Ipv4Address};
use netsentinel::ipv4::{is_link_local, is_multicast, is_private, parse_ipv4, protocol_name};
use netsentinel::transport::{parse_tcp, parse_udp, service_name};
use netsentinel::vlan::{parse_qinq, parse_vlan, priority_name};

#[test]
fn test_parse_ethernet_header() {
    let data = vec![
        0xff, 0xff, 0xff, 0xff, 0xff, 0xff, // dst MAC (broadcast)
        0x00, 0x11, 0x22, 0x33, 0x44, 0x55, // src MAC
        0x08, 0x00, // EtherType (IPv4)
    ];

    let (dst, src, ethertype, offset) = parse_ethernet(&data).unwrap();

    assert!(dst.is_broadcast());
    assert_eq!(src.to_string(), "00:11:22:33:44:55");
    assert_eq!(ethertype, 0x0800);
    assert_eq!(offset, 14);
}

#[test]
fn test_parse_vlan_frame() {
    let data = vec![
        0xff, 0xff, 0xff, 0xff, 0xff, 0xff, // dst MAC
        0x00, 0x11, 0x22, 0x33, 0x44, 0x55, // src MAC
        0x81, 0x00, // EtherType (802.1Q)
        0x00, 0x64, // TCI: VLAN ID 100
        0x08, 0x00, // inner EtherType (IPv4)
    ];

    let frame = parse_frame("eth0", &data).unwrap();

    assert!(frame.vlan.is_some());
    assert_eq!(frame.vlan.as_ref().unwrap().id, 100);
    assert_eq!(frame.ethertype, 0x0800);
}

#[test]
fn test_parse_qinq_frame() {
    let data = vec![
        0xff, 0xff, 0xff, 0xff, 0xff, 0xff, // dst MAC
        0x00, 0x11, 0x22, 0x33, 0x44, 0x55, // src MAC
        0x88, 0xa8, // EtherType (802.1ad)
        0x00, 0xc8, // outer VLAN ID 200
        0x81, 0x00, // inner 802.1Q
        0x00, 0x64, // inner VLAN ID 100
        0x08, 0x00, // final EtherType (IPv4)
    ];

    let frame = parse_frame("eth0", &data).unwrap();

    assert!(frame.qinq.is_some());
    let qinq = frame.qinq.as_ref().unwrap();
    assert_eq!(qinq.outer_vlan.id, 200);
    assert_eq!(qinq.inner_vlan.id, 100);
    assert_eq!(frame.ethertype, 0x0800);
}

#[test]
fn test_frame_too_short() {
    let data = vec![0xff, 0xff, 0xff];
    assert!(parse_ethernet(&data).is_err());
}

#[test]
fn test_thirteen_byte_frame_is_truncated() {
    let data = vec![0u8; 13];
    assert_eq!(parse_frame("eth0", &data), Err(DecodeError::Truncated));
}

#[test]
fn test_short_ipv4_leaves_l3_absent() {
    // Ethernet + 0x0800, then an 18-byte buffer: too short for an IPv4
    // header, so the record carries no L3 fields and no error.
    let mut data = vec![
        0xff, 0xff, 0xff, 0xff, 0xff, 0xff, 0x00, 0x11, 0x22, 0x33, 0x44, 0x55, 0x08, 0x00,
    ];
    data.extend_from_slice(&[0x45u8; 18]);
    let frame = parse_frame("eth0", &data).unwrap();
    assert!(frame.src_ip.is_none());
    assert!(frame.dst_ip.is_none());
    assert!(frame.ip_protocol.is_none());
    assert!(frame.ttl.is_none());
}

#[test]
fn test_parse_ipv4_header() {
    let data = vec![
        0x45, 0x00, // version + IHL, DSCP + ECN
        0x00, 0x28, // total length (40 bytes)
        0x00, 0x01, // identification
        0x40, 0x00, // flags (DF=1) + fragment offset
        0x40, 0x06, // TTL (64) + protocol (TCP)
        0x00, 0x00, // header checksum
        0xc0, 0xa8, 0x01, 0x01, // source: 192.168.1.1
        0xc0, 0xa8, 0x01, 0x02, // destination: 192.168.1.2
    ];

    let info = parse_ipv4(&data).unwrap();

    assert_eq!(info.version, 4);
    assert_eq!(info.header_length, 20);
    assert_eq!(info.ttl, 64);
    assert_eq!(info.protocol, 6);
    assert!(info.dont_fragment);
    assert!(!info.more_fragments);
    assert_eq!(info.src_ip, Ipv4Address::new(192, 168, 1, 1));
    assert_eq!(info.dst_ip, Ipv4Address::new(192, 168, 1, 2));
}

#[test]
fn test_parse_ipv4_with_options() {
    let data = vec![
        0x46, 0x00, // version + IHL=6
        0x00, 0x2c, // total length (44 bytes)
        0x00, 0x01, 0x40, 0x00, // ID, flags, fragment
        0x40, 0x11, // TTL, protocol (UDP)
        0x00, 0x00, // checksum
        0x0a, 0x00, 0x00, 0x01, // source: 10.0.0.1
        0x0a, 0x00, 0x00, 0x02, // destination: 10.0.0.2
        0x00, 0x00, 0x00, 0x00, // options (4 bytes padding)
    ];

    let info = parse_ipv4(&data).unwrap();

    assert_eq!(info.header_length, 24);
    assert_eq!(info.protocol, 17);
}

#[test]
fn test_invalid_version() {
    let data = vec![
        0x65, 0x00, // version=6 (invalid for IPv4)
        0x00, 0x28, 0x00, 0x01, 0x40, 0x00, 0x40, 0x06, 0x00, 0x00, 0xc0, 0xa8, 0x01, 0x01,
        0xc0, 0xa8, 0x01, 0x02,
    ];

    assert!(parse_ipv4(&data).is_err());
}

#[test]
fn test_ihl_four_is_malformed() {
    let data = vec![
        0x44, 0x00, // version=4, IHL=4: below the minimum of 5
        0x00, 0x28, 0x00, 0x01, 0x40, 0x00, 0x40, 0x06, 0x00, 0x00, 0xc0, 0xa8, 0x01, 0x01,
        0xc0, 0xa8, 0x01, 0x02,
    ];

    assert_eq!(parse_ipv4(&data), Err(DecodeError::Malformed));
}

#[test]
fn test_private_addresses() {
    assert!(is_private(&Ipv4Address::new(10, 0, 0, 1)));
    assert!(is_private(&Ipv4Address::new(10, 255, 255, 255)));
    assert!(is_private(&Ipv4Address::new(172, 16, 0, 1)));
    assert!(is_private(&Ipv4Address::new(172, 31, 255, 255)));
    assert!(is_private(&Ipv4Address::new(192, 168, 0, 1)));
    assert!(is_private(&Ipv4Address::new(192, 168, 255, 255)));

    assert!(!is_private(&Ipv4Address::new(8, 8, 8, 8)));
    assert!(!is_private(&Ipv4Address::new(172, 32, 0, 1)));
}

#[test]
fn test_link_local_and_multicast_addresses() {
    assert!(is_link_local(&Ipv4Address::new(169, 254, 0, 1)));
    assert!(!is_link_local(&Ipv4Address::new(169, 253, 0, 1)));
    assert!(is_multicast(&Ipv4Address::new(224, 0, 0, 1)));
    assert!(is_multicast(&Ipv4Address::new(239, 255, 255, 255)));
    assert!(!is_multicast(&Ipv4Address::new(240, 0, 0, 1)));
}

#[test]
fn ipv4_test_protocol_names() {
    assert_eq!(protocol_name(6), "TCP");
    assert_eq!(protocol_name(17), "UDP");
    assert_eq!(protocol_name(1), "ICMP");
    assert_eq!(protocol_name(255), "Unknown");
}

#[test]
fn test_parse_tcp_header() {
    let data = vec![
        0x01, 0xbb, // source port: 443
        0xd4, 0x31, // destination port: 54321
        0x00, 0x00, 0x00, 0x01, // sequence number: 1
        0x00, 0x00, 0x00, 0x00, // ack number: 0
        0x50, 0x02, // data offset (5), flags (SYN)
        0xff, 0xff, // window: 65535
        0x00, 0x00, // checksum
        0x00, 0x00, // urgent pointer
    ];

    let info = parse_tcp(&data).unwrap();

    assert_eq!(info.src_port, Some(443));
    assert_eq!(info.dst_port, Some(54321));
    assert!(info.tcp_flags.as_ref().unwrap().syn);
    assert!(!info.tcp_flags.as_ref().unwrap().ack);
    assert_eq!(info.tcp_seq, Some(1));
    assert_eq!(info.tcp_window, Some(65535));
}

#[test]
fn test_parse_udp_header() {
    let data = vec![
        0x00, 0x35, // source port: 53 (DNS)
        0x30, 0x39, // destination port: 12345
        0x00, 0x64, // length: 100
        0x00, 0x00, // checksum
    ];

    let info = parse_udp(&data).unwrap();

    assert_eq!(info.src_port, Some(53));
    assert_eq!(info.dst_port, Some(12345));
    assert!(info.tcp_flags.is_none());
    assert_eq!(info.payload_size, 92);
}

#[test]
fn test_service_names() {
    assert_eq!(service_name(80), Some("http"));
    assert_eq!(service_name(443), Some("https"));
    assert_eq!(service_name(22), Some("ssh"));
    assert_eq!(service_name(53), Some("dns"));
    assert_eq!(service_name(12345), None);
}

#[test]
fn transport_test_tcp_flags() {
    let data = vec![
        0x00, 0x50, 0xc0, 0x00, 0x00, 0x00, 0x00, 0x00, 0x00, 0x00, 0x00, 0x01, 0x50, 0x12,
        0x00, 0x00, 0x00, 0x00, 0x00, 0x00,
    ];

    let info = parse_tcp(&data).unwrap();
    let flags = info.tcp_flags.unwrap();

    assert!(flags.syn);
    assert!(flags.ack);
    assert!(flags.is_syn_ack());
    assert!(!flags.is_syn_only());
}

#[test]
fn test_parse_vlan() {
    let data = vec![0x60, 0x64, 0x08, 0x00];

    let (vlan, ethertype, offset) = parse_vlan(&data).unwrap();

    assert_eq!(vlan.id, 100);
    assert_eq!(vlan.priority, 3);
    assert!(!vlan.dei);
    assert_eq!(ethertype, 0x0800);
    assert_eq!(offset, 4);
}

#[test]
fn test_parse_qinq() {
    let data = vec![
        0x00, 0xc8, // outer TCI (VID=200)
        0x81, 0x00, // inner TPID (802.1Q)
        0x00, 0x64, // inner TCI (VID=100)
        0x08, 0x00, // EtherType (IPv4)
    ];

    let (qinq, ethertype, offset) = parse_qinq(&data).unwrap();

    assert_eq!(qinq.outer_vlan.id, 200);
    assert_eq!(qinq.inner_vlan.id, 100);
    assert_eq!(ethertype, 0x0800);
    assert_eq!(offset, 8);
}

#[test]
fn test_vlan_with_priority() {
    let data = vec![0xB0, 0x2A, 0x08, 0x00];

    let (vlan, _, _) = parse_vlan(&data).unwrap();

    assert_eq!(vlan.id, 42);
    assert_eq!(vlan.priority, 5);
    assert!(vlan.dei);
}

#[test]
fn test_priority_names() {
    assert_eq!(priority_name(0), "Best Effort (BE)");
    assert_eq!(priority_name(5), "Voice (VO)");
    assert_eq!(priority_name(7), "Network Control (NC)");
}

#[test]
fn test_qinq_bad_inner_tpid() {
    let data = vec![
        0x00, 0xc8, // outer TCI
        0x08, 0x00, // inner TPID is not 802.1Q
        0x00, 0x64, 0x08, 0x00,
    ];
    assert_eq!(parse_qinq(&data), Err(DecodeError::Malformed));
}

#[test]
fn test_qinq_outer_tag_exposed_as_single_vlan() {
    // An 802.1ad outer tag whose inner TPID is not 802.1Q is exposed as a
    // single VLAN tag.
    let data = vec![
        0xff, 0xff, 0xff, 0xff, 0xff, 0xff, 0x00, 0x11, 0x22, 0x33, 0x44, 0x55, 0x88, 0xa8,
        0x00, 0xc8, // outer TCI (VID=200)
        0x08, 0x06, // inner TPID is ARP, not a VLAN tag
    ];
    let frame = parse_frame("eth0", &data).unwrap();
    assert!(frame.qinq.is_none());
    assert_eq!(frame.vlan.as_ref().unwrap().id, 200);
    assert_eq!(frame.ethertype, 0x0806);
}

#[test]
fn test_decoder_payload_accounting() {
    // A plain TCP SYN with no payload after the 20-byte TCP header.
    let mut data = vec![
        0xff, 0xff, 0xff, 0xff, 0xff, 0xff, 0x00, 0x11, 0x22, 0x33, 0x44, 0x55, 0x08, 0x00,
        0x45, 0x00, 0x00, 0x28, 0x00, 0x01, 0x40, 0x00, 0x40, 0x06, 0x00, 0x00, 0xc0, 0xa8,
        0x01, 0x01, 0xc0, 0xa8, 0x01, 0x02, 0x30, 0x39, 0x00, 0x50, 0x00, 0x00, 0x00, 0x00,
        0x00, 0x00, 0x00, 0x00, 0x50, 0x02, 0xff, 0xff, 0x00, 0x00, 0x00, 0x00,
    ];
    let frame = parse_frame("eth0", &data).unwrap();
    assert_eq!(frame.frame_size, 54);
    assert_eq!(frame.payload_size, 0);

    // Four payload bytes after the TCP header are counted.
    data.extend_from_slice(&[1, 2, 3, 4]);
    let frame = parse_frame("eth0", &data).unwrap();
    assert_eq!(frame.frame_size, 58);
    assert_eq!(frame.payload_size, 4);
}
