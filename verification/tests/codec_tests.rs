use netsentinel::codec::{decode_record, encode_record};
use netsentinel::frame::{CapturedFrame, Ipv4Address, MacAddr, QinQInfo, TcpFlags, VlanInfo};

fn full_record() -> CapturedFrame {
    CapturedFrame {
        timestamp_micros: 1_700_000_000_123_456,
        interface: "eth0".to_string(),
        src_mac: MacAddr::new([0x00, 0x11, 0x22, 0x33, 0x44, 0x55]),
        dst_mac: MacAddr::new([0x66, 0x77, 0x88, 0x99, 0xaa, 0xbb]),
        ethertype: 0x0800,
        vlan: None,
        qinq: Some(QinQInfo {
            outer_vlan: VlanInfo { id: 200, priority: 3, dei: false },
            inner_vlan: VlanInfo { id: 100, priority: 0, dei: true },
        }),
        src_ip: Some(Ipv4Address::new(192, 168, 1, 1)),
        dst_ip: Some(Ipv4Address::new(10, 0, 0, 2)),
        ip_protocol: Some(6),
        ttl: Some(64),
        src_port: Some(12345),
        dst_port: Some(443),
        tcp_flags: Some(TcpFlags::from_byte(0x12)),
        frame_size: 1514,
        payload_size: 1448,
    }
}

#[test]
fn test_record_round_trip_full() {
    let record = full_record();
    let bytes = encode_record(&record).unwrap();
    let decoded = decode_record(&bytes).unwrap();
    assert_eq!(decoded, record);
}

#[test]
fn test_record_round_trip_minimal() {
    let record = CapturedFrame {
        timestamp_micros: 0,
        interface: String::new(),
        src_mac: MacAddr::new([0, 0, 0, 0, 0, 0]),
        dst_mac: MacAddr::new([0xff, 0xff, 0xff, 0xff, 0xff, 0xff]),
        ethertype: 0x0806,
        vlan: None,
        qinq: None,
        src_ip: None,
        dst_ip: None,
        ip_protocol: None,
        ttl: None,
        src_port: None,
        dst_port: None,
        tcp_flags: None,
        frame_size: 60,
        payload_size: 0,
    };
    let bytes = encode_record(&record).unwrap();
    let decoded = decode_record(&bytes).unwrap();
    assert_eq!(decoded, record);
}

#[test]
fn test_record_round_trip_vlan_and_negative_timestamp() {
    let mut record = full_record();
    record.timestamp_micros = -123_456_789;
    record.qinq = None;
    record.vlan = Some(VlanInfo { id: 42, priority: 5, dei: true });
    record.interface = "br-lan.42".to_string();
    let bytes = encode_record(&record).unwrap();
    let decoded = decode_record(&bytes).unwrap();
    assert_eq!(decoded, record);
}

#[test]
fn test_record_round_trip_unicode_interface() {
    let mut record = full_record();
    record.interface = "caf\u{e9}0".to_string();
    let bytes = encode_record(&record).unwrap();
    let decoded = decode_record(&bytes).unwrap();
    assert_eq!(decoded, record);
}

#[test]
fn test_decode_rejects_truncated_and_garbage() {
    let record = full_record();
    let bytes = encode_record(&record).unwrap();
    assert!(decode_record(&bytes[..bytes.len() - 1]).is_none());
    assert!(decode_record(&[]).is_none());
    assert!(decode_record(&[0u8; 5]).is_none());
}

#[test]
fn test_encoding_is_not_identity() {
    // The wire form actually transforms the record: the MAC bytes appear
    // after the timestamp and the length-prefixed interface name.
    let record = full_record();
    let bytes = encode_record(&record).unwrap();
    assert_eq!(bytes.len(), 68 + 4);
    assert_eq!(&bytes[8..10], &[0, 4]); // interface byte length
    assert_eq!(&bytes[10..14], b"eth0");
    assert_eq!(&bytes[14..20], &[0x00, 0x11, 0x22, 0x33, 0x44, 0x55]);
}
