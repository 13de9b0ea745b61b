use netsentinel::frame::{MacAddr, TcpFlags, VlanInfo};

#[test]
fn test_mac_addr() {
    let mac = MacAddr::new([0x00, 0x11, 0x22, 0x33, 0x44, 0x55]);
    assert_eq!(mac.to_string(), "00:11:22:33:44:55");
    assert_eq!(mac.oui_prefix(), "00:11:22");
    assert!(!mac.is_broadcast());
    assert!(!mac.is_multicast());

    let broadcast = MacAddr::new([0xff, 0xff, 0xff, 0xff, 0xff, 0xff]);
    assert!(broadcast.is_broadcast());
    assert!(broadcast.is_multicast());

    let multicast = MacAddr::new([0x01, 0x00, 0x5e, 0x00, 0x00, 0x01]);
    assert!(!multicast.is_broadcast());
    assert!(multicast.is_multicast());
}

#[test]
fn test_vlan_info() {
    let tci: u16 = 0xA064;
    let vlan = VlanInfo::from_tci(tci);
    assert_eq!(vlan.id, 100);
    assert_eq!(vlan.priority, 5);
    assert!(!vlan.dei);
}

#[test]
fn frame_test_tcp_flags() {
    let syn = TcpFlags::from_byte(0x02);
    assert!(syn.syn);
    assert!(!syn.ack);
    assert!(syn.is_syn_only());

    let syn_ack = TcpFlags::from_byte(0x12);
    assert!(syn_ack.syn);
    assert!(syn_ack.ack);
    assert!(syn_ack.is_syn_ack());

    assert_eq!(syn.to_byte(), 0x02);
    assert_eq!(syn_ack.to_byte(), 0x12);
}

#[test]
fn test_mac_from_string_round_trip() {
    let mac = MacAddr::new([0x0a, 0x1b, 0x2c, 0x3d, 0x4e, 0x5f]);
    let text = mac.to_string();
    assert_eq!(text, "0a:1b:2c:3d:4e:5f");
    let parsed = MacAddr::from_string(&text).unwrap();
    assert_eq!(parsed.as_bytes(), mac.as_bytes());
}

#[test]
fn test_mac_from_string_upper_case() {
    let parsed = MacAddr::from_string("00:11:22:33:44:FF").unwrap();
    assert_eq!(*parsed.as_bytes(), [0x00, 0x11, 0x22, 0x33, 0x44, 0xff]);
}

#[test]
fn test_mac_from_string_rejects_bad_input() {
    assert!(MacAddr::from_string("00:11:22:33:44").is_none());
    assert!(MacAddr::from_string("zz:11:22:33:44:55").is_none());
    assert!(MacAddr::from_string("00-11-22-33-44-55").is_none());
    assert!(MacAddr::from_string("").is_none());
}

#[test]
fn test_mac_from_slice() {
    assert!(MacAddr::from_slice(&[1, 2, 3]).is_none());
    let m = MacAddr::from_slice(&[1, 2, 3, 4, 5, 6]).unwrap();
    assert_eq!(*m.as_bytes(), [1, 2, 3, 4, 5, 6]);
    assert!(m.is_multicast());
    assert!(!m.is_local());
    assert_eq!(m.oui_bytes(), [1, 2, 3]);
}

#[test]
fn test_vlan_tci_round_trip() {
    for tci in [0x0000u16, 0xA064, 0xB02A, 0xFFFF, 0x1234] {
        let vlan = VlanInfo::from_tci(tci);
        assert_eq!(vlan.to_tci(), tci);
    }
}

#[test]
fn test_tcp_flags_byte_round_trip() {
    for b in 0..=255u8 {
        assert_eq!(TcpFlags::from_byte(b).to_byte(), b);
    }
}
