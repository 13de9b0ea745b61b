use netsentinel::ethernet::parse_frame;
use netsentinel::persist::{Database, Persister};
use netsentinel::state::AggregatorState;

fn syn_frame_bytes(flags: u8) -> Vec<u8> {
    vec![
        0x00, 0xaa, 0xbb, 0xcc, 0xdd, 0xee, // dst MAC (unicast)
        0x00, 0x11, 0x22, 0x33, 0x44, 0x55, // src MAC
        0x08, 0x00, 0x45, 0x00, 0x00, 0x28, 0x00, 0x01, 0x40, 0x00, 0x40, 0x06, 0x00, 0x00,
        0xc0, 0xa8, 0x01, 0x01, 0xc0, 0xa8, 0x01, 0x02, 0x30, 0x39, 0x00, 0x50, 0x00, 0x00,
        0x00, 0x00, 0x00, 0x00, 0x00, 0x00, 0x50, flags, 0xff, 0xff, 0x00, 0x00, 0x00, 0x00,
    ]
}

#[test]
fn test_persist_all_writes_current_counters() {
    let mut state = AggregatorState::new();
    for flags in [0x02u8, 0x12] {
        let frame = parse_frame("eth0", &syn_frame_bytes(flags)).unwrap();
        state.process_frame_at(&frame, 1_700_000_000);
    }

    let mut db = Database::new();
    let mut persister = Persister::new();
    let report = persister.persist_all(&state, &mut db);

    assert_eq!(report.device_count, 2);
    assert_eq!(report.flow_count, 1);
    assert_eq!(report.protocol_count, 1);
    assert_eq!(report.vlan_count, 0);

    assert_eq!(db.devices.len(), 2);
    assert_eq!(db.flows.len(), 1);
    assert_eq!(db.flows[0].packet_count, 2);
    assert_eq!(db.flows[0].tcp_flags_seen, 0x12);
    assert_eq!(db.flows[0].src_mac, "00:11:22:33:44:55");
    assert_eq!(db.protocol_stats.len(), 1);
    assert_eq!(db.protocol_stats[0].packet_count, 2);
    assert_eq!(db.device_ips.len(), 2);

    // Flow rows link to the device rows written in the same pass.
    let src_row = db.devices.iter().find(|d| d.mac_address == "00:11:22:33:44:55").unwrap();
    assert_eq!(db.flows[0].src_device_id, Some(src_row.id));
}

#[test]
fn test_persist_all_twice_is_idempotent() {
    let mut state = AggregatorState::new();
    let frame = parse_frame("eth0", &syn_frame_bytes(0x02)).unwrap();
    state.process_frame_at(&frame, 1_700_000_000);

    let mut db = Database::new();
    let mut persister = Persister::new();
    persister.persist_all(&state, &mut db);

    let devices_once = db.devices.clone();
    let device_ips_once = db.device_ips.clone();
    let flows_once = db.flows.clone();
    let protocols_once = db.protocol_stats.clone();
    let vlans_once = db.vlans.clone();

    // A second pass with no intervening frames leaves the store identical.
    persister.persist_all(&state, &mut db);

    assert_eq!(db.devices, devices_once);
    assert_eq!(db.device_ips, device_ips_once);
    assert_eq!(db.flows, flows_once);
    assert_eq!(db.protocol_stats, protocols_once);
    assert_eq!(db.vlans, vlans_once);
}

#[test]
fn test_two_flushes_keep_flow_counters_monotone() {
    let mut state = AggregatorState::new();
    let frame = parse_frame("eth0", &syn_frame_bytes(0x02)).unwrap();
    state.process_frame_at(&frame, 1_700_000_000);

    let mut db = Database::new();
    let mut persister = Persister::new();
    persister.persist_all(&state, &mut db);
    let count_after_first = db.flows[0].packet_count;
    assert_eq!(count_after_first, 1);
    assert_eq!(db.flows[0].tcp_flags_seen, 0x02);

    // More traffic on the same flow, then a second flush.
    let frame2 = parse_frame("eth0", &syn_frame_bytes(0x10)).unwrap();
    state.process_frame_at(&frame2, 1_700_000_001);
    state.process_frame_at(&frame2, 1_700_000_002);
    persister.persist_all(&state, &mut db);

    assert_eq!(db.flows.len(), 1);
    // The stored count equals the latest in-memory value and never went down.
    assert_eq!(db.flows[0].packet_count, state.flows[0].packet_count);
    assert!(db.flows[0].packet_count >= count_after_first);
    // The flag accumulator is the OR of everything observed.
    assert_eq!(db.flows[0].tcp_flags_seen, 0x02 | 0x10);
    // The row identity assigned on first insert is stable across flushes.
    assert_eq!(db.flows[0].packet_count, 3);
}

#[test]
fn test_upsert_device_returns_stable_id() {
    let mut state = AggregatorState::new();
    let frame = parse_frame("eth0", &syn_frame_bytes(0x02)).unwrap();
    state.process_frame_at(&frame, 1_700_000_000);

    let mut db = Database::new();
    let snap = state.devices[0].snapshot();
    let first = db.upsert_device(&snap, 7);
    assert_eq!(first, 7);
    let second = db.upsert_device(&snap, 9);
    assert_eq!(second, 7);
    assert_eq!(db.devices.len(), 1);
}

#[test]
fn test_device_snapshot_carries_counters() {
    let mut state = AggregatorState::new();
    let frame = parse_frame("eth0", &syn_frame_bytes(0x02)).unwrap();
    state.process_frame_at(&frame, 1_700_000_000);

    let snap = state.devices[0].snapshot();
    assert_eq!(snap.mac_address, "00:11:22:33:44:55");
    assert_eq!(snap.oui_prefix, "00:11:22");
    assert_eq!(snap.packets_sent, 1);
    assert_eq!(snap.packets_received, 0);
    assert_eq!(snap.bytes_sent, 54);
    assert_eq!(snap.ip_addresses.len(), 1);
    assert_eq!(snap.last_seen, 1_700_000_000);
}

#[test]
fn test_flow_snapshot_carries_counters() {
    let mut state = AggregatorState::new();
    let frame = parse_frame("eth0", &syn_frame_bytes(0x02)).unwrap();
    state.process_frame_at(&frame, 1_700_000_000);

    let snap = state.flows[0].snapshot(0x0800);
    assert_eq!(snap.src_mac, "00:11:22:33:44:55");
    assert_eq!(snap.dst_mac, "00:aa:bb:cc:dd:ee");
    assert_eq!(snap.ethertype, 0x0800);
    assert_eq!(snap.packet_count, 1);
    assert_eq!(snap.byte_count, 54);
    assert_eq!(snap.tcp_flags_seen, 0x02);
    assert_eq!(snap.src_port, Some(12345));
    assert_eq!(snap.dst_port, Some(80));
}

#[test]
fn test_metrics_insert_and_mac_lookup() {
    let mut state = AggregatorState::new();
    let frame = parse_frame("eth0", &syn_frame_bytes(0x02)).unwrap();
    state.process_frame_at(&frame, 1_700_000_000);

    let mut db = Database::new();
    let mut persister = Persister::new();
    persister.persist_all(&state, &mut db);

    let id = db.get_device_by_mac("00:11:22:33:44:55").unwrap();
    assert_eq!(id, db.devices[0].id);
    assert!(db.get_device_by_mac("de:ad:be:ef:00:00").is_none());

    db.insert_metrics(1_700_000_060, Some(id), None, "ingress", 10, 640);
    assert_eq!(db.traffic_metrics.len(), 1);
    assert_eq!(db.traffic_metrics[0].metric_type, "ingress");
    assert_eq!(db.traffic_metrics[0].packet_count, 10);
    assert_eq!(db.traffic_metrics[0].device_id, Some(id));
}
