use netsentinel::capture::{combined_stats, CapturePhase, CaptureSession, CaptureStatsSnapshot};
use netsentinel::capture_config::RedisConfig;
use netsentinel::codec::encode_record;
use netsentinel::consumer::{parse_stream_response, process_entries, WireValue};
use netsentinel::ethernet::parse_frame;
use netsentinel::output::RedisOutput;
use netsentinel::state::AggregatorState;

fn frame_bytes() -> Vec<u8> {
    vec![
        0xff, 0xff, 0xff, 0xff, 0xff, 0xff, 0x00, 0x11, 0x22, 0x33, 0x44, 0x55, 0x08, 0x00,
        0x45, 0x00, 0x00, 0x28, 0x00, 0x01, 0x40, 0x00, 0x40, 0x06, 0x00, 0x00, 0xc0, 0xa8,
        0x01, 0x01, 0xc0, 0xa8, 0x01, 0x02, 0x30, 0x39, 0x00, 0x50, 0x00, 0x00, 0x00, 0x00,
        0x00, 0x00, 0x00, 0x00, 0x50, 0x02, 0xff, 0xff, 0x00, 0x00, 0x00, 0x00,
    ]
}

fn broker_config() -> RedisConfig {
    RedisConfig {
        url: "redis://127.0.0.1:6379".to_string(),
        stream_name: "netsentinel:frames".to_string(),
        max_stream_length: 100_000,
        pool_size: 4,
    }
}

#[test]
fn test_capture_session_lifecycle_releases_promisc() {
    let mut session = CaptureSession::new("eth0", true);
    assert_eq!(session.phase, CapturePhase::Configured);
    session.open();
    session.start();
    assert_eq!(session.phase, CapturePhase::Running);
    assert!(session.promiscuous_on);

    let frame = session.on_frame(&frame_bytes()).unwrap();
    assert_eq!(frame.interface, "eth0");
    assert_eq!(session.stats.packets_captured, 1);
    assert_eq!(session.stats.bytes_captured, 54);

    // A frame the decoder rejects is counted and dropped.
    assert!(session.on_frame(&[0u8; 5]).is_none());
    assert_eq!(session.stats.parse_errors, 1);
    assert_eq!(session.stats.packets_captured, 2);

    session.on_channel_full();
    assert_eq!(session.stats.packets_dropped, 1);

    session.stop();
    assert_eq!(session.phase, CapturePhase::Stopping);
    session.close();
    assert_eq!(session.phase, CapturePhase::Closed);
    assert!(!session.promiscuous_on);
}

#[test]
fn test_combined_stats_sums_interfaces() {
    let snapshots = vec![
        CaptureStatsSnapshot {
            packets_captured: 100,
            bytes_captured: 5000,
            packets_dropped: 1,
            parse_errors: 0,
        },
        CaptureStatsSnapshot {
            packets_captured: 50,
            bytes_captured: 2500,
            packets_dropped: 0,
            parse_errors: 2,
        },
    ];
    let combined = combined_stats(&snapshots);
    assert_eq!(combined.packets_captured, 150);
    assert_eq!(combined.bytes_captured, 7500);
    assert_eq!(combined.packets_dropped, 1);
    assert_eq!(combined.parse_errors, 2);
}

#[test]
fn test_broker_outage_mid_batch() {
    let mut output = RedisOutput::new(broker_config());
    let frame = parse_frame("eth0", &frame_bytes()).unwrap();

    // Two records fill a batch of two.
    assert!(output.push_frame(frame.clone(), 2).is_none());
    let batch = output.push_frame(frame.clone(), 2).unwrap();
    assert_eq!(batch.len(), 2);

    // The broker is down: the batch is dropped and counted, nothing dies.
    output.on_send_result(batch.len() as u64, 200, false);
    assert_eq!(output.stats().send_errors, 1);
    assert_eq!(output.stats().frames_sent, 0);

    // The broker recovers: the next batch goes through.
    assert!(output.push_frame(frame.clone(), 2).is_none());
    let batch = output.push_frame(frame, 2).unwrap();
    output.on_send_result(batch.len() as u64, 200, true);
    assert_eq!(output.stats().frames_sent, 2);
    assert_eq!(output.stats().send_errors, 1);
}

#[test]
fn test_take_batch_drains_pending() {
    let mut output = RedisOutput::new(broker_config());
    let frame = parse_frame("eth0", &frame_bytes()).unwrap();
    assert!(output.push_frame(frame, 10).is_none());
    let batch = output.take_batch();
    assert_eq!(batch.len(), 1);
    assert_eq!(output.take_batch().len(), 0);
}

#[test]
fn test_parse_stream_response_extracts_data_fields() {
    let payload = vec![1u8, 2, 3];
    let reply = WireValue::List(vec![WireValue::List(vec![
        WireValue::Data(b"netsentinel:frames".to_vec()),
        WireValue::List(vec![
            WireValue::List(vec![
                WireValue::Data(b"1-1".to_vec()),
                WireValue::List(vec![
                    WireValue::Data(b"other".to_vec()),
                    WireValue::Data(vec![9]),
                    WireValue::Data(b"data".to_vec()),
                    WireValue::Data(payload.clone()),
                ]),
            ]),
            WireValue::List(vec![
                WireValue::Data(b"1-2".to_vec()),
                WireValue::List(vec![
                    WireValue::Data(b"data".to_vec()),
                    WireValue::Data(vec![7, 7]),
                ]),
            ]),
        ]),
    ])]);

    let entries = parse_stream_response(&reply);
    assert_eq!(entries.len(), 2);
    assert_eq!(entries[0].0, b"1-1".to_vec());
    assert_eq!(entries[0].1, payload);
    assert_eq!(entries[1].0, b"1-2".to_vec());
    assert_eq!(entries[1].1, vec![7, 7]);
}

#[test]
fn test_parse_stream_response_nil() {
    assert_eq!(parse_stream_response(&WireValue::Nil).len(), 0);
    assert_eq!(parse_stream_response(&WireValue::Int(3)).len(), 0);
}

#[test]
fn test_process_entries_acks_everything_and_skips_bad_payloads() {
    let frame = parse_frame("eth0", &frame_bytes()).unwrap();
    let good = encode_record(&frame).unwrap();
    let entries = vec![
        (b"1-1".to_vec(), good),
        (b"1-2".to_vec(), vec![0u8, 1, 2]), // not a record: skipped, still acked
    ];

    let mut state = AggregatorState::new();
    let (acks, processed) = process_entries(&mut state, &entries);

    assert_eq!(processed, 1);
    assert_eq!(acks.len(), 2);
    assert_eq!(acks[0], b"1-1".to_vec());
    assert_eq!(acks[1], b"1-2".to_vec());
    assert_eq!(state.total_packets, 1);
    assert_eq!(state.flows.len(), 1);
}
