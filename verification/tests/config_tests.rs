use netsentinel::agg_config;
use netsentinel::capture_config;

fn capture_config_base() -> capture_config::Config {
    capture_config::Config {
        capture: capture_config::CaptureConfig {
            mode: capture_config::default_mode(),
            ring_buffer_size: 4096,
            snap_length: 1518,
            flush_interval_ms: 100,
            batch_size: 500,
            interfaces: vec![capture_config::InterfaceConfig {
                name: "eth0".to_string(),
                promiscuous: true,
                description: None,
            }],
        },
        redis: capture_config::RedisConfig {
            url: "redis://localhost:6379".to_string(),
            stream_name: "test:frames".to_string(),
            max_stream_length: 50_000,
            pool_size: capture_config::default_pool_size(),
        },
        logging: capture_config::LoggingConfig {
            level: "debug".to_string(),
            file: None,
            stdout: true,
            format: "pretty".to_string(),
        },
        metrics: capture_config::MetricsConfig {
            enabled: false,
            port: capture_config::default_metrics_port(),
            path: capture_config::default_metrics_path(),
        },
    }
}

#[test]
fn test_valid_capture_config() {
    let config = capture_config_base();
    assert_eq!(config.capture.mode, "mirror");
    assert_eq!(config.capture.ring_buffer_size, 4096);
    assert_eq!(config.capture.interfaces.len(), 1);
    assert_eq!(config.capture.interfaces[0].name, "eth0");
    assert!(config.validate().is_ok());
}

#[test]
fn test_invalid_capture_mode() {
    let mut config = capture_config_base();
    config.capture.mode = "invalid".to_string();
    assert_eq!(config.validate(), Err(capture_config::ConfigError::InvalidMode));
}

#[test]
fn test_capture_config_rejections_in_order() {
    let mut config = capture_config_base();
    config.capture.interfaces.clear();
    assert_eq!(config.validate(), Err(capture_config::ConfigError::NoInterfaces));

    let mut config = capture_config_base();
    config.capture.interfaces[0].name = String::new();
    assert_eq!(config.validate(), Err(capture_config::ConfigError::EmptyInterfaceName));

    let mut config = capture_config_base();
    config.capture.ring_buffer_size = 63;
    assert_eq!(config.validate(), Err(capture_config::ConfigError::RingBufferTooSmall));

    let mut config = capture_config_base();
    config.capture.snap_length = 63;
    assert_eq!(config.validate(), Err(capture_config::ConfigError::SnapLengthOutOfRange));

    let mut config = capture_config_base();
    config.capture.snap_length = 65_536;
    assert_eq!(config.validate(), Err(capture_config::ConfigError::SnapLengthOutOfRange));
}

fn agg_config_base() -> agg_config::Config {
    agg_config::Config {
        redis: agg_config::RedisConfig {
            url: agg_config::default_redis_url(),
            stream_name: agg_config::default_stream_name(),
            consumer_group: agg_config::default_consumer_group(),
            consumer_name: agg_config::default_consumer_name(),
            batch_size: agg_config::default_batch_size(),
            block_ms: agg_config::default_block_timeout(),
        },
        database: agg_config::DatabaseConfig {
            url: "postgres://localhost/netsentinel".to_string(),
            max_connections: agg_config::default_pool_size(),
            connect_timeout: agg_config::default_connect_timeout(),
        },
        aggregation: agg_config::AggregationConfig {
            persist_interval_secs: agg_config::default_persist_interval(),
            metrics_bucket: agg_config::default_metrics_bucket(),
            inactivity_timeout: agg_config::default_inactivity_timeout(),
            flow_timeout: agg_config::default_flow_timeout(),
        },
        events: agg_config::EventsConfig {
            channel: agg_config::default_events_channel(),
            publish_new_devices: true,
            publish_new_flows: true,
            publish_alerts: false,
        },
        logging: agg_config::LoggingConfig {
            level: agg_config::default_log_level(),
            file: None,
            stdout: agg_config::default_true(),
            format: agg_config::default_log_format(),
        },
        metrics: agg_config::MetricsConfig {
            enabled: false,
            port: agg_config::default_metrics_port(),
            path: agg_config::default_metrics_path(),
        },
    }
}

#[test]
fn test_valid_aggregator_config() {
    let config = agg_config_base();
    assert_eq!(config.redis.consumer_group, "aggregator");
    assert_eq!(config.aggregation.persist_interval_secs, 60);
    assert!(config.validate().is_ok());
}

#[test]
fn test_aggregator_config_rejections() {
    let mut config = agg_config_base();
    config.database.max_connections = 0;
    assert_eq!(config.validate(), Err(agg_config::ConfigError::NoDatabaseConnections));

    let mut config = agg_config_base();
    config.aggregation.persist_interval_secs = 0;
    assert_eq!(config.validate(), Err(agg_config::ConfigError::PersistIntervalTooShort));
}

#[test]
fn test_capture_defaults() {
    assert_eq!(capture_config::default_mode(), "mirror");
    assert_eq!(capture_config::default_ring_buffer_size(), 8192);
    assert_eq!(capture_config::default_snap_length(), 1518);
    assert_eq!(capture_config::default_flush_interval(), 100);
    assert_eq!(capture_config::default_batch_size(), 1000);
    assert_eq!(capture_config::default_redis_url(), "redis://127.0.0.1:6379");
    assert_eq!(capture_config::default_stream_name(), "netsentinel:frames");
    assert_eq!(capture_config::default_max_stream_length(), 100_000);
    assert_eq!(capture_config::default_log_level(), "info");
    assert_eq!(capture_config::default_log_format(), "pretty");
    assert!(capture_config::default_true());
    assert_eq!(capture_config::default_metrics_port(), 9100);
    assert_eq!(capture_config::default_metrics_path(), "/metrics");
}

#[test]
fn test_aggregator_defaults() {
    assert_eq!(agg_config::default_batch_size(), 100);
    assert_eq!(agg_config::default_block_timeout(), 1000);
    assert_eq!(agg_config::default_pool_size(), 10);
    assert_eq!(agg_config::default_connect_timeout(), 30);
    assert_eq!(agg_config::default_persist_interval(), 60);
    assert_eq!(agg_config::default_metrics_bucket(), "1 minute");
    assert_eq!(agg_config::default_inactivity_timeout(), 300);
    assert_eq!(agg_config::default_flow_timeout(), 120);
    assert_eq!(agg_config::default_events_channel(), "netsentinel:events");
    assert_eq!(agg_config::default_metrics_port(), 9101);
}
