//! Configuration for the aggregation engine.

use vstd::prelude::*;

verus! {

/// Main aggregator configuration.
#[derive(Clone, Debug)]
pub struct Config {
    pub redis: RedisConfig,
    pub database: DatabaseConfig,
    pub aggregation: AggregationConfig,
    pub events: EventsConfig,
    pub logging: LoggingConfig,
    pub metrics: MetricsConfig,
}

/// Broker consumer settings.
#[derive(Clone, Debug)]
pub struct RedisConfig {
    /// Connection URL.
    pub url: String,
    /// Stream name to consume from.
    pub stream_name: String,
    /// Consumer group name.
    pub consumer_group: String,
    /// Consumer name.
    pub consumer_name: String,
    /// Batch size for reading from the stream.
    pub batch_size: usize,
    /// Block timeout when reading (milliseconds).
    pub block_ms: u64,
}

/// Database connection settings.
#[derive(Clone, Debug)]
pub struct DatabaseConfig {
    /// Connection URL.
    pub url: String,
    /// Connection pool size.
    pub max_connections: u32,
    /// Connection timeout (seconds).
    pub connect_timeout: u64,
}

/// Aggregation settings.
#[derive(Clone, Debug)]
pub struct AggregationConfig {
    /// Persist interval for devices/flows (seconds).
    pub persist_interval_secs: u64,
    /// Metrics bucket size.
    pub metrics_bucket: String,
    /// Device inactivity timeout (seconds).
    pub inactivity_timeout: u64,
    /// Flow timeout (seconds).
    pub flow_timeout: u64,
}

/// Event publishing settings.
#[derive(Clone, Debug)]
pub struct EventsConfig {
    /// Channel for real-time events.
    pub channel: String,
    /// Publish new device events.
    pub publish_new_devices: bool,
    /// Publish new flow events.
    pub publish_new_flows: bool,
    /// Publish threshold alerts.
    pub publish_alerts: bool,
}

/// Logging settings.
#[derive(Clone, Debug)]
pub struct LoggingConfig {
    pub level: String,
    pub file: Option<String>,
    pub stdout: bool,
    pub format: String,
}

/// Metrics endpoint settings.
#[derive(Clone, Debug)]
pub struct MetricsConfig {
    pub enabled: bool,
    pub port: u16,
    pub path: String,
}

/// Why a configuration is rejected.
#[derive(Clone, Copy, Debug, PartialEq, Eq, Structural)]
pub enum ConfigError {
    /// The database pool must allow at least one connection.
    NoDatabaseConnections,
    /// The persist interval must be at least one second.
    PersistIntervalTooShort,
}

/// The validation verdict, checks in order: database connections, persist
/// interval.
pub open spec fn spec_validate(c: &Config) -> Result<(), ConfigError> {
    if c.database.max_connections < 1 {
        Err(ConfigError::NoDatabaseConnections)
    } else if c.aggregation.persist_interval_secs < 1 {
        Err(ConfigError::PersistIntervalTooShort)
    } else {
        Ok(())
    }
}

impl Config {
    /// Validate the configuration.
    pub fn validate(&self) -> (r: Result<(), ConfigError>)
        ensures
            r == spec_validate(self),
    {
        if self.database.max_connections < 1 {
            return Err(ConfigError::NoDatabaseConnections);
        }
        if self.aggregation.persist_interval_secs < 1 {
            return Err(ConfigError::PersistIntervalTooShort);
        }
        Ok(())
    }
}

pub fn default_redis_url() -> (r: String)
    ensures
        r@ == "redis://127.0.0.1:6379"@,
{
    "redis://127.0.0.1:6379".to_owned()
}

pub fn default_stream_name() -> (r: String)
    ensures
        r@ == "netsentinel:frames"@,
{
    "netsentinel:frames".to_owned()
}

pub fn default_consumer_group() -> (r: String)
    ensures
        r@ == "aggregator"@,
{
    "aggregator".to_owned()
}

pub fn default_consumer_name() -> (r: String)
    ensures
        r@ == "aggregator-1"@,
{
    "aggregator-1".to_owned()
}

pub fn default_batch_size() -> (r: usize)
    ensures
        r == 100,
{
    100
}

pub fn default_block_timeout() -> (r: u64)
    ensures
        r == 1000,
{
    1000
}

pub fn default_pool_size() -> (r: u32)
    ensures
        r == 10,
{
    10
}

pub fn default_connect_timeout() -> (r: u64)
    ensures
        r == 30,
{
    30
}

pub fn default_persist_interval() -> (r: u64)
    ensures
        r == 60,
{
    60
}

pub fn default_metrics_bucket() -> (r: String)
    ensures
        r@ == "1 minute"@,
{
    "1 minute".to_owned()
}

pub fn default_inactivity_timeout() -> (r: u64)
    ensures
        r == 300,
{
    300
}

pub fn default_flow_timeout() -> (r: u64)
    ensures
        r == 120,
{
    120
}

pub fn default_events_channel() -> (r: String)
    ensures
        r@ == "netsentinel:events"@,
{
    "netsentinel:events".to_owned()
}

pub fn default_log_level() -> (r: String)
    ensures
        r@ == "info"@,
{
    "info".to_owned()
}

pub fn default_log_format() -> (r: String)
    ensures
        r@ == "pretty"@,
{
    "pretty".to_owned()
}

pub fn default_true() -> (r: bool)
    ensures
        r,
{
    true
}

pub fn default_metrics_port() -> (r: u16)
    ensures
        r == 9101,
{
    9101
}

pub fn default_metrics_path() -> (r: String)
    ensures
        r@ == "/metrics"@,
{
    "/metrics".to_owned()
}

} // verus!
