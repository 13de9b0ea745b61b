//! Configuration for the capture engine.

use vstd::prelude::*;

use crate::text::string_eq_str;

verus! {

/// Main capture configuration.
#[derive(Clone, Debug)]
pub struct Config {
    pub capture: CaptureConfig,
    pub redis: RedisConfig,
    pub logging: LoggingConfig,
    pub metrics: MetricsConfig,
}

/// Capture settings.
#[derive(Clone, Debug)]
pub struct CaptureConfig {
    /// Capture mode: "mirror" or "bypass".
    pub mode: String,
    /// Ring buffer size (number of frames).
    pub ring_buffer_size: usize,
    /// Maximum frame size to capture.
    pub snap_length: usize,
    /// Flush interval in milliseconds.
    pub flush_interval_ms: u64,
    /// Batch size for stream writes.
    pub batch_size: usize,
    /// Network interfaces to monitor.
    pub interfaces: Vec<InterfaceConfig>,
}

/// One monitored interface.
#[derive(Clone, Debug)]
pub struct InterfaceConfig {
    pub name: String,
    pub promiscuous: bool,
    pub description: Option<String>,
}

/// Broker connection settings.
#[derive(Clone, Debug)]
pub struct RedisConfig {
    /// Connection URL.
    pub url: String,
    /// Stream name for captured frames.
    pub stream_name: String,
    /// Maximum stream length (approximate trim).
    pub max_stream_length: usize,
    /// Connection pool size.
    pub pool_size: usize,
}

/// Logging settings.
#[derive(Clone, Debug)]
pub struct LoggingConfig {
    pub level: String,
    pub file: Option<String>,
    pub stdout: bool,
    pub format: String,
}

/// Metrics endpoint settings.
#[derive(Clone, Debug)]
pub struct MetricsConfig {
    pub enabled: bool,
    pub port: u16,
    pub path: String,
}

/// Why a configuration is rejected.
#[derive(Clone, Copy, Debug, PartialEq, Eq, Structural)]
pub enum ConfigError {
    /// The capture mode is neither "mirror" nor "bypass".
    InvalidMode,
    /// No capture interface is configured.
    NoInterfaces,
    /// An interface entry has an empty name.
    EmptyInterfaceName,
    /// The ring buffer holds fewer than 64 frames.
    RingBufferTooSmall,
    /// The snap length is outside 64..=65535.
    SnapLengthOutOfRange,
}

/// The validation verdict, checks in order: mode, interface list, interface
/// names, ring buffer size, snap length.
pub open spec fn spec_validate(c: &Config) -> Result<(), ConfigError> {
    if c.capture.mode@ != "mirror"@ && c.capture.mode@ != "bypass"@ {
        Err(ConfigError::InvalidMode)
    } else if c.capture.interfaces@.len() == 0 {
        Err(ConfigError::NoInterfaces)
    } else if exists|i: int| 0 <= i < c.capture.interfaces@.len()
        && (#[trigger] c.capture.interfaces@[i]).name@.len() == 0 {
        Err(ConfigError::EmptyInterfaceName)
    } else if c.capture.ring_buffer_size < 64 {
        Err(ConfigError::RingBufferTooSmall)
    } else if c.capture.snap_length < 64 || c.capture.snap_length > 65535 {
        Err(ConfigError::SnapLengthOutOfRange)
    } else {
        Ok(())
    }
}

impl Config {
    /// Validate the configuration.
    pub fn validate(&self) -> (r: Result<(), ConfigError>)
        ensures
            r == spec_validate(self),
    {
        if !(string_eq_str(&self.capture.mode, "mirror")
            || string_eq_str(&self.capture.mode, "bypass")) {
            return Err(ConfigError::InvalidMode);
        }

        if self.capture.interfaces.len() == 0 {
            return Err(ConfigError::NoInterfaces);
        }

        let mut i: usize = 0;
        while i < self.capture.interfaces.len()
            invariant
                i <= self.capture.interfaces@.len(),
                self.capture.mode@ == "mirror"@ || self.capture.mode@ == "bypass"@,
                self.capture.interfaces@.len() > 0,
                forall|j: int| 0 <= j < i
                    ==> (#[trigger] self.capture.interfaces@[j]).name@.len() != 0,
            decreases self.capture.interfaces@.len() - i,
        {
            if self.capture.interfaces[i].name.as_str().is_empty() {
                assert(self.capture.interfaces@[i as int].name@.len() == 0);
                assert(exists|k: int| 0 <= k < self.capture.interfaces@.len()
                    && (#[trigger] self.capture.interfaces@[k]).name@.len() == 0);
                return Err(ConfigError::EmptyInterfaceName);
            }
            i = i + 1;
        }

        if self.capture.ring_buffer_size < 64 {
            return Err(ConfigError::RingBufferTooSmall);
        }

        if self.capture.snap_length < 64 || self.capture.snap_length > 65535 {
            return Err(ConfigError::SnapLengthOutOfRange);
        }

        Ok(())
    }
}

pub fn default_mode() -> (r: String)
    ensures
        r@ == "mirror"@,
{
    "mirror".to_owned()
}

pub fn default_ring_buffer_size() -> (r: usize)
    ensures
        r == 8192,
{
    8192
}

pub fn default_snap_length() -> (r: usize)
    ensures
        r == 1518,
{
    1518
}

pub fn default_flush_interval() -> (r: u64)
    ensures
        r == 100,
{
    100
}

pub fn default_batch_size() -> (r: usize)
    ensures
        r == 1000,
{
    1000
}

pub fn default_redis_url() -> (r: String)
    ensures
        r@ == "redis://127.0.0.1:6379"@,
{
    "redis://127.0.0.1:6379".to_owned()
}

pub fn default_stream_name() -> (r: String)
    ensures
        r@ == "netsentinel:frames"@,
{
    "netsentinel:frames".to_owned()
}

pub fn default_max_stream_length() -> (r: usize)
    ensures
        r == 100000,
{
    100000
}

pub fn default_pool_size() -> (r: usize)
    ensures
        r == 4,
{
    4
}

pub fn default_log_level() -> (r: String)
    ensures
        r@ == "info"@,
{
    "info".to_owned()
}

pub fn default_log_format() -> (r: String)
    ensures
        r@ == "pretty"@,
{
    "pretty".to_owned()
}

pub fn default_true() -> (r: bool)
    ensures
        r,
{
    true
}

pub fn default_metrics_port() -> (r: u16)
    ensures
        r == 9100,
{
    9100
}

pub fn default_metrics_path() -> (r: String)
    ensures
        r@ == "/metrics"@,
{
    "/metrics".to_owned()
}

} // verus!
