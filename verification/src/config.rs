//! The daemon's configuration, the power profiles and their thresholds, and
//! the checks a loaded configuration must pass.
use vstd::prelude::*;
use vstd::string::*;
use crate::text::{trim, same_text, trimmed};

verus! {

/// Why a configuration could not be loaded.
#[derive(Debug)]
pub enum ConfigError {
    /// The file could not be read.
    ReadError(std::io::Error),
    /// The file is not valid TOML for a configuration.
    ParseError(toml::de::Error),
    /// The values break one of the rules of `Config::validate`.
    ValidationError(String),
}

impl ConfigError {
    /// The message that describes the error, without the outside error's own text.
    pub fn kind_message(&self) -> (r: String)
        ensures
            r@ == match self {
                ConfigError::ReadError(_) => "Failed to read config file"@,
                ConfigError::ParseError(_) => "Failed to parse config"@,
                ConfigError::ValidationError(m) => "Invalid config: "@ + m@,
            },
    {
        match self {
            ConfigError::ReadError(_) => String::from_str("Failed to read config file"),
            ConfigError::ParseError(_) => String::from_str("Failed to parse config"),
            ConfigError::ValidationError(m) => String::from_str("Invalid config: ").concat(m.as_str()),
        }
    }
}

/// Temperature thresholds for a profile
#[derive(Debug, Clone, Copy)]
pub struct ProfileThresholds {
    pub throttle_start: u32,
    pub throttle_max: u32,
}

impl Default for ProfileThresholds {
    fn default() -> (r: Self)
        ensures
            r.throttle_start == 55,
            r.throttle_max == 72,
    {
        ProfileThresholds { throttle_start: 55, throttle_max: 72 }
    }
}

/// Power profile names matching platform_profile values
#[derive(Debug, Clone, Copy, PartialEq, Eq, Structural)]
pub enum PowerProfile {
    /// `low-power`
    Silent,
    /// `balanced`
    Balanced,
    /// `performance`
    Performance,
}

impl Default for PowerProfile {
    fn default() -> (r: Self)
        ensures
            r == PowerProfile::Balanced,
    {
        PowerProfile::Balanced
    }
}

/// The profile that a platform_profile value names, once whitespace is
/// trimmed; any other value means the balanced profile.
pub open spec fn profile_of(t: Seq<char>) -> PowerProfile {
    if t == "low-power"@ {
        PowerProfile::Silent
    } else if t == "balanced"@ {
        PowerProfile::Balanced
    } else if t == "performance"@ {
        PowerProfile::Performance
    } else {
        PowerProfile::Balanced
    }
}

/// The name coolctl gives a profile.
pub open spec fn profile_name(p: PowerProfile) -> Seq<char> {
    match p {
        PowerProfile::Silent => "silent"@,
        PowerProfile::Balanced => "balanced"@,
        PowerProfile::Performance => "performance"@,
    }
}

impl PowerProfile {
    /// The profile for a platform_profile file's content.
    pub fn from_platform_str(s: &str) -> (r: Self)
        ensures
            r == profile_of(trimmed(s@)),
    {
        let t = trim(s);
        if same_text(t, "low-power") {
            PowerProfile::Silent
        } else if same_text(t, "balanced") {
            PowerProfile::Balanced
        } else if same_text(t, "performance") {
            PowerProfile::Performance
        } else {
            PowerProfile::Balanced
        }
    }

    pub fn name(&self) -> (r: &'static str)
        ensures
            r@ == profile_name(*self),
    {
        match self {
            PowerProfile::Silent => "silent",
            PowerProfile::Balanced => "balanced",
            PowerProfile::Performance => "performance",
        }
    }
}

/// Where to look for a temperature sensor.
#[derive(Debug, Clone, Copy, PartialEq, Eq, Structural)]
pub enum SensorSource {
    Auto,
    Hwmon,
    Thermal,
}

impl Default for SensorSource {
    fn default() -> (r: Self)
        ensures
            r == SensorSource::Auto,
    {
        SensorSource::Auto
    }
}

#[derive(Debug, Clone)]
pub struct Config {
    /// Temperature to begin throttling (°C) - used for balanced profile
    pub throttle_start: u32,
    /// Temperature to force minimum frequency (°C) - used for balanced profile
    pub throttle_max: u32,
    /// Hysteresis in degrees before changing frequency
    pub hysteresis: u32,
    /// Polling interval in milliseconds
    pub poll_interval_ms: u64,
    /// Explicit sensor path (None = auto-detect)
    pub sensor: Option<String>,
    /// Sensor source preference: auto, hwmon, thermal
    pub sensor_source: SensorSource,
    /// Minimum frequency in kHz (None = auto-detect)
    pub min_freq: Option<u64>,
    /// Maximum frequency in kHz (None = auto-detect)
    pub max_freq: Option<u64>,
    /// Log level: error, warn, info, debug
    pub log_level: String,
    /// Optional log file path
    pub log_file: Option<String>,
    /// Enable profile switching based on platform_profile
    pub enable_profiles: bool,
    /// Silent profile thresholds (aggressive throttling for quiet fans)
    pub profile_silent: ProfileThresholds,
    /// Performance profile thresholds (minimal throttling, allow higher temps)
    pub profile_performance: ProfileThresholds,
}

/// The values of the default configuration.
pub open spec fn is_default_config(c: Config) -> bool {
    &&& c.throttle_start == 55
    &&& c.throttle_max == 72
    &&& c.hysteresis == 2
    &&& c.poll_interval_ms == 1000
    &&& c.sensor is None
    &&& c.sensor_source == SensorSource::Auto
    &&& c.min_freq is None
    &&& c.max_freq is None
    &&& c.log_level@ == "info"@
    &&& c.log_file is None
    &&& c.enable_profiles
    &&& c.profile_silent.throttle_start == 40
    &&& c.profile_silent.throttle_max == 50
    &&& c.profile_performance.throttle_start == 75
    &&& c.profile_performance.throttle_max == 90
}

impl Default for Config {
    fn default() -> (r: Self)
        ensures
            is_default_config(r),
    {
        Config {
            throttle_start: 55,
            throttle_max: 72,
            hysteresis: 2,
            poll_interval_ms: 1000,
            sensor: None,
            sensor_source: SensorSource::Auto,
            min_freq: None,
            max_freq: None,
            log_level: String::from_str("info"),
            log_file: None,
            enable_profiles: true,
            profile_silent: ProfileThresholds { throttle_start: 40, throttle_max: 50 },
            profile_performance: ProfileThresholds { throttle_start: 75, throttle_max: 90 },
        }
    }
}

/// The message of the first rule that the configuration breaks, or `None`
/// when it keeps them all.
pub open spec fn validation_failure(c: Config) -> Option<Seq<char>> {
    if c.throttle_start >= c.throttle_max {
        Some("throttle_start must be less than throttle_max"@)
    } else if c.throttle_max > 110 {
        Some("throttle_max should not exceed 110°C"@)
    } else if c.poll_interval_ms < 100 {
        Some("poll_interval_ms should be at least 100ms"@)
    } else if c.profile_silent.throttle_start >= c.profile_silent.throttle_max {
        Some("profile_silent: throttle_start must be less than throttle_max"@)
    } else if c.profile_performance.throttle_start >= c.profile_performance.throttle_max {
        Some("profile_performance: throttle_start must be less than throttle_max"@)
    } else {
        None
    }
}

/// A configuration that `Config::validate` accepts.
pub open spec fn is_valid_config(c: Config) -> bool {
    validation_failure(c) is None
}

/// What `Config::load` gives for the outcome of reading and parsing a file.
pub open spec fn load_outcome(parsed: Result<Config, ConfigError>, r: Result<Config, ConfigError>) -> bool {
    match parsed {
        Err(e) => r == Err::<Config, ConfigError>(e),
        Ok(c) => match validation_failure(c) {
            None => r == Ok::<Config, ConfigError>(c),
            Some(m) => r matches Err(ConfigError::ValidationError(msg)) && msg@ == m,
        },
    }
}

impl Config {
    /// Get thresholds for a given profile
    pub fn thresholds_for(&self, profile: PowerProfile) -> (r: ProfileThresholds)
        ensures
            profile == PowerProfile::Silent ==> r == self.profile_silent,
            profile == PowerProfile::Balanced ==> r.throttle_start == self.throttle_start
                && r.throttle_max == self.throttle_max,
            profile == PowerProfile::Performance ==> r == self.profile_performance,
    {
        match profile {
            PowerProfile::Silent => self.profile_silent,
            PowerProfile::Balanced => ProfileThresholds {
                throttle_start: self.throttle_start,
                throttle_max: self.throttle_max,
            },
            PowerProfile::Performance => self.profile_performance,
        }
    }

    /// Takes the outcome of reading and parsing the configuration file and
    /// checks the parsed values.
    pub fn load(parsed: Result<Config, ConfigError>) -> (r: Result<Config, ConfigError>)
        ensures
            load_outcome(parsed, r),
    {
        let config = match parsed {
            Ok(c) => c,
            Err(e) => {
                return Err(e);
            },
        };
        match config.validate() {
            Ok(()) => Ok(config),
            Err(e) => Err(e),
        }
    }

    /// The loaded configuration, or the default one when loading failed.
    pub fn load_or_default(parsed: Result<Config, ConfigError>) -> (r: Config)
        ensures
            match parsed {
                Ok(c) => if is_valid_config(c) {
                    r == c
                } else {
                    is_default_config(r)
                },
                Err(_) => is_default_config(r),
            },
    {
        match Self::load(parsed) {
            Ok(config) => config,
            Err(_) => Self::default(),
        }
    }

    /// Checks the thresholds and the polling interval.
    pub fn validate(&self) -> (r: Result<(), ConfigError>)
        ensures
            r is Ok <==> is_valid_config(*self),
            r is Err ==> (r matches Err(ConfigError::ValidationError(m)) && validation_failure(
                *self,
            ) == Some(m@)),
    {
        if self.throttle_start >= self.throttle_max {
            return Err(
                ConfigError::ValidationError(
                    String::from_str("throttle_start must be less than throttle_max"),
                ),
            );
        }
        if self.throttle_max > 110 {
            return Err(
                ConfigError::ValidationError(String::from_str("throttle_max should not exceed 110°C")),
            );
        }
        if self.poll_interval_ms < 100 {
            return Err(
                ConfigError::ValidationError(
                    String::from_str("poll_interval_ms should be at least 100ms"),
                ),
            );
        }
        if self.profile_silent.throttle_start >= self.profile_silent.throttle_max {
            return Err(
                ConfigError::ValidationError(
                    String::from_str("profile_silent: throttle_start must be less than throttle_max"),
                ),
            );
        }
        if self.profile_performance.throttle_start >= self.profile_performance.throttle_max {
            return Err(
                ConfigError::ValidationError(
                    String::from_str(
                        "profile_performance: throttle_start must be less than throttle_max",
                    ),
                ),
            );
        }
        Ok(())
    }
}

/// Whitespace around a platform_profile value does not change the profile
/// it names.
pub proof fn lemma_profile_ignores_padding(p: Seq<char>, s: Seq<char>, q: Seq<char>)
    requires
        crate::text::all_ws(p),
        crate::text::all_ws(q),
    ensures
        profile_of(trimmed(p + s + q)) == profile_of(trimmed(s)),
{
    crate::text::lemma_trimmed_ignores_padding(p, s, q);
}

/// A configuration passes validation exactly when its three pairs of
/// thresholds are in order, `throttle_max` is at most 110 and the polling
/// interval is at least 100 ms.
pub proof fn lemma_valid_config_rules(c: Config)
    ensures
        is_valid_config(c) <==> (c.throttle_start < c.throttle_max && c.throttle_max <= 110
            && c.poll_interval_ms >= 100 && c.profile_silent.throttle_start
            < c.profile_silent.throttle_max && c.profile_performance.throttle_start
            < c.profile_performance.throttle_max),
{
}

/// The default configuration passes validation.
pub proof fn lemma_default_config_is_valid(c: Config)
    requires
        is_default_config(c),
    ensures
        is_valid_config(c),
{
}

/// Whatever the file held, the configuration in use passes validation.
pub proof fn lemma_loaded_config_is_valid(parsed: Result<Config, ConfigError>, r: Config)
    requires
        match parsed {
            Ok(c) => if is_valid_config(c) {
                r == c
            } else {
                is_default_config(r)
            },
            Err(_) => is_default_config(r),
        },
    ensures
        is_valid_config(r),
{
}

} // verus!
