use coolctl::config::{Config, ConfigError, PowerProfile, ProfileThresholds, SensorSource};

#[test]
fn test_default_config() {
    let config = Config::default();
    assert_eq!(config.throttle_start, 55);
    assert_eq!(config.throttle_max, 72);
    assert_eq!(config.hysteresis, 2);
}

#[test]
fn test_validation_fails_on_invalid_thresholds() {
    let config = Config {
        throttle_start: 80,
        throttle_max: 70,
        ..Default::default()
    };
    assert!(config.validate().is_err());
}

#[test]
fn test_profile_from_platform_str() {
    assert_eq!(
        PowerProfile::from_platform_str("low-power\n"),
        PowerProfile::Silent
    );
    assert_eq!(
        PowerProfile::from_platform_str("balanced"),
        PowerProfile::Balanced
    );
    assert_eq!(
        PowerProfile::from_platform_str("performance\n"),
        PowerProfile::Performance
    );
    // Unknown defaults to balanced
    assert_eq!(
        PowerProfile::from_platform_str("unknown"),
        PowerProfile::Balanced
    );
}

#[test]
fn default_config_values_and_validity() {
    let config = Config::default();
    assert_eq!(config.poll_interval_ms, 1000);
    assert!(config.sensor.is_none());
    assert_eq!(config.sensor_source, SensorSource::Auto);
    assert!(config.min_freq.is_none());
    assert!(config.max_freq.is_none());
    assert_eq!(config.log_level, "info");
    assert!(config.log_file.is_none());
    assert!(config.enable_profiles);
    assert_eq!(config.profile_silent.throttle_start, 40);
    assert_eq!(config.profile_silent.throttle_max, 50);
    assert_eq!(config.profile_performance.throttle_start, 75);
    assert_eq!(config.profile_performance.throttle_max, 90);
    assert!(config.validate().is_ok());
}

#[test]
fn profile_thresholds_default() {
    let t = ProfileThresholds::default();
    assert_eq!(t.throttle_start, 55);
    assert_eq!(t.throttle_max, 72);
    assert_eq!(PowerProfile::default(), PowerProfile::Balanced);
    assert_eq!(SensorSource::default(), SensorSource::Auto);
}

fn validation_message(config: &Config) -> Option<String> {
    match config.validate() {
        Ok(()) => None,
        Err(ConfigError::ValidationError(m)) => Some(m),
        Err(_) => panic!("validate gave an error other than a validation error"),
    }
}

#[test]
fn validation_messages_for_each_rule() {
    let equal = Config { throttle_start: 70, throttle_max: 70, ..Default::default() };
    assert_eq!(
        validation_message(&equal).as_deref(),
        Some("throttle_start must be less than throttle_max")
    );
    let hot = Config { throttle_start: 60, throttle_max: 111, ..Default::default() };
    assert_eq!(validation_message(&hot).as_deref(), Some("throttle_max should not exceed 110°C"));
    let at_limit = Config { throttle_start: 60, throttle_max: 110, ..Default::default() };
    assert_eq!(validation_message(&at_limit), None);
    let fast = Config { poll_interval_ms: 99, ..Default::default() };
    assert_eq!(
        validation_message(&fast).as_deref(),
        Some("poll_interval_ms should be at least 100ms")
    );
    let fast_ok = Config { poll_interval_ms: 100, ..Default::default() };
    assert_eq!(validation_message(&fast_ok), None);
    let silent = Config {
        profile_silent: ProfileThresholds { throttle_start: 50, throttle_max: 50 },
        ..Default::default()
    };
    assert_eq!(
        validation_message(&silent).as_deref(),
        Some("profile_silent: throttle_start must be less than throttle_max")
    );
    let perf = Config {
        profile_performance: ProfileThresholds { throttle_start: 95, throttle_max: 90 },
        ..Default::default()
    };
    assert_eq!(
        validation_message(&perf).as_deref(),
        Some("profile_performance: throttle_start must be less than throttle_max")
    );
    // the first broken rule is the one reported
    let both = Config { throttle_start: 80, throttle_max: 70, poll_interval_ms: 10, ..Default::default() };
    assert_eq!(
        validation_message(&both).as_deref(),
        Some("throttle_start must be less than throttle_max")
    );
}

#[test]
fn thresholds_for_each_profile() {
    let config = Config { throttle_start: 60, throttle_max: 75, ..Default::default() };
    let s = config.thresholds_for(PowerProfile::Silent);
    assert_eq!((s.throttle_start, s.throttle_max), (40, 50));
    let b = config.thresholds_for(PowerProfile::Balanced);
    assert_eq!((b.throttle_start, b.throttle_max), (60, 75));
    let p = config.thresholds_for(PowerProfile::Performance);
    assert_eq!((p.throttle_start, p.throttle_max), (75, 90));
}

#[test]
fn profile_names() {
    assert_eq!(PowerProfile::Silent.name(), "silent");
    assert_eq!(PowerProfile::Balanced.name(), "balanced");
    assert_eq!(PowerProfile::Performance.name(), "performance");
}

#[test]
fn platform_str_whitespace_and_case() {
    assert_eq!(PowerProfile::from_platform_str("  \tlow-power \r\n"), PowerProfile::Silent);
    assert_eq!(PowerProfile::from_platform_str("\u{a0}performance\u{3000}"), PowerProfile::Performance);
    assert_eq!(PowerProfile::from_platform_str("Low-Power"), PowerProfile::Balanced);
    assert_eq!(PowerProfile::from_platform_str("low-power-x"), PowerProfile::Balanced);
    assert_eq!(PowerProfile::from_platform_str(""), PowerProfile::Balanced);
    assert_eq!(PowerProfile::from_platform_str("low - power"), PowerProfile::Balanced);
}

#[test]
fn load_passes_valid_and_checks_parsed() {
    let good = Config { throttle_start: 60, throttle_max: 75, hysteresis: 3, ..Default::default() };
    let loaded = Config::load(Ok(good)).unwrap();
    assert_eq!((loaded.throttle_start, loaded.throttle_max, loaded.hysteresis), (60, 75, 3));

    let bad = Config { throttle_start: 80, throttle_max: 70, ..Default::default() };
    match Config::load(Ok(bad)) {
        Err(ConfigError::ValidationError(m)) => {
            assert_eq!(m, "throttle_start must be less than throttle_max")
        }
        _ => panic!("an invalid configuration must be refused"),
    }

    let io = std::io::Error::new(std::io::ErrorKind::NotFound, "missing");
    match Config::load(Err(ConfigError::ReadError(io))) {
        Err(ConfigError::ReadError(e)) => assert_eq!(e.kind(), std::io::ErrorKind::NotFound),
        _ => panic!("a read error must be passed on"),
    }
}

#[test]
fn load_or_default_falls_back() {
    let good = Config { throttle_start: 61, throttle_max: 74, ..Default::default() };
    let c = Config::load_or_default(Ok(good));
    assert_eq!((c.throttle_start, c.throttle_max), (61, 74));

    let bad = Config { poll_interval_ms: 5, throttle_start: 61, ..Default::default() };
    let c = Config::load_or_default(Ok(bad));
    assert_eq!((c.throttle_start, c.throttle_max, c.poll_interval_ms), (55, 72, 1000));

    let io = std::io::Error::new(std::io::ErrorKind::PermissionDenied, "denied");
    let c = Config::load_or_default(Err(ConfigError::ReadError(io)));
    assert_eq!((c.throttle_start, c.throttle_max, c.hysteresis), (55, 72, 2));
    assert!(c.validate().is_ok());
}

#[test]
fn config_error_messages() {
    let e = ConfigError::ValidationError("x".to_string());
    assert_eq!(e.kind_message(), "Invalid config: x");
    let e = ConfigError::ReadError(std::io::Error::new(std::io::ErrorKind::Other, "o"));
    assert_eq!(e.kind_message(), "Failed to read config file");
}
