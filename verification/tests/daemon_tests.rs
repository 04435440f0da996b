use coolctl::config::{Config, ConfigError, PowerProfile};
use coolctl::cpufreq::{CpuFreq, CpuInfo};
use coolctl::daemon::{
    apply_current_profile, apply_turbo_for_profile, can_handle_temperature, detect_sensor,
    handle_profile_change, handle_temperature, profiles_enabled, reload_config, restore_settings,
    TemperatureAction,
};
use coolctl::profile::ProfileWatcher;
use coolctl::thermal::{HwmonDevice, ThermalError};
use coolctl::throttle::Throttle;
use coolctl::turbo::TurboController;

fn cpus() -> CpuFreq {
    CpuFreq::from_cpus(vec![
        CpuInfo { scaling_max: "/c0".to_string(), min_freq: 400_000, max_freq: 5_000_000 },
        CpuInfo { scaling_max: "/c1".to_string(), min_freq: 400_000, max_freq: 5_000_000 },
    ])
    .unwrap()
}

#[test]
fn profile_watcher_polls() {
    let mut w = ProfileWatcher::new(Some("balanced\n"));
    assert!(w.is_available());
    assert_eq!(w.current(), PowerProfile::Balanced);
    assert_eq!(w.poll(Some("balanced\n")), None);
    assert_eq!(w.poll(Some("low-power\n")), Some(PowerProfile::Silent));
    assert_eq!(w.current(), PowerProfile::Silent);
    assert_eq!(w.poll(Some("low-power\n")), None);
    // an unreadable file reads as the balanced profile
    assert_eq!(w.poll(None), Some(PowerProfile::Balanced));

    let mut off = ProfileWatcher::new(None);
    assert!(!off.is_available());
    assert_eq!(off.current(), PowerProfile::Balanced);
    assert_eq!(off.poll(Some("performance")), None);
    assert_eq!(off.current(), PowerProfile::Balanced);
}

#[test]
fn turbo_off_only_when_silent() {
    let boost = TurboController::detect(None, Some(Ok("1".to_string()))).unwrap();
    assert_eq!(apply_turbo_for_profile(Some(&boost), PowerProfile::Silent), Some("0"));
    assert_eq!(apply_turbo_for_profile(Some(&boost), PowerProfile::Balanced), Some("1"));
    assert_eq!(apply_turbo_for_profile(Some(&boost), PowerProfile::Performance), Some("1"));
    let intel = TurboController::detect(Some(Ok("0".to_string())), None).unwrap();
    assert_eq!(apply_turbo_for_profile(Some(&intel), PowerProfile::Silent), Some("1"));
    assert_eq!(apply_turbo_for_profile(None, PowerProfile::Silent), None);
}

#[test]
fn profiles_follow_config_and_interface() {
    let on = Config::default();
    let off = Config { enable_profiles: false, ..Default::default() };
    let there = ProfileWatcher::new(Some("performance"));
    let absent = ProfileWatcher::new(None);
    assert!(profiles_enabled(&on, &there));
    assert!(!profiles_enabled(&on, &absent));
    assert!(!profiles_enabled(&off, &there));
}

#[test]
fn startup_profile_sets_thresholds() {
    let config = Config::default();
    let c = cpus();
    let watcher = ProfileWatcher::new(Some("low-power"));
    let mut throttle = Throttle::new(&config, c.min_freq(), c.max_freq());
    assert_eq!(apply_current_profile(&config, true, &watcher, &mut throttle), Some(PowerProfile::Silent));
    // silent thresholds are 40..50: 50 degrees is already minimum speed
    assert_eq!(throttle.calculate(50), Some(400_000));

    let mut plain = Throttle::new(&config, c.min_freq(), c.max_freq());
    assert_eq!(apply_current_profile(&config, false, &watcher, &mut plain), None);
    assert_eq!(plain.calculate(50), Some(5_000_000));
}

#[test]
fn profile_change_applies_new_thresholds() {
    let config = Config::default();
    let c = cpus();
    let mut watcher = ProfileWatcher::new(Some("balanced"));
    let mut throttle = Throttle::new(&config, c.min_freq(), c.max_freq());
    assert_eq!(throttle.calculate(80), Some(400_000));
    let change = handle_profile_change(true, &mut watcher, &config, &mut throttle, Some("performance\n"));
    assert_eq!(change, Some(PowerProfile::Performance));
    // performance thresholds are 75..90, and the hysteresis starts afresh
    assert_eq!(throttle.calculate(80), Some(5_000_000 - 4_600_000 * 5 / 15));
    assert_eq!(
        handle_profile_change(true, &mut watcher, &config, &mut throttle, Some("performance")),
        None
    );
    assert_eq!(handle_profile_change(false, &mut watcher, &config, &mut throttle, Some("low-power")), None);
    assert_eq!(watcher.current(), PowerProfile::Performance);
}

#[test]
fn temperature_decisions() {
    let config = Config::default();
    let mut c = cpus();
    let mut throttle = Throttle::new(&config, c.min_freq(), c.max_freq());
    assert!(can_handle_temperature(&throttle, &c, 50));
    match handle_temperature(50, &mut throttle, &c) {
        TemperatureAction::Write { target, freq } => {
            assert_eq!((target, freq), (5_000_000, 5_000_000));
            c.record_written(freq);
        }
        _ => panic!("the first reading must be written"),
    }
    assert!(matches!(handle_temperature(51, &mut throttle, &c), TemperatureAction::WithinHysteresis));
    // 52 degrees: still below the ramp, the frequency last written
    match handle_temperature(52, &mut throttle, &c) {
        TemperatureAction::Unchanged { target } => assert_eq!(target, 5_000_000),
        _ => panic!("a small change must not be written"),
    }
    // 56 degrees: onto the ramp; 5_000_000 - 4_600_000 / 17 = 4_729_412 is
    // within 5% of the last write, but a threshold was crossed
    match handle_temperature(56, &mut throttle, &c) {
        TemperatureAction::Write { target, freq } => {
            assert_eq!((target, freq), (4_729_412, 4_729_412));
            c.record_written(freq);
        }
        _ => panic!("crossing a threshold must be written"),
    }
    // 58 degrees: on the ramp, 4_188_236, a change of 541_176 > 250_000
    match handle_temperature(58, &mut throttle, &c) {
        TemperatureAction::Write { target, .. } => assert_eq!(target, 4_188_236),
        _ => panic!("a change of more than 5% must be written"),
    }
    match handle_temperature(72, &mut throttle, &c) {
        TemperatureAction::Write { target, freq } => assert_eq!((target, freq), (400_000, 400_000)),
        _ => panic!("a large change must be written"),
    }
}

#[test]
fn configured_limits_are_clamped_to_hardware() {
    let config = Config { max_freq: Some(9_000_000), ..Default::default() };
    let c = cpus();
    let mut throttle = Throttle::new(&config, c.min_freq(), c.max_freq());
    match handle_temperature(30, &mut throttle, &c) {
        TemperatureAction::Write { target, freq } => assert_eq!((target, freq), (9_000_000, 5_000_000)),
        _ => panic!("the first reading must be written"),
    }
}

#[test]
fn reload_rebuilds_throttle() {
    let mut config = Config::default();
    let c = cpus();
    let watcher = ProfileWatcher::new(Some("low-power"));
    let mut throttle = Throttle::new(&config, c.min_freq(), c.max_freq());
    let new = Config { throttle_start: 60, throttle_max: 70, ..Default::default() };
    reload_config(&mut config, Ok(new), &mut throttle, &c, false, &watcher);
    assert_eq!((config.throttle_start, config.throttle_max), (60, 70));
    assert_eq!(throttle.calculate(70), Some(400_000));

    reload_config(&mut config, Ok(Config::default()), &mut throttle, &c, true, &watcher);
    // with profiles followed, the silent thresholds apply
    assert_eq!(throttle.calculate(50), Some(400_000));

    let bad = Config { throttle_start: 90, throttle_max: 80, ..Default::default() };
    reload_config(&mut config, Ok(bad), &mut throttle, &c, false, &watcher);
    assert_eq!((config.throttle_start, config.throttle_max), (55, 72));

    let e = std::io::Error::new(std::io::ErrorKind::NotFound, "gone");
    reload_config(&mut config, Err(ConfigError::ReadError(e)), &mut throttle, &c, false, &watcher);
    assert_eq!(config.hysteresis, 2);
}

#[test]
fn sensor_from_config() {
    let explicit = Config { sensor: Some("/s/temp".to_string()), ..Default::default() };
    assert_eq!(detect_sensor(&explicit, true, None, None).unwrap().path(), "/s/temp");
    assert!(matches!(detect_sensor(&explicit, false, None, None), Err(ThermalError::NoSensorFound)));
    let auto = Config::default();
    let hw = Some(Ok(vec![Ok(HwmonDevice {
        name: Some("coretemp\n".to_string()),
        temp_input: Some("/h/temp1_input".to_string()),
    })]));
    assert_eq!(detect_sensor(&auto, false, hw, None).unwrap().path(), "/h/temp1_input");
}

#[test]
fn shutdown_restores() {
    let mut c = cpus();
    c.record_written(1_000_000);
    let boost = TurboController::detect(None, Some(Ok("1".to_string()))).unwrap();
    let (max, turbo_text) = restore_settings(&mut c, Some(&boost));
    assert_eq!(max, 5_000_000);
    assert_eq!(turbo_text, Some("1"));
    assert_eq!(c.set_max_freq(max, false), Some(5_000_000));
    let (_, none) = restore_settings(&mut c, None);
    assert_eq!(none, None);
}
