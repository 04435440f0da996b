//! The daemon's decisions between its reads and writes: which thresholds
//! apply, when turbo is on, what frequency to write for a reading, and what
//! to restore on shutdown.
use vstd::prelude::*;
use crate::config::{Config, ConfigError, PowerProfile, is_valid_config, is_default_config};
use crate::cpufreq::{CpuFreq, plan_defined, planned_write};
use crate::profile::{ProfileWatcher, poll_step, text_of};
use crate::thermal::{ThermalSensor, ThermalError, HwmonDevice, ThermalZone};
use crate::throttle::{
    Throttle, ThrottleState, calculation_defined, crosses_threshold, curve, within_hysteresis,
};
use crate::turbo::{TurboController, state_text};

verus! {

/// Whether turbo boost is wanted in a profile: off in the silent profile only.
pub open spec fn turbo_wanted(profile: PowerProfile) -> bool {
    profile != PowerProfile::Silent
}

/// The throttle's state once a profile's thresholds apply.
pub open spec fn with_profile(s: ThrottleState, config: Config, profile: PowerProfile) -> ThrottleState {
    let (start, max) = match profile {
        PowerProfile::Silent => (config.profile_silent.throttle_start, config.profile_silent.throttle_max),
        PowerProfile::Balanced => (config.throttle_start, config.throttle_max),
        PowerProfile::Performance => (
            config.profile_performance.throttle_start,
            config.profile_performance.throttle_max,
        ),
    };
    ThrottleState { throttle_start: start, throttle_max: max, last_trigger_temp: None, ..s }
}

/// The readings on which `handle_temperature` runs without a panic: the
/// throttle can take the reading and, when it yields a frequency, the
/// controller can take that frequency.
pub open spec fn temperature_defined(t: ThrottleState, c: crate::cpufreq::CpuFreqState, temp: u32) -> bool {
    &&& calculation_defined(t, temp)
    &&& !within_hysteresis(t, temp) ==> plan_defined(c, curve(t, temp) as u64)
}

/// Apply turbo boost state based on profile (disabled in silent mode): the
/// text to write to the turbo file, when there is a turbo controller.
pub fn apply_turbo_for_profile(turbo: Option<&TurboController>, profile: PowerProfile) -> (r: Option<
    &'static str,
>)
    ensures
        match turbo {
            None => r is None,
            Some(t) => r matches Some(text) && text@ == state_text(turbo_wanted(profile), t@.inverse),
        },
{
    match turbo {
        None => None,
        Some(t) => {
            let should_enable = profile != PowerProfile::Silent;
            Some(t.set_enabled(should_enable))
        },
    }
}

/// Whether the daemon follows the platform profile: the configuration asks
/// for it and the interface is there.
pub fn profiles_enabled(config: &Config, watcher: &ProfileWatcher) -> (r: bool)
    ensures
        r == (config.enable_profiles && watcher@.available),
{
    config.enable_profiles && watcher.is_available()
}

/// The sensor the configuration asks for: its explicit path (given whether
/// that path exists), else the one detected from the listings.
pub fn detect_sensor(
    config: &Config,
    explicit_exists: bool,
    hwmon: Option<Result<Vec<Result<HwmonDevice, std::io::Error>>, std::io::Error>>,
    thermal: Option<Result<Vec<Result<ThermalZone, std::io::Error>>, std::io::Error>>,
) -> (r: Result<ThermalSensor, ThermalError>)
    ensures
        match config.sensor {
            Some(path) => if explicit_exists {
                r matches Ok(s) && s@ == path@
            } else {
                r matches Err(ThermalError::NoSensorFound)
            },
            None => crate::thermal::detect_outcome(config.sensor_source, hwmon, thermal, r),
        },
{
    match &config.sensor {
        Some(path) => ThermalSensor::from_path(path.as_str(), explicit_exists),
        None => ThermalSensor::detect(config.sensor_source, hwmon, thermal),
    }
}

/// Applies the current profile's thresholds at startup; gives the profile
/// when profiles are followed.
pub fn apply_current_profile(
    config: &Config,
    profiles_enabled: bool,
    watcher: &ProfileWatcher,
    throttle: &mut Throttle,
) -> (r: Option<PowerProfile>)
    ensures
        !profiles_enabled ==> r is None && final(throttle)@ == old(throttle)@,
        profiles_enabled ==> r == Some(watcher@.current) && final(throttle)@ == with_profile(
            old(throttle)@,
            *config,
            watcher@.current,
        ),
{
    if !profiles_enabled {
        return None;
    }
    let current_profile = watcher.current();
    let thresholds = config.thresholds_for(current_profile);
    throttle.update_thresholds(thresholds);
    Some(current_profile)
}

/// Reloads the configuration from the outcome of reading and parsing the
/// file, and rebuilds the throttle from it.
pub fn reload_config(
    config: &mut Config,
    parsed: Result<Config, ConfigError>,
    throttle: &mut Throttle,
    cpufreq: &CpuFreq,
    profiles_enabled: bool,
    watcher: &ProfileWatcher,
)
    ensures
        is_valid_config(*final(config)),
        match parsed {
            Ok(c) => if is_valid_config(c) {
                *final(config) == c
            } else {
                is_default_config(*final(config))
            },
            Err(_) => is_default_config(*final(config)),
        },
        ({
            let fresh = ThrottleState {
                throttle_start: final(config).throttle_start,
                throttle_max: final(config).throttle_max,
                min_freq: match final(config).min_freq {
                    Some(f) => f,
                    None => cpufreq@.min_freq,
                },
                max_freq: match final(config).max_freq {
                    Some(f) => f,
                    None => cpufreq@.max_freq,
                },
                hysteresis: final(config).hysteresis,
                last_trigger_temp: None,
            };
            final(throttle)@ == if profiles_enabled {
                with_profile(fresh, *final(config), watcher@.current)
            } else {
                fresh
            }
        }),
{
    *config = Config::load_or_default(parsed);
    *throttle = Throttle::new(config, cpufreq.min_freq(), cpufreq.max_freq());
    if profiles_enabled {
        let thresholds = config.thresholds_for(watcher.current());
        throttle.update_thresholds(thresholds);
    }
}

/// Follows a change of the platform profile, given a fresh read of its file:
/// the new profile's thresholds apply, and the new profile is given back.
pub fn handle_profile_change(
    profiles_enabled: bool,
    watcher: &mut ProfileWatcher,
    config: &Config,
    throttle: &mut Throttle,
    content: Option<&str>,
) -> (r: Option<PowerProfile>)
    ensures
        !profiles_enabled ==> r is None && final(watcher)@ == old(watcher)@ && final(throttle)@ == old(
            throttle,
        )@,
        profiles_enabled ==> {
            let (w, change) = poll_step(old(watcher)@, text_of(content));
            &&& final(watcher)@ == w
            &&& r == change
            &&& match change {
                Some(p) => final(throttle)@ == with_profile(old(throttle)@, *config, p),
                None => final(throttle)@ == old(throttle)@,
            }
        },
{
    if !profiles_enabled {
        return None;
    }
    let new_profile = match watcher.poll(content) {
        Some(p) => p,
        None => {
            return None;
        },
    };
    let thresholds = config.thresholds_for(new_profile);
    throttle.update_thresholds(thresholds);
    Some(new_profile)
}

/// Whether `handle_temperature` can take this reading.
pub fn can_handle_temperature(throttle: &Throttle, cpufreq: &CpuFreq, temp: u32) -> (r: bool)
    ensures
        r == temperature_defined(throttle@, cpufreq@, temp),
{
    if !throttle.can_calculate(temp) {
        return false;
    }
    if throttle.within_hysteresis(temp) {
        return true;
    }
    cpufreq.can_set_max_freq(throttle.target_freq(temp))
}

/// What to do about a temperature reading.
pub enum TemperatureAction {
    /// The reading is within the hysteresis of the last trigger.
    WithinHysteresis,
    /// The curve gives `target`, but the change is too small to write.
    Unchanged { target: u64 },
    /// The curve gives `target`; write `freq` (the clamped target) to every CPU.
    Write { target: u64, freq: u64 },
}

/// Turns a temperature reading into what to write to the CPUs: nothing
/// within the hysteresis, nothing when the change is 5% or less and no
/// threshold was crossed since the last trigger, else the clamped target
/// frequency.
pub fn handle_temperature(temp: u32, throttle: &mut Throttle, cpufreq: &CpuFreq) -> (r: TemperatureAction)
    requires
        temperature_defined(old(throttle)@, cpufreq@, temp),
    ensures
        within_hysteresis(old(throttle)@, temp) ==> r is WithinHysteresis && final(throttle)@ == old(
            throttle,
        )@,
        !within_hysteresis(old(throttle)@, temp) ==> {
            let target = curve(old(throttle)@, temp) as u64;
            &&& final(throttle)@ == (ThrottleState { last_trigger_temp: Some(temp), ..old(throttle)@ })
            &&& match planned_write(cpufreq@, target, crosses_threshold(old(throttle)@, temp)) {
                Some(f) => r == (TemperatureAction::Write { target, freq: f }),
                None => r == (TemperatureAction::Unchanged { target }),
            }
        },
{
    let crossed = throttle.crossed_threshold(temp);
    let target_freq = match throttle.calculate(temp) {
        Some(f) => f,
        None => {
            return TemperatureAction::WithinHysteresis;
        },
    };
    match cpufreq.set_max_freq(target_freq, crossed) {
        Some(freq) => TemperatureAction::Write { target: target_freq, freq },
        None => TemperatureAction::Unchanged { target: target_freq },
    }
}

/// What shutdown writes: the hardware maximum frequency, written whatever was
/// written before, and the turbo state found at startup.
pub fn restore_settings(cpufreq: &mut CpuFreq, turbo: Option<&TurboController>) -> (r: (
    u64,
    Option<&'static str>,
))
    ensures
        r.0 == old(cpufreq)@.max_freq,
        final(cpufreq)@.last_written is None,
        final(cpufreq)@.min_freq == old(cpufreq)@.min_freq,
        final(cpufreq)@.max_freq == old(cpufreq)@.max_freq,
        final(cpufreq)@.cpu_paths == old(cpufreq)@.cpu_paths,
        match turbo {
            None => r.1 is None,
            Some(t) => r.1 matches Some(text) && text@ == state_text(t@.original_state, t@.inverse),
        },
{
    let max = cpufreq.restore_max();
    let turbo_text = match turbo {
        None => None,
        Some(t) => Some(t.restore()),
    };
    (max, turbo_text)
}

/// With the frequency limits in order, every frequency the daemon writes for
/// a reading lies within the hardware range.
pub proof fn lemma_written_frequency_in_range(
    t: ThrottleState,
    c: crate::cpufreq::CpuFreqState,
    temp: u32,
)
    requires
        c.min_freq <= c.max_freq,
    ensures
        planned_write(c, curve(t, temp) as u64, crosses_threshold(t, temp)) matches Some(f)
            ==> c.min_freq <= f <= c.max_freq,
{
}

/// A reading past the hysteresis that crosses a threshold is always written,
/// however small the change.
pub proof fn lemma_crossing_is_written(t: ThrottleState, c: crate::cpufreq::CpuFreqState, temp: u32)
    requires
        !within_hysteresis(t, temp),
        crosses_threshold(t, temp),
    ensures
        planned_write(c, curve(t, temp) as u64, crosses_threshold(t, temp)) is Some,
{
}

/// The thresholds a profile brings come from the configuration alone, for
/// every profile: the balanced profile's are the configuration's own
/// `throttle_start`/`throttle_max`, the silent and performance profiles'
/// are their tables. Nothing of the thresholds in force before survives,
/// while the frequency limits and the hysteresis stay.
pub proof fn lemma_profile_thresholds_from_config(
    s1: ThrottleState,
    s2: ThrottleState,
    config: Config,
    profile: PowerProfile,
)
    ensures
        with_profile(s1, config, profile).throttle_start == with_profile(s2, config, profile).throttle_start,
        with_profile(s1, config, profile).throttle_max == with_profile(s2, config, profile).throttle_max,
        profile == PowerProfile::Balanced ==> with_profile(s1, config, profile).throttle_start
            == config.throttle_start && with_profile(s1, config, profile).throttle_max
            == config.throttle_max,
        profile == PowerProfile::Silent ==> with_profile(s1, config, profile).throttle_start
            == config.profile_silent.throttle_start && with_profile(s1, config, profile).throttle_max
            == config.profile_silent.throttle_max,
        profile == PowerProfile::Performance ==> with_profile(s1, config, profile).throttle_start
            == config.profile_performance.throttle_start && with_profile(
            s1,
            config,
            profile,
        ).throttle_max == config.profile_performance.throttle_max,
        with_profile(s1, config, profile).min_freq == s1.min_freq,
        with_profile(s1, config, profile).max_freq == s1.max_freq,
        with_profile(s1, config, profile).hysteresis == s1.hysteresis,
        with_profile(s1, config, profile).last_trigger_temp is None,
{
}

/// Switching through one profile to another ends as switching straight to
/// the second: the first profile leaves nothing behind.
pub proof fn lemma_profile_switches_compose(
    s: ThrottleState,
    config: Config,
    first: PowerProfile,
    second: PowerProfile,
)
    ensures
        with_profile(with_profile(s, config, first), config, second) == with_profile(
            s,
            config,
            second,
        ),
{
}

/// After a profile change, the next reading always gives a frequency: the
/// hysteresis starts afresh.
pub proof fn lemma_profile_change_resets_hysteresis(
    s: ThrottleState,
    config: Config,
    profile: PowerProfile,
    temp: u32,
)
    ensures
        !within_hysteresis(with_profile(s, config, profile), temp),
{
}

} // verus!
