//! Thermal throttling of CPU frequency: configuration, sensor and cpufreq
//! selection, the throttle curve with hysteresis, and the daemon's decisions.
pub mod config;
pub mod cpufreq;
pub mod daemon;
pub mod foreign;
pub mod order;
pub mod profile;
pub mod text;
pub mod thermal;
pub mod throttle;
pub mod turbo;
