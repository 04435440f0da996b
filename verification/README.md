# coolctl

A Linux daemon that caps CPU frequency by temperature so that the fans stay
quiet. Below `throttle_start` the CPUs run at full speed, at and above
`throttle_max` at their minimum, and in between the cap falls linearly; a
hysteresis keeps small temperature swings from changing the cap. The
platform profile (`low-power`, `balanced`, `performance`) selects the
thresholds, and turbo boost is switched off in the silent profile.

## Layout

- `src/` is the library, verified with Verus. The daemon's decisions stand
  there with their contracts:
  - `config.rs`: configuration, defaults, profile thresholds, validation;
  - `throttle.rs`: the throttle curve and its hysteresis;
  - `cpufreq.rs`: CPU discovery results, frequency limits, the write filter;
  - `thermal.rs`: choosing a hwmon device or thermal zone, reading a temperature;
  - `turbo.rs`: the turbo boost interfaces and the values they take;
  - `profile.rs`: following the platform profile;
  - `daemon.rs`: the steps of the main loop between its reads and writes;
  - `text.rs`, `order.rs`: trimming, comparing, parsing and sorting text;
  - `foreign.rs`: the outside error types the library carries.
- `app/` is the program: signals, logging, reading and writing sysfs and the
  configuration file, and the main loop.
- `tests/` runs the library on fixed inputs.
