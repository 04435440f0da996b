use coolctl::config::SensorSource;
use coolctl::thermal::{HwmonDevice, ThermalError, ThermalSensor, ThermalZone};

type Listing<T> = Option<Result<Vec<Result<T, std::io::Error>>, std::io::Error>>;

/// What /sys/class/hwmon shows on an AMD laptop.
fn hwmon_listing() -> Listing<HwmonDevice> {
    Some(Ok(vec![
        Ok(HwmonDevice { name: Some("ACAD\n".to_string()), temp_input: None }),
        Ok(HwmonDevice {
            name: Some("nvme\n".to_string()),
            temp_input: Some("/sys/class/hwmon/hwmon1/temp1_input".to_string()),
        }),
        Ok(HwmonDevice {
            name: Some("k10temp\n".to_string()),
            temp_input: Some("/sys/class/hwmon/hwmon3/temp1_input".to_string()),
        }),
    ]))
}

/// What /sys/class/thermal shows on the same machine.
fn thermal_listing() -> Listing<ThermalZone> {
    Some(Ok(vec![Ok(ThermalZone {
        dir_name: "thermal_zone0".to_string(),
        zone_type: Some("acpitz\n".to_string()),
        temp: Some("/sys/class/thermal/thermal_zone0/temp".to_string()),
    })]))
}

/// The content of a sensor file on that machine.
fn read_sensor(path: &str) -> Result<String, std::io::Error> {
    if path == "/sys/class/hwmon/hwmon3/temp1_input" {
        Ok("48625\n".to_string())
    } else {
        Err(std::io::Error::new(std::io::ErrorKind::NotFound, "no such sensor"))
    }
}

#[test]
fn test_sensor_detection() {
    // This test will only pass on systems with temperature sensors
    if let Ok(sensor) = ThermalSensor::detect(SensorSource::Auto, hwmon_listing(), thermal_listing()) {
        let temp = ThermalSensor::read_temp(read_sensor(sensor.path()));
        assert!(temp.is_ok());
        let temp = temp.unwrap();
        // Sanity check: temp should be between 0 and 120
        assert!(temp < 120, "Temperature {} seems too high", temp);
    }
}

fn dev(name: Option<&str>, temp: Option<&str>) -> Result<HwmonDevice, std::io::Error> {
    Ok(HwmonDevice { name: name.map(|s| s.to_string()), temp_input: temp.map(|s| s.to_string()) })
}

fn zone(dir: &str, ty: Option<&str>, temp: Option<&str>) -> Result<ThermalZone, std::io::Error> {
    Ok(ThermalZone {
        dir_name: dir.to_string(),
        zone_type: ty.map(|s| s.to_string()),
        temp: temp.map(|s| s.to_string()),
    })
}

fn io_err() -> std::io::Error {
    std::io::Error::new(std::io::ErrorKind::PermissionDenied, "denied")
}

#[test]
fn hwmon_prefers_known_drivers() {
    let es = vec![
        dev(Some("nvme\n"), Some("/h0/temp1_input")),
        dev(Some("coretemp\n"), Some("/h1/temp1_input")),
        dev(Some("k10temp\n"), None),
        dev(Some("k10temp\n"), Some("/h3/temp1_input")),
    ];
    let s = ThermalSensor::detect_hwmon(Some(Ok(es))).unwrap();
    assert_eq!(s.path(), "/h3/temp1_input");

    let es = vec![dev(Some("zenpower"), Some("/z")), dev(Some("coretemp"), Some("/c"))];
    assert_eq!(ThermalSensor::detect_hwmon(Some(Ok(es))).unwrap().path(), "/c");

    let es = vec![dev(Some("acpitz"), None), dev(None, Some("/any")), dev(Some("zenpower"), Some("/z"))];
    assert_eq!(ThermalSensor::detect_hwmon(Some(Ok(es))).unwrap().path(), "/z");
}

#[test]
fn hwmon_fallback_and_errors() {
    let es = vec![dev(Some("acpitz"), None), dev(Some("nvme"), Some("/n"))];
    assert_eq!(ThermalSensor::detect_hwmon(Some(Ok(es))).unwrap().path(), "/n");

    // an unreadable entry before any usable one stops the fallback scan
    let es = vec![dev(Some("acpitz"), None), Err(io_err()), dev(Some("nvme"), Some("/n"))];
    assert!(matches!(ThermalSensor::detect_hwmon(Some(Ok(es))), Err(ThermalError::ReadError(_))));

    // but it does not hide a preferred driver
    let es = vec![Err(io_err()), dev(Some("k10temp"), Some("/k"))];
    assert_eq!(ThermalSensor::detect_hwmon(Some(Ok(es))).unwrap().path(), "/k");

    let es = vec![dev(Some("acpitz"), None)];
    assert!(matches!(ThermalSensor::detect_hwmon(Some(Ok(es))), Err(ThermalError::NoSensorFound)));
    assert!(matches!(ThermalSensor::detect_hwmon(None), Err(ThermalError::NoSensorFound)));
    assert!(matches!(ThermalSensor::detect_hwmon(Some(Err(io_err()))), Err(ThermalError::ReadError(_))));
}

#[test]
fn thermal_zone_preference() {
    let zs = vec![
        zone("thermal_zone0", Some("acpitz\n"), Some("/t0")),
        zone("thermal_zone1", Some("iwlwifi_1\n"), Some("/t1")),
        zone("thermal_zone2", Some("k10temp\n"), Some("/t2")),
        zone("thermal_zone3", Some("CPU-therm\n"), Some("/t3")),
        zone("thermal_zone4", Some("cpu\n"), Some("/t4")),
        zone("cooling_device0", Some("x86_pkg_temp"), Some("/c0")),
    ];
    // "CPU-therm" is lowercased before it is compared, and the first of the
    // best rank wins
    assert_eq!(ThermalSensor::detect_thermal_zone(Some(Ok(zs))).unwrap().path(), "/t3");

    let zs = vec![
        zone("thermal_zone0", Some("cpu"), Some("/t0")),
        zone("thermal_zone1", Some("x86_pkg_temp"), Some("/t1")),
        zone("thermal_zone2", Some("x86_pkg_temp"), None),
    ];
    assert_eq!(ThermalSensor::detect_thermal_zone(Some(Ok(zs))).unwrap().path(), "/t1");
}

#[test]
fn x86_pkg_types_rank_by_the_full_name() {
    // "x86_pkg_cpu" names "cpu", so it ranks after "x86_pkg_temp"
    let zs = vec![
        zone("thermal_zone0", Some("x86_pkg_cpu"), Some("/t0")),
        zone("thermal_zone1", Some("x86_pkg_temp"), Some("/t1")),
    ];
    assert_eq!(ThermalSensor::detect_thermal_zone(Some(Ok(zs))).unwrap().path(), "/t1");
    // a type that names only "x86_pkg" is eligible, but last
    let zs = vec![
        zone("thermal_zone0", Some("x86_pkg_other"), Some("/t0")),
        zone("thermal_zone1", Some("k10temp"), Some("/t1")),
    ];
    assert_eq!(ThermalSensor::detect_thermal_zone(Some(Ok(zs))).unwrap().path(), "/t1");
    let zs = vec![zone("thermal_zone0", Some("x86_pkg_other"), Some("/t0"))];
    assert_eq!(ThermalSensor::detect_thermal_zone(Some(Ok(zs))).unwrap().path(), "/t0");
}

#[test]
fn thermal_zone_exclusions_and_errors() {
    let zs = vec![
        zone("thermal_zone0", Some("acpitz"), Some("/t0")),
        zone("thermal_zone1", Some("pch_cpu"), Some("/t1")),
        zone("thermal_zone2", Some("INT3400 Thermal"), Some("/t2")),
        zone("thermal_zone3", None, Some("/t3")),
        zone("thermal_zone4", Some("soc_dts0"), Some("/t4")),
    ];
    assert!(matches!(
        ThermalSensor::detect_thermal_zone(Some(Ok(zs))),
        Err(ThermalError::NoSensorFound)
    ));

    let zs = vec![zone("thermal_zone0", Some("cpu"), Some("/t0")), Err(io_err())];
    assert!(matches!(
        ThermalSensor::detect_thermal_zone(Some(Ok(zs))),
        Err(ThermalError::ReadError(_))
    ));
    assert!(matches!(ThermalSensor::detect_thermal_zone(None), Err(ThermalError::NoSensorFound)));
}

#[test]
fn detect_by_source() {
    let hw = || Some(Ok(vec![dev(Some("k10temp"), Some("/k"))]));
    let th = || Some(Ok(vec![zone("thermal_zone0", Some("cpu"), Some("/t"))]));
    assert_eq!(ThermalSensor::detect(SensorSource::Auto, hw(), th()).unwrap().path(), "/k");
    assert_eq!(ThermalSensor::detect(SensorSource::Hwmon, hw(), th()).unwrap().path(), "/k");
    assert_eq!(ThermalSensor::detect(SensorSource::Thermal, hw(), th()).unwrap().path(), "/t");
    // auto falls back to the thermal zones when hwmon finds nothing
    assert_eq!(ThermalSensor::detect(SensorSource::Auto, None, th()).unwrap().path(), "/t");
    assert!(ThermalSensor::detect(SensorSource::Hwmon, None, th()).is_err());
}

#[test]
fn explicit_path() {
    let s = ThermalSensor::from_path("/sys/class/hwmon/hwmon3/temp1_input", true).unwrap();
    assert_eq!(s.path(), "/sys/class/hwmon/hwmon3/temp1_input");
    assert!(matches!(ThermalSensor::from_path("/nope", false), Err(ThermalError::NoSensorFound)));
}

#[test]
fn temperature_readings() {
    assert_eq!(ThermalSensor::read_temp(Ok("45000\n".to_string())).unwrap(), 45);
    assert_eq!(ThermalSensor::read_temp(Ok("45999".to_string())).unwrap(), 45);
    assert_eq!(ThermalSensor::read_temp(Ok("999".to_string())).unwrap(), 0);
    // negative readings round toward zero, then wrap as `as u32` does
    assert_eq!(ThermalSensor::read_temp(Ok("-999".to_string())).unwrap(), 0);
    assert_eq!(ThermalSensor::read_temp(Ok("-1000".to_string())).unwrap(), u32::MAX);
    assert_eq!(ThermalSensor::read_temp(Ok("-5500".to_string())).unwrap(), u32::MAX - 4);
    assert!(matches!(ThermalSensor::read_temp(Ok("hot".to_string())), Err(ThermalError::ParseError)));
    assert!(matches!(ThermalSensor::read_temp(Err(io_err())), Err(ThermalError::ReadError(_))));
}

#[test]
fn thermal_error_messages() {
    assert_eq!(ThermalError::NoSensorFound.kind_message(), "No suitable temperature sensor found");
    assert_eq!(ThermalError::ParseError.kind_message(), "Failed to parse temperature value");
}
