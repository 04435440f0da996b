use coolctl::turbo::{TurboController, TurboError, CPUFREQ_BOOST_PATH, INTEL_NO_TURBO_PATH};

/// What a machine with the cpufreq boost interface and turbo on shows.
fn read_if_exists(path: &str) -> Option<Result<String, std::io::Error>> {
    if path == CPUFREQ_BOOST_PATH {
        Some(Ok("1\n".to_string()))
    } else {
        None
    }
}

#[test]
fn test_turbo_detection() {
    // This test will pass or fail depending on system
    match TurboController::detect(read_if_exists(INTEL_NO_TURBO_PATH), read_if_exists(CPUFREQ_BOOST_PATH)) {
        Ok(ctrl) => {
            println!("Turbo control available at {:?}", ctrl.path());
        }
        Err(TurboError::NotAvailable) => {
            println!("Turbo control not available on this system");
        }
        Err(e) => {
            panic!("Unexpected error: {}", e.kind_message());
        }
    }
}

#[test]
fn intel_interface_uses_inverse_logic() {
    let c = TurboController::detect(Some(Ok("0\n".to_string())), Some(Ok("0".to_string()))).unwrap();
    assert_eq!(c.path(), INTEL_NO_TURBO_PATH);
    assert!(c.original_state());
    assert_eq!(c.set_enabled(true), "0");
    assert_eq!(c.set_enabled(false), "1");
    assert_eq!(c.restore(), "0");
}

#[test]
fn boost_interface_uses_direct_logic() {
    let c = TurboController::detect(None, Some(Ok("0\n".to_string()))).unwrap();
    assert_eq!(c.path(), CPUFREQ_BOOST_PATH);
    assert!(!c.original_state());
    assert_eq!(c.set_enabled(true), "1");
    assert_eq!(c.set_enabled(false), "0");
    assert_eq!(c.restore(), "0");
}

#[test]
fn turbo_read_errors() {
    assert!(matches!(TurboController::detect(None, None), Err(TurboError::NotAvailable)));
    assert!(matches!(
        TurboController::detect(Some(Ok("on".to_string())), None),
        Err(TurboError::ReadError(_))
    ));
    assert!(matches!(
        TurboController::detect(Some(Ok("256".to_string())), None),
        Err(TurboError::ReadError(_))
    ));
    let e = std::io::Error::new(std::io::ErrorKind::PermissionDenied, "denied");
    assert!(matches!(TurboController::detect(None, Some(Err(e))), Err(TurboError::ReadError(_))));
}

#[test]
fn states_read_back_as_written() {
    for inverse in [false, true] {
        for enabled in [false, true] {
            let path_text = if inverse { "1" } else { "0" };
            let detected = if inverse {
                TurboController::detect(Some(Ok(path_text.to_string())), None)
            } else {
                TurboController::detect(None, Some(Ok(path_text.to_string())))
            }
            .unwrap();
            let written = detected.set_enabled(enabled);
            assert_eq!(
                TurboController::read_state(Ok(written.to_string()), inverse).unwrap(),
                enabled
            );
        }
    }
    // a value other than 1 reads as "not 1"
    assert!(!TurboController::read_state(Ok("2".to_string()), false).unwrap());
    assert!(TurboController::read_state(Ok("2".to_string()), true).unwrap());
}

#[test]
fn turbo_error_messages() {
    assert_eq!(TurboError::NotAvailable.kind_message(), "Turbo boost control not available");
}
