use stoffel::validate::{MpcProtocol, ValidationError, calculate_threshold, validate_mpc_params};

#[test]
fn threshold_formula_small_counts() {
    assert_eq!(calculate_threshold(5, &MpcProtocol::Honeybadger), 1);
    assert_eq!(calculate_threshold(6, &MpcProtocol::Honeybadger), 1);
    assert_eq!(calculate_threshold(7, &MpcProtocol::Honeybadger), 2);
    assert_eq!(calculate_threshold(10, &MpcProtocol::Honeybadger), 3);
    assert_eq!(calculate_threshold(16, &MpcProtocol::Honeybadger), 5);
    assert_eq!(calculate_threshold(255, &MpcProtocol::Honeybadger), 84);
}

#[test]
fn threshold_placeholder_below_minimum() {
    assert_eq!(calculate_threshold(0, &MpcProtocol::Honeybadger), 1);
    assert_eq!(calculate_threshold(4, &MpcProtocol::Honeybadger), 1);
}

#[test]
fn auto_threshold_validates_for_all_small_party_counts() {
    for parties in 5..=255u8 {
        let t = calculate_threshold(parties, &MpcProtocol::Honeybadger);
        assert_eq!(t, (parties - 1) / 3);
        assert!(validate_mpc_params(parties, t, &MpcProtocol::Honeybadger).is_ok());
    }
}

#[test]
fn too_few_parties_fail_for_every_threshold() {
    for parties in 0..5u8 {
        for threshold in [0u8, 1, 2, 100, 255] {
            let r = validate_mpc_params(parties, threshold, &MpcProtocol::Honeybadger);
            assert_eq!(r, Err(ValidationError::InvalidPartyCount { parties }));
        }
    }
}

#[test]
fn five_parties_threshold_boundary() {
    assert!(validate_mpc_params(5, 1, &MpcProtocol::Honeybadger).is_ok());
    assert_eq!(
        validate_mpc_params(5, 2, &MpcProtocol::Honeybadger),
        Err(ValidationError::InvalidThreshold {
            parties: 5,
            threshold: 2,
            max_threshold: 1,
        })
    );
}

#[test]
fn seven_parties_threshold_boundary() {
    assert!(validate_mpc_params(7, 0, &MpcProtocol::Honeybadger).is_ok());
    assert!(validate_mpc_params(7, 2, &MpcProtocol::Honeybadger).is_ok());
    assert!(validate_mpc_params(7, 3, &MpcProtocol::Honeybadger).is_err());
}

#[test]
fn party_count_error_message() {
    let e = ValidationError::InvalidPartyCount { parties: 3 };
    assert_eq!(e.message(), "HoneyBadger protocol requires at least 5 parties");
}

#[test]
fn threshold_error_message() {
    let r = validate_mpc_params(10, 5, &MpcProtocol::Honeybadger);
    let e = r.unwrap_err();
    assert_eq!(
        e.message(),
        "HoneyBadger protocol requires threshold < n/3. For 10 parties, max threshold is 3"
    );
}
