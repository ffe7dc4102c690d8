use bose_cli::domain::{
    builtin_modes, validate_mode_name, DeviceRef, DomainError, ImmersiveAudio, ModePreset,
    ModelId, NoiseControl,
};

#[test]
fn rejects_bad_noise_and_eq() {
    assert!(NoiseControl::new(true, 11).is_err());
    assert!(bose_cli::domain::Eq::new(0, 0, 11).is_err());
}

#[test]
fn built_in_modes_preserve_bose_presets() {
    let modes = builtin_modes();
    assert!(modes.iter().any(|mode| mode.name == "Quiet"));
    assert!(modes.iter().any(|mode| mode.name == "Aware"));
    assert!(modes.iter().any(|mode| mode.name == "Immersion"));
    assert!(modes.iter().any(|mode| mode.name == "Cinema"));

    let cinema = modes.iter().find(|mode| mode.name == "Cinema").unwrap();
    assert_eq!(cinema.noise.level, 10);
    assert_eq!(cinema.immersive, ImmersiveAudio::Still);
}

#[test]
fn mode_preset_trims_and_rejects_blank_names() {
    let mode = ModePreset::new(
        "  Commute  ",
        NoiseControl::new(true, 5).unwrap(),
        ImmersiveAudio::Motion,
    )
    .unwrap();

    assert_eq!(mode.name, "Commute");
    assert!(ModePreset::new(
        " ",
        NoiseControl::new(true, 5).unwrap(),
        ImmersiveAudio::Motion,
    )
    .is_err());
}

#[test]
fn noise_and_eq_bounds_are_inclusive() {
    assert!(NoiseControl::new(false, 0).is_ok());
    assert!(NoiseControl::new(true, 10).is_ok());
    assert_eq!(
        NoiseControl::new(true, 255).unwrap_err(),
        DomainError::NoiseLevelOutOfRange
    );
    assert!(bose_cli::domain::Eq::new(-10, 10, 0).is_ok());
    assert_eq!(
        bose_cli::domain::Eq::new(-11, 0, 0).unwrap_err(),
        DomainError::EqOutOfRange
    );
    assert_eq!(DomainError::EqOutOfRange.message(), "eq values must be -10..10");
}

#[test]
fn mode_names_are_trimmed_of_unicode_whitespace() {
    assert_eq!(validate_mode_name("\u{3000}Bus\t").unwrap(), "Bus");
    assert_eq!(
        validate_mode_name("\n").unwrap_err(),
        DomainError::EmptyModeName
    );
}

#[test]
fn modes_and_devices_display_as_in_listings() {
    let mode = ModePreset::new(
        "Commute",
        NoiseControl::new(false, 4).unwrap(),
        ImmersiveAudio::Still,
    )
    .unwrap();
    assert_eq!(
        mode.to_string(),
        "Commute: noise enabled=false level=4 immersive=Still"
    );
    let device = DeviceRef {
        address: "AA:BB".to_string(),
        name: None,
        model: None,
    };
    assert_eq!(device.display(), "<unknown> (AA:BB)");
    assert_eq!(ModelId::QuietComfort45.as_str(), "quietcomfort-45");
    assert_eq!(ImmersiveAudio::Motion.to_string(), "Motion");
}
