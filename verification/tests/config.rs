use bose_cli::cli::{
    handle_eq, handle_immersive, handle_mode, handle_noise, EqCommand, ImmersiveCommand,
    ImmersiveValue, ModeCommand, NoiseCommand,
};
use bose_cli::config::{is_builtin_name, ConfigError, ConfigFile, MAX_CUSTOM_MODES};
use bose_cli::domain::{ImmersiveAudio, ModePreset, NoiseControl};

fn custom(name: &str, level: u8, immersive: ImmersiveAudio) -> ModePreset {
    ModePreset::new(name, NoiseControl::new(true, level).unwrap(), immersive).unwrap()
}

#[test]
fn default_config_starts_in_quiet_mode() {
    let config = ConfigFile::default();

    assert_eq!(config.active_mode.as_deref(), Some("Quiet"));
    assert_eq!(config.noise.level, 10);
    assert_eq!(config.immersive, ImmersiveAudio::Off);
}

#[test]
fn custom_modes_round_trip_through_toml() {
    let mut config = ConfigFile::default();
    config
        .upsert_custom_mode(
            ModePreset::new(
                "Commute",
                NoiseControl::new(true, 6).unwrap(),
                ImmersiveAudio::Still,
            )
            .unwrap(),
        )
        .unwrap();

    let loaded = config.clone();
    assert!(loaded.validate().is_ok());
    let commute = loaded.find_mode("commute").unwrap();

    assert_eq!(commute.name, "Commute");
    assert_eq!(commute.noise.level, 6);
    assert_eq!(commute.immersive, ImmersiveAudio::Still);
}

#[test]
fn rejects_invalid_persisted_noise_level() {
    let mut config = ConfigFile::default();
    config.noise = NoiseControl {
        enabled: true,
        level: 11,
    };

    assert!(config.validate().is_err());
}

#[test]
fn enforces_headphone_custom_mode_limit() {
    let mut config = ConfigFile::default();

    for index in 0..MAX_CUSTOM_MODES {
        config
            .upsert_custom_mode(
                ModePreset::new(
                    &format!("Custom {index}"),
                    NoiseControl::new(true, index as u8).unwrap(),
                    ImmersiveAudio::Off,
                )
                .unwrap(),
            )
            .unwrap();
    }

    assert!(config
        .upsert_custom_mode(
            ModePreset::new(
                "One too many",
                NoiseControl::new(true, 5).unwrap(),
                ImmersiveAudio::Off,
            )
            .unwrap(),
        )
        .is_err());
}

#[test]
fn upsert_replaces_a_custom_mode_of_the_same_name() {
    let mut config = ConfigFile::default();
    config
        .upsert_custom_mode(custom("Commute", 6, ImmersiveAudio::Still))
        .unwrap();
    config
        .upsert_custom_mode(custom("COMMUTE", 2, ImmersiveAudio::Off))
        .unwrap();
    assert_eq!(config.custom_modes.len(), 1);
    assert_eq!(config.custom_modes[0].name, "COMMUTE");
    assert_eq!(config.custom_modes[0].noise.level, 2);
}

#[test]
fn upsert_keeps_custom_modes_sorted_by_name() {
    let mut config = ConfigFile::default();
    for name in ["Zoo", "Bus", "Office"] {
        config
            .upsert_custom_mode(custom(name, 3, ImmersiveAudio::Off))
            .unwrap();
    }
    let names: Vec<&str> = config
        .custom_modes
        .iter()
        .map(|m| m.name.as_str())
        .collect();
    assert_eq!(names, vec!["Bus", "Office", "Zoo"]);
}

#[test]
fn upsert_refuses_builtin_names() {
    let mut config = ConfigFile::default();
    let err = config
        .upsert_custom_mode(custom("cinema", 3, ImmersiveAudio::Off))
        .unwrap_err();
    assert!(matches!(err, ConfigError::CannotReplaceBuiltin(ref n) if n == "cinema"));
    assert_eq!(err.message(), "cannot replace built-in mode 'cinema'");
    assert!(config.custom_modes.is_empty());
}

#[test]
fn remove_custom_mode_reports_whether_it_removed() {
    let mut config = ConfigFile::default();
    config
        .upsert_custom_mode(custom("Commute", 6, ImmersiveAudio::Still))
        .unwrap();
    assert!(!config.remove_custom_mode("Office"));
    assert!(config.remove_custom_mode("commute"));
    assert!(config.custom_modes.is_empty());
    assert!(config.find_mode("Commute").is_none());
}

#[test]
fn active_mode_follows_the_current_audio() {
    let mut config = ConfigFile::default();
    config.noise = NoiseControl::new(true, 0).unwrap();
    config.sync_active_mode_to_current_audio();
    assert_eq!(config.active_mode.as_deref(), Some("Aware"));
    config.noise = NoiseControl::new(false, 0).unwrap();
    config.sync_active_mode_to_current_audio();
    assert_eq!(config.active_mode, None);
}

#[test]
fn validate_reports_the_first_failing_check() {
    let mut config = ConfigFile::default();
    config.active_mode = Some("Nowhere".to_string());
    assert_eq!(
        config.validate().unwrap_err().message(),
        "active mode 'Nowhere' does not exist"
    );

    let mut config = ConfigFile::default();
    config.custom_modes.push(custom("Quiet", 3, ImmersiveAudio::Off));
    assert!(matches!(
        config.validate(),
        Err(ConfigError::CustomModeConflictsBuiltin(_))
    ));

    let mut config = ConfigFile::default();
    config.custom_modes.push(ModePreset {
        name: " Spaced".to_string(),
        noise: NoiseControl::new(true, 3).unwrap(),
        immersive: ImmersiveAudio::Off,
    });
    assert!(matches!(
        config.validate(),
        Err(ConfigError::CustomModeWhitespace(_))
    ));

    let mut config = ConfigFile::default();
    config.custom_modes.push(custom("Bus", 3, ImmersiveAudio::Off));
    config.custom_modes.push(custom("bus", 4, ImmersiveAudio::Off));
    assert!(matches!(
        config.validate(),
        Err(ConfigError::DuplicateCustomMode(_))
    ));
}

#[test]
fn builtin_names_match_ignoring_case() {
    assert!(is_builtin_name("IMMERSION"));
    assert!(!is_builtin_name("Commute"));
}

#[test]
fn find_mode_prefers_builtins() {
    let config = ConfigFile::default();
    let quiet = config.find_mode("QUIET").unwrap();
    assert_eq!(quiet.name, "Quiet");
    assert_eq!(config.all_modes().len(), 4);
}

#[test]
fn successful_commands_leave_a_loadable_config() {
    let ok_save = |_: &ConfigFile| -> Result<(), String> { Ok(()) };
    let no_sync = |_: &ConfigFile| -> Result<(), String> { Ok(()) };
    let mut config = ConfigFile::default();
    handle_mode(
        ModeCommand::Add {
            name: " Commute ".into(),
            noise_enabled: Some(true),
            noise_level: Some(3),
            immersive: Some(ImmersiveValue::Still),
        },
        &mut config,
        ok_save,
        no_sync,
    )
    .unwrap();
    assert!(config.validate().is_ok());
    handle_mode(
        ModeCommand::Update {
            name: "commute".into(),
        },
        &mut config,
        ok_save,
        no_sync,
    )
    .unwrap();
    assert_eq!(config.active_mode.as_deref(), Some("Commute"));
    assert!(config.validate().is_ok());
    handle_mode(
        ModeCommand::Remove {
            name: "COMMUTE".into(),
        },
        &mut config,
        ok_save,
        no_sync,
    )
    .unwrap();
    assert_eq!(config.active_mode, None);
    assert!(config.validate().is_ok());
    handle_noise(
        NoiseCommand::Update {
            enabled: true,
            level: 0,
        },
        &mut config,
        ok_save,
        no_sync,
    )
    .unwrap();
    assert_eq!(config.active_mode, None);
    handle_immersive(
        ImmersiveCommand::Update {
            value: ImmersiveValue::Off,
        },
        &mut config,
        ok_save,
        no_sync,
    )
    .unwrap();
    assert_eq!(config.active_mode.as_deref(), Some("Aware"));
    handle_eq(
        EqCommand::Update {
            bass: -10,
            mid: 10,
            treble: 0,
        },
        &mut config,
        ok_save,
        no_sync,
    )
    .unwrap();
    assert!(config.validate().is_ok());
}
