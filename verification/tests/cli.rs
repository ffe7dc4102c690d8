use std::cell::{Cell, RefCell};

use bose_cli::cli::{
    battery_report, doctor_lines, scan_status, try_parse_hex, TransactionError,
    bytes_to_hex, handle_eq, handle_immersive, handle_mode, handle_noise, parse_hex,
    status_battery_readback, status_lines, sync_headphones_transaction, BatteryReadback, CliError,
    EqCommand, HexError, ImmersiveCommand, ImmersiveValue, ModeCommand, NoiseCommand,
    SyncTransactionOutcome,
};
use bose_cli::config::{default_config_path_from_home, ConfigFile};
use bose_cli::domain::{DeviceRef, ImmersiveAudio, ModelId, NoiseControl};

fn read_battery_88(_: &ConfigFile) -> Result<u8, String> {
    Ok(88)
}

fn fail_read_battery(_: &ConfigFile) -> Result<u8, String> {
    Err("rfcomm failed".to_string())
}

fn panic_read_battery(_: &ConfigFile) -> Result<u8, String> {
    panic!("battery reader should not be called")
}

fn selected_device_config(name: &str, model: ModelId) -> ConfigFile {
    let mut config = ConfigFile::default();
    config.selected_device = Some(DeviceRef {
        address: "AA:BB".into(),
        name: Some(name.into()),
        model: Some(model),
    });
    config
}

fn never_sync(_: &ConfigFile) -> Result<(), String> {
    panic!("sync should not be called")
}

fn always_sync(_: &ConfigFile) -> Result<(), String> {
    Ok(())
}

#[test]
fn status_reads_battery_for_supported_selected_model() {
    let config = selected_device_config("Bose QC Ultra 2 HP", ModelId::QcUltraHeadphones2);

    assert_eq!(
        status_battery_readback(&config, read_battery_88, false),
        BatteryReadback::Level(88)
    );
}

#[test]
fn status_skips_battery_for_unsupported_selected_model() {
    let config = selected_device_config("Bose QuietComfort 45", ModelId::QuietComfort45);

    assert_eq!(
        status_battery_readback(&config, panic_read_battery, false),
        BatteryReadback::Unavailable
    );
}

#[test]
fn status_reports_supported_battery_read_errors() {
    let config = selected_device_config("Bose QC Ultra 2 HP", ModelId::QcUltraHeadphones2);

    assert_eq!(
        status_battery_readback(&config, fail_read_battery, false),
        BatteryReadback::Error("rfcomm failed".into())
    );
}

#[test]
fn status_headphones_flag_forces_legacy_battery_readback() {
    let config = selected_device_config("Bose QuietComfort 45", ModelId::QuietComfort45);

    assert_eq!(
        status_battery_readback(&config, read_battery_88, true),
        BatteryReadback::Level(88)
    );
}

#[test]
fn sync_transaction_rolls_back_config_after_sync_failure() {
    let disk: RefCell<Option<ConfigFile>> = RefCell::new(None);
    let sync_calls = Cell::new(0u32);
    let save = |c: &ConfigFile| -> Result<(), String> {
        *disk.borrow_mut() = Some(c.clone());
        Ok(())
    };
    let fail_once_then_sync = |_: &ConfigFile| -> Result<(), String> {
        let call = sync_calls.get();
        sync_calls.set(call + 1);
        if call == 0 {
            Err("requested sync failed".to_string())
        } else {
            Ok(())
        }
    };

    let mut previous = ConfigFile::default();
    previous.selected_device = Some(DeviceRef {
        address: "AA:BB".into(),
        name: Some("Headphones".into()),
        model: Some(ModelId::QcUltraHeadphones2),
    });
    save(&previous).unwrap();

    let mut config = previous.clone();
    config.noise = NoiseControl::new(true, 5).unwrap();
    config.sync_active_mode_to_current_audio();
    save(&config).unwrap();

    let err = sync_headphones_transaction(previous, &mut config, save, fail_once_then_sync)
        .unwrap_err();

    let saved = disk.borrow().as_ref().unwrap().clone();
    assert!(err.message().contains("rolled back"));
    assert_eq!(sync_calls.get(), 2);
    assert_eq!(config.active_mode.as_deref(), Some("Quiet"));
    assert_eq!(config.noise.level, 10);
    assert_eq!(saved.active_mode.as_deref(), Some("Quiet"));
    assert_eq!(saved.noise.level, 10);
}

#[test]
fn unsupported_selected_model_rejects_qc_ultra_2_config_change() {
    let mut config = ConfigFile::default();
    config.selected_device = Some(DeviceRef {
        address: "AA:BB".into(),
        name: Some("Bose QuietComfort 45".into()),
        model: Some(ModelId::QuietComfort45),
    });
    let disk: RefCell<Option<ConfigFile>> = RefCell::new(Some(config.clone()));
    let save = |c: &ConfigFile| -> Result<(), String> {
        *disk.borrow_mut() = Some(c.clone());
        Ok(())
    };

    let err = handle_noise(
        NoiseCommand::Update {
            enabled: true,
            level: 5,
        },
        &mut config,
        save,
        never_sync,
    )
    .unwrap_err();

    let saved = disk.borrow().as_ref().unwrap().clone();
    assert!(err.message().contains("does not support"));
    assert_eq!(config.noise.level, 10);
    assert_eq!(saved.noise.level, 10);
}

#[test]
fn default_config_path_uses_home_config_directory() {
    let path = default_config_path_from_home("/home/alice");

    assert_eq!(path, "/home/alice/.config/bosecli/config.toml");
}

#[test]
fn manual_noise_change_syncs_active_mode() {
    let disk: RefCell<Option<ConfigFile>> = RefCell::new(None);
    let save = |c: &ConfigFile| -> Result<(), String> {
        *disk.borrow_mut() = Some(c.clone());
        Ok(())
    };
    let mut config = ConfigFile::default();

    let out = handle_noise(
        NoiseCommand::Update {
            enabled: true,
            level: 5,
        },
        &mut config,
        save,
        never_sync,
    )
    .unwrap();

    assert_eq!(
        out.transaction,
        Some(SyncTransactionOutcome::SavedLocallyNoSelectedDevice)
    );
    let saved = disk.borrow().as_ref().unwrap().clone();
    assert_eq!(saved.active_mode, None);
    assert_eq!(saved.noise.level, 5);
}

#[test]
fn successful_sync_keeps_the_change() {
    let mut config = selected_device_config("Bose QC Ultra 2 HP", ModelId::QcUltraHeadphones2);
    let previous = config.clone();
    config.noise = NoiseControl::new(false, 3).unwrap();
    let outcome =
        sync_headphones_transaction(previous, &mut config, |_: &ConfigFile| Ok(()), always_sync)
            .unwrap();
    assert_eq!(outcome, SyncTransactionOutcome::Synced);
    assert_eq!(config.noise.level, 3);
    assert!(!config.noise.enabled);
}

#[test]
fn failed_rollback_sync_reports_unknown_headset_state() {
    let mut config = selected_device_config("Bose QC Ultra 2 HP", ModelId::QcUltraHeadphones2);
    let previous = config.clone();
    config.noise = NoiseControl::new(true, 2).unwrap();
    let err = sync_headphones_transaction(
        previous,
        &mut config,
        |_: &ConfigFile| Ok(()),
        |_: &ConfigFile| Err("link lost".to_string()),
    )
    .unwrap_err();
    assert_eq!(err.sync_error, "link lost");
    assert_eq!(
        err.message(),
        "failed to sync requested change; rolled back local config, but headset rollback failed: link lost; headset state unknown"
    );
    assert_eq!(config.noise.level, 10);
}

#[test]
fn failed_save_is_reported_before_any_sync() {
    let mut config = selected_device_config("Bose QC Ultra 2 HP", ModelId::QcUltraHeadphones2);
    let err = handle_eq(
        EqCommand::Update {
            bass: 1,
            mid: 2,
            treble: 3,
        },
        &mut config,
        |_: &ConfigFile| Err("disk full".to_string()),
        never_sync,
    )
    .unwrap_err();
    assert!(matches!(err, CliError::Save(ref m) if m == "disk full"));
    assert_eq!(config.eq.treble, 3);
}

#[test]
fn out_of_range_values_are_refused_before_saving() {
    let mut config = selected_device_config("Bose QC Ultra 2 HP", ModelId::QcUltraHeadphones2);
    let refuse_save = |_: &ConfigFile| -> Result<(), String> { panic!("must not save") };
    let err = handle_noise(
        NoiseCommand::Update {
            enabled: true,
            level: 11,
        },
        &mut config,
        refuse_save,
        never_sync,
    )
    .unwrap_err();
    assert_eq!(err.message(), "noise level must be 0..10");
    let err = handle_eq(
        EqCommand::Update {
            bass: 0,
            mid: -11,
            treble: 0,
        },
        &mut config,
        refuse_save,
        never_sync,
    )
    .unwrap_err();
    assert!(matches!(err, CliError::Domain(_)));
    assert_eq!(config.noise.level, 10);
    assert_eq!(config.eq.mid, 0);
}

#[test]
fn show_commands_print_current_settings() {
    let mut config = ConfigFile::default();
    config.eq = bose_cli::domain::Eq {
        bass: -3,
        mid: 0,
        treble: 10,
    };
    let noise = handle_noise(NoiseCommand::Show, &mut config, always_sync, never_sync).unwrap();
    assert_eq!(noise.lines, vec!["enabled=true level=10".to_string()]);
    let eq = handle_eq(EqCommand::Show, &mut config, always_sync, never_sync).unwrap();
    assert_eq!(eq.lines, vec!["bass=-3 mid=0 treble=10".to_string()]);
    let immersive =
        handle_immersive(ImmersiveCommand::Show, &mut config, always_sync, never_sync).unwrap();
    assert_eq!(immersive.lines, vec!["Off".to_string()]);
}

#[test]
fn mode_list_prints_builtins_then_custom_modes() {
    let mut config = ConfigFile::default();
    let out = handle_mode(
        ModeCommand::Add {
            name: "  Commute ".to_string(),
            noise_enabled: None,
            noise_level: Some(4),
            immersive: Some(ImmersiveValue::Motion),
        },
        &mut config,
        always_sync,
        never_sync,
    )
    .unwrap();
    assert_eq!(out.lines, vec!["added mode: Commute".to_string()]);
    let list = handle_mode(ModeCommand::List, &mut config, always_sync, never_sync).unwrap();
    assert_eq!(list.lines.len(), 5);
    assert_eq!(
        list.lines[0],
        "Quiet: noise enabled=true level=10 immersive=Off"
    );
    assert_eq!(
        list.lines[4],
        "Commute: noise enabled=true level=4 immersive=Motion"
    );
}

#[test]
fn mode_set_applies_the_preset_without_a_device() {
    let mut config = ConfigFile::default();
    let out = handle_mode(
        ModeCommand::Update {
            name: "aware".to_string(),
        },
        &mut config,
        always_sync,
        never_sync,
    )
    .unwrap();
    assert_eq!(
        out.transaction,
        Some(SyncTransactionOutcome::SavedLocallyNoSelectedDevice)
    );
    assert_eq!(config.active_mode.as_deref(), Some("Aware"));
    assert_eq!(config.noise.level, 0);
    let err = handle_mode(
        ModeCommand::Update {
            name: "Nowhere".to_string(),
        },
        &mut config,
        always_sync,
        never_sync,
    )
    .unwrap_err();
    assert_eq!(err.message(), "unknown mode 'Nowhere'; use `bose mode list`");
}

#[test]
fn mode_remove_refuses_builtins_and_missing_modes() {
    let mut config = ConfigFile::default();
    let err = handle_mode(
        ModeCommand::Remove {
            name: "quiet".to_string(),
        },
        &mut config,
        always_sync,
        never_sync,
    )
    .unwrap_err();
    assert_eq!(err.message(), "cannot remove built-in mode 'quiet'");
    let err = handle_mode(
        ModeCommand::Remove {
            name: "Commute".to_string(),
        },
        &mut config,
        always_sync,
        never_sync,
    )
    .unwrap_err();
    assert_eq!(err.message(), "custom mode 'Commute' not found");
}

#[test]
fn immersive_set_switches_to_the_matching_mode() {
    let mut config = ConfigFile::default();
    handle_immersive(
        ImmersiveCommand::Update {
            value: ImmersiveValue::Still,
        },
        &mut config,
        always_sync,
        never_sync,
    )
    .unwrap();
    assert_eq!(config.immersive, ImmersiveAudio::Still);
    assert_eq!(config.active_mode.as_deref(), Some("Cinema"));
}

#[test]
fn parses_hex_payloads() {
    assert_eq!(parse_hex(" 0a1F ").unwrap(), vec![10, 31]);
    assert_eq!(parse_hex("").unwrap(), Vec::<u8>::new());
    assert_eq!(parse_hex("abc").unwrap_err(), HexError::OddLength);
    assert_eq!(parse_hex("zz").unwrap_err(), HexError::InvalidDigit);
    assert_eq!(parse_hex("+a").unwrap(), vec![10]);
    assert!(try_parse_hex("a\u{e9}b").is_none());
    assert_eq!(
        try_parse_hex("\u{e9}zz"),
        Some(Err(HexError::InvalidDigit))
    );
    assert_eq!(try_parse_hex("ff"), Some(Ok(vec![255])));
    assert_eq!(
        HexError::OddLength.message(),
        "hex payload must have an even number of digits"
    );
}

#[test]
fn hex_round_trips_bytes() {
    let bytes = [0u8, 15, 16, 171, 255];
    let text = bytes_to_hex(&bytes);
    assert_eq!(text, "000f10abff");
    assert_eq!(parse_hex(&text).unwrap(), bytes.to_vec());
}

#[test]
fn status_lines_describe_the_saved_configuration() {
    let config = selected_device_config("Bose QC Ultra 2 HP", ModelId::QcUltraHeadphones2);
    let lines = status_lines(&config);
    assert_eq!(
        lines,
        vec![
            "selected device: Bose QC Ultra 2 HP (AA:BB)".to_string(),
            "selected model: qc-ultra-headphones-2".to_string(),
            "active mode: Quiet".to_string(),
            "noise: enabled=true level=10".to_string(),
            "immersive: Off".to_string(),
            "eq: bass=0 mid=0 treble=0".to_string(),
        ]
    );
    let empty = status_lines(&ConfigFile::default());
    assert_eq!(empty[0], "selected device: <none>");
    assert_eq!(empty[1], "selected model: <unknown>");
}

#[test]
fn scan_status_counts_devices_or_reports_failure() {
    assert_eq!(
        scan_status(&Ok(vec![])),
        "No Bluetooth devices found during scan/listing."
    );
    let one = bose_cli::bluetooth::ScannedDevice {
        name: None,
        address: "AA:BB".into(),
        rssi: None,
        connected: false,
    };
    assert_eq!(scan_status(&Ok(vec![one])), "Found 1 Bluetooth device(s).");
    assert_eq!(
        scan_status(&Err("no adapter".into())),
        "Bluetooth scan/listing failed: no adapter"
    );
}

#[test]
fn battery_report_prints_level_or_warning() {
    assert_eq!(battery_report(&BatteryReadback::Unavailable), None);
    assert_eq!(
        battery_report(&BatteryReadback::Level(88)),
        Some(Ok("battery: 88%".to_string()))
    );
    assert_eq!(
        battery_report(&BatteryReadback::Error("rfcomm failed".into())),
        Some(Err(
            "warning: failed to read battery from headphones: rfcomm failed".to_string()
        ))
    );
}

#[test]
fn transaction_notices_describe_the_rollback() {
    assert_eq!(
        SyncTransactionOutcome::Synced.message(),
        "synced config to headphones"
    );
    let err = TransactionError {
        sync_error: "timeout".into(),
        rollback_save: Ok(()),
        rollback_sync: Ok(()),
    };
    assert_eq!(
        err.notices(),
        vec![
            "error: failed to sync requested change to headphones: timeout".to_string(),
            "rolled back local config and synced previous desired settings to headphones"
                .to_string(),
        ]
    );
    assert_eq!(
        err.message(),
        "failed to sync requested change; rolled back to previous desired settings"
    );
    let err = TransactionError {
        sync_error: "timeout".into(),
        rollback_save: Err("disk full".into()),
        rollback_sync: Ok(()),
    };
    assert_eq!(err.notices().len(), 1);
    assert_eq!(
        err.message(),
        "failed to rollback local config after sync failure; synced previous desired settings to headphones"
    );
}

#[test]
fn doctor_reports_each_check() {
    let lines = doctor_lines("/tmp/bose.toml", &None, true, &Ok(false));
    assert_eq!(
        lines,
        vec![
            "config: /tmp/bose.toml".to_string(),
            "config status: missing; defaults will be used".to_string(),
            "fzf: available".to_string(),
            "bluetooth adapter: missing".to_string(),
            "caveat: Bluetooth discovery/listing plus BMAP sync over macOS RFCOMM serial for mode/noise/immersive/EQ.".to_string(),
        ]
    );
    let lines = doctor_lines(
        "x",
        &Some(Err("bad toml".into())),
        false,
        &Err("dbus".into()),
    );
    assert_eq!(lines[1], "config status: invalid (bad toml)");
    assert_eq!(lines[2], "fzf: missing");
    assert_eq!(lines[3], "bluetooth adapter: error (dbus)");
    assert_eq!(doctor_lines("x", &Some(Ok(())), false, &Ok(true))[1], "config status: valid");
}
