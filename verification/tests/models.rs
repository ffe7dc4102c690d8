use bose_cli::bmap::{Frame, Operator, RequestPurpose};
use bose_cli::config::ConfigFile;
use bose_cli::domain::{DeviceRef, ImmersiveAudio, ModelId, NoiseControl};
use bose_cli::models::qc_ultra_2::{
    audio_payload, battery_level, eq_payload, mode_index, read_battery, sync_config, QcUltra2Model,
    RFCOMM_CHANNEL,
};
use bose_cli::models::{
    all_models, ensure_selected_device_supports_config, infer_model_from_name, model,
    normalize_name, read_selected_battery, resolve_device_model, selected_device_model,
    selected_rfcomm_channel, sync_builds_plan, sync_selected_config, HeadphoneModel, ModelError,
};

fn device(address: &str, name: Option<&str>, model: Option<ModelId>) -> DeviceRef {
    DeviceRef {
        address: address.to_string(),
        name: name.map(|n| n.to_string()),
        model,
    }
}

fn config_with(device: Option<DeviceRef>) -> ConfigFile {
    let mut config = ConfigFile::default();
    config.selected_device = device;
    config
}

#[test]
fn resolves_qc_ultra_2_aliases() {
    assert_eq!(
        infer_model_from_name("Bose QC Ultra 2 HP"),
        Some(ModelId::QcUltraHeadphones2)
    );
    assert_eq!(
        infer_model_from_name("Bose QuietComfort Ultra Headphones (2nd Gen)"),
        Some(ModelId::QcUltraHeadphones2)
    );
}

#[test]
fn unknown_name_is_not_resolved() {
    assert_eq!(infer_model_from_name("WH-1000XM3"), None);
}

#[test]
fn unsupported_model_rejects_config_writes() {
    let mut config = ConfigFile::default();
    config.selected_device = Some(DeviceRef {
        address: "AA:BB".into(),
        name: Some("Bose QuietComfort 45".into()),
        model: None,
    });

    let err = ensure_selected_device_supports_config(&config).unwrap_err();

    assert!(err.message().contains("does not support"));
}

#[test]
fn model_name_mismatch_is_not_trusted() {
    let device = DeviceRef {
        address: "AA:BB".into(),
        name: Some("Bose QuietComfort 45".into()),
        model: Some(ModelId::QcUltraHeadphones2),
    };

    assert_eq!(resolve_device_model(&device), None);
}

#[test]
fn qc_ultra_2_maps_audio_and_eq_payloads() {
    let config = ConfigFile {
        selected_device: Some(DeviceRef {
            address: "AA:BB".into(),
            name: Some("Bose QC Ultra 2 HP".into()),
            model: Some(ModelId::QcUltraHeadphones2),
        }),
        active_mode: Some("Quiet".into()),
        custom_modes: vec![],
        noise: NoiseControl {
            enabled: true,
            level: 7,
        },
        immersive: ImmersiveAudio::Motion,
        eq: bose_cli::domain::Eq {
            bass: -2,
            mid: 0,
            treble: 3,
        },
    };
    assert_eq!(mode_index("Quiet"), Some(0));
    assert_eq!(mode_index("Cinema"), Some(3));
    assert_eq!(audio_payload(&config), [3, 0, 2, 0, 1]);
    assert_eq!(eq_payload(-2, 0), [254, 0]);
}

#[test]
fn mode_index_ignores_ascii_case_and_rejects_custom_names() {
    assert_eq!(mode_index("aWaRe"), Some(1));
    assert_eq!(mode_index("IMMERSION"), Some(2));
    assert_eq!(mode_index("Commute"), None);
    assert_eq!(mode_index(""), None);
}

#[test]
fn normalize_name_keeps_lowercased_alphanumerics() {
    assert_eq!(normalize_name("Bose QC-Ultra 2 (HP)"), "boseqcultra2hp");
    assert_eq!(normalize_name("  --  "), "");
}

#[test]
fn infers_other_bose_models_from_names() {
    assert_eq!(
        infer_model_from_name("Bose QuietComfort 45"),
        Some(ModelId::QuietComfort45)
    );
    assert_eq!(infer_model_from_name(""), None);
}

#[test]
fn declared_model_is_trusted_when_name_is_absent() {
    let d = device("AA:BB", None, Some(ModelId::QuietComfort45));
    assert_eq!(resolve_device_model(&d), Some(ModelId::QuietComfort45));
    let unnamed = device("AA:BB", None, None);
    assert_eq!(resolve_device_model(&unnamed), None);
}

#[test]
fn registry_lists_each_model_once() {
    let models = all_models();
    assert_eq!(models.len(), 7);
    assert_eq!(models[0].id(), ModelId::QcUltraHeadphones2);
    let qc = model(ModelId::QcUltraHeadphones2);
    assert!(qc.capabilities().config_writes);
    assert_eq!(qc.rfcomm_channel(), Some(2));
    assert_eq!(qc.builtin_modes().len(), 4);
    let qc45 = model(ModelId::QuietComfort45);
    assert!(!qc45.capabilities().config_writes);
    assert_eq!(qc45.rfcomm_channel(), None);
}

#[test]
fn no_selected_device_is_an_error() {
    let config = ConfigFile::default();
    let err = selected_device_model(&config).unwrap_err();
    assert!(matches!(err, ModelError::NoSelectedDevice));
    assert_eq!(err.message(), "no selected device");
    assert!(ensure_selected_device_supports_config(&config).is_ok());
}

#[test]
fn unknown_selected_device_is_refused() {
    let config = config_with(Some(device("AA:BB", Some("WH-1000XM3"), None)));
    let err = selected_device_model(&config).unwrap_err();
    assert!(matches!(err, ModelError::UnknownModel(_)));
    assert!(err.message().contains("refusing to send configuration writes"));
}

#[test]
fn qc_ultra_2_sync_plan_lists_the_writes_in_order() {
    let mut config = config_with(Some(device("AA:BB", Some("Bose QC Ultra 2 HP"), None)));
    config.eq = bose_cli::domain::Eq {
        bass: -2,
        mid: 1,
        treble: 3,
    };
    let plan = sync_selected_config(&config).unwrap();
    assert_eq!(plan.len(), 5);
    assert_eq!(plan[0].fblock, 31);
    assert_eq!(plan[0].func, 3);
    assert_eq!(plan[0].op, Operator::Start);
    assert_eq!(plan[0].payload, vec![0, 0]);
    assert_eq!(plan[0].pause_ms, 750);
    assert_eq!(plan[0].purpose, RequestPurpose::SwitchMode);
    assert_eq!(plan[1].fblock, 31);
    assert_eq!(plan[1].func, 10);
    assert_eq!(plan[1].payload, vec![0, 0, 0, 0, 1]);
    assert_eq!(plan[1].pause_ms, 250);
    assert_eq!(plan[2].payload, vec![254, 0]);
    assert_eq!(plan[3].payload, vec![1, 1]);
    assert_eq!(plan[4].payload, vec![3, 2]);
    assert_eq!(plan[4].purpose, RequestPurpose::EqBand(2));
    for request in &plan {
        assert_eq!(request.address, "AA:BB");
        assert_eq!(request.channel, RFCOMM_CHANNEL);
        assert_eq!(request.expected, vec![Operator::Status, Operator::Result]);
    }
}

#[test]
fn sync_without_active_mode_skips_the_mode_switch() {
    let mut config = config_with(Some(device("AA:BB", Some("Bose QC Ultra 2 HP"), None)));
    config.active_mode = None;
    let plan = sync_config(&config).unwrap();
    assert_eq!(plan.len(), 4);
    assert_eq!(plan[0].purpose, RequestPurpose::AudioSettings);
}

#[test]
fn custom_active_mode_is_not_synced() {
    let mut config = config_with(Some(device("AA:BB", Some("Bose QC Ultra 2 HP"), None)));
    config.active_mode = Some("Commute".to_string());
    let err = sync_config(&config).unwrap_err();
    assert!(matches!(err, ModelError::CustomModeSync(ref n) if n == "Commute"));
    assert!(err.message().contains("custom mode 'Commute' was saved locally only"));
}

#[test]
fn unsupported_model_refuses_sync_and_battery() {
    let config = config_with(Some(device("AA:BB", Some("Bose QuietComfort 45"), None)));
    assert!(matches!(
        sync_selected_config(&config),
        Err(ModelError::SyncUnsupported(_))
    ));
    assert!(matches!(
        read_selected_battery(&config),
        Err(ModelError::BatteryUnsupported(_))
    ));
    assert!(matches!(
        selected_rfcomm_channel(&config),
        Err(ModelError::NoChannel(_))
    ));
}

#[test]
fn battery_request_reads_function_two_of_block_two() {
    let config = config_with(Some(device("AA:BB", Some("Bose QC Ultra 2 HP"), None)));
    let request = read_battery(&config).unwrap();
    assert_eq!(request.fblock, 2);
    assert_eq!(request.func, 2);
    assert_eq!(request.op, Operator::Get);
    assert!(request.payload.is_empty());
    assert_eq!(selected_rfcomm_channel(&config).unwrap(), 2);
    assert!(read_selected_battery(&config).is_ok());
    assert!(matches!(
        read_battery(&ConfigFile::default()),
        Err(ModelError::NoSelectedDevice)
    ));
}

#[test]
fn battery_level_is_the_first_payload_byte() {
    let ok = Frame {
        fblock: 2,
        func: 2,
        op: Operator::Status,
        payload: vec![88, 1],
    };
    assert_eq!(battery_level(&ok).unwrap(), 88);
    let model = QcUltra2Model;
    assert_eq!(model.battery_level(&ok).unwrap(), 88);

    let wrong = Frame {
        fblock: 2,
        func: 3,
        op: Operator::Status,
        payload: vec![88],
    };
    let err = battery_level(&wrong).unwrap_err();
    assert!(matches!(
        err,
        ModelError::UnexpectedBatteryResponse { fblock: 2, func: 3 }
    ));
    assert_eq!(err.message(), "unexpected battery response [2.3]");

    let empty = Frame {
        fblock: 2,
        func: 2,
        op: Operator::Status,
        payload: vec![],
    };
    assert!(matches!(
        battery_level(&empty),
        Err(ModelError::BatteryMissingPayload)
    ));
}

#[test]
fn sync_refusals_come_whatever_the_noise_level() {
    let mut config = config_with(None);
    config.noise.level = 11;
    assert!(!sync_builds_plan(&config));
    assert!(matches!(
        sync_selected_config(&config),
        Err(ModelError::NoSelectedDevice)
    ));
    assert!(matches!(sync_config(&config), Err(ModelError::NoSelectedDevice)));

    let mut config = config_with(Some(device("AA:BB", Some("Bose QC Ultra 2 HP"), None)));
    config.noise.level = 200;
    config.active_mode = Some("Commute".to_string());
    assert!(!sync_builds_plan(&config));
    assert!(matches!(
        sync_selected_config(&config),
        Err(ModelError::CustomModeSync(ref n)) if n == "Commute"
    ));

    let mut config = config_with(Some(device("AA:BB", Some("Bose QuietComfort 45"), None)));
    config.noise.level = 11;
    assert!(!sync_builds_plan(&config));
    assert!(matches!(
        sync_selected_config(&config),
        Err(ModelError::SyncUnsupported(_))
    ));

    let mut config = config_with(Some(device("AA:BB", Some("WH-1000XM3"), None)));
    config.noise.level = 11;
    assert!(!sync_builds_plan(&config));
    assert!(matches!(
        sync_selected_config(&config),
        Err(ModelError::UnknownModel(_))
    ));
}

#[test]
fn sync_builds_a_plan_for_a_supported_device() {
    let mut config = config_with(Some(device("AA:BB", Some("Bose QC Ultra 2 HP"), None)));
    assert!(sync_builds_plan(&config));
    config.active_mode = Some("aware".to_string());
    assert!(sync_builds_plan(&config));
    config.active_mode = None;
    assert!(sync_builds_plan(&config));
}
