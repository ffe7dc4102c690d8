use bose_cli::bluetooth::{
    device_key, known_or_error, parse_macos_device_rssi, parse_macos_listing, scan_start_failure, parse_macos_known_devices, upsert_device, DeviceTable,
    JsonMember, JsonValue, ScannedDevice,
};

fn obj(members: Vec<(&str, JsonValue)>) -> JsonValue {
    JsonValue::Object(
        members
            .into_iter()
            .map(|(key, value)| JsonMember {
                key: key.to_string(),
                value,
            })
            .collect(),
    )
}

fn text(s: &str) -> JsonValue {
    JsonValue::Text(s.to_string())
}

fn sighting(name: Option<&str>, address: &str, rssi: Option<i16>, connected: bool) -> ScannedDevice {
    ScannedDevice {
        name: name.map(|n| n.to_string()),
        address: address.to_string(),
        rssi,
        connected,
    }
}

#[test]
fn upsert_device_keeps_connected_metadata() {
    let mut devices = DeviceTable::new();
    upsert_device(
        &mut devices,
        ScannedDevice {
            name: None,
            address: "68:F2:1F:0D:FE:42".into(),
            rssi: None,
            connected: false,
        },
    );
    upsert_device(
        &mut devices,
        ScannedDevice {
            name: Some("Bose QC Ultra 2 HP".into()),
            address: "68:F2:1F:0D:FE:42".into(),
            rssi: Some(-42),
            connected: true,
        },
    );

    let values = devices.values();
    let device = values.first().unwrap();
    assert_eq!(device.name.as_deref(), Some("Bose QC Ultra 2 HP"));
    assert_eq!(device.rssi, Some(-42));
    assert!(device.connected);
}

#[test]
fn upsert_device_matches_normalized_addresses() {
    let mut devices = DeviceTable::new();
    upsert_device(
        &mut devices,
        ScannedDevice {
            name: Some("lower".into()),
            address: "68:f2:1f:0d:fe:42".into(),
            rssi: None,
            connected: false,
        },
    );
    upsert_device(
        &mut devices,
        ScannedDevice {
            name: Some("Bose QC Ultra 2 HP".into()),
            address: "68-F2-1F-0D-FE-42".into(),
            rssi: None,
            connected: true,
        },
    );

    assert_eq!(devices.len(), 1);
    let values = devices.values();
    let device = values.first().unwrap();
    assert_eq!(device.name.as_deref(), Some("Bose QC Ultra 2 HP"));
    assert!(device.connected);
}

#[test]
fn device_key_drops_separators_and_lowercases() {
    assert_eq!(device_key("68:F2-1F 0D:FE:42"), "68f21f0dfe42");
    assert_eq!(device_key(""), "");
    assert_eq!(device_key("ÄB"), "äb");
}

#[test]
fn disconnected_sighting_keeps_the_known_name() {
    let mut devices = DeviceTable::new();
    upsert_device(&mut devices, sighting(Some("First"), "AA:BB", Some(-40), true));
    upsert_device(&mut devices, sighting(Some("Second"), "aa-bb", None, false));
    let values = devices.into_values();
    assert_eq!(values.len(), 1);
    assert_eq!(values[0].name.as_deref(), Some("First"));
    assert_eq!(values[0].rssi, Some(-40));
    assert!(values[0].connected);
    assert_eq!(values[0].address, "AA:BB");
}

#[test]
fn devices_come_out_in_key_order() {
    let mut devices = DeviceTable::new();
    upsert_device(&mut devices, sighting(None, "CC:00", None, false));
    upsert_device(&mut devices, sighting(None, "aa:00", None, false));
    upsert_device(&mut devices, sighting(None, "BB:00", None, false));
    let addresses: Vec<String> = devices
        .values()
        .into_iter()
        .map(|d| d.address)
        .collect();
    assert_eq!(addresses, vec!["aa:00", "BB:00", "CC:00"]);
}

#[test]
fn parses_macos_known_devices_from_values() {
    let value = obj(vec![(
        "SPBluetoothDataType",
        JsonValue::Array(vec![obj(vec![
            (
                "device_connected",
                JsonValue::Array(vec![obj(vec![(
                    "Bose QC Ultra 2 HP",
                    obj(vec![
                        ("device_address", text("68:F2:1F:0D:FE:42")),
                        ("device_rssi", text("-42")),
                    ]),
                )])]),
            ),
            (
                "device_not_connected",
                JsonValue::Array(vec![obj(vec![(
                    "WH-1000XM3",
                    obj(vec![("device_address", text("38:18:4C:EA:0E:20"))]),
                )])]),
            ),
        ])]),
    )]);

    let devices = parse_macos_known_devices(&value);

    assert_eq!(devices.len(), 2);
    assert_eq!(devices[0].name.as_deref(), Some("Bose QC Ultra 2 HP"));
    assert_eq!(devices[0].address, "68:F2:1F:0D:FE:42");
    assert_eq!(devices[0].rssi, Some(-42));
    assert!(devices[0].connected);
    assert_eq!(devices[1].name.as_deref(), Some("WH-1000XM3"));
    assert_eq!(devices[1].address, "38:18:4C:EA:0E:20");
    assert!(!devices[1].connected);
}

#[test]
fn listing_skips_entries_without_an_address() {
    let value = obj(vec![(
        "SPBluetoothDataType",
        JsonValue::Array(vec![
            JsonValue::Null,
            obj(vec![(
                "device_not_connected",
                JsonValue::Array(vec![
                    text("not an object"),
                    obj(vec![
                        ("Empty", obj(vec![("device_address", text(""))])),
                        ("Numeric", obj(vec![("device_address", JsonValue::Integer(5))])),
                        (
                            "Kept",
                            obj(vec![
                                ("device_address", text("AA:BB")),
                                ("device_rssi", JsonValue::Integer(-70)),
                            ]),
                        ),
                    ]),
                ]),
            )]),
        ]),
    )]);
    let devices = parse_macos_known_devices(&value);
    assert_eq!(devices.len(), 1);
    assert_eq!(devices[0].name.as_deref(), Some("Kept"));
    assert_eq!(devices[0].rssi, Some(-70));
    assert!(!devices[0].connected);
    assert!(parse_macos_known_devices(&JsonValue::Array(vec![])).is_empty());
}

#[test]
fn rssi_reads_integers_and_numeric_text_within_range() {
    let props = |v: JsonValue| obj(vec![("device_rssi", v)]);
    assert_eq!(parse_macos_device_rssi(&props(JsonValue::Integer(-42))), Some(-42));
    assert_eq!(parse_macos_device_rssi(&props(JsonValue::Integer(40000))), None);
    assert_eq!(parse_macos_device_rssi(&props(text("+12"))), Some(12));
    assert_eq!(parse_macos_device_rssi(&props(text("-32768"))), Some(-32768));
    assert_eq!(parse_macos_device_rssi(&props(text("32768"))), None);
    assert_eq!(parse_macos_device_rssi(&props(text("-"))), None);
    assert_eq!(parse_macos_device_rssi(&props(text(" 5"))), None);
    assert_eq!(parse_macos_device_rssi(&props(JsonValue::OtherNumber)), None);
    assert_eq!(parse_macos_device_rssi(&obj(vec![])), None);
}

#[test]
fn failed_scans_fall_back_to_known_devices() {
    let empty = DeviceTable::new();
    assert_eq!(known_or_error(empty, "no manager".into()).unwrap_err(), "no manager");
    let mut known = DeviceTable::new();
    upsert_device(&mut known, sighting(Some("A"), "AA:BB", None, true));
    let devices = known_or_error(known, "no manager".into()).unwrap();
    assert_eq!(devices.len(), 1);
    assert_eq!(devices[0].name.as_deref(), Some("A"));
}

#[test]
fn scan_start_failure_lists_every_adapter_error() {
    let err = scan_start_failure(
        DeviceTable::new(),
        &vec!["hci0 busy".to_string(), "hci1 off".to_string()],
    )
    .unwrap_err();
    assert_eq!(err, "failed to start Bluetooth scans: hci0 busy; hci1 off");
    let err = scan_start_failure(DeviceTable::new(), &vec![]).unwrap_err();
    assert_eq!(err, "failed to start Bluetooth scans: ");
    let mut known = DeviceTable::new();
    upsert_device(&mut known, sighting(None, "AA:BB", None, false));
    assert_eq!(scan_start_failure(known, &vec![]).unwrap().len(), 1);
}

#[test]
fn parses_macos_known_devices() {
    let value = r#"{
        "SPBluetoothDataType": [
            {
                "device_connected": [
                    {
                        "Bose QC Ultra 2 HP": {
                            "device_address": "68:F2:1F:0D:FE:42",
                            "device_rssi": "-42"
                        }
                    }
                ],
                "device_not_connected": [
                    {
                        "WH-1000XM3": {
                            "device_address": "38:18:4C:EA:0E:20"
                        }
                    }
                ]
            }
        ]
    }"#;

    let devices = parse_macos_listing(value.as_bytes()).unwrap();

    assert_eq!(devices.len(), 2);
    assert_eq!(devices[0].name.as_deref(), Some("Bose QC Ultra 2 HP"));
    assert_eq!(devices[0].address, "68:F2:1F:0D:FE:42");
    assert_eq!(devices[0].rssi, Some(-42));
    assert!(devices[0].connected);
    assert_eq!(devices[1].name.as_deref(), Some("WH-1000XM3"));
    assert_eq!(devices[1].address, "38:18:4C:EA:0E:20");
    assert!(!devices[1].connected);
}

#[test]
fn listing_reads_numbers_and_rejects_bad_json() {
    let value = br#"{"SPBluetoothDataType": [{"device_connected": [{"B": {"device_address": "AA", "device_rssi": -7}, "A": {"device_address": "BB", "device_rssi": 1.5}}]}]}"#;
    let devices = parse_macos_listing(value).unwrap();
    assert_eq!(devices.len(), 2);
    assert_eq!(devices[0].name.as_deref(), Some("A"));
    assert_eq!(devices[0].rssi, None);
    assert_eq!(devices[1].name.as_deref(), Some("B"));
    assert_eq!(devices[1].rssi, Some(-7));
    let err = parse_macos_listing(b"not json").unwrap_err();
    assert!(err.starts_with("parse system_profiler Bluetooth JSON: "));
}
