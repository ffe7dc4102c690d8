use bose_cli::bluetooth::ScannedDevice;
use bose_cli::domain::ModelId;
use bose_cli::fzf::{
    device_line, picked_index, picked_reference, picker_input, sanitize_cell, PickError,
};

fn scanned(name: Option<&str>, address: &str, rssi: Option<i16>, connected: bool) -> ScannedDevice {
    ScannedDevice {
        name: name.map(|n| n.to_string()),
        address: address.to_string(),
        rssi,
        connected,
    }
}

#[test]
fn sanitize_replaces_tabs_and_line_breaks() {
    assert_eq!(sanitize_cell("a\tb\nc\rd"), "a b c d");
    assert_eq!(sanitize_cell("plain"), "plain");
}

#[test]
fn picker_rows_carry_index_and_cells() {
    let devices = vec![
        scanned(Some("Bose QC Ultra 2 HP"), "AA:BB", Some(-42), true),
        scanned(None, "CC:DD", None, false),
        scanned(Some("Odd\tName"), "EE:FF", Some(7), false),
    ];
    assert_eq!(
        picker_input(&devices),
        "0\tBose QC Ultra 2 HP\tAA:BB\tqc-ultra-headphones-2\t-42\tconnected\n\
         1\t<unknown>\tCC:DD\tunknown-model\t<n/a>\tdiscovered\n\
         2\tOdd Name\tEE:FF\tunknown-model\t7\tdiscovered"
    );
    assert_eq!(picker_input(&Vec::new()), "");
}

#[test]
fn device_line_lists_a_scanned_device() {
    let d = scanned(Some("Bose QuietComfort 45"), "AA:BB", None, false);
    assert_eq!(
        device_line(&d),
        "Bose QuietComfort 45\tAA:BB\tquietcomfort-45\t<n/a>\tdiscovered"
    );
}

#[test]
fn picked_index_reads_the_first_field() {
    assert_eq!(picked_index("1\tname\tAA:BB\n", 3), Ok(1));
    assert_eq!(picked_index("+2\tx", 3), Ok(2));
    assert_eq!(picked_index("3\tx", 3), Err(PickError::OutOfRange));
    assert_eq!(picked_index("x\t1", 3), Err(PickError::InvalidIndex));
    assert_eq!(picked_index("", 3), Err(PickError::InvalidIndex));
    assert_eq!(
        picked_index("99999999999999999999999\t", 3),
        Err(PickError::InvalidIndex)
    );
    assert_eq!(
        PickError::OutOfRange.message(),
        "fzf selected a device index outside the scanned list"
    );
}

#[test]
fn picked_reference_infers_the_model_from_the_name() {
    let d = scanned(Some("Bose QC Ultra 2 HP"), "AA:BB", Some(-1), true);
    let r = picked_reference(&d);
    assert_eq!(r.address, "AA:BB");
    assert_eq!(r.name.as_deref(), Some("Bose QC Ultra 2 HP"));
    assert_eq!(r.model, Some(ModelId::QcUltraHeadphones2));
    let unnamed = picked_reference(&scanned(None, "CC:DD", None, false));
    assert_eq!(unnamed.model, None);
}
