use std::cell::{Cell, RefCell};

use bose_cli::bluetooth::ScannedDevice;
use bose_cli::config::ConfigFile;
use bose_cli::domain::{DeviceRef, ImmersiveAudio};
use bose_cli::tui::page::{device_item, mode_item, Body, Page, Styled, Tone};
use bose_cli::tui::{help_text, screen_label, App, Key, KeyCode, Screen, TuiDevice};

fn config_with_device() -> ConfigFile {
    let mut config = ConfigFile::default();
    config.selected_device = Some(DeviceRef {
        address: "AA:BB".into(),
        name: Some("Headphones".into()),
        model: None,
    });
    config
}

fn headphones(rssi: Option<i16>, connected: bool) -> ScannedDevice {
    ScannedDevice {
        name: Some("Headphones".into()),
        address: "AA:BB".into(),
        rssi,
        connected,
    }
}

fn key(code: KeyCode) -> Key {
    Key {
        code,
        control: false,
    }
}

/// A stand-in for the config file on disk.
struct Disk {
    saved: RefCell<Option<ConfigFile>>,
}

impl Disk {
    fn new() -> Disk {
        Disk {
            saved: RefCell::new(None),
        }
    }

    fn store(&self, c: &ConfigFile) -> Result<(), String> {
        *self.saved.borrow_mut() = Some(c.clone());
        Ok(())
    }

    fn load(&self) -> ConfigFile {
        self.saved.borrow().as_ref().unwrap().clone()
    }
}

#[test]
fn saves_device_selection_and_moves_to_actions() {
    let disk = Disk::new();
    let mut app = App::new(
        ConfigFile::default(),
        vec![headphones(Some(-42), false)],
        None,
        |c: &ConfigFile| disk.store(c),
        |_: &ConfigFile| -> Result<(), String> { Ok(()) },
    );
    app.enter();
    assert!(matches!(app.screen, Screen::Actions));
    assert_eq!(
        app.config.selected_device.as_ref().unwrap().address,
        "AA:BB"
    );
    assert_eq!(app.devices[0].reference.display(), "Headphones (AA:BB)");
    assert_eq!(app.devices[0].rssi, Some(-42));
    assert_eq!(
        disk.load().selected_device.unwrap().address,
        "AA:BB".to_string()
    );
}

#[test]
fn device_selection_does_not_advance_when_save_fails() {
    let mut app = App::new(
        ConfigFile::default(),
        vec![headphones(None, false)],
        None,
        |_: &ConfigFile| -> Result<(), String> { Err("file blocks directory creation".into()) },
        |_: &ConfigFile| -> Result<(), String> { Ok(()) },
    );

    app.enter();

    assert!(matches!(app.screen, Screen::Devices));
    assert!(app.config.selected_device.is_none());
    assert!(app.message.starts_with("Save failed:"));
}

#[test]
fn ctrl_c_quits() {
    let mut app = App::new(
        ConfigFile::default(),
        vec![],
        None,
        |_: &ConfigFile| -> Result<(), String> { Ok(()) },
        |_: &ConfigFile| -> Result<(), String> { Ok(()) },
    );

    assert!(app.on_key(Key {
        code: KeyCode::Char('c'),
        control: true,
    }));
}

#[test]
fn noise_change_saves_and_clears_diverging_active_mode() {
    let calls = Cell::new(0u32);
    let disk = Disk::new();
    let mut app = App::new(
        config_with_device(),
        vec![],
        None,
        |c: &ConfigFile| disk.store(c),
        |_: &ConfigFile| -> Result<(), String> {
            calls.set(calls.get() + 1);
            Ok(())
        },
    );
    app.screen = Screen::Noise;

    app.adjust_noise(false);

    assert_eq!(app.config.noise.level, 9);
    assert_eq!(app.config.active_mode, None);
    assert_eq!(calls.get(), 1);
    assert!(app.message.contains("synced headphones"));
    assert_eq!(disk.load().noise.level, 9);
}

#[test]
fn mode_selection_saves_and_syncs_headphones() {
    let calls = Cell::new(0u32);
    let mut app = App::new(
        config_with_device(),
        vec![],
        None,
        |_: &ConfigFile| -> Result<(), String> { Ok(()) },
        |_: &ConfigFile| -> Result<(), String> {
            calls.set(calls.get() + 1);
            Ok(())
        },
    );
    app.screen = Screen::Modes;
    app.selected = 0;

    app.enter();

    assert_eq!(app.config.active_mode.as_deref(), Some("Quiet"));
    assert_eq!(calls.get(), 1);
    assert!(app.message.contains("synced headphones"));
}

#[test]
fn mode_selection_moves_without_applying_until_enter() {
    let calls = Cell::new(0u32);
    let mut app = App::new(
        config_with_device(),
        vec![],
        None,
        |_: &ConfigFile| -> Result<(), String> { Ok(()) },
        |_: &ConfigFile| -> Result<(), String> {
            calls.set(calls.get() + 1);
            Ok(())
        },
    );
    app.screen = Screen::Modes;
    app.selected = 0;

    app.down();

    assert_eq!(app.selected, 1);
    assert_eq!(app.config.active_mode.as_deref(), Some("Quiet"));
    assert_eq!(app.config.noise.level, 10);
    assert_eq!(calls.get(), 0);

    app.enter();

    assert_eq!(app.config.active_mode.as_deref(), Some("Aware"));
    assert_eq!(app.config.noise.level, 0);
    assert_eq!(calls.get(), 1);
    assert!(app.message.contains("synced headphones"));
}

#[test]
fn immersive_selection_moves_without_applying_until_enter() {
    let calls = Cell::new(0u32);
    let mut app = App::new(
        config_with_device(),
        vec![],
        None,
        |_: &ConfigFile| -> Result<(), String> { Ok(()) },
        |_: &ConfigFile| -> Result<(), String> {
            calls.set(calls.get() + 1);
            Ok(())
        },
    );
    app.screen = Screen::Immersive;
    app.selected = 0;

    app.down();

    assert_eq!(app.selected, 1);
    assert_eq!(app.config.immersive, ImmersiveAudio::Off);
    assert_eq!(app.config.active_mode.as_deref(), Some("Quiet"));
    assert_eq!(calls.get(), 0);

    app.enter();

    assert_eq!(app.config.immersive, ImmersiveAudio::Still);
    assert_eq!(app.config.active_mode.as_deref(), Some("Cinema"));
    assert_eq!(calls.get(), 1);
    assert!(app.message.contains("synced headphones"));
}

#[test]
fn mode_selection_rolls_back_when_sync_fails() {
    let calls = Cell::new(0u32);
    let disk = Disk::new();
    let mut app = App::new(
        config_with_device(),
        vec![],
        None,
        |c: &ConfigFile| disk.store(c),
        |_: &ConfigFile| -> Result<(), String> {
            let call = calls.get();
            calls.set(call + 1);
            if call == 0 {
                Err("mode sync failed".into())
            } else {
                Ok(())
            }
        },
    );
    app.screen = Screen::Modes;
    app.selected = 1;

    app.enter();

    let saved = disk.load();
    assert_eq!(app.config.active_mode.as_deref(), Some("Quiet"));
    assert_eq!(app.config.noise.level, 10);
    assert_eq!(app.selected, 0);
    assert_eq!(saved.active_mode.as_deref(), Some("Quiet"));
    assert_eq!(saved.noise.level, 10);
    assert_eq!(calls.get(), 2);
    assert!(app.message.contains("rolled back"));
}

#[test]
fn noise_change_rolls_back_when_sync_fails() {
    let calls = Cell::new(0u32);
    let disk = Disk::new();
    let mut app = App::new(
        config_with_device(),
        vec![],
        None,
        |c: &ConfigFile| disk.store(c),
        |_: &ConfigFile| -> Result<(), String> {
            let call = calls.get();
            calls.set(call + 1);
            if call == 0 {
                Err("noise sync failed".into())
            } else {
                Ok(())
            }
        },
    );
    app.screen = Screen::Noise;

    app.adjust_noise(false);

    let saved = disk.load();
    assert_eq!(app.config.noise.level, 10);
    assert_eq!(app.noise_level, 10);
    assert_eq!(saved.noise.level, 10);
    assert_eq!(calls.get(), 2);
    assert!(app.message.contains("rolled back"));
}

#[test]
fn no_selected_device_saves_tui_change_locally_without_sync() {
    let calls = Cell::new(0u32);
    let disk = Disk::new();
    let mut app = App::new(
        ConfigFile::default(),
        vec![],
        None,
        |c: &ConfigFile| disk.store(c),
        |_: &ConfigFile| -> Result<(), String> {
            calls.set(calls.get() + 1);
            Ok(())
        },
    );
    app.screen = Screen::Noise;

    app.adjust_noise(false);

    let saved = disk.load();
    assert_eq!(app.config.noise.level, 9);
    assert_eq!(app.noise_level, 9);
    assert_eq!(app.config.active_mode, None);
    assert_eq!(saved.noise.level, 9);
    assert_eq!(calls.get(), 0);
    assert!(app.message.contains("saved locally"));
}

#[test]
fn scanned_device_merges_into_the_saved_row() {
    let app = App::new(
        config_with_device(),
        vec![
            headphones(Some(-42), true),
            ScannedDevice {
                name: None,
                address: "CC:DD".into(),
                rssi: None,
                connected: false,
            },
        ],
        None,
        |_: &ConfigFile| -> Result<(), String> { Ok(()) },
        |_: &ConfigFile| -> Result<(), String> { Ok(()) },
    );
    assert_eq!(app.devices.len(), 2);
    assert!(app.devices[0].saved);
    assert!(app.devices[0].scanned);
    assert_eq!(app.devices[0].rssi, Some(-42));
    assert_eq!(app.devices[0].connected, Some(true));
    assert!(!app.devices[1].saved);
    assert_eq!(app.scan_status, "Found 2 Bluetooth device(s).");
    assert_eq!(app.message, app.scan_status);
}

#[test]
fn empty_scan_reports_no_devices() {
    let mut app = App::new(
        ConfigFile::default(),
        vec![],
        None,
        |_: &ConfigFile| -> Result<(), String> { Ok(()) },
        |_: &ConfigFile| -> Result<(), String> { Ok(()) },
    );
    assert_eq!(
        app.scan_status,
        "No Bluetooth devices found; select a saved device or quit."
    );
    assert_eq!(app.current_items_len(), 1);
    app.enter();
    assert_eq!(app.message, "No devices available; scan again or quit.");
    assert!(matches!(app.screen, Screen::Devices));
}

fn config_with_qc_ultra_2() -> ConfigFile {
    let mut config = ConfigFile::default();
    config.selected_device = Some(DeviceRef {
        address: "AA:BB".into(),
        name: Some("Bose QC Ultra 2 HP".into()),
        model: None,
    });
    config
}

#[test]
fn unwritable_model_cannot_open_configuration_screens() {
    let mut app = App::new(
        config_with_device(),
        vec![],
        None,
        |_: &ConfigFile| -> Result<(), String> { Ok(()) },
        |_: &ConfigFile| -> Result<(), String> { Ok(()) },
    );
    app.screen = Screen::Actions;
    app.selected = 1;
    app.enter();
    assert_eq!(app.screen, Screen::Actions);
    assert_eq!(
        app.message,
        "unknown Bose model for selected device Headphones (AA:BB); refusing to send configuration writes"
    );
    app.selected = 3;
    app.enter();
    assert_eq!(app.screen, Screen::Connections);
}

#[test]
fn navigation_keys_move_between_screens() {
    let mut app = App::new(
        config_with_qc_ultra_2(),
        vec![],
        Some("scan skipped".into()),
        |_: &ConfigFile| -> Result<(), String> { Ok(()) },
        |_: &ConfigFile| -> Result<(), String> { Ok(()) },
    );
    assert_eq!(app.scan_status, "scan skipped");
    assert!(!app.on_key(key(KeyCode::Enter)));
    assert_eq!(app.screen, Screen::Actions);
    assert!(!app.on_key(key(KeyCode::Char('j'))));
    assert!(!app.on_key(key(KeyCode::Down)));
    assert!(!app.on_key(key(KeyCode::Down)));
    assert!(!app.on_key(key(KeyCode::Down)));
    assert_eq!(app.selected, 3);
    assert!(!app.on_key(key(KeyCode::Up)));
    assert!(!app.on_key(key(KeyCode::Enter)));
    assert_eq!(app.screen, Screen::Immersive);
    assert!(!app.on_key(key(KeyCode::Esc)));
    assert_eq!(app.screen, Screen::Actions);
    assert!(!app.on_key(key(KeyCode::Backspace)));
    assert_eq!(app.screen, Screen::Devices);
    assert!(app.on_key(key(KeyCode::Char('q'))));
}

#[test]
fn noise_level_stays_within_bounds() {
    let mut app = App::new(
        config_with_device(),
        vec![],
        None,
        |_: &ConfigFile| -> Result<(), String> { Ok(()) },
        |_: &ConfigFile| -> Result<(), String> { Ok(()) },
    );
    app.screen = Screen::Noise;
    app.adjust_noise(true);
    assert_eq!(app.config.noise.level, 10);
    app.on_key(key(KeyCode::Char(' ')));
    assert!(!app.config.noise.enabled);
    assert!(app.message.starts_with("Saved noise: enabled=false level=10"));
}

#[test]
fn labels_and_help_follow_the_screen() {
    assert_eq!(screen_label(Screen::Connections), "connections");
    assert!(help_text(Screen::Noise).contains("space toggle"));
    assert!(help_text(Screen::Modes).contains("apply/reapply"));
}

fn line_text(line: &[Styled]) -> String {
    line.iter().map(|s| s.text.as_str()).collect()
}

fn page_text(page: &Page) -> String {
    let mut lines = vec![line_text(&page.header)];
    match &page.body {
        Body::List { items, empty, .. } => {
            if items.is_empty() {
                lines.push(empty.clone());
            }
            lines.extend(items.iter().map(|l| line_text(l)));
        }
        Body::Text { lines: body } => lines.extend(body.iter().map(|l| line_text(l))),
        Body::Connections {
            summary, items, ..
        } => {
            lines.extend(summary.iter().map(|l| line_text(l)));
            lines.extend(items.iter().map(|l| line_text(l)));
        }
    }
    lines.push(line_text(&page.status));
    lines.push(page.help.clone());
    lines.join("\n")
}

#[test]
fn renders_with_test_backend() {
    let mut config = ConfigFile::default();
    config.selected_device = Some(DeviceRef {
        address: "AA:BB".into(),
        name: Some("Headphones".into()),
        model: None,
    });
    let app = App::new(
        config,
        vec![headphones(Some(-42), true)],
        None,
        |_: &ConfigFile| -> Result<(), String> { Ok(()) },
        |_: &ConfigFile| -> Result<(), String> { Ok(()) },
    );
    let rendered = page_text(&app.page());

    assert!(rendered.contains("bose"));
    assert!(rendered.contains("devices"));
    assert!(rendered.contains("Headphones"));
    assert!(rendered.contains("saved"));
    assert!(!rendered.contains('┌'));
    assert!(!rendered.contains('│'));
    assert!(!rendered.contains('─'));
}

#[test]
fn device_rows_list_what_is_known() {
    let row = TuiDevice {
        reference: DeviceRef {
            address: "AA:BB".into(),
            name: None,
            model: None,
        },
        rssi: Some(-42),
        connected: Some(false),
        saved: true,
        scanned: true,
    };
    let line = device_item(&row);
    assert_eq!(line.len(), 2);
    assert_eq!(line[0].text, "<unknown>");
    assert_eq!(line[0].tone, Tone::Bold);
    assert_eq!(line[1].text, "  saved · scanned · discovered · -42 dBm");
    assert_eq!(line[1].tone, Tone::Dim);
    let bare = TuiDevice {
        reference: DeviceRef {
            address: "CC:DD".into(),
            name: Some("X".into()),
            model: None,
        },
        rssi: None,
        connected: None,
        saved: false,
        scanned: false,
    };
    assert_eq!(device_item(&bare).len(), 1);
}

#[test]
fn mode_rows_mark_the_active_mode() {
    let modes = bose_cli::domain::builtin_modes();
    let active = mode_item(&modes[3], true);
    assert_eq!(active[0].tone, Tone::Accent);
    assert_eq!(active[1].text, "  noise on 10 · immersive Still · active");
    let inactive = mode_item(&modes[1], false);
    assert_eq!(inactive[0].tone, Tone::Bold);
    assert_eq!(inactive[1].text, "  noise on 0 · immersive Off");
}

#[test]
fn screens_show_their_bodies() {
    let mut app = App::new(
        config_with_device(),
        vec![],
        Some("nothing scanned".into()),
        |_: &ConfigFile| -> Result<(), String> { Ok(()) },
        |_: &ConfigFile| -> Result<(), String> { Ok(()) },
    );
    app.screen = Screen::Modes;
    app.selected = 9;
    match app.page().body {
        Body::List {
            items, highlight, ..
        } => {
            assert_eq!(items.len(), 4);
            assert_eq!(highlight, 3);
            assert_eq!(items[0][0].tone, Tone::Accent);
        }
        other => panic!("unexpected body {other:?}"),
    }
    app.screen = Screen::Noise;
    let text = page_text(&app.page());
    assert!(text.contains("level  10/10"));
    assert!(text.contains("enabled  on"));
    app.screen = Screen::Immersive;
    match app.page().body {
        Body::List { items, .. } => {
            assert_eq!(line_text(&items[0]), "Off  active");
            assert_eq!(line_text(&items[2]), "Motion");
        }
        other => panic!("unexpected body {other:?}"),
    }
    app.screen = Screen::Connections;
    let text = page_text(&app.page());
    assert!(text.contains("selected  Headphones (AA:BB)"));
    assert!(text.contains("scan  nothing scanned"));
    let page = app.page();
    assert_eq!(line_text(&page.header), "bose  > connections");
    assert_eq!(line_text(&page.status), "status  nothing scanned");
}

#[test]
fn key_presses_keep_the_config_loadable() {
    let calls = Cell::new(0u32);
    let mut app = App::new(
        config_with_qc_ultra_2(),
        vec![],
        None,
        |_: &ConfigFile| -> Result<(), String> { Ok(()) },
        |_: &ConfigFile| -> Result<(), String> {
            let call = calls.get();
            calls.set(call + 1);
            if call % 3 == 0 {
                Err("flaky link".into())
            } else {
                Ok(())
            }
        },
    );
    let keys = [
        KeyCode::Enter,
        KeyCode::Enter,
        KeyCode::Down,
        KeyCode::Enter,
        KeyCode::Esc,
        KeyCode::Down,
        KeyCode::Enter,
        KeyCode::Left,
        KeyCode::Char(' '),
        KeyCode::Right,
        KeyCode::Esc,
        KeyCode::Down,
        KeyCode::Enter,
        KeyCode::Down,
        KeyCode::Enter,
        KeyCode::Other,
    ];
    for code in keys {
        assert!(!app.on_key(key(code)));
        assert!(app.config.validate().is_ok());
    }
}
