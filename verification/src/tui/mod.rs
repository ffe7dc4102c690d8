//! The interactive UI's state: screens, selection, the device list, and the
//! save-then-sync step behind every change, with rollback when a sync fails.
use vstd::prelude::*;
use crate::bluetooth::{ScannedDevice, ScannedView};
use crate::config::{
    ConfigFile, ConfigView, all_mode_views, first_named_index, first_with_audio, has_named,
    lemma_first_named_index, lemma_mode_views, position_named,
};
use crate::domain::{
    DeviceRef, DeviceView, ImmersiveAudio, NoiseControl, bool_text, immersive_text, mode_views,
};
use crate::models::{ensure_selected_device_supports_config, model_error_text, supports_config_spec};
use crate::text::{decimal, eq_ignore_case, push_decimal};

pub mod page;

verus! {

/// The screens of the UI.
#[derive(Debug, Clone, Copy, PartialEq, Eq, Structural)]
pub enum Screen {
    Devices,
    Actions,
    Modes,
    Noise,
    Immersive,
    Connections,
}

/// A key press, as the UI reads it.
#[derive(Debug, Clone, Copy, PartialEq, Eq, Structural)]
pub enum KeyCode {
    Char(char),
    Esc,
    Backspace,
    Up,
    Down,
    Left,
    Right,
    Enter,
    Other,
}

#[derive(Debug, Clone, Copy, PartialEq, Eq, Structural)]
pub struct Key {
    pub code: KeyCode,
    pub control: bool,
}

/// A device row: the saved selection, a scanned device, or both merged.
#[derive(Debug)]
pub struct TuiDevice {
    pub reference: DeviceRef,
    pub rssi: Option<i16>,
    pub connected: Option<bool>,
    pub saved: bool,
    pub scanned: bool,
}

pub struct TuiDeviceView {
    pub reference: DeviceView,
    pub rssi: Option<i16>,
    pub connected: Option<bool>,
    pub saved: bool,
    pub scanned: bool,
}

impl View for TuiDevice {
    type V = TuiDeviceView;

    open spec fn view(&self) -> TuiDeviceView {
        TuiDeviceView {
            reference: self.reference@,
            rssi: self.rssi,
            connected: self.connected,
            saved: self.saved,
            scanned: self.scanned,
        }
    }
}

impl Clone for TuiDevice {
    fn clone(&self) -> (r: Self)
        ensures
            r == *self,
    {
        TuiDevice {
            reference: self.reference.clone(),
            rssi: self.rssi,
            connected: self.connected,
            saved: self.saved,
            scanned: self.scanned,
        }
    }
}

/// A scanned device as a row.
pub open spec fn scanned_row(d: ScannedView) -> TuiDeviceView {
    TuiDeviceView {
        reference: DeviceView { address: d.address, name: d.name, model: None },
        rssi: d.rssi,
        connected: Some(d.connected),
        saved: false,
        scanned: true,
    }
}

/// A saved row seen again by a scan: its name is kept when it has one.
pub open spec fn merged_row(row: TuiDeviceView, d: ScannedView) -> TuiDeviceView {
    TuiDeviceView {
        reference: DeviceView {
            name: if row.reference.name is Some {
                row.reference.name
            } else {
                d.name
            },
            ..row.reference
        },
        rssi: d.rssi,
        connected: Some(d.connected),
        scanned: true,
        ..row
    }
}

pub open spec fn row_views(rows: Seq<TuiDevice>) -> Seq<TuiDeviceView> {
    rows.map_values(|r: TuiDevice| r@)
}

/// Adding a scanned device to the rows: merged into the first row with its
/// address, else appended.
pub open spec fn merge_rows(rows: Seq<TuiDeviceView>, d: ScannedView) -> Seq<TuiDeviceView>
    decreases rows.len(),
{
    if rows.len() == 0 {
        seq![scanned_row(d)]
    } else if rows[0].reference.address == d.address {
        seq![merged_row(rows[0], d)] + rows.drop_first()
    } else {
        seq![rows[0]] + merge_rows(rows.drop_first(), d)
    }
}

/// Adding scanned devices in order.
pub open spec fn fold_scans(rows: Seq<TuiDeviceView>, scans: Seq<ScannedView>) -> Seq<
    TuiDeviceView,
>
    decreases scans.len(),
{
    if scans.len() == 0 {
        rows
    } else {
        fold_scans(merge_rows(rows, scans[0]), scans.drop_first())
    }
}

pub open spec fn scan_views(ds: Seq<ScannedDevice>) -> Seq<ScannedView> {
    ds.map_values(|d: ScannedDevice| d@)
}

/// The rows of a new UI: the saved device, then the scanned ones.
pub open spec fn initial_rows(c: ConfigView, scans: Seq<ScannedView>) -> Seq<TuiDeviceView> {
    let start = match c.selected_device {
        Some(d) => seq![
            TuiDeviceView { reference: d, rssi: None, connected: None, saved: true, scanned: false },
        ],
        None => Seq::empty(),
    };
    fold_scans(start, scans)
}

proof fn lemma_row_views(rows: Seq<TuiDevice>)
    ensures
        row_views(rows).len() == rows.len(),
        forall|i: int| 0 <= i < rows.len() ==> #[trigger] row_views(rows)[i] == rows[i]@,
{
}

fn merge_into_rows(devices: &mut Vec<TuiDevice>, device: ScannedDevice)
    ensures
        row_views(final(devices)@) == merge_rows(row_views(old(devices)@), device@),
{
    let ghost t = row_views(devices@);
    let ghost dv = device@;
    let n = devices.len();
    let mut k: usize = 0;
    proof {
        lemma_row_views(devices@);
        assert(t.skip(0) =~= t);
        assert(t.take(0) =~= Seq::<TuiDeviceView>::empty());
    }
    while k < n && !(devices[k].reference.address == device.address)
        invariant
            n == devices@.len(),
            k <= n,
            t == row_views(devices@),
            devices@ == old(devices)@,
            dv == device@,
            merge_rows(t, dv) == t.take(k as int) + merge_rows(t.skip(k as int), dv),
        decreases n - k,
    {
        proof {
            lemma_row_views(devices@);
            let s = t.skip(k as int);
            assert(s[0] == t[k as int]);
            assert(s[0].reference.address != dv.address);
            assert(s.drop_first() =~= t.skip(k + 1));
            assert(merge_rows(s, dv) == seq![s[0]] + merge_rows(t.skip(k + 1), dv));
            assert(t.take(k + 1) =~= t.take(k as int) + seq![s[0]]);
            assert(t.take(k as int) + (seq![s[0]] + merge_rows(t.skip(k + 1), dv)) =~= t.take(k + 1)
                + merge_rows(t.skip(k + 1), dv));
        }
        k = k + 1;
    }
    proof {
        lemma_row_views(devices@);
    }
    let ghost s = t.skip(k as int);
    if k < n {
        assert(s[0] == t[k as int]);
        let mut row = devices.remove(k);
        row.merge_scan(device);
        let ghost rv = row@;
        devices.insert(k, row);
        proof {
            lemma_row_views(devices@);
            assert(row_views(devices@) =~= t.take(k as int) + (seq![rv] + s.drop_first()));
        }
    } else {
        let row = TuiDevice::scanned(device);
        let ghost rv = row@;
        devices.push(row);
        proof {
            lemma_row_views(devices@);
            assert(s.len() == 0);
            assert(row_views(devices@) =~= t.take(k as int) + seq![rv]);
        }
    }
}

impl TuiDevice {
    pub fn saved(reference: DeviceRef) -> (r: TuiDevice)
        ensures
            r == (TuiDevice { reference, rssi: None, connected: None, saved: true, scanned: false }),
    {
        TuiDevice { reference, rssi: None, connected: None, saved: true, scanned: false }
    }

    pub fn scanned(device: ScannedDevice) -> (r: TuiDevice)
        ensures
            r@ == scanned_row(device@),
    {
        TuiDevice {
            reference: DeviceRef { address: device.address, name: device.name, model: None },
            rssi: device.rssi,
            connected: Some(device.connected),
            saved: false,
            scanned: true,
        }
    }

    pub fn merge_scan(&mut self, device: ScannedDevice)
        ensures
            final(self)@ == merged_row(old(self)@, device@),
    {
        if self.reference.name.is_none() {
            self.reference.name = device.name;
        }
        self.rssi = device.rssi;
        self.connected = Some(device.connected);
        self.scanned = true;
    }
}

pub open spec fn screen_text(screen: Screen) -> Seq<char> {
    match screen {
        Screen::Devices => "devices"@,
        Screen::Actions => "actions"@,
        Screen::Modes => "modes"@,
        Screen::Noise => "noise"@,
        Screen::Immersive => "immersive"@,
        Screen::Connections => "connections"@,
    }
}

/// The screen's name in the header.
pub fn screen_label(screen: Screen) -> (r: &'static str)
    ensures
        r@ == screen_text(screen),
{
    match screen {
        Screen::Devices => "devices",
        Screen::Actions => "actions",
        Screen::Modes => "modes",
        Screen::Noise => "noise",
        Screen::Immersive => "immersive",
        Screen::Connections => "connections",
    }
}

pub open spec fn help_for(screen: Screen) -> Seq<char> {
    match screen {
        Screen::Noise => "↑↓/jk move  space toggle  ←→ or -/+ adjust  esc/backspace back  q/Ctrl-C quit"@,
        Screen::Modes | Screen::Immersive =>
            "↑↓/jk move  enter apply/reapply  esc/backspace back  q/Ctrl-C quit"@,
        _ => "↑↓/jk move  enter open/apply  esc/backspace back  q/Ctrl-C quit"@,
    }
}

/// The key help shown in the footer.
pub fn help_text(screen: Screen) -> (r: &'static str)
    ensures
        r@ == help_for(screen),
{
    match screen {
        Screen::Noise => "↑↓/jk move  space toggle  ←→ or -/+ adjust  esc/backspace back  q/Ctrl-C quit",
        Screen::Modes | Screen::Immersive => "↑↓/jk move  enter apply/reapply  esc/backspace back  q/Ctrl-C quit",
        _ => "↑↓/jk move  enter open/apply  esc/backspace back  q/Ctrl-C quit",
    }
}

/// The UI state. `save` writes the configuration to disk and
/// `sync_headphones` sends it to the headset.
pub struct App<Sv, Sy> {
    pub config: ConfigFile,
    pub devices: Vec<TuiDevice>,
    pub screen: Screen,
    pub selected: usize,
    pub message: String,
    pub saved: bool,
    pub noise_level: u8,
    pub noise_enabled: bool,
    pub scan_status: String,
    pub save: Sv,
    pub sync_headphones: Sy,
}

pub open spec fn immersive_index(v: ImmersiveAudio) -> usize {
    match v {
        ImmersiveAudio::Off => 0,
        ImmersiveAudio::Still => 1,
        ImmersiveAudio::Motion => 2,
    }
}

/// The row that shows the configuration's current choice on a screen.
pub open spec fn selection_for(c: ConfigView, screen: Screen, selected: usize) -> usize {
    match screen {
        Screen::Modes => match c.active_mode {
            Some(a) => if has_named(all_mode_views(c), a) {
                first_named_index(all_mode_views(c), a) as usize
            } else {
                0
            },
            None => 0,
        },
        Screen::Immersive => immersive_index(c.immersive),
        _ => selected,
    }
}

/// How many rows a screen has.
pub open spec fn items_len<Sv, Sy>(a: App<Sv, Sy>) -> int {
    match a.screen {
        Screen::Devices => if a.devices@.len() > 1 {
            a.devices@.len() as int
        } else {
            1
        },
        Screen::Actions => 4,
        Screen::Modes => all_mode_views(a.config@).len() as int,
        Screen::Noise => 1,
        Screen::Immersive => 3,
        Screen::Connections => 1,
    }
}

/// Everything but the configuration, the controls, the selection and the status line.
pub open spec fn same_frame<Sv, Sy>(a: App<Sv, Sy>, b: App<Sv, Sy>) -> bool {
    &&& a.devices == b.devices
    &&& a.screen == b.screen
    &&& a.scan_status == b.scan_status
    &&& a.save == b.save
    &&& a.sync_headphones == b.sync_headphones
}

/// `a` after its controls are reset from its configuration.
pub open spec fn controls_match<Sv, Sy>(a: App<Sv, Sy>) -> bool {
    a.noise_enabled == a.config.noise.enabled && a.noise_level == a.config.noise.level
}

pub open spec fn rollback_text(
    err: Seq<char>,
    save: Result<(), Seq<char>>,
    sync: Result<(), Seq<char>>,
) -> Seq<char> {
    match (save, sync) {
        (Ok(()), Ok(())) => "Sync failed: "@ + err + "; rolled back to previous settings."@,
        (Ok(()), Err(r)) => "Sync failed: "@ + err
            + "; local rollback saved, but headset rollback failed: "@ + r
            + "; headset state unknown."@,
        (Err(s), Ok(())) => "Sync failed: "@ + err + "; rollback save failed: "@ + s
            + "; synced previous settings to headphones."@,
        (Err(s), Err(r)) => "Sync failed: "@ + err + "; rollback save failed: "@ + s
            + "; headset rollback failed: "@ + r + "; headset state unknown."@,
    }
}

pub open spec fn res_text(r: Result<(), String>) -> Result<(), Seq<char>> {
    match r {
        Ok(()) => Ok(()),
        Err(e) => Err(e@),
    }
}

/// The save of the edited state `pre` came back `saved`.
pub open spec fn commit_outcome<Sv: Fn(&ConfigFile) -> Result<(), String>, Sy>(
    pre: App<Sv, Sy>,
    previous: ConfigFile,
    success: Seq<char>,
    r: bool,
    post: App<Sv, Sy>,
    saved: Result<(), String>,
) -> bool {
    &&& call_ensures(pre.save, (&pre.config,), saved)
    &&& same_frame(pre, post)
    &&& post.selected == pre.selected
    &&& if saved is Ok {
        &&& r
        &&& post.message@ == success
        &&& post == (App { saved: true, message: post.message, ..pre })
    } else {
        &&& !r
        &&& !post.saved
        &&& post.message@ == "Save failed: "@ + saved->Err_0@
        &&& post.config@ == previous@
        &&& controls_match(post)
    }
}

/// Saving the edited state `pre`: on success the status says `success`; on
/// failure the configuration and controls go back to `previous`.
pub open spec fn committed<Sv: Fn(&ConfigFile) -> Result<(), String>, Sy>(
    pre: App<Sv, Sy>,
    previous: ConfigFile,
    success: Seq<char>,
    r: bool,
    post: App<Sv, Sy>,
) -> bool {
    exists|saved: Result<(), String>| #[trigger]
        commit_outcome(pre, previous, success, r, post, saved)
}

/// After a failed sync: `previous` is back and was saved (`rs`) and synced (`ry`) again.
pub open spec fn after_rollback<
    Sv: Fn(&ConfigFile) -> Result<(), String>,
    Sy: Fn(&ConfigFile) -> Result<(), String>,
>(
    pre: App<Sv, Sy>,
    previous: ConfigFile,
    r: bool,
    post: App<Sv, Sy>,
    sync_error: Seq<char>,
    rs: Result<(), String>,
    ry: Result<(), String>,
) -> bool {
    &&& call_ensures(pre.save, (&post.config,), rs)
    &&& call_ensures(pre.sync_headphones, (&post.config,), ry)
    &&& !r
    &&& same_frame(pre, post)
    &&& post.config@ == previous@
    &&& controls_match(post)
    &&& post.selected == selection_for(previous@, pre.screen, pre.selected)
    &&& post.saved == rs is Ok
    &&& post.message@ == rollback_text(sync_error, res_text(rs), res_text(ry))
}

/// After a successful save with a device selected, the sync came back `synced`.
pub open spec fn after_sync<
    Sv: Fn(&ConfigFile) -> Result<(), String>,
    Sy: Fn(&ConfigFile) -> Result<(), String>,
>(
    pre: App<Sv, Sy>,
    previous: ConfigFile,
    success: Seq<char>,
    r: bool,
    post: App<Sv, Sy>,
    mid: App<Sv, Sy>,
    synced: Result<(), String>,
) -> bool {
    &&& call_ensures(pre.sync_headphones, (&pre.config,), synced)
    &&& if synced is Ok {
        &&& r
        &&& post.message@ == success + "; synced headphones."@
        &&& post == (App { message: post.message, ..mid })
    } else {
        exists|rs: Result<(), String>, ry: Result<(), String>| #[trigger]
            after_rollback(pre, previous, r, post, synced->Err_0@, rs, ry)
    }
}

/// After the save came back, `mid` being the state it left.
pub open spec fn after_commit<
    Sv: Fn(&ConfigFile) -> Result<(), String>,
    Sy: Fn(&ConfigFile) -> Result<(), String>,
>(
    pre: App<Sv, Sy>,
    previous: ConfigFile,
    success: Seq<char>,
    r: bool,
    post: App<Sv, Sy>,
    mid: App<Sv, Sy>,
    ok: bool,
) -> bool {
    &&& committed(pre, previous, success, ok, mid)
    &&& if !ok {
        post == mid && !r
    } else if pre.config.selected_device is None {
        &&& r
        &&& post.message@ == success + "; saved locally (no selected device)."@
        &&& post == (App { message: post.message, ..mid })
    } else {
        exists|synced: Result<(), String>| #[trigger]
            after_sync(pre, previous, success, r, post, mid, synced)
    }
}

/// Saving and then syncing the edited state `pre`: without a device the
/// change stays local; when the sync fails the configuration, controls and
/// selection go back to `previous`, which is saved and synced again.
pub open spec fn committed_and_synced<
    Sv: Fn(&ConfigFile) -> Result<(), String>,
    Sy: Fn(&ConfigFile) -> Result<(), String>,
>(pre: App<Sv, Sy>, previous: ConfigFile, success: Seq<char>, r: bool, post: App<Sv, Sy>) -> bool {
    exists|mid: App<Sv, Sy>, ok: bool| #[trigger]
        after_commit(pre, previous, success, r, post, mid, ok)
}

fn msg_concat(a: &String, b: &str) -> (r: String)
    ensures
        r@ == a@ + b@,
{
    let mut s = a.clone();
    s.append(b);
    s
}

fn prefixed(a: &str, b: &String) -> (r: String)
    ensures
        r@ == a@ + b@,
{
    let mut s = String::from_str(a);
    s.append(b.as_str());
    s
}

impl<Sv: Fn(&ConfigFile) -> Result<(), String>, Sy: Fn(&ConfigFile) -> Result<(), String>> App<
    Sv,
    Sy,
> {
    /// The save and sync functions accept every configuration.
    pub open spec fn ready(&self) -> bool {
        &&& forall|c: &ConfigFile| #[trigger] call_requires(self.save, (c,))
        &&& forall|c: &ConfigFile| #[trigger] call_requires(self.sync_headphones, (c,))
    }

    /// The UI on the device screen: the saved device first, then the scanned
    /// ones, a scanned device with the saved address merged into its row.
    pub fn new(
        config: ConfigFile,
        scanned_devices: Vec<ScannedDevice>,
        scan_status: Option<String>,
        save: Sv,
        sync_headphones: Sy,
    ) -> (r: Self)
        requires
            forall|c: &ConfigFile| #[trigger] call_requires(save, (c,)),
            forall|c: &ConfigFile| #[trigger] call_requires(sync_headphones, (c,)),
        ensures
            r.ready(),
            r.config == config,
            r.screen == Screen::Devices,
            r.selected == 0,
            !r.saved,
            controls_match(r),
            r.message@ == r.scan_status@,
            scan_status matches Some(s) ==> r.scan_status@ == s@,
            scan_status is None ==> r.scan_status@ == if scanned_devices@.len() == 0 {
                "No Bluetooth devices found; select a saved device or quit."@
            } else {
                "Found "@ + decimal(scanned_devices@.len()) + " Bluetooth device(s)."@
            },
            row_views(r.devices@) == initial_rows(config@, scan_views(scanned_devices@)),
            r.save == save,
            r.sync_headphones == sync_headphones,
    {
        let mut devices: Vec<TuiDevice> = Vec::new();
        if let Some(selected) = &config.selected_device {
            devices.push(TuiDevice::saved(selected.clone()));
        }
        let ghost scans = scan_views(scanned_devices@);
        let scanned_count = scanned_devices.len();
        let mut rest = scanned_devices;
        let mut i: usize = 0;
        proof {
            lemma_row_views(devices@);
            assert(scans.skip(0) =~= scans);
            let start = row_views(devices@);
            match config@.selected_device {
                Some(d) => assert(start =~= seq![
                    TuiDeviceView { reference: d, rssi: None, connected: None, saved: true, scanned: false },
                ]),
                None => assert(start =~= Seq::<TuiDeviceView>::empty()),
            }
        }
        while rest.len() > 0
            invariant
                scans.len() == scanned_count,
                i + rest@.len() == scans.len(),
                scan_views(rest@) == scans.skip(i as int),
                initial_rows(config@, scans) == fold_scans(row_views(devices@), scans.skip(i as int)),
            decreases rest@.len(),
        {
            let ghost pre = rest@;
            let device = rest.remove(0);
            proof {
                let s = scans.skip(i as int);
                assert(rest@ =~= pre.subrange(1, pre.len() as int));
                assert(device@ == s[0]);
                assert(s.drop_first() =~= scans.skip(i + 1));
                assert forall|k: int| 0 <= k < rest@.len() implies #[trigger] scan_views(rest@)[k]
                    == scans.skip(i + 1)[k] by {
                    assert(rest@[k] == pre[k + 1]);
                    assert(s[k + 1] == scans.skip(i + 1)[k]);
                }
                assert(scan_views(rest@) =~= scans.skip(i + 1));
            }
            merge_into_rows(&mut devices, device);
            i = i + 1;
        }
        assert(scans.skip(i as int) =~= Seq::<ScannedView>::empty());
        let status = match scan_status {
            Some(s) => s,
            None => if scanned_count == 0 {
                String::from_str("No Bluetooth devices found; select a saved device or quit.")
            } else {
                let mut s = String::from_str("Found ");
                push_decimal(&mut s, scanned_count as u64);
                s.append(" Bluetooth device(s).");
                s
            },
        };
        App {
            noise_level: config.noise.level,
            noise_enabled: config.noise.enabled,
            config,
            devices,
            save,
            sync_headphones,
            screen: Screen::Devices,
            selected: 0,
            message: status.clone(),
            saved: false,
            scan_status: status,
        }
    }

    /// Handles a key press; tells whether to quit.
    pub fn on_key(&mut self, key: Key) -> (quit: bool)
        requires
            old(self).ready(),
        ensures
            final(self).ready(),
            quit <==> is_quit(key),
            key_step(*old(self), key, *final(self)),
    {
        if key.control && (key.code == KeyCode::Char('c') || key.code == KeyCode::Char('C')) {
            return true;
        }
        match key.code {
            KeyCode::Char('q') => return true,
            KeyCode::Esc | KeyCode::Backspace => self.back(),
            KeyCode::Up | KeyCode::Char('k') => self.up(),
            KeyCode::Down | KeyCode::Char('j') => self.down(),
            KeyCode::Enter => self.enter(),
            KeyCode::Char(' ') => self.space(),
            KeyCode::Left | KeyCode::Char('-') => self.adjust_noise(false),
            KeyCode::Right | KeyCode::Char('+') | KeyCode::Char('=') => self.adjust_noise(true),
            _ => {},
        }
        false
    }

    /// How many rows the current screen has.
    pub fn current_items_len(&self) -> (r: usize)
        ensures
            r == items_len(*self),
    {
        match self.screen {
            Screen::Devices => if self.devices.len() > 1 {
                self.devices.len()
            } else {
                1
            },
            Screen::Actions => 4,
            Screen::Modes => {
                let modes = self.config.all_modes();
                proof {
                    lemma_mode_views(modes@);
                }
                modes.len()
            },
            Screen::Noise => 1,
            Screen::Immersive => 3,
            Screen::Connections => 1,
        }
    }

    pub fn up(&mut self)
        ensures
            moved_up(*old(self), *final(self)),
    {
        if self.selected > 0 {
            self.selected = self.selected - 1;
        }
    }

    pub fn down(&mut self)
        ensures
            moved_down(*old(self), *final(self)),
    {
        let len = self.current_items_len();
        if self.selected < len - 1 {
            self.selected = self.selected + 1;
        }
    }

    pub fn back(&mut self)
        ensures
            backed(*old(self), *final(self)),
    {
        self.screen = match self.screen {
            Screen::Devices => Screen::Devices,
            Screen::Actions => Screen::Devices,
            _ => Screen::Actions,
        };
        self.selected = 0;
    }

    /// Enter: select a device, open a section, or apply the selected mode or
    /// immersive setting.
    pub fn enter(&mut self)
        requires
            old(self).ready(),
        ensures
            final(self).ready(),
            entered(*old(self), *final(self)),
    {
        match self.screen {
            Screen::Devices => {
                if self.selected < self.devices.len() {
                    let device = self.devices[self.selected].clone();
                    let previous = self.config.clone();
                    self.config.selected_device = Some(device.reference);
                    let ghost pre = *self;
                    let ok = self.commit_config(
                        previous,
                        String::from_str("Selected device saved to config."),
                    );
                    let ghost mid = *self;
                    if ok {
                        self.screen = Screen::Actions;
                        self.selected = 0;
                    }
                    assert(device_entered(*old(self), pre, mid, ok, *self));
                } else {
                    self.message = String::from_str("No devices available; scan again or quit.");
                }
            },
            Screen::Actions => {
                if self.selected < 3 {
                    match ensure_selected_device_supports_config(&self.config) {
                        Err(e) => {
                            self.message = e.message();
                            return;
                        },
                        Ok(()) => {},
                    }
                }
                self.screen = if self.selected == 0 {
                    Screen::Modes
                } else if self.selected == 1 {
                    Screen::Noise
                } else if self.selected == 2 {
                    Screen::Immersive
                } else {
                    Screen::Connections
                };
                self.selected = 0;
                self.sync_selection_from_config();
            },
            Screen::Modes => {
                self.apply_selected_mode();
            },
            Screen::Immersive => self.apply_selected_immersive(),
            Screen::Noise | Screen::Connections => {},
        }
    }

    /// Applies the selected mode and syncs it.
    pub fn apply_selected_mode(&mut self)
        requires
            old(self).ready(),
        ensures
            final(self).ready(),
            applied_mode(*old(self), *final(self)),
    {
        let mut modes = self.config.all_modes();
        proof {
            lemma_mode_views(modes@);
        }
        if self.selected < modes.len() {
            let mode = modes.remove(self.selected);
            let previous = self.config.clone();
            let success = prefixed("Saved mode: ", &mode.name);
            self.config.active_mode = Some(mode.name);
            self.config.noise = mode.noise;
            self.config.immersive = mode.immersive;
            self.sync_controls_from_config();
            let ghost pre = *self;
            let ghost prev_g = previous;
            let ok = self.commit_config_and_sync(previous, success);
            assert(committed_and_synced(pre, prev_g, success@, ok, *self));
        }
    }

    /// Applies the selected immersive setting and syncs it.
    pub fn apply_selected_immersive(&mut self)
        requires
            old(self).ready(),
        ensures
            final(self).ready(),
            applied_immersive(*old(self), *final(self)),
    {
        let previous = self.config.clone();
        self.config.immersive = if self.selected == 0 {
            ImmersiveAudio::Off
        } else if self.selected == 1 {
            ImmersiveAudio::Still
        } else {
            ImmersiveAudio::Motion
        };
        self.config.sync_active_mode_to_current_audio();
        let mut success = String::from_str("Saved immersive audio: ");
        success.append(self.config.immersive.as_str());
        let ghost pre = *self;
        let ghost prev_g = previous;
        let ok = self.commit_config_and_sync(previous, success);
        assert(committed_and_synced(pre, prev_g, success@, ok, *self));
    }

    /// Space on the noise screen toggles noise control.
    pub fn space(&mut self)
        requires
            old(self).ready(),
        ensures
            final(self).ready(),
            spaced(*old(self), *final(self)),
    {
        if self.screen == Screen::Noise {
            self.noise_enabled = !self.noise_enabled;
            self.persist_noise();
        }
    }

    /// On the noise screen, moves the level one step, within `0..=10`.
    pub fn adjust_noise(&mut self, increase: bool)
        requires
            old(self).ready(),
        ensures
            final(self).ready(),
            adjusted(*old(self), increase, *final(self)),
    {
        if self.screen == Screen::Noise {
            let level = if increase {
                if self.noise_level < 255 {
                    self.noise_level + 1
                } else {
                    255
                }
            } else {
                if self.noise_level > 0 {
                    self.noise_level - 1
                } else {
                    0
                }
            };
            self.noise_level = if level < 10 {
                level
            } else {
                10
            };
            self.persist_noise();
        }
    }

    /// Saves and syncs the noise controls when they are valid.
    pub fn persist_noise(&mut self)
        requires
            old(self).ready(),
        ensures
            final(self).ready(),
            persisted_noise(*old(self), *final(self)),
    {
        match NoiseControl::new(self.noise_enabled, self.noise_level) {
            Ok(noise) => {
                let previous = self.config.clone();
                self.config.noise = noise;
                self.config.sync_active_mode_to_current_audio();
                let mut success = String::from_str("Saved noise: enabled=");
                success.append(if self.noise_enabled {
                    "true"
                } else {
                    "false"
                });
                success.append(" level=");
                push_decimal(&mut success, self.noise_level as u64);
                assert(success@ =~= "Saved noise: enabled="@ + bool_text(self.noise_enabled)
                    + " level="@ + decimal(self.noise_level as nat));
                let ghost pre = *self;
                let ghost prev_g = previous;
                let ok = self.commit_config_and_sync(previous, success);
                assert(committed_and_synced(pre, prev_g, success@, ok, *self));
            },
            Err(_) => {},
        }
    }

    /// Saves the configuration, then syncs it to the selected headset; a
    /// failed sync rolls everything back to `previous`.
    pub fn commit_config_and_sync(&mut self, previous: ConfigFile, success_message: String) -> (r:
        bool)
        requires
            old(self).ready(),
        ensures
            final(self).ready(),
            committed_and_synced(*old(self), previous, success_message@, r, *final(self)),
    {
        let ghost pre = *self;
        let pc = previous.clone();
        let ghost pcg = pc;
        let ok = self.commit_config(pc, success_message.clone());
        let ghost mid = *self;
        proof {
            let w = choose|saved: Result<(), String>|
                commit_outcome(pre, pcg, success_message@, ok, mid, saved);
            assert(commit_outcome(pre, previous, success_message@, ok, mid, w));
        }
        if !ok {
            assert(after_commit(pre, previous, success_message@, false, *self, mid, ok));
            return false;
        }
        if self.config.selected_device.is_none() {
            self.message = msg_concat(&success_message, "; saved locally (no selected device).");
            assert(after_commit(pre, previous, success_message@, true, *self, mid, ok));
            return true;
        }
        let synced = (self.sync_headphones)(&self.config);
        match synced {
            Ok(()) => {
                self.message = msg_concat(&success_message, "; synced headphones.");
                assert(after_sync(pre, previous, success_message@, true, *self, mid, synced));
                assert(after_commit(pre, previous, success_message@, true, *self, mid, ok));
                true
            },
            Err(err) => {
                self.config = previous;
                self.sync_controls_from_config();
                self.sync_selection_from_config();
                let rollback_save = (self.save)(&self.config);
                let rollback_sync = (self.sync_headphones)(&self.config);
                self.saved = rollback_save.is_ok();
                self.message = rollback_message(&err, &rollback_save, &rollback_sync);
                assert(after_rollback(pre, previous, false, *self, err@, rollback_save, rollback_sync));
                assert(after_sync(pre, previous, success_message@, false, *self, mid, synced));
                assert(after_commit(pre, previous, success_message@, false, *self, mid, ok));
                false
            },
        }
    }

    /// Saves the configuration; a failed save restores `previous`.
    pub fn commit_config(&mut self, previous: ConfigFile, success_message: String) -> (r: bool)
        requires
            old(self).ready(),
        ensures
            final(self).ready(),
            committed(*old(self), previous, success_message@, r, *final(self)),
    {
        let ghost pre = *self;
        let saved = (self.save)(&self.config);
        assert(call_ensures(pre.save, (&pre.config,), saved));
        match saved {
            Ok(()) => {
                self.saved = true;
                self.message = success_message;
                assert(*self == (App { saved: true, message: self.message, ..pre }));
                assert(same_frame(pre, *self));
                assert(commit_outcome(pre, previous, success_message@, true, *self, saved));
                true
            },
            Err(err) => {
                self.config = previous;
                self.sync_controls_from_config();
                self.saved = false;
                self.message = prefixed("Save failed: ", &err);
                assert(commit_outcome(pre, previous, success_message@, false, *self, saved));
                false
            },
        }
    }

    /// Resets the noise controls from the configuration.
    pub fn sync_controls_from_config(&mut self)
        ensures
            *final(self) == (App {
                noise_enabled: old(self).config.noise.enabled,
                noise_level: old(self).config.noise.level,
                ..*old(self)
            }),
    {
        self.noise_enabled = self.config.noise.enabled;
        self.noise_level = self.config.noise.level;
    }

    /// Points the selection at the configuration's current mode or immersive setting.
    pub fn sync_selection_from_config(&mut self)
        ensures
            *final(self) == (App {
                selected: selection_for(old(self).config@, old(self).screen, old(self).selected),
                ..*old(self)
            }),
    {
        match self.screen {
            Screen::Modes => {
                let modes = self.config.all_modes();
                let pos = match &self.config.active_mode {
                    Some(active) => position_named(&modes, active.as_str()),
                    None => None,
                };
                proof {
                    lemma_mode_views(modes@);
                    let ms = mode_views(modes@);
                    if let Some(i) = pos {
                        let a = self.config@.active_mode->0;
                        assert forall|j: int| 0 <= j < i implies !eq_ignore_case(
                            #[trigger] ms[j].name,
                            a,
                        ) by {
                            assert(ms[j] == modes@[j]@);
                        }
                        assert(ms[i as int] == modes@[i as int]@);
                        lemma_first_named_index(ms, a, i as int);
                        assert(eq_ignore_case(ms[i as int].name, a));
                        assert(has_named(ms, a));
                    }
                }
                self.selected = match pos {
                    Some(i) => i,
                    None => 0,
                };
            },
            Screen::Immersive => {
                self.selected = match self.config.immersive {
                    ImmersiveAudio::Off => 0,
                    ImmersiveAudio::Still => 1,
                    ImmersiveAudio::Motion => 2,
                };
            },
            _ => {},
        }
    }
}

fn rollback_message(err: &String, save: &Result<(), String>, sync: &Result<(), String>) -> (r:
    String)
    ensures
        r@ == rollback_text(err@, res_text(*save), res_text(*sync)),
{
    let mut s = prefixed("Sync failed: ", err);
    match (save, sync) {
        (Ok(()), Ok(())) => {
            s.append("; rolled back to previous settings.");
        },
        (Ok(()), Err(r)) => {
            s.append("; local rollback saved, but headset rollback failed: ");
            s.append(r.as_str());
            s.append("; headset state unknown.");
        },
        (Err(e), Ok(())) => {
            s.append("; rollback save failed: ");
            s.append(e.as_str());
            s.append("; synced previous settings to headphones.");
        },
        (Err(e), Err(r)) => {
            s.append("; rollback save failed: ");
            s.append(e.as_str());
            s.append("; headset rollback failed: ");
            s.append(r.as_str());
            s.append("; headset state unknown.");
        },
    }
    s
}

pub open spec fn is_quit(key: Key) -> bool {
    (key.control && (key.code == KeyCode::Char('c') || key.code == KeyCode::Char('C')))
        || key.code == KeyCode::Char('q')
}

pub open spec fn is_back(key: Key) -> bool {
    !is_quit(key) && (key.code == KeyCode::Esc || key.code == KeyCode::Backspace)
}

pub open spec fn is_up(key: Key) -> bool {
    !is_quit(key) && (key.code == KeyCode::Up || key.code == KeyCode::Char('k'))
}

pub open spec fn is_down(key: Key) -> bool {
    !is_quit(key) && (key.code == KeyCode::Down || key.code == KeyCode::Char('j'))
}

pub open spec fn is_adjust(key: Key) -> bool {
    !is_quit(key) && (key.code == KeyCode::Left || key.code == KeyCode::Char('-') || key.code
        == KeyCode::Right || key.code == KeyCode::Char('+') || key.code == KeyCode::Char('='))
}

pub open spec fn adjust_up(key: Key) -> bool {
    key.code == KeyCode::Right || key.code == KeyCode::Char('+') || key.code == KeyCode::Char('=')
}

/// What a key press does to the UI: quitting and keys without a binding
/// change nothing; the others move, go back, enter, toggle or adjust.
pub open spec fn key_step<
    Sv: Fn(&ConfigFile) -> Result<(), String>,
    Sy: Fn(&ConfigFile) -> Result<(), String>,
>(a: App<Sv, Sy>, key: Key, b: App<Sv, Sy>) -> bool {
    if is_quit(key) {
        b == a
    } else if is_back(key) {
        backed(a, b)
    } else if is_up(key) {
        moved_up(a, b)
    } else if is_down(key) {
        moved_down(a, b)
    } else if key.code == KeyCode::Enter {
        entered(a, b)
    } else if key.code == KeyCode::Char(' ') {
        spaced(a, b)
    } else if is_adjust(key) {
        adjusted(a, adjust_up(key), b)
    } else {
        b == a
    }
}

pub open spec fn moved_up<Sv, Sy>(a: App<Sv, Sy>, b: App<Sv, Sy>) -> bool {
    b == (App { selected: if a.selected > 0 { (a.selected - 1) as usize } else { a.selected }, ..a })
}

pub open spec fn moved_down<Sv, Sy>(a: App<Sv, Sy>, b: App<Sv, Sy>) -> bool {
    b == (App {
        selected: if a.selected + 1 < items_len(a) { (a.selected + 1) as usize } else { a.selected },
        ..a
    })
}

pub open spec fn backed<Sv, Sy>(a: App<Sv, Sy>, b: App<Sv, Sy>) -> bool {
    b == (App {
        screen: match a.screen {
            Screen::Devices => Screen::Devices,
            Screen::Actions => Screen::Devices,
            _ => Screen::Actions,
        },
        selected: 0,
        ..a
    })
}

/// Enter on the device screen: the selected row becomes the saved device
/// and, once saved, the actions screen opens.
pub open spec fn device_entered<Sv: Fn(&ConfigFile) -> Result<(), String>, Sy>(
    a: App<Sv, Sy>,
    pre: App<Sv, Sy>,
    mid: App<Sv, Sy>,
    ok: bool,
    b: App<Sv, Sy>,
) -> bool {
    &&& a.selected < a.devices@.len()
    &&& pre.config@ == (ConfigView {
        selected_device: Some(a.devices@[a.selected as int].reference@),
        ..a.config@
    })
    &&& same_frame(a, pre) && pre.selected == a.selected && pre.noise_enabled == a.noise_enabled
        && pre.noise_level == a.noise_level && pre.saved == a.saved
    &&& exists|previous: ConfigFile|
        previous@ == a.config@ && committed(
            pre,
            previous,
            "Selected device saved to config."@,
            ok,
            mid,
        )
    &&& ok ==> b == (App { screen: Screen::Actions, selected: 0, ..mid })
    &&& !ok ==> b == mid
}

pub open spec fn section_for(selected: usize) -> Screen {
    if selected == 0 {
        Screen::Modes
    } else if selected == 1 {
        Screen::Noise
    } else if selected == 2 {
        Screen::Immersive
    } else {
        Screen::Connections
    }
}

pub open spec fn entered<
    Sv: Fn(&ConfigFile) -> Result<(), String>,
    Sy: Fn(&ConfigFile) -> Result<(), String>,
>(a: App<Sv, Sy>, b: App<Sv, Sy>) -> bool {
    match a.screen {
        Screen::Devices => if a.selected < a.devices@.len() {
            exists|pre: App<Sv, Sy>, mid: App<Sv, Sy>, ok: bool| #[trigger]
                device_entered(a, pre, mid, ok, b)
        } else {
            b.message@ == "No devices available; scan again or quit."@ && b == (App {
                message: b.message,
                ..a
            })
        },
        Screen::Actions => if a.selected < 3 && supports_config_spec(a.config@) is Err {
            b.message@ == model_error_text(supports_config_spec(a.config@)->Err_0) && b == (App {
                message: b.message,
                ..a
            })
        } else {
            b == (App {
                screen: section_for(a.selected),
                selected: selection_for(a.config@, section_for(a.selected), 0),
                ..a
            })
        },
        Screen::Modes => applied_mode(a, b),
        Screen::Immersive => applied_immersive(a, b),
        _ => b == a,
    }
}

/// Applying the selected mode: its name, noise and immersive settings
/// become current, then the save-then-sync step runs.
pub open spec fn applied_mode<
    Sv: Fn(&ConfigFile) -> Result<(), String>,
    Sy: Fn(&ConfigFile) -> Result<(), String>,
>(a: App<Sv, Sy>, b: App<Sv, Sy>) -> bool {
    let ms = all_mode_views(a.config@);
    if a.selected < ms.len() {
        let m = ms[a.selected as int];
        exists|pre: App<Sv, Sy>, previous: ConfigFile, r: bool|
            #[trigger] committed_and_synced(pre, previous, "Saved mode: "@ + m.name, r, b)
                && previous@ == a.config@ && pre.config@ == (ConfigView {
                active_mode: Some(m.name),
                noise: m.noise,
                immersive: m.immersive,
                ..a.config@
            }) && controls_match(pre) && same_frame(a, pre) && pre.selected == a.selected
                && pre.saved == a.saved
    } else {
        b == a
    }
}

pub open spec fn immersive_for(selected: usize) -> ImmersiveAudio {
    if selected == 0 {
        ImmersiveAudio::Off
    } else if selected == 1 {
        ImmersiveAudio::Still
    } else {
        ImmersiveAudio::Motion
    }
}

/// Applying the selected immersive setting; the active mode follows it.
pub open spec fn applied_immersive<
    Sv: Fn(&ConfigFile) -> Result<(), String>,
    Sy: Fn(&ConfigFile) -> Result<(), String>,
>(a: App<Sv, Sy>, b: App<Sv, Sy>) -> bool {
    let im = immersive_for(a.selected);
    exists|pre: App<Sv, Sy>, previous: ConfigFile, r: bool|
        #[trigger] committed_and_synced(
            pre,
            previous,
            "Saved immersive audio: "@ + immersive_text(im),
            r,
            b,
        ) && previous@ == a.config@ && pre.config@ == (ConfigView {
            immersive: im,
            active_mode: first_with_audio(all_mode_views(a.config@), a.config@.noise, im),
            ..a.config@
        }) && same_frame(a, pre) && pre.selected == a.selected && pre.saved == a.saved
            && pre.noise_enabled == a.noise_enabled && pre.noise_level == a.noise_level
}

/// Saving and syncing the noise controls, when the level is valid.
pub open spec fn persisted_noise<
    Sv: Fn(&ConfigFile) -> Result<(), String>,
    Sy: Fn(&ConfigFile) -> Result<(), String>,
>(a: App<Sv, Sy>, b: App<Sv, Sy>) -> bool {
    if a.noise_level > 10 {
        b == a
    } else {
        let n = NoiseControl { enabled: a.noise_enabled, level: a.noise_level };
        exists|pre: App<Sv, Sy>, previous: ConfigFile, r: bool|
            #[trigger] committed_and_synced(
                pre,
                previous,
                "Saved noise: enabled="@ + bool_text(a.noise_enabled) + " level="@ + decimal(
                    a.noise_level as nat,
                ),
                r,
                b,
            ) && previous@ == a.config@ && pre.config@ == (ConfigView {
                noise: n,
                active_mode: first_with_audio(all_mode_views(a.config@), n, a.config@.immersive),
                ..a.config@
            }) && same_frame(a, pre) && pre.selected == a.selected && pre.saved == a.saved
                && pre.noise_enabled == a.noise_enabled && pre.noise_level == a.noise_level
    }
}

pub open spec fn spaced<
    Sv: Fn(&ConfigFile) -> Result<(), String>,
    Sy: Fn(&ConfigFile) -> Result<(), String>,
>(a: App<Sv, Sy>, b: App<Sv, Sy>) -> bool {
    if a.screen == Screen::Noise {
        persisted_noise(App { noise_enabled: !a.noise_enabled, ..a }, b)
    } else {
        b == a
    }
}

pub open spec fn stepped_level(level: u8, increase: bool) -> u8 {
    let l: int = if increase {
        if level < 255 {
            level + 1
        } else {
            255
        }
    } else {
        if level > 0 {
            level - 1
        } else {
            0
        }
    };
    if l < 10 {
        l as u8
    } else {
        10
    }
}

/// A key press on the noise screen moves the level by exactly one step:
/// up from below 10, down from above 0, and never past 0 or 10.
pub proof fn lemma_noise_level_steps_by_one(level: u8)
    ensures
        level < 10 ==> stepped_level(level, true) == level + 1,
        0 < level <= 10 ==> stepped_level(level, false) == level - 1,
        level >= 10 ==> stepped_level(level, true) == 10,
        level == 0 ==> stepped_level(level, false) == 0,
        stepped_level(level, true) <= 10,
        stepped_level(level, false) <= 10,
{
}

pub open spec fn adjusted<
    Sv: Fn(&ConfigFile) -> Result<(), String>,
    Sy: Fn(&ConfigFile) -> Result<(), String>,
>(a: App<Sv, Sy>, increase: bool, b: App<Sv, Sy>) -> bool {
    if a.screen == Screen::Noise {
        persisted_noise(App { noise_level: stepped_level(a.noise_level, increase), ..a }, b)
    } else {
        b == a
    }
}

/// On the noise screen, a step from a level within 0..=10 is saved and synced
/// as the level one step up (below 10) or one step down (above 0), with the
/// noise switch as it stands; what comes back is what that commit gives.
pub proof fn lemma_noise_key_commits_next_level<
    Sv: Fn(&ConfigFile) -> Result<(), String>,
    Sy: Fn(&ConfigFile) -> Result<(), String>,
>(a: App<Sv, Sy>, increase: bool, b: App<Sv, Sy>)
    requires
        a.screen == Screen::Noise,
        a.noise_level <= 10,
        adjusted(a, increase, b),
    ensures
        exists|pre: App<Sv, Sy>, previous: ConfigFile, message: Seq<char>, r: bool|
            #[trigger] committed_and_synced(pre, previous, message, r, b) && previous@ == a.config@
                && pre.config@.noise.enabled == a.noise_enabled && pre.config@.noise.level == (
            if increase {
                if a.noise_level < 10 {
                    a.noise_level + 1
                } else {
                    10
                }
            } else {
                if a.noise_level > 0 {
                    a.noise_level - 1
                } else {
                    0
                }
            }),
{
    lemma_noise_level_steps_by_one(a.noise_level);
}

/// A change that did not go through (its save or its sync failed) leaves
/// the previous desired settings in place.
pub proof fn lemma_failed_change_restores<
    Sv: Fn(&ConfigFile) -> Result<(), String>,
    Sy: Fn(&ConfigFile) -> Result<(), String>,
>(pre: App<Sv, Sy>, previous: ConfigFile, success: Seq<char>, r: bool, post: App<Sv, Sy>)
    requires
        committed_and_synced(pre, previous, success, r, post),
        !r,
    ensures
        post.config@ == previous@,
        controls_match(post),
{
    let (mid, ok) = choose|mid: App<Sv, Sy>, ok: bool|
        #[trigger] after_commit(pre, previous, success, r, post, mid, ok);
    let saved = choose|saved: Result<(), String>| #[trigger]
        commit_outcome(pre, previous, success, ok, mid, saved);
    if ok {
        let synced = choose|synced: Result<(), String>| #[trigger]
            after_sync(pre, previous, success, r, post, mid, synced);
        let (rs, ry) = choose|rs: Result<(), String>, ry: Result<(), String>| #[trigger]
            after_rollback(pre, previous, r, post, synced->Err_0@, rs, ry);
    }
}

/// Moving the selection or going back never changes the configuration:
/// modes and immersive settings apply only on Enter.
pub proof fn lemma_navigation_keeps_config<Sv, Sy>(a: App<Sv, Sy>, b: App<Sv, Sy>)
    requires
        moved_up(a, b) || moved_down(a, b) || backed(a, b),
    ensures
        b.config == a.config,
        b.saved == a.saved,
        b.noise_level == a.noise_level,
        b.noise_enabled == a.noise_enabled,
{
}

/// Moving down stays within the rows of the screen.
pub proof fn lemma_down_stays_in_range<Sv, Sy>(a: App<Sv, Sy>, b: App<Sv, Sy>)
    requires
        moved_down(a, b),
        a.selected < items_len(a),
    ensures
        b.selected < items_len(b),
{
}

} // verus!
