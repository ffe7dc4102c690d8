//! What each screen of the UI shows, as styled lines; drawing them is left
//! to the terminal front end.
use vstd::prelude::*;
use super::{App, Screen, TuiDevice, TuiDeviceView, help_for, help_text, row_views, screen_label, screen_text};
use crate::config::{all_mode_views, lemma_mode_views};
use crate::domain::{DeviceView, ImmersiveAudio, ModePreset, ModeView, device_display, immersive_text, mode_views};
use crate::text::{decimal, eq_ignore_case, join, push_decimal, push_signed_decimal, signed_decimal, str_eq_ignore_ascii_case};

verus! {

/// How a piece of text is shown.
#[derive(Debug, Clone, Copy, PartialEq, Eq, Structural)]
pub enum Tone {
    Accent,
    Dim,
    Bold,
    Plain,
}

/// A piece of text with its tone.
#[derive(Debug)]
pub struct Styled {
    pub text: String,
    pub tone: Tone,
}

pub struct StyledView {
    pub text: Seq<char>,
    pub tone: Tone,
}

impl View for Styled {
    type V = StyledView;

    open spec fn view(&self) -> StyledView {
        StyledView { text: self.text@, tone: self.tone }
    }
}

pub open spec fn sv(text: Seq<char>, tone: Tone) -> StyledView {
    StyledView { text, tone }
}

pub open spec fn line_view(l: Seq<Styled>) -> Seq<StyledView> {
    l.map_values(|s: Styled| s@)
}

pub open spec fn lines_view(ls: Seq<Vec<Styled>>) -> Seq<Seq<StyledView>> {
    ls.map_values(|l: Vec<Styled>| line_view(l@))
}

fn styled(text: &str, tone: Tone) -> (r: Styled)
    ensures
        r@ == sv(text@, tone),
{
    Styled { text: String::from_str(text), tone }
}

fn line3(a: Styled, b: Styled, c: Styled) -> (r: Vec<Styled>)
    ensures
        line_view(r@) == seq![a@, b@, c@],
{
    let mut l = Vec::new();
    l.push(a);
    l.push(b);
    l.push(c);
    assert(line_view(l@) =~= seq![a@, b@, c@]);
    l
}

fn line2(a: Styled, b: Styled) -> (r: Vec<Styled>)
    ensures
        line_view(r@) == seq![a@, b@],
{
    let mut l = Vec::new();
    l.push(a);
    l.push(b);
    assert(line_view(l@) =~= seq![a@, b@]);
    l
}

fn line1(a: Styled) -> (r: Vec<Styled>)
    ensures
        line_view(r@) == seq![a@],
{
    let mut l = Vec::new();
    l.push(a);
    assert(line_view(l@) =~= seq![a@]);
    l
}

/// `bose  > screen`.
pub open spec fn header_spec(screen: Screen) -> Seq<StyledView> {
    seq![sv("bose"@, Tone::Accent), sv("  > "@, Tone::Dim), sv(screen_text(screen), Tone::Bold)]
}

pub fn header_line(screen: Screen) -> (r: Vec<Styled>)
    ensures
        line_view(r@) == header_spec(screen),
{
    line3(styled("bose", Tone::Accent), styled("  > ", Tone::Dim), styled(screen_label(screen), Tone::Bold))
}

/// `saved` or `status`, then the message.
pub open spec fn status_spec(message: Seq<char>, saved: bool) -> Seq<StyledView> {
    seq![
        sv(if saved {
            "saved"@
        } else {
            "status"@
        }, Tone::Dim),
        sv("  "@, Tone::Plain),
        sv(message, Tone::Plain),
    ]
}

pub fn status_line(message: &str, saved: bool) -> (r: Vec<Styled>)
    ensures
        line_view(r@) == status_spec(message@, saved),
{
    line3(
        styled(if saved {
            "saved"
        } else {
            "status"
        }, Tone::Dim),
        styled("  ", Tone::Plain),
        styled(message, Tone::Plain),
    )
}

/// What a device row says about the device besides its name.
pub open spec fn device_meta(d: TuiDeviceView) -> Seq<Seq<char>> {
    (if d.saved {
        seq!["saved"@]
    } else {
        Seq::empty()
    }) + (if d.scanned {
        seq!["scanned"@]
    } else {
        Seq::empty()
    }) + match d.connected {
        Some(true) => seq!["connected"@],
        Some(false) => seq!["discovered"@],
        None => Seq::empty(),
    } + match d.rssi {
        Some(v) => seq![signed_decimal(v as int) + " dBm"@],
        None => Seq::empty(),
    }
}

/// A device row: the name, then what is known of it, joined by ` · `.
pub open spec fn device_item_spec(d: TuiDeviceView) -> Seq<StyledView> {
    let name = match d.reference.name {
        Some(n) => n,
        None => "<unknown>"@,
    };
    let meta = device_meta(d);
    if meta.len() == 0 {
        seq![sv(name, Tone::Bold)]
    } else {
        seq![sv(name, Tone::Bold), sv("  "@ + join(meta, " · "@), Tone::Dim)]
    }
}

fn push_part(meta: &mut String, parts: Ghost<Seq<Seq<char>>>, first: bool, part: &str) -> (r: Ghost<
    Seq<Seq<char>>,
>)
    requires
        old(meta)@ == join(parts@, " · "@),
        first == (parts@.len() == 0),
    ensures
        r@ == parts@.push(part@),
        final(meta)@ == join(r@, " · "@),
{
    let ghost next = parts@.push(part@);
    assert(next.drop_last() =~= parts@);
    if !first {
        meta.append(" · ");
    } else {
        assert(meta@ =~= Seq::<char>::empty());
    }
    meta.append(part);
    assert(meta@ =~= join(next, " · "@));
    Ghost(next)
}

pub fn device_item(device: &TuiDevice) -> (r: Vec<Styled>)
    ensures
        line_view(r@) == device_item_spec(device@),
{
    let name = match &device.reference.name {
        Some(n) => Styled { text: n.clone(), tone: Tone::Bold },
        None => styled("<unknown>", Tone::Bold),
    };
    let mut meta = String::new();
    let mut parts: Ghost<Seq<Seq<char>>> = Ghost(Seq::empty());
    assert(meta@ =~= join(parts@, " · "@));
    let mut first = true;
    if device.saved {
        parts = push_part(&mut meta, parts, first, "saved");
        first = false;
    }
    if device.scanned {
        parts = push_part(&mut meta, parts, first, "scanned");
        first = false;
    }
    match device.connected {
        Some(true) => {
            parts = push_part(&mut meta, parts, first, "connected");
            first = false;
        },
        Some(false) => {
            parts = push_part(&mut meta, parts, first, "discovered");
            first = false;
        },
        None => {},
    }
    match device.rssi {
        Some(v) => {
            let mut text = String::new();
            push_signed_decimal(&mut text, v as i64);
            text.append(" dBm");
            parts = push_part(&mut meta, parts, first, text.as_str());
            first = false;
        },
        None => {},
    }
    assert(parts@ =~= device_meta(device@));
    if first {
        assert(meta@.len() == 0);
        line1(name)
    } else {
        let mut detail = String::from_str("  ");
        detail.append(meta.as_str());
        line2(name, Styled { text: detail, tone: Tone::Dim })
    }
}

pub open spec fn on_off(b: bool) -> Seq<char> {
    if b {
        "on"@
    } else {
        "off"@
    }
}

/// A mode row: the name (highlighted when active), then its settings.
pub open spec fn mode_item_spec(m: ModeView, active: bool) -> Seq<StyledView> {
    seq![
        sv(m.name, if active {
            Tone::Accent
        } else {
            Tone::Bold
        }),
        sv(
            "  noise "@ + on_off(m.noise.enabled) + " "@ + decimal(m.noise.level as nat)
                + " · immersive "@ + immersive_text(m.immersive) + if active {
                " · active"@
            } else {
                Seq::empty()
            },
            Tone::Dim,
        ),
    ]
}

pub fn mode_item(mode: &ModePreset, active: bool) -> (r: Vec<Styled>)
    ensures
        line_view(r@) == mode_item_spec(mode@, active),
{
    let name = Styled {
        text: mode.name.clone(),
        tone: if active {
            Tone::Accent
        } else {
            Tone::Bold
        },
    };
    let mut detail = String::from_str("  noise ");
    detail.append(if mode.noise.enabled {
        "on"
    } else {
        "off"
    });
    detail.append(" ");
    push_decimal(&mut detail, mode.noise.level as u64);
    detail.append(" · immersive ");
    detail.append(mode.immersive.as_str());
    if active {
        detail.append(" · active");
    }
    let ghost m = mode@;
    assert(detail@ =~= mode_item_spec(m, active)[1].text);
    line2(name, Styled { text: detail, tone: Tone::Dim })
}

pub open spec fn action_item_spec(label: Seq<char>) -> Seq<StyledView> {
    seq![sv(label, Tone::Bold)]
}

pub fn action_item(label: &str) -> (r: Vec<Styled>)
    ensures
        line_view(r@) == action_item_spec(label@),
{
    line1(styled(label, Tone::Bold))
}

/// An immersive row: the setting, marked when it is the current one.
pub open spec fn immersive_item_spec(label: Seq<char>, active: bool) -> Seq<StyledView> {
    if active {
        seq![sv(label, Tone::Accent), sv("  active"@, Tone::Dim)]
    } else {
        seq![sv(label, Tone::Bold)]
    }
}

pub fn immersive_item(label: &str, active: bool) -> (r: Vec<Styled>)
    ensures
        line_view(r@) == immersive_item_spec(label@, active),
{
    if active {
        line2(styled(label, Tone::Accent), styled("  active", Tone::Dim))
    } else {
        line1(styled(label, Tone::Bold))
    }
}

/// The body of a screen.
#[derive(Debug)]
pub enum Body {
    /// Rows with the highlighted one; `empty` is shown when there are none.
    List { items: Vec<Vec<Styled>>, empty: String, highlight: usize },
    Text { lines: Vec<Vec<Styled>> },
    /// A summary above a list of rows.
    Connections {
        summary: Vec<Vec<Styled>>,
        items: Vec<Vec<Styled>>,
        empty: String,
        highlight: usize,
    },
}

pub enum BodyView {
    List { items: Seq<Seq<StyledView>>, empty: Seq<char>, highlight: usize },
    Text { lines: Seq<Seq<StyledView>> },
    Connections {
        summary: Seq<Seq<StyledView>>,
        items: Seq<Seq<StyledView>>,
        empty: Seq<char>,
        highlight: usize,
    },
}

impl View for Body {
    type V = BodyView;

    open spec fn view(&self) -> BodyView {
        match self {
            Body::List { items, empty, highlight } => BodyView::List {
                items: lines_view(items@),
                empty: empty@,
                highlight: *highlight,
            },
            Body::Text { lines } => BodyView::Text { lines: lines_view(lines@) },
            Body::Connections { summary, items, empty, highlight } => BodyView::Connections {
                summary: lines_view(summary@),
                items: lines_view(items@),
                empty: empty@,
                highlight: *highlight,
            },
        }
    }
}

/// A whole screen: header, body, status line and key help.
#[derive(Debug)]
pub struct Page {
    pub header: Vec<Styled>,
    pub body: Body,
    pub status: Vec<Styled>,
    pub help: String,
}

pub struct PageView {
    pub header: Seq<StyledView>,
    pub body: BodyView,
    pub status: Seq<StyledView>,
    pub help: Seq<char>,
}

impl View for Page {
    type V = PageView;

    open spec fn view(&self) -> PageView {
        PageView {
            header: line_view(self.header@),
            body: self.body@,
            status: line_view(self.status@),
            help: self.help@,
        }
    }
}

/// The highlighted row: the selection, kept within the rows.
pub open spec fn highlight_of(selected: usize, len: nat) -> usize {
    if selected < len {
        selected
    } else if len == 0 {
        0
    } else {
        (len - 1) as usize
    }
}

fn highlight(selected: usize, len: usize) -> (r: usize)
    ensures
        r == highlight_of(selected, len as nat),
{
    if selected < len {
        selected
    } else if len == 0 {
        0
    } else {
        len - 1
    }
}

pub open spec fn device_items(rows: Seq<TuiDeviceView>) -> Seq<Seq<StyledView>> {
    rows.map_values(|d: TuiDeviceView| device_item_spec(d))
}

/// A mode is shown active when the active mode names it, ignoring ASCII case.
pub open spec fn mode_is_active(active: Option<Seq<char>>, name: Seq<char>) -> bool {
    match active {
        Some(a) => eq_ignore_case(a, name),
        None => false,
    }
}

pub open spec fn mode_items(ms: Seq<ModeView>, active: Option<Seq<char>>) -> Seq<Seq<StyledView>> {
    ms.map_values(|m: ModeView| mode_item_spec(m, mode_is_active(active, m.name)))
}

pub open spec fn actions_items() -> Seq<Seq<StyledView>> {
    seq![
        action_item_spec("Modes"@),
        action_item_spec("Noise control"@),
        action_item_spec("Immersive Audio"@),
        action_item_spec("Connections"@),
    ]
}

pub open spec fn immersive_active(v: ImmersiveAudio, label: Seq<char>) -> bool {
    eq_ignore_case(immersive_text(v), label)
}

pub open spec fn immersive_items(v: ImmersiveAudio) -> Seq<Seq<StyledView>> {
    seq![
        immersive_item_spec("Off"@, immersive_active(v, "Off"@)),
        immersive_item_spec("Still"@, immersive_active(v, "Still"@)),
        immersive_item_spec("Motion"@, immersive_active(v, "Motion"@)),
    ]
}

/// A dim label, two spaces, then a value.
pub open spec fn labeled_spec(label: Seq<char>, value: Seq<char>, tone: Tone) -> Seq<StyledView> {
    seq![sv(label, Tone::Dim), sv("  "@, Tone::Plain), sv(value, tone)]
}

fn labeled(label: &str, value: String, tone: Tone) -> (r: Vec<Styled>)
    ensures
        line_view(r@) == labeled_spec(label@, value@, tone),
{
    line3(styled(label, Tone::Dim), styled("  ", Tone::Plain), Styled { text: value, tone })
}

pub open spec fn noise_lines(enabled: bool, level: u8) -> Seq<Seq<StyledView>> {
    seq![
        labeled_spec("enabled"@, on_off(enabled), Tone::Bold),
        labeled_spec("level"@, decimal(level as nat) + "/10"@, Tone::Bold),
        labeled_spec("control"@, "space toggle  ←→ or -/+ adjust"@, Tone::Plain),
    ]
}

pub open spec fn connection_summary(selected: Option<DeviceView>, scan_status: Seq<char>) -> Seq<
    Seq<StyledView>,
> {
    seq![
        labeled_spec("selected"@, match selected {
            Some(d) => device_display(d),
            None => "<none>"@,
        }, Tone::Bold),
        labeled_spec("scan"@, scan_status, Tone::Plain),
        labeled_spec("sync"@, "mode/noise/immersive apply via BMAP when supported"@, Tone::Plain),
    ]
}

/// What the body of the current screen shows.
pub open spec fn body_spec<Sv, Sy>(a: App<Sv, Sy>) -> BodyView {
    let rows = device_items(row_views(a.devices@));
    match a.screen {
        Screen::Devices => BodyView::List {
            items: rows,
            empty: a.scan_status@,
            highlight: highlight_of(a.selected, rows.len()),
        },
        Screen::Actions => BodyView::List {
            items: actions_items(),
            empty: "Choose a section."@,
            highlight: highlight_of(a.selected, 4),
        },
        Screen::Modes => {
            let items = mode_items(all_mode_views(a.config@), a.config@.active_mode);
            BodyView::List {
                items,
                empty: "Enter applies the selected mode and syncs supported headphones."@,
                highlight: highlight_of(a.selected, items.len()),
            }
        },
        Screen::Noise => BodyView::Text { lines: noise_lines(a.noise_enabled, a.noise_level) },
        Screen::Immersive => BodyView::List {
            items: immersive_items(a.config.immersive),
            empty: "Enter applies the selected immersive setting and syncs supported headphones."@,
            highlight: highlight_of(a.selected, 3),
        },
        Screen::Connections => BodyView::Connections {
            summary: connection_summary(a.config@.selected_device, a.scan_status@),
            items: rows,
            empty: "No known devices."@,
            highlight: highlight_of(a.selected, rows.len()),
        },
    }
}

pub open spec fn page_spec<Sv, Sy>(a: App<Sv, Sy>) -> PageView {
    PageView {
        header: header_spec(a.screen),
        body: body_spec(a),
        status: status_spec(a.message@, a.saved),
        help: help_for(a.screen),
    }
}

fn device_rows(devices: &Vec<TuiDevice>) -> (r: Vec<Vec<Styled>>)
    ensures
        lines_view(r@) == device_items(row_views(devices@)),
{
    let mut items: Vec<Vec<Styled>> = Vec::new();
    let n = devices.len();
    for i in 0..n
        invariant
            n == devices@.len(),
            items@.len() == i,
            forall|k: int| 0 <= k < i ==> #[trigger] line_view(items@[k]@) == device_item_spec(
                devices@[k]@,
            ),
    {
        items.push(device_item(&devices[i]));
    }
    assert(lines_view(items@) =~= device_items(row_views(devices@)));
    items
}

fn mode_rows(modes: &Vec<ModePreset>, active: &Option<String>) -> (r: Vec<Vec<Styled>>)
    ensures
        lines_view(r@) == mode_items(
            mode_views(modes@),
            match active {
                Some(a) => Some(a@),
                None => None,
            },
        ),
{
    let ghost act = match active {
        Some(a) => Some(a@),
        None => None::<Seq<char>>,
    };
    proof {
        lemma_mode_views(modes@);
    }
    let mut items: Vec<Vec<Styled>> = Vec::new();
    let n = modes.len();
    for i in 0..n
        invariant
            n == modes@.len(),
            items@.len() == i,
            act == match active {
                Some(a) => Some(a@),
                None => None::<Seq<char>>,
            },
            forall|k: int| 0 <= k < i ==> #[trigger] line_view(items@[k]@) == mode_item_spec(
                modes@[k]@,
                mode_is_active(act, modes@[k]@.name),
            ),
    {
        let is_active = match active {
            Some(a) => str_eq_ignore_ascii_case(a.as_str(), modes[i].name.as_str()),
            None => false,
        };
        items.push(mode_item(&modes[i], is_active));
    }
    assert(lines_view(items@) =~= mode_items(mode_views(modes@), act));
    items
}

fn immersive_rows(current: ImmersiveAudio) -> (r: Vec<Vec<Styled>>)
    ensures
        lines_view(r@) == immersive_items(current),
{
    let mut items: Vec<Vec<Styled>> = Vec::new();
    let shown = current.as_str();
    items.push(immersive_item("Off", str_eq_ignore_ascii_case(shown, "Off")));
    items.push(immersive_item("Still", str_eq_ignore_ascii_case(shown, "Still")));
    items.push(immersive_item("Motion", str_eq_ignore_ascii_case(shown, "Motion")));
    assert(lines_view(items@) =~= immersive_items(current));
    items
}

impl<Sv, Sy> App<Sv, Sy> {
    /// What the current screen shows.
    pub fn page(&self) -> (r: Page)
        ensures
            r@ == page_spec(*self),
    {
        let body = match self.screen {
            Screen::Devices => {
                let items = device_rows(&self.devices);
                let highlight = highlight(self.selected, items.len());
                Body::List { items, empty: self.scan_status.clone(), highlight }
            },
            Screen::Actions => {
                let mut items: Vec<Vec<Styled>> = Vec::new();
                items.push(action_item("Modes"));
                items.push(action_item("Noise control"));
                items.push(action_item("Immersive Audio"));
                items.push(action_item("Connections"));
                assert(lines_view(items@) =~= actions_items());
                Body::List {
                    items,
                    empty: String::from_str("Choose a section."),
                    highlight: highlight(self.selected, 4),
                }
            },
            Screen::Modes => {
                let modes = self.config.all_modes();
                let items = mode_rows(&modes, &self.config.active_mode);
                let highlight = highlight(self.selected, items.len());
                Body::List {
                    items,
                    empty: String::from_str(
                        "Enter applies the selected mode and syncs supported headphones.",
                    ),
                    highlight,
                }
            },
            Screen::Noise => {
                let mut level = String::new();
                push_decimal(&mut level, self.noise_level as u64);
                level.append("/10");
                let mut lines: Vec<Vec<Styled>> = Vec::new();
                lines.push(
                    labeled(
                        "enabled",
                        String::from_str(if self.noise_enabled {
                            "on"
                        } else {
                            "off"
                        }),
                        Tone::Bold,
                    ),
                );
                lines.push(labeled("level", level, Tone::Bold));
                lines.push(
                    labeled(
                        "control",
                        String::from_str("space toggle  ←→ or -/+ adjust"),
                        Tone::Plain,
                    ),
                );
                assert(lines_view(lines@) =~= noise_lines(self.noise_enabled, self.noise_level));
                Body::Text { lines }
            },
            Screen::Immersive => Body::List {
                items: immersive_rows(self.config.immersive),
                empty: String::from_str(
                    "Enter applies the selected immersive setting and syncs supported headphones.",
                ),
                highlight: highlight(self.selected, 3),
            },
            Screen::Connections => {
                let selected = match &self.config.selected_device {
                    Some(d) => d.display(),
                    None => String::from_str("<none>"),
                };
                let mut summary: Vec<Vec<Styled>> = Vec::new();
                summary.push(labeled("selected", selected, Tone::Bold));
                summary.push(labeled("scan", self.scan_status.clone(), Tone::Plain));
                summary.push(
                    labeled(
                        "sync",
                        String::from_str("mode/noise/immersive apply via BMAP when supported"),
                        Tone::Plain,
                    ),
                );
                assert(lines_view(summary@) =~= connection_summary(
                    self.config@.selected_device,
                    self.scan_status@,
                ));
                let items = device_rows(&self.devices);
                let highlight = highlight(self.selected, items.len());
                Body::Connections {
                    summary,
                    items,
                    empty: String::from_str("No known devices."),
                    highlight,
                }
            },
        };
        Page {
            header: header_line(self.screen),
            body,
            status: status_line(self.message.as_str(), self.saved),
            help: String::from_str(help_text(self.screen)),
        }
    }
}

} // verus!
