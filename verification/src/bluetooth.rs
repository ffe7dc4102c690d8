//! Bluetooth device listings: devices found by a scan or by the system's
//! device list, merged into one table keyed by normalized address.
use vstd::prelude::*;
use crate::config::{lex_less, str_less};
use crate::domain::{clone_opt_string, opt_text};
use crate::fzf::{all_digits, digits_value, is_digit, lemma_digits_value_monotone};
use crate::text::{ascii_lower, eq_ignore_case, join, join_strings, str_equal};

verus! {

/// A device seen during discovery.
#[derive(Debug)]
pub struct ScannedDevice {
    pub name: Option<String>,
    pub address: String,
    pub rssi: Option<i16>,
    pub connected: bool,
}

pub struct ScannedView {
    pub name: Option<Seq<char>>,
    pub address: Seq<char>,
    pub rssi: Option<i16>,
    pub connected: bool,
}

impl View for ScannedDevice {
    type V = ScannedView;

    open spec fn view(&self) -> ScannedView {
        ScannedView {
            name: opt_text(self.name),
            address: self.address@,
            rssi: self.rssi,
            connected: self.connected,
        }
    }
}

impl Clone for ScannedDevice {
    fn clone(&self) -> (r: Self)
        ensures
            r == *self,
    {
        ScannedDevice {
            name: clone_opt_string(&self.name),
            address: self.address.clone(),
            rssi: self.rssi,
            connected: self.connected,
        }
    }
}

/// The lowercase mapping of a character, as `char::to_lowercase` yields it.
pub uninterp spec fn char_lowercase(c: char) -> Seq<char>;

/// The lowercase of a character as `char::to_lowercase` yields it: for
/// ASCII, the ASCII lowercase; otherwise the Unicode mapping.
pub open spec fn lowercase_chars(c: char) -> Seq<char> {
    if c <= '\u{7f}' {
        seq![ascii_lower(c)]
    } else {
        char_lowercase(c)
    }
}

/// Calls `char::to_lowercase` and collects what it yields. The contract
/// names that result, since the Unicode case tables are not restated here,
/// and states the ASCII case: `A`..`Z` become `a`..`z`, other ASCII
/// characters have no lowercase mapping and stay as they are.
#[verifier::external_body]
fn lowercase_of(c: char) -> (r: String)
    ensures
        r@ == char_lowercase(c),
        c <= '\u{7f}' ==> r@ == seq![ascii_lower(c)],
{
    c.to_lowercase().collect()
}

/// A JSON value of the system's device listing. Numbers that are not 64-bit
/// integers are kept only as `OtherNumber`, since nothing here reads them.
#[derive(Debug)]
pub enum JsonValue {
    Null,
    Bool(bool),
    Integer(i64),
    OtherNumber,
    Text(String),
    Array(Vec<JsonValue>),
    Object(Vec<JsonMember>),
}

/// A member of a JSON object. Members come in the order that serde_json's map
/// yields them: sorted by key, as its default map is a `BTreeMap`.
#[derive(Debug)]
pub struct JsonMember {
    pub key: String,
    pub value: JsonValue,
}

/// The value of the first member named `key`.
pub open spec fn member_lookup(ms: Seq<JsonMember>, key: Seq<char>) -> Option<JsonValue>
    decreases ms.len(),
{
    if ms.len() == 0 {
        None
    } else if ms[0].key@ == key {
        Some(ms[0].value)
    } else {
        member_lookup(ms.drop_first(), key)
    }
}

/// `Value::get`: the member `key` of an object; nothing for other values.
pub open spec fn json_get(v: JsonValue, key: Seq<char>) -> Option<JsonValue> {
    match v {
        JsonValue::Object(ms) => member_lookup(ms@, key),
        _ => None,
    }
}

fn json_get_exec<'a>(v: &'a JsonValue, key: &str) -> (r: Option<&'a JsonValue>)
    ensures
        r matches Some(x) ==> json_get(*v, key@) == Some(*x),
        r is None ==> json_get(*v, key@) is None,
{
    match v {
        JsonValue::Object(ms) => {
            let n = ms.len();
            proof {
                assert(ms@.skip(0) =~= ms@);
            }
            for i in 0..n
                invariant
                    n == ms@.len(),
                    json_get(*v, key@) == member_lookup(ms@, key@),
                    member_lookup(ms@, key@) == member_lookup(ms@.skip(i as int), key@),
            {
                proof {
                    assert(ms@.skip(i as int)[0] == ms@[i as int]);
                    assert(ms@.skip(i as int).drop_first() =~= ms@.skip(i + 1));
                }
                if str_equal(ms[i].key.as_str(), key) {
                    assert(member_lookup(ms@.skip(i as int), key@) == Some(ms@[i as int].value));
                    return Some(&ms[i].value);
                }
            }
            assert(ms@.skip(n as int) =~= Seq::<JsonMember>::empty());
            None
        },
        _ => None,
    }
}

/// The digits of a number after its optional sign.
pub open spec fn signed_digits(s: Seq<char>) -> Seq<char> {
    if s.len() > 0 && (s[0] == '+' || s[0] == '-') {
        s.drop_first()
    } else {
        s
    }
}

/// `i16::from_str`: an optional sign, then at least one digit, within range.
pub open spec fn parse_i16_spec(s: Seq<char>) -> Option<i16> {
    let negative = s.len() > 0 && s[0] == '-';
    let d = signed_digits(s);
    if d.len() == 0 || !all_digits(d) {
        None
    } else if negative {
        if digits_value(d) <= 32768 {
            Some((0 - digits_value(d)) as i16)
        } else {
            None
        }
    } else if digits_value(d) <= 32767 {
        Some(digits_value(d) as i16)
    } else {
        None
    }
}

fn parse_i16(s: &str) -> (r: Option<i16>)
    ensures
        r == parse_i16_spec(s@),
{
    let n = s.unicode_len();
    let signed = n > 0 && (s.get_char(0) == '+' || s.get_char(0) == '-');
    let negative = n > 0 && s.get_char(0) == '-';
    let start: usize = if signed {
        1
    } else {
        0
    };
    let ghost d = s@.skip(start as int);
    proof {
        if signed {
            assert(d =~= s@.drop_first());
        } else {
            assert(d =~= s@);
        }
        assert(d == signed_digits(s@));
    }
    if start >= n {
        return None;
    }
    let mut value: u32 = 0;
    let mut i = start;
    while i < n
        invariant
            start <= i <= n,
            start < n,
            n == s@.len(),
            d == s@.skip(start as int),
            d == signed_digits(s@),
            negative == (s@.len() > 0 && s@[0] == '-'),
            forall|k: int| 0 <= k < i - start ==> is_digit(#[trigger] d[k]),
            value as nat == digits_value(d.take(i - start)),
            value <= 32768,
        decreases n - i,
    {
        let c = s.get_char(i);
        assert(d[i - start] == c);
        if !('0' <= c && c <= '9') {
            assert(!is_digit(d[i - start]));
            assert(!all_digits(d));
            return None;
        }
        let digit: u32 = (c as u32) - 48;
        let ghost t = d.take(i - start + 1);
        assert(t.drop_last() =~= d.take(i - start));
        assert(t.last() == c);
        value = value * 10 + digit;
        assert(value as nat == digits_value(t));
        if value > 32768 {
            proof {
                if all_digits(d) {
                    lemma_digits_value_monotone(d, i - start + 1);
                }
            }
            return None;
        }
        i = i + 1;
    }
    assert(d.take(n - start) =~= d);
    assert(all_digits(d));
    if negative {
        Some((0 - (value as i32)) as i16)
    } else if value <= 32767 {
        Some(value as i16)
    } else {
        None
    }
}

/// The signal strength of a listed device: an integer, or text that reads
/// as one, within `i16`.
pub open spec fn rssi_of(props: JsonValue) -> Option<i16> {
    match json_get(props, "device_rssi"@) {
        Some(JsonValue::Integer(v)) => if i16::MIN <= v <= i16::MAX {
            Some(v as i16)
        } else {
            None
        },
        Some(JsonValue::Text(t)) => parse_i16_spec(t@),
        _ => None,
    }
}

pub fn parse_macos_device_rssi(props: &JsonValue) -> (r: Option<i16>)
    ensures
        r == rssi_of(*props),
{
    proof {
        reveal_strlit("device_rssi");
    }
    match json_get_exec(props, "device_rssi") {
        Some(JsonValue::Integer(v)) => if -32768 <= *v && *v <= 32767 {
            Some(*v as i16)
        } else {
            None
        },
        Some(JsonValue::Text(t)) => parse_i16(t.as_str()),
        _ => None,
    }
}

#[verifier::external_type_specification]
#[verifier::external_body]
pub struct ExJsonDocument(serde_json::Value);

/// What `serde_json::from_slice` makes of some bytes, as a `JsonValue`, or
/// its error message.
pub uninterp spec fn json_parse(bytes: Seq<u8>) -> Result<JsonValue, Seq<char>>;

pub open spec fn json_result_view(r: Result<JsonValue, String>) -> Result<JsonValue, Seq<char>> {
    match r {
        Ok(v) => Ok(v),
        Err(e) => Err(e@),
    }
}

/// Copies a `serde_json::Value` into a `JsonValue`, member for member.
#[verifier::external_body]
fn json_value(value: &serde_json::Value) -> JsonValue {
    match value {
        serde_json::Value::Null => JsonValue::Null,
        serde_json::Value::Bool(b) => JsonValue::Bool(*b),
        serde_json::Value::Number(n) => match n.as_i64() {
            Some(i) => JsonValue::Integer(i),
            None => JsonValue::OtherNumber,
        },
        serde_json::Value::String(t) => JsonValue::Text(t.clone()),
        serde_json::Value::Array(items) => JsonValue::Array(items.iter().map(json_value).collect()),
        serde_json::Value::Object(members) => JsonValue::Object(
            members.iter().map(|(k, v)| JsonMember { key: k.clone(), value: json_value(v) }).collect(),
        ),
    }
}

/// Parses JSON text with `serde_json::from_slice`; the contract names the
/// result, since the JSON grammar is not restated here.
#[verifier::external_body]
fn parse_json(bytes: &[u8]) -> (r: Result<JsonValue, String>)
    ensures
        json_result_view(r) == json_parse(bytes@),
{
    match serde_json::from_slice::<serde_json::Value>(bytes) {
        Ok(v) => Ok(json_value(&v)),
        Err(e) => Err(e.to_string()),
    }
}

/// The devices in the output of `system_profiler SPBluetoothDataType -json`.
pub fn parse_macos_listing(output: &[u8]) -> (r: Result<Vec<ScannedDevice>, String>)
    ensures
        json_parse(output@) matches Ok(v) ==> (r matches Ok(ds) && scanned_views(ds@)
            == macos_devices_spec(v)),
        json_parse(output@) matches Err(e) ==> (r matches Err(m) && m@
            == "parse system_profiler Bluetooth JSON: "@ + e),
{
    match parse_json(output) {
        Ok(v) => Ok(parse_macos_known_devices(&v)),
        Err(e) => {
            let mut m = String::from_str("parse system_profiler Bluetooth JSON: ");
            m.append(e.as_str());
            Err(m)
        },
    }
}

/// A named member of a listing entry, as a device: it needs a non-empty
/// `device_address`.
pub open spec fn member_device(m: JsonMember, connected: bool) -> Option<ScannedView> {
    match json_get(m.value, "device_address"@) {
        Some(JsonValue::Text(a)) => if a@.len() > 0 {
            Some(
                ScannedView { name: Some(m.key@), address: a@, rssi: rssi_of(m.value), connected },
            )
        } else {
            None
        },
        _ => None,
    }
}

pub open spec fn opt_seq(o: Option<ScannedView>) -> Seq<ScannedView> {
    match o {
        Some(d) => seq![d],
        None => Seq::empty(),
    }
}

/// The devices of the members of one entry, in order.
pub open spec fn entry_devices(ms: Seq<JsonMember>, connected: bool) -> Seq<ScannedView>
    decreases ms.len(),
{
    if ms.len() == 0 {
        Seq::empty()
    } else {
        entry_devices(ms.drop_last(), connected) + opt_seq(member_device(ms.last(), connected))
    }
}

/// The devices of a list of entries; entries that are not objects are skipped.
pub open spec fn list_devices(es: Seq<JsonValue>, connected: bool) -> Seq<ScannedView>
    decreases es.len(),
{
    if es.len() == 0 {
        Seq::empty()
    } else {
        list_devices(es.drop_last(), connected) + match es.last() {
            JsonValue::Object(ms) => entry_devices(ms@, connected),
            _ => Seq::empty(),
        }
    }
}

/// The devices listed under `field` of a controller, when it is an array.
pub open spec fn field_devices(c: JsonValue, field: Seq<char>, connected: bool) -> Seq<ScannedView> {
    match json_get(c, field) {
        Some(JsonValue::Array(es)) => list_devices(es@, connected),
        _ => Seq::empty(),
    }
}

/// A controller's connected devices, then its other known devices.
pub open spec fn controller_devices(c: JsonValue) -> Seq<ScannedView> {
    field_devices(c, "device_connected"@, true) + field_devices(c, "device_not_connected"@, false)
}

pub open spec fn controllers_devices(cs: Seq<JsonValue>) -> Seq<ScannedView>
    decreases cs.len(),
{
    if cs.len() == 0 {
        Seq::empty()
    } else {
        controllers_devices(cs.drop_last()) + controller_devices(cs.last())
    }
}

/// The devices of `system_profiler SPBluetoothDataType -json` output.
pub open spec fn macos_devices_spec(v: JsonValue) -> Seq<ScannedView> {
    match json_get(v, "SPBluetoothDataType"@) {
        Some(JsonValue::Array(cs)) => controllers_devices(cs@),
        _ => Seq::empty(),
    }
}

pub open spec fn scanned_views(ds: Seq<ScannedDevice>) -> Seq<ScannedView> {
    ds.map_values(|d: ScannedDevice| d@)
}

fn push_member_device(out: &mut Vec<ScannedDevice>, m: &JsonMember, connected: bool)
    ensures
        scanned_views(final(out)@) == scanned_views(old(out)@) + opt_seq(
            member_device(*m, connected),
        ),
{
    proof {
        reveal_strlit("device_address");
    }
    let ghost before = out@;
    match json_get_exec(&m.value, "device_address") {
        Some(JsonValue::Text(a)) => {
            if a.as_str().unicode_len() > 0 {
                let d = ScannedDevice {
                    name: Some(m.key.clone()),
                    address: a.clone(),
                    rssi: parse_macos_device_rssi(&m.value),
                    connected,
                };
                out.push(d);
                assert(scanned_views(out@) =~= scanned_views(before) + opt_seq(
                    member_device(*m, connected),
                ));
            } else {
                assert(scanned_views(out@) =~= scanned_views(before) + Seq::<ScannedView>::empty());
            }
        },
        _ => {
            assert(scanned_views(out@) =~= scanned_views(before) + Seq::<ScannedView>::empty());
        },
    }
}

fn push_list_devices(out: &mut Vec<ScannedDevice>, es: &Vec<JsonValue>, connected: bool)
    ensures
        scanned_views(final(out)@) == scanned_views(old(out)@) + list_devices(es@, connected),
{
    let ghost start = scanned_views(out@);
    let n = es.len();
    assert(es@.take(0) =~= Seq::<JsonValue>::empty());
    assert(start + Seq::<ScannedView>::empty() =~= start);
    for i in 0..n
        invariant
            n == es@.len(),
            scanned_views(out@) == start + list_devices(es@.take(i as int), connected),
    {
        let ghost mid = scanned_views(out@);
        assert(es@.take(i + 1).drop_last() =~= es@.take(i as int));
        assert(es@.take(i + 1).last() == es@[i as int]);
        match &es[i] {
            JsonValue::Object(ms) => {
                let m = ms.len();
                assert(ms@.take(0) =~= Seq::<JsonMember>::empty());
                assert(mid + Seq::<ScannedView>::empty() =~= mid);
                for j in 0..m
                    invariant
                        m == ms@.len(),
                        scanned_views(out@) == mid + entry_devices(ms@.take(j as int), connected),
                {
                    assert(ms@.take(j + 1).drop_last() =~= ms@.take(j as int));
                    assert(ms@.take(j + 1).last() == ms@[j as int]);
                    push_member_device(out, &ms[j], connected);
                    assert(scanned_views(out@) =~= mid + entry_devices(ms@.take(j + 1), connected));
                }
                assert(ms@.take(m as int) =~= ms@);
                assert(scanned_views(out@) =~= start + list_devices(es@.take(i + 1), connected));
            },
            _ => {
                assert(scanned_views(out@) =~= start + list_devices(es@.take(i + 1), connected));
            },
        }
    }
    assert(es@.take(n as int) =~= es@);
}

fn push_field_devices(out: &mut Vec<ScannedDevice>, c: &JsonValue, field: &str, connected: bool)
    ensures
        scanned_views(final(out)@) == scanned_views(old(out)@) + field_devices(*c, field@, connected),
{
    match json_get_exec(c, field) {
        Some(JsonValue::Array(es)) => push_list_devices(out, es, connected),
        _ => {
            assert(scanned_views(out@) =~= scanned_views(out@) + Seq::<ScannedView>::empty());
        },
    }
}

/// The devices that the system's Bluetooth listing knows: for each
/// controller, its connected devices, then the others; entries without a
/// non-empty address are skipped.
pub fn parse_macos_known_devices(value: &JsonValue) -> (r: Vec<ScannedDevice>)
    ensures
        scanned_views(r@) == macos_devices_spec(*value),
{
    proof {
        reveal_strlit("SPBluetoothDataType");
        reveal_strlit("device_connected");
        reveal_strlit("device_not_connected");
    }
    let mut out: Vec<ScannedDevice> = Vec::new();
    assert(scanned_views(out@) =~= Seq::<ScannedView>::empty());
    match json_get_exec(value, "SPBluetoothDataType") {
        Some(JsonValue::Array(cs)) => {
            let n = cs.len();
            assert(cs@.take(0) =~= Seq::<JsonValue>::empty());
            for i in 0..n
                invariant
                    n == cs@.len(),
                    scanned_views(out@) == controllers_devices(cs@.take(i as int)),
            {
                let ghost before = scanned_views(out@);
                assert(cs@.take(i + 1).drop_last() =~= cs@.take(i as int));
                assert(cs@.take(i + 1).last() == cs@[i as int]);
                push_field_devices(&mut out, &cs[i], "device_connected", true);
                push_field_devices(&mut out, &cs[i], "device_not_connected", false);
                assert(scanned_views(out@) =~= controllers_devices(cs@.take(i + 1)));
            }
            assert(cs@.take(n as int) =~= cs@);
        },
        _ => {},
    }
    out
}

pub open spec fn is_address_separator(c: char) -> bool {
    c == ':' || c == '-' || c == ' '
}

/// An address without `:`, `-` and spaces, lowercased, so that the
/// spellings of one address meet.
pub open spec fn address_key(s: Seq<char>) -> Seq<char>
    decreases s.len(),
{
    if s.len() == 0 {
        s
    } else if is_address_separator(s.last()) {
        address_key(s.drop_last())
    } else {
        address_key(s.drop_last()) + lowercase_chars(s.last())
    }
}

pub fn device_key(address: &str) -> (r: String)
    ensures
        r@ == address_key(address@),
{
    let n = address.unicode_len();
    let mut out = String::new();
    assert(address@.take(0) =~= Seq::<char>::empty());
    for i in 0..n
        invariant
            n == address@.len(),
            out@ == address_key(address@.take(i as int)),
    {
        let c = address.get_char(i);
        assert(address@.take(i + 1).drop_last() =~= address@.take(i as int));
        if !(c == ':' || c == '-' || c == ' ') {
            let lower = lowercase_of(c);
            out.append(lower.as_str());
        }
    }
    assert(address@.take(n as int) =~= address@);
    out
}

/// A table entry: a device under its key.
pub struct DeviceEntry {
    pub key: String,
    pub device: ScannedDevice,
}

pub struct EntryView {
    pub key: Seq<char>,
    pub device: ScannedView,
}

impl View for DeviceEntry {
    type V = EntryView;

    open spec fn view(&self) -> EntryView {
        EntryView { key: self.key@, device: self.device@ }
    }
}

pub open spec fn entry_views(es: Seq<DeviceEntry>) -> Seq<EntryView> {
    es.map_values(|e: DeviceEntry| e@)
}

/// Devices ordered by key, each key once, as a `BTreeMap` keyed by
/// `device_key` holds them. vstd states what a `BTreeMap` holds only for keys
/// whose order it specifies (`obeys_cmp`), which `String` keys are not; so the
/// entries are a `Vec` kept in key order, with that order as the invariant.
pub struct DeviceTable {
    entries: Vec<DeviceEntry>,
}

/// Keys strictly increase, and each key is the key of its device's address.
pub open spec fn table_wf(t: Seq<EntryView>) -> bool {
    &&& forall|i: int, j: int|
        0 <= i < j < t.len() ==> lex_less(#[trigger] t[i].key, #[trigger] t[j].key)
    &&& forall|i: int| 0 <= i < t.len() ==> #[trigger] t[i].key == address_key(t[i].device.address)
}

/// What a second sighting of a known device changes: a name when none was
/// known or the sighting is connected, a signal strength when one came, and
/// the connected flag, which stays set once set.
pub open spec fn merge_sighting(existing: ScannedView, seen: ScannedView) -> ScannedView {
    ScannedView {
        name: if seen.name is Some && (existing.name is None || seen.connected) {
            seen.name
        } else {
            existing.name
        },
        address: existing.address,
        rssi: if seen.rssi is Some {
            seen.rssi
        } else {
            existing.rssi
        },
        connected: existing.connected || seen.connected,
    }
}

/// Recording a sighting under `key`: merged into the entry with that key,
/// else inserted before the first larger key.
pub open spec fn upsert_spec(t: Seq<EntryView>, key: Seq<char>, d: ScannedView) -> Seq<EntryView>
    decreases t.len(),
{
    if t.len() == 0 {
        seq![EntryView { key, device: d }]
    } else if t[0].key == key {
        seq![EntryView { key, device: merge_sighting(t[0].device, d) }] + t.drop_first()
    } else if lex_less(key, t[0].key) {
        seq![EntryView { key, device: d }] + t
    } else {
        seq![t[0]] + upsert_spec(t.drop_first(), key, d)
    }
}

pub proof fn lemma_entry_views(es: Seq<DeviceEntry>)
    ensures
        entry_views(es).len() == es.len(),
        forall|i: int| 0 <= i < es.len() ==> #[trigger] entry_views(es)[i] == es[i]@,
{
}

/// `lex_less` is irreflexive.
pub proof fn lemma_lex_irreflexive(a: Seq<char>)
    ensures
        !lex_less(a, a),
    decreases a.len(),
{
    if a.len() > 0 {
        lemma_lex_irreflexive(a.drop_first());
    }
}

/// `lex_less` is transitive.
pub proof fn lemma_lex_transitive(a: Seq<char>, b: Seq<char>, c: Seq<char>)
    requires
        lex_less(a, b),
        lex_less(b, c),
    ensures
        lex_less(a, c),
    decreases a.len(),
{
    if a.len() > 0 && b.len() > 0 && c.len() > 0 && a[0] == b[0] && b[0] == c[0] {
        lemma_lex_transitive(a.drop_first(), b.drop_first(), c.drop_first());
    }
}

/// Two different sequences are ordered one way or the other.
pub proof fn lemma_lex_total(a: Seq<char>, b: Seq<char>)
    requires
        a != b,
    ensures
        lex_less(a, b) || lex_less(b, a),
    decreases a.len(),
{
    if a.len() == 0 {
        if b.len() == 0 {
            assert(a =~= b);
        }
    } else if b.len() == 0 {
    } else if a[0] == b[0] {
        if a.drop_first() == b.drop_first() {
            assert(a =~= seq![a[0]] + a.drop_first());
            assert(b =~= seq![b[0]] + b.drop_first());
        }
        lemma_lex_total(a.drop_first(), b.drop_first());
    }
}

proof fn lemma_upsert_shape(t: Seq<EntryView>, key: Seq<char>, d: ScannedView)
    requires
        table_wf(t),
        key == address_key(d.address),
    ensures
        table_wf(upsert_spec(t, key, d)),
        forall|i: int|
            0 <= i < upsert_spec(t, key, d).len() ==> (#[trigger] upsert_spec(t, key, d)[i].key
                == key || t.map_values(|e: EntryView| e.key).contains(upsert_spec(t, key, d)[i].key)),
    decreases t.len(),
{
    let u = upsert_spec(t, key, d);
    let keys = t.map_values(|e: EntryView| e.key);
    if t.len() == 0 {
    } else if t[0].key == key {
        assert forall|i: int| 0 <= i < u.len() implies (#[trigger] u[i].key == key
            || keys.contains(u[i].key)) by {
            if i > 0 {
                assert(u[i] == t[i]);
                assert(keys[i] == t[i].key);
            }
        }
        assert forall|i: int, j: int| 0 <= i < j < u.len() implies lex_less(
            #[trigger] u[i].key,
            #[trigger] u[j].key,
        ) by {
            assert(u[j] == t[j]);
            if i > 0 {
                assert(u[i] == t[i]);
            }
        }
        assert forall|i: int| 0 <= i < u.len() implies #[trigger] u[i].key == address_key(
            u[i].device.address,
        ) by {
            if i > 0 {
                assert(u[i] == t[i]);
            }
        }
    } else if lex_less(key, t[0].key) {
        assert forall|i: int| 0 <= i < u.len() implies (#[trigger] u[i].key == key
            || keys.contains(u[i].key)) by {
            if i > 0 {
                assert(u[i] == t[i - 1]);
                assert(keys[i - 1] == t[i - 1].key);
            }
        }
        assert forall|i: int, j: int| 0 <= i < j < u.len() implies lex_less(
            #[trigger] u[i].key,
            #[trigger] u[j].key,
        ) by {
            assert(u[j] == t[j - 1]);
            if i > 0 {
                assert(u[i] == t[i - 1]);
            } else if j - 1 > 0 {
                assert(lex_less(t[0].key, t[j - 1].key));
                lemma_lex_transitive(key, t[0].key, t[j - 1].key);
            }
        }
        assert forall|i: int| 0 <= i < u.len() implies #[trigger] u[i].key == address_key(
            u[i].device.address,
        ) by {
            if i > 0 {
                assert(u[i] == t[i - 1]);
            }
        }
    } else {
        let rest = t.drop_first();
        assert(table_wf(rest)) by {
            assert forall|i: int, j: int| 0 <= i < j < rest.len() implies lex_less(
                #[trigger] rest[i].key,
                #[trigger] rest[j].key,
            ) by {
                assert(rest[i] == t[i + 1] && rest[j] == t[j + 1]);
            }
            assert forall|i: int| 0 <= i < rest.len() implies #[trigger] rest[i].key == address_key(
                rest[i].device.address,
            ) by {
                assert(rest[i] == t[i + 1]);
            }
        }
        lemma_upsert_shape(rest, key, d);
        let ur = upsert_spec(rest, key, d);
        let rkeys = rest.map_values(|e: EntryView| e.key);
        lemma_lex_total(key, t[0].key);
        assert(lex_less(t[0].key, key));
        assert forall|i: int| 0 <= i < u.len() implies (#[trigger] u[i].key == key
            || keys.contains(u[i].key)) by {
            if i == 0 {
                assert(keys[0] == t[0].key);
            } else {
                assert(u[i] == ur[i - 1]);
                if ur[i - 1].key != key {
                    let k = choose|k: int| 0 <= k < rkeys.len() && rkeys[k] == ur[i - 1].key;
                    assert(keys[k + 1] == rest[k].key);
                }
            }
        }
        assert forall|i: int, j: int| 0 <= i < j < u.len() implies lex_less(
            #[trigger] u[i].key,
            #[trigger] u[j].key,
        ) by {
            assert(u[j] == ur[j - 1]);
            if i > 0 {
                assert(u[i] == ur[i - 1]);
            } else {
                assert(u[0] == t[0]);
                if ur[j - 1].key != key {
                    let k = choose|k: int| 0 <= k < rkeys.len() && rkeys[k] == ur[j - 1].key;
                    assert(rest[k] == t[k + 1]);
                    assert(lex_less(t[0].key, t[k + 1].key));
                }
            }
        }
        assert forall|i: int| 0 <= i < u.len() implies #[trigger] u[i].key == address_key(
            u[i].device.address,
        ) by {
            if i == 0 {
                assert(u[0] == t[0]);
            } else {
                assert(u[i] == ur[i - 1]);
            }
        }
    }
}

impl DeviceTable {
    #[verifier::type_invariant]
    spec fn wf(self) -> bool {
        table_wf(entry_views(self.entries@))
    }

    /// The entries, in key order.
    pub closed spec fn entries_view(self) -> Seq<EntryView> {
        entry_views(self.entries@)
    }

    pub fn new() -> (r: DeviceTable)
        ensures
            r.entries_view() == Seq::<EntryView>::empty(),
    {
        let r = DeviceTable { entries: Vec::new() };
        assert(entry_views(r.entries@) =~= Seq::<EntryView>::empty());
        r
    }

    pub fn len(&self) -> (r: usize)
        ensures
            r == self.entries_view().len(),
    {
        proof {
            lemma_entry_views(self.entries@);
        }
        self.entries.len()
    }

    /// The devices, in key order.
    pub fn values(&self) -> (r: Vec<ScannedDevice>)
        ensures
            r@.len() == self.entries_view().len(),
            forall|i: int| 0 <= i < r@.len() ==> #[trigger] r@[i]@ == self.entries_view()[i].device,
    {
        proof {
            lemma_entry_views(self.entries@);
        }
        let mut out: Vec<ScannedDevice> = Vec::new();
        let n = self.entries.len();
        for i in 0..n
            invariant
                n == self.entries@.len(),
                out@.len() == i,
                forall|k: int| 0 <= k < i ==> #[trigger] out@[k]@ == self.entries@[k].device@,
        {
            out.push(self.entries[i].device.clone());
        }
        out
    }

    /// Consumes the table, giving the devices in key order.
    pub fn into_values(self) -> (r: Vec<ScannedDevice>)
        ensures
            r@.len() == self.entries_view().len(),
            forall|i: int| 0 <= i < r@.len() ==> #[trigger] r@[i]@ == self.entries_view()[i].device,
    {
        self.values()
    }
}

fn merge_into(existing: &mut ScannedDevice, device: ScannedDevice)
    ensures
        final(existing)@ == merge_sighting(old(existing)@, device@),
{
    let ScannedDevice { name, rssi, connected, .. } = device;
    if name.is_some() && (existing.name.is_none() || connected) {
        existing.name = name;
    }
    if rssi.is_some() {
        existing.rssi = rssi;
    }
    existing.connected = existing.connected || connected;
}

/// Records a sighting: merged into the entry of the same key, else added.
pub fn upsert_device(devices: &mut DeviceTable, device: ScannedDevice)
    ensures
        final(devices).entries_view() == upsert_spec(
            old(devices).entries_view(),
            address_key(device@.address),
            device@,
        ),
        table_wf(final(devices).entries_view()),
{
    proof {
        use_type_invariant(&*devices);
    }
    let key = device_key(device.address.as_str());
    let ghost t = entry_views(devices.entries@);
    let ghost dv = device@;
    let mut entries: Vec<DeviceEntry> = Vec::new();
    std::mem::swap(&mut entries, &mut devices.entries);
    let n = entries.len();
    let mut k: usize = 0;
    proof {
        lemma_entry_views(entries@);
        assert(t.skip(0) =~= t);
        assert(t.take(0) =~= Seq::<EntryView>::empty());
    }
    while k < n && !(entries[k].key == key) && !str_less(key.as_str(), entries[k].key.as_str())
        invariant
            n == entries@.len(),
            k <= n,
            t == entry_views(entries@),
            upsert_spec(t, key@, dv) == t.take(k as int) + upsert_spec(t.skip(k as int), key@, dv),
        decreases n - k,
    {
        proof {
            lemma_entry_views(entries@);
            let s = t.skip(k as int);
            assert(s[0] == t[k as int]);
            assert(s.drop_first() =~= t.skip(k + 1));
            assert(t.take(k + 1) =~= t.take(k as int) + seq![s[0]]);
        }
        k = k + 1;
    }
    proof {
        lemma_entry_views(entries@);
    }
    if k < n && entries[k].key == key {
        let ghost s = t.skip(k as int);
        assert(s[0] == t[k as int]);
        let mut e = entries.remove(k);
        merge_into(&mut e.device, device);
        let ghost ev = e@;
        entries.insert(k, e);
        proof {
            lemma_entry_views(entries@);
            assert(entry_views(entries@) =~= t.take(k as int) + (seq![ev] + s.drop_first()));
        }
    } else {
        let ghost s = t.skip(k as int);
        if k < n {
            assert(s[0] == t[k as int]);
        }
        let e = DeviceEntry { key, device };
        let ghost ev = e@;
        entries.insert(k, e);
        proof {
            lemma_entry_views(entries@);
            assert(entry_views(entries@) =~= t.take(k as int) + (seq![ev] + s));
        }
    }
    proof {
        lemma_upsert_shape(t, address_key(dv.address), dv);
    }
    devices.entries = entries;
}

/// An address without its `:`, `-` and space separators.
pub open spec fn strip_separators(s: Seq<char>) -> Seq<char>
    decreases s.len(),
{
    if s.len() == 0 {
        s
    } else if is_address_separator(s.last()) {
        strip_separators(s.drop_last())
    } else {
        strip_separators(s.drop_last()).push(s.last())
    }
}

pub open spec fn is_ascii_text(s: Seq<char>) -> bool {
    forall|i: int| 0 <= i < s.len() ==> #[trigger] s[i] <= '\u{7f}'
}

proof fn lemma_ascii_key(s: Seq<char>)
    requires
        is_ascii_text(s),
    ensures
        address_key(s) == strip_separators(s).map_values(|c: char| ascii_lower(c)),
    decreases s.len(),
{
    if s.len() > 0 {
        let p = s.drop_last();
        assert(is_ascii_text(p)) by {
            assert forall|i: int| 0 <= i < p.len() implies #[trigger] p[i] <= '\u{7f}' by {
                assert(p[i] == s[i]);
            }
        }
        lemma_ascii_key(p);
        assert(s[s.len() - 1] <= '\u{7f}');
        if !is_address_separator(s.last()) {
            assert(strip_separators(s).map_values(|c: char| ascii_lower(c)) =~= strip_separators(
                p,
            ).map_values(|c: char| ascii_lower(c)) + seq![ascii_lower(s.last())]);
        }
    }
}

/// Spellings of one address that differ only in the case of ASCII letters
/// and in `:`, `-` and space separators have the same key, so their
/// sightings meet in one table entry.
pub proof fn lemma_address_spellings_share_key(a: Seq<char>, b: Seq<char>)
    requires
        is_ascii_text(a),
        is_ascii_text(b),
        eq_ignore_case(strip_separators(a), strip_separators(b)),
    ensures
        address_key(a) == address_key(b),
{
    lemma_ascii_key(a);
    lemma_ascii_key(b);
    let sa = strip_separators(a);
    let sb = strip_separators(b);
    assert(sa.map_values(|c: char| ascii_lower(c)) =~= sb.map_values(|c: char| ascii_lower(c)));
}

/// Every device named, with a non-empty address.
pub open spec fn named_with_address(s: Seq<ScannedView>) -> bool {
    forall|i: int| 0 <= i < s.len() ==> (#[trigger] s[i]).name is Some && s[i].address.len() > 0
}

proof fn lemma_named_concat(a: Seq<ScannedView>, b: Seq<ScannedView>)
    requires
        named_with_address(a),
        named_with_address(b),
    ensures
        named_with_address(a + b),
{
    assert forall|i: int| 0 <= i < (a + b).len() implies (#[trigger] (a + b)[i]).name is Some && (a
        + b)[i].address.len() > 0 by {
        if i < a.len() {
            assert((a + b)[i] == a[i]);
        } else {
            assert((a + b)[i] == b[i - a.len()]);
        }
    }
}

proof fn lemma_entry_named(ms: Seq<JsonMember>, connected: bool)
    ensures
        named_with_address(entry_devices(ms, connected)),
    decreases ms.len(),
{
    if ms.len() > 0 {
        lemma_entry_named(ms.drop_last(), connected);
        lemma_named_concat(
            entry_devices(ms.drop_last(), connected),
            opt_seq(member_device(ms.last(), connected)),
        );
    }
}

proof fn lemma_list_named(es: Seq<JsonValue>, connected: bool)
    ensures
        named_with_address(list_devices(es, connected)),
    decreases es.len(),
{
    if es.len() > 0 {
        lemma_list_named(es.drop_last(), connected);
        match es.last() {
            JsonValue::Object(ms) => lemma_entry_named(ms@, connected),
            _ => {},
        }
        lemma_named_concat(list_devices(es.drop_last(), connected), match es.last() {
            JsonValue::Object(ms) => entry_devices(ms@, connected),
            _ => Seq::empty(),
        });
    }
}

proof fn lemma_field_named(c: JsonValue, field: Seq<char>, connected: bool)
    ensures
        named_with_address(field_devices(c, field, connected)),
{
    match json_get(c, field) {
        Some(JsonValue::Array(es)) => lemma_list_named(es@, connected),
        _ => {},
    }
}

proof fn lemma_controllers_named(cs: Seq<JsonValue>)
    ensures
        named_with_address(controllers_devices(cs)),
    decreases cs.len(),
{
    if cs.len() > 0 {
        let c = cs.last();
        lemma_controllers_named(cs.drop_last());
        lemma_field_named(c, "device_connected"@, true);
        lemma_field_named(c, "device_not_connected"@, false);
        lemma_named_concat(
            field_devices(c, "device_connected"@, true),
            field_devices(c, "device_not_connected"@, false),
        );
        lemma_named_concat(controllers_devices(cs.drop_last()), controller_devices(c));
    }
}

/// Every device read from the system's listing carries the name it is listed
/// under and a non-empty address.
pub proof fn lemma_listed_devices_named_with_address(v: JsonValue)
    ensures
        named_with_address(macos_devices_spec(v)),
{
    match json_get(v, "SPBluetoothDataType"@) {
        Some(JsonValue::Array(cs)) => lemma_controllers_named(cs@),
        _ => {},
    }
}

/// Whether some entry of the table has `key`.
pub open spec fn has_key(t: Seq<EntryView>, key: Seq<char>) -> bool {
    exists|i: int| 0 <= i < t.len() && t[i].key == key
}

proof fn lemma_upsert_counts(t: Seq<EntryView>, key: Seq<char>, d: ScannedView)
    requires
        forall|i: int, j: int|
            0 <= i < j < t.len() ==> lex_less(#[trigger] t[i].key, #[trigger] t[j].key),
    ensures
        upsert_spec(t, key, d).len() == t.len() + if has_key(t, key) {
            0int
        } else {
            1int
        },
        has_key(upsert_spec(t, key, d), key),
        forall|e: EntryView| #[trigger] t.contains(e) && e.key != key ==> upsert_spec(
            t,
            key,
            d,
        ).contains(e),
    decreases t.len(),
{
    let u = upsert_spec(t, key, d);
    if t.len() == 0 {
        assert(u[0].key == key);
    } else if t[0].key == key {
        assert(u[0].key == key);
        assert forall|e: EntryView| #[trigger] t.contains(e) && e.key != key implies u.contains(e) by {
            let i = choose|i: int| 0 <= i < t.len() && t[i] == e;
            assert(i != 0);
            assert(u[i] == t[i]);
        }
    } else if lex_less(key, t[0].key) {
        if has_key(t, key) {
            let j = choose|j: int| 0 <= j < t.len() && t[j].key == key;
            lemma_lex_irreflexive(key);
            if j > 0 {
                lemma_lex_transitive(key, t[0].key, t[j].key);
            }
        }
        assert(u[0].key == key);
        assert forall|e: EntryView| #[trigger] t.contains(e) && e.key != key implies u.contains(e) by {
            let i = choose|i: int| 0 <= i < t.len() && t[i] == e;
            assert(u[i + 1] == t[i]);
        }
    } else {
        let rest = t.drop_first();
        assert forall|i: int, j: int| 0 <= i < j < rest.len() implies lex_less(
            #[trigger] rest[i].key,
            #[trigger] rest[j].key,
        ) by {
            assert(rest[i] == t[i + 1] && rest[j] == t[j + 1]);
        }
        lemma_upsert_counts(rest, key, d);
        let ur = upsert_spec(rest, key, d);
        assert(u == seq![t[0]] + ur);
        if has_key(t, key) {
            let j = choose|j: int| 0 <= j < t.len() && t[j].key == key;
            assert(j > 0);
            assert(rest[j - 1].key == key);
        }
        if has_key(rest, key) {
            let j = choose|j: int| 0 <= j < rest.len() && rest[j].key == key;
            assert(t[j + 1].key == key);
        }
        let k = choose|k: int| 0 <= k < ur.len() && ur[k].key == key;
        assert(u[k + 1].key == key);
        assert forall|e: EntryView| #[trigger] t.contains(e) && e.key != key implies u.contains(e) by {
            let i = choose|i: int| 0 <= i < t.len() && t[i] == e;
            if i == 0 {
                assert(u[0] == e);
            } else {
                assert(rest[i - 1] == e);
                assert(rest.contains(e));
                let m = choose|m: int| 0 <= m < ur.len() && ur[m] == e;
                assert(u[m + 1] == e);
            }
        }
    }
}

/// Recording a sighting leaves exactly one entry for its address, however
/// the address is spelled: the table grows by one exactly when the address
/// was new to it, and every entry for another address stays as it was.
pub proof fn lemma_one_entry_per_address(t: Seq<EntryView>, d: ScannedView)
    requires
        table_wf(t),
    ensures
        has_key(upsert_spec(t, address_key(d.address), d), address_key(d.address)),
        forall|i: int, j: int|
            0 <= i < upsert_spec(t, address_key(d.address), d).len() && 0 <= j < upsert_spec(
                t,
                address_key(d.address),
                d,
            ).len() && #[trigger] upsert_spec(t, address_key(d.address), d)[i].key == address_key(
                d.address,
            ) && #[trigger] upsert_spec(t, address_key(d.address), d)[j].key == address_key(
                d.address,
            ) ==> i == j,
        upsert_spec(t, address_key(d.address), d).len() == t.len() + if has_key(
            t,
            address_key(d.address),
        ) {
            0int
        } else {
            1int
        },
        forall|e: EntryView| #[trigger] t.contains(e) && e.key != address_key(d.address) ==> upsert_spec(
            t,
            address_key(d.address),
            d,
        ).contains(e),
{
    let key = address_key(d.address);
    let u = upsert_spec(t, key, d);
    lemma_upsert_counts(t, key, d);
    lemma_upsert_shape(t, key, d);
    lemma_lex_irreflexive(key);
    assert forall|i: int, j: int|
        0 <= i < u.len() && 0 <= j < u.len() && #[trigger] u[i].key == key && #[trigger] u[j].key
            == key implies i == j by {
        if i < j {
            assert(lex_less(u[i].key, u[j].key));
        } else if j < i {
            assert(lex_less(u[j].key, u[i].key));
        }
    }
}

/// The devices of a table, in key order.
pub open spec fn table_devices(es: Seq<EntryView>) -> Seq<ScannedView> {
    es.map_values(|e: EntryView| e.device)
}

fn table_values(devices: DeviceTable) -> (r: Vec<ScannedDevice>)
    ensures
        scanned_views(r@) == table_devices(devices.entries_view()),
{
    let ghost es = devices.entries_view();
    let v = devices.into_values();
    assert(scanned_views(v@) =~= table_devices(es));
    v
}

/// When the Bluetooth stack cannot be used, the devices the system already
/// lists stand as the result; with none, the failure does.
pub fn known_or_error(devices: DeviceTable, error: String) -> (r: Result<Vec<ScannedDevice>, String>)
    ensures
        devices.entries_view().len() > 0 ==> (r matches Ok(v) && scanned_views(v@) == table_devices(
            devices.entries_view(),
        )),
        devices.entries_view().len() == 0 ==> r == Err::<Vec<ScannedDevice>, String>(error),
{
    if devices.len() > 0 {
        Ok(table_values(devices))
    } else {
        Err(error)
    }
}

pub open spec fn string_views(v: Seq<String>) -> Seq<Seq<char>> {
    v.map_values(|p: String| p@)
}

/// When no adapter could start scanning: the devices already listed, or an
/// error that gives each adapter's failure.
pub fn scan_start_failure(devices: DeviceTable, errors: &Vec<String>) -> (r: Result<
    Vec<ScannedDevice>,
    String,
>)
    ensures
        devices.entries_view().len() > 0 ==> (r matches Ok(v) && scanned_views(v@) == table_devices(
            devices.entries_view(),
        )),
        devices.entries_view().len() == 0 ==> (r matches Err(m) && m@ == "failed to start Bluetooth scans: "@
            + join(string_views(errors@), "; "@)),
{
    if devices.len() > 0 {
        Ok(table_values(devices))
    } else {
        let mut m = String::from_str("failed to start Bluetooth scans: ");
        let joined = join_strings(errors, "; ");
        m.append(joined.as_str());
        Err(m)
    }
}

} // verus!
