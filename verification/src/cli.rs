//! The command-line commands and what they do to the configuration: mode,
//! noise, immersive and EQ changes with their save-then-sync transaction,
//! the battery line of `status`, and the hex payloads of the raw probe.
use vstd::prelude::*;
use crate::bluetooth::ScannedDevice;
use crate::config::{
    ConfigError, ConfigFile, ConfigView, all_mode_views, find_named, first_with_audio, has_named,
    upsert_outcome, without_named,
};
use crate::domain::{
    DomainError, ImmersiveAudio, ModePreset, ModeView, NoiseControl, band_valid,
    builtin_mode_views, mode_views,
};
use crate::models::{
    HeadphoneModel, ModelError, ensure_selected_device_supports_config, model, model_capabilities,
    resolve_device_model, resolve_spec, supports_config_spec,
};
use crate::text::{
    decimal, eq_ignore_case, hex_byte, hex_digit, hex_digit_char, is_whitespace, lead_ws,
    push_char, push_decimal, str_eq_ignore_ascii_case, trail_ws, trim, trim_str,
};

verus! {

/// Command-line arguments: an optional config path and a command.
#[derive(Debug)]
pub struct Args {
    pub config: Option<String>,
    pub command: Command,
}

#[derive(Debug)]
#[allow(inconsistent_fields)]
pub enum Command {
    Doctor,
    Devices(DevicesArgs),
    Status(StatusArgs),
    Sync,
    BmapRaw { fblock: u8, func: u8, op: u8, payload_hex: Option<String> },
    Mode { command: ModeCommand },
    Noise { command: NoiseCommand },
    Immersive { command: ImmersiveCommand },
    Eq { command: EqCommand },
    Tui { scan_seconds: u64 },
    Config { command: ConfigCommand },
}

#[derive(Debug, Clone, Copy, PartialEq, Eq, Structural)]
pub struct DevicesArgs {
    pub scan_seconds: u64,
    pub json: bool,
    pub select: bool,
}

#[derive(Debug, Clone, Copy, PartialEq, Eq, Structural)]
pub struct StatusArgs {
    pub headphones: bool,
}

#[derive(Debug)]
pub enum ModeCommand {
    List,
    Update { name: String },
    Add {
        name: String,
        noise_enabled: Option<bool>,
        noise_level: Option<u8>,
        immersive: Option<ImmersiveValue>,
    },
    Remove { name: String },
}

#[derive(Debug, Clone, Copy, PartialEq, Eq, Structural)]
pub enum NoiseCommand {
    Update { enabled: bool, level: u8 },
    Show,
}

#[derive(Debug, Clone, Copy, PartialEq, Eq, Structural)]
pub enum ImmersiveValue {
    Off,
    Still,
    Motion,
}

pub open spec fn immersive_of(v: ImmersiveValue) -> ImmersiveAudio {
    match v {
        ImmersiveValue::Off => ImmersiveAudio::Off,
        ImmersiveValue::Still => ImmersiveAudio::Still,
        ImmersiveValue::Motion => ImmersiveAudio::Motion,
    }
}

impl From<ImmersiveValue> for ImmersiveAudio {
    fn from(v: ImmersiveValue) -> (r: ImmersiveAudio) {
        match v {
            ImmersiveValue::Off => ImmersiveAudio::Off,
            ImmersiveValue::Still => ImmersiveAudio::Still,
            ImmersiveValue::Motion => ImmersiveAudio::Motion,
        }
    }
}

impl vstd::std_specs::convert::FromSpecImpl<ImmersiveValue> for ImmersiveAudio {
    open spec fn obeys_from_spec() -> bool {
        true
    }

    open spec fn from_spec(v: ImmersiveValue) -> ImmersiveAudio {
        immersive_of(v)
    }
}

#[derive(Debug, Clone, Copy, PartialEq, Eq, Structural)]
pub enum ImmersiveCommand {
    Update { value: ImmersiveValue },
    Show,
}

#[derive(Debug, Clone, Copy, PartialEq, Eq, Structural)]
pub enum EqCommand {
    Update { bass: i8, mid: i8, treble: i8 },
    Show,
}

#[derive(Debug, Clone, Copy, PartialEq, Eq, Structural)]
pub enum ConfigCommand {
    Init { force: bool },
    Show,
    Path,
}

/// The battery line of `status`.
#[derive(Debug, PartialEq, Eq)]
pub enum BatteryReadback {
    Unavailable,
    Level(u8),
    Error(String),
}

/// Whether `status` reads the battery: when the selected model supports it,
/// or when the legacy flag forces the read.
pub open spec fn battery_read_wanted(c: ConfigView, force_read: bool) -> bool {
    let supported = match c.selected_device {
        Some(d) => match resolve_spec(d) {
            Some(id) => model_capabilities(id).battery,
            None => false,
        },
        None => false,
    };
    supported || force_read
}

/// The battery line for a configuration; `read_battery` is called only when
/// the read is wanted, and its outcome is reported as it came.
pub fn status_battery_readback<F: Fn(&ConfigFile) -> Result<u8, String>>(
    config: &ConfigFile,
    read_battery: F,
    force_read: bool,
) -> (r: BatteryReadback)
    requires
        call_requires(read_battery, (config,)),
    ensures
        !battery_read_wanted(config@, force_read) ==> r == BatteryReadback::Unavailable,
        battery_read_wanted(config@, force_read) ==> exists|res: Result<u8, String>|
            call_ensures(read_battery, (config,), res) && match res {
                Ok(level) => r == BatteryReadback::Level(level),
                Err(e) => r == BatteryReadback::Error(e),
            },
{
    let supports_battery = match &config.selected_device {
        Some(d) => match resolve_device_model(d) {
            Some(id) => model(id).capabilities().battery,
            None => false,
        },
        None => false,
    };
    if !supports_battery && !force_read {
        return BatteryReadback::Unavailable;
    }
    let res = read_battery(config);
    match res {
        Ok(level) => BatteryReadback::Level(level),
        Err(err) => BatteryReadback::Error(err),
    }
}

/// How a saved change ended when it did not fail.
#[derive(Debug, Clone, Copy, PartialEq, Eq, Structural)]
pub enum SyncTransactionOutcome {
    Synced,
    SavedLocallyNoSelectedDevice,
}

/// A failed sync after which the previous settings were restored, with the
/// outcomes of restoring them on disk and on the headset.
#[derive(Debug)]
pub struct TransactionError {
    pub sync_error: String,
    pub rollback_save: Result<(), String>,
    pub rollback_sync: Result<(), String>,
}

pub open spec fn result_text(r: Result<(), String>) -> Result<(), Seq<char>> {
    match r {
        Ok(()) => Ok(()),
        Err(e) => Err(e@),
    }
}

pub open spec fn transaction_error_text(
    rollback_save: Result<(), Seq<char>>,
    rollback_sync: Result<(), Seq<char>>,
) -> Seq<char> {
    match (rollback_save, rollback_sync) {
        (Ok(()), Ok(())) => "failed to sync requested change; rolled back to previous desired settings"@,
        (Ok(()), Err(r)) =>
            "failed to sync requested change; rolled back local config, but headset rollback failed: "@
            + r + "; headset state unknown"@,
        (Err(_), Ok(())) =>
            "failed to rollback local config after sync failure; synced previous desired settings to headphones"@,
        (Err(_), Err(r)) =>
            "failed to rollback local config after sync failure; headset rollback failed: "@ + r
            + "; headset state unknown"@,
    }
}

impl TransactionError {
    pub fn message(&self) -> (r: String)
        ensures
            r@ == transaction_error_text(
                result_text(self.rollback_save),
                result_text(self.rollback_sync),
            ),
    {
        match (&self.rollback_save, &self.rollback_sync) {
            (Ok(()), Ok(())) => String::from_str(
                "failed to sync requested change; rolled back to previous desired settings",
            ),
            (Ok(()), Err(r)) => {
                let mut s = String::from_str(
                    "failed to sync requested change; rolled back local config, but headset rollback failed: ",
                );
                s.append(r.as_str());
                s.append("; headset state unknown");
                s
            },
            (Err(_), Ok(())) => String::from_str(
                "failed to rollback local config after sync failure; synced previous desired settings to headphones",
            ),
            (Err(_), Err(r)) => {
                let mut s = String::from_str(
                    "failed to rollback local config after sync failure; headset rollback failed: ",
                );
                s.append(r.as_str());
                s.append("; headset state unknown");
                s
            },
        }
    }
}

/// Syncs a saved change to the headset. Without a selected device the change
/// stays local. When the sync fails, the previous configuration is restored
/// in memory, saved again and synced again, and the change is reported failed.
pub fn sync_headphones_transaction<
    Sv: Fn(&ConfigFile) -> Result<(), String>,
    Sy: Fn(&ConfigFile) -> Result<(), String>,
>(previous: ConfigFile, config: &mut ConfigFile, save: Sv, sync_headphones: Sy) -> (r: Result<
    SyncTransactionOutcome,
    TransactionError,
>)
    requires
        forall|c: &ConfigFile| #[trigger] call_requires(save, (c,)),
        forall|c: &ConfigFile| #[trigger] call_requires(sync_headphones, (c,)),
    ensures
        old(config).selected_device is None ==> r == Ok::<
            SyncTransactionOutcome,
            TransactionError,
        >(SyncTransactionOutcome::SavedLocallyNoSelectedDevice) && *final(config) == *old(config),
        old(config).selected_device is Some ==> (r matches Ok(o) ==> o
            == SyncTransactionOutcome::Synced),
        old(config).selected_device is Some ==> (r is Ok ==> *final(config) == *old(config)),
        old(config).selected_device is Some ==> (r is Ok ==> exists|res: Result<(), String>|
            call_ensures(sync_headphones, (&*old(config),), res) && res is Ok),
        old(config).selected_device is Some ==> (r matches Err(e) ==> *final(config) == previous
            && call_ensures(sync_headphones, (&*old(config),), Err(e.sync_error)) && call_ensures(
            save,
            (&previous,),
            e.rollback_save,
        ) && call_ensures(sync_headphones, (&previous,), e.rollback_sync)),
{
    if config.selected_device.is_none() {
        return Ok(SyncTransactionOutcome::SavedLocallyNoSelectedDevice);
    }
    let first = sync_headphones(&*config);
    match first {
        Ok(()) => Ok(SyncTransactionOutcome::Synced),
        Err(sync_error) => {
            *config = previous;
            let rollback_save = save(config);
            let rollback_sync = sync_headphones(config);
            Err(TransactionError { sync_error, rollback_save, rollback_sync })
        },
    }
}

/// Errors of the hex payload parser.
#[derive(Debug, Clone, Copy, PartialEq, Eq, Structural)]
pub enum HexError {
    OddLength,
    InvalidDigit,
}

pub open spec fn hex_error_text(e: HexError) -> Seq<char> {
    match e {
        HexError::OddLength => "hex payload must have an even number of digits"@,
        HexError::InvalidDigit => "invalid digit found in string"@,
    }
}

impl HexError {
    pub fn message(&self) -> (r: String)
        ensures
            r@ == hex_error_text(*self),
    {
        match self {
            HexError::OddLength => String::from_str(
                "hex payload must have an even number of digits",
            ),
            HexError::InvalidDigit => String::from_str("invalid digit found in string"),
        }
    }
}

/// The value of an ASCII hexadecimal digit byte.
pub open spec fn hex_value(b: u8) -> Option<u8> {
    if 48 <= b <= 57 {
        Some((b - 48) as u8)
    } else if 97 <= b <= 102 {
        Some((b - 87) as u8)
    } else if 65 <= b <= 70 {
        Some((b - 55) as u8)
    } else {
        None
    }
}

/// A two-byte chunk read as `u8::from_str_radix(chunk, 16)` reads it: two
/// digits, or a `+` sign and one digit.
pub open spec fn hex_pair(b0: u8, b1: u8) -> Option<u8> {
    match (hex_value(b0), hex_value(b1)) {
        (Some(h), Some(l)) => Some((h * 16 + l) as u8),
        _ => if b0 == 43 {
            hex_value(b1)
        } else {
            None
        },
    }
}

/// Whether byte offset `i` starts a character (or is the end).
pub open spec fn on_char_boundary(bs: Seq<u8>, i: int) -> bool {
    i == bs.len() || bs[i] < 0x80 || bs[i] >= 0xc0
}

/// The chunks from the `k`-th on; `None` when slicing a chunk would cut a
/// character, which panics.
pub open spec fn hex_chunks(bs: Seq<u8>, k: nat) -> Option<Result<Seq<u8>, HexError>>
    decreases bs.len() - 2 * k,
{
    if 2 * k + 2 > bs.len() {
        Some(Ok(Seq::empty()))
    } else if !on_char_boundary(bs, 2 * k as int) || !on_char_boundary(bs, 2 * k as int + 2) {
        None
    } else {
        match hex_pair(bs[2 * k as int], bs[2 * k as int + 1]) {
            None => Some(Err(HexError::InvalidDigit)),
            Some(v) => match hex_chunks(bs, k + 1) {
                Some(Ok(rest)) => Some(Ok(seq![v] + rest)),
                other => other,
            },
        }
    }
}

/// Parsing a hex payload: the trimmed text's bytes, two at a time.
pub open spec fn parse_hex_spec(value: Seq<char>) -> Option<Result<Seq<u8>, HexError>> {
    let bs = vstd::utf8::encode_utf8(trim(value));
    if bs.len() % 2 != 0 {
        Some(Err(HexError::OddLength))
    } else {
        hex_chunks(bs, 0)
    }
}

fn hex_value_of(b: u8) -> (r: Option<u8>)
    ensures
        r == hex_value(b),
{
    if 48 <= b && b <= 57 {
        Some(b - 48)
    } else if 97 <= b && b <= 102 {
        Some(b - 87)
    } else if 65 <= b && b <= 70 {
        Some(b - 55)
    } else {
        None
    }
}

fn hex_pair_of(b0: u8, b1: u8) -> (r: Option<u8>)
    ensures
        r == hex_pair(b0, b1),
{
    match (hex_value_of(b0), hex_value_of(b1)) {
        (Some(h), Some(l)) => Some(h * 16 + l),
        _ => if b0 == 43 {
            hex_value_of(b1)
        } else {
            None
        },
    }
}

pub open spec fn prepend_bytes(
    done: Seq<u8>,
    rest: Option<Result<Seq<u8>, HexError>>,
) -> Option<Result<Seq<u8>, HexError>> {
    match rest {
        Some(Ok(r)) => Some(Ok(done + r)),
        other => other,
    }
}

/// Decodes the hex payload of the raw probe command; `None` where slicing
/// two bytes at a time would cut a character.
pub fn try_parse_hex(value: &str) -> (r: Option<Result<Vec<u8>, HexError>>)
    ensures
        r is None ==> parse_hex_spec(value@) is None,
        r matches Some(Ok(b)) ==> parse_hex_spec(value@) == Some(Ok::<Seq<u8>, HexError>(b@)),
        r matches Some(Err(e)) ==> parse_hex_spec(value@) == Some(Err::<Seq<u8>, HexError>(e)),
{
    let trimmed = trim_str(value);
    let bytes = trimmed.as_str().as_bytes();
    let ghost bs = bytes@;
    let n = bytes.len();
    if n % 2 != 0 {
        return Some(Err(HexError::OddLength));
    }
    let mut out: Vec<u8> = Vec::new();
    let mut index: usize = 0;
    proof {
        assert(Seq::<u8>::empty() + Seq::<u8>::empty() =~= Seq::<u8>::empty());
        match hex_chunks(bs, 0) {
            Some(Ok(r)) => assert(Seq::<u8>::empty() + r =~= r),
            _ => {},
        }
    }
    while index < n
        invariant
            n == bs.len(),
            bs == bytes@,
            n % 2 == 0,
            index % 2 == 0,
            index <= n,
            bs == vstd::utf8::encode_utf8(trim(value@)),
            hex_chunks(bs, 0) == prepend_bytes(out@, hex_chunks(bs, (index / 2) as nat)),
        decreases n - index,
    {
        let ghost k: nat = (index / 2) as nat;
        assert(2 * k == index);
        let first = bytes[index];
        let boundary_start = first < 0x80 || first >= 0xc0;
        let boundary_end = if index + 2 == n {
            true
        } else {
            let b = bytes[index + 2];
            b < 0x80 || b >= 0xc0
        };
        if !boundary_start || !boundary_end {
            assert(hex_chunks(bs, k) is None);
            return None;
        }
        let v = hex_pair_of(bytes[index], bytes[index + 1]);
        match v {
            None => {
                assert(hex_chunks(bs, k) == Some(Err::<Seq<u8>, HexError>(HexError::InvalidDigit)));
                return Some(Err(HexError::InvalidDigit));
            },
            Some(v) => {
                let ghost before = out@;
                out.push(v);
                proof {
                    assert((index + 2) / 2 == k + 1);
                    match hex_chunks(bs, k + 1) {
                        Some(Ok(r)) => {
                            assert(before + (seq![v] + r) =~= out@ + r);
                        },
                        _ => {},
                    }
                }
            },
        }
        index = index + 2;
    }
    proof {
        assert(out@ + Seq::<u8>::empty() =~= out@);
    }
    Some(Ok(out))
}

/// Decodes a hex payload on which slicing cuts no character.
pub fn parse_hex(value: &str) -> (r: Result<Vec<u8>, HexError>)
    requires
        parse_hex_spec(value@) is Some,
    ensures
        r matches Ok(b) ==> parse_hex_spec(value@) == Some(Ok::<Seq<u8>, HexError>(b@)),
        r matches Err(e) ==> parse_hex_spec(value@) == Some(Err::<Seq<u8>, HexError>(e)),
{
    match try_parse_hex(value) {
        Some(r) => r,
        None => Err(HexError::InvalidDigit),
    }
}

/// Bytes as lowercase hex, two digits each.
pub open spec fn hex_text(bs: Seq<u8>) -> Seq<char>
    decreases bs.len(),
{
    if bs.len() == 0 {
        Seq::empty()
    } else {
        hex_text(bs.drop_last()) + hex_byte(bs.last())
    }
}

pub fn bytes_to_hex(bytes: &[u8]) -> (r: String)
    ensures
        r@ == hex_text(bytes@),
{
    let mut s = String::new();
    let n = bytes.len();
    assert(bytes@.take(0) =~= Seq::<u8>::empty());
    for i in 0..n
        invariant
            n == bytes@.len(),
            s@ == hex_text(bytes@.take(i as int)),
    {
        let b = bytes[i];
        push_char(&mut s, hex_digit_char(b / 16));
        push_char(&mut s, hex_digit_char(b % 16));
        assert(bytes@.take(i + 1).drop_last() =~= bytes@.take(i as int));
        assert(s@ =~= hex_text(bytes@.take(i as int)) + hex_byte(b));
    }
    assert(bytes@.take(n as int) =~= bytes@);
    s
}

/// The ASCII byte of a hexadecimal digit value.
pub open spec fn digit_byte(d: u8) -> u8 {
    if d < 10 {
        (48 + d) as u8
    } else {
        (87 + d) as u8
    }
}

/// The UTF-8 bytes of `hex_text(bs)`.
pub open spec fn hex_ascii(bs: Seq<u8>) -> Seq<u8>
    decreases bs.len(),
{
    if bs.len() == 0 {
        Seq::empty()
    } else {
        hex_ascii(bs.drop_last()) + seq![digit_byte(bs.last() / 16), digit_byte(bs.last() % 16)]
    }
}

proof fn lemma_encode_utf8_concat(a: Seq<char>, b: Seq<char>)
    ensures
        vstd::utf8::encode_utf8(a + b) == vstd::utf8::encode_utf8(a) + vstd::utf8::encode_utf8(b),
    decreases a.len(),
{
    if a.len() == 0 {
        assert(a + b =~= b);
        assert(vstd::utf8::encode_utf8(a) + vstd::utf8::encode_utf8(b) =~= vstd::utf8::encode_utf8(b));
    } else {
        assert((a + b).drop_first() =~= a.drop_first() + b);
        assert((a + b)[0] == a[0]);
        lemma_encode_utf8_concat(a.drop_first(), b);
        assert(vstd::utf8::encode_utf8(a + b) =~= vstd::utf8::encode_scalar(a[0] as u32) + (
        vstd::utf8::encode_utf8(a.drop_first()) + vstd::utf8::encode_utf8(b)));
    }
}

proof fn lemma_encode_hex_digit(d: u8)
    requires
        d < 16,
    ensures
        vstd::utf8::encode_utf8(seq![hex_digit(d as int)]) == seq![digit_byte(d)],
{
    let c = hex_digit(d as int);
    let v = c as u32;
    assert(v == if d < 10 {
        48 + d
    } else {
        87 + d
    });
    assert(v <= 0x7f);
    assert((v & 0x7f) == v) by (bit_vector)
        requires
            v <= 0x7f,
    ;
    assert(seq![c].drop_first() =~= Seq::<char>::empty());
    assert(vstd::utf8::encode_utf8(Seq::<char>::empty()) =~= Seq::<u8>::empty());
    assert(vstd::utf8::has_width_1_encoding(v));
    assert(vstd::utf8::leading_byte_width_1(v) == digit_byte(d));
    assert(vstd::utf8::encode_scalar(v) =~= seq![digit_byte(d)]);
    assert(seq![c][0] == c);
    assert(vstd::utf8::encode_utf8(seq![c]) == vstd::utf8::encode_scalar(v) + vstd::utf8::encode_utf8(
        Seq::<char>::empty(),
    ));
    assert(vstd::utf8::encode_utf8(seq![c]) =~= seq![digit_byte(d)]);
}

proof fn lemma_hex_ascii_encodes(bs: Seq<u8>)
    ensures
        vstd::utf8::encode_utf8(hex_text(bs)) == hex_ascii(bs),
    decreases bs.len(),
{
    if bs.len() == 0 {
        assert(vstd::utf8::encode_utf8(hex_text(bs)) =~= hex_ascii(bs));
    } else {
        let b = bs.last();
        lemma_hex_ascii_encodes(bs.drop_last());
        lemma_encode_hex_digit(b / 16);
        lemma_encode_hex_digit(b % 16);
        assert(hex_byte(b) =~= seq![hex_digit((b / 16) as int)] + seq![hex_digit((b % 16) as int)]);
        lemma_encode_utf8_concat(seq![hex_digit((b / 16) as int)], seq![hex_digit((b % 16) as int)]);
        lemma_encode_utf8_concat(hex_text(bs.drop_last()), hex_byte(b));
        assert(hex_ascii(bs) =~= hex_ascii(bs.drop_last()) + (seq![digit_byte(b / 16)] + seq![
            digit_byte(b % 16),
        ]));
    }
}

proof fn lemma_hex_ascii_shape(bs: Seq<u8>)
    ensures
        hex_ascii(bs).len() == 2 * bs.len(),
        forall|k: int|
            0 <= k < bs.len() ==> #[trigger] hex_ascii(bs)[2 * k] == digit_byte(bs[k] / 16)
                && hex_ascii(bs)[2 * k + 1] == digit_byte(bs[k] % 16),
    decreases bs.len(),
{
    if bs.len() > 0 {
        let p = bs.drop_last();
        lemma_hex_ascii_shape(p);
        assert forall|k: int| 0 <= k < bs.len() implies #[trigger] hex_ascii(bs)[2 * k]
            == digit_byte(bs[k] / 16) && hex_ascii(bs)[2 * k + 1] == digit_byte(bs[k] % 16) by {
            if k < p.len() {
                assert(p[k] == bs[k]);
                assert(hex_ascii(p)[2 * k] == digit_byte(p[k] / 16));
            }
        }
    }
}

proof fn lemma_hex_text_chars(bs: Seq<u8>)
    ensures
        hex_text(bs).len() == 2 * bs.len(),
        forall|i: int| 0 <= i < hex_text(bs).len() ==> !is_whitespace(#[trigger] hex_text(bs)[i]),
    decreases bs.len(),
{
    if bs.len() > 0 {
        let p = bs.drop_last();
        lemma_hex_text_chars(p);
        let b = bs.last();
        assert forall|i: int| 0 <= i < hex_text(bs).len() implies !is_whitespace(
            #[trigger] hex_text(bs)[i],
        ) by {
            if i < hex_text(p).len() {
                assert(hex_text(bs)[i] == hex_text(p)[i]);
            } else {
                assert(hex_text(bs)[i] == hex_byte(b)[i - hex_text(p).len()]);
            }
        }
    }
}

proof fn lemma_hex_chunks_decode(bs: Seq<u8>, k: nat)
    requires
        k <= bs.len(),
    ensures
        hex_chunks(hex_ascii(bs), k) == Some(Ok::<Seq<u8>, HexError>(bs.skip(k as int))),
    decreases bs.len() - k,
{
    let a = hex_ascii(bs);
    lemma_hex_ascii_shape(bs);
    if k == bs.len() {
        assert(bs.skip(k as int) =~= Seq::<u8>::empty());
    } else {
        lemma_hex_chunks_decode(bs, k + 1);
        let b = bs[k as int];
        assert(a[2 * k as int] == digit_byte(b / 16));
        assert(a[2 * k as int + 1] == digit_byte(b % 16));
        assert(hex_value(digit_byte(b / 16)) == Some((b / 16) as u8));
        assert(hex_value(digit_byte(b % 16)) == Some((b % 16) as u8));
        assert(hex_pair(a[2 * k as int], a[2 * k as int + 1]) == Some(b));
        assert(seq![b] + bs.skip(k + 1 as int) =~= bs.skip(k as int));
    }
}

/// Hex text made from bytes parses back to the same bytes.
pub proof fn lemma_hex_round_trip(bs: Seq<u8>)
    ensures
        parse_hex_spec(hex_text(bs)) == Some(Ok::<Seq<u8>, HexError>(bs)),
{
    let t = hex_text(bs);
    lemma_hex_text_chars(bs);
    assert(lead_ws(t) == 0);
    assert(trail_ws(t) == 0);
    assert(trim(t) =~= t);
    lemma_hex_ascii_encodes(bs);
    lemma_hex_ascii_shape(bs);
    assert(hex_ascii(bs).len() % 2 == 0);
    lemma_hex_chunks_decode(bs, 0);
    assert(bs.skip(0) =~= bs);
}

} // verus!

verus! {

/// Errors of the configuration commands.
#[derive(Debug)]
pub enum CliError {
    Model(ModelError),
    Domain(DomainError),
    Config(ConfigError),
    UnknownMode(String),
    CannotRemoveBuiltin(String),
    CustomModeNotFound(String),
    Save(String),
    Transaction(TransactionError),
}

pub enum CliErrorView {
    Model(crate::models::ModelErrorView),
    Domain(DomainError),
    Config(crate::config::ConfigErrorView),
    UnknownMode(Seq<char>),
    CannotRemoveBuiltin(Seq<char>),
    CustomModeNotFound(Seq<char>),
    Save(Seq<char>),
    Transaction(Seq<char>, Result<(), Seq<char>>, Result<(), Seq<char>>),
}

impl View for CliError {
    type V = CliErrorView;

    open spec fn view(&self) -> CliErrorView {
        match self {
            CliError::Model(e) => CliErrorView::Model(e@),
            CliError::Domain(e) => CliErrorView::Domain(*e),
            CliError::Config(e) => CliErrorView::Config(e@),
            CliError::UnknownMode(n) => CliErrorView::UnknownMode(n@),
            CliError::CannotRemoveBuiltin(n) => CliErrorView::CannotRemoveBuiltin(n@),
            CliError::CustomModeNotFound(n) => CliErrorView::CustomModeNotFound(n@),
            CliError::Save(m) => CliErrorView::Save(m@),
            CliError::Transaction(t) => CliErrorView::Transaction(
                t.sync_error@,
                result_text(t.rollback_save),
                result_text(t.rollback_sync),
            ),
        }
    }
}

pub open spec fn cli_error_text(e: CliErrorView) -> Seq<char> {
    match e {
        CliErrorView::Model(e) => crate::models::model_error_text(e),
        CliErrorView::Domain(e) => crate::domain::domain_error_text(e),
        CliErrorView::Config(e) => crate::config::config_error_text(e),
        CliErrorView::UnknownMode(n) => "unknown mode '"@ + n + "'; use `bose mode list`"@,
        CliErrorView::CannotRemoveBuiltin(n) => "cannot remove built-in mode '"@ + n + "'"@,
        CliErrorView::CustomModeNotFound(n) => "custom mode '"@ + n + "' not found"@,
        CliErrorView::Save(m) => m,
        CliErrorView::Transaction(_, s, y) => transaction_error_text(s, y),
    }
}

fn wrap(before: &str, middle: &String, after: &str) -> (r: String)
    ensures
        r@ == before@ + middle@ + after@,
{
    let mut s = String::from_str(before);
    s.append(middle.as_str());
    s.append(after);
    s
}

impl CliError {
    pub fn message(&self) -> (r: String)
        ensures
            r@ == cli_error_text(self@),
    {
        match self {
            CliError::Model(e) => e.message(),
            CliError::Domain(e) => e.message(),
            CliError::Config(e) => e.message(),
            CliError::UnknownMode(n) => wrap("unknown mode '", n, "'; use `bose mode list`"),
            CliError::CannotRemoveBuiltin(n) => wrap("cannot remove built-in mode '", n, "'"),
            CliError::CustomModeNotFound(n) => wrap("custom mode '", n, "' not found"),
            CliError::Save(m) => m.clone(),
            CliError::Transaction(e) => e.message(),
        }
    }
}

/// What a command prints, and how its headset sync ended when it ran one.
#[derive(Debug)]
pub struct CommandOutput {
    pub lines: Vec<String>,
    pub transaction: Option<SyncTransactionOutcome>,
}

pub open spec fn lines_view(v: Seq<String>) -> Seq<Seq<char>> {
    v.map_values(|s: String| s@)
}

fn prefixed(before: &str, middle: &String) -> (r: String)
    ensures
        r@ == before@ + middle@,
{
    let mut s = String::from_str(before);
    s.append(middle.as_str());
    s
}

fn one_line(s: String) -> (r: Vec<String>)
    ensures
        lines_view(r@) == seq![s@],
{
    let mut v = Vec::new();
    v.push(s);
    assert(lines_view(v@) =~= seq![s@]);
    v
}

/// The configuration with mode `m` applied.
pub open spec fn with_mode(c: ConfigView, m: ModeView) -> ConfigView {
    ConfigView { active_mode: Some(m.name), noise: m.noise, immersive: m.immersive, ..c }
}

/// The configuration after a manual noise or immersive change; the active
/// mode becomes the first mode with those settings, or none.
pub open spec fn with_audio(c: ConfigView, noise: NoiseControl, immersive: ImmersiveAudio) -> ConfigView {
    ConfigView {
        noise,
        immersive,
        active_mode: first_with_audio(all_mode_views(c), noise, immersive),
        ..c
    }
}

/// Saving a changed configuration with nothing to sync.
pub open spec fn save_only<Sv: Fn(&ConfigFile) -> Result<(), String>>(
    save: Sv,
    changed: ConfigFile,
    r: Result<CommandOutput, CliError>,
    after: ConfigFile,
    lines: Seq<Seq<char>>,
) -> bool {
    &&& after == changed
    &&& exists|saved: Result<(), String>|
        call_ensures(save, (&changed,), saved) && if saved is Err {
            r matches Err(e) && e@ == CliErrorView::Save(saved->Err_0@)
        } else {
            r matches Ok(o) && lines_view(o.lines@) == lines && o.transaction is None
        }
}

/// Saving a changed configuration, then the sync transaction: without a
/// device the change stays local; a failed sync restores `before`.
pub open spec fn save_then_sync<
    Sv: Fn(&ConfigFile) -> Result<(), String>,
    Sy: Fn(&ConfigFile) -> Result<(), String>,
>(
    save: Sv,
    sync: Sy,
    before: ConfigFile,
    changed: ConfigFile,
    r: Result<CommandOutput, CliError>,
    after: ConfigFile,
) -> bool {
    exists|saved: Result<(), String>|
        call_ensures(save, (&changed,), saved) && if saved is Err {
            (r matches Err(e) && e@ == CliErrorView::Save(saved->Err_0@)) && after == changed
        } else if changed.selected_device is None {
            (r matches Ok(o) && o.transaction == Some(
                SyncTransactionOutcome::SavedLocallyNoSelectedDevice,
            ) && o.lines@.len() == 0) && after == changed
        } else {
            exists|synced: Result<(), String>|
                call_ensures(sync, (&changed,), synced) && if synced is Ok {
                    (r matches Ok(o) && o.transaction == Some(SyncTransactionOutcome::Synced)
                        && o.lines@.len() == 0) && after == changed
                } else {
                    (r matches Err(CliError::Transaction(t)) && t.sync_error == synced->Err_0
                        && call_ensures(save, (&before,), t.rollback_save) && call_ensures(
                        sync,
                        (&before,),
                        t.rollback_sync,
                    )) && after == before
                }
        }
}

fn commit<Sv: Fn(&ConfigFile) -> Result<(), String>, Sy: Fn(&ConfigFile) -> Result<(), String>>(
    previous: ConfigFile,
    config: &mut ConfigFile,
    save: Sv,
    sync_headphones: Sy,
) -> (r: Result<CommandOutput, CliError>)
    requires
        forall|c: &ConfigFile| #[trigger] call_requires(save, (c,)),
        forall|c: &ConfigFile| #[trigger] call_requires(sync_headphones, (c,)),
    ensures
        save_then_sync(save, sync_headphones, previous, *old(config), r, *final(config)),
{
    let ghost changed = *config;
    let saved = save(&*config);
    match saved {
        Err(m) => {
            let r = Err(CliError::Save(m));
            assert(save_then_sync(save, sync_headphones, previous, changed, r, *config));
            return r;
        },
        Ok(()) => {},
    }
    let outcome = sync_headphones_transaction(previous, config, save, sync_headphones);
    let r = match outcome {
        Ok(o) => Ok(CommandOutput { lines: Vec::new(), transaction: Some(o) }),
        Err(t) => Err(CliError::Transaction(t)),
    };
    r
}

pub open spec fn supports_err(c: ConfigView) -> Option<CliErrorView> {
    match supports_config_spec(c) {
        Err(e) => Some(CliErrorView::Model(e)),
        Ok(()) => None,
    }
}

/// `mode set`: the named mode (ignoring ASCII case) becomes active with its settings.
pub open spec fn mode_set_pre(c: ConfigView, name: Seq<char>) -> Result<ConfigView, CliErrorView> {
    if supports_err(c) is Some {
        Err(supports_err(c)->0)
    } else {
        match find_named(all_mode_views(c), name) {
            None => Err(CliErrorView::UnknownMode(name)),
            Some(m) => Ok(with_mode(c, m)),
        }
    }
}

/// `mode add`: a custom mode from the given or the current settings.
pub open spec fn mode_add_pre(
    c: ConfigView,
    name: Seq<char>,
    enabled: Option<bool>,
    level: Option<u8>,
    immersive: Option<ImmersiveValue>,
) -> Result<ConfigView, CliErrorView> {
    let en = match enabled {
        Some(b) => b,
        None => c.noise.enabled,
    };
    let lv = match level {
        Some(l) => l,
        None => c.noise.level,
    };
    let im = match immersive {
        Some(v) => immersive_of(v),
        None => c.immersive,
    };
    if supports_err(c) is Some {
        Err(supports_err(c)->0)
    } else if lv > 10 {
        Err(CliErrorView::Domain(DomainError::NoiseLevelOutOfRange))
    } else if trim(name).len() == 0 {
        Err(CliErrorView::Domain(DomainError::EmptyModeName))
    } else {
        match upsert_outcome(
            c,
            ModeView { name: trim(name), noise: NoiseControl { enabled: en, level: lv }, immersive: im },
        ) {
            Err(e) => Err(CliErrorView::Config(e)),
            Ok(c2) => Ok(c2),
        }
    }
}

/// `mode add` stores a mode under the trimmed name that looking the name up
/// then finds; each setting it was not given is the configuration's current
/// one, and an immersive value it was given is taken as off, still or motion.
pub proof fn lemma_mode_add_takes_current_settings(
    c: ConfigView,
    name: Seq<char>,
    enabled: Option<bool>,
    level: Option<u8>,
    immersive: Option<ImmersiveValue>,
)
    requires
        mode_add_pre(c, name, enabled, level, immersive) is Ok,
    ensures
        ({
            let found = find_named(
                all_mode_views(mode_add_pre(c, name, enabled, level, immersive)->Ok_0),
                trim(name),
            );
            &&& found is Some
            &&& found->Some_0.name == trim(name)
            &&& enabled is None ==> found->Some_0.noise.enabled == c.noise.enabled
            &&& enabled matches Some(e) ==> found->Some_0.noise.enabled == e
            &&& level is None ==> found->Some_0.noise.level == c.noise.level
            &&& level matches Some(l) ==> found->Some_0.noise.level == l
            &&& immersive is None ==> found->Some_0.immersive == c.immersive
            &&& immersive == Some(ImmersiveValue::Off) ==> found->Some_0.immersive
                == ImmersiveAudio::Off
            &&& immersive == Some(ImmersiveValue::Still) ==> found->Some_0.immersive
                == ImmersiveAudio::Still
            &&& immersive == Some(ImmersiveValue::Motion) ==> found->Some_0.immersive
                == ImmersiveAudio::Motion
        }),
{
    let added = ModeView {
        name: trim(name),
        noise: NoiseControl {
            enabled: if enabled is Some { enabled->Some_0 } else { c.noise.enabled },
            level: if level is Some { level->Some_0 } else { c.noise.level },
        },
        immersive: if immersive is Some { immersive_of(immersive->Some_0) } else { c.immersive },
    };
    crate::config::lemma_upsert_then_find(c, added);
}

/// `mode remove`: custom modes of that name go, and the active mode with them.
pub open spec fn mode_remove_pre(c: ConfigView, name: Seq<char>) -> Result<ConfigView, CliErrorView> {
    if supports_err(c) is Some {
        Err(supports_err(c)->0)
    } else if has_named(builtin_mode_views(), name) {
        Err(CliErrorView::CannotRemoveBuiltin(name))
    } else if without_named(c.custom_modes, name).len() == c.custom_modes.len() {
        Err(CliErrorView::CustomModeNotFound(name))
    } else {
        Ok(
            ConfigView {
                custom_modes: without_named(c.custom_modes, name),
                active_mode: match c.active_mode {
                    Some(a) => if eq_ignore_case(a, name) {
                        None
                    } else {
                        Some(a)
                    },
                    None => None,
                },
                ..c
            },
        )
    }
}

/// `noise set`
pub open spec fn noise_set_pre(c: ConfigView, enabled: bool, level: u8) -> Result<
    ConfigView,
    CliErrorView,
> {
    if supports_err(c) is Some {
        Err(supports_err(c)->0)
    } else if level > 10 {
        Err(CliErrorView::Domain(DomainError::NoiseLevelOutOfRange))
    } else {
        Ok(with_audio(c, NoiseControl { enabled, level }, c.immersive))
    }
}

/// `immersive set`
pub open spec fn immersive_set_pre(c: ConfigView, v: ImmersiveValue) -> Result<
    ConfigView,
    CliErrorView,
> {
    if supports_err(c) is Some {
        Err(supports_err(c)->0)
    } else {
        Ok(with_audio(c, c.noise, immersive_of(v)))
    }
}

/// `eq set`
pub open spec fn eq_set_pre(c: ConfigView, bass: i8, mid: i8, treble: i8) -> Result<
    ConfigView,
    CliErrorView,
> {
    if supports_err(c) is Some {
        Err(supports_err(c)->0)
    } else if !(band_valid(bass) && band_valid(mid) && band_valid(treble)) {
        Err(CliErrorView::Domain(DomainError::EqOutOfRange))
    } else {
        Ok(ConfigView { eq: crate::domain::Eq { bass, mid, treble }, ..c })
    }
}

/// A command that saves and syncs: refused with the configuration unchanged,
/// or applied and handed to the save-then-sync step.
pub open spec fn synced_change<
    Sv: Fn(&ConfigFile) -> Result<(), String>,
    Sy: Fn(&ConfigFile) -> Result<(), String>,
>(
    pre: Result<ConfigView, CliErrorView>,
    save: Sv,
    sync: Sy,
    old: ConfigFile,
    r: Result<CommandOutput, CliError>,
    after: ConfigFile,
) -> bool {
    match pre {
        Err(e) => after@ == old@ && (r matches Err(x) && x@ == e),
        Ok(cv) => exists|before: ConfigFile, changed: ConfigFile|
            before@ == old@ && changed@ == cv && #[trigger] save_then_sync(
                save,
                sync,
                before,
                changed,
                r,
                after,
            ),
    }
}

/// A command that only saves.
pub open spec fn saved_change<Sv: Fn(&ConfigFile) -> Result<(), String>>(
    pre: Result<ConfigView, CliErrorView>,
    save: Sv,
    old: ConfigFile,
    r: Result<CommandOutput, CliError>,
    after: ConfigFile,
    lines: Seq<Seq<char>>,
) -> bool {
    match pre {
        Err(e) => after@ == old@ && (r matches Err(x) && x@ == e),
        Ok(cv) => after@ == cv && save_only(save, after, r, after, lines),
    }
}

fn supports(config: &ConfigFile) -> (r: Result<(), CliError>)
    ensures
        r is Ok <==> supports_err(config@) is None,
        r matches Err(e) ==> supports_err(config@) == Some(e@),
{
    match ensure_selected_device_supports_config(config) {
        Err(e) => Err(CliError::Model(e)),
        Ok(()) => Ok(()),
    }
}

fn save_lines<Sv: Fn(&ConfigFile) -> Result<(), String>>(
    config: &ConfigFile,
    save: Sv,
    lines: Vec<String>,
) -> (r: Result<CommandOutput, CliError>)
    requires
        forall|c: &ConfigFile| #[trigger] call_requires(save, (c,)),
    ensures
        save_only(save, *config, r, *config, lines_view(lines@)),
{
    let saved = save(config);
    match saved {
        Err(m) => Err(CliError::Save(m)),
        Ok(()) => Ok(CommandOutput { lines, transaction: None }),
    }
}

/// `mode list`, `mode set`, `mode add` and `mode remove`.
pub fn handle_mode<Sv: Fn(&ConfigFile) -> Result<(), String>, Sy: Fn(&ConfigFile) -> Result<(), String>>(
    cmd: ModeCommand,
    config: &mut ConfigFile,
    save: Sv,
    sync_headphones: Sy,
) -> (r: Result<CommandOutput, CliError>)
    requires
        forall|c: &ConfigFile| #[trigger] call_requires(save, (c,)),
        forall|c: &ConfigFile| #[trigger] call_requires(sync_headphones, (c,)),
    ensures
        cmd is List ==> *final(config) == *old(config) && (r matches Ok(o) && lines_view(o.lines@)
            == all_mode_views(old(config)@).map_values(|m: ModeView| crate::domain::mode_display(m))
            && o.transaction is None),
        cmd matches ModeCommand::Update { name } ==> synced_change(
            mode_set_pre(old(config)@, name@),
            save,
            sync_headphones,
            *old(config),
            r,
            *final(config),
        ),
        cmd matches ModeCommand::Add { name, noise_enabled, noise_level, immersive } ==> saved_change(
            mode_add_pre(old(config)@, name@, noise_enabled, noise_level, immersive),
            save,
            *old(config),
            r,
            *final(config),
            seq!["added mode: "@ + trim(name@)],
        ),
        cmd matches ModeCommand::Remove { name } ==> saved_change(
            mode_remove_pre(old(config)@, name@),
            save,
            *old(config),
            r,
            *final(config),
            seq!["removed mode: "@ + name@],
        ),
{
    match cmd {
        ModeCommand::List => {
            let modes = config.all_modes();
            let mut lines: Vec<String> = Vec::new();
            let n = modes.len();
            let ghost views = mode_views(modes@);
            proof {
                crate::config::lemma_mode_views(modes@);
            }
            for i in 0..n
                invariant
                    n == modes@.len(),
                    views == mode_views(modes@),
                    views.len() == n,
                    forall|k: int| 0 <= k < n ==> #[trigger] views[k] == modes@[k]@,
                    lines@.len() == i,
                    forall|k: int|
                        0 <= k < i ==> #[trigger] lines@[k]@ == crate::domain::mode_display(
                            views[k],
                        ),
            {
                lines.push(modes[i].to_string());
            }
            assert(lines_view(lines@) =~= views.map_values(
                |m: ModeView| crate::domain::mode_display(m),
            ));
            Ok(CommandOutput { lines, transaction: None })
        },
        ModeCommand::Update { name } => {
            supports(config)?;
            let previous = config.clone();
            let mode = match config.find_mode(name.as_str()) {
                Some(m) => m,
                None => return Err(CliError::UnknownMode(name)),
            };
            config.active_mode = Some(mode.name);
            config.noise = mode.noise;
            config.immersive = mode.immersive;
            let ghost prev_g = previous;
            let ghost changed = *config;
            let r = commit(previous, config, save, sync_headphones);
            assert(save_then_sync(save, sync_headphones, prev_g, changed, r, *config));
            r
        },
        ModeCommand::Add { name, noise_enabled, noise_level, immersive } => {
            supports(config)?;
            let enabled = match noise_enabled {
                Some(b) => b,
                None => config.noise.enabled,
            };
            let level = match noise_level {
                Some(l) => l,
                None => config.noise.level,
            };
            let noise = match NoiseControl::new(enabled, level) {
                Ok(n) => n,
                Err(e) => return Err(CliError::Domain(e)),
            };
            let immersive = match immersive {
                Some(v) => ImmersiveAudio::from(v),
                None => config.immersive,
            };
            let mode = match ModePreset::new(name.as_str(), noise, immersive) {
                Ok(m) => m,
                Err(e) => return Err(CliError::Domain(e)),
            };
            let added = mode.name.clone();
            match config.upsert_custom_mode(mode) {
                Err(e) => return Err(CliError::Config(e)),
                Ok(()) => {},
            }
            save_lines(config, save, one_line(prefixed("added mode: ", &added)))
        },
        ModeCommand::Remove { name } => {
            supports(config)?;
            if crate::config::is_builtin_name(name.as_str()) {
                return Err(CliError::CannotRemoveBuiltin(name));
            }
            let ghost before = config@;
            let removed = config.remove_custom_mode(name.as_str());
            proof {
                crate::config::lemma_without_named_len(before.custom_modes, name@);
            }
            if !removed {
                assert(config@.custom_modes =~= before.custom_modes);
                return Err(CliError::CustomModeNotFound(name));
            }
            let clear = match &config.active_mode {
                Some(active) => str_eq_ignore_ascii_case(active.as_str(), name.as_str()),
                None => false,
            };
            if clear {
                config.active_mode = None;
            }
            save_lines(config, save, one_line(prefixed("removed mode: ", &name)))
        },
    }
}

/// `noise set` and `noise show`.
pub fn handle_noise<Sv: Fn(&ConfigFile) -> Result<(), String>, Sy: Fn(&ConfigFile) -> Result<(), String>>(
    cmd: NoiseCommand,
    config: &mut ConfigFile,
    save: Sv,
    sync_headphones: Sy,
) -> (r: Result<CommandOutput, CliError>)
    requires
        forall|c: &ConfigFile| #[trigger] call_requires(save, (c,)),
        forall|c: &ConfigFile| #[trigger] call_requires(sync_headphones, (c,)),
    ensures
        cmd is Show ==> *final(config) == *old(config) && (r matches Ok(o) && lines_view(o.lines@)
            == seq![noise_line(old(config)@.noise)] && o.transaction is None),
        cmd matches NoiseCommand::Update { enabled, level } ==> synced_change(
            noise_set_pre(old(config)@, enabled, level),
            save,
            sync_headphones,
            *old(config),
            r,
            *final(config),
        ),
{
    match cmd {
        NoiseCommand::Update { enabled, level } => {
            supports(config)?;
            let previous = config.clone();
            let noise = match NoiseControl::new(enabled, level) {
                Ok(n) => n,
                Err(e) => return Err(CliError::Domain(e)),
            };
            config.noise = noise;
            config.sync_active_mode_to_current_audio();
            let ghost prev_g = previous;
            let ghost changed = *config;
            let r = commit(previous, config, save, sync_headphones);
            assert(save_then_sync(save, sync_headphones, prev_g, changed, r, *config));
            r
        },
        NoiseCommand::Show => {
            let mut s = String::from_str("enabled=");
            s.append(if config.noise.enabled {
                "true"
            } else {
                "false"
            });
            s.append(" level=");
            crate::text::push_decimal(&mut s, config.noise.level as u64);
            assert(s@ =~= noise_line(config@.noise));
            Ok(CommandOutput { lines: one_line(s), transaction: None })
        },
    }
}

/// `enabled=.. level=..`
pub open spec fn noise_line(n: NoiseControl) -> Seq<char> {
    "enabled="@ + crate::domain::bool_text(n.enabled) + " level="@ + decimal(n.level as nat)
}

/// `immersive set` and `immersive show`.
pub fn handle_immersive<
    Sv: Fn(&ConfigFile) -> Result<(), String>,
    Sy: Fn(&ConfigFile) -> Result<(), String>,
>(cmd: ImmersiveCommand, config: &mut ConfigFile, save: Sv, sync_headphones: Sy) -> (r: Result<
    CommandOutput,
    CliError,
>)
    requires
        forall|c: &ConfigFile| #[trigger] call_requires(save, (c,)),
        forall|c: &ConfigFile| #[trigger] call_requires(sync_headphones, (c,)),
    ensures
        cmd is Show ==> *final(config) == *old(config) && (r matches Ok(o) && lines_view(o.lines@)
            == seq![crate::domain::immersive_text(old(config)@.immersive)] && o.transaction is None),
        cmd matches ImmersiveCommand::Update { value } ==> synced_change(
            immersive_set_pre(old(config)@, value),
            save,
            sync_headphones,
            *old(config),
            r,
            *final(config),
        ),
{
    match cmd {
        ImmersiveCommand::Update { value } => {
            supports(config)?;
            let previous = config.clone();
            config.immersive = ImmersiveAudio::from(value);
            config.sync_active_mode_to_current_audio();
            let ghost prev_g = previous;
            let ghost changed = *config;
            let r = commit(previous, config, save, sync_headphones);
            assert(save_then_sync(save, sync_headphones, prev_g, changed, r, *config));
            r
        },
        ImmersiveCommand::Show => {
            Ok(CommandOutput { lines: one_line(config.immersive.to_string()), transaction: None })
        },
    }
}

/// `bass=.. mid=.. treble=..`
pub open spec fn eq_line(e: crate::domain::Eq) -> Seq<char> {
    "bass="@ + crate::text::signed_decimal(e.bass as int) + " mid="@ + crate::text::signed_decimal(
        e.mid as int,
    ) + " treble="@ + crate::text::signed_decimal(e.treble as int)
}

/// `eq set` and `eq show`.
pub fn handle_eq<Sv: Fn(&ConfigFile) -> Result<(), String>, Sy: Fn(&ConfigFile) -> Result<(), String>>(
    cmd: EqCommand,
    config: &mut ConfigFile,
    save: Sv,
    sync_headphones: Sy,
) -> (r: Result<CommandOutput, CliError>)
    requires
        forall|c: &ConfigFile| #[trigger] call_requires(save, (c,)),
        forall|c: &ConfigFile| #[trigger] call_requires(sync_headphones, (c,)),
    ensures
        cmd is Show ==> *final(config) == *old(config) && (r matches Ok(o) && lines_view(o.lines@)
            == seq![eq_line(old(config)@.eq)] && o.transaction is None),
        cmd matches EqCommand::Update { bass, mid, treble } ==> synced_change(
            eq_set_pre(old(config)@, bass, mid, treble),
            save,
            sync_headphones,
            *old(config),
            r,
            *final(config),
        ),
{
    match cmd {
        EqCommand::Update { bass, mid, treble } => {
            supports(config)?;
            let previous = config.clone();
            let eq = match crate::domain::Eq::new(bass, mid, treble) {
                Ok(e) => e,
                Err(e) => return Err(CliError::Domain(e)),
            };
            config.eq = eq;
            let ghost prev_g = previous;
            let ghost changed = *config;
            let r = commit(previous, config, save, sync_headphones);
            assert(save_then_sync(save, sync_headphones, prev_g, changed, r, *config));
            r
        },
        EqCommand::Show => {
            let mut s = String::from_str("bass=");
            crate::text::push_signed_decimal(&mut s, config.eq.bass as i64);
            s.append(" mid=");
            crate::text::push_signed_decimal(&mut s, config.eq.mid as i64);
            s.append(" treble=");
            crate::text::push_signed_decimal(&mut s, config.eq.treble as i64);
            assert(s@ =~= eq_line(config@.eq));
            Ok(CommandOutput { lines: one_line(s), transaction: None })
        },
    }
}

/// A selected device whose model is unknown, or known but without
/// configuration writes, makes every configuration change fail with the
/// model's error before anything is changed or saved.
pub proof fn lemma_unwritable_model_refuses_changes(c: ConfigView)
    requires
        c.selected_device is Some,
        match crate::models::selected_model_spec(c) {
            Err(_) => true,
            Ok(id) => !model_capabilities(id).config_writes,
        },
    ensures
        supports_config_spec(c) is Err,
        forall|name: Seq<char>| #[trigger] mode_set_pre(c, name) == Err::<ConfigView, CliErrorView>(
            CliErrorView::Model(supports_config_spec(c)->Err_0),
        ),
        forall|name: Seq<char>, e: Option<bool>, l: Option<u8>, i: Option<ImmersiveValue>|
            #[trigger] mode_add_pre(c, name, e, l, i) == Err::<ConfigView, CliErrorView>(
                CliErrorView::Model(supports_config_spec(c)->Err_0),
            ),
        forall|name: Seq<char>| #[trigger] mode_remove_pre(c, name) == Err::<ConfigView, CliErrorView>(
            CliErrorView::Model(supports_config_spec(c)->Err_0),
        ),
        forall|e: bool, l: u8| #[trigger] noise_set_pre(c, e, l) == Err::<ConfigView, CliErrorView>(
            CliErrorView::Model(supports_config_spec(c)->Err_0),
        ),
        forall|v: ImmersiveValue| #[trigger] immersive_set_pre(c, v) == Err::<
            ConfigView,
            CliErrorView,
        >(CliErrorView::Model(supports_config_spec(c)->Err_0)),
        forall|b: i8, m: i8, t: i8| #[trigger] eq_set_pre(c, b, m, t) == Err::<
            ConfigView,
            CliErrorView,
        >(CliErrorView::Model(supports_config_spec(c)->Err_0)),
{
}

/// When the sync of a saved change fails, the configuration in memory is
/// the one from before the change.
pub proof fn lemma_failed_sync_rolls_back<
    Sv: Fn(&ConfigFile) -> Result<(), String>,
    Sy: Fn(&ConfigFile) -> Result<(), String>,
>(
    save: Sv,
    sync: Sy,
    before: ConfigFile,
    changed: ConfigFile,
    r: Result<CommandOutput, CliError>,
    after: ConfigFile,
)
    requires
        save_then_sync(save, sync, before, changed, r, after),
        r matches Err(CliError::Transaction(_)),
    ensures
        after == before,
{
    let saved = choose|saved: Result<(), String>|
        call_ensures(save, (&changed,), saved) && if saved is Err {
            (r matches Err(e) && e@ == CliErrorView::Save(saved->Err_0@)) && after == changed
        } else if changed.selected_device is None {
            (r matches Ok(o) && o.transaction == Some(
                SyncTransactionOutcome::SavedLocallyNoSelectedDevice,
            ) && o.lines@.len() == 0) && after == changed
        } else {
            exists|synced: Result<(), String>|
                call_ensures(sync, (&changed,), synced) && if synced is Ok {
                    (r matches Ok(o) && o.transaction == Some(SyncTransactionOutcome::Synced)
                        && o.lines@.len() == 0) && after == changed
                } else {
                    (r matches Err(CliError::Transaction(t)) && t.sync_error == synced->Err_0
                        && call_ensures(save, (&before,), t.rollback_save) && call_ensures(
                        sync,
                        (&before,),
                        t.rollback_sync,
                    )) && after == before
                }
        };
}

/// The lines of `status` that describe the saved configuration.
pub open spec fn status_text(c: ConfigView) -> Seq<Seq<char>> {
    let device = match c.selected_device {
        Some(d) => crate::domain::device_display(d),
        None => "<none>"@,
    };
    let model = match c.selected_device {
        Some(d) => match resolve_spec(d) {
            Some(id) => crate::domain::model_id_text(id),
            None => "<unknown>"@,
        },
        None => "<unknown>"@,
    };
    let active = match c.active_mode {
        Some(a) => a,
        None => "<none>"@,
    };
    seq![
        "selected device: "@ + device,
        "selected model: "@ + model,
        "active mode: "@ + active,
        "noise: enabled="@ + crate::domain::bool_text(c.noise.enabled) + " level="@ + decimal(
            c.noise.level as nat,
        ),
        "immersive: "@ + crate::domain::immersive_text(c.immersive),
        "eq: bass="@ + crate::text::signed_decimal(c.eq.bass as int) + " mid="@
            + crate::text::signed_decimal(c.eq.mid as int) + " treble="@
            + crate::text::signed_decimal(c.eq.treble as int),
    ]
}

pub fn status_lines(config: &ConfigFile) -> (r: Vec<String>)
    ensures
        lines_view(r@) == status_text(config@),
{
    let mut lines: Vec<String> = Vec::new();
    let mut device = String::from_str("selected device: ");
    match &config.selected_device {
        Some(d) => {
            let shown = d.display();
            device.append(shown.as_str());
        },
        None => device.append("<none>"),
    }
    lines.push(device);
    let mut model = String::from_str("selected model: ");
    let resolved = match &config.selected_device {
        Some(d) => resolve_device_model(d),
        None => None,
    };
    match resolved {
        Some(id) => model.append(id.as_str()),
        None => model.append("<unknown>"),
    }
    lines.push(model);
    let mut active = String::from_str("active mode: ");
    match &config.active_mode {
        Some(a) => active.append(a.as_str()),
        None => active.append("<none>"),
    }
    lines.push(active);
    let mut noise = String::from_str("noise: enabled=");
    noise.append(if config.noise.enabled {
        "true"
    } else {
        "false"
    });
    noise.append(" level=");
    crate::text::push_decimal(&mut noise, config.noise.level as u64);
    lines.push(noise);
    let mut immersive = String::from_str("immersive: ");
    immersive.append(config.immersive.as_str());
    lines.push(immersive);
    let mut eq = String::from_str("eq: bass=");
    crate::text::push_signed_decimal(&mut eq, config.eq.bass as i64);
    eq.append(" mid=");
    crate::text::push_signed_decimal(&mut eq, config.eq.mid as i64);
    eq.append(" treble=");
    crate::text::push_signed_decimal(&mut eq, config.eq.treble as i64);
    lines.push(eq);
    assert(lines_view(lines@) =~= status_text(config@));
    lines
}


/// The line the UI starts with after a scan.
pub open spec fn scan_status_text(found: Result<nat, Seq<char>>) -> Seq<char> {
    match found {
        Ok(n) => if n == 0 {
            "No Bluetooth devices found during scan/listing."@
        } else {
            "Found "@ + decimal(n) + " Bluetooth device(s)."@
        },
        Err(e) => "Bluetooth scan/listing failed: "@ + e,
    }
}

pub fn scan_status(scan: &Result<Vec<ScannedDevice>, String>) -> (r: String)
    ensures
        r@ == scan_status_text(
            match scan {
                Ok(ds) => Ok(ds@.len()),
                Err(e) => Err(e@),
            },
        ),
{
    match scan {
        Ok(ds) => if ds.len() == 0 {
            String::from_str("No Bluetooth devices found during scan/listing.")
        } else {
            let mut s = String::from_str("Found ");
            push_decimal(&mut s, ds.len() as u64);
            s.append(" Bluetooth device(s).");
            s
        },
        Err(e) => prefixed("Bluetooth scan/listing failed: ", e),
    }
}

/// What `status` prints for the battery: a line on standard output (`Ok`),
/// a warning on standard error (`Err`), or nothing.
pub open spec fn battery_report_text(b: BatteryReadback) -> Option<Result<Seq<char>, Seq<char>>> {
    match b {
        BatteryReadback::Unavailable => None,
        BatteryReadback::Level(l) => Some(Ok("battery: "@ + decimal(l as nat) + "%"@)),
        BatteryReadback::Error(e) => Some(
            Err("warning: failed to read battery from headphones: "@ + e@),
        ),
    }
}

pub open spec fn report_view(r: Option<Result<String, String>>) -> Option<Result<Seq<char>, Seq<char>>> {
    match r {
        None => None,
        Some(Ok(s)) => Some(Ok(s@)),
        Some(Err(s)) => Some(Err(s@)),
    }
}

pub fn battery_report(b: &BatteryReadback) -> (r: Option<Result<String, String>>)
    ensures
        report_view(r) == battery_report_text(*b),
{
    match b {
        BatteryReadback::Unavailable => None,
        BatteryReadback::Level(l) => {
            let mut s = String::from_str("battery: ");
            push_decimal(&mut s, *l as u64);
            s.append("%");
            Some(Ok(s))
        },
        BatteryReadback::Error(e) => Some(
            Err(prefixed("warning: failed to read battery from headphones: ", e)),
        ),
    }
}

pub open spec fn outcome_text(o: SyncTransactionOutcome) -> Seq<char> {
    match o {
        SyncTransactionOutcome::Synced => "synced config to headphones"@,
        SyncTransactionOutcome::SavedLocallyNoSelectedDevice =>
            "warning: saved config locally but no selected device is available to sync"@,
    }
}

impl SyncTransactionOutcome {
    /// The notice printed when a change was saved: synced, or kept local.
    pub fn message(&self) -> (r: String)
        ensures
            r@ == outcome_text(*self),
    {
        match self {
            SyncTransactionOutcome::Synced => String::from_str("synced config to headphones"),
            SyncTransactionOutcome::SavedLocallyNoSelectedDevice => String::from_str(
                "warning: saved config locally but no selected device is available to sync",
            ),
        }
    }
}

/// The notices printed while a failed sync is rolled back, before the error.
pub open spec fn transaction_notices(
    sync_error: Seq<char>,
    rollback_save: Result<(), Seq<char>>,
    rollback_sync: Result<(), Seq<char>>,
) -> Seq<Seq<char>> {
    seq!["error: failed to sync requested change to headphones: "@ + sync_error] + match (
        rollback_save,
        rollback_sync,
    ) {
        (Ok(()), Ok(())) => seq![
            "rolled back local config and synced previous desired settings to headphones"@,
        ],
        (Ok(()), Err(r)) => seq![
            "rolled back local config, but headset rollback failed: "@ + r
                + "; headset state unknown"@,
        ],
        _ => Seq::empty(),
    }
}

impl TransactionError {
    pub fn notices(&self) -> (r: Vec<String>)
        ensures
            lines_view(r@) == transaction_notices(
                self.sync_error@,
                result_text(self.rollback_save),
                result_text(self.rollback_sync),
            ),
    {
        let mut lines: Vec<String> = Vec::new();
        lines.push(prefixed("error: failed to sync requested change to headphones: ", &self.sync_error));
        match (&self.rollback_save, &self.rollback_sync) {
            (Ok(()), Ok(())) => {
                lines.push(
                    String::from_str(
                        "rolled back local config and synced previous desired settings to headphones",
                    ),
                );
            },
            (Ok(()), Err(r)) => {
                let mut s = prefixed("rolled back local config, but headset rollback failed: ", r);
                s.append("; headset state unknown");
                lines.push(s);
            },
            _ => {},
        }
        assert(lines_view(lines@) =~= transaction_notices(
            self.sync_error@,
            result_text(self.rollback_save),
            result_text(self.rollback_sync),
        ));
        lines
    }
}

/// The report of `doctor`: the config path and its state (missing, or
/// whether it loads), whether fzf is there, and the Bluetooth adapter's state.
pub open spec fn doctor_text(
    config_path: Seq<char>,
    config_state: Option<Result<(), Seq<char>>>,
    fzf_available: bool,
    adapter: Result<bool, Seq<char>>,
) -> Seq<Seq<char>> {
    seq![
        "config: "@ + config_path,
        "config status: "@ + match config_state {
            None => "missing; defaults will be used"@,
            Some(Ok(())) => "valid"@,
            Some(Err(e)) => "invalid ("@ + e + ")"@,
        },
        "fzf: "@ + if fzf_available {
            "available"@
        } else {
            "missing"@
        },
        "bluetooth adapter: "@ + match adapter {
            Ok(true) => "available"@,
            Ok(false) => "missing"@,
            Err(e) => "error ("@ + e + ")"@,
        },
        "caveat: Bluetooth discovery/listing plus BMAP sync over macOS RFCOMM serial for mode/noise/immersive/EQ."@,
    ]
}

pub fn doctor_lines(
    config_path: &str,
    config_state: &Option<Result<(), String>>,
    fzf_available: bool,
    adapter: &Result<bool, String>,
) -> (r: Vec<String>)
    ensures
        lines_view(r@) == doctor_text(
            config_path@,
            match config_state {
                None => None,
                Some(Ok(())) => Some(Ok(())),
                Some(Err(e)) => Some(Err(e@)),
            },
            fzf_available,
            match adapter {
                Ok(b) => Ok(*b),
                Err(e) => Err(e@),
            },
        ),
{
    let ghost cs = match config_state {
        None => None,
        Some(Ok(())) => Some(Ok(())),
        Some(Err(e)) => Some(Err(e@)),
    };
    let ghost ad = match adapter {
        Ok(b) => Ok(*b),
        Err(e) => Err(e@),
    };
    let ghost want = doctor_text(config_path@, cs, fzf_available, ad);
    let mut lines: Vec<String> = Vec::new();
    let mut path = String::from_str("config: ");
    path.append(config_path);
    assert(path@ == want[0]);
    lines.push(path);
    let mut state = String::from_str("config status: ");
    match config_state {
        None => state.append("missing; defaults will be used"),
        Some(Ok(())) => state.append("valid"),
        Some(Err(e)) => {
            state.append("invalid (");
            state.append(e.as_str());
            state.append(")");
            assert(state@ =~= "config status: "@ + ("invalid ("@ + e@ + ")"@));
        },
    }
    assert(state@ =~= want[1]);
    lines.push(state);
    let mut fzf = String::from_str("fzf: ");
    fzf.append(if fzf_available {
        "available"
    } else {
        "missing"
    });
    assert(fzf@ =~= want[2]);
    lines.push(fzf);
    let mut bt = String::from_str("bluetooth adapter: ");
    match adapter {
        Ok(true) => bt.append("available"),
        Ok(false) => bt.append("missing"),
        Err(e) => {
            bt.append("error (");
            bt.append(e.as_str());
            bt.append(")");
            assert(bt@ =~= "bluetooth adapter: "@ + ("error ("@ + e@ + ")"@));
        },
    }
    assert(bt@ =~= want[3]);
    lines.push(bt);
    lines.push(
        String::from_str(
            "caveat: Bluetooth discovery/listing plus BMAP sync over macOS RFCOMM serial for mode/noise/immersive/EQ.",
        ),
    );
    assert(lines_view(lines@) =~= want);
    lines
}

} // verus!
