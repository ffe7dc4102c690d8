//! The device picker's rows and the reading of the picked row.
use vstd::prelude::*;
use crate::bluetooth::{ScannedDevice, ScannedView};
use crate::domain::{DeviceRef, DeviceView, ModelId, model_id_text};
use crate::models::{infer_model_from_name, infer_spec};
use crate::text::{decimal, is_whitespace, push_char, push_decimal, push_signed_decimal, signed_decimal, char_is_whitespace};

verus! {

pub open spec fn sanitized_char(c: char) -> char {
    if c == '\t' || c == '\n' || c == '\r' {
        ' '
    } else {
        c
    }
}

/// Tabs and line breaks become spaces, so that a name stays in its cell.
pub open spec fn sanitize(s: Seq<char>) -> Seq<char> {
    s.map_values(|c: char| sanitized_char(c))
}

pub fn sanitize_cell(value: &str) -> (r: String)
    ensures
        r@ == sanitize(value@),
{
    let n = value.unicode_len();
    let mut out = String::new();
    for i in 0..n
        invariant
            n == value@.len(),
            out@ == sanitize(value@.take(i as int)),
    {
        let c = value.get_char(i);
        push_char(&mut out, if c == '\t' || c == '\n' || c == '\r' {
            ' '
        } else {
            c
        });
        assert(out@ =~= sanitize(value@.take(i + 1)));
    }
    assert(value@.take(n as int) =~= value@);
    out
}

/// The model a scanned device is taken to be, from its name.
pub open spec fn scanned_model(d: ScannedView) -> Option<ModelId> {
    match d.name {
        Some(n) => infer_spec(n),
        None => None,
    }
}

pub fn scanned_device_model(d: &ScannedDevice) -> (r: Option<ModelId>)
    ensures
        r == scanned_model(d@),
{
    match &d.name {
        Some(n) => infer_model_from_name(n.as_str()),
        None => None,
    }
}

/// The cells after the name: address, model, signal strength, connection.
pub open spec fn tail_cells(d: ScannedView) -> Seq<char> {
    seq!['\t'] + d.address + seq!['\t'] + match scanned_model(d) {
        Some(id) => model_id_text(id),
        None => "unknown-model"@,
    } + seq!['\t'] + match d.rssi {
        Some(r) => signed_decimal(r as int),
        None => "<n/a>"@,
    } + seq!['\t'] + if d.connected {
        "connected"@
    } else {
        "discovered"@
    }
}

fn push_tail_cells(s: &mut String, d: &ScannedDevice)
    ensures
        final(s)@ == old(s)@ + tail_cells(d@),
{
    push_char(s, '\t');
    s.append(d.address.as_str());
    push_char(s, '\t');
    match scanned_device_model(d) {
        Some(id) => s.append(id.as_str()),
        None => s.append("unknown-model"),
    }
    push_char(s, '\t');
    match d.rssi {
        Some(r) => push_signed_decimal(s, r as i64),
        None => s.append("<n/a>"),
    }
    push_char(s, '\t');
    s.append(if d.connected {
        "connected"
    } else {
        "discovered"
    });
    assert(final(s)@ =~= old(s)@ + tail_cells(d@));
}

/// A device as `devices` lists it: name, address, model, signal, connection.
pub open spec fn device_line_spec(d: ScannedView) -> Seq<char> {
    let name = match d.name {
        Some(n) => n,
        None => "<unknown>"@,
    };
    name + tail_cells(d)
}

pub fn device_line(d: &ScannedDevice) -> (r: String)
    ensures
        r@ == device_line_spec(d@),
{
    let mut s = match &d.name {
        Some(n) => n.clone(),
        None => String::from_str("<unknown>"),
    };
    push_tail_cells(&mut s, d);
    s
}

/// A picker row: the index, then the cells with the name sanitized.
pub open spec fn picker_row(index: nat, d: ScannedView) -> Seq<char> {
    decimal(index) + seq!['\t'] + match d.name {
        Some(n) => sanitize(n),
        None => "<unknown>"@,
    } + tail_cells(d)
}

pub open spec fn scanned_views(ds: Seq<ScannedDevice>) -> Seq<ScannedView> {
    ds.map_values(|d: ScannedDevice| d@)
}

/// The picker's input: one row per device, joined by newlines.
pub open spec fn picker_input_spec(ds: Seq<ScannedView>) -> Seq<char>
    decreases ds.len(),
{
    if ds.len() == 0 {
        Seq::empty()
    } else if ds.len() == 1 {
        picker_row(0, ds[0])
    } else {
        picker_input_spec(ds.drop_last()) + seq!['\n'] + picker_row(
            (ds.len() - 1) as nat,
            ds.last(),
        )
    }
}

pub fn picker_input(devices: &Vec<ScannedDevice>) -> (r: String)
    ensures
        r@ == picker_input_spec(scanned_views(devices@)),
{
    let n = devices.len();
    let ghost ds = scanned_views(devices@);
    let mut s = String::new();
    assert(ds.take(0) =~= Seq::<ScannedView>::empty());
    for i in 0..n
        invariant
            n == devices@.len(),
            ds == scanned_views(devices@),
            s@ == picker_input_spec(ds.take(i as int)),
    {
        let d = &devices[i];
        assert(ds[i as int] == d@);
        if i > 0 {
            push_char(&mut s, '\n');
        }
        push_decimal(&mut s, i as u64);
        push_char(&mut s, '\t');
        match &d.name {
            Some(name) => {
                let cell = sanitize_cell(name.as_str());
                s.append(cell.as_str());
            },
            None => s.append("<unknown>"),
        }
        push_tail_cells(&mut s, d);
        proof {
            let t = ds.take(i + 1);
            assert(t.drop_last() =~= ds.take(i as int));
            assert(t.last() == d@);
            if i == 0 {
                assert(s@ =~= picker_row(0, d@));
            } else {
                assert(s@ =~= picker_input_spec(ds.take(i as int)) + seq!['\n'] + picker_row(
                    i as nat,
                    d@,
                ));
            }
        }
    }
    assert(ds.take(n as int) =~= ds);
    s
}

/// Errors of reading the picked row.
#[derive(Debug, Clone, Copy, PartialEq, Eq, Structural)]
pub enum PickError {
    InvalidIndex,
    OutOfRange,
}

pub open spec fn pick_error_text(e: PickError) -> Seq<char> {
    match e {
        PickError::InvalidIndex => "fzf returned an invalid device index"@,
        PickError::OutOfRange => "fzf selected a device index outside the scanned list"@,
    }
}

impl PickError {
    pub fn message(&self) -> (r: String)
        ensures
            r@ == pick_error_text(*self),
    {
        match self {
            PickError::InvalidIndex => String::from_str("fzf returned an invalid device index"),
            PickError::OutOfRange => String::from_str(
                "fzf selected a device index outside the scanned list",
            ),
        }
    }
}

/// Text up to the first tab.
pub open spec fn first_field(s: Seq<char>) -> Seq<char>
    decreases s.len(),
{
    if s.len() == 0 {
        s
    } else if s[0] == '\t' {
        Seq::empty()
    } else {
        seq![s[0]] + first_field(s.drop_first())
    }
}

/// Text without trailing whitespace, as `str::trim_end` gives it.
pub open spec fn trim_end(s: Seq<char>) -> Seq<char> {
    s.take(s.len() - crate::text::trail_ws(s))
}

pub open spec fn is_digit(c: char) -> bool {
    '0' <= c && c <= '9'
}

/// The value of a string of decimal digits.
pub open spec fn digits_value(s: Seq<char>) -> nat
    decreases s.len(),
{
    if s.len() == 0 {
        0
    } else {
        digits_value(s.drop_last()) * 10 + ((s.last() as u32) - ('0' as u32)) as nat
    }
}

pub open spec fn all_digits(d: Seq<char>) -> bool {
    forall|i: int| 0 <= i < d.len() ==> is_digit(#[trigger] d[i])
}

/// The digits of a number, after its optional `+` sign.
pub open spec fn unsigned_part(s: Seq<char>) -> Seq<char> {
    if s.len() > 0 && s[0] == '+' {
        s.drop_first()
    } else {
        s
    }
}

/// `usize::from_str`: an optional `+`, then at least one digit, within range.
pub open spec fn parse_usize_spec(s: Seq<char>) -> Option<nat> {
    let d = unsigned_part(s);
    if d.len() == 0 || !all_digits(d) {
        None
    } else if digits_value(d) > usize::MAX {
        None
    } else {
        Some(digits_value(d))
    }
}

pub(crate) proof fn lemma_digits_value_monotone(d: Seq<char>, i: int)
    requires
        0 <= i <= d.len(),
        forall|k: int| 0 <= k < d.len() ==> is_digit(#[trigger] d[k]),
    ensures
        digits_value(d.take(i)) <= digits_value(d),
    decreases d.len() - i,
{
    if i < d.len() {
        lemma_digits_value_monotone(d, i + 1);
        let t = d.take(i + 1);
        assert(t.drop_last() =~= d.take(i));
        assert(digits_value(t) == digits_value(d.take(i)) * 10 + ((t.last() as u32) - ('0' as u32)) as nat);
    } else {
        assert(d.take(i) =~= d);
    }
}

fn parse_usize(s: &str) -> (r: Option<usize>)
    ensures
        r matches Some(v) ==> parse_usize_spec(s@) == Some(v as nat),
        r is None ==> parse_usize_spec(s@) is None,
{
    let n = s.unicode_len();
    let start: usize = if n > 0 && s.get_char(0) == '+' {
        1
    } else {
        0
    };
    let ghost d = s@.skip(start as int);
    proof {
        if n > 0 && s@[0] == '+' {
            assert(d =~= s@.drop_first());
        } else {
            assert(d =~= s@);
        }
    }
    if start >= n {
        return None;
    }
    let mut value: usize = 0;
    let mut i = start;
    while i < n
        invariant
            start <= i <= n,
            n == s@.len(),
            d == s@.skip(start as int),
            d == unsigned_part(s@),
            forall|k: int| 0 <= k < i - start ==> is_digit(#[trigger] d[k]),
            value as nat == digits_value(d.take(i - start)),
        decreases n - i,
    {
        let c = s.get_char(i);
        assert(d[i - start] == c);
        if !('0' <= c && c <= '9') {
            assert(!is_digit(d[i - start]));
            assert(!all_digits(d));
            assert(parse_usize_spec(s@) is None);
            return None;
        }
        let digit: usize = ((c as u32) - 48) as usize;
        let ghost t = d.take(i - start + 1);
        assert(t.drop_last() =~= d.take(i - start));
        assert(t.last() == c);
        if value > (usize::MAX - digit) / 10 {
            proof {
                assert forall|k: int| 0 <= k < i - start + 1 implies is_digit(#[trigger] d[k]) by {}
                assert(digits_value(t) == value * 10 + digit);
                assert(value * 10 + digit > usize::MAX) by (nonlinear_arith)
                    requires
                        value > (usize::MAX - digit) / 10,
                        digit <= 9,
                ;
                assert(('0' as u32) == 48);
                if all_digits(d) {
                    lemma_digits_value_monotone(d, i - start + 1);
                    assert(digits_value(d) > usize::MAX);
                }
                assert(parse_usize_spec(s@) is None);
            }
            return None;
        }
        assert(value * 10 + digit <= usize::MAX) by (nonlinear_arith)
            requires
                value <= (usize::MAX - digit) / 10,
                digit <= 9,
        ;
        value = value * 10 + digit;
        i = i + 1;
    }
    assert(d.take(n - start) =~= d);
    Some(value)
}

/// The picked row's index: the row's first field, read as a number that
/// must name one of `count` devices.
pub open spec fn picked_index_spec(output: Seq<char>, count: nat) -> Result<nat, PickError> {
    match parse_usize_spec(first_field(trim_end(output))) {
        None => Err(PickError::InvalidIndex),
        Some(i) => if i < count {
            Ok(i)
        } else {
            Err(PickError::OutOfRange)
        },
    }
}

pub fn picked_index(output: &str, count: usize) -> (r: Result<usize, PickError>)
    ensures
        r matches Ok(i) ==> picked_index_spec(output@, count as nat) == Ok::<nat, PickError>(i as nat),
        r matches Err(e) ==> picked_index_spec(output@, count as nat) == Err::<nat, PickError>(e),
{
    let n = output.unicode_len();
    let mut end: usize = n;
    while end > 0 && char_is_whitespace(output.get_char(end - 1))
        invariant
            end <= n,
            n == output@.len(),
            forall|k: int| end <= k < n ==> is_whitespace(#[trigger] output@[k]),
        decreases end,
    {
        end = end - 1;
    }
    let ghost trimmed = output@.take(end as int);
    proof {
        crate::text::lemma_trail_ws(output@, end as int);
    }
    let mut stop: usize = 0;
    while stop < end && output.get_char(stop) != '\t'
        invariant
            stop <= end,
            end <= n,
            n == output@.len(),
            forall|k: int| 0 <= k < stop ==> output@[k] != '\t',
        decreases end - stop,
    {
        stop = stop + 1;
    }
    proof {
        lemma_first_field_at(trimmed, stop as int);
        assert(trimmed.take(stop as int) =~= output@.subrange(0, stop as int));
    }
    let field = output.substring_char(0, stop);
    match parse_usize(field) {
        None => Err(PickError::InvalidIndex),
        Some(i) => if i < count {
            Ok(i)
        } else {
            Err(PickError::OutOfRange)
        },
    }
}

proof fn lemma_first_field_at(s: Seq<char>, stop: int)
    requires
        0 <= stop <= s.len(),
        forall|k: int| 0 <= k < stop ==> s[k] != '\t',
        stop == s.len() || s[stop] == '\t',
    ensures
        first_field(s) == s.take(stop),
    decreases stop,
{
    if stop == 0 {
        assert(s.take(0) =~= Seq::<char>::empty());
    } else {
        let d = s.drop_first();
        assert forall|k: int| 0 <= k < stop - 1 implies d[k] != '\t' by {
            assert(d[k] == s[k + 1]);
        }
        lemma_first_field_at(d, stop - 1);
        assert(seq![s[0]] + d.take(stop - 1) =~= s.take(stop));
    }
}

/// The reference saved for a picked device, with the model its name implies.
pub fn picked_reference(device: &ScannedDevice) -> (r: DeviceRef)
    ensures
        r@ == (DeviceView {
            address: device@.address,
            name: device@.name,
            model: scanned_model(device@),
        }),
{
    DeviceRef {
        name: crate::domain::clone_opt_string(&device.name),
        address: device.address.clone(),
        model: scanned_device_model(device),
    }
}

} // verus!
