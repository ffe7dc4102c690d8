//! BMAP frames: `[fblock, function, flags, payload_length, ...payload]`, their
//! encoding, parsing, and the validation of a headset's response.
use vstd::prelude::*;
use crate::config::ConfigFile;
use crate::text::{decimal, push_decimal};

verus! {

/// The operator carried in the low nibble of a frame's flags byte.
#[derive(Debug, Clone, Copy, PartialEq, Eq, Structural)]
pub enum Operator {
    SetOnly,
    Get,
    SetGet,
    Status,
    Error,
    Start,
    Result,
    Processing,
}

pub open spec fn op_code(op: Operator) -> u8 {
    match op {
        Operator::SetOnly => 0,
        Operator::Get => 1,
        Operator::SetGet => 2,
        Operator::Status => 3,
        Operator::Error => 4,
        Operator::Start => 5,
        Operator::Result => 6,
        Operator::Processing => 7,
    }
}

/// The operator named by a flags byte: its low nibble, routing bits ignored.
pub open spec fn op_from_flags(flags: u8) -> Option<Operator> {
    let n = flags % 16;
    if n == 0 {
        Some(Operator::SetOnly)
    } else if n == 1 {
        Some(Operator::Get)
    } else if n == 2 {
        Some(Operator::SetGet)
    } else if n == 3 {
        Some(Operator::Status)
    } else if n == 4 {
        Some(Operator::Error)
    } else if n == 5 {
        Some(Operator::Start)
    } else if n == 6 {
        Some(Operator::Result)
    } else if n == 7 {
        Some(Operator::Processing)
    } else {
        None
    }
}

pub open spec fn op_name(op: Operator) -> Seq<char> {
    match op {
        Operator::SetOnly => "Set"@,
        Operator::Get => "Get"@,
        Operator::SetGet => "SetGet"@,
        Operator::Status => "Status"@,
        Operator::Error => "Error"@,
        Operator::Start => "Start"@,
        Operator::Result => "Result"@,
        Operator::Processing => "Processing"@,
    }
}

impl Operator {
    pub fn to_u8(self) -> (r: u8)
        ensures
            r == op_code(self),
    {
        match self {
            Operator::SetOnly => 0,
            Operator::Get => 1,
            Operator::SetGet => 2,
            Operator::Status => 3,
            Operator::Error => 4,
            Operator::Start => 5,
            Operator::Result => 6,
            Operator::Processing => 7,
        }
    }

    /// The operator of a flags byte; a low nibble above 7 is refused.
    pub fn try_from(value: u8) -> (r: Result<Operator, BmapError>)
        ensures
            r matches Ok(op) ==> op_from_flags(value) == Some(op),
            r matches Err(e) ==> op_from_flags(value) is None && e == BmapError::UnknownOperator(
                value,
            ),
            r is Ok <==> op_from_flags(value) is Some,
    {
        let n = value & 0x0f;
        assert(n == value % 16) by (bit_vector)
            requires
                n == value & 0x0f,
        ;
        if n == 0 {
            Ok(Operator::SetOnly)
        } else if n == 1 {
            Ok(Operator::Get)
        } else if n == 2 {
            Ok(Operator::SetGet)
        } else if n == 3 {
            Ok(Operator::Status)
        } else if n == 4 {
            Ok(Operator::Error)
        } else if n == 5 {
            Ok(Operator::Start)
        } else if n == 6 {
            Ok(Operator::Result)
        } else if n == 7 {
            Ok(Operator::Processing)
        } else {
            Err(BmapError::UnknownOperator(value))
        }
    }

    /// The operator's name, as `{:?}` shows it.
    pub fn name(self) -> (r: &'static str)
        ensures
            r@ == op_name(self),
    {
        match self {
            Operator::SetOnly => "Set",
            Operator::Get => "Get",
            Operator::SetGet => "SetGet",
            Operator::Status => "Status",
            Operator::Error => "Error",
            Operator::Start => "Start",
            Operator::Result => "Result",
            Operator::Processing => "Processing",
        }
    }
}

/// Errors of frame encoding, parsing and response validation.
#[derive(Debug, Clone, Copy, PartialEq, Eq, Structural)]
pub enum BmapError {
    PayloadTooLong(usize),
    FrameTooShort,
    PayloadTruncated,
    UnknownOperator(u8),
    TrailingPartialFrame,
    DeviceError { code: u8, fblock: u8, func: u8 },
    UnexpectedOperator { op: Operator, fblock: u8, func: u8 },
    MissingResponse { fblock: u8, func: u8 },
    EmptyResponse,
}

/// The name of a BMAP error code.
pub open spec fn error_code_name(code: u8) -> Seq<char> {
    if code == 1 {
        "Length"@
    } else if code == 2 {
        "Checksum"@
    } else if code == 3 {
        "FunctionBlockNotSupported"@
    } else if code == 4 {
        "FunctionNotSupported"@
    } else if code == 5 {
        "OperatorNotSupportedOrAuthRequired"@
    } else if code == 6 {
        "InvalidData"@
    } else if code == 7 {
        "DataUnavailable"@
    } else if code == 8 {
        "Runtime"@
    } else if code == 9 {
        "Timeout"@
    } else if code == 10 {
        "InvalidState"@
    } else if code == 15 {
        "InvalidTransition"@
    } else if code == 20 {
        "InsecureTransport"@
    } else {
        "Unknown"@
    }
}

pub fn error_name(code: u8) -> (r: &'static str)
    ensures
        r@ == error_code_name(code),
{
    match code {
        1 => "Length",
        2 => "Checksum",
        3 => "FunctionBlockNotSupported",
        4 => "FunctionNotSupported",
        5 => "OperatorNotSupportedOrAuthRequired",
        6 => "InvalidData",
        7 => "DataUnavailable",
        8 => "Runtime",
        9 => "Timeout",
        10 => "InvalidState",
        15 => "InvalidTransition",
        20 => "InsecureTransport",
        _ => "Unknown",
    }
}

/// `[fblock.func]`
pub open spec fn address_text(fblock: u8, func: u8) -> Seq<char> {
    seq!['['] + decimal(fblock as nat) + seq!['.'] + decimal(func as nat) + seq![']']
}

pub open spec fn bmap_error_text(e: BmapError) -> Seq<char> {
    match e {
        BmapError::PayloadTooLong(n) => "BMAP payload too long: "@ + decimal(n as nat)
            + " bytes"@,
        BmapError::FrameTooShort => "frame too short"@,
        BmapError::PayloadTruncated => "frame payload truncated"@,
        BmapError::UnknownOperator(v) => "unknown operator "@ + decimal(v as nat),
        BmapError::TrailingPartialFrame => "trailing partial BMAP frame"@,
        BmapError::DeviceError { code, fblock, func } => "BMAP error "@ + error_code_name(code)
            + " on "@ + address_text(fblock, func),
        BmapError::UnexpectedOperator { op, fblock, func } => "unexpected BMAP response operator "@
            + op_name(op) + " on "@ + address_text(fblock, func),
        BmapError::MissingResponse { fblock, func } => "missing BMAP response for "@
            + address_text(fblock, func),
        BmapError::EmptyResponse => "empty BMAP response"@,
    }
}

pub fn push_address(s: &mut String, fblock: u8, func: u8)
    ensures
        final(s)@ == old(s)@ + address_text(fblock, func),
{
    s.append("[");
    push_decimal(s, fblock as u64);
    s.append(".");
    push_decimal(s, func as u64);
    s.append("]");
    proof {
        reveal_strlit("[");
        reveal_strlit(".");
        reveal_strlit("]");
        assert(final(s)@ =~= old(s)@ + address_text(fblock, func));
    }
}

impl BmapError {
    pub fn message(&self) -> (r: String)
        ensures
            r@ == bmap_error_text(*self),
    {
        let mut s = String::new();
        match *self {
            BmapError::PayloadTooLong(n) => {
                s.append("BMAP payload too long: ");
                push_decimal(&mut s, n as u64);
                s.append(" bytes");
            },
            BmapError::FrameTooShort => s.append("frame too short"),
            BmapError::PayloadTruncated => s.append("frame payload truncated"),
            BmapError::UnknownOperator(v) => {
                s.append("unknown operator ");
                push_decimal(&mut s, v as u64);
            },
            BmapError::TrailingPartialFrame => s.append("trailing partial BMAP frame"),
            BmapError::DeviceError { code, fblock, func } => {
                s.append("BMAP error ");
                s.append(error_name(code));
                s.append(" on ");
                push_address(&mut s, fblock, func);
            },
            BmapError::UnexpectedOperator { op, fblock, func } => {
                s.append("unexpected BMAP response operator ");
                s.append(op.name());
                s.append(" on ");
                push_address(&mut s, fblock, func);
            },
            BmapError::MissingResponse { fblock, func } => {
                s.append("missing BMAP response for ");
                push_address(&mut s, fblock, func);
            },
            BmapError::EmptyResponse => s.append("empty BMAP response"),
        }
        assert(s@ =~= bmap_error_text(*self));
        s
    }
}

/// A decoded frame.
#[derive(Debug)]
pub struct Frame {
    pub fblock: u8,
    pub func: u8,
    pub op: Operator,
    pub payload: Vec<u8>,
}

pub struct FrameView {
    pub fblock: u8,
    pub func: u8,
    pub op: Operator,
    pub payload: Seq<u8>,
}

impl View for Frame {
    type V = FrameView;

    open spec fn view(&self) -> FrameView {
        FrameView { fblock: self.fblock, func: self.func, op: self.op, payload: self.payload@ }
    }
}

pub open spec fn frame_views(fs: Seq<Frame>) -> Seq<FrameView> {
    fs.map_values(|f: Frame| f@)
}

/// The bytes of a frame whose flags are the bare operator.
pub open spec fn frame_bytes(fblock: u8, func: u8, op: Operator, payload: Seq<u8>) -> Seq<u8> {
    seq![fblock, func, op_code(op), payload.len() as u8] + payload
}

/// Encodes a frame; a payload longer than 255 bytes does not fit its length byte.
pub fn build_frame(fblock: u8, func: u8, op: Operator, payload: &[u8]) -> (r: Result<
    Vec<u8>,
    BmapError,
>)
    ensures
        payload@.len() > 255 ==> r == Err::<Vec<u8>, BmapError>(
            BmapError::PayloadTooLong(payload@.len() as usize),
        ),
        payload@.len() <= 255 ==> (r matches Ok(b) && b@ == frame_bytes(fblock, func, op, payload@)),
{
    let n = payload.len();
    if n > 255 {
        return Err(BmapError::PayloadTooLong(n));
    }
    let mut out: Vec<u8> = Vec::new();
    out.push(fblock);
    out.push(func);
    out.push(op.to_u8());
    out.push(n as u8);
    for i in 0..n
        invariant
            n == payload@.len(),
            n <= 255,
            out@ == seq![fblock, func, op_code(op), n as u8] + payload@.take(i as int),
    {
        out.push(payload[i]);
        assert(payload@.take(i + 1) =~= payload@.take(i as int).push(payload@[i as int]));
        assert(out@ =~= seq![fblock, func, op_code(op), n as u8] + payload@.take(i + 1));
    }
    assert(payload@.take(n as int) =~= payload@);
    Ok(out)
}

/// Decoding one frame that fills `bytes`, or more: bytes past the payload are ignored.
pub open spec fn parse_frame_spec(bytes: Seq<u8>) -> Result<FrameView, BmapError> {
    if bytes.len() < 4 {
        Err(BmapError::FrameTooShort)
    } else if bytes.len() < 4 + bytes[3] {
        Err(BmapError::PayloadTruncated)
    } else {
        match op_from_flags(bytes[2]) {
            None => Err(BmapError::UnknownOperator(bytes[2])),
            Some(op) => Ok(
                FrameView {
                    fblock: bytes[0],
                    func: bytes[1],
                    op,
                    payload: bytes.subrange(4, 4 + bytes[3]),
                },
            ),
        }
    }
}

fn copy_range(bytes: &[u8], start: usize, end: usize) -> (r: Vec<u8>)
    requires
        start <= end <= bytes@.len(),
    ensures
        r@ == bytes@.subrange(start as int, end as int),
{
    let mut out: Vec<u8> = Vec::new();
    let mut i = start;
    while i < end
        invariant
            start <= i <= end,
            end <= bytes@.len(),
            out@ == bytes@.subrange(start as int, i as int),
        decreases end - i,
    {
        out.push(bytes[i]);
        assert(out@ =~= bytes@.subrange(start as int, i + 1));
        i = i + 1;
    }
    out
}

/// Parses the frame that starts at `start`, within `bytes[start..end]`.
fn parse_frame_within(bytes: &[u8], start: usize, end: usize) -> (r: Result<Frame, BmapError>)
    requires
        start <= end <= bytes@.len(),
    ensures
        r matches Ok(f) ==> parse_frame_spec(bytes@.subrange(start as int, end as int)) == Ok::<
            FrameView,
            BmapError,
        >(f@),
        r matches Err(e) ==> parse_frame_spec(bytes@.subrange(start as int, end as int)) == Err::<
            FrameView,
            BmapError,
        >(e),
{
    let ghost s = bytes@.subrange(start as int, end as int);
    if end - start < 4 {
        return Err(BmapError::FrameTooShort);
    }
    assert(s[3] == bytes@[start + 3]);
    let len = bytes[start + 3] as usize;
    if end - start < 4 + len {
        return Err(BmapError::PayloadTruncated);
    }
    assert(s[2] == bytes@[start + 2]);
    let op = Operator::try_from(bytes[start + 2])?;
    let payload = copy_range(bytes, start + 4, start + 4 + len);
    assert(payload@ =~= s.subrange(4, 4 + s[3]));
    assert(s[0] == bytes@[start as int] && s[1] == bytes@[start + 1]);
    Ok(Frame { fblock: bytes[start], func: bytes[start + 1], op, payload })
}

/// Decodes the frame at the start of `bytes`.
pub fn parse_frame(bytes: &[u8]) -> (r: Result<Frame, BmapError>)
    ensures
        r matches Ok(f) ==> parse_frame_spec(bytes@) == Ok::<FrameView, BmapError>(f@),
        r matches Err(e) ==> parse_frame_spec(bytes@) == Err::<FrameView, BmapError>(e),
{
    assert(bytes@.subrange(0, bytes@.len() as int) =~= bytes@);
    parse_frame_within(bytes, 0, bytes.len())
}

/// Decoding a run of concatenated frames; a partial frame at the end is an error.
pub open spec fn parse_frames_spec(bytes: Seq<u8>) -> Result<Seq<FrameView>, BmapError>
    decreases bytes.len(),
{
    if bytes.len() == 0 {
        Ok(Seq::empty())
    } else if bytes.len() < 4 {
        Err(BmapError::TrailingPartialFrame)
    } else if 4 + bytes[3] > bytes.len() {
        Err(BmapError::PayloadTruncated)
    } else {
        let end = 4 + bytes[3];
        match parse_frame_spec(bytes.subrange(0, end)) {
            Err(e) => Err(e),
            Ok(f) => match parse_frames_spec(bytes.subrange(end, bytes.len() as int)) {
                Err(e) => Err(e),
                Ok(fs) => Ok(seq![f] + fs),
            },
        }
    }
}

pub open spec fn prepend_frames(
    fs: Seq<FrameView>,
    rest: Result<Seq<FrameView>, BmapError>,
) -> Result<Seq<FrameView>, BmapError> {
    match rest {
        Ok(r) => Ok(fs + r),
        Err(e) => Err(e),
    }
}

pub proof fn lemma_frame_views(fs: Seq<Frame>)
    ensures
        frame_views(fs).len() == fs.len(),
        forall|i: int| 0 <= i < fs.len() ==> #[trigger] frame_views(fs)[i] == fs[i]@,
{
}

/// Decodes every frame of a response.
pub fn parse_frames(bytes: &[u8]) -> (r: Result<Vec<Frame>, BmapError>)
    ensures
        r matches Ok(fs) ==> parse_frames_spec(bytes@) == Ok::<Seq<FrameView>, BmapError>(
            frame_views(fs@),
        ),
        r matches Err(e) ==> parse_frames_spec(bytes@) == Err::<Seq<FrameView>, BmapError>(e),
{
    let mut frames: Vec<Frame> = Vec::new();
    let mut index: usize = 0;
    let n = bytes.len();
    proof {
        assert(bytes@.skip(0) =~= bytes@);
        assert(frame_views(frames@) =~= Seq::<FrameView>::empty());
        assert(prepend_frames(Seq::empty(), parse_frames_spec(bytes@)) == parse_frames_spec(
            bytes@,
        )) by {
            match parse_frames_spec(bytes@) {
                Ok(r) => assert(Seq::<FrameView>::empty() + r =~= r),
                Err(_) => {},
            }
        }
    }
    while index < n
        invariant
            n == bytes@.len(),
            index <= n,
            parse_frames_spec(bytes@) == prepend_frames(
                frame_views(frames@),
                parse_frames_spec(bytes@.skip(index as int)),
            ),
        decreases n - index,
    {
        let ghost rest = bytes@.skip(index as int);
        if n - index < 4 {
            return Err(BmapError::TrailingPartialFrame);
        }
        assert(rest[3] == bytes@[index + 3]);
        let len = bytes[index + 3] as usize;
        if len > n - index - 4 {
            return Err(BmapError::PayloadTruncated);
        }
        let end = index + 4 + len;
        let f = parse_frame_within(bytes, index, end);
        assert(rest.subrange(0, 4 + rest[3]) =~= bytes@.subrange(index as int, end as int));
        assert(rest.subrange(4 + rest[3], rest.len() as int) =~= bytes@.skip(end as int));
        match f {
            Err(e) => {
                return Err(e);
            },
            Ok(f) => {
                let ghost before = frames@;
                let ghost fv = f@;
                frames.push(f);
                proof {
                    lemma_frame_views(before);
                    lemma_frame_views(frames@);
                    assert(frame_views(frames@) =~= frame_views(before) + seq![fv]);
                    match parse_frames_spec(bytes@.skip(end as int)) {
                        Ok(r) => {
                            assert(frame_views(before) + (seq![fv] + r) =~= frame_views(frames@)
                                + r);
                        },
                        Err(_) => {},
                    }
                }
            },
        }
        index = end;
    }
    proof {
        assert(bytes@.skip(n as int) =~= Seq::<u8>::empty());
        assert(frame_views(frames@) + Seq::<FrameView>::empty() =~= frame_views(frames@));
    }
    Ok(frames)
}

/// The frame answering a request to `[fblock.func]`: frames for other
/// addresses are skipped, an `Error` frame fails with its code, the first
/// frame with an expected operator is taken, and otherwise the last operator
/// seen on the address (or its absence) is reported.
pub open spec fn select_response_spec(
    fs: Seq<FrameView>,
    fblock: u8,
    func: u8,
    expected: Seq<Operator>,
    seen: Option<Operator>,
) -> Result<FrameView, BmapError>
    decreases fs.len(),
{
    if fs.len() == 0 {
        match seen {
            Some(op) => Err(BmapError::UnexpectedOperator { op, fblock, func }),
            None => Err(BmapError::MissingResponse { fblock, func }),
        }
    } else {
        let f = fs[0];
        if f.fblock != fblock || f.func != func {
            select_response_spec(fs.drop_first(), fblock, func, expected, seen)
        } else if f.op == Operator::Error {
            Err(BmapError::DeviceError { code: error_code(f), fblock: f.fblock, func: f.func })
        } else if expected.contains(f.op) {
            Ok(f)
        } else {
            select_response_spec(fs.drop_first(), fblock, func, expected, Some(f.op))
        }
    }
}

/// The error code of an `Error` frame: its first payload byte, or 0.
pub open spec fn error_code(f: FrameView) -> u8 {
    if f.payload.len() > 0 {
        f.payload[0]
    } else {
        0
    }
}

/// Fails on an `Error` frame with the code it carries.
pub fn ensure_not_error(frame: &Frame) -> (r: Result<(), BmapError>)
    ensures
        frame.op != Operator::Error ==> r is Ok,
        frame.op == Operator::Error ==> r == Err::<(), BmapError>(
            BmapError::DeviceError { code: error_code(frame@), fblock: frame.fblock, func: frame.func },
        ),
{
    if frame.op != Operator::Error {
        return Ok(());
    }
    let code = if frame.payload.len() > 0 {
        frame.payload[0]
    } else {
        0
    };
    Err(BmapError::DeviceError { code, fblock: frame.fblock, func: frame.func })
}

fn contains_op(ops: &[Operator], op: Operator) -> (r: bool)
    ensures
        r == ops@.contains(op),
{
    let n = ops.len();
    for i in 0..n
        invariant
            n == ops@.len(),
            forall|k: int| 0 <= k < i ==> ops@[k] != op,
    {
        if ops[i] == op {
            assert(ops@[i as int] == op);
            return true;
        }
    }
    false
}

/// Picks the response frame for a request to `[fblock.func]` out of decoded frames.
pub fn select_response(frames: Vec<Frame>, fblock: u8, func: u8, expected: &[Operator]) -> (r:
    Result<Frame, BmapError>)
    ensures
        r matches Ok(f) ==> select_response_spec(frame_views(frames@), fblock, func, expected@, None)
            == Ok::<FrameView, BmapError>(f@),
        r matches Err(e) ==> select_response_spec(
            frame_views(frames@),
            fblock,
            func,
            expected@,
            None,
        ) == Err::<FrameView, BmapError>(e),
{
    let ghost all = frame_views(frames@);
    let mut rest = frames;
    let mut seen: Option<Operator> = None;
    let mut i: usize = 0;
    let _total = rest.len();
    proof {
        lemma_frame_views(rest@);
        assert(all.skip(0) =~= all);
    }
    while rest.len() > 0
        invariant
            all == frame_views(frames@),
            frame_views(rest@) == all.skip(i as int),
            i + rest@.len() == all.len(),
            all.len() <= usize::MAX,
            select_response_spec(all, fblock, func, expected@, None) == select_response_spec(
                all.skip(i as int),
                fblock,
                func,
                expected@,
                seen,
            ),
        decreases rest@.len(),
    {
        let ghost pre = rest@;
        let ghost cur = all.skip(i as int);
        let frame = rest.remove(0);
        proof {
            lemma_frame_views(pre);
            lemma_frame_views(rest@);
            assert(frame@ == all.skip(i as int)[0]);
            assert(rest@ =~= pre.subrange(1, pre.len() as int));
            assert forall|k: int| 0 <= k < rest@.len() implies #[trigger] frame_views(rest@)[k]
                == all.skip(i + 1)[k] by {
                assert(frame_views(rest@)[k] == rest@[k]@);
                assert(rest@[k] == pre[k + 1]);
                assert(frame_views(pre)[k + 1] == pre[k + 1]@);
                assert(all.skip(i as int)[k + 1] == all.skip(i + 1)[k]);
            }
            assert(frame_views(rest@) =~= all.skip(i + 1));
            assert(all.skip(i as int).drop_first() =~= all.skip(i + 1));
        }
        i = i + 1;
        assert(cur[0] == frame@);
        if frame.fblock != fblock || frame.func != func {
            continue;
        }
        if frame.op == Operator::Error {
            return Err(ensure_not_error(&frame).unwrap_err());
        }
        if contains_op(expected, frame.op) {
            return Ok(frame);
        }
        seen = Some(frame.op);
    }
    match seen {
        Some(op) => Err(BmapError::UnexpectedOperator { op, fblock, func }),
        None => Err(BmapError::MissingResponse { fblock, func }),
    }
}

/// The operators that acknowledge a request.
pub open spec fn acknowledging_ops() -> Seq<Operator> {
    seq![Operator::Status, Operator::Result]
}

/// What a response to a request to `[fblock.func]` is taken to say.
pub open spec fn check_response_spec(
    response: Seq<u8>,
    fblock: u8,
    func: u8,
    expected: Seq<Operator>,
) -> Result<FrameView, BmapError> {
    match parse_frames_spec(response) {
        Err(e) => Err(e),
        Ok(fs) => select_response_spec(fs, fblock, func, expected, None),
    }
}

/// Validates a response: it must decode completely and hold a non-error
/// frame for `[fblock.func]` with one of the expected operators.
pub fn check_response(response: &[u8], fblock: u8, func: u8, expected: &[Operator]) -> (r:
    Result<Frame, BmapError>)
    ensures
        r matches Ok(f) ==> check_response_spec(response@, fblock, func, expected@) == Ok::<
            FrameView,
            BmapError,
        >(f@),
        r matches Err(e) ==> check_response_spec(response@, fblock, func, expected@) == Err::<
            FrameView,
            BmapError,
        >(e),
{
    let frames = parse_frames(response)?;
    select_response(frames, fblock, func, expected)
}

/// The first frame of a raw response, which is reported as it is.
pub fn first_frame(response: &[u8]) -> (r: Result<Frame, BmapError>)
    ensures
        r matches Ok(f) ==> (parse_frames_spec(response@) matches Ok(fs) && fs.len() > 0 && fs[0]
            == f@),
        r matches Err(e) ==> match parse_frames_spec(response@) {
            Err(e2) => e == e2,
            Ok(fs) => fs.len() == 0 && e == BmapError::EmptyResponse,
        },
        parse_frames_spec(response@) matches Ok(fs) && fs.len() > 0 ==> r is Ok,
{
    let mut frames = parse_frames(response)?;
    if frames.len() == 0 {
        return Err(BmapError::EmptyResponse);
    }
    proof {
        lemma_frame_views(frames@);
    }
    Ok(frames.remove(0))
}

/// What a write or read in a sync sequence is doing, for error reports.
#[derive(Debug, Clone, Copy, PartialEq, Eq, Structural)]
pub enum RequestPurpose {
    SwitchMode,
    AudioSettings,
    EqBand(u8),
    Battery,
}

pub open spec fn purpose_text(p: RequestPurpose) -> Option<Seq<char>> {
    match p {
        RequestPurpose::SwitchMode => Some("switch audio mode"@),
        RequestPurpose::AudioSettings => Some("set noise/immersive audio settings"@),
        RequestPurpose::EqBand(b) => Some("set EQ band "@ + decimal(b as nat)),
        RequestPurpose::Battery => None,
    }
}

impl RequestPurpose {
    /// The context that a failure of this request is reported with, if any.
    pub fn context(self) -> (r: Option<String>)
        ensures
            opt_string_view(r) == purpose_text(self),
    {
        match self {
            RequestPurpose::SwitchMode => Some(String::from_str("switch audio mode")),
            RequestPurpose::AudioSettings => Some(
                String::from_str("set noise/immersive audio settings"),
            ),
            RequestPurpose::EqBand(b) => {
                let mut s = String::from_str("set EQ band ");
                push_decimal(&mut s, b as u64);
                Some(s)
            },
            RequestPurpose::Battery => None,
        }
    }
}

pub open spec fn opt_string_view(o: Option<String>) -> Option<Seq<char>> {
    match o {
        Some(s) => Some(s@),
        None => None,
    }
}

/// One request to send to a headset over RFCOMM, with the operators that
/// acknowledge it and the pause to keep after it.
#[derive(Debug)]
pub struct BmapRequest {
    pub address: String,
    pub channel: u8,
    pub fblock: u8,
    pub func: u8,
    pub op: Operator,
    pub payload: Vec<u8>,
    pub expected: Vec<Operator>,
    pub pause_ms: u64,
    pub purpose: RequestPurpose,
}

pub struct RequestView {
    pub address: Seq<char>,
    pub channel: u8,
    pub fblock: u8,
    pub func: u8,
    pub op: Operator,
    pub payload: Seq<u8>,
    pub expected: Seq<Operator>,
    pub pause_ms: u64,
    pub purpose: RequestPurpose,
}

impl View for BmapRequest {
    type V = RequestView;

    open spec fn view(&self) -> RequestView {
        RequestView {
            address: self.address@,
            channel: self.channel,
            fblock: self.fblock,
            func: self.func,
            op: self.op,
            payload: self.payload@,
            expected: self.expected@,
            pause_ms: self.pause_ms,
            purpose: self.purpose,
        }
    }
}

pub open spec fn request_views(rs: Seq<BmapRequest>) -> Seq<RequestView> {
    rs.map_values(|r: BmapRequest| r@)
}

impl BmapRequest {
    /// The frame that carries this request.
    pub fn frame(&self) -> (r: Result<Vec<u8>, BmapError>)
        ensures
            self.payload@.len() <= 255 ==> (r matches Ok(b) && b@ == frame_bytes(
                self.fblock,
                self.func,
                self.op,
                self.payload@,
            )),
            self.payload@.len() > 255 ==> r is Err,
    {
        build_frame(self.fblock, self.func, self.op, self.payload.as_slice())
    }

    /// Validates the headset's response to this request.
    pub fn check(&self, response: &[u8]) -> (r: Result<Frame, BmapError>)
        ensures
            r matches Ok(f) ==> check_response_spec(
                response@,
                self.fblock,
                self.func,
                self.expected@,
            ) == Ok::<FrameView, BmapError>(f@),
            r matches Err(e) ==> check_response_spec(
                response@,
                self.fblock,
                self.func,
                self.expected@,
            ) == Err::<FrameView, BmapError>(e),
    {
        check_response(response, self.fblock, self.func, self.expected.as_slice())
    }

    /// Sends this request through `transact` and checks the response.
    pub fn send<T: Fn(&str, &[u8]) -> Result<Vec<u8>, String>>(&self, transact: T) -> (r: Result<
        Frame,
        SendError,
    >)
        requires
            forall|a: &str, b: &[u8]| #[trigger] call_requires(transact, (a, b)),
        ensures
            self.payload@.len() > 255 ==> (r matches Err(SendError::Frame(e)) && e
                == BmapError::PayloadTooLong(self.payload@.len() as usize)),
            self.payload@.len() <= 255 ==> exists|
                address: &str,
                frame: &[u8],
                response: Result<Vec<u8>, String>,
            |
                address@ == self.address@ && frame@ == frame_bytes(
                    self.fblock,
                    self.func,
                    self.op,
                    self.payload@,
                ) && call_ensures(transact, (address, frame), response) && send_outcome(
                    response,
                    self.fblock,
                    self.func,
                    self.expected@,
                    r,
                ),
    {
        send_expect(
            self.address.as_str(),
            self.fblock,
            self.func,
            self.op,
            self.payload.as_slice(),
            self.expected.as_slice(),
            transact,
        )
    }
}

/// Why a request could not be completed.
#[derive(Debug)]
pub enum SendError {
    NoSelectedDevice,
    Frame(BmapError),
    Transport(String),
}

pub open spec fn send_error_text(e: SendError) -> Seq<char> {
    match e {
        SendError::NoSelectedDevice => "no selected device"@,
        SendError::Frame(b) => bmap_error_text(b),
        SendError::Transport(m) => m@,
    }
}

impl SendError {
    pub fn message(&self) -> (r: String)
        ensures
            r@ == send_error_text(*self),
    {
        match self {
            SendError::NoSelectedDevice => String::from_str("no selected device"),
            SendError::Frame(b) => b.message(),
            SendError::Transport(m) => m.clone(),
        }
    }
}

/// What happened last while a plan of requests is being sent.
#[derive(Debug)]
pub enum PlanEvent {
    /// Nothing has been sent yet.
    Started,
    /// The request at this index was sent, with this outcome.
    Sent(usize, Result<Frame, SendError>),
    /// The pause after the request at this index is over.
    Paused(usize),
}

/// What the sender of a plan of requests does next.
#[derive(Debug)]
pub enum PlanAction {
    /// Send the request at this index.
    Send(usize),
    /// Keep this many milliseconds of quiet after the request at this index.
    Pause(usize, u64),
    /// Every request was acknowledged.
    Finish,
    /// The request at this index failed with this error; nothing after it is
    /// sent.
    Fail(usize, SendError),
}

/// Requests go out in order; each acknowledged one is followed by its pause,
/// and the first failure ends the plan with that request's error.
pub open spec fn plan_step_spec(plan: Seq<BmapRequest>, event: PlanEvent) -> PlanAction {
    match event {
        PlanEvent::Started => if plan.len() == 0 {
            PlanAction::Finish
        } else {
            PlanAction::Send(0)
        },
        PlanEvent::Sent(i, outcome) => match outcome {
            Ok(_) => PlanAction::Pause(i, plan[i as int].pause_ms),
            Err(e) => PlanAction::Fail(i, e),
        },
        PlanEvent::Paused(i) => if i + 1 < plan.len() {
            PlanAction::Send((i + 1) as usize)
        } else {
            PlanAction::Finish
        },
    }
}

/// An event that names a request names one of the plan's.
pub open spec fn plan_event_ok(plan: Seq<BmapRequest>, event: PlanEvent) -> bool {
    match event {
        PlanEvent::Started => true,
        PlanEvent::Sent(i, _) => i < plan.len(),
        PlanEvent::Paused(i) => i < plan.len(),
    }
}

/// The next action of a plan's sender, given what happened last.
pub fn plan_step(plan: &[BmapRequest], event: PlanEvent) -> (r: PlanAction)
    requires
        plan_event_ok(plan@, event),
    ensures
        r == plan_step_spec(plan@, event),
{
    match event {
        PlanEvent::Started => if plan.len() == 0 {
            PlanAction::Finish
        } else {
            PlanAction::Send(0)
        },
        PlanEvent::Sent(i, outcome) => match outcome {
            Ok(_) => PlanAction::Pause(i, plan[i].pause_ms),
            Err(e) => PlanAction::Fail(i, e),
        },
        PlanEvent::Paused(i) => if i < plan.len() - 1 {
            PlanAction::Send(i + 1)
        } else {
            PlanAction::Finish
        },
    }
}

/// Steps left at most before a run of `n` requests ends, counted from `event`.
pub open spec fn plan_run_measure(n: nat, event: PlanEvent) -> nat {
    match event {
        PlanEvent::Started => 2 * n + 1,
        PlanEvent::Sent(i, _) => if i < n {
            (2 * (n - i)) as nat
        } else {
            2
        },
        PlanEvent::Paused(i) => if i < n {
            (2 * (n - i) - 1) as nat
        } else {
            1
        },
    }
}

/// The actions of a sender that performs each action of `plan_step` and feeds
/// back what came of it, where sending request `i` gives `outcomes[i]`.
pub open spec fn plan_run(
    plan: Seq<BmapRequest>,
    outcomes: Seq<Result<Frame, SendError>>,
    event: PlanEvent,
) -> Seq<PlanAction>
    decreases plan_run_measure(plan.len(), event),
        when plan.len() <= usize::MAX
{
    let a = plan_step_spec(plan, event);
    match a {
        PlanAction::Send(i) => seq![a] + plan_run(
            plan,
            outcomes,
            PlanEvent::Sent(i, outcomes[i as int]),
        ),
        PlanAction::Pause(i, _) => seq![a] + plan_run(plan, outcomes, PlanEvent::Paused(i)),
        _ => seq![a],
    }
}

/// A run told request by request from request `i` on: it is sent; a failure
/// ends the run with its error, else its pause follows and then the rest.
pub open spec fn plan_run_from(
    plan: Seq<BmapRequest>,
    outcomes: Seq<Result<Frame, SendError>>,
    i: nat,
) -> Seq<PlanAction>
    decreases plan.len() - i,
{
    if i >= plan.len() {
        seq![PlanAction::Finish]
    } else {
        seq![PlanAction::Send(i as usize)] + match outcomes[i as int] {
            Err(e) => seq![PlanAction::Fail(i as usize, e)],
            Ok(_) => seq![PlanAction::Pause(i as usize, plan[i as int].pause_ms)]
                + plan_run_from(plan, outcomes, i + 1),
        }
    }
}

proof fn lemma_plan_run_sent(plan: Seq<BmapRequest>, outcomes: Seq<Result<Frame, SendError>>, i: nat)
    requires
        plan.len() <= usize::MAX,
        i < plan.len(),
    ensures
        seq![PlanAction::Send(i as usize)] + plan_run(
            plan,
            outcomes,
            PlanEvent::Sent(i as usize, outcomes[i as int]),
        ) == plan_run_from(plan, outcomes, i),
    decreases plan.len() - i,
{
    let ev = PlanEvent::Sent(i as usize, outcomes[i as int]);
    match outcomes[i as int] {
        Err(e) => {
            assert(plan_run(plan, outcomes, ev) =~= seq![PlanAction::Fail(i as usize, e)]);
        },
        Ok(_) => {
            let p = PlanEvent::Paused(i as usize);
            let pa = PlanAction::Pause(i as usize, plan[i as int].pause_ms);
            assert(plan_run(plan, outcomes, ev) =~= seq![pa] + plan_run(plan, outcomes, p));
            if i + 1 < plan.len() {
                lemma_plan_run_sent(plan, outcomes, i + 1);
                assert(plan_run(plan, outcomes, p) =~= seq![PlanAction::Send((i + 1) as usize)]
                    + plan_run(
                    plan,
                    outcomes,
                    PlanEvent::Sent((i + 1) as usize, outcomes[(i + 1) as int]),
                ));
            } else {
                assert(plan_run(plan, outcomes, p) =~= seq![PlanAction::Finish]);
            }
            assert(plan_run_from(plan, outcomes, i) =~= seq![PlanAction::Send(i as usize)] + (
            seq![pa] + plan_run_from(plan, outcomes, i + 1)));
        },
    }
}

/// Every request from `i` up to `j` (not included) was acknowledged.
pub open spec fn acknowledged_between(
    outcomes: Seq<Result<Frame, SendError>>,
    i: int,
    j: int,
) -> bool {
    forall|k: int| i <= k < j ==> (#[trigger] outcomes[k]) is Ok
}

/// How a run from request `i` on ends: with the error of its first failed
/// request, or finished when none failed.
pub open spec fn plan_run_end(
    plan: Seq<BmapRequest>,
    outcomes: Seq<Result<Frame, SendError>>,
    action: PlanAction,
    i: int,
) -> bool {
    &&& acknowledged_between(outcomes, i, plan.len() as int) ==> action == PlanAction::Finish
    &&& forall|k: int|
        i <= k < plan.len() && acknowledged_between(outcomes, i, k) && (
        #[trigger] outcomes[k]) is Err ==> action == PlanAction::Fail(
            k as usize,
            outcomes[k]->Err_0,
        )
}

/// What a run from request `i` on sends and how long it pauses.
pub open spec fn plan_run_sends(
    plan: Seq<BmapRequest>,
    outcomes: Seq<Result<Frame, SendError>>,
    run: Seq<PlanAction>,
    i: int,
) -> bool {
    &&& forall|m: int|
        0 <= m < run.len() && (#[trigger] run[m]) is Send ==> i <= run[m]->Send_0 < plan.len()
            && acknowledged_between(outcomes, i, run[m]->Send_0 as int)
    &&& forall|j: int|
        i <= j < plan.len() && acknowledged_between(outcomes, i, j) ==> run.contains(
            PlanAction::Send(j as usize),
        )
    &&& forall|m: int|
        0 <= m < run.len() && (#[trigger] run[m]) is Pause ==> i <= run[m]->Pause_0 < plan.len()
            && run[m]->Pause_1 == plan[run[m]->Pause_0 as int].pause_ms && outcomes[run[m]->Pause_0 as int] is Ok
}

proof fn lemma_plan_run_from_props(
    plan: Seq<BmapRequest>,
    outcomes: Seq<Result<Frame, SendError>>,
    i: nat,
)
    requires
        plan.len() <= usize::MAX,
        i <= plan.len(),
    ensures
        plan_run_from(plan, outcomes, i).len() > 0,
        plan_run_sends(plan, outcomes, plan_run_from(plan, outcomes, i), i as int),
        plan_run_end(plan, outcomes, plan_run_from(plan, outcomes, i).last(), i as int),
    decreases plan.len() - i,
{
    let run = plan_run_from(plan, outcomes, i);
    if i >= plan.len() {
        assert(run =~= seq![PlanAction::Finish]);
    } else {
        let s = PlanAction::Send(i as usize);
        match outcomes[i as int] {
            Err(e) => {
                assert(run =~= seq![s, PlanAction::Fail(i as usize, e)]);
                assert(!acknowledged_between(outcomes, i as int, plan.len() as int)) by {
                    assert(!(outcomes[i as int] is Ok));
                }
                assert forall|j: int|
                    i <= j < plan.len() && acknowledged_between(
                        outcomes,
                        i as int,
                        j,
                    ) implies run.contains(PlanAction::Send(j as usize)) by {
                    if j > i {
                        assert(outcomes[i as int] is Ok);
                    }
                    assert(run[0] == s);
                }
                assert forall|k: int|
                    i <= k < plan.len() && acknowledged_between(outcomes, i as int, k) && (
                    #[trigger] outcomes[k]) is Err implies run.last() == PlanAction::Fail(
                    k as usize,
                    outcomes[k]->Err_0,
                ) by {
                    if k > i {
                        assert(outcomes[i as int] is Ok);
                    }
                }
            },
            Ok(_) => {
                let p = PlanAction::Pause(i as usize, plan[i as int].pause_ms);
                let rest = plan_run_from(plan, outcomes, i + 1);
                lemma_plan_run_from_props(plan, outcomes, i + 1);
                assert(run =~= seq![s, p] + rest);
                assert forall|m: int|
                    0 <= m < run.len() && (#[trigger] run[m]) is Send implies i <= run[m]->Send_0
                    < plan.len() && acknowledged_between(outcomes, i as int, run[m]->Send_0 as int) by {
                    if m >= 2 {
                        assert(run[m] == rest[m - 2]);
                        let j = run[m]->Send_0;
                        assert forall|k: int| i <= k < j implies (#[trigger] outcomes[k]) is Ok by {
                            if k > i {
                                assert(acknowledged_between(outcomes, (i + 1) as int, j as int));
                            }
                        }
                    }
                }
                assert forall|j: int|
                    i <= j < plan.len() && acknowledged_between(
                        outcomes,
                        i as int,
                        j,
                    ) implies run.contains(PlanAction::Send(j as usize)) by {
                    if j == i {
                        assert(run[0] == s);
                    } else {
                        assert(acknowledged_between(outcomes, (i + 1) as int, j)) by {
                            assert forall|k: int| i + 1 <= k < j implies (
                            #[trigger] outcomes[k]) is Ok by {
                                assert(acknowledged_between(outcomes, i as int, j));
                            }
                        }
                        assert(rest.contains(PlanAction::Send(j as usize)));
                        let m = choose|m: int|
                            0 <= m < rest.len() && rest[m] == PlanAction::Send(j as usize);
                        assert(run[m + 2] == rest[m]);
                    }
                }
                assert forall|m: int|
                    0 <= m < run.len() && (#[trigger] run[m]) is Pause implies i <= run[m]->Pause_0
                    < plan.len() && run[m]->Pause_1 == plan[run[m]->Pause_0 as int].pause_ms
                    && outcomes[run[m]->Pause_0 as int] is Ok by {
                    if m >= 2 {
                        assert(run[m] == rest[m - 2]);
                    }
                }
                assert(run.last() == rest.last());
                assert(acknowledged_between(outcomes, i as int, plan.len() as int)
                    ==> acknowledged_between(outcomes, (i + 1) as int, plan.len() as int));
                assert forall|k: int|
                    i <= k < plan.len() && acknowledged_between(outcomes, i as int, k) && (
                    #[trigger] outcomes[k]) is Err implies run.last() == PlanAction::Fail(
                    k as usize,
                    outcomes[k]->Err_0,
                ) by {
                    assert(k != i);
                    assert(acknowledged_between(outcomes, (i + 1) as int, k));
                }
            },
        }
    }
}

/// Sending a plan step by step sends request 0 first; after each acknowledged
/// request comes that request's pause and then the next request; the first
/// failed request ends the run with its error, and nothing after it is sent;
/// when every request was acknowledged the run finishes.
pub proof fn lemma_plan_run(plan: Seq<BmapRequest>, outcomes: Seq<Result<Frame, SendError>>)
    requires
        plan.len() <= usize::MAX,
    ensures
        plan_run(plan, outcomes, PlanEvent::Started) == plan_run_from(plan, outcomes, 0),
        plan_run_sends(plan, outcomes, plan_run(plan, outcomes, PlanEvent::Started), 0),
        plan_run(plan, outcomes, PlanEvent::Started).len() > 0,
        plan_run_end(plan, outcomes, plan_run(plan, outcomes, PlanEvent::Started).last(), 0),
{
    lemma_plan_run_from_props(plan, outcomes, 0);
    if plan.len() == 0 {
        assert(plan_run(plan, outcomes, PlanEvent::Started) =~= seq![PlanAction::Finish]);
    } else {
        lemma_plan_run_sent(plan, outcomes, 0);
        assert(plan_run(plan, outcomes, PlanEvent::Started) =~= seq![PlanAction::Send(0)]
            + plan_run(plan, outcomes, PlanEvent::Sent(0, outcomes[0])));
    }
}

/// What a request comes to once the transport answered: a transport failure
/// as it came, else the checked response.
pub open spec fn send_outcome(
    response: Result<Vec<u8>, String>,
    fblock: u8,
    func: u8,
    expected: Seq<Operator>,
    r: Result<Frame, SendError>,
) -> bool {
    match response {
        Err(m) => r matches Err(SendError::Transport(m2)) && m2 == m,
        Ok(bytes) => match check_response_spec(bytes@, fblock, func, expected) {
            Ok(f) => r matches Ok(g) && g@ == f,
            Err(e) => r matches Err(SendError::Frame(e2)) && e2 == e,
        },
    }
}

/// Sends a request through `transact` and returns the response frame for
/// `[fblock.func]` that carries one of `expected_ops`.
pub fn send_expect<T: Fn(&str, &[u8]) -> Result<Vec<u8>, String>>(
    address: &str,
    fblock: u8,
    func: u8,
    op: Operator,
    payload: &[u8],
    expected_ops: &[Operator],
    transact: T,
) -> (r: Result<Frame, SendError>)
    requires
        forall|a: &str, b: &[u8]| #[trigger] call_requires(transact, (a, b)),
    ensures
        payload@.len() > 255 ==> (r matches Err(SendError::Frame(e)) && e
            == BmapError::PayloadTooLong(payload@.len() as usize)),
        payload@.len() <= 255 ==> exists|frame: &[u8], response: Result<Vec<u8>, String>|
            frame@ == frame_bytes(fblock, func, op, payload@) && call_ensures(
                transact,
                (address, frame),
                response,
            ) && send_outcome(response, fblock, func, expected_ops@, r),
{
    let frame = match build_frame(fblock, func, op, payload) {
        Ok(f) => f,
        Err(e) => return Err(SendError::Frame(e)),
    };
    let response = transact(address, frame.as_slice());
    let ghost sent = response;
    let r = match response {
        Err(m) => Err(SendError::Transport(m)),
        Ok(bytes) => match check_response(bytes.as_slice(), fblock, func, expected_ops) {
            Ok(f) => Ok(f),
            Err(e) => Err(SendError::Frame(e)),
        },
    };
    assert(send_outcome(sent, fblock, func, expected_ops@, r));
    r
}

/// Sends a request that a `Status` or `Result` frame acknowledges.
pub fn send<T: Fn(&str, &[u8]) -> Result<Vec<u8>, String>>(
    address: &str,
    fblock: u8,
    func: u8,
    op: Operator,
    payload: &[u8],
    transact: T,
) -> (r: Result<Frame, SendError>)
    requires
        forall|a: &str, b: &[u8]| #[trigger] call_requires(transact, (a, b)),
    ensures
        payload@.len() > 255 ==> (r matches Err(SendError::Frame(e)) && e
            == BmapError::PayloadTooLong(payload@.len() as usize)),
        payload@.len() <= 255 ==> exists|frame: &[u8], response: Result<Vec<u8>, String>|
            frame@ == frame_bytes(fblock, func, op, payload@) && call_ensures(
                transact,
                (address, frame),
                response,
            ) && send_outcome(response, fblock, func, acknowledging_ops(), r),
{
    let expected = [Operator::Status, Operator::Result];
    assert(expected@ =~= acknowledging_ops());
    send_expect(address, fblock, func, op, payload, &expected, transact)
}

/// What the raw probe reports once the transport answered: a transport
/// failure as it came, else the response's first frame, whatever it is.
pub open spec fn raw_outcome(response: Result<Vec<u8>, String>, r: Result<Frame, SendError>) -> bool {
    match response {
        Err(m) => r matches Err(SendError::Transport(m2)) && m2 == m,
        Ok(bytes) => match parse_frames_spec(bytes@) {
            Err(e) => r matches Err(SendError::Frame(e2)) && e2 == e,
            Ok(fs) => if fs.len() == 0 {
                r matches Err(SendError::Frame(e2)) && e2 == BmapError::EmptyResponse
            } else {
                r matches Ok(g) && g@ == fs[0]
            },
        },
    }
}

/// Sends a frame to the selected device and returns the first frame of the
/// response, unchecked.
pub fn send_raw<T: Fn(&str, &[u8]) -> Result<Vec<u8>, String>>(
    config: &ConfigFile,
    fblock: u8,
    func: u8,
    op: Operator,
    payload: &[u8],
    transact: T,
) -> (r: Result<Frame, SendError>)
    requires
        forall|a: &str, b: &[u8]| #[trigger] call_requires(transact, (a, b)),
    ensures
        config.selected_device is None ==> (r matches Err(SendError::NoSelectedDevice)),
        config.selected_device is Some && payload@.len() > 255 ==> (r matches Err(
            SendError::Frame(e),
        ) && e == BmapError::PayloadTooLong(payload@.len() as usize)),
        config.selected_device is Some && payload@.len() <= 255 ==> exists|
            address: &str,
            frame: &[u8],
            response: Result<Vec<u8>, String>,
        |
            address@ == config.selected_device->Some_0.address@ && frame@ == frame_bytes(
                fblock,
                func,
                op,
                payload@,
            ) && call_ensures(transact, (address, frame), response) && raw_outcome(response, r),
{
    let device = match &config.selected_device {
        Some(d) => d,
        None => return Err(SendError::NoSelectedDevice),
    };
    let frame = match build_frame(fblock, func, op, payload) {
        Ok(f) => f,
        Err(e) => return Err(SendError::Frame(e)),
    };
    let response = transact(device.address.as_str(), frame.as_slice());
    let ghost sent = response;
    let r = match response {
        Err(m) => Err(SendError::Transport(m)),
        Ok(bytes) => match first_frame(bytes.as_slice()) {
            Ok(f) => Ok(f),
            Err(e) => Err(SendError::Frame(e)),
        },
    };
    assert(raw_outcome(sent, r));
    r
}

/// The frame that answers a request is one of the response's frames, for the
/// requested `[fblock.func]`, with an expected operator; an `Error` frame is
/// reported with the requested address.
pub proof fn lemma_selected_frame_is_for_the_request(
    fs: Seq<FrameView>,
    fblock: u8,
    func: u8,
    expected: Seq<Operator>,
    seen: Option<Operator>,
)
    ensures
        select_response_spec(fs, fblock, func, expected, seen) matches Ok(f) ==> f.fblock
            == fblock && f.func == func && expected.contains(f.op) && fs.contains(f),
        select_response_spec(fs, fblock, func, expected, seen) matches Err(
            BmapError::DeviceError { code, fblock: b, func: g },
        ) ==> b == fblock && g == func,
    decreases fs.len(),
{
    if fs.len() > 0 {
        let f = fs[0];
        let rest = fs.drop_first();
        let next = if f.fblock != fblock || f.func != func {
            seen
        } else {
            Some(f.op)
        };
        lemma_selected_frame_is_for_the_request(rest, fblock, func, expected, next);
        let sub = select_response_spec(rest, fblock, func, expected, next);
        if sub is Ok {
            let g = sub->Ok_0;
            if rest.contains(g) {
                let k = choose|k: int| 0 <= k < rest.len() && rest[k] == g;
                assert(fs[k + 1] == g);
            }
        }
        assert(fs[0] == f);
    }
}

/// A checked response is always a frame for the requested `[fblock.func]`
/// with one of the expected operators.
pub proof fn lemma_checked_response_is_for_the_request(
    response: Seq<u8>,
    fblock: u8,
    func: u8,
    expected: Seq<Operator>,
)
    ensures
        check_response_spec(response, fblock, func, expected) matches Ok(f) ==> f.fblock == fblock
            && f.func == func && expected.contains(f.op),
{
    if parse_frames_spec(response) is Ok {
        let fs = parse_frames_spec(response)->Ok_0;
        lemma_selected_frame_is_for_the_request(fs, fblock, func, expected, None);
    }
}

/// A frame for another address, in front of a response, changes nothing of
/// what the response check finds.
pub proof fn lemma_other_address_frames_ignored(
    f: FrameView,
    fs: Seq<FrameView>,
    fblock: u8,
    func: u8,
    expected: Seq<Operator>,
    seen: Option<Operator>,
)
    requires
        f.fblock != fblock || f.func != func,
    ensures
        select_response_spec(seq![f] + fs, fblock, func, expected, seen) == select_response_spec(
            fs,
            fblock,
            func,
            expected,
            seen,
        ),
{
    assert((seq![f] + fs).drop_first() =~= fs);
}

/// Decoding an encoded frame gives back its fields.
pub proof fn lemma_parse_build(fblock: u8, func: u8, op: Operator, payload: Seq<u8>)
    requires
        payload.len() <= 255,
    ensures
        parse_frame_spec(frame_bytes(fblock, func, op, payload)) == Ok::<FrameView, BmapError>(
            FrameView { fblock, func, op, payload },
        ),
{
    let b = frame_bytes(fblock, func, op, payload);
    assert(b[3] == payload.len());
    assert(b.subrange(4, 4 + b[3]) =~= payload);
}

/// The bytes of several frames sent back to back.
pub open spec fn encode_frames(fs: Seq<FrameView>) -> Seq<u8>
    decreases fs.len(),
{
    if fs.len() == 0 {
        Seq::empty()
    } else {
        frame_bytes(fs[0].fblock, fs[0].func, fs[0].op, fs[0].payload) + encode_frames(
            fs.drop_first(),
        )
    }
}

/// Concatenated frames decode back into the same frames, in order.
pub proof fn lemma_parse_frames_concat(fs: Seq<FrameView>)
    requires
        forall|i: int| 0 <= i < fs.len() ==> #[trigger] fs[i].payload.len() <= 255,
    ensures
        parse_frames_spec(encode_frames(fs)) == Ok::<Seq<FrameView>, BmapError>(fs),
    decreases fs.len(),
{
    if fs.len() > 0 {
        let f = fs[0];
        let rest = fs.drop_first();
        assert forall|i: int| 0 <= i < rest.len() implies #[trigger] rest[i].payload.len()
            <= 255 by {
            assert(rest[i] == fs[i + 1]);
        }
        lemma_parse_frames_concat(rest);
        let head = frame_bytes(f.fblock, f.func, f.op, f.payload);
        let bytes = encode_frames(fs);
        assert(bytes == head + encode_frames(rest));
        assert(bytes[3] == f.payload.len());
        let end = 4 + bytes[3];
        assert(bytes.subrange(0, end) =~= head);
        assert(bytes.subrange(end, bytes.len() as int) =~= encode_frames(rest));
        lemma_parse_build(f.fblock, f.func, f.op, f.payload);
        assert(FrameView { fblock: f.fblock, func: f.func, op: f.op, payload: f.payload } == f);
        assert(bytes.len() >= 4 && 4 + bytes[3] <= bytes.len());
        assert(parse_frame_spec(bytes.subrange(0, end)) == Ok::<FrameView, BmapError>(f));
        assert(seq![f] + rest =~= fs);
        assert(parse_frames_spec(bytes) == Ok::<Seq<FrameView>, BmapError>(seq![f] + rest));
    } else {
        assert(encode_frames(fs) =~= Seq::<u8>::empty());
        assert(fs =~= Seq::<FrameView>::empty());
    }
}

/// The flags byte carries routing bits above the operator: `(device_id << 6)
/// | (port_num << 4) | operator`. Parsing reads the operator whatever the
/// routing bits are.
pub proof fn lemma_routing_bits_ignored(device_id: u8, port_num: u8, op: Operator)
    requires
        device_id < 4,
        port_num < 4,
    ensures
        op_from_flags((device_id * 64 + port_num * 16 + op_code(op)) as u8) == Some(op),
{
    let f = device_id * 64 + port_num * 16 + op_code(op);
    assert(f % 16 == op_code(op)) by (nonlinear_arith)
        requires
            f == device_id * 64 + port_num * 16 + op_code(op),
            op_code(op) < 8,
    ;
}

/// Every operator's code reads back as that operator.
pub proof fn lemma_operator_code_roundtrip(op: Operator)
    ensures
        op_from_flags(op_code(op)) == Some(op),
{
}

} // verus!
