//! Bose QuietComfort Ultra Headphones (2nd Gen): the hardware-verified BMAP
//! addresses, payload encoders, sync sequence and battery readback.
use vstd::prelude::*;
use crate::bmap::{
    BmapRequest, Frame, FrameView, Operator, RequestPurpose, RequestView, frame_bytes, request_views,
};
use crate::config::{ConfigFile, ConfigView};
use crate::domain::{ImmersiveAudio, noise_valid};
use crate::text::{ascii_lower, eq_ignore_case, str_eq_ignore_ascii_case};
use super::{ModelError, ModelErrorView};

verus! {

pub const RFCOMM_CHANNEL: u8 = 2;

/// The headphones' index of a built-in mode, matched ignoring ASCII case.
pub open spec fn mode_index_spec(name: Seq<char>) -> Option<u8> {
    if eq_ignore_case(name, "quiet"@) {
        Some(0)
    } else if eq_ignore_case(name, "aware"@) {
        Some(1)
    } else if eq_ignore_case(name, "immersion"@) {
        Some(2)
    } else if eq_ignore_case(name, "cinema"@) {
        Some(3)
    } else {
        None
    }
}

pub fn mode_index(name: &str) -> (r: Option<u8>)
    ensures
        r == mode_index_spec(name@),
{
    if str_eq_ignore_ascii_case(name, "quiet") {
        Some(0)
    } else if str_eq_ignore_ascii_case(name, "aware") {
        Some(1)
    } else if str_eq_ignore_ascii_case(name, "immersion") {
        Some(2)
    } else if str_eq_ignore_ascii_case(name, "cinema") {
        Some(3)
    } else {
        None
    }
}

/// The BMAP `spatial` byte of an immersive setting.
pub open spec fn spatial_of(v: ImmersiveAudio) -> u8 {
    match v {
        ImmersiveAudio::Off => 0,
        ImmersiveAudio::Still => 1,
        ImmersiveAudio::Motion => 2,
    }
}

pub fn immersive_to_spatial(value: &ImmersiveAudio) -> (r: u8)
    ensures
        r == spatial_of(*value),
{
    match value {
        ImmersiveAudio::Off => 0,
        ImmersiveAudio::Still => 1,
        ImmersiveAudio::Motion => 2,
    }
}

/// An EQ band write: the signed value as a two's-complement byte, then the band id.
pub fn eq_payload(value: i8, band_id: u8) -> (r: [u8; 2])
    ensures
        r@ == seq![value as u8, band_id],
{
    let r = [value as u8, band_id];
    assert(r@ =~= seq![value as u8, band_id]);
    r
}

/// The live audio settings `[cnc, auto_cnc, spatial, wind, anc]`. The
/// headphones count `cnc` the other way round from the domain's noise level.
pub open spec fn audio_payload_spec(c: ConfigView) -> Seq<u8> {
    seq![
        (10 - c.noise.level) as u8,
        0u8,
        spatial_of(c.immersive),
        0u8,
        if c.noise.enabled {
            1u8
        } else {
            0u8
        },
    ]
}

pub fn audio_payload(config: &ConfigFile) -> (r: [u8; 5])
    requires
        noise_valid(config.noise),
    ensures
        r@ == audio_payload_spec(config@),
{
    let r = [
        10 - config.noise.level,
        0,
        immersive_to_spatial(&config.immersive),
        0,
        if config.noise.enabled {
            1
        } else {
            0
        },
    ];
    assert(r@ =~= audio_payload_spec(config@));
    r
}

/// The address of the selected device.
pub open spec fn address_spec(c: ConfigView) -> Option<Seq<char>> {
    match c.selected_device {
        Some(d) => Some(d.address),
        None => None,
    }
}

pub fn device_address(config: &ConfigFile) -> (r: Result<String, ModelError>)
    ensures
        r matches Ok(a) ==> address_spec(config@) == Some(a@),
        r matches Err(e) ==> address_spec(config@) is None && e@ == ModelErrorView::NoSelectedDevice,
{
    match &config.selected_device {
        Some(d) => Ok(d.address.clone()),
        None => Err(ModelError::NoSelectedDevice),
    }
}

pub open spec fn request_spec(
    address: Seq<char>,
    fblock: u8,
    func: u8,
    op: Operator,
    payload: Seq<u8>,
    pause_ms: u64,
    purpose: RequestPurpose,
) -> RequestView {
    RequestView {
        address,
        channel: 2,
        fblock,
        func,
        op,
        payload,
        expected: seq![Operator::Status, Operator::Result],
        pause_ms,
        purpose,
    }
}

fn request(
    address: &String,
    fblock: u8,
    func: u8,
    op: Operator,
    payload: Vec<u8>,
    pause_ms: u64,
    purpose: RequestPurpose,
) -> (r: BmapRequest)
    ensures
        r@ == request_spec(address@, fblock, func, op, payload@, pause_ms, purpose),
{
    let mut expected: Vec<Operator> = Vec::new();
    expected.push(Operator::Status);
    expected.push(Operator::Result);
    assert(expected@ =~= seq![Operator::Status, Operator::Result]);
    BmapRequest {
        address: address.clone(),
        channel: RFCOMM_CHANNEL,
        fblock,
        func,
        op,
        payload,
        expected,
        pause_ms,
        purpose,
    }
}

/// The writes that put a configuration on the headphones, in order: the mode
/// switch `START [31.3]` when the active mode is a built-in one, the live
/// audio settings `SETGET [31.10]`, then `SETGET [1.7]` for bass, mid and treble.
pub open spec fn sync_plan_spec(c: ConfigView) -> Result<Seq<RequestView>, ModelErrorView> {
    match address_spec(c) {
        None => Err(ModelErrorView::NoSelectedDevice),
        Some(a) => {
            let tail = seq![
                request_spec(
                    a,
                    31,
                    10,
                    Operator::SetGet,
                    audio_payload_spec(c),
                    250,
                    RequestPurpose::AudioSettings,
                ),
                request_spec(
                    a,
                    1,
                    7,
                    Operator::SetGet,
                    seq![c.eq.bass as u8, 0u8],
                    250,
                    RequestPurpose::EqBand(0),
                ),
                request_spec(
                    a,
                    1,
                    7,
                    Operator::SetGet,
                    seq![c.eq.mid as u8, 1u8],
                    250,
                    RequestPurpose::EqBand(1),
                ),
                request_spec(
                    a,
                    1,
                    7,
                    Operator::SetGet,
                    seq![c.eq.treble as u8, 2u8],
                    250,
                    RequestPurpose::EqBand(2),
                ),
            ];
            match c.active_mode {
                None => Ok(tail),
                Some(m) => match mode_index_spec(m) {
                    None => Err(ModelErrorView::CustomModeSync(m)),
                    Some(i) => Ok(
                        seq![
                            request_spec(
                                a,
                                31,
                                3,
                                Operator::Start,
                                seq![i, 0u8],
                                750,
                                RequestPurpose::SwitchMode,
                            ),
                        ] + tail,
                    ),
                },
            }
        },
    }
}

fn bytes2(a: u8, b: u8) -> (r: Vec<u8>)
    ensures
        r@ == seq![a, b],
{
    let mut v = Vec::new();
    v.push(a);
    v.push(b);
    assert(v@ =~= seq![a, b]);
    v
}

/// The noise level must be in range only where the plan is built: no error
/// comes before the audio settings write, which carries it.
pub fn sync_config(config: &ConfigFile) -> (r: Result<Vec<BmapRequest>, ModelError>)
    requires
        sync_plan_spec(config@) is Ok ==> noise_valid(config.noise),
    ensures
        r matches Ok(rs) ==> sync_plan_spec(config@) == Ok::<Seq<RequestView>, ModelErrorView>(
            request_views(rs@),
        ),
        r matches Err(e) ==> sync_plan_spec(config@) == Err::<Seq<RequestView>, ModelErrorView>(
            e@,
        ),
{
    let address = device_address(config)?;
    let mut out: Vec<BmapRequest> = Vec::new();
    if let Some(active) = &config.active_mode {
        let index = match mode_index(active.as_str()) {
            Some(i) => i,
            None => return Err(ModelError::CustomModeSync(active.clone())),
        };
        out.push(
            request(&address, 31, 3, Operator::Start, bytes2(index, 0), 750, RequestPurpose::SwitchMode),
        );
    }
    let audio = audio_payload(config);
    let mut audio_bytes: Vec<u8> = Vec::new();
    for i in 0..5
        invariant
            audio@ == audio_payload_spec(config@),
            audio_bytes@ == audio@.take(i as int),
    {
        audio_bytes.push(audio[i]);
        assert(audio_bytes@ =~= audio@.take(i + 1));
    }
    assert(audio@.take(5) =~= audio@);
    out.push(
        request(&address, 31, 10, Operator::SetGet, audio_bytes, 250, RequestPurpose::AudioSettings),
    );
    let bass = eq_payload(config.eq.bass, 0);
    out.push(
        request(&address, 1, 7, Operator::SetGet, bytes2(bass[0], bass[1]), 250, RequestPurpose::EqBand(0)),
    );
    let mid = eq_payload(config.eq.mid, 1);
    out.push(
        request(&address, 1, 7, Operator::SetGet, bytes2(mid[0], mid[1]), 250, RequestPurpose::EqBand(1)),
    );
    let treble = eq_payload(config.eq.treble, 2);
    out.push(
        request(
            &address,
            1,
            7,
            Operator::SetGet,
            bytes2(treble[0], treble[1]),
            250,
            RequestPurpose::EqBand(2),
        ),
    );
    proof {
        let spec = sync_plan_spec(config@);
        assert(request_views(out@) =~= spec->Ok_0);
    }
    Ok(out)
}

/// The battery read `GET [2.2]`.
pub open spec fn battery_request_spec(c: ConfigView) -> Result<RequestView, ModelErrorView> {
    match address_spec(c) {
        None => Err(ModelErrorView::NoSelectedDevice),
        Some(a) => Ok(request_spec(a, 2, 2, Operator::Get, Seq::empty(), 0, RequestPurpose::Battery)),
    }
}

pub fn read_battery(config: &ConfigFile) -> (r: Result<BmapRequest, ModelError>)
    ensures
        r matches Ok(q) ==> battery_request_spec(config@) == Ok::<RequestView, ModelErrorView>(q@),
        r matches Err(e) ==> battery_request_spec(config@) == Err::<RequestView, ModelErrorView>(
            e@,
        ),
{
    let address = device_address(config)?;
    let q = request(&address, 2, 2, Operator::Get, Vec::new(), 0, RequestPurpose::Battery);
    assert(q@.payload =~= Seq::<u8>::empty());
    Ok(q)
}

/// The battery percentage in a `[2.2]` response: its first payload byte.
pub open spec fn battery_level_spec(f: FrameView) -> Result<u8, ModelErrorView> {
    if f.fblock != 2 || f.func != 2 {
        Err(ModelErrorView::UnexpectedBatteryResponse { fblock: f.fblock, func: f.func })
    } else if f.payload.len() == 0 {
        Err(ModelErrorView::BatteryMissingPayload)
    } else {
        Ok(f.payload[0])
    }
}

pub fn battery_level(frame: &Frame) -> (r: Result<u8, ModelError>)
    ensures
        r matches Ok(v) ==> battery_level_spec(frame@) == Ok::<u8, ModelErrorView>(v),
        r matches Err(e) ==> battery_level_spec(frame@) == Err::<u8, ModelErrorView>(e@),
{
    if frame.fblock != 2 || frame.func != 2 {
        return Err(ModelError::UnexpectedBatteryResponse { fblock: frame.fblock, func: frame.func });
    }
    if frame.payload.len() == 0 {
        return Err(ModelError::BatteryMissingPayload);
    }
    Ok(frame.payload[0])
}

/// The QC Ultra 2 profile.
#[derive(Debug)]
pub struct QcUltra2Model;

/// The domain's noise scale runs opposite to the headphones' `cnc` byte:
/// level 0 (most outside sound) is `cnc` 10, level 10 (most blocked) is `cnc`
/// 0; `auto_cnc` and `wind` stay 0 and `anc` mirrors the enabled flag.
pub proof fn lemma_noise_scale_inverted(c: ConfigView)
    requires
        noise_valid(c.noise),
    ensures
        audio_payload_spec(c)[0] + c.noise.level == 10,
        audio_payload_spec(c)[1] == 0,
        audio_payload_spec(c)[3] == 0,
        audio_payload_spec(c)[4] == 1 <==> c.noise.enabled,
        audio_payload_spec(c).len() == 5,
{
}

/// An EQ value written as a byte reads back as the same signed value.
pub proof fn lemma_eq_byte_roundtrip(v: i8)
    ensures
        ((v as u8) as i8) == v,
{
    assert(((v as u8) as i8) == v) by (bit_vector);
}

/// With a built-in active mode, syncing first switches the headphones to it:
/// `START [31.3]` with the payload `[index, 0]`, where the index is 0 for
/// Quiet, 1 for Aware, 2 for Immersion and 3 for Cinema; on the wire that is
/// `[31, 3, 5, 2, index, 0]`.
pub proof fn lemma_sync_switches_to_active_mode(c: ConfigView)
    requires
        c.selected_device is Some,
        c.active_mode is Some,
        mode_index_spec(c.active_mode->Some_0) is Some,
    ensures
        sync_plan_spec(c) is Ok,
        ({
            let first = sync_plan_spec(c)->Ok_0[0];
            let index = mode_index_spec(c.active_mode->Some_0)->Some_0;
            &&& sync_plan_spec(c)->Ok_0.len() == 5
            &&& first.fblock == 31 && first.func == 3 && first.op == Operator::Start
            &&& first.payload.len() == 2
            &&& first.payload[0] == index
            &&& first.payload[1] == 0
            &&& frame_bytes(first.fblock, first.func, first.op, first.payload) == seq![
                31u8,
                3u8,
                5u8,
                2u8,
                index,
                0u8,
            ]
        }),
{
    let first = sync_plan_spec(c)->Ok_0[0];
    assert(frame_bytes(first.fblock, first.func, first.op, first.payload) =~= seq![
        31u8,
        3u8,
        5u8,
        2u8,
        mode_index_spec(c.active_mode->Some_0)->Some_0,
        0u8,
    ]);
}

/// Each built-in mode, named in any ASCII case, has its index: Quiet 0,
/// Aware 1, Immersion 2, Cinema 3.
pub proof fn lemma_mode_index_of_each_builtin(name: Seq<char>)
    ensures
        eq_ignore_case(name, "quiet"@) ==> mode_index_spec(name) == Some(0u8),
        eq_ignore_case(name, "aware"@) ==> mode_index_spec(name) == Some(1u8),
        eq_ignore_case(name, "immersion"@) ==> mode_index_spec(name) == Some(2u8),
        eq_ignore_case(name, "cinema"@) ==> mode_index_spec(name) == Some(3u8),
{
    reveal_strlit("quiet");
    reveal_strlit("aware");
    reveal_strlit("immersion");
    reveal_strlit("cinema");
    if eq_ignore_case(name, "aware"@) {
        assert(ascii_lower(name[0]) == ascii_lower("aware"@[0]));
        assert(!eq_ignore_case(name, "quiet"@)) by {
            if eq_ignore_case(name, "quiet"@) {
                assert(ascii_lower(name[0]) == ascii_lower("quiet"@[0]));
            }
        }
    }
}

/// The spatial byte of the audio settings write is the protocol's code of
/// the immersive setting: off 0, still (room) 1, motion (head) 2; so two
/// different settings are never written alike.
pub proof fn lemma_spatial_byte(c: ConfigView, d: ConfigView)
    ensures
        c.immersive == ImmersiveAudio::Off ==> audio_payload_spec(c)[2] == 0,
        c.immersive == ImmersiveAudio::Still ==> audio_payload_spec(c)[2] == 1,
        c.immersive == ImmersiveAudio::Motion ==> audio_payload_spec(c)[2] == 2,
        c.immersive != d.immersive ==> audio_payload_spec(c)[2] != audio_payload_spec(d)[2],
{
}

} // verus!
