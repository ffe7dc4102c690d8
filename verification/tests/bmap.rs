use bose_cli::bmap::{
    build_frame, check_response, error_name, first_frame, parse_frame, parse_frames, plan_step,
    send, send_expect, send_raw, BmapError, BmapRequest, Operator, PlanAction, PlanEvent,
    SendError,
};
use bose_cli::config::ConfigFile;
use bose_cli::domain::{DeviceRef, ImmersiveAudio, NoiseControl};
use bose_cli::models::qc_ultra_2::{audio_payload, eq_payload};

#[test]
fn builds_and_parses_frame() {
    let bytes = build_frame(31, 10, Operator::SetGet, &[1, 2, 3]).unwrap();
    let frame = parse_frame(&bytes).unwrap();
    assert_eq!(frame.fblock, 31);
    assert_eq!(frame.func, 10);
    assert_eq!(frame.op, Operator::SetGet);
    assert_eq!(frame.payload, vec![1, 2, 3]);
}

#[test]
fn parses_concatenated_frames() {
    let mut bytes = build_frame(31, 10, Operator::Status, &[1]).unwrap();
    bytes.extend(build_frame(1, 7, Operator::Result, &[2]).unwrap());

    let frames = parse_frames(&bytes).unwrap();

    assert_eq!(frames.len(), 2);
    assert_eq!(frames[0].fblock, 31);
    assert_eq!(frames[1].fblock, 1);
}

#[test]
fn rejects_oversized_payload() {
    let payload = vec![0; 256];
    assert!(build_frame(1, 1, Operator::SetOnly, &payload).is_err());
}

#[test]
fn bmap_maps_audio_and_eq_payloads() {
    let config = ConfigFile {
        selected_device: Some(DeviceRef {
            address: "68:F2".into(),
            name: Some("Bose QC Ultra 2 HP".into()),
            model: None,
        }),
        active_mode: Some("Quiet".into()),
        custom_modes: vec![],
        noise: NoiseControl {
            enabled: true,
            level: 7,
        },
        immersive: ImmersiveAudio::Motion,
        eq: bose_cli::domain::Eq {
            bass: -10,
            mid: 0,
            treble: 10,
        },
    };
    assert_eq!(audio_payload(&config), [3, 0, 2, 0, 1]);
    assert_eq!(eq_payload(-10, 0), [246, 0]);
}

#[test]
fn parses_operator_from_flags_low_nibble() {
    let frame = parse_frame(&[31, 3, 0x46, 1, 0]).unwrap();
    assert_eq!(frame.op, Operator::Result);
}

#[test]
fn built_frame_has_header_then_payload() {
    let bytes = build_frame(1, 7, Operator::SetGet, &[0xf6, 0]).unwrap();
    assert_eq!(bytes, vec![1, 7, 2, 2, 0xf6, 0]);
    assert_eq!(build_frame(2, 2, Operator::Get, &[]).unwrap(), vec![2, 2, 1, 0]);
    assert_eq!(
        build_frame(1, 1, Operator::SetOnly, &vec![0; 256]).unwrap_err(),
        BmapError::PayloadTooLong(256)
    );
    assert_eq!(build_frame(1, 1, Operator::SetOnly, &vec![9; 255]).unwrap().len(), 259);
}

#[test]
fn frame_parse_errors() {
    assert_eq!(parse_frame(&[1, 2, 3]).unwrap_err(), BmapError::FrameTooShort);
    assert_eq!(parse_frame(&[1, 2, 3, 2, 9]).unwrap_err(), BmapError::PayloadTruncated);
    assert_eq!(parse_frame(&[1, 2, 0x0f, 0]).unwrap_err(), BmapError::UnknownOperator(0x0f));
    assert_eq!(
        parse_frames(&[2, 2, 3, 1, 90, 1, 7]).unwrap_err(),
        BmapError::TrailingPartialFrame
    );
    assert_eq!(parse_frames(&[2, 2, 3, 4, 90]).unwrap_err(), BmapError::PayloadTruncated);
    assert!(parse_frames(&[]).unwrap().is_empty());
}

#[test]
fn parse_ignores_bytes_after_the_payload() {
    let frame = parse_frame(&[2, 2, 3, 1, 90, 255, 255]).unwrap();
    assert_eq!(frame.payload, vec![90]);
    assert_eq!(frame.op, Operator::Status);
}

#[test]
fn operator_names_and_codes() {
    for (code, op) in [
        (0, Operator::SetOnly),
        (1, Operator::Get),
        (2, Operator::SetGet),
        (3, Operator::Status),
        (4, Operator::Error),
        (5, Operator::Start),
        (6, Operator::Result),
        (7, Operator::Processing),
    ] {
        assert_eq!(op.to_u8(), code);
        assert_eq!(Operator::try_from(code).unwrap(), op);
        assert_eq!(Operator::try_from(code | 0xc0).unwrap(), op);
    }
    assert_eq!(Operator::SetOnly.name(), "Set");
    assert_eq!(Operator::try_from(8).unwrap_err(), BmapError::UnknownOperator(8));
    assert_eq!(BmapError::UnknownOperator(8).message(), "unknown operator 8");
}

#[test]
fn response_check_takes_the_acknowledgement_for_the_address() {
    let ack = [Operator::Status, Operator::Result];
    let mut bytes = build_frame(5, 1, Operator::Status, &[7]).unwrap();
    bytes.extend(build_frame(31, 10, Operator::Status, &[10, 0, 0, 0, 1]).unwrap());
    let frame = check_response(&bytes, 31, 10, &ack).unwrap();
    assert_eq!(frame.payload, vec![10, 0, 0, 0, 1]);
}

#[test]
fn response_check_reports_error_frames() {
    let ack = [Operator::Status, Operator::Result];
    let bytes = build_frame(31, 3, Operator::Error, &[5]).unwrap();
    let err = check_response(&bytes, 31, 3, &ack).unwrap_err();
    assert_eq!(
        err,
        BmapError::DeviceError {
            code: 5,
            fblock: 31,
            func: 3
        }
    );
    assert_eq!(
        err.message(),
        "BMAP error OperatorNotSupportedOrAuthRequired on [31.3]"
    );
    let empty_error = build_frame(31, 3, Operator::Error, &[]).unwrap();
    assert_eq!(
        check_response(&empty_error, 31, 3, &ack).unwrap_err().message(),
        "BMAP error Unknown on [31.3]"
    );
}

#[test]
fn response_check_reports_unexpected_and_missing() {
    let ack = [Operator::Status, Operator::Result];
    let bytes = build_frame(1, 7, Operator::Processing, &[]).unwrap();
    let err = check_response(&bytes, 1, 7, &ack).unwrap_err();
    assert_eq!(
        err.message(),
        "unexpected BMAP response operator Processing on [1.7]"
    );
    let other = build_frame(2, 2, Operator::Status, &[90]).unwrap();
    let err = check_response(&other, 1, 7, &ack).unwrap_err();
    assert_eq!(err, BmapError::MissingResponse { fblock: 1, func: 7 });
    assert_eq!(err.message(), "missing BMAP response for [1.7]");
}

#[test]
fn raw_response_takes_the_first_frame() {
    let mut bytes = build_frame(2, 2, Operator::Status, &[0x5a, 0xff, 0xff, 0]).unwrap();
    bytes.extend(build_frame(1, 7, Operator::Status, &[]).unwrap());
    let frame = first_frame(&bytes).unwrap();
    assert_eq!(frame.fblock, 2);
    assert_eq!(frame.payload, vec![0x5a, 0xff, 0xff, 0]);
    assert_eq!(first_frame(&[]).unwrap_err(), BmapError::EmptyResponse);
    assert_eq!(BmapError::EmptyResponse.message(), "empty BMAP response");
}

#[test]
fn error_code_names() {
    assert_eq!(error_name(1), "Length");
    assert_eq!(error_name(15), "InvalidTransition");
    assert_eq!(error_name(20), "InsecureTransport");
    assert_eq!(error_name(11), "Unknown");
    assert_eq!(error_name(0), "Unknown");
    assert_eq!(
        BmapError::PayloadTooLong(300).message(),
        "BMAP payload too long: 300 bytes"
    );
}

fn headset_replying(reply: Vec<u8>) -> impl Fn(&str, &[u8]) -> Result<Vec<u8>, String> {
    move |_: &str, _: &[u8]| Ok(reply.clone())
}

#[test]
fn send_expect_returns_the_acknowledging_frame() {
    let mut reply = build_frame(1, 1, Operator::Status, &[9]).unwrap();
    reply.extend(build_frame(31, 10, Operator::Processing, &[]).unwrap());
    reply.extend(build_frame(31, 10, Operator::Result, &[7]).unwrap());
    let seen: std::cell::RefCell<Vec<(String, Vec<u8>)>> = std::cell::RefCell::new(Vec::new());
    let frame = send(
        "AA:BB",
        31,
        10,
        Operator::SetGet,
        &[1, 2],
        |address: &str, bytes: &[u8]| {
            seen.borrow_mut().push((address.to_string(), bytes.to_vec()));
            Ok(reply.clone())
        },
    )
    .unwrap();
    assert_eq!(frame.op, Operator::Result);
    assert_eq!(frame.payload, vec![7]);
    assert_eq!(
        seen.borrow().clone(),
        vec![("AA:BB".to_string(), vec![31, 10, 2, 2, 1, 2])]
    );
}

#[test]
fn send_expect_reports_transport_and_device_errors() {
    let err = send_expect(
        "AA:BB",
        31,
        10,
        Operator::Get,
        &[],
        &[Operator::Status],
        |_: &str, _: &[u8]| Err("link down".to_string()),
    )
    .unwrap_err();
    assert!(matches!(err, SendError::Transport(ref m) if m == "link down"));
    assert_eq!(err.message(), "link down");

    let reply = build_frame(31, 10, Operator::Error, &[4]).unwrap();
    let err = send_expect(
        "AA:BB",
        31,
        10,
        Operator::Get,
        &[],
        &[Operator::Status],
        headset_replying(reply),
    )
    .unwrap_err();
    assert_eq!(err.message(), "BMAP error FunctionNotSupported on [31.10]");

    let err = send(
        "AA:BB",
        1,
        1,
        Operator::Get,
        &vec![0; 300],
        |_: &str, _: &[u8]| panic!("nothing to send"),
    )
    .unwrap_err();
    assert!(matches!(
        err,
        SendError::Frame(BmapError::PayloadTooLong(300))
    ));
}

#[test]
fn send_raw_reports_the_first_frame() {
    let mut config = ConfigFile::default();
    assert!(matches!(
        send_raw(&config, 1, 1, Operator::Get, &[], headset_replying(vec![])),
        Err(SendError::NoSelectedDevice)
    ));
    config.selected_device = Some(DeviceRef {
        address: "AA:BB".into(),
        name: None,
        model: None,
    });
    let mut reply = build_frame(2, 2, Operator::Status, &[55]).unwrap();
    reply.extend(build_frame(3, 3, Operator::Status, &[]).unwrap());
    let frame = send_raw(&config, 2, 2, Operator::Get, &[], headset_replying(reply)).unwrap();
    assert_eq!(frame.payload, vec![55]);
    assert!(matches!(
        send_raw(&config, 2, 2, Operator::Get, &[], headset_replying(vec![])),
        Err(SendError::Frame(BmapError::EmptyResponse))
    ));
}

#[test]
fn requests_send_themselves() {
    let mut config = ConfigFile::default();
    config.selected_device = Some(DeviceRef {
        address: "AA:BB".into(),
        name: Some("Bose QC Ultra 2 HP".into()),
        model: None,
    });
    let request = bose_cli::models::qc_ultra_2::read_battery(&config).unwrap();
    let reply = build_frame(2, 2, Operator::Status, &[64]).unwrap();
    let frame = request.send(headset_replying(reply)).unwrap();
    assert_eq!(
        bose_cli::models::qc_ultra_2::battery_level(&frame).unwrap(),
        64
    );
}

/// Drives a plan through `plan_step` against a headset that acknowledges the
/// first `acknowledged` requests and then drops the link; returns the frames
/// sent and the actions taken.
fn drive_plan(plan: &[BmapRequest], acknowledged: usize) -> (Vec<Vec<u8>>, Vec<PlanAction>) {
    let sent: std::cell::RefCell<Vec<Vec<u8>>> = std::cell::RefCell::new(Vec::new());
    let mut actions = Vec::new();
    let mut action = plan_step(plan, PlanEvent::Started);
    loop {
        let next = match &action {
            PlanAction::Send(index) => {
                let outcome = plan[*index].send(|_: &str, frame: &[u8]| {
                    let count = sent.borrow().len();
                    sent.borrow_mut().push(frame.to_vec());
                    if count < acknowledged {
                        Ok(build_frame(frame[0], frame[1], Operator::Status, &[]).unwrap())
                    } else {
                        Err("link down".to_string())
                    }
                });
                Some(plan_step(plan, PlanEvent::Sent(*index, outcome)))
            }
            PlanAction::Pause(index, _) => Some(plan_step(plan, PlanEvent::Paused(*index))),
            PlanAction::Finish | PlanAction::Fail(_, _) => None,
        };
        actions.push(action);
        match next {
            Some(a) => action = a,
            None => break,
        }
    }
    (sent.into_inner(), actions)
}

fn quiet_sync_plan() -> Vec<BmapRequest> {
    let mut config = ConfigFile::default();
    config.selected_device = Some(DeviceRef {
        address: "AA:BB".into(),
        name: Some("Bose QC Ultra 2 HP".into()),
        model: None,
    });
    bose_cli::models::qc_ultra_2::sync_config(&config).unwrap()
}

#[test]
fn plan_sends_every_request_in_order_with_its_pause() {
    let plan = quiet_sync_plan();
    assert_eq!(plan.len(), 5);
    let (sent, actions) = drive_plan(&plan, 5);
    assert_eq!(sent.len(), 5);
    assert_eq!(&sent[0][..2], &[31, 3]);
    assert_eq!(&sent[1][..2], &[31, 10]);
    assert_eq!(&sent[4][..2], &[1, 7]);
    assert_eq!(actions.len(), 11);
    let pauses: Vec<(usize, u64)> = actions
        .iter()
        .filter_map(|a| match a {
            PlanAction::Pause(i, ms) => Some((*i, *ms)),
            _ => None,
        })
        .collect();
    assert_eq!(pauses, vec![(0, 750), (1, 250), (2, 250), (3, 250), (4, 250)]);
    assert!(matches!(actions[0], PlanAction::Send(0)));
    assert!(matches!(actions[2], PlanAction::Send(1)));
    assert!(matches!(actions[10], PlanAction::Finish));
}

#[test]
fn plan_stops_at_the_first_failed_request() {
    let plan = quiet_sync_plan();
    let (sent, actions) = drive_plan(&plan, 2);
    assert_eq!(sent.len(), 3);
    assert_eq!(actions.len(), 6);
    assert!(matches!(actions[4], PlanAction::Send(2)));
    match &actions[5] {
        PlanAction::Fail(2, SendError::Transport(m)) => assert_eq!(m, "link down"),
        other => panic!("unexpected end of the plan: {:?}", other),
    }
    assert_eq!(plan[2].purpose.context().unwrap(), "set EQ band 0");

    let (sent, actions) = drive_plan(&plan, 0);
    assert_eq!(sent.len(), 1);
    assert_eq!(actions.len(), 2);
    assert!(matches!(actions[1], PlanAction::Fail(0, SendError::Transport(_))));
}

#[test]
fn empty_plan_finishes_at_once() {
    let (sent, actions) = drive_plan(&[], 0);
    assert!(sent.is_empty());
    assert_eq!(actions.len(), 1);
    assert!(matches!(actions[0], PlanAction::Finish));
}
