use srw::capture::{
    ax_meta_of, captured_frame, check_capture_size, check_reconfigure, entry_of,
    first_fitting_icon, identity_of, list_apps, list_windows, snapshot_image, snapshot_window,
    AppEntry, AppIdentity, AxChild, AxWindow, AxWindowMeta, CaptureError, CgSnapshotSource,
    RawBounds, RawWindow, MAX_ICON_BYTES,
};
use srw::codec::{
    access_unit, frame_of_outcome, plan_frame, CodecError, DecodedPicture, H264Decoder,
    H264Encoder,
};
use srw::host_blit::{pause, BlitLoop, BlitStep};
use srw::input::{
    AxInput, ClickEvent, InputError, InputPlan, InputSink, PidInput, PostedEvent,
};
use srw::mapping::InputMapping;
use srw::model::{AxRole, SnapshotWindow, WindowInfo};
use srw::peer::{
    client_dispatch, host_dispatch, is_disconnect, track_key, AnswerStep, ClientDispatch,
    HostDispatch, PeerState, PendingAnswers,
};
use srw::pipeline::{FrameSlot, Pipeline, PipelineStep};
use srw::pixels::{BgraFrame, RgbaImage};
use srw::protocol::{ClientMessage, HostMessage, MouseAction, MouseButton, WindowKind};
use srw::scalar::Scalar;
use srw::session::{
    app_announcement, app_id_of, even_px, open_cleanup, pid_of_app, probe_step, InputAction,
    MappingForwarder, OpenCleanup, OpenStage, ProbeStep, Session, SessionAction,
};
use srw::share::{choose_apps, parse_pids, ShareError};
use srw::signalling::{
    description_of, description_text, is_offer_request, offer_of_request, Description,
    DescriptionKind, OfferStep,
};
use srw::tracker::TrackerEvent;
use std::collections::HashMap;

fn s(x: f64) -> Scalar {
    Scalar::from_bits(x.to_bits())
}

fn solid(width: u32, height: u32, b: u8, g: u8, r: u8) -> BgraFrame {
    let mut data = Vec::new();
    for _ in 0..width * height {
        data.extend_from_slice(&[b, g, r, 255]);
    }
    BgraFrame { width, height, data }
}

// ---- codec ----

#[test]
fn encode_decode_roundtrip_solid_frame() {
    let mut enc = H264Encoder::new().unwrap();
    let mut dec = H264Decoder::new().unwrap();
    let frame = solid(64, 64, 20, 180, 240);

    let mut decoded = None;
    for _ in 0..10 {
        if let Some(au) = enc.encode_bgra(&frame).unwrap() {
            if let Some(out) = dec.decode(&au).unwrap() {
                decoded = Some(out);
                break;
            }
        }
    }
    let out = decoded.expect("no decoded frame after 10 encoded frames");
    assert_eq!((out.width, out.height), (64, 64));
    let (mut bs, mut gs, mut rs) = (0i64, 0i64, 0i64);
    for px in out.data.chunks(4) {
        bs += px[0] as i64;
        gs += px[1] as i64;
        rs += px[2] as i64;
    }
    let n = (out.width * out.height) as i64;
    assert!((bs / n - 20).abs() <= 12, "b avg {}", bs / n);
    assert!((gs / n - 180).abs() <= 12, "g avg {}", gs / n);
    assert!((rs / n - 240).abs() <= 12, "r avg {}", rs / n);
}

#[test]
fn encode_bgra_rejects_odd_dimensions_instead_of_panicking() {
    let mut enc = H264Encoder::new().unwrap();
    let frame = solid(63, 64, 10, 20, 30);
    let result = enc.encode_bgra(&frame);
    assert!(result.is_err(), "expected Err for odd-width frame, got {:?}", result.is_ok());
    assert_eq!(result, Err(CodecError::OddDimensions { width: 63, height: 64 }));
}

fn au_contains_idr(au: &[u8]) -> bool {
    let mut i = 0;
    while i + 3 <= au.len() {
        let start_len = if au[i..].starts_with(&[0, 0, 0, 1]) {
            Some(4)
        } else if au[i..].starts_with(&[0, 0, 1]) {
            Some(3)
        } else {
            None
        };
        if let Some(len) = start_len {
            let nal_byte_idx = i + len;
            if nal_byte_idx < au.len() {
                let nal_type = au[nal_byte_idx] & 0x1F;
                if nal_type == 5 {
                    return true;
                }
            }
            i += len;
        } else {
            i += 1;
        }
    }
    false
}

#[test]
fn force_idr_emits_idr_on_next_frame() {
    let mut enc = H264Encoder::new().unwrap();
    let frame = solid(64, 64, 20, 180, 240);
    for _ in 0..5 {
        enc.encode_bgra(&frame).unwrap();
    }
    enc.force_idr();
    let au = enc.encode_bgra(&frame).unwrap().expect("au after force_idr");
    assert!(au_contains_idr(&au), "frame after force_idr() must contain an IDR NAL");
}

#[test]
fn keyframe_request_outlasts_a_refused_frame() {
    let mut enc = H264Encoder::new().unwrap();
    let frame = solid(64, 64, 20, 180, 240);
    for _ in 0..5 {
        enc.encode_bgra(&frame).unwrap();
    }
    enc.force_idr();
    assert!(enc.encode_bgra(&solid(63, 64, 1, 2, 3)).is_err());
    let forced = enc.encode_bgra(&frame).unwrap().expect("au after the refused frame");
    assert!(au_contains_idr(&forced));
    if let Some(au) = enc.encode_bgra(&frame).unwrap() {
        assert!(!au_contains_idr(&au), "one request makes one keyframe");
    }
}

#[test]
fn encoder_emits_periodic_idr_for_loss_recovery() {
    let mut enc = H264Encoder::new().unwrap();
    let frame = solid(64, 64, 20, 180, 240);

    let mut idr_aus = 0;
    for _ in 0..400 {
        if let Some(au) = enc.encode_bgra(&frame).unwrap() {
            if au_contains_idr(&au) {
                idr_aus += 1;
            }
        }
    }

    assert!(
        idr_aus >= 2,
        "expected at least 2 access units containing an IDR (initial + periodic), got {}",
        idr_aus
    );
}

#[test]
fn frames_larger_than_the_codec_takes_are_refused() {
    let mut enc = H264Encoder::new().unwrap();
    assert_eq!(enc.encode_bgra(&solid(3842, 2, 1, 2, 3)), Err(CodecError::Encode));
    assert_eq!(enc.encode_bgra(&solid(2162, 2162, 1, 2, 3)), Err(CodecError::Encode));
}

#[test]
fn keyframes_are_planned_every_three_hundred_frames() {
    let f = solid(2, 2, 255, 0, 0);
    for (count, due) in [(0, true), (1, false), (299, false), (300, true), (600, true)] {
        assert!(plan_frame(&f, count, true).unwrap().force_idr);
        let plan = plan_frame(&f, count, false).unwrap();
        assert_eq!(plan.force_idr, due);
        assert_eq!((plan.planes.y.len(), plan.planes.u[0]), (4, 240));
    }
    assert_eq!(access_unit(vec![]), None);
    assert_eq!(access_unit(vec![1]), Some(vec![1]));
}

#[test]
fn undecodable_units_and_bad_pictures_are_errors() {
    let mut dec = H264Decoder::new().unwrap();
    assert_eq!(dec.decode(&[0, 0, 0, 1, 0x65, 1, 2, 3]).err(), Some(CodecError::Decode));
    let picture = |y: usize| DecodedPicture {
        width: 2,
        height: 2,
        y: vec![235; y],
        u: vec![128],
        v: vec![128],
        strides: (2, 1, 1),
    };
    assert_eq!(frame_of_outcome(Ok(Some(picture(3)))).err(), Some(CodecError::BadPicture));
    let whole = frame_of_outcome(Ok(Some(picture(4)))).unwrap().unwrap();
    assert_eq!(whole.data, vec![255; 16]);
    assert_eq!(frame_of_outcome(Err(())).err(), Some(CodecError::Decode));
    assert!(frame_of_outcome(Ok(None)).unwrap().is_none());
}

// ---- pipeline ----

fn frame(tag: u8) -> BgraFrame {
    BgraFrame { width: 2, height: 2, data: vec![tag; 16] }
}

#[test]
fn push_twice_take_returns_newest() {
    let mut slot = FrameSlot::new();
    slot.push(frame(1));
    slot.push(frame(2));
    let got = slot.take().unwrap();
    assert_eq!(got.data[0], 2);
    assert!(slot.take().is_none());
}

#[test]
fn take_times_out_empty() {
    let mut slot = FrameSlot::new();
    assert!(slot.take().is_none());
}

#[test]
fn pipeline_encodes_the_newest_frame_and_answers_requests_once() {
    let mut p = Pipeline::new();
    assert!(matches!(p.next(), PipelineStep::Wait));
    p.request_idr();
    assert!(!p.is_ready());
    assert!(matches!(p.next(), PipelineStep::Wait));
    p.push(frame(1));
    p.push(frame(2));
    assert!(p.is_ready());
    assert!(matches!(p.next(), PipelineStep::Encode { frame, force_idr: true } if frame.data[0] == 2));
    p.push(frame(3));
    assert!(matches!(p.next(), PipelineStep::Encode { force_idr: false, .. }));
    for _ in 0..299 {
        assert!(!p.is_full());
        assert_eq!(p.on_sent(), None);
    }
    assert_eq!(p.on_sent(), Some(300));
    p.push(frame(4));
    p.stop();
    assert!(matches!(p.next(), PipelineStep::Stop));
}

// ---- session ----

fn window(id: u32, pid: i32) -> SnapshotWindow {
    SnapshotWindow {
        info: WindowInfo {
            id,
            title: "doc".into(),
            x: s(10.0),
            y: s(20.0),
            width: s(800.0),
            height: s(600.0),
        },
        pid,
        layer: 0,
        on_screen: true,
        ax_role: AxRole::Window,
        minimized: false,
    }
}

/// Runs one pass in which every track and capture comes up.
fn pass(session: &mut Session, snapshot: Vec<SnapshotWindow>) -> Vec<String> {
    let mut log = Vec::new();
    for ev in session.begin_pass(snapshot) {
        let actions = session.on_tracker_event(ev);
        run(session, actions, &mut log);
    }
    let actions = session.finish_pass();
    run(session, actions, &mut log);
    log
}

fn run(session: &mut Session, actions: Vec<SessionAction>, log: &mut Vec<String>) {
    for a in actions {
        match a {
            SessionAction::OpenTrack { window, track_id } => {
                log.push(format!("open {}", track_id));
                let more = session.on_track_opened(window);
                run(session, more, log);
            }
            SessionAction::RestartCapture { window_id, .. } => {
                log.push(format!("restart {}", window_id));
                session.on_capture_started(window_id);
            }
            SessionAction::StopCapture { window_id } => log.push(format!("pause {}", window_id)),
            SessionAction::Reconfigure { window_id, .. } => log.push(format!("size {}", window_id)),
            SessionAction::RemoveTrack { track_id } => log.push(format!("remove {}", track_id)),
            SessionAction::StopEncoder { window_id } => log.push(format!("stop {}", window_id)),
            SessionAction::Send { msg } => log.push(match msg {
                HostMessage::WindowOpened { window_id, kind, track_id, app_id, .. } => {
                    assert_eq!(kind, WindowKind::Normal);
                    format!("opened {} {:?} {}", window_id, track_id, app_id)
                }
                HostMessage::WindowClosed { window_id } => format!("closed {}", window_id),
                HostMessage::WindowMinimized { window_id } => format!("minimized {}", window_id),
                HostMessage::WindowRestored { window_id } => format!("restored {}", window_id),
                HostMessage::WindowResized { window_id, .. } => format!("resized {}", window_id),
                HostMessage::WindowTitleChanged { title, .. } => format!("title {}", title),
                other => panic!("unexpected {:?}", other),
            }),
            SessionAction::Renegotiate => log.push("renegotiate".into()),
            SessionAction::UpdatePids { pids } => log.push(format!("pids {}", pids.len())),
        }
    }
}

#[test]
fn session_follows_a_window_through_its_life() {
    let mut session = Session::new(&[100]);
    let w = window(5, 100);
    assert_eq!(
        pass(&mut session, vec![w.clone()]),
        vec!["open win-5", "opened 5 Some(\"win-5\") 100", "renegotiate", "pids 1"]
    );
    assert_eq!(session.on_pli("win-5"), Some(5));
    assert_eq!(session.on_pli("win-6"), None);
    assert!(pass(&mut session, vec![w.clone()]).is_empty());
    let mut min = w.clone();
    min.minimized = true;
    assert_eq!(pass(&mut session, vec![min.clone()]), vec!["pause 5", "minimized 5", "pids 1"]);
    min.info.width = s(900.0);
    assert!(pass(&mut session, vec![min]).is_empty());
    let mut wide = w.clone();
    wide.info.width = s(900.0);
    assert_eq!(
        pass(&mut session, vec![wide]),
        vec!["restart 5", "restored 5", "size 5", "resized 5", "pids 1"]
    );
    let mut titled = w.clone();
    titled.info.title = "new".into();
    assert_eq!(
        pass(&mut session, vec![titled]),
        vec!["size 5", "resized 5", "title new", "pids 1"]
    );
    assert_eq!(
        pass(&mut session, vec![]),
        vec!["remove win-5", "stop 5", "closed 5", "renegotiate", "pids 0"]
    );
    assert_eq!(session.on_pli("win-5"), None);
}

#[test]
fn window_whose_track_fails_is_never_announced() {
    let mut session = Session::new(&[100]);
    let events = session.begin_pass(vec![window(5, 100)]);
    assert_eq!(events.len(), 1);
    for ev in events {
        assert!(matches!(&session.on_tracker_event(ev)[..], [SessionAction::OpenTrack { .. }]));
    }
    assert!(matches!(&session.finish_pass()[..], [SessionAction::UpdatePids { .. }]));
    assert_eq!(session.on_pli("win-5"), None);
    assert!(session.shutdown().is_empty());
    assert!(matches!(
        &session.on_tracker_event(TrackerEvent::Minimized { window_id: 5 })[..],
        [SessionAction::Send { .. }]
    ));
}

#[test]
fn unsubscribed_app_is_torn_down_silently() {
    let mut session = Session::new(&[100, 200]);
    pass(&mut session, vec![window(5, 100), window(6, 200), window(4, 100)]);
    let actions = session.on_unsubscribe(100);
    let mut log = Vec::new();
    run(&mut session, actions, &mut log);
    assert_eq!(
        log,
        vec!["remove win-4", "stop 4", "remove win-5", "stop 5", "renegotiate", "pids 1"]
    );
    assert!(pass(&mut session, vec![window(5, 100), window(6, 200)]).is_empty());
    let mut log = Vec::new();
    let actions = session.shutdown();
    run(&mut session, actions, &mut log);
    assert_eq!(log, vec!["stop 6"]);
}

#[test]
fn client_messages_are_routed_to_windows() {
    let mut session = Session::new(&[100]);
    pass(&mut session, vec![window(5, 100)]);
    let click = |window_id| ClientMessage::MouseInput {
        window_id,
        x: s(1.0),
        y: s(2.0),
        button: MouseButton::Left,
        action: MouseAction::Down,
    };
    match session.on_client_message(click(5)) {
        InputAction::Mouse { window_id: 5, info, .. } => assert_eq!(info.x, s(10.0)),
        _ => panic!("expected a click"),
    }
    assert!(matches!(session.on_client_message(click(9)), InputAction::Nothing));
    assert!(session.geometry(5).is_some());
    let moved = ClientMessage::MouseMove { window_id: 9, x: s(1.0), y: s(2.0) };
    assert!(matches!(session.on_client_message(moved), InputAction::Nothing));
    let key = ClientMessage::KeyEvent { window_id: 9, key_code: 1, down: true, flags: 2 };
    assert!(matches!(session.on_client_message(key), InputAction::Key { window_id: 9, .. }));
    let unsubscribe = ClientMessage::UnsubscribeApp { app_id: 100 };
    assert!(matches!(
        session.on_client_message(unsubscribe),
        InputAction::Unsubscribe { app_id: 100 }
    ));
    let answer = ClientMessage::SdpAnswer { sdp: "x".into() };
    assert!(matches!(session.on_client_message(answer), InputAction::Nothing));
}

#[test]
fn session_decisions_have_their_values() {
    assert_eq!((even_px(0), even_px(1), even_px(7), even_px(1600)), (2, 2, 6, 1600));
    for pid in [0, 1, i32::MAX, -1, i32::MIN] {
        assert_eq!(app_id_of(pid), pid as u32);
        assert_eq!(pid_of_app(app_id_of(pid)), pid);
    }
    let c = |stop_encoder, remove_track| OpenCleanup { stop_encoder, remove_track };
    assert_eq!(open_cleanup(OpenStage::Track), c(false, false));
    assert_eq!(open_cleanup(OpenStage::Encoder), c(false, true));
    assert_eq!(open_cleanup(OpenStage::Capture), c(true, true));
    assert_eq!(probe_step(true, true, true), ProbeStep::Disconnected);
    assert_eq!(probe_step(false, true, false), ProbeStep::Ready);
    assert_eq!(probe_step(false, false, true), ProbeStep::Retry);
    assert_eq!(probe_step(false, false, false), ProbeStep::Failed);
    let id = AppIdentity { name: "Mail".into(), icon_png: b"hi".to_vec() };
    assert_eq!(
        app_announcement(100, &id),
        HostMessage::AppAnnounced { app_id: 100, name: "Mail".into(), icon_png: "aGk=".into() }
    );
}

#[test]
fn mapping_is_sent_when_it_changes() {
    let mut fwd = MappingForwarder::new();
    let mut m = InputMapping::identity();
    assert_eq!(fwd.on_mapping(1, m, false, true), None);
    m.scale_x = s(1.6);
    assert!(matches!(
        fwd.on_mapping(1, m, false, false),
        Some(HostMessage::InputMapping { window_id: 1, .. })
    ));
    assert_eq!(fwd.last(1), Some(m));
    assert_eq!(fwd.on_mapping(1, m, true, false), None);
    assert!(fwd.on_mapping(1, InputMapping::identity(), false, true).is_some());
    assert_eq!(fwd.last(2), None);
}

#[test]
fn still_images_are_sent_when_they_change() {
    let img = |v: u8| RgbaImage { width: 1, height: 1, data: vec![v; 4] };
    let mut l = BlitLoop::new(3);
    match l.on_snapshot(img(1)) {
        BlitStep::Send { msgs } => {
            assert!(matches!(msgs[0], HostMessage::TransientBlit { window_id: 3, seq: 1, .. }));
        }
        _ => panic!("expected a picture"),
    }
    assert!(matches!(l.on_snapshot(img(1)), BlitStep::Quiet));
    assert!(matches!(l.on_failure(), BlitStep::Quiet));
    match l.on_snapshot(img(2)) {
        BlitStep::Send { msgs } => {
            assert!(matches!(msgs[0], HostMessage::TransientBlit { seq: 2, .. }));
        }
        _ => panic!("expected a picture"),
    }
    let empty = RgbaImage { width: 0, height: 0, data: vec![] };
    assert!(matches!(l.on_snapshot(empty), BlitStep::Quiet));
    assert!(matches!(l.on_failure(), BlitStep::Quiet));
    assert!(matches!(l.on_failure(), BlitStep::Stop));
    assert_eq!(pause(40_000_000), Some(60_000_000));
    assert_eq!(pause(100_000_000), Some(0));
    assert_eq!(pause(100_000_001), None);
}

// ---- input ----

#[test]
fn only_presses_raise_a_window() {
    let sink = AxInput::new(HashMap::from([(5, 100)]));
    let (l, d, u) = (MouseButton::Left, MouseAction::Down, MouseAction::Up);
    assert!(matches!(
        sink.mouse(5, s(1.0), s(2.0), l, d),
        Ok(InputPlan::PostGlobal {
            raise_first: Some(100),
            event: PostedEvent::Click { event: ClickEvent::LeftMouseDown, .. }
        })
    ));
    assert!(matches!(
        sink.mouse(9, s(1.0), s(2.0), MouseButton::Right, u),
        Ok(InputPlan::PostGlobal {
            raise_first: None,
            event: PostedEvent::Click { event: ClickEvent::RightMouseUp, .. }
        })
    ));
    assert!(matches!(
        sink.mouse(9, s(1.0), s(2.0), l, d),
        Err(InputError::UnknownWindow { window_id: 9 })
    ));
    assert!(matches!(
        sink.mouse_move(9, s(1.0), s(2.0)),
        Ok(InputPlan::PostGlobal { raise_first: None, event: PostedEvent::MouseMoved { .. } })
    ));
    assert!(matches!(sink.key(9, 1, true, 0), Ok(InputPlan::PostGlobal { .. })));
    assert!(matches!(sink.focus(5), Ok(InputPlan::Raise { pid: 100 })));
    assert!(matches!(sink.focus(9), Err(InputError::UnknownWindow { window_id: 9 })));
    assert!(matches!(sink.close_window(5), Ok(InputPlan::CloseWindow { pid: 100 })));
    assert!(sink.resize_window(9, s(1.0), s(2.0)).is_err());
}

#[test]
fn targeted_input_goes_to_the_process() {
    let mut sink = PidInput::new(HashMap::new());
    assert_eq!(sink.pid(5), Err(InputError::UnknownWindow { window_id: 5 }));
    assert!(sink.key(5, 1, true, 0).is_err());
    assert!(matches!(sink.focus(5), Ok(InputPlan::Nothing)));
    sink.set_pid_map(HashMap::from([(5, 100)]));
    assert_eq!(sink.pid(5), Ok(100));
    assert!(matches!(
        sink.mouse(5, s(1.0), s(2.0), MouseButton::Right, MouseAction::Down),
        Ok(InputPlan::PostToPid {
            pid: 100,
            event: PostedEvent::Click { event: ClickEvent::RightMouseDown, .. }
        })
    ));
    assert!(matches!(
        sink.resize_window(5, s(3.0), s(4.0)),
        Ok(InputPlan::ResizeWindow { pid: 100, .. })
    ));
}

// ---- peers ----

#[test]
fn discarded_generation_is_not_delivered_to_next_renegotiation() {
    let mut host: PendingAnswers<std::sync::mpsc::Sender<String>> = PendingAnswers::new();
    let (tx1, rx1) = std::sync::mpsc::channel();
    let gen1 = host.push_pending_answer(tx1);
    host.discard_pending_answer(gen1);
    drop(rx1);

    let (tx2, rx2) = std::sync::mpsc::channel();
    let gen2 = host.push_pending_answer(tx2);
    assert_ne!(gen1, gen2);

    let (next_gen, next_tx) =
        host.take_pending_answer().expect("generation 2 must still be queued");
    assert_eq!(next_gen, gen2, "a discarded generation must not resurface");
    assert!(
        host.take_pending_answer().is_none(),
        "queue must be empty after taking the only entry"
    );

    let answer = "v=0\r\no=- 1 1 IN IP4 127.0.0.1\r\ns=-\r\nt=0 0\r\n".to_string();
    next_tx.send(answer.clone()).unwrap();
    let got = rx2.recv().unwrap();
    assert_eq!(got, answer);
}

#[test]
fn pending_answers_are_routed_fifo_by_generation() {
    let mut host: PendingAnswers<std::sync::mpsc::Sender<String>> = PendingAnswers::new();
    let (tx1, rx1) = std::sync::mpsc::channel();
    let gen1 = host.push_pending_answer(tx1);
    let (tx2, rx2) = std::sync::mpsc::channel();
    let gen2 = host.push_pending_answer(tx2);

    let (g, tx) = host.take_pending_answer().unwrap();
    assert_eq!(g, gen1);
    tx.send("a".to_string()).unwrap();
    rx1.recv().unwrap();

    let (g, tx) = host.take_pending_answer().unwrap();
    assert_eq!(g, gen2);
    tx.send("b".to_string()).unwrap();
    rx2.recv().unwrap();
}

#[test]
fn taking_from_an_empty_queue_returns_none() {
    let mut host: PendingAnswers<u8> = PendingAnswers::new();
    assert!(host.take_pending_answer().is_none());
}

#[test]
fn peers_keep_negotiation_to_themselves() {
    assert!(matches!(
        host_dispatch(ClientMessage::SdpAnswer { sdp: "a".into() }),
        HostDispatch::Answer { sdp } if sdp == "a"
    ));
    assert!(matches!(
        host_dispatch(ClientMessage::CloseRequest { window_id: 1 }),
        HostDispatch::Deliver { msg: ClientMessage::CloseRequest { window_id: 1 } }
    ));
    assert!(matches!(
        client_dispatch(HostMessage::SdpOffer { sdp: "o".into() }),
        ClientDispatch::Offer { sdp } if sdp == "o"
    ));
    assert!(matches!(
        client_dispatch(HostMessage::WindowClosed { window_id: 1 }),
        ClientDispatch::Deliver { .. }
    ));
    assert_eq!(track_key("".into(), "s".into()), "s");
    assert_eq!(track_key("t".into(), "s".into()), "t");
    for (state, gone) in [
        (PeerState::Unspecified, false),
        (PeerState::New, false),
        (PeerState::Connecting, false),
        (PeerState::Connected, false),
        (PeerState::Disconnected, true),
        (PeerState::Failed, true),
        (PeerState::Closed, true),
    ] {
        assert_eq!(is_disconnect(state), gone);
    }
    assert!(is_offer_request(true, "/offer"));
    assert!(!is_offer_request(false, "/offer"));
    assert!(!is_offer_request(true, "/"));
}

#[test]
fn descriptions_travel_as_json() {
    for (kind, word) in [
        (DescriptionKind::Unspecified, "Unspecified"),
        (DescriptionKind::Offer, "offer"),
        (DescriptionKind::Pranswer, "pranswer"),
        (DescriptionKind::Answer, "answer"),
        (DescriptionKind::Rollback, "rollback"),
    ] {
        let text = description_text(&Description { kind, sdp: "v=0\r\ns=-\r\n".into() });
        assert_eq!(text, format!("{{\"type\":\"{}\",\"sdp\":\"v=0\\r\\ns=-\\r\\n\"}}", word));
        let back = description_of(&text).unwrap();
        assert_eq!((back.kind, back.sdp.as_str()), (kind, "v=0\r\ns=-\r\n"));
    }
    let odd = "\u{0}\u{1f}\u{8}\t\u{c}\"\\/\u{7f}\u{e9}\u{1f600}";
    let text = description_text(&Description { kind: DescriptionKind::Offer, sdp: odd.into() });
    assert_eq!(
        text,
        "{\"type\":\"offer\",\"sdp\":\"\\u0000\\u001f\\b\\t\\f\\\"\\\\/\u{7f}\u{e9}\u{1f600}\"}"
    );
    assert_eq!(description_of(&text).unwrap().sdp, odd);
    let spaced = " { \"sdp\" : \"x\", \"more\" : 1, \"type\" : \"answer\" } ";
    let back = description_of(spaced).unwrap();
    assert_eq!((back.kind, back.sdp.as_str()), (DescriptionKind::Answer, "x"));
    for bad in [
        "",
        "x",
        "{}",
        "{\"type\":\"answer\"}",
        "{\"type\":\"reply\",\"sdp\":\"x\"}",
        "{\"type\":\"answer\",\"sdp\":\"x\"} y",
    ] {
        assert!(description_of(bad).is_none(), "{}", bad);
    }
}

#[test]
fn answers_reach_the_oldest_renegotiation() {
    let good = |sdp: &str| {
        description_text(&Description { kind: DescriptionKind::Answer, sdp: sdp.into() })
    };
    let mut host: PendingAnswers<u8> = PendingAnswers::new();
    assert!(!host.is_full());
    assert!(matches!(host.on_answer("nonsense"), AnswerStep::Malformed));
    assert!(matches!(host.on_answer(&good("early")), AnswerStep::NoneWaiting));
    host.push_pending_answer(7);
    host.push_pending_answer(8);
    // A malformed answer takes nobody's place.
    assert!(matches!(host.on_answer("{\"type\":\"answer\"}"), AnswerStep::Malformed));
    match host.on_answer(&good("first")) {
        AnswerStep::Deliver { to, answer } => {
            assert_eq!((to, answer.kind), (7, DescriptionKind::Answer));
            assert_eq!(answer.sdp, "first");
        }
        _ => panic!("the first renegotiation waits"),
    }
    host.push_pending_answer(9);
    for (text, who) in [("second", 8), ("third", 9)] {
        match host.on_answer(&good(text)) {
            AnswerStep::Deliver { to, answer } => {
                assert_eq!(to, who);
                assert_eq!(answer.sdp, text);
            }
            _ => panic!("a renegotiation waits"),
        }
    }
    assert!(matches!(host.on_answer(&good("late")), AnswerStep::NoneWaiting));
}

#[test]
fn signalling_takes_a_posted_offer() {
    let body = "{\"type\":\"offer\",\"sdp\":\"v=0\"}";
    match offer_of_request(true, "/offer", body) {
        OfferStep::Offer { offer } => {
            assert_eq!((offer.kind, offer.sdp.as_str()), (DescriptionKind::Offer, "v=0"));
        }
        _ => panic!("an offer was posted"),
    }
    assert!(matches!(offer_of_request(false, "/offer", body), OfferStep::NotFound));
    assert!(matches!(offer_of_request(true, "/offer/", body), OfferStep::NotFound));
    assert!(matches!(offer_of_request(true, "/offer", "v=0"), OfferStep::Malformed));
    assert!(matches!(offer_of_request(true, "/other", "v=0"), OfferStep::NotFound));
}

// ---- capture ----

fn raw(layer: Option<i64>, number: Option<i64>, w: f64) -> RawWindow {
    RawWindow {
        layer,
        number,
        owner_pid: Some(100),
        owner_name: Some("Mail".into()),
        name: None,
        bounds: Some(RawBounds {
            x: Some(s(1.0)),
            y: Some(s(2.0)),
            width: Some(s(w)),
            height: Some(s(60.0)),
        }),
    }
}

#[test]
fn only_real_windows_are_listed() {
    let listed = list_windows(vec![
        raw(Some(0), Some(5), 50.0),
        raw(Some(25), Some(6), 800.0),
        raw(None, Some(6), 800.0),
        raw(Some(0), None, 800.0),
        raw(Some(0), Some(7), 49.9),
        RawWindow { bounds: None, ..raw(Some(0), Some(8), 800.0) },
        raw(Some(0), Some((1 << 32) + 9), 800.0),
    ]);
    let ids: Vec<u32> = listed.iter().map(|e| e.info.id).collect();
    assert_eq!(ids, vec![5, 9]);
    assert_eq!((listed[0].pid, listed[0].app_name.as_str()), (100, "Mail"));
    assert_eq!(listed[0].info.title, "");
    let odd = entry_of(RawWindow { owner_pid: Some(-1), ..raw(Some(0), Some(-1), 80.0) }).unwrap();
    assert_eq!((odd.info.id, odd.pid), (u32::MAX, -1));
    assert_eq!(CgSnapshotSource.windows(Some(listed)).len(), 2);
    assert!(CgSnapshotSource.windows(None).is_empty());
}

#[test]
fn windows_are_grouped_by_application() {
    let of = |pid: i64, n: i64, title: &str| RawWindow {
        owner_pid: Some(pid),
        name: Some(title.into()),
        ..raw(Some(0), Some(n), 80.0)
    };
    let listed =
        list_windows(vec![of(7, 1, "a"), of(9, 2, "b"), of(7, 3, "c")]);
    let app = |pid, titles: &[&str]| AppEntry {
        pid,
        app_name: "Mail".into(),
        window_titles: titles.iter().map(|t| t.to_string()).collect(),
    };
    assert_eq!(list_apps(listed), vec![app(7, &["a", "c"]), app(9, &["b"])]);
    assert!(list_apps(vec![]).is_empty());
}

#[test]
fn snapshots_take_windows_on_screen_or_minimized() {
    let meta = |minimized| Some(AxWindowMeta { role: AxRole::Window, minimized });
    let w = snapshot_window(raw(Some(3), Some(5), 10.0), true, None).unwrap();
    assert_eq!((w.info.id, w.pid, w.layer, w.ax_role), (5, 100, 3, AxRole::Unknown));
    assert!(w.on_screen && !w.minimized);
    assert!(snapshot_window(raw(None, Some(5), 10.0), false, meta(false)).is_none());
    let w = snapshot_window(raw(None, Some(5), 10.0), false, meta(true)).unwrap();
    assert!(!w.on_screen && w.minimized);
    assert_eq!((w.layer, w.ax_role), (-1, AxRole::Window));
    assert!(snapshot_window(raw(Some(0), None, 10.0), true, None).is_none());
}

#[test]
fn sheets_are_found_among_the_children() {
    let windows = vec![
        AxWindow {
            id: Some(1),
            minimized: Some(true),
            children: vec![
                AxChild { is_sheet: true, id: Some(3) },
                AxChild { is_sheet: false, id: Some(4) },
                AxChild { is_sheet: true, id: None },
            ],
        },
        AxWindow { id: Some(2), minimized: None, children: vec![] },
        AxWindow { id: None, minimized: None, children: vec![AxChild { is_sheet: true, id: Some(5) }] },
    ];
    let meta = ax_meta_of(&windows);
    assert_eq!(meta.len(), 4);
    assert_eq!(meta[&1], AxWindowMeta { role: AxRole::Window, minimized: true });
    assert_eq!(meta[&2], AxWindowMeta { role: AxRole::Window, minimized: false });
    assert_eq!(meta[&3], AxWindowMeta { role: AxRole::Sheet, minimized: false });
    assert_eq!(meta[&5].role, AxRole::Sheet);
}

#[test]
fn application_identity_needs_a_name() {
    assert_eq!(identity_of(None, None), None);
    assert_eq!(identity_of(Some("".into()), Some(vec![1])), None);
    assert_eq!(
        identity_of(Some("Mail".into()), None),
        Some(AppIdentity { name: "Mail".into(), icon_png: vec![] })
    );
    let big = Some(vec![0; MAX_ICON_BYTES + 1]);
    let fits = Some(vec![1; MAX_ICON_BYTES]);
    assert_eq!(
        first_fitting_icon(vec![big.clone(), None, fits.clone(), Some(vec![2])]),
        fits
    );
    assert_eq!(first_fitting_icon(vec![big, None]), None);
}

#[test]
fn snapshots_lose_premultiplication_and_padding() {
    // Two rows of one pixel, six bytes apart.
    let src = [10, 20, 30, 128, 9, 9, 1, 2, 3, 255];
    let img = snapshot_image(&src, 1, 2, 6);
    assert_eq!(img.data, vec![59, 39, 19, 128, 3, 2, 1, 255]);
    let bright = snapshot_image(&[200, 0, 5, 100], 1, 1, 4);
    assert_eq!(bright.data, vec![12, 0, 255, 100]);
    let clear = snapshot_image(&[7, 8, 9, 0], 1, 1, 4);
    assert_eq!(clear.data, vec![9, 8, 7, 0]);
    let f = captured_frame(&src, 1, 2, 6, (1, 2)).unwrap();
    assert_eq!(f.data, vec![10, 20, 30, 128, 1, 2, 3, 255]);
    assert!(captured_frame(&src, 1, 2, 6, (2, 2)).is_none());
}

#[test]
fn capture_sizes_are_checked() {
    assert_eq!(check_capture_size(4, 2), Ok(()));
    assert_eq!(check_capture_size(0, 0), Ok(()));
    assert_eq!(
        check_capture_size(3, 2),
        Err(CaptureError::OddSize { width: 3, height: 2 })
    );
    assert_eq!(check_reconfigure(4, 2, true), Ok(()));
    assert_eq!(check_reconfigure(0, 2, true), Err(CaptureError::EmptySize));
    assert_eq!(check_reconfigure(4, 2, false), Err(CaptureError::NotStarted));
    assert_eq!(
        check_reconfigure(4, 5, false),
        Err(CaptureError::OddSize { width: 4, height: 5 })
    );
}

// ---- choosing applications ----

#[test]
fn process_lists_are_parsed_like_numbers() {
    for text in ["", "+", "-", "1", "+7", "-5", "007", "2147483647", "2147483648", "-2147483648",
        "-2147483649", "1_0", "٣", "99999999999999999999", "--1", "1 2"]
    {
        let ours = parse_pids(text).ok().map(|v| v[0]);
        assert_eq!(ours, text.parse::<i32>().ok(), "{:?}", text);
    }
    assert_eq!(parse_pids(" 12 ,\t34"), Ok(vec![12, 34]));
    assert_eq!(parse_pids("12,"), Err(ShareError::NotANumber));
}

#[test]
fn applications_are_chosen_by_index() {
    let apps = vec![100, 200, 300];
    assert_eq!(choose_apps(" 2, 0\n", &apps), Ok(vec![300, 100]));
    assert_eq!(choose_apps("+1", &apps), Ok(vec![200]));
    assert_eq!(choose_apps("", &apps), Err(ShareError::NotANumber));
    assert_eq!(choose_apps("-0", &apps), Err(ShareError::NotANumber));
    assert_eq!(choose_apps("1,3,x", &apps), Err(ShareError::OutOfRange { index: 3 }));
}
