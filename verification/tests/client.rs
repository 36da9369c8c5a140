use srw::app;
use srw::bundle::{bundle_slug, dir_stem, plan_bundle, plist_for, xml_escape, StubBundle};
use srw::coordinator::{
    exit_action, initial_icon_frame, replay_frames, AppState, CoordAction, CoordEvent, ExitAction,
    HelperManager, WindowReplay,
};
use srw::helper::{exit_status, on_decoded, on_down_frame, probe_ack, ReaderStep};
use srw::ipc::{
    read_down, read_frame, read_up, write_down, write_frame, write_up, DownFrame, FrameReader,
    IpcError, UpMessage, WireFrame, MAX_FRAME, TAG_ICON,
};
use srw::mapping::InputMapping;
use srw::mirror_app::{
    self, exit_code, ExitReason, HelperApp, HelperEvent, ProgressThrottle, EXIT_CODE_IDLE,
};
use srw::mirrors::{cg_flags, LocalButton, Modifiers, UiAction, WindowInput};
use srw::net::{DecodeErrorLog, Inbox, UiEvent};
use srw::paint::{paint_blank, paint_image, paint_video};
use srw::pixels::{BgraFrame, RgbaImage};
use srw::protocol::{ClientMessage, HostMessage, MouseAction, MouseButton, WindowKind};
use srw::router::VideoRouter;
use srw::scalar::Scalar;
use srw::text::white_space;
use std::time::Duration;

fn s(x: f64) -> Scalar {
    Scalar::from_bits(x.to_bits())
}

fn ns(d: Duration) -> u64 {
    d.as_nanos() as u64
}

fn window_opened(id: u32, app_id: u32, kind: WindowKind, track: Option<&str>) -> HostMessage {
    HostMessage::WindowOpened {
        window_id: id,
        title: format!("window {}", id),
        kind,
        parent_id: None,
        offset_x: s(0.0),
        offset_y: s(0.0),
        width: s(800.0),
        height: s(600.0),
        track_id: track.map(|t| t.to_string()),
        app_id,
    }
}

fn mapping_msg(id: u32, scale: f64) -> HostMessage {
    HostMessage::InputMapping {
        window_id: id,
        scale_x: s(scale),
        scale_y: s(scale),
        offset_x: s(-10.0),
        offset_y: s(0.0),
    }
}

// ---- coordinator ----

#[test]
fn exit_action_policy() {
    assert_eq!(exit_action(Some(0), false), ExitAction::Unsubscribe);
    assert_eq!(exit_action(Some(0), true), ExitAction::Unsubscribe);
    assert_eq!(exit_action(Some(EXIT_CODE_IDLE), false), ExitAction::Reap);
    assert_eq!(exit_action(Some(EXIT_CODE_IDLE), true), ExitAction::Reap);
    assert_eq!(exit_action(Some(101), false), ExitAction::Respawn);
    assert_eq!(exit_action(Some(101), true), ExitAction::GiveUp);
    assert_eq!(exit_action(None, false), ExitAction::Respawn);
    assert_eq!(exit_action(None, true), ExitAction::GiveUp);
}

fn app_state(name: &str, icon_png: Vec<u8>) -> AppState {
    AppState::new(
        1,
        name.into(),
        icon_png,
        StubBundle { dir: String::new(), exe: String::new() },
    )
}

fn replay(title: &str, w: f64, h: f64, track: &str) -> WindowReplay {
    WindowReplay {
        title: title.into(),
        kind: WindowKind::Normal,
        parent_id: None,
        offset_x: s(0.0),
        offset_y: s(0.0),
        width: s(w),
        height: s(h),
        track_id: Some(track.into()),
        minimized: false,
        mapping: None,
    }
}

#[test]
fn replay_reconstructs_windows_minimize_and_mapping() {
    let mut state = app_state("Safari", vec![0x89, b'P']);
    state.windows.insert(10, replay("Doc A", 800.0, 600.0, "win-10"));
    state.windows.insert(
        11,
        WindowReplay {
            minimized: true,
            mapping: Some(HostMessage::InputMapping {
                window_id: 11,
                scale_x: s(1.5),
                scale_y: s(1.5),
                offset_x: s(-10.0),
                offset_y: s(0.0),
            }),
            ..replay("Doc B", 400.0, 300.0, "win-11")
        },
    );
    let frames = replay_frames(&state);
    assert!(matches!(&frames[0], DownFrame::Icon(png) if png == &vec![0x89, b'P']));
    match &frames[1] {
        DownFrame::Control(HostMessage::WindowOpened {
            window_id: 10,
            title,
            width,
            height,
            track_id,
            app_id: _,
            ..
        }) => {
            assert_eq!(title, "Doc A");
            assert_eq!((*width, *height), (s(800.0), s(600.0)));
            assert_eq!(track_id.as_deref(), Some("win-10"));
        }
        other => panic!("frames[1] = {:?}", other),
    }
    assert!(matches!(
        &frames[2],
        DownFrame::Control(HostMessage::WindowOpened { window_id: 11, .. })
    ));
    assert!(matches!(
        &frames[3],
        DownFrame::Control(HostMessage::WindowMinimized { window_id: 11 })
    ));
    assert!(matches!(
        &frames[4],
        DownFrame::Control(HostMessage::InputMapping { window_id: 11, .. })
    ));
    assert_eq!(frames.len(), 5);
}

#[test]
fn replay_skips_icon_when_app_has_none() {
    let state = app_state("NoIcon", Vec::new());
    assert!(replay_frames(&state).is_empty());
}

#[test]
fn initial_icon_frame_only_when_icon_present() {
    let with_icon = app_state("Safari", vec![1u8, 2, 3]);
    match initial_icon_frame(&with_icon) {
        Some(DownFrame::Icon(png)) => assert_eq!(png, vec![1u8, 2, 3]),
        other => panic!("expected Some(Icon), got {:?}", other),
    }
    let without_icon = app_state("NoIcon", Vec::new());
    assert!(initial_icon_frame(&without_icon).is_none());
}

/// Announces an application and, where asked, brings its helper up.
fn announced(m: &mut HelperManager, app_id: u32, helper: Option<u64>) -> Vec<CoordAction> {
    let actions = m.on_host_message(HostMessage::AppAnnounced {
        app_id,
        name: "Safari".into(),
        icon_png: "AQID".into(),
    });
    assert_eq!(actions.len(), 1);
    for a in actions {
        match a {
            CoordAction::EnsureBundle { app_id: id, name, icon_png, plan } => {
                assert_eq!(id, app_id);
                assert_eq!(icon_png, vec![1, 2, 3]);
                let spawn = m.on_bundle_ready(id, name, icon_png, plan.bundle);
                assert!(matches!(&spawn[..], [CoordAction::Spawn { first: true, .. }]));
            }
            _ => panic!("expected EnsureBundle"),
        }
    }
    match helper {
        Some(h) => m.on_spawned(app_id, h, true),
        None => Vec::new(),
    }
}

#[test]
fn new_app_gets_a_bundle_a_helper_and_its_icon() {
    let mut m = HelperManager::new();
    let actions = announced(&mut m, 7, Some(1));
    assert_eq!(actions.len(), 1);
    assert!(matches!(&actions[0],
        CoordAction::Send { helper: 1, frame: DownFrame::Icon(png) } if png == &vec![1u8, 2, 3]));
    // A duplicate announcement is ignored.
    let again = m.on_host_message(HostMessage::AppAnnounced {
        app_id: 7,
        name: "Safari".into(),
        icon_png: String::new(),
    });
    assert!(again.is_empty());
    // An icon that is no base64 counts as none, and a second app of that name
    // gets a directory of its own.
    let other = m.on_host_message(HostMessage::AppAnnounced {
        app_id: 8,
        name: "Safari".into(),
        icon_png: "!".into(),
    });
    assert!(matches!(&other[..], [CoordAction::EnsureBundle { app_id: 8, icon_png, plan, .. }]
        if icon_png.is_empty() && plan.bundle.dir == "Safari 2.app"));
    let direct = m.on_announced(9, "Mail".into(), None);
    assert!(matches!(&direct[..], [CoordAction::EnsureBundle { app_id: 9, plan, .. }]
        if plan.bundle.dir == "Mail.app"));
}

#[test]
fn window_messages_reach_the_helper_of_their_app() {
    let mut m = HelperManager::new();
    announced(&mut m, 7, Some(1));
    // A mapping that comes early is kept and sent right after the window.
    assert!(m.on_host_message(mapping_msg(10, 1.5)).is_empty());
    let open = m.on_host_message(window_opened(10, 7, WindowKind::Normal, Some("win-10")));
    assert_eq!(open.len(), 3);
    assert!(matches!(&open[0], CoordAction::Send { helper: 1,
        frame: DownFrame::Control(HostMessage::WindowOpened { window_id: 10, .. }) }));
    assert!(matches!(&open[1], CoordAction::Send { helper: 1,
        frame: DownFrame::Control(HostMessage::InputMapping { window_id: 10, .. }) }));
    assert!(matches!(&open[2], CoordAction::SetRoute { track_id, helper: 1 } if track_id == "win-10"));
    for msg in [
        HostMessage::WindowResized { window_id: 10, width: s(1.0), height: s(2.0) },
        HostMessage::WindowTitleChanged { window_id: 10, title: "x".into() },
        HostMessage::WindowMinimized { window_id: 10 },
        HostMessage::WindowRestored { window_id: 10 },
        mapping_msg(10, 2.0),
    ] {
        let a = m.on_host_message(msg.clone());
        assert!(matches!(&a[..], [CoordAction::Send { helper: 1, frame: DownFrame::Control(got) }]
            if got == &msg));
    }
    // Unknown windows and applications are ignored.
    assert!(m.on_host_message(HostMessage::WindowRestored { window_id: 0 }).is_empty());
    assert!(m
        .on_host_message(window_opened(11, 99, WindowKind::Normal, Some("win-11")))
        .is_empty());
    assert!(m.on_host_message(HostMessage::SdpOffer { sdp: "x".into() }).is_empty());
    let closed = m.on_host_message(HostMessage::WindowClosed { window_id: 10 });
    assert_eq!(closed.len(), 2);
    assert!(matches!(&closed[0], CoordAction::ClearRoute { track_id } if track_id == "win-10"));
    assert!(matches!(&closed[1], CoordAction::Send { helper: 1,
        frame: DownFrame::Control(HostMessage::WindowClosed { window_id: 10 }) }));
    assert!(m.on_host_message(HostMessage::WindowMinimized { window_id: 10 }).is_empty());
}

#[test]
fn dormant_helper_is_revived_with_its_world() {
    let mut m = HelperManager::new();
    announced(&mut m, 7, Some(1));
    let reaped = m.on_helper_exited(7, Some(EXIT_CODE_IDLE));
    assert!(matches!(&reaped[..], [CoordAction::Release { helper: 1 }]));
    let open = m.on_host_message(window_opened(10, 7, WindowKind::Normal, Some("win-10")));
    assert!(matches!(&open[..], [CoordAction::Spawn { app_id: 7, first: false, exe }]
        if exe == "Safari.app/Contents/MacOS/Safari"));
    m.on_host_message(HostMessage::WindowMinimized { window_id: 10 });
    let up = m.on_spawned(7, 2, false);
    assert_eq!(up.len(), 5);
    assert!(matches!(&up[0], CoordAction::Send { helper: 2, frame: DownFrame::Icon(_) }));
    assert!(matches!(&up[1], CoordAction::Send { helper: 2,
        frame: DownFrame::Control(HostMessage::WindowOpened { window_id: 10, .. }) }));
    assert!(matches!(&up[2], CoordAction::Send { helper: 2,
        frame: DownFrame::Control(HostMessage::WindowMinimized { window_id: 10 }) }));
    assert!(matches!(&up[3], CoordAction::SetRoute { helper: 2, .. }));
    assert!(matches!(&up[4], CoordAction::ClearProgress { track_id } if track_id == "win-10"));
}

#[test]
fn crash_is_forgiven_once_then_given_up() {
    let mut m = HelperManager::new();
    announced(&mut m, 7, Some(1));
    m.on_host_message(window_opened(10, 7, WindowKind::Normal, Some("win-10")));
    let first = m.on_helper_exited(7, None);
    assert!(matches!(
        &first[..],
        [CoordAction::Release { helper: 1 }, CoordAction::Spawn { app_id: 7, first: false, .. }]
    ));
    m.on_spawned(7, 2, false);
    let second = m.on_helper_exited(7, Some(101));
    assert_eq!(second.len(), 3);
    assert!(matches!(&second[1], CoordAction::ClearRoute { track_id } if track_id == "win-10"));
    assert!(matches!(
        &second[2],
        CoordAction::ToHost { msg: ClientMessage::UnsubscribeApp { app_id: 7 } }
    ));
    // Nothing of it is heard again.
    assert!(m
        .on_host_message(window_opened(12, 7, WindowKind::Normal, Some("win-12")))
        .is_empty());
    assert!(m.on_helper_exited(99, None).is_empty());
}

#[test]
fn user_quit_unsubscribes_the_app() {
    let mut m = HelperManager::new();
    announced(&mut m, 7, Some(1));
    let a = m.on_helper_exited(7, Some(0));
    assert!(matches!(
        &a[..],
        [
            CoordAction::Release { helper: 1 },
            CoordAction::ToHost { msg: ClientMessage::UnsubscribeApp { app_id: 7 } }
        ]
    ));
}

#[test]
fn helper_reports_are_relayed_and_progress_is_checked() {
    let mut m = HelperManager::new();
    announced(&mut m, 7, Some(1));
    announced(&mut m, 8, Some(2));
    m.on_host_message(window_opened(10, 7, WindowKind::Normal, Some("win-10")));
    let relay = m.on_helper_up(
        7,
        UpMessage::Relay { msg: ClientMessage::FocusChange { window_id: 10 } },
    );
    assert!(matches!(
        &relay[..],
        [CoordAction::ToHost { msg: ClientMessage::FocusChange { window_id: 10 } }]
    ));
    let progress = |t: &str| UpMessage::DecodeProgress { track_id: t.into() };
    assert!(matches!(
        &m.on_helper_up(7, progress("win-10"))[..],
        [CoordAction::MarkProgress { .. }]
    ));
    assert!(m.on_helper_up(8, progress("win-10")).is_empty());
    assert!(m.on_helper_up(7, progress("win-99")).is_empty());
}

#[test]
fn lost_connection_releases_every_helper() {
    let mut m = HelperManager::new();
    announced(&mut m, 8, Some(2));
    announced(&mut m, 7, Some(1));
    let step = m.on_event(CoordEvent::Net(UiEvent::Disconnected));
    assert!(step.exit);
    assert!(matches!(
        &step.actions[..],
        [CoordAction::Release { helper: 1 }, CoordAction::Release { helper: 2 }]
    ));
    let step = m.on_event(CoordEvent::HelperExited { app_id: 7, code: Some(0) });
    assert!(!step.exit);
    assert_eq!(step.actions.len(), 1);
}

/// Hands the frames of `helper` among some actions to a helper's windows.
fn feed(h: &mut HelperApp, actions: Vec<CoordAction>, helper: u64, next: &mut u64) {
    for a in actions {
        if let CoordAction::Send { helper: to, frame } = a {
            assert_eq!(to, helper);
            if let ReaderStep::Tell { ev } = on_down_frame(frame) {
                for ui in h.on_event(ev) {
                    if let UiAction::CreateWindow { announcement, .. } = ui {
                        *next += 1;
                        h.on_window_created(announcement, *next, 0);
                    }
                }
            }
        }
    }
}

#[test]
fn helper_shows_what_the_coordinator_has_on_record() {
    let mut m = HelperManager::new();
    announced(&mut m, 7, Some(1));
    let (mut h, mut next) = (HelperApp::new(), 100);
    for msg in [
        mapping_msg(10, 1.5),
        window_opened(10, 7, WindowKind::Normal, Some("win-10")),
        window_opened(11, 7, WindowKind::Normal, Some("win-11")),
        HostMessage::WindowMinimized { window_id: 11 },
        HostMessage::WindowTitleChanged { window_id: 10, title: "renamed".into() },
        HostMessage::WindowClosed { window_id: 99 },
    ] {
        let actions = m.on_host_message(msg);
        feed(&mut h, actions, 1, &mut next);
    }
    let check = |h: &HelperApp, first: u64, second: u64| {
        let (a, b) = (h.mirror(first).unwrap(), h.mirror(second).unwrap());
        assert_eq!((a.remote_id, a.base_title.as_str(), a.minimized), (10, "renamed", false));
        assert_eq!(a.mapping.scale_x, s(1.5));
        assert_eq!((b.remote_id, b.base_title.as_str(), b.minimized), (11, "window 11", true));
        assert_eq!(b.mapping, InputMapping::identity());
    };
    check(&h, 101, 102);
    // The helper crashes, and a fresh one is told the same world.
    m.on_helper_exited(7, Some(101));
    let (mut fresh, mut next) = (HelperApp::new(), 200);
    let actions = m.on_spawned(7, 2, false);
    feed(&mut fresh, actions, 2, &mut next);
    check(&fresh, 201, 202);
    assert_eq!(fresh.mirror(201).unwrap().last_host_size, (s(800.0), s(600.0)));
    // Closing undoes opening.
    let before = m.on_helper_up(7, UpMessage::DecodeProgress { track_id: "win-12".into() });
    assert!(before.is_empty());
    m.on_host_message(window_opened(12, 7, WindowKind::Normal, Some("win-12")));
    m.on_host_message(HostMessage::WindowClosed { window_id: 12 });
    let after = m.on_helper_up(7, UpMessage::DecodeProgress { track_id: "win-12".into() });
    assert!(after.is_empty());
    assert!(m.on_host_message(HostMessage::WindowRestored { window_id: 12 }).is_empty());
}

// ---- ipc ----

fn roundtrip_down(f: WireFrame) -> WireFrame {
    let mut buf = Vec::new();
    write_down(&mut buf, &f).unwrap();
    let mut pos = 0;
    let back = read_down(&buf, &mut pos).unwrap().unwrap();
    assert_eq!(pos, buf.len());
    back
}

#[test]
fn control_frame_roundtrips() {
    let json = br#"{"type":"WindowMinimized","window_id":9}"#.to_vec();
    let f = WireFrame::Control(json.clone());
    assert_eq!(roundtrip_down(f), WireFrame::Control(json));
}

#[test]
fn video_frame_roundtrips_binary_payload() {
    let make = || WireFrame::Video {
        track_id: "win-42".into(),
        au: vec![0, 0, 0, 1, 0x65, 0xFF, 0x00, 0x88],
    };
    assert_eq!(roundtrip_down(make()), make());
}

#[test]
fn icon_frame_roundtrips() {
    let make = || WireFrame::Icon(vec![0x89, b'P', b'N', b'G']);
    assert_eq!(roundtrip_down(make()), make());
}

#[test]
fn up_messages_roundtrip() {
    for m in [
        &br#"{"type":"Relay","msg":{"type":"FocusChange","window_id":7}}"#[..],
        &br#"{"type":"DecodeProgress","track_id":"win-7"}"#[..],
    ] {
        let mut buf = Vec::new();
        write_up(&mut buf, m).unwrap();
        let mut pos = 0;
        assert_eq!(read_up(&buf, &mut pos).unwrap().unwrap(), m);
    }
}

#[test]
fn several_frames_stream_in_order() {
    let mut buf = Vec::new();
    write_down(&mut buf, &WireFrame::Icon(vec![1, 2, 3])).unwrap();
    write_down(&mut buf, &WireFrame::Video { track_id: "t".into(), au: vec![9] }).unwrap();
    write_down(
        &mut buf,
        &WireFrame::Control(br#"{"type":"WindowRestored","window_id":1}"#.to_vec()),
    )
    .unwrap();
    let mut pos = 0;
    assert!(matches!(read_down(&buf, &mut pos).unwrap().unwrap(), WireFrame::Icon(_)));
    assert!(matches!(read_down(&buf, &mut pos).unwrap().unwrap(), WireFrame::Video { .. }));
    assert!(matches!(read_down(&buf, &mut pos).unwrap().unwrap(), WireFrame::Control(_)));
    assert!(read_down(&buf, &mut pos).unwrap().is_none(), "clean EOF -> None");
}

#[test]
fn truncated_frame_is_an_error_not_eof() {
    let mut buf = Vec::new();
    write_down(&mut buf, &WireFrame::Icon(vec![1, 2, 3, 4])).unwrap();
    buf.truncate(buf.len() - 2);
    assert_eq!(read_down(&buf, &mut 0), Err(IpcError::TruncatedBody));
}

#[test]
fn oversized_length_is_rejected() {
    let mut buf = (MAX_FRAME + 1).to_le_bytes().to_vec();
    buf.push(0);
    assert_eq!(read_down(&buf, &mut 0), Err(IpcError::BadLength { len: MAX_FRAME + 1 }));
    assert_eq!(read_down(&[0, 0, 0, 0], &mut 0), Err(IpcError::BadLength { len: 0 }));
}

#[test]
fn eof_inside_length_header_is_an_error() {
    let mut buf = Vec::new();
    write_down(&mut buf, &WireFrame::Icon(vec![1, 2, 3])).unwrap();
    buf.push(0xAB);
    buf.push(0xCD);
    let mut pos = 0;
    assert!(matches!(read_down(&buf, &mut pos).unwrap().unwrap(), WireFrame::Icon(_)));
    assert_eq!(read_down(&buf, &mut pos), Err(IpcError::TruncatedHeader { filled: 2 }));
}

#[test]
fn frame_layout_is_length_tag_payload() {
    let mut buf = vec![9];
    write_frame(&mut buf, 2, &[7, 8]).unwrap();
    assert_eq!(buf, vec![9, 3, 0, 0, 0, 2, 7, 8]);
    let mut pos = 1;
    assert_eq!(read_frame(&buf, &mut pos), Ok(Some((TAG_ICON, vec![7, 8]))));
    let mut video = Vec::new();
    write_down(&mut video, &WireFrame::Video { track_id: "é".into(), au: vec![5] }).unwrap();
    assert_eq!(video, vec![6, 0, 0, 0, 1, 2, 0, 0xC3, 0xA9, 5]);
}

#[test]
fn malformed_frames_have_their_errors() {
    let framed = |tag: u8, payload: &[u8]| {
        let mut b = Vec::new();
        write_frame(&mut b, tag, payload).unwrap();
        b
    };
    assert_eq!(read_down(&framed(9, &[]), &mut 0), Err(IpcError::UnknownTag { tag: 9 }));
    assert_eq!(read_down(&framed(1, &[1]), &mut 0), Err(IpcError::VideoTooShort));
    assert_eq!(read_down(&framed(1, &[3, 0, 65]), &mut 0), Err(IpcError::TrackIdTruncated));
    assert_eq!(read_down(&framed(1, &[1, 0, 0xFF]), &mut 0), Err(IpcError::TrackIdNotUtf8));
    assert_eq!(read_up(&framed(2, &[1]), &mut 0), Err(IpcError::UnexpectedTag { tag: 2 }));
    let mut out = vec![1];
    let huge = vec![0u8; MAX_FRAME as usize];
    assert_eq!(write_up(&mut out, &huge), Err(IpcError::FrameTooLarge));
    let long = WireFrame::Video { track_id: "x".repeat(65536), au: vec![] };
    assert_eq!(write_down(&mut out, &long), Err(IpcError::TrackIdTooLong));
    assert_eq!(out, vec![1], "nothing is written of a refused frame");
}

#[test]
fn reader_cuts_the_stream_where_the_frames_end() {
    let mut buf = Vec::new();
    write_frame(&mut buf, 2, &[1, 2, 3]).unwrap();
    write_frame(&mut buf, 0, &[]).unwrap();
    for step in 1..4usize {
        let mut reader = FrameReader::new();
        let mut got = Vec::new();
        let mut at = 0;
        while at < buf.len() {
            let n = step.min(reader.want()).min(buf.len() - at);
            if let Some(f) = reader.accept(&buf[at..at + n]).unwrap() {
                got.push(f);
            }
            at += n;
        }
        assert_eq!(got, vec![(2, vec![1, 2, 3]), (0, vec![])]);
        assert_eq!(reader.finish(), Ok(()));
    }
    let mut reader = FrameReader::new();
    assert_eq!(reader.accept(&[1, 0]), Ok(None));
    assert_eq!(reader.finish(), Err(IpcError::TruncatedHeader { filled: 2 }));
    assert_eq!(reader.accept(&[0, 0]), Ok(None));
    assert_eq!(reader.finish(), Err(IpcError::TruncatedBody));
    let mut reader = FrameReader::new();
    assert_eq!(reader.accept(&[0, 0, 0, 0]), Err(IpcError::BadLength { len: 0 }));
}

// ---- router ----

#[test]
fn unrouted_aus_are_dropped() {
    let r: VideoRouter<std::sync::mpsc::Sender<DownFrame>> = VideoRouter::new();
    assert!(r.forward("win-1", vec![1, 2, 3]).is_none());
}

#[test]
fn routed_aus_reach_the_helper_channel() {
    let mut r = VideoRouter::new();
    let (tx, rx) = std::sync::mpsc::channel();
    r.set_route("win-1", tx);
    let (to, frame) = r.forward("win-1", vec![7]).unwrap();
    assert!(to.send(frame).is_ok());
    match rx.try_recv().unwrap() {
        DownFrame::Video { track_id, au } => {
            assert_eq!(track_id, "win-1");
            assert_eq!(au, vec![7]);
        }
        other => panic!("unexpected {:?}", other),
    }
    r.clear_route("win-1");
    assert!(r.forward("win-1", vec![8]).is_none());
}

#[test]
fn forward_to_a_dead_helper_reports_unrouted() {
    let mut r = VideoRouter::new();
    let (tx, rx) = std::sync::mpsc::channel();
    r.set_route("win-1", tx);
    drop(rx);
    let (to, frame) = r.forward("win-1", vec![7]).unwrap();
    assert!(to.send(frame).is_err());
}

#[test]
fn stall_state_tracks_progress() {
    let mut r: VideoRouter<u64> = VideoRouter::new();
    let now = 5_000_000_000;
    assert!(r.stalled("win-1", now));
    r.mark_progress("win-1", now);
    assert!(!r.stalled("win-1", now));
    assert!(!r.stalled("win-1", now + ns(Duration::from_millis(1200))));
    assert!(r.stalled("win-1", now + ns(Duration::from_millis(1200)) + 1));
    r.clear_progress("win-1");
    assert!(r.stalled("win-1", now), "cleared progress re-arms the PLI loop");
    r.set_route("win-1", 3);
    r.mark_progress("win-1", now);
    r.clear_route("win-1");
    assert!(r.stalled("win-1", now), "a closed track starts afresh");
}

// ---- helper ----

fn mods(shift: bool, control: bool, alt: bool, command: bool) -> Modifiers {
    Modifiers { shift, control, alt, command }
}

#[test]
fn app_modifier_bits_map_to_cg_masks() {
    assert_eq!(cg_flags(Modifiers::none()), 0);
    assert_eq!(cg_flags(mods(true, false, false, false)), 0x0002_0000);
    assert_eq!(cg_flags(mods(true, false, false, true)), 0x0012_0000);
    assert_eq!(cg_flags(mods(false, true, true, false)), 0x000C_0000);
}

#[test]
fn mirror_app_modifier_bits_map_to_cg_masks() {
    assert_eq!(cg_flags(mods(false, false, false, false)), 0);
    assert_eq!(cg_flags(mods(true, false, false, false)), 0x0002_0000);
    assert_eq!(cg_flags(mods(true, false, false, true)), 0x0012_0000);
    assert_eq!(cg_flags(mods(false, true, true, false)), 0x000C_0000);
}

#[test]
fn exit_codes_distinguish_user_quit_from_idle() {
    assert_eq!(exit_code(ExitReason::UserQuit), 0);
    assert_eq!(exit_code(ExitReason::Idle), EXIT_CODE_IDLE);
    assert_eq!(exit_code(ExitReason::Eof), 0);
    assert_eq!(EXIT_CODE_IDLE, 42);
}

#[test]
fn progress_throttle_limits_per_track_rate() {
    let mut t = ProgressThrottle::new();
    let t0 = 1_000;
    assert!(t.allow("a", t0), "first report always passes");
    assert!(!t.allow("a", t0 + ns(Duration::from_millis(100))));
    assert!(t.allow("b", t0), "tracks are independent");
    assert!(t.allow("a", t0 + ns(Duration::from_millis(300))));
    assert!(!t.allow("a", t0 + ns(Duration::from_millis(400))));
    assert!(!t.allow("a", 0), "a time before the last report is no time at all");
    let mut t = ProgressThrottle::default();
    assert!(t.allow("a", 0));
    assert!(!t.allow("a", ns(Duration::from_millis(250)) - 1));
    assert!(t.allow("a", ns(Duration::from_millis(250))));
}

fn frame(tag: u8) -> BgraFrame {
    BgraFrame { width: 2, height: 2, data: vec![tag; 16] }
}

/// Opens a window in a helper as local window `w`.
fn helper_opens(h: &mut HelperApp, id: u32, w: u64) {
    let track = format!("win-{}", id);
    let actions =
        h.on_event(HelperEvent::Host(window_opened(id, 7, WindowKind::Normal, Some(&track))));
    assert_eq!(actions.len(), 1);
    for a in actions {
        match a {
            UiAction::CreateWindow { attributes, announcement } => {
                assert!(attributes.resizable && attributes.decorated);
                assert_eq!(attributes.title, format!("window {}", id));
                let redraw = h.on_window_created(announcement, w, 0);
                assert!(matches!(&redraw[..], [UiAction::RequestRedraw { window }] if *window == w));
            }
            _ => panic!("expected CreateWindow"),
        }
    }
}

#[test]
fn helper_mirrors_a_window_and_idles_when_it_closes() {
    let mut h = HelperApp::new();
    assert!(h.on_event(HelperEvent::Host(HostMessage::WindowClosed { window_id: 5 })).is_empty());
    h.on_event(HelperEvent::Host(mapping_msg(1, 1.6)));
    h.on_event(HelperEvent::Frame { track_id: "win-1".into(), frame: frame(3) });
    helper_opens(&mut h, 1, 100);
    let m = h.mirror(100).unwrap();
    assert_eq!(m.mapping.scale_x, s(1.6));
    assert!(matches!(&m.content, mirror_app::MirrorContent::Video(f) if f.data[0] == 3));
    assert!(h
        .on_event(HelperEvent::Host(window_opened(1, 7, WindowKind::Normal, Some("win-1"))))
        .is_empty());
    let a = h.on_event(HelperEvent::Frame { track_id: "win-1".into(), frame: frame(4) });
    assert!(matches!(&a[..], [UiAction::RequestRedraw { window: 100 }]));
    let a = h.on_event(HelperEvent::Host(HostMessage::WindowMinimized { window_id: 1 }));
    assert!(matches!(&a[..], [UiAction::SetTitle { window: 100, title }]
        if title == "window 1 (minimized)"));
    let a = h.on_event(HelperEvent::Host(HostMessage::WindowTitleChanged {
        window_id: 1,
        title: "b".into(),
    }));
    assert!(matches!(&a[..], [UiAction::SetTitle { title, .. }] if title == "b (minimized)"));
    let a = h.on_event(HelperEvent::Host(HostMessage::WindowRestored { window_id: 1 }));
    assert!(matches!(&a[..], [UiAction::SetTitle { title, .. }] if title == "b"));
    assert!(h
        .on_event(HelperEvent::Host(HostMessage::WindowRestored { window_id: 1 }))
        .is_empty());
    let a = h.on_event(HelperEvent::Host(HostMessage::WindowResized {
        window_id: 1,
        width: s(5.0),
        height: s(6.0),
    }));
    assert!(matches!(&a[..], [UiAction::RequestInnerSize { window: 100, .. }]));
    assert_eq!(h.mirror(100).unwrap().last_host_size, (s(5.0), s(6.0)));
    assert_eq!(h.exit_reason(), None);
    let a = h.on_event(HelperEvent::Host(HostMessage::WindowClosed { window_id: 1 }));
    assert!(matches!(&a[..], [UiAction::DropWindow { window: 100 }, UiAction::Exit]));
    assert_eq!(h.exit_reason(), Some(ExitReason::Idle));
    assert!(h.mirror(100).is_none());
}

#[test]
fn helper_relays_input() {
    let mut h = HelperApp::new();
    helper_opens(&mut h, 1, 100);
    let key = |down, is_q, code| WindowInput::KeyboardInput { down, is_q, code };
    let p = (s(3.0), s(4.0));
    assert!(h.window_event(9, WindowInput::CloseRequested).is_empty());
    let a = h.window_event(100, key(true, false, Some(65536 + 12)));
    assert!(matches!(
        &a[..],
        [UiAction::Send {
            msg: ClientMessage::KeyEvent { window_id: 1, key_code: 12, down: true, flags: 0 }
        }]
    ));
    assert!(h.window_event(100, key(true, false, None)).is_empty());
    let moved = |now| WindowInput::CursorMoved { position: p, point: p, now };
    assert!(h.window_event(100, moved(15_999_999)).is_empty());
    assert_eq!(h.window_event(100, moved(16_000_000)).len(), 1);
    assert!(h.window_event(100, moved(20_000_000)).is_empty());
    assert_eq!(h.mirror(100).unwrap().cursor, p);
    let click = |button| WindowInput::MouseInput { pressed: true, button, point: p };
    assert!(matches!(
        &h.window_event(100, click(LocalButton::Right))[..],
        [UiAction::Send {
            msg: ClientMessage::MouseInput {
                button: MouseButton::Right,
                action: MouseAction::Down,
                ..
            }
        }]
    ));
    assert!(h.window_event(100, click(LocalButton::Other)).is_empty());
    assert!(h.window_event(100, WindowInput::Focused { gained: false }).is_empty());
    assert_eq!(h.window_event(100, WindowInput::Focused { gained: true }).len(), 1);
    let size = (s(640.0), s(480.0));
    assert_eq!(h.window_event(100, WindowInput::Resized { size, far: false }).len(), 1);
    assert_eq!(h.window_event(100, WindowInput::Resized { size, far: true }).len(), 2);
    assert_eq!(h.mirror(100).unwrap().last_host_size, size);
    assert_eq!(h.window_event(100, WindowInput::ScaleFactorChanged).len(), 1);
    assert!(h.window_event(100, WindowInput::Other).is_empty());
    assert!(matches!(
        &h.window_event(100, WindowInput::RedrawRequested)[..],
        [UiAction::Redraw { window: 100 }]
    ));
    h.window_event(100, WindowInput::ModifiersChanged { modifiers: mods(false, false, false, true) });
    let a = h.window_event(100, key(false, true, Some(12)));
    assert!(matches!(
        &a[..],
        [UiAction::Send { msg: ClientMessage::KeyEvent { flags: 0x0010_0000, .. } }]
    ));
    assert!(matches!(&h.window_event(100, key(true, true, Some(12)))[..], [UiAction::Exit]));
    assert_eq!(h.exit_reason(), Some(ExitReason::UserQuit));
}

#[test]
fn helper_icon_and_end_of_stream() {
    let mut h = HelperApp::new();
    assert!(matches!(&h.on_resumed()[..], [UiAction::DefaultIcon]));
    assert!(h.on_resumed().is_empty());
    assert!(matches!(&h.on_event(HelperEvent::Icon(vec![1]))[..],
        [UiAction::BadgeIcon { png }] if png == &vec![1u8]));
    let mut h = HelperApp::new();
    h.on_event(HelperEvent::Icon(vec![1]));
    assert!(h.on_resumed().is_empty(), "the host's icon is not replaced");
    assert!(matches!(&h.on_event(HelperEvent::Eof)[..], [UiAction::Exit]));
    assert_eq!(h.exit_reason(), Some(ExitReason::Eof));
}

#[test]
fn helper_reader_tells_and_decodes() {
    let step = on_down_frame(DownFrame::Video { track_id: "t".into(), au: vec![1] });
    assert!(matches!(step, ReaderStep::Decode { .. }));
    let step = on_down_frame(DownFrame::Icon(vec![1]));
    assert!(matches!(step, ReaderStep::Tell { ev: HelperEvent::Icon(_) }));
    let open = DownFrame::Control(window_opened(4, 7, WindowKind::Normal, None));
    assert_eq!(
        probe_ack(&open),
        Some(UpMessage::Relay { msg: ClientMessage::FocusChange { window_id: 4 } })
    );
    assert_eq!(probe_ack(&DownFrame::Icon(vec![])), None);
    assert!(matches!(on_down_frame(open), ReaderStep::Tell { ev: HelperEvent::Host(_) }));
    let mut throttle = ProgressThrottle::new();
    let (up, ev) = on_decoded(&mut throttle, "t".into(), frame(1), 7);
    assert_eq!(up, Some(UpMessage::DecodeProgress { track_id: "t".into() }));
    assert!(matches!(ev, HelperEvent::Frame { .. }));
    assert_eq!(on_decoded(&mut throttle, "t".into(), frame(1), 8).0, None);
    assert_eq!(exit_status(None), 0);
    assert_eq!(exit_status(Some(ExitReason::Idle)), 42);
    assert_eq!(exit_status(Some(ExitReason::Eof)), 0);
}

// ---- single-process client ----

fn app_creates(a: &mut app::App, actions: Vec<UiAction>, w: u64) -> (bool, bool) {
    assert_eq!(actions.len(), 1);
    let mut seen = (false, false);
    for action in actions {
        match action {
            UiAction::CreateWindow { attributes, announcement } => {
                seen = (attributes.always_on_top, attributes.transparent);
                a.on_window_created(announcement, w, 0);
            }
            _ => panic!("expected CreateWindow"),
        }
    }
    seen
}

#[test]
fn client_pairs_announcement_and_track() {
    let mut a = app::App::new();
    let open = window_opened(1, 7, WindowKind::Normal, Some("win-1"));
    assert!(a.on_event(UiEvent::Host(open)).is_empty());
    a.on_event(UiEvent::TrackFrame { track_id: "win-1".into(), frame: frame(9) });
    let actions = a.on_event(UiEvent::TrackOpened { track_id: "win-1".into() });
    assert_eq!(app_creates(&mut a, actions, 50), (false, false));
    assert!(matches!(&a.mirror(50).unwrap().content, app::MirrorContent::Video(f) if f.data[0] == 9));
    assert_eq!(a.mirror(50).unwrap().mapping, InputMapping::identity());
    // A sheet stands where its parent's mirror says.
    let mut sheet = window_opened(2, 7, WindowKind::Sheet, Some("win-2"));
    if let HostMessage::WindowOpened { parent_id, offset_x, .. } = &mut sheet {
        *parent_id = Some(1);
        *offset_x = s(15.0);
    }
    assert!(a.on_event(UiEvent::TrackOpened { track_id: "win-2".into() }).is_empty());
    let actions = a.on_event(UiEvent::Host(sheet));
    match &actions[..] {
        [UiAction::CreateWindow { attributes, .. }] => {
            assert_eq!(attributes.placement, Some((50, s(15.0), s(0.0))));
            assert!(!attributes.resizable && !attributes.decorated);
        }
        _ => panic!("expected CreateWindow"),
    }
}

#[test]
fn client_shows_transients_and_drops_stragglers() {
    let mut a = app::App::new();
    let menu = window_opened(3, 7, WindowKind::Transient, None);
    let actions = a.on_event(UiEvent::Host(menu));
    assert_eq!(app_creates(&mut a, actions, 60), (true, true));
    let img = RgbaImage { width: 1, height: 1, data: vec![1, 2, 3, 4] };
    let png = srw::image::encode_png(&img).unwrap();
    let act = a.on_event(UiEvent::Blit { window_id: 3, png: png.clone() });
    assert!(matches!(&act[..], [UiAction::RequestRedraw { window: 60 }]));
    assert!(matches!(&a.mirror(60).unwrap().content, app::MirrorContent::Image(i) if i == &img));
    assert!(a.on_event(UiEvent::Blit { window_id: 3, png: vec![1] }).is_empty());
    assert!(a.on_event(UiEvent::Blit { window_id: 4, png }).is_empty());
    assert!(a.on_blit(3, None).is_empty());
    assert_eq!(a.on_blit(3, Some(RgbaImage { width: 0, height: 0, data: vec![] })).len(), 1);
    assert!(a.redraw(60, 2, 2).is_none());
    // A transient gets no focus and no resizes.
    assert!(a.window_event(60, WindowInput::Focused { gained: true }).is_empty());
    let size = (s(1.0), s(1.0));
    assert!(a.window_event(60, WindowInput::Resized { size, far: true }).is_empty());
    assert!(matches!(
        &a.on_event(UiEvent::Host(HostMessage::WindowClosed { window_id: 3 }))[..],
        [UiAction::DropWindow { window: 60 }]
    ));
    assert!(!a.disconnected());
    assert!(matches!(
        &a.on_event(UiEvent::Disconnected)[..],
        [UiAction::DropAllWindows, UiAction::Exit]
    ));
    assert!(a.disconnected());
}

#[test]
fn closed_window_leaves_no_early_frames_behind() {
    let mut a = app::App::new();
    a.on_event(UiEvent::Host(window_opened(1, 7, WindowKind::Normal, Some("win-1"))));
    let actions = a.on_event(UiEvent::TrackOpened { track_id: "win-1".into() });
    app_creates(&mut a, actions, 50);
    a.on_event(UiEvent::Host(HostMessage::WindowClosed { window_id: 1 }));
    a.on_event(UiEvent::Host(window_opened(1, 7, WindowKind::Normal, Some("win-1"))));
    let actions = a.on_event(UiEvent::TrackOpened { track_id: "win-1".into() });
    app_creates(&mut a, actions, 51);
    assert!(matches!(a.mirror(51).unwrap().content, app::MirrorContent::Blank));
    assert_eq!(a.redraw(51, 1, 2), Some(vec![0xFF20_2020; 2]));
    assert_eq!(a.redraw(51, 0, 2), None);
    assert_eq!(a.redraw(52, 1, 1), None);
}

#[test]
fn painting_scales_to_the_nearest_pixel() {
    let mut f = frame(0);
    for (i, px) in f.data.chunks_mut(4).enumerate() {
        px.copy_from_slice(&[i as u8, 10, 20, 255]);
    }
    let pixel = |i: u32| 20 * 65536 + 10 * 256 + i;
    assert_eq!(
        paint_video(&f, 4, 1),
        Some(vec![pixel(0), pixel(0), pixel(1), pixel(1)])
    );
    assert_eq!(
        paint_video(&f, 2, 2),
        Some(vec![pixel(0), pixel(1), pixel(2), pixel(3)])
    );
    let empty = BgraFrame { width: 0, height: 2, data: vec![] };
    assert_eq!(paint_video(&empty, 2, 2), None);
    let img = RgbaImage { width: 1, height: 1, data: vec![200, 100, 50, 128] };
    assert_eq!(paint_image(&img, 1, 1), Some(vec![0x80_64_32_19]));
    assert_eq!(paint_blank(2, 1), vec![0xFF20_2020, 0xFF20_2020]);
}

// ---- connection ----

#[test]
fn inbox_holds_chunks_back_until_the_image_is_whole() {
    let mut inbox = Inbox::new();
    let payload = vec![5u8; 20_000];
    let msgs = srw::blit::chunk_blit(3, 9, &payload);
    assert!(inbox.on_host_message(msgs[0].clone()).is_none());
    match inbox.on_host_message(msgs[1].clone()) {
        Some(UiEvent::Blit { window_id: 3, png }) => assert_eq!(png, payload),
        _ => panic!("expected the image"),
    }
    // The closed window's recycled id starts afresh.
    assert!(matches!(
        inbox.on_host_message(HostMessage::WindowClosed { window_id: 3 }),
        Some(UiEvent::Host(_))
    ));
    let again = srw::blit::chunk_blit(3, 1, b"x");
    assert!(matches!(
        inbox.on_host_message(again[0].clone()),
        Some(UiEvent::Blit { window_id: 3, .. })
    ));
}

#[test]
fn decode_errors_are_reported_once_a_second() {
    let mut log = DecodeErrorLog::new();
    assert!(log.has_room(5));
    assert_eq!(log.on_error(5), Some(0));
    assert!(log.has_room(6));
    assert_eq!(log.on_error(6), None);
    assert_eq!(log.on_error(1_000_000_004), None);
    assert_eq!(log.on_error(1_000_000_005), Some(2));
    assert_eq!(log.on_error(1_000_000_006), None);
}

// ---- bundles ----

#[test]
fn white_space_is_the_unicode_property() {
    for c in '\0'..=char::MAX {
        assert_eq!(white_space(c), c.is_whitespace(), "{:?}", c);
    }
}

#[test]
fn bundle_has_plist_and_executable() {
    let b = plan_bundle("Safari", &vec![]);
    assert_eq!(b.bundle.dir, "Safari.app");
    assert_eq!(b.bundle.exe, "Safari.app/Contents/MacOS/Safari");
    assert!(b.plist.contains("<string>Safari</string>"), "CFBundleName");
    assert!(b.plist.contains("io.shebbak.mirror.safari"), "namespaced id");
    assert!(!b.plist.contains("LSUIElement"), "must be a regular Dock app");
    assert_eq!(b.plist, plist_for("Safari", "Safari"));
}

#[test]
fn taken_bundle_directories_are_numbered_past() {
    let mut taken = vec!["Safari.app".to_string()];
    let second = plan_bundle("Safari", &taken);
    assert_eq!(second.bundle.dir, "Safari 2.app");
    assert_eq!(second.bundle.exe, "Safari 2.app/Contents/MacOS/Safari 2");
    assert!(second.plist.contains("<key>CFBundleName</key>\n\t<string>Safari</string>"));
    assert!(second.plist.contains("io.shebbak.mirror.safari-2"));
    for n in 2..=10 {
        taken.push(format!("Safari {}.app", n));
    }
    assert_eq!(plan_bundle("Safari", &taken).bundle.dir, "Safari 11.app");
}

#[test]
fn hostile_bundle_names_are_made_safe() {
    let b = plan_bundle("My/App: Weird", &vec![]);
    assert_eq!(b.bundle.dir, "My-App- Weird.app");
    assert!(b.plist.contains("io.shebbak.mirror.my-app-weird"));
    assert_eq!(dir_stem(" \u{3000}a b\t"), "a b");
    assert_eq!(dir_stem(" \n "), "Mirror");
    assert_eq!(bundle_slug("--Ä--"), "mirror");
    assert_eq!(bundle_slug("  Hello,  World 2!! "), "hello-world-2");
    assert_eq!(xml_escape("a<b>&c"), "a&lt;b&gt;&amp;c");
}
