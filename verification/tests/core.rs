use srw::blit::{chunk_blit, BlitAssembler, MissingChunk, BLIT_CHUNK_BYTES};
use srw::classify::classify;
use srw::image::{decode_png, encode_png, image_of_picture, ImageError};
use srw::mapping::{letterbox_of, should_send, FrameMeta, InputMapping, MetaFilter};
use srw::model::{AxRole, OpenedWindow, SnapshotWindow, TrackBinder, WindowInfo};
use srw::pixels::{bgra_to_i420, clamp_u8, i420_to_bgra, BgraFrame, RgbaImage};
use srw::protocol::{HostMessage, WindowKind};
use srw::scalar::Scalar;
use srw::tracker::{AppTracker, TrackerEvent};

fn s(x: f64) -> Scalar {
    Scalar::from_bits(x.to_bits())
}

fn f(x: Scalar) -> f64 {
    f64::from_bits(x.to_bits())
}

// ---- scalars ----

#[test]
fn scalar_comparisons_match_floats() {
    let values = [
        0.0,
        -0.0,
        1.0,
        -1.0,
        0.5,
        -800.25,
        f64::MIN_POSITIVE,
        -f64::MIN_POSITIVE,
        f64::MAX,
        f64::MIN,
        f64::INFINITY,
        f64::NEG_INFINITY,
        f64::NAN,
        5e-324,
    ];
    for a in values {
        assert_eq!(s(a).is_nan(), a.is_nan());
        for b in values {
            assert_eq!(s(a) == s(b), a == b, "{} == {}", a, b);
            assert_eq!(s(a).below(s(b)), a < b, "{} < {}", a, b);
        }
    }
    assert_eq!(Scalar::zero().to_bits(), 0.0f64.to_bits());
}

// ---- classification ----

#[test]
fn layer_zero_no_special_role_is_normal() {
    assert_eq!(classify(0, AxRole::Window), WindowKind::Normal);
    assert_eq!(classify(0, AxRole::Unknown), WindowKind::Normal);
}

#[test]
fn sheet_role_is_sheet_even_at_layer_zero() {
    assert_eq!(classify(0, AxRole::Sheet), WindowKind::Sheet);
}

#[test]
fn nonzero_layer_is_transient_regardless_of_role() {
    assert_eq!(classify(101, AxRole::Unknown), WindowKind::Transient);
    assert_eq!(classify(3, AxRole::Window), WindowKind::Transient);
}

// ---- pixels ----

fn solid(width: u32, height: u32, b: u8, g: u8, r: u8) -> BgraFrame {
    let mut data = Vec::with_capacity((width * height * 4) as usize);
    for _ in 0..width * height {
        data.extend_from_slice(&[b, g, r, 255]);
    }
    BgraFrame { width, height, data }
}

fn assert_roundtrip_close(orig: &BgraFrame) {
    let i420 = bgra_to_i420(orig);
    let w = orig.width as usize;
    let back = i420_to_bgra(
        orig.width, orig.height, &i420.y, &i420.u, &i420.v, w, w / 2, w / 2,
    );
    for (a, b) in orig.data.chunks(4).zip(back.data.chunks(4)) {
        for c in 0..3 {
            assert!(
                (a[c] as i32 - b[c] as i32).abs() <= 4,
                "channel {} diverged: {} vs {}",
                c,
                a[c],
                b[c]
            );
        }
    }
}

#[test]
fn plane_sizes_are_correct() {
    let f = solid(16, 8, 0, 0, 0);
    let i = bgra_to_i420(&f);
    assert_eq!(i.y.len(), 16 * 8);
    assert_eq!(i.u.len(), 8 * 4);
    assert_eq!(i.v.len(), 8 * 4);
}

#[test]
fn solid_colors_roundtrip() {
    for (b, g, r) in [
        (255u8, 0u8, 0u8),
        (0, 255, 0),
        (0, 0, 255),
        (255, 255, 255),
        (0, 0, 0),
        (128, 64, 200),
    ] {
        assert_roundtrip_close(&solid(16, 16, b, g, r));
    }
}

#[test]
fn gradient_roundtrips() {
    let (w, h) = (32u32, 32u32);
    let mut data = Vec::new();
    for yy in 0..h {
        for xx in 0..w {
            data.extend_from_slice(&[(xx * 8) as u8, (yy * 8) as u8, ((xx + yy) * 4) as u8, 255]);
        }
    }
    let orig = BgraFrame { width: w, height: h, data };
    let i420 = bgra_to_i420(&orig);
    let back = i420_to_bgra(
        w, h, &i420.y, &i420.u, &i420.v, w as usize, w as usize / 2, w as usize / 2,
    );
    let total: i64 = orig
        .data
        .chunks(4)
        .zip(back.data.chunks(4))
        .map(|(a, b)| (0..3).map(|c| (a[c] as i64 - b[c] as i64).abs()).sum::<i64>())
        .sum();
    let avg = total as f64 / (w * h * 3) as f64;
    assert!(avg < 6.0, "average channel error too high: {}", avg);
}

#[test]
fn stride_aware_decode_skips_padding() {
    let y = vec![235, 235, 0, 0, 235, 235, 0, 0];
    let u = vec![128, 0, 0];
    let v = vec![128, 0, 0];
    let back = i420_to_bgra(2, 2, &y, &u, &v, 4, 3, 3);
    for px in back.data.chunks(4) {
        for c in 0..3 {
            assert!(px[c] > 250, "expected near-white, got {:?}", px);
        }
    }
}

#[test]
fn conversion_has_the_exact_bt601_values() {
    let f = bgra_to_i420(&solid(2, 2, 255, 0, 0));
    assert_eq!((f.y[0], f.u[0], f.v[0]), (41, 240, 110));
    let f = bgra_to_i420(&solid(2, 2, 0, 0, 255));
    assert_eq!((f.y[0], f.u[0], f.v[0]), (82, 90, 240));
    // One sample per 2x2 block, of its average colour.
    let mut frame = solid(2, 2, 0, 0, 0);
    frame.data[0] = 200;
    let f = bgra_to_i420(&frame);
    assert_eq!(f.u[0], 150);
    assert_eq!(f.y, vec![36, 16, 16, 16]);
    let back = i420_to_bgra(1, 1, &[81], &[90], &[240], 1, 1, 1);
    assert_eq!(back.data, vec![0, 0, 255, 255]);
    assert_eq!((clamp_u8(-3), clamp_u8(300), clamp_u8(7)), (0, 255, 7));
}

#[test]
fn every_solid_colour_survives_conversion() {
    for b in (0..=255).step_by(15) {
        for g in (0..=255).step_by(15) {
            for r in (0..=255).step_by(15) {
                let orig = solid(2, 2, b as u8, g as u8, r as u8);
                let i = bgra_to_i420(&orig);
                let back = i420_to_bgra(2, 2, &i.y, &i.u, &i.v, 2, 1, 1);
                assert!((back.data[0] as i32 - b).abs() <= 3);
                assert!((back.data[1] as i32 - g).abs() <= 2);
                assert!((back.data[2] as i32 - r).abs() <= 2);
            }
        }
    }
}

// ---- still images ----

fn encode_test_png(width: u32, height: u32, pixels: &[u8]) -> Vec<u8> {
    let mut out = Vec::new();
    {
        let mut encoder = png::Encoder::new(&mut out, width, height);
        encoder.set_color(png::ColorType::Rgba);
        encoder.set_depth(png::BitDepth::Eight);
        let mut writer = encoder.write_header().unwrap();
        writer.write_image_data(pixels).unwrap();
    }
    out
}

#[test]
fn blit_roundtrip_through_assembler_and_decode() {
    let (w, h) = (200u32, 200u32);
    let mut pixels = Vec::with_capacity((w * h * 4) as usize);
    let mut state: u32 = 0x1234_5678;
    for _ in 0..(w * h) {
        state = state.wrapping_mul(1_664_525).wrapping_add(1_013_904_223);
        let bytes = state.to_le_bytes();
        pixels.extend_from_slice(&bytes);
    }
    let png_bytes = encode_test_png(w, h, &pixels);
    assert!(png_bytes.len() > BLIT_CHUNK_BYTES, "test image should span multiple chunks");

    let chunks = chunk_blit(42, 1, &png_bytes);
    assert!(chunks.len() > 1);

    let mut assembler = BlitAssembler::new();
    let mut assembled = None;
    for chunk in &chunks {
        if let Some((window_id, png)) = assembler.push(chunk) {
            assert_eq!(window_id, 42);
            assembled = Some(png);
        }
    }
    let assembled = assembled.expect("assembler should complete once all chunks arrive");
    assert_eq!(assembled, png_bytes);

    let img = decode_png(&assembled).expect("decode_png should accept a real RGBA PNG");
    assert_eq!(img.width, w);
    assert_eq!(img.height, h);
    assert_eq!(img.data, pixels);
}

#[test]
fn decode_png_rejects_garbage() {
    assert!(decode_png(b"not a png").is_err());
    assert_eq!(decode_png(b"not a png"), Err(ImageError::Malformed));
}

#[test]
fn encoded_images_decode_to_themselves() {
    let data: Vec<u8> = (0..3 * 5 * 4).map(|i| (i * 7 % 256) as u8).collect();
    let img = RgbaImage { width: 3, height: 5, data };
    let png = encode_png(&img).unwrap();
    assert_ne!(png, img.data);
    assert_eq!(decode_png(&png).unwrap(), img);
}

#[test]
fn images_without_pixels_or_with_wrong_length_are_refused() {
    let empty = RgbaImage { width: 0, height: 3, data: vec![] };
    assert_eq!(encode_png(&empty), Err(ImageError::Empty));
    let short = RgbaImage { width: 2, height: 2, data: vec![0; 15] };
    assert_eq!(encode_png(&short), Err(ImageError::WrongLength));
}

#[test]
fn any_colour_type_and_depth_becomes_rgba8() {
    // Eight-bit grey.
    let mut grey = Vec::new();
    {
        let mut e = png::Encoder::new(&mut grey, 2, 1);
        e.set_color(png::ColorType::Grayscale);
        e.set_depth(png::BitDepth::Eight);
        e.write_header().unwrap().write_image_data(&[10, 200]).unwrap();
    }
    assert_eq!(decode_png(&grey).unwrap().data, vec![10, 10, 10, 255, 200, 200, 200, 255]);
    // Sixteen-bit RGB.
    let mut deep = Vec::new();
    {
        let mut e = png::Encoder::new(&mut deep, 1, 1);
        e.set_color(png::ColorType::Rgb);
        e.set_depth(png::BitDepth::Sixteen);
        e.write_header().unwrap().write_image_data(&[1, 0, 2, 0, 3, 0]).unwrap();
    }
    assert_eq!(decode_png(&deep).unwrap().data, vec![1, 2, 3, 255]);
    let img = image_of_picture(Some((1, 1, 2, vec![9, 8]))).unwrap();
    assert_eq!(img.data, vec![9, 9, 9, 8]);
    assert_eq!(image_of_picture(None), Err(ImageError::Malformed));
}

// ---- blits ----

#[test]
fn small_payload_is_one_chunk() {
    let msgs = chunk_blit(9, 1, b"hello");
    assert_eq!(msgs.len(), 1);
    match &msgs[0] {
        HostMessage::TransientBlit { window_id: 9, seq: 1, chunk_index: 0, chunk_count: 1, .. } => {}
        other => panic!("unexpected: {:?}", other),
    }
}

#[test]
fn chunk_and_reassemble_roundtrip() {
    let payload: Vec<u8> = (0..40_000u32).map(|i| (i % 251) as u8).collect();
    let msgs = chunk_blit(9, 2, &payload);
    assert_eq!(msgs.len(), 3);
    let mut assembler = BlitAssembler::new();
    let mut out = None;
    for m in &msgs {
        out = assembler.push(m).or(out);
    }
    assert_eq!(out, Some((9, payload)));
}

#[test]
fn newer_seq_discards_stale_partial() {
    let payload: Vec<u8> = vec![7u8; 40_000];
    let old = chunk_blit(9, 1, &payload);
    let new = chunk_blit(9, 2, &payload);
    let mut assembler = BlitAssembler::new();
    assembler.push(&old[0]);
    for m in &new {
        assembler.push(m);
    }
    assert_eq!(assembler.push(&old[1]), None);
    assert_eq!(assembler.push(&old[2]), None);
}

#[test]
fn non_blit_messages_are_ignored() {
    let mut assembler = BlitAssembler::new();
    assert_eq!(assembler.push(&HostMessage::WindowClosed { window_id: 1 }), None);
}

#[test]
fn forget_lets_a_recycled_window_id_start_fresh() {
    let payload = vec![9u8; 100];
    let msgs = chunk_blit(9, 5, &payload);
    let mut assembler = BlitAssembler::new();
    assert_eq!(assembler.push(&msgs[0]), Some((9, payload)));

    assembler.forget(9);
    let fresh_payload = vec![1u8; 50];
    let fresh = chunk_blit(9, 1, &fresh_payload);
    assert_eq!(assembler.push(&fresh[0]), Some((9, fresh_payload)), "seq 1 must assemble after forget");
}

#[test]
fn forget_does_not_affect_independent_windows() {
    let payload9 = vec![9u8; 100];
    let msgs9 = chunk_blit(9, 5, &payload9);
    let mut assembler = BlitAssembler::new();
    assert_eq!(assembler.push(&msgs9[0]), Some((9, payload9)));

    let payload3: Vec<u8> = (0..40_000u32).map(|i| (i % 251) as u8).collect();
    let msgs3 = chunk_blit(3, 1, &payload3);
    assert_eq!(msgs3.len(), 3);
    assert_eq!(assembler.push(&msgs3[0]), None);
    assert_eq!(assembler.push(&msgs3[1]), None);

    assembler.forget(9);

    assert_eq!(assembler.push(&msgs3[2]), Some((3, payload3)));
}

#[test]
fn completed_seq_never_reassembles_from_stale_duplicate() {
    let payload1 = vec![1u8; 100];
    let msgs1 = chunk_blit(9, 1, &payload1);
    let mut assembler = BlitAssembler::new();
    let result1 = assembler.push(&msgs1[0]);
    assert_eq!(result1, Some((9, payload1.clone())));

    let stale_dup = &msgs1[0];
    let result_stale = assembler.push(stale_dup);
    assert_eq!(result_stale, None, "stale duplicate must not reassemble");

    let payload2 = vec![2u8; 100];
    let msgs2 = chunk_blit(9, 2, &payload2);
    let result2 = assembler.push(&msgs2[0]);
    assert_eq!(result2, Some((9, payload2)), "newer seq must still work");
}

#[test]
fn chunks_reassemble_in_any_order_with_repeats() {
    let payload: Vec<u8> = (0..50_000u32).map(|i| (i % 253) as u8).collect();
    let msgs = chunk_blit(4, 7, &payload);
    assert_eq!(msgs.len(), 4);
    let mut assembler = BlitAssembler::default();
    for i in [3usize, 1, 1, 3] {
        assert_eq!(assembler.push(&msgs[i]), None);
    }
    assert_eq!(assembler.push(&msgs[0]), None);
    assert_eq!(assembler.push(&msgs[2]), Some((4, payload)));
}

#[test]
fn empty_image_is_one_empty_chunk() {
    let msgs = chunk_blit(4, 1, &[]);
    assert_eq!(
        msgs,
        vec![HostMessage::TransientBlit {
            window_id: 4,
            seq: 1,
            chunk_index: 0,
            chunk_count: 1,
            data_b64: String::new(),
        }]
    );
    assert_eq!(BlitAssembler::new().push(&msgs[0]), Some((4, vec![])));
}

#[test]
fn chunks_are_standard_padded_base64() {
    match &chunk_blit(1, 1, b"hello")[0] {
        HostMessage::TransientBlit { data_b64, .. } => assert_eq!(data_b64, "aGVsbG8="),
        other => panic!("unexpected: {:?}", other),
    }
}

#[test]
fn base64_has_its_alphabet_and_its_padding() {
    let text = |data: &[u8]| match &chunk_blit(1, 1, data)[0] {
        HostMessage::TransientBlit { data_b64, .. } => data_b64.clone(),
        other => panic!("unexpected: {:?}", other),
    };
    assert_eq!(text(b""), "");
    assert_eq!(text(b"hello world~\n"), "aGVsbG8gd29ybGR+Cg==");
    assert_eq!(text(&[0xff, 0xef, 0xbe]), "/+++");
    let mut sextets: Vec<u8> = Vec::new();
    for i in 0..16u32 {
        let (a, b, c, d) = (4 * i, 4 * i + 1, 4 * i + 2, 4 * i + 3);
        let bits = a << 18 | b << 12 | c << 6 | d;
        sextets.extend_from_slice(&[(bits >> 16) as u8, (bits >> 8) as u8, bits as u8]);
    }
    assert_eq!(
        text(&sextets),
        "ABCDEFGHIJKLMNOPQRSTUVWXYZabcdefghijklmnopqrstuvwxyz0123456789+/"
    );
    // Texts that encoding does not make: no padding, unused bits, wrong
    // characters, padding in the middle.
    for bad in ["aGk", "aGl=", "aGl==", "aG", "a", "aGk=aGk=", "aGk_", "====", "aGk= "] {
        assert_eq!(BlitAssembler::new().push(&chunk(0, 1, bad)), None, "{}", bad);
    }
    assert_eq!(BlitAssembler::new().push(&chunk(0, 1, "aGk=")), Some((5, b"hi".to_vec())));
}

fn chunk(index: u16, count: u16, data_b64: &str) -> HostMessage {
    HostMessage::TransientBlit {
        window_id: 5,
        seq: 1,
        chunk_index: index,
        chunk_count: count,
        data_b64: data_b64.into(),
    }
}

#[test]
fn chunk_that_is_no_base64_is_dropped() {
    let mut assembler = BlitAssembler::new();
    assert_eq!(assembler.push(&chunk(0, 1, "not base64!")), None);
    assert_eq!(assembler.push(&chunk(0, 1, "aGk=")), Some((5, b"hi".to_vec())));
}

#[test]
fn image_that_does_not_add_up_is_refused() {
    let mut assembler = BlitAssembler::new();
    assert_eq!(assembler.try_push(&chunk(0, 2, "aGk=")), Ok(None));
    assert_eq!(assembler.try_push(&chunk(7, 2, "aGk=")), Err(MissingChunk { window_id: 5 }));
    assert_eq!(assembler.try_push(&chunk(1, 2, "aGk=")), Ok(Some((5, b"hihi".to_vec()))));
    let mut assembler = BlitAssembler::new();
    assert_eq!(assembler.try_push(&chunk(3, 1, "aGk=")), Err(MissingChunk { window_id: 5 }));
    assert_eq!(assembler.accept(5, 1, 0, 1, None), None);
    assert_eq!(assembler.accept(5, 1, 0, 1, Some(vec![3])), Some(vec![3]));
}

// ---- track binding ----

fn win(id: u32) -> WindowInfo {
    WindowInfo {
        id,
        title: "t".into(),
        x: s(100.0),
        y: s(50.0),
        width: s(800.0),
        height: s(600.0),
    }
}

fn opened(id: u32, track: &str) -> OpenedWindow {
    OpenedWindow {
        info: win(id),
        kind: WindowKind::Normal,
        parent_id: None,
        offset: (s(0.0), s(0.0)),
        track_id: track.into(),
    }
}

#[test]
fn binder_announcement_then_track() {
    let mut b: TrackBinder<&'static str> = TrackBinder::new();
    let ann = opened(1, "win-1");
    assert!(b.on_announcement(ann.clone()).is_none());
    let out = b.on_track("win-1".into(), "track").unwrap();
    assert_eq!(out.0, ann);
    assert_eq!(out.1, "track");
}

#[test]
fn binder_track_then_announcement() {
    let mut b: TrackBinder<&'static str> = TrackBinder::default();
    assert!(b.on_track("win-1".into(), "track").is_none());
    let ann = opened(1, "win-1");
    let out = b.on_announcement(ann.clone()).unwrap();
    assert_eq!(out.0, ann);
    assert_eq!(out.1, "track");
}

#[test]
fn binder_unrelated_ids_do_not_pair() {
    let mut b: TrackBinder<&'static str> = TrackBinder::new();
    assert!(b.on_track("win-1".into(), "track").is_none());
    let ann = opened(2, "win-2");
    assert!(b.on_announcement(ann).is_none());
}

#[test]
fn binder_pair_is_consumed() {
    let mut b: TrackBinder<&'static str> = TrackBinder::new();
    let ann = opened(1, "win-1");
    b.on_announcement(ann.clone());
    assert!(b.on_track("win-1".into(), "t1").is_some());
    assert!(b.on_track("win-1".into(), "t2").is_none());
}

// ---- tracker ----

#[allow(clippy::too_many_arguments)]
fn snap(
    id: u32,
    pid: i32,
    layer: i64,
    role: AxRole,
    x: f64,
    y: f64,
    w: f64,
    h: f64,
    title: &str,
    minimized: bool,
) -> SnapshotWindow {
    SnapshotWindow {
        info: WindowInfo {
            id,
            title: title.into(),
            x: s(x),
            y: s(y),
            width: s(w),
            height: s(h),
        },
        pid,
        layer,
        on_screen: !minimized,
        ax_role: role,
        minimized,
    }
}

fn normal(id: u32, pid: i32) -> SnapshotWindow {
    snap(id, pid, 0, AxRole::Window, 10.0, 20.0, 800.0, 600.0, "win", false)
}

#[test]
fn new_window_of_shared_pid_opens() {
    let mut t = AppTracker::new(&[100]);
    let ev = t.diff(vec![normal(1, 100)]);
    assert_eq!(ev.len(), 1);
    match &ev[0] {
        TrackerEvent::Opened { window } => assert_eq!(window.info.id, 1),
        other => panic!("unexpected {:?}", other),
    }
}

#[test]
fn unshared_pid_is_ignored() {
    let mut t = AppTracker::new(&[100]);
    assert!(t.diff(vec![normal(1, 999)]).is_empty());
}

#[test]
fn gone_window_closes_and_can_reopen() {
    let mut t = AppTracker::new(&[100]);
    t.diff(vec![normal(1, 100)]);
    let ev = t.diff(vec![]);
    assert_eq!(ev, vec![TrackerEvent::Closed { window_id: 1 }]);
    let ev = t.diff(vec![normal(1, 100)]);
    assert!(matches!(ev[0], TrackerEvent::Opened { .. }));
}

#[test]
fn minimize_restore_cycle() {
    let mut t = AppTracker::new(&[100]);
    t.diff(vec![normal(1, 100)]);
    let mut min = normal(1, 100);
    min.minimized = true;
    min.on_screen = false;
    let ev = t.diff(vec![min.clone()]);
    assert_eq!(ev, vec![TrackerEvent::Minimized { window_id: 1 }]);
    let ev = t.diff(vec![min]);
    assert!(ev.is_empty());
    let ev = t.diff(vec![normal(1, 100)]);
    assert_eq!(ev, vec![TrackerEvent::Restored { window_id: 1 }]);
}

#[test]
fn born_minimized_opens_then_minimizes() {
    let mut t = AppTracker::new(&[100]);
    let mut w = normal(1, 100);
    w.minimized = true;
    w.on_screen = false;
    let ev = t.diff(vec![w]);
    assert!(matches!(ev[0], TrackerEvent::Opened { .. }));
    assert_eq!(ev[1], TrackerEvent::Minimized { window_id: 1 });
}

#[test]
fn resize_and_title_emit_moves_do_not() {
    let mut t = AppTracker::new(&[100]);
    t.diff(vec![normal(1, 100)]);
    let moved_resized =
        snap(1, 100, 0, AxRole::Window, 500.0, 500.0, 900.0, 700.0, "renamed", false);
    let ev = t.diff(vec![moved_resized]);
    assert_eq!(ev.len(), 2);
    assert!(ev.contains(&TrackerEvent::Resized {
        window_id: 1,
        width: s(900.0),
        height: s(700.0)
    }));
    assert!(ev.contains(&TrackerEvent::TitleChanged { window_id: 1, title: "renamed".into() }));
}

#[test]
fn pid_map_tracks_live_windows() {
    let mut t = AppTracker::new(&[100, 200]);
    t.diff(vec![normal(1, 100), normal(2, 200)]);
    let map = t.pid_map();
    assert_eq!(map.get(&1), Some(&100));
    assert_eq!(map.get(&2), Some(&200));
    assert_eq!(t.pid_of(2), Some(200));
    assert_eq!(t.pid_of(9), None);
    t.diff(vec![normal(2, 200)]);
    assert!(!t.pid_map().contains_key(&1));
}

#[test]
fn geometry_reflects_state() {
    let mut t = AppTracker::new(&[100]);
    t.diff(vec![normal(1, 100)]);
    assert_eq!(f(t.geometry(1).unwrap().width), 800.0);
    assert!(t.geometry(99).is_none());
}

#[test]
fn resize_while_minimized_emits_resized_on_restore() {
    let mut t = AppTracker::new(&[100]);
    t.diff(vec![normal(1, 100)]);
    let mut min = normal(1, 100);
    min.minimized = true;
    min.on_screen = false;
    t.diff(vec![min.clone()]);
    min.info.width = s(900.0);
    min.info.height = s(700.0);
    let ev = t.diff(vec![min.clone()]);
    assert!(ev.is_empty(), "no event while minimized");
    let restored = snap(1, 100, 0, AxRole::Window, 10.0, 20.0, 900.0, 700.0, "win", false);
    let ev = t.diff(vec![restored]);
    assert_eq!(ev.len(), 2, "expect Restored + Resized, got {:?}", ev);
    assert_eq!(ev[0], TrackerEvent::Restored { window_id: 1 });
    assert_eq!(
        ev[1],
        TrackerEvent::Resized { window_id: 1, width: s(900.0), height: s(700.0) }
    );
    assert_eq!(f(t.geometry(1).unwrap().width), 900.0);
}

#[test]
fn title_change_fires_while_minimized() {
    let mut t = AppTracker::new(&[100]);
    t.diff(vec![normal(1, 100)]);
    let mut min = normal(1, 100);
    min.minimized = true;
    min.on_screen = false;
    t.diff(vec![min.clone()]);
    min.info.title = "renamed".into();
    let ev = t.diff(vec![min]);
    assert!(
        ev.contains(&TrackerEvent::TitleChanged { window_id: 1, title: "renamed".into() }),
        "TitleChanged must fire while minimized, got {:?}",
        ev
    );
}

#[test]
fn sheet_and_transient_windows_emit_no_events() {
    let mut t = AppTracker::new(&[100]);
    t.diff(vec![normal(1, 100)]);
    let menu = snap(2, 100, 101, AxRole::Unknown, 40.0, 60.0, 200.0, 300.0, "", false);
    let sheet = snap(3, 100, 0, AxRole::Sheet, 40.0, 60.0, 400.0, 200.0, "sheet", false);
    let ev = t.diff(vec![menu.clone(), sheet.clone(), normal(1, 100)]);
    assert!(ev.is_empty(), "no events for transient/sheet, got {:?}", ev);
    assert!(t.geometry(2).is_none());
    assert!(t.geometry(3).is_none());
    assert!(!t.pid_map().contains_key(&2));
    let ev = t.diff(vec![normal(1, 100)]);
    assert!(ev.is_empty(), "no Closed for transient/sheet, got {:?}", ev);
}

#[test]
fn minimized_normal_window_off_screen_stays_tracked() {
    let mut t = AppTracker::new(&[100]);
    t.diff(vec![normal(1, 100)]);
    let mut min = normal(1, 100);
    min.minimized = true;
    min.on_screen = false;
    let ev = t.diff(vec![min]);
    assert_eq!(ev, vec![TrackerEvent::Minimized { window_id: 1 }]);
    assert!(t.geometry(1).is_some(), "minimized normal window must stay tracked");
}

#[test]
fn no_duplicate_resized_when_restore_and_resize_coincide() {
    let mut t = AppTracker::new(&[100]);
    t.diff(vec![normal(1, 100)]);
    let mut min = normal(1, 100);
    min.minimized = true;
    min.on_screen = false;
    t.diff(vec![min.clone()]);
    let restored_resized = snap(1, 100, 0, AxRole::Window, 10.0, 20.0, 900.0, 700.0, "win", false);
    let ev = t.diff(vec![restored_resized]);
    assert_eq!(ev.len(), 2, "expect exactly [Restored, Resized], got {:?}", ev);
    assert_eq!(ev[0], TrackerEvent::Restored { window_id: 1 });
    assert_eq!(
        ev[1],
        TrackerEvent::Resized { window_id: 1, width: s(900.0), height: s(700.0) }
    );
}

#[test]
fn remove_pid_forgets_its_windows_and_returns_their_ids() {
    let mut t = AppTracker::new(&[100, 200]);
    t.diff(vec![normal(1, 100), normal(2, 100), normal(3, 200)]);
    let mut removed = t.remove_pid(100);
    removed.sort_unstable();
    assert_eq!(removed, vec![1, 2]);
    assert!(t.geometry(3).is_some());
    assert!(t.geometry(1).is_none());
}

#[test]
fn removed_pid_windows_emit_no_events_afterwards() {
    let mut t = AppTracker::new(&[100]);
    t.diff(vec![normal(1, 100)]);
    t.remove_pid(100);
    assert!(t.diff(vec![normal(1, 100)]).is_empty());
    assert!(t.diff(vec![]).is_empty());
}

#[test]
fn remove_unknown_pid_is_a_no_op() {
    let mut t = AppTracker::new(&[100]);
    t.diff(vec![normal(1, 100)]);
    assert!(t.remove_pid(999).is_empty());
    assert!(t.geometry(1).is_some());
}

#[test]
fn closings_come_first_then_openings_then_changes() {
    let mut t = AppTracker::new(&[100]);
    t.diff(vec![normal(8, 100), normal(2, 100), normal(5, 100)]);
    let mut renamed = normal(5, 100);
    renamed.info.title = "new".into();
    let ev = t.diff(vec![renamed, normal(7, 100)]);
    assert_eq!(
        ev,
        vec![
            TrackerEvent::Closed { window_id: 2 },
            TrackerEvent::Closed { window_id: 8 },
            TrackerEvent::Opened { window: normal(7, 100) },
            TrackerEvent::TitleChanged { window_id: 5, title: "new".into() },
        ]
    );
}

#[test]
fn same_snapshot_again_and_moves_are_silent() {
    let mut t = AppTracker::new(&[100]);
    let mut min = normal(2, 100);
    min.minimized = true;
    t.diff(vec![normal(1, 100), min.clone()]);
    assert!(t.diff(vec![normal(1, 100), min.clone()]).is_empty());
    let mut moved = normal(1, 100);
    moved.info.x = s(-5.0);
    assert!(t.diff(vec![moved, min]).is_empty());
    // A size that is no number differs from itself.
    let mut odd = normal(1, 100);
    odd.info.width = s(f64::NAN);
    let mut t = AppTracker::new(&[100]);
    t.diff(vec![odd.clone()]);
    assert_eq!(t.diff(vec![odd]).len(), 1);
}

// ---- mapping decisions ----

fn meta(content_scale: f64) -> FrameMeta {
    FrameMeta {
        width_px: 1600,
        height_px: 1200,
        content_rect: Some((s(0.0), s(0.0), s(800.0), s(600.0))),
        content_scale: Some(s(content_scale)),
        scale_factor: Some(s(2.0)),
        bounding_rect: None,
    }
}

fn near_one(m: &FrameMeta) -> bool {
    match m.content_scale {
        Some(cs) => (f(cs) - 1.0).abs() <= 5e-3,
        None => false,
    }
}

#[test]
fn missing_or_degenerate_metadata_is_identity() {
    let no_meta = FrameMeta { width_px: 1600, height_px: 1200, ..Default::default() };
    assert!(letterbox_of(&no_meta, &win(1), near_one(&no_meta)).is_none());
    let zero_scale = meta(0.0);
    assert!(letterbox_of(&zero_scale, &win(1), near_one(&zero_scale)).is_none());
}

#[test]
fn cs_exactly_one_is_identity_even_with_mismatched_size() {
    let mut m = meta(1.0);
    m.width_px = 3000;
    m.height_px = 2000;
    assert!(letterbox_of(&m, &win(1), near_one(&m)).is_none());
}

#[test]
fn letterboxed_frame_hands_its_geometry_on() {
    let m = meta(0.625);
    let l = letterbox_of(&m, &win(1), near_one(&m)).unwrap();
    assert_eq!(f(l.content_scale), 0.625);
    assert_eq!(f(l.scale_factor), 2.0);
    assert_eq!(f(l.content_rect.2), 800.0);
    let mut flat = win(1);
    flat.height = s(-0.0);
    assert!(letterbox_of(&m, &flat, false).is_none());
}

fn approx_eq(a: &InputMapping, b: &InputMapping) -> bool {
    (f(a.scale_x) - f(b.scale_x)).abs() <= 5e-3
        && (f(a.scale_y) - f(b.scale_y)).abs() <= 5e-3
        && (f(a.offset_x) - f(b.offset_x)).abs() <= 0.5
        && (f(a.offset_y) - f(b.offset_y)).abs() <= 0.5
}

fn sends(last: Option<&InputMapping>, next: &InputMapping) -> bool {
    should_send(last.map(|l| approx_eq(next, l)), approx_eq(next, &InputMapping::identity()))
}

#[test]
fn should_send_no_previous_send() {
    assert!(!sends(None, &InputMapping::identity()));
    let mut letterboxed = InputMapping::identity();
    letterboxed.scale_x = s(1.6);
    assert!(sends(None, &letterboxed));
}

#[test]
fn should_send_against_previous_send() {
    let mut prev = InputMapping::identity();
    prev.scale_x = s(1.6);
    let mut differs = prev;
    differs.scale_x = s(1.8);
    assert!(sends(Some(&prev), &differs));
    let mut within_tol = prev;
    within_tol.offset_x = s(f(within_tol.offset_x) + 0.1);
    assert!(!sends(Some(&prev), &within_tol));
}

#[test]
fn identity_mapping_has_the_float_encodings() {
    let m = InputMapping::identity();
    assert_eq!((f(m.scale_x), f(m.scale_y), f(m.offset_x), f(m.offset_y)), (1.0, 1.0, 0.0, 0.0));
}

#[test]
fn frame_metadata_passes_only_when_it_changes() {
    let mut filter = MetaFilter::new();
    assert!(!filter.changed(FrameMeta::default()));
    assert!(filter.changed(meta(0.5)));
    assert!(!filter.changed(meta(0.5)));
    assert!(filter.changed(meta(f64::NAN)));
    assert!(filter.changed(meta(f64::NAN)), "a NaN differs from itself");
}
