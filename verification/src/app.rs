//! The single-process client: every shared window's mirror in one program.
//!
//! [`App`] decides; its caller owns the windows, performs the [`UiAction`]s in
//! order and reports a created window before the next event.

use crate::image::{decode_png, decoded_image, png_picture, ImageError};
use crate::mapping::InputMapping;
use crate::mirror_app::{announcement, announcement_of};
use crate::mirrors::{
    action_of, button_to_forward, cg_flags, click_action, flag_bits, forwarded_button,
    fresh_mirror, no_action, normal_attributes, one_action, plain_attributes, shown_title,
    title_to_show, ui_views, LocalId, MirrorEdit, MirrorSet, MirrorsView, Modifiers, UiAction,
    UiView, WindowAttributes, WindowInput, MOVE_INTERVAL,
};
use crate::model::{BinderView, OpenedView, OpenedWindow, TrackBinder};
use crate::net::UiEvent;
use crate::paint::{
    blank_pixels, image_pixels, paint_blank, paint_image, paint_video, video_pixels,
};
use crate::pixels::{packed, BgraFrame, RgbaImage};
use crate::protocol::{ClientMessage, HostMessage, WindowId, WindowKind};
use vstd::prelude::*;

verus! {

/// What a mirror currently has to paint. `Image` holds a decoded transient
/// PNG blit.
pub enum MirrorContent {
    Blank,
    Video(BgraFrame),
    Image(RgbaImage),
}

pub type Mirror = crate::mirrors::Mirror<MirrorContent>;

/// The client's windows and what it knows of them.
pub struct App {
    binder: TrackBinder<()>,
    /// Live modifier state; applied to every `KeyEvent` forwarded to the
    /// host.
    modifiers: Modifiers,
    mirrors: MirrorSet<MirrorContent>,
    /// Set when the event loop exits because the peer disconnected, so that
    /// the program can exit nonzero for that case.
    disconnected: bool,
}

/// What an [`App`] knows.
pub ghost struct AppView {
    pub binder: BinderView<()>,
    pub modifiers: Modifiers,
    pub set: MirrorsView<MirrorContent>,
    pub disconnected: bool,
}

impl View for App {
    type V = AppView;

    closed spec fn view(&self) -> AppView {
        AppView {
            binder: self.binder@,
            modifiers: self.modifiers,
            set: self.mirrors@,
            disconnected: self.disconnected,
        }
    }
}

impl AppView {
    /// With one mirror changed.
    pub open spec fn edited(self, w: LocalId, edit: MirrorEdit<MirrorContent>) -> AppView {
        AppView { set: self.set.edited(w, edit), ..self }
    }

    /// With the mirror of a remote window changed, if there is one.
    pub open spec fn edited_remote(
        self,
        remote: WindowId,
        edit: MirrorEdit<MirrorContent>,
    ) -> AppView {
        match self.set.window_for(remote) {
            Some(w) => self.edited(w, edit),
            None => self,
        }
    }
}

/// The attributes of an announced window's mirror. Sheets and transients are
/// bare, stay on top and stand where their parent's mirror says; a transient
/// shows its image's alpha.
pub open spec fn attributes_of(v: AppView, a: OpenedView) -> WindowAttributes {
    if a.kind == WindowKind::Normal {
        normal_attributes(a.info.title, a.info.width, a.info.height)
    } else {
        WindowAttributes {
            resizable: false,
            decorated: false,
            always_on_top: true,
            transparent: a.kind == WindowKind::Transient,
            placement: match a.parent_id {
                Some(parent) => match v.set.window_for(parent) {
                    Some(w) => Some((w, a.offset.0, a.offset.1)),
                    None => None,
                },
                None => None,
            },
            ..normal_attributes(a.info.title, a.info.width, a.info.height)
        }
    }
}

/// Asking for an announced window's mirror. A second announcement of a live
/// window would strand the first mirror, so it is ignored.
pub open spec fn creating(v: AppView, a: OpenedView) -> Seq<UiView> {
    if v.set.by_remote.contains_key(a.info.id) {
        Seq::empty()
    } else {
        seq![UiView::CreateWindow { attributes: attributes_of(v, a), announcement: a }]
    }
}

/// Asking for the mirror of a completed pair.
pub open spec fn creating_pair(v: AppView, pair: Option<(OpenedWindow, ())>) -> Seq<UiView> {
    match pair {
        Some((a, _)) => creating(v, a@),
        None => Seq::empty(),
    }
}

/// The announcement of a window with a track, as the binder keeps it.
pub open spec fn is_announcement(a: OpenedWindow, msg: HostMessage) -> bool {
    a@ == announcement_of(msg) && a.track_id == msg->track_id->0
}

/// The state after a still image of a window came, decoded if it could be. An
/// image for an unknown window came after the window closed, and is dropped.
pub open spec fn blit_state(v: AppView, remote: WindowId, img: Option<RgbaImage>) -> AppView {
    match img {
        Some(img) => v.edited_remote(
            remote,
            MirrorEdit::Content { content: MirrorContent::Image(img) },
        ),
        None => v,
    }
}

/// What is done about a still image.
pub open spec fn blit_actions(v: AppView, remote: WindowId, decoded: bool) -> Seq<UiView> {
    match v.set.window_for(remote) {
        Some(w) => if decoded {
            seq![UiView::RequestRedraw { window: w }]
        } else {
            Seq::empty()
        },
        None => Seq::empty(),
    }
}

/// The state after a message of the host other than an announcement.
pub open spec fn host_state(v: AppView, msg: HostMessage) -> AppView {
    match msg {
        HostMessage::WindowMinimized { window_id } => v.edited_remote(
            window_id,
            MirrorEdit::Minimized { minimized: true },
        ),
        HostMessage::WindowRestored { window_id } => v.edited_remote(
            window_id,
            MirrorEdit::Minimized { minimized: false },
        ),
        HostMessage::WindowResized { window_id, width, height } => v.edited_remote(
            window_id,
            MirrorEdit::HostSize { size: (width, height) },
        ),
        HostMessage::WindowTitleChanged { window_id, title } => v.edited_remote(
            window_id,
            MirrorEdit::Title { title },
        ),
        HostMessage::WindowClosed { window_id } => AppView { set: v.set.without(window_id), ..v },
        _ => v,
    }
}

/// What is done about a message of the host other than an announcement.
pub open spec fn host_actions(v: AppView, msg: HostMessage) -> Seq<UiView> {
    match msg {
        HostMessage::WindowMinimized { window_id } => match v.set.window_for(window_id) {
            Some(w) => seq![
                UiView::SetTitle {
                    window: w,
                    title: shown_title(v.set.mirrors[w].base_title@, true),
                },
            ],
            None => Seq::empty(),
        },
        HostMessage::WindowRestored { window_id } => match v.set.window_for(window_id) {
            Some(w) => if v.set.mirrors[w].minimized {
                seq![UiView::SetTitle { window: w, title: v.set.mirrors[w].base_title@ }]
            } else {
                Seq::empty()
            },
            None => Seq::empty(),
        },
        HostMessage::WindowResized { window_id, width, height } => match v.set.window_for(
            window_id,
        ) {
            Some(w) => seq![UiView::RequestInnerSize { window: w, width, height }],
            None => Seq::empty(),
        },
        HostMessage::WindowTitleChanged { window_id, title } => match v.set.window_for(window_id) {
            Some(w) => seq![
                UiView::SetTitle {
                    window: w,
                    title: shown_title(title@, v.set.mirrors[w].minimized),
                },
            ],
            None => Seq::empty(),
        },
        HostMessage::WindowClosed { window_id } => if v.set.by_remote.contains_key(window_id) {
            seq![UiView::DropWindow { window: v.set.by_remote[window_id] }]
        } else {
            Seq::empty()
        },
        _ => Seq::empty(),
    }
}

/// What an event does: the state and the actions after it.
pub open spec fn event_step(
    before: AppView,
    ev: UiEvent,
    after: AppView,
    actions: Seq<UiView>,
) -> bool {
    match ev {
        UiEvent::Host(msg) => if msg is WindowOpened {
            if msg->track_id is Some {
                // Track-backed: wait for the announcement and track pair.
                exists|a: OpenedWindow| #[trigger]
                    is_announcement(a, msg) && {
                        let (binder, pair) = before.binder.announced(a);
                        after == (AppView { binder, ..before }) && actions == creating_pair(
                            before,
                            pair,
                        )
                    }
            } else {
                // A transient has no track to wait for.
                after == before && actions == creating(before, announcement_of(msg))
            }
        } else {
            after == host_state(before, msg) && actions == host_actions(before, msg)
        },
        UiEvent::TrackOpened { track_id } => {
            let (binder, pair) = before.binder.arrived(track_id@, ());
            after == (AppView { binder, ..before }) && actions == creating_pair(before, pair)
        },
        UiEvent::TrackFrame { track_id, frame } => if before.set.by_track.contains_key(
            track_id@,
        ) {
            let w = before.set.by_track[track_id@];
            &&& after == before.edited(
                w,
                MirrorEdit::Content { content: MirrorContent::Video(frame) },
            )
            &&& actions == (if before.set.mirrors.contains_key(w) {
                seq![UiView::RequestRedraw { window: w }]
            } else {
                Seq::empty()
            })
        } else {
            after == (AppView { set: before.set.keeping(track_id@, frame), ..before }) && actions
                == Seq::<UiView>::empty()
        },
        UiEvent::Blit { window_id, png } => exists|img: Option<RgbaImage>| #[trigger]
            is_decoded(img, png@) && after == blit_state(before, window_id, img) && actions
                == blit_actions(before, window_id, img is Some),
        UiEvent::Disconnected => after == (AppView {
            set: MirrorsView { early_frames: before.set.early_frames, ..MirrorsView::none() },
            disconnected: true,
            ..before
        }) && actions == seq![UiView::DropAllWindows, UiView::Exit],
    }
}

/// `img` is the image in a PNG file, `None` if it holds none.
pub open spec fn is_decoded(img: Option<RgbaImage>, png: Seq<u8>) -> bool {
    match img {
        Some(img) => decoded_image(png_picture(png)) == Ok::<(u32, u32, Seq<u8>), ImageError>(
            (img.width, img.height, img.data@),
        ) && packed(img.width, img.height, img.data@),
        None => decoded_image(png_picture(png)) is Err,
    }
}

/// What a new mirror starts with: the frame that came early, if one did.
pub open spec fn seed_content(frame: Option<BgraFrame>) -> MirrorContent {
    match frame {
        Some(frame) => MirrorContent::Video(frame),
        None => MirrorContent::Blank,
    }
}

/// The state once a mirror's window was created. A transient has no track, so
/// no track leads to it.
pub open spec fn created_state(v: AppView, a: OpenedView, w: LocalId, now: u64) -> AppView {
    AppView {
        set: v.set.without_early(a.track_id).with(
            w,
            fresh_mirror(
                a,
                seed_content(v.set.early(a.track_id)),
                now,
                InputMapping::spec_identity(),
            ),
            if a.track_id.len() > 0 {
                Some(a.track_id)
            } else {
                None
            },
        ),
        ..v
    }
}

impl App {
    pub fn new() -> (a: App)
        ensures
            a@ == (AppView {
                binder: BinderView { announcements: Map::empty(), tracks: Map::empty() },
                modifiers: Modifiers { shift: false, control: false, alt: false, command: false },
                set: MirrorsView::none(),
                disconnected: false,
            }),
    {
        App {
            binder: TrackBinder::new(),
            modifiers: Modifiers::none(),
            mirrors: MirrorSet::new(),
            disconnected: false,
        }
    }

    /// Whether the event loop exited because the peer disconnected.
    pub fn disconnected(&self) -> (b: bool)
        ensures
            b == self@.disconnected,
    {
        self.disconnected
    }

    /// A mirror by its window.
    pub fn mirror(&self, w: LocalId) -> (r: Option<&Mirror>)
        ensures
            match r {
                Some(m) => self@.set.mirrors.contains_key(w) && *m == self@.set.mirrors[w],
                None => !self@.set.mirrors.contains_key(w),
            },
    {
        self.mirrors.mirror(w)
    }

    /// Handles one event of the connection.
    pub fn on_event(&mut self, ev: UiEvent) -> (r: Vec<UiAction>)
        ensures
            event_step(old(self)@, ev, final(self)@, ui_views(r@)),
    {
        match ev {
            UiEvent::Host(msg) => match msg {
                HostMessage::WindowOpened { .. } => self.on_opened(msg),
                _ => self.on_host_message(msg),
            },
            UiEvent::TrackOpened { track_id } => match self.binder.on_track(track_id, ()) {
                Some((a, _)) => self.create_mirror(a),
                None => no_action(),
            },
            UiEvent::TrackFrame { track_id, frame } => match self.mirrors.window_of_track(
                track_id.as_str(),
            ) {
                Some(w) => {
                    let content = MirrorContent::Video(frame);
                    if self.mirrors.edit(w, MirrorEdit::Content { content }) {
                        one_action(UiAction::RequestRedraw { window: w })
                    } else {
                        no_action()
                    }
                },
                None => {
                    self.mirrors.keep_early(track_id, frame);
                    no_action()
                },
            },
            UiEvent::Blit { window_id, png } => {
                let img: Option<RgbaImage> = match decode_png(png.as_slice()) {
                    Ok(img) => Some(img),
                    Err(_) => None,
                };
                assert(is_decoded(img, png@));
                self.on_blit(window_id, img)
            },
            UiEvent::Disconnected => {
                self.mirrors.clear();
                self.disconnected = true;
                let mut actions: Vec<UiAction> = Vec::new();
                actions.push(UiAction::DropAllWindows);
                actions.push(UiAction::Exit);
                assert(ui_views(actions@) =~= seq![UiView::DropAllWindows, UiView::Exit]);
                actions
            },
        }
    }

    /// A still image of a window came, decoded if it could be.
    pub fn on_blit(&mut self, remote: WindowId, img: Option<RgbaImage>) -> (r: Vec<UiAction>)
        ensures
            final(self)@ == blit_state(old(self)@, remote, img),
            ui_views(r@) == blit_actions(old(self)@, remote, img is Some),
    {
        match img {
            Some(img) => match self.mirrors.mirror_for_remote(remote) {
                Some(w) => {
                    let content = MirrorContent::Image(img);
                    let _ = self.mirrors.edit(w, MirrorEdit::Content { content });
                    one_action(UiAction::RequestRedraw { window: w })
                },
                None => no_action(),
            },
            None => no_action(),
        }
    }

    fn on_opened(&mut self, msg: HostMessage) -> (r: Vec<UiAction>)
        requires
            msg is WindowOpened,
        ensures
            event_step(old(self)@, UiEvent::Host(msg), final(self)@, ui_views(r@)),
    {
        let has_track: bool = match &msg {
            HostMessage::WindowOpened { track_id, .. } => track_id.is_some(),
            _ => false,
        };
        match announcement(msg) {
            Some(a) => {
                if has_track {
                    assert(is_announcement(a, msg));
                    match self.binder.on_announcement(a) {
                        Some((a, _)) => self.create_mirror(a),
                        None => no_action(),
                    }
                } else {
                    self.create_mirror(a)
                }
            },
            None => no_action(),
        }
    }

    /// Asks for the window of an announced remote window that has no mirror.
    fn create_mirror(&self, a: OpenedWindow) -> (r: Vec<UiAction>)
        ensures
            ui_views(r@) == creating(self@, a@),
    {
        if self.mirrors.knows_remote(a.info.id) {
            return no_action();
        }
        let mut attributes = plain_attributes(&a.info.title, a.info.width, a.info.height);
        if a.kind != WindowKind::Normal {
            attributes.resizable = false;
            attributes.decorated = false;
            attributes.always_on_top = true;
            attributes.transparent = a.kind == WindowKind::Transient;
            if let Some(parent) = a.parent_id {
                if let Some(w) = self.mirrors.mirror_for_remote(parent) {
                    attributes.placement = Some((w, a.offset.0, a.offset.1));
                }
            }
        }
        assert(attributes == attributes_of(self@, a@));
        one_action(UiAction::CreateWindow { attributes, announcement: a })
    }

    fn on_host_message(&mut self, msg: HostMessage) -> (r: Vec<UiAction>)
        ensures
            final(self)@ == host_state(old(self)@, msg),
            ui_views(r@) == host_actions(old(self)@, msg),
    {
        match msg {
            HostMessage::WindowMinimized { window_id } => match self.mirrors.mirror_for_remote(
                window_id,
            ) {
                Some(w) => {
                    let title: String = self.title(w, true);
                    // The last frame stays frozen: the content is untouched.
                    let _ = self.mirrors.edit(w, MirrorEdit::Minimized { minimized: true });
                    one_action(UiAction::SetTitle { window: w, title })
                },
                None => no_action(),
            },
            // An unknown id (e.g. the host's channel-open probe, id 0) is
            // ignored silently.
            HostMessage::WindowRestored { window_id } => match self.mirrors.mirror_for_remote(
                window_id,
            ) {
                Some(w) => {
                    let was: bool = match self.mirrors.mirror(w) {
                        Some(m) => m.minimized,
                        None => false,
                    };
                    let title: String = self.title(w, false);
                    let _ = self.mirrors.edit(w, MirrorEdit::Minimized { minimized: false });
                    if was {
                        one_action(UiAction::SetTitle { window: w, title })
                    } else {
                        no_action()
                    }
                },
                None => no_action(),
            },
            HostMessage::WindowResized { window_id, width, height } => match self.mirrors.mirror_for_remote(
                window_id,
            ) {
                Some(w) => {
                    let _ = self.mirrors.edit(w, MirrorEdit::HostSize { size: (width, height) });
                    one_action(UiAction::RequestInnerSize { window: w, width, height })
                },
                None => no_action(),
            },
            HostMessage::WindowTitleChanged { window_id, title } => match self.mirrors.mirror_for_remote(
                window_id,
            ) {
                Some(w) => {
                    let minimized: bool = match self.mirrors.mirror(w) {
                        Some(m) => m.minimized,
                        None => false,
                    };
                    let shown: String = title_to_show(&title, minimized);
                    let _ = self.mirrors.edit(w, MirrorEdit::Title { title });
                    one_action(UiAction::SetTitle { window: w, title: shown })
                },
                None => no_action(),
            },
            // Zero mirrors is a valid idle state: a new host window revives
            // the program.
            HostMessage::WindowClosed { window_id } => match self.mirrors.remove_remote(window_id) {
                Some(window) => one_action(UiAction::DropWindow { window }),
                None => no_action(),
            },
            _ => no_action(),
        }
    }

    /// The title that a live mirror shows.
    fn title(&self, w: LocalId, minimized: bool) -> (t: String)
        ensures
            self@.set.mirrors.contains_key(w) ==> t@ == shown_title(
                self@.set.mirrors[w].base_title@,
                minimized,
            ),
    {
        match self.mirrors.mirror(w) {
            Some(m) => title_to_show(&m.base_title, minimized),
            None => String::new(),
        }
    }

    /// The window of an announced mirror was created at `now`.
    pub fn on_window_created(&mut self, a: OpenedWindow, w: LocalId, now: u64) -> (r: Vec<
        UiAction,
    >)
        ensures
            final(self)@ == created_state(old(self)@, a@, w, now),
            ui_views(r@) == seq![UiView::RequestRedraw { window: w }],
    {
        let content = match self.mirrors.take_early(a.track_id.as_str()) {
            Some(frame) => MirrorContent::Video(frame),
            None => MirrorContent::Blank,
        };
        let has_track: bool = !a.track_id.as_str().is_empty();
        assert(has_track == (a.track_id@.len() > 0));
        self.mirrors.add_mirror(w, a, content, now, InputMapping::identity(), has_track);
        one_action(UiAction::RequestRedraw { window: w })
    }
}

/// The state after something happened to a window.
pub open spec fn input_state(v: AppView, w: LocalId, input: WindowInput) -> AppView {
    match input {
        WindowInput::ModifiersChanged { modifiers } => AppView { modifiers, ..v },
        WindowInput::CursorMoved { position, now, .. } => {
            let v1 = v.edited(w, MirrorEdit::Cursor { position });
            if now - v.set.mirrors[w].last_move_sent >= MOVE_INTERVAL {
                v1.edited(w, MirrorEdit::MoveSent { now })
            } else {
                v1
            }
        },
        WindowInput::Resized { size, far } => if far && v.set.mirrors[w].kind
            == WindowKind::Normal {
            v.edited(w, MirrorEdit::HostSize { size })
        } else {
            v
        },
        _ => v,
    }
}

/// What is done about it.
pub open spec fn input_actions(v: AppView, w: LocalId, input: WindowInput) -> Seq<UiView> {
    let m = v.set.mirrors[w];
    if input is RedrawRequested {
        seq![UiView::Redraw { window: w }]
    } else if !v.set.mirrors.contains_key(w) {
        Seq::empty()
    } else {
        match input {
            // Local Cmd+Q quits the program; never forwarded. Repeats forward
            // as extra downs: posted events do not auto-repeat on the host.
            WindowInput::KeyboardInput { down, is_q, code } => if down && is_q
                && v.modifiers.command {
                seq![UiView::Exit]
            } else {
                match code {
                    Some(code) => seq![
                        UiView::Send {
                            msg: ClientMessage::KeyEvent {
                                window_id: m.remote_id,
                                key_code: (code % 65536) as u16,
                                down,
                                flags: flag_bits(v.modifiers) as u64,
                            },
                        },
                    ],
                    None => Seq::empty(),
                }
            },
            WindowInput::CursorMoved { point, now, .. } => if now - m.last_move_sent
                >= MOVE_INTERVAL {
                seq![
                    UiView::Send {
                        msg: ClientMessage::MouseMove {
                            window_id: m.remote_id,
                            x: point.0,
                            y: point.1,
                        },
                    },
                ]
            } else {
                Seq::empty()
            },
            WindowInput::Focused { gained } => if gained && m.kind != WindowKind::Transient {
                seq![UiView::Send { msg: ClientMessage::FocusChange { window_id: m.remote_id } }]
            } else {
                Seq::empty()
            },
            WindowInput::MouseInput { pressed, button, point } => match forwarded_button(button) {
                Some(button) => seq![
                    UiView::Send {
                        msg: ClientMessage::MouseInput {
                            window_id: m.remote_id,
                            x: point.0,
                            y: point.1,
                            button,
                            action: click_action(pressed),
                        },
                    },
                ],
                None => Seq::empty(),
            },
            WindowInput::Resized { size, far } => if far && m.kind == WindowKind::Normal {
                seq![
                    UiView::Send {
                        msg: ClientMessage::ResizeRequest {
                            window_id: m.remote_id,
                            width: size.0,
                            height: size.1,
                        },
                    },
                ]
            } else {
                Seq::empty()
            },
            // The mirror stays: it dies only on the host's WindowClosed.
            WindowInput::CloseRequested => seq![
                UiView::Send { msg: ClientMessage::CloseRequest { window_id: m.remote_id } },
            ],
            _ => Seq::empty(),
        }
    }
}

/// An image has the bytes that its size says.
pub open spec fn paintable(content: MirrorContent) -> bool {
    match content {
        MirrorContent::Blank => true,
        MirrorContent::Video(frame) => packed(frame.width, frame.height, frame.data@),
        MirrorContent::Image(img) => packed(img.width, img.height, img.data@),
    }
}

/// Whether a window's surface is painted: the window is there, and neither
/// the surface nor what it shows is empty.
pub open spec fn is_painted(v: AppView, w: LocalId, dw: u32, dh: u32) -> bool {
    &&& v.set.mirrors.contains_key(w)
    &&& dw > 0
    &&& dh > 0
    &&& match v.set.mirrors[w].content {
        MirrorContent::Blank => true,
        MirrorContent::Video(frame) => frame.width > 0 && frame.height > 0,
        MirrorContent::Image(img) => img.width > 0 && img.height > 0,
    }
}

/// The pixels that show a content.
pub open spec fn painted(content: MirrorContent, dw: int, dh: int) -> Seq<u32> {
    match content {
        MirrorContent::Blank => blank_pixels(dw, dh),
        MirrorContent::Video(frame) => video_pixels(frame, dw, dh),
        MirrorContent::Image(img) => image_pixels(img, dw, dh),
    }
}

impl App {
    /// Handles what happened to one of the windows.
    pub fn window_event(&mut self, w: LocalId, input: WindowInput) -> (r: Vec<UiAction>)
        ensures
            final(self)@ == input_state(old(self)@, w, input),
            ui_views(r@) == input_actions(old(self)@, w, input),
    {
        match input {
            WindowInput::RedrawRequested => {
                return one_action(UiAction::Redraw { window: w });
            },
            WindowInput::ModifiersChanged { modifiers } => {
                self.modifiers = modifiers;
                return no_action();
            },
            _ => {},
        }
        let (remote, kind, last_move): (WindowId, WindowKind, u64) = match self.mirrors.mirror(w) {
            Some(m) => (m.remote_id, m.kind, m.last_move_sent),
            None => {
                return no_action();
            },
        };
        match input {
            WindowInput::KeyboardInput { down, is_q, code } => {
                if down && is_q && self.modifiers.command {
                    return one_action(UiAction::Exit);
                }
                match code {
                    Some(code) => {
                        let key_code: u16 = (code % 65536) as u16;
                        let flags: u64 = cg_flags(self.modifiers);
                        let msg = ClientMessage::KeyEvent {
                            window_id: remote,
                            key_code,
                            down,
                            flags,
                        };
                        one_action(UiAction::Send { msg })
                    },
                    None => no_action(),
                }
            },
            WindowInput::CursorMoved { position, point, now } => {
                let _ = self.mirrors.edit(w, MirrorEdit::Cursor { position });
                if now >= last_move && now - last_move >= MOVE_INTERVAL {
                    let _ = self.mirrors.edit(w, MirrorEdit::MoveSent { now });
                    let msg = ClientMessage::MouseMove { window_id: remote, x: point.0, y: point.1 };
                    one_action(UiAction::Send { msg })
                } else {
                    no_action()
                }
            },
            WindowInput::Focused { gained } => {
                if gained && (kind == WindowKind::Normal || kind == WindowKind::Sheet) {
                    let msg = ClientMessage::FocusChange { window_id: remote };
                    one_action(UiAction::Send { msg })
                } else {
                    no_action()
                }
            },
            WindowInput::MouseInput { pressed, button, point } => match button_to_forward(button) {
                Some(button) => {
                    let action = action_of(pressed);
                    let msg = ClientMessage::MouseInput {
                        window_id: remote,
                        x: point.0,
                        y: point.1,
                        button,
                        action,
                    };
                    one_action(UiAction::Send { msg })
                },
                None => no_action(),
            },
            WindowInput::Resized { size, far } => {
                if far && kind == WindowKind::Normal {
                    // The sent size joins the echo guard at once; otherwise
                    // every step of a live drag would flood the host.
                    let _ = self.mirrors.edit(w, MirrorEdit::HostSize { size });
                    let msg = ClientMessage::ResizeRequest {
                        window_id: remote,
                        width: size.0,
                        height: size.1,
                    };
                    one_action(UiAction::Send { msg })
                } else {
                    no_action()
                }
            },
            WindowInput::CloseRequested => {
                let msg = ClientMessage::CloseRequest { window_id: remote };
                one_action(UiAction::Send { msg })
            },
            _ => no_action(),
        }
    }

    /// The pixels of a window's surface, `dw` by `dh`; `None` when there is
    /// nothing to present.
    pub fn redraw(&self, w: LocalId, dw: u32, dh: u32) -> (r: Option<Vec<u32>>)
        requires
            self@.set.mirrors.contains_key(w) ==> paintable(self@.set.mirrors[w].content),
        ensures
            match r {
                Some(buf) => buf@ == painted(self@.set.mirrors[w].content, dw as int, dh as int)
                    && is_painted(self@, w, dw, dh),
                None => !is_painted(self@, w, dw, dh),
            },
    {
        if dw == 0 || dh == 0 {
            return None;
        }
        match self.mirrors.mirror(w) {
            None => None,
            Some(m) => match &m.content {
                MirrorContent::Blank => Some(paint_blank(dw, dh)),
                MirrorContent::Video(frame) => paint_video(frame, dw, dh),
                MirrorContent::Image(img) => paint_image(img, dw, dh),
            },
        }
    }
}

} // verus!
