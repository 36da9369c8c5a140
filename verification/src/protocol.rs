//! The messages that host and client exchange on the control channel.

use crate::scalar::Scalar;
use vstd::prelude::*;

verus! {

/// Host-side window identifier (CGWindowID on macOS).
pub type WindowId = u32;

/// A shared application (its process id on the host).
pub type AppId = u32;

/// Window kind/type classification.
#[derive(Debug, Clone, Copy, PartialEq, Eq, Structural)]
pub enum WindowKind {
    Normal,
    Sheet,
    Transient,
}

/// Host to client messages on the control data channel.
#[derive(Debug, PartialEq)]
pub enum HostMessage {
    /// A shared application exists; its icon is a base64 PNG, empty when the
    /// application has none.
    AppAnnounced { app_id: AppId, name: String, icon_png: String },
    /// A window of a shared application appeared. `track_id` names the media
    /// track that carries its video; a transient has none.
    WindowOpened {
        window_id: WindowId,
        title: String,
        kind: WindowKind,
        parent_id: Option<WindowId>,
        offset_x: Scalar,
        offset_y: Scalar,
        width: Scalar,
        height: Scalar,
        track_id: Option<String>,
        app_id: AppId,
    },
    WindowResized { window_id: WindowId, width: Scalar, height: Scalar },
    WindowTitleChanged { window_id: WindowId, title: String },
    WindowMinimized { window_id: WindowId },
    WindowRestored { window_id: WindowId },
    WindowClosed { window_id: WindowId },
    /// Change-triggered pointer-coordinate mapping for one window's stream
    /// (`window_local = offset + scale * mirror_point`). Identity is implicit
    /// at window open; sent only when the mapping changes.
    InputMapping {
        window_id: WindowId,
        scale_x: Scalar,
        scale_y: Scalar,
        offset_x: Scalar,
        offset_y: Scalar,
    },
    /// One chunk of a transient's still image, base64.
    TransientBlit {
        window_id: WindowId,
        seq: u32,
        chunk_index: u16,
        chunk_count: u16,
        data_b64: String,
    },
    SdpOffer { sdp: String },
}

/// Client to host messages on the control data channel.
#[derive(Debug, PartialEq)]
pub enum ClientMessage {
    MouseInput {
        window_id: WindowId,
        x: Scalar,
        y: Scalar,
        button: MouseButton,
        action: MouseAction,
    },
    MouseMove { window_id: WindowId, x: Scalar, y: Scalar },
    KeyEvent { window_id: WindowId, key_code: u16, down: bool, flags: u64 },
    FocusChange { window_id: WindowId },
    ResizeRequest { window_id: WindowId, width: Scalar, height: Scalar },
    CloseRequest { window_id: WindowId },
    /// The user quit the application's mirrors: stop sharing it.
    UnsubscribeApp { app_id: AppId },
    SdpAnswer { sdp: String },
}

#[derive(Debug, Clone, Copy, PartialEq, Eq, Structural)]
pub enum MouseButton {
    Left,
    Right,
}

#[derive(Debug, Clone, Copy, PartialEq, Eq, Structural)]
pub enum MouseAction {
    Down,
    Up,
}

impl Clone for HostMessage {
    fn clone(&self) -> (copy: HostMessage)
        ensures
            copy == *self,
    {
        match self {
            HostMessage::AppAnnounced { app_id, name, icon_png } => HostMessage::AppAnnounced {
                app_id: *app_id,
                name: name.clone(),
                icon_png: icon_png.clone(),
            },
            HostMessage::WindowOpened {
                window_id,
                title,
                kind,
                parent_id,
                offset_x,
                offset_y,
                width,
                height,
                track_id,
                app_id,
            } => HostMessage::WindowOpened {
                window_id: *window_id,
                title: title.clone(),
                kind: *kind,
                parent_id: *parent_id,
                offset_x: *offset_x,
                offset_y: *offset_y,
                width: *width,
                height: *height,
                track_id: clone_name(track_id),
                app_id: *app_id,
            },
            HostMessage::WindowResized { window_id, width, height } => HostMessage::WindowResized {
                window_id: *window_id,
                width: *width,
                height: *height,
            },
            HostMessage::WindowTitleChanged { window_id, title } => {
                HostMessage::WindowTitleChanged { window_id: *window_id, title: title.clone() }
            },
            HostMessage::WindowMinimized { window_id } => {
                HostMessage::WindowMinimized { window_id: *window_id }
            },
            HostMessage::WindowRestored { window_id } => {
                HostMessage::WindowRestored { window_id: *window_id }
            },
            HostMessage::WindowClosed { window_id } => {
                HostMessage::WindowClosed { window_id: *window_id }
            },
            HostMessage::InputMapping { window_id, scale_x, scale_y, offset_x, offset_y } => {
                HostMessage::InputMapping {
                    window_id: *window_id,
                    scale_x: *scale_x,
                    scale_y: *scale_y,
                    offset_x: *offset_x,
                    offset_y: *offset_y,
                }
            },
            HostMessage::TransientBlit { window_id, seq, chunk_index, chunk_count, data_b64 } => {
                HostMessage::TransientBlit {
                    window_id: *window_id,
                    seq: *seq,
                    chunk_index: *chunk_index,
                    chunk_count: *chunk_count,
                    data_b64: data_b64.clone(),
                }
            },
            HostMessage::SdpOffer { sdp } => HostMessage::SdpOffer { sdp: sdp.clone() },
        }
    }
}

impl Clone for ClientMessage {
    fn clone(&self) -> (copy: ClientMessage)
        ensures
            copy == *self,
    {
        match self {
            ClientMessage::MouseInput { window_id, x, y, button, action } => {
                ClientMessage::MouseInput {
                    window_id: *window_id,
                    x: *x,
                    y: *y,
                    button: *button,
                    action: *action,
                }
            },
            ClientMessage::MouseMove { window_id, x, y } => {
                ClientMessage::MouseMove { window_id: *window_id, x: *x, y: *y }
            },
            ClientMessage::KeyEvent { window_id, key_code, down, flags } => {
                ClientMessage::KeyEvent {
                    window_id: *window_id,
                    key_code: *key_code,
                    down: *down,
                    flags: *flags,
                }
            },
            ClientMessage::FocusChange { window_id } => {
                ClientMessage::FocusChange { window_id: *window_id }
            },
            ClientMessage::ResizeRequest { window_id, width, height } => {
                ClientMessage::ResizeRequest {
                    window_id: *window_id,
                    width: *width,
                    height: *height,
                }
            },
            ClientMessage::CloseRequest { window_id } => {
                ClientMessage::CloseRequest { window_id: *window_id }
            },
            ClientMessage::UnsubscribeApp { app_id } => {
                ClientMessage::UnsubscribeApp { app_id: *app_id }
            },
            ClientMessage::SdpAnswer { sdp } => ClientMessage::SdpAnswer { sdp: sdp.clone() },
        }
    }
}

/// A copy of an optional name.
pub fn clone_name(name: &Option<String>) -> (copy: Option<String>)
    ensures
        copy == *name,
{
    match name {
        Some(s) => Some(s.clone()),
        None => None,
    }
}

} // verus!
