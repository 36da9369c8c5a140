//! What the user does to a mirror is what happens to the window it mirrors.

use crate::app::App;
use crate::input::{AxInput, ClickEvent, InputError, InputPlan, InputSink, PidInput, PostedEvent};
use crate::mirror_app::{ExitReason, HelperApp};
use crate::mirrors::{ui_views, LocalButton, LocalId, Modifiers, UiAction, WindowInput};
use crate::model::WindowInfo;
use crate::protocol::{ClientMessage, MouseAction, MouseButton, WindowId, WindowKind};
use crate::scalar::Scalar;
use crate::session::{InputAction, Session};
use vstd::prelude::*;

verus! {

/// A click in a mirror of a helper is forwarded to the window it mirrors, at its
/// point: down exactly when the button was pressed, up exactly when it was
/// released, and by the button it was made with. Other buttons are not
/// forwarded.
pub proof fn helper_forwards_clicks(
    h: &mut HelperApp,
    w: LocalId,
    pressed: bool,
    button: LocalButton,
    point: (Scalar, Scalar),
    r: Vec<UiAction>,
)
    requires
        call_ensures(
            HelperApp::window_event,
            (h, w, WindowInput::MouseInput { pressed, button, point }),
            r,
        ),
        old(h)@.set.mirrors.contains_key(w),
    ensures
        button == LocalButton::Other ==> r@.len() == 0,
        button != LocalButton::Other ==> {
            &&& r@.len() == 1
            &&& r@[0] is Send
            &&& r@[0]->msg is MouseInput
            &&& r@[0]->msg->MouseInput_window_id == old(h)@.set.mirrors[w].remote_id
            &&& r@[0]->msg->MouseInput_x == point.0
            &&& r@[0]->msg->MouseInput_y == point.1
            &&& r@[0]->msg->button == MouseButton::Left <==> button == LocalButton::Left
            &&& r@[0]->msg->action == MouseAction::Down <==> pressed
            &&& r@[0]->msg->action == MouseAction::Up <==> !pressed
        },
{
    assert(r@.len() == ui_views(r@).len());
    if r@.len() > 0 {
        assert(ui_views(r@)[0] == r@[0]@);
    }
}

/// A key in a mirror of a helper is forwarded to the window it mirrors, with the
/// low half of its code, whether it went down, and one flag bit for each
/// modifier that is held. A key without a code is not forwarded, and neither
/// is the quit shortcut, which ends the program.
pub proof fn helper_forwards_keys(
    h: &mut HelperApp,
    w: LocalId,
    down: bool,
    is_q: bool,
    code: Option<u32>,
    r: Vec<UiAction>,
)
    requires
        call_ensures(
            HelperApp::window_event,
            (h, w, WindowInput::KeyboardInput { down, is_q, code }),
            r,
        ),
        old(h)@.set.mirrors.contains_key(w),
    ensures
        ({
            let held = old(h)@.modifiers;
            let quits = down && is_q && held.command;
            &&& quits ==> r@.len() == 1 && r@[0] is Exit
            &&& !quits && code is None ==> r@.len() == 0
            &&& !quits && code is Some ==> {
                let flags = r@[0]->msg->flags as int;
                &&& r@.len() == 1
                &&& r@[0] is Send
                &&& r@[0]->msg is KeyEvent
                &&& r@[0]->msg->KeyEvent_window_id == old(h)@.set.mirrors[w].remote_id
                &&& code->0 as int - r@[0]->msg->key_code as int == 65536 * (code->0 as int / 65536)
                &&& r@[0]->msg->down == down
                &&& flags % 131072 == 0
                &&& flags / 131072 % 2 == 1 <==> held.shift
                &&& flags / 262144 % 2 == 1 <==> held.control
                &&& flags / 524288 % 2 == 1 <==> held.alt
                &&& flags / 1048576 == 1 <==> held.command
                &&& flags < 2097152
            }
        }),
        final(h)@.exit_reason == (if down && is_q && old(h)@.modifiers.command {
            Some(ExitReason::UserQuit)
        } else {
            old(h)@.exit_reason
        }),
{
    assert(r@.len() == ui_views(r@).len());
    if r@.len() > 0 {
        assert(ui_views(r@)[0] == r@[0]@);
    }
}

/// A pointer move over a mirror of a helper is forwarded, at its point, when at
/// least sixteen milliseconds have passed since the last one that was; the
/// pointer's place is remembered either way.
pub proof fn helper_forwards_moves(
    h: &mut HelperApp,
    w: LocalId,
    position: (Scalar, Scalar),
    point: (Scalar, Scalar),
    now: u64,
    r: Vec<UiAction>,
)
    requires
        call_ensures(
            HelperApp::window_event,
            (h, w, WindowInput::CursorMoved { position, point, now }),
            r,
        ),
        old(h)@.set.mirrors.contains_key(w),
    ensures
        final(h)@.set.mirrors[w].cursor == position,
        now - old(h)@.set.mirrors[w].last_move_sent >= 16_000_000 ==> {
            &&& r@.len() == 1
            &&& r@[0] is Send
            &&& r@[0]->msg is MouseMove
            &&& r@[0]->msg->MouseMove_window_id == old(h)@.set.mirrors[w].remote_id
            &&& r@[0]->msg->MouseMove_x == point.0
            &&& r@[0]->msg->MouseMove_y == point.1
            &&& final(h)@.set.mirrors[w].last_move_sent == now
        },
        now - old(h)@.set.mirrors[w].last_move_sent < 16_000_000 ==> {
            &&& r@.len() == 0
            &&& final(h)@.set.mirrors[w].last_move_sent == old(h)@.set.mirrors[w].last_move_sent
        },
{
    assert(r@.len() == ui_views(r@).len());
    if r@.len() > 0 {
        assert(ui_views(r@)[0] == r@[0]@);
    }
}

/// Focus that a mirror of a helper gains is asked for on the host; focus that
/// it loses is not spoken of.
pub proof fn helper_forwards_focus(
    h: &mut HelperApp,
    w: LocalId,
    gained: bool,
    r: Vec<UiAction>,
)
    requires
        call_ensures(HelperApp::window_event, (h, w, WindowInput::Focused { gained }), r),
        old(h)@.set.mirrors.contains_key(w),
    ensures
        !gained ==> r@.len() == 0,
        gained ==> {
            &&& r@.len() == 1
            &&& r@[0] is Send
            &&& r@[0]->msg is FocusChange
            &&& r@[0]->msg->FocusChange_window_id == old(h)@.set.mirrors[w].remote_id
        },
{
    assert(r@.len() == ui_views(r@).len());
    if r@.len() > 0 {
        assert(ui_views(r@)[0] == r@[0]@);
    }
}

/// A mirror of a helper that changed its size is repainted, and when the size is a
/// point or more off the agreed one, the host is asked for it and it becomes
/// the agreed one.
pub proof fn helper_forwards_resizes(
    h: &mut HelperApp,
    w: LocalId,
    size: (Scalar, Scalar),
    far: bool,
    r: Vec<UiAction>,
)
    requires
        call_ensures(HelperApp::window_event, (h, w, WindowInput::Resized { size, far }), r),
        old(h)@.set.mirrors.contains_key(w),
    ensures
        r@.len() == (if far { 2int } else { 1 }),
        r@[0] is RequestRedraw,
        r@[0]->RequestRedraw_window == w,
        far ==> {
            &&& r@[1] is Send
            &&& r@[1]->msg is ResizeRequest
            &&& r@[1]->msg->ResizeRequest_window_id == old(h)@.set.mirrors[w].remote_id
            &&& r@[1]->msg->width == size.0
            &&& r@[1]->msg->height == size.1
            &&& final(h)@.set.mirrors[w].last_host_size == size
        },
        !far ==> final(h)@.set.mirrors[w].last_host_size == old(h)@.set.mirrors[w].last_host_size,
{
    assert(r@.len() == ui_views(r@).len());
    if r@.len() > 0 {
        assert(ui_views(r@)[0] == r@[0]@);
    }
    if r@.len() > 1 {
        assert(ui_views(r@)[1] == r@[1]@);
    }
}

/// Closing a mirror of a helper asks the host to close the window; the mirror
/// stays until the host says that it did.
pub proof fn helper_forwards_closing(
    h: &mut HelperApp,
    w: LocalId,
    r: Vec<UiAction>,
)
    requires
        call_ensures(HelperApp::window_event, (h, w, WindowInput::CloseRequested), r),
        old(h)@.set.mirrors.contains_key(w),
    ensures
        r@.len() == 1,
        r@[0] is Send,
        r@[0]->msg is CloseRequest,
        r@[0]->msg->CloseRequest_window_id == old(h)@.set.mirrors[w].remote_id,
        final(h)@ == old(h)@,
{
    assert(r@.len() == ui_views(r@).len());
    if r@.len() > 0 {
        assert(ui_views(r@)[0] == r@[0]@);
    }
}

/// The modifiers that a helper hears of are those that keys are forwarded with;
/// a redraw request is answered with a redraw of that window; and a window that
/// mirrors nothing sends nothing.
pub proof fn helper_keeps_modifiers_and_redraws(
    h: &mut HelperApp,
    w: LocalId,
    modifiers: Modifiers,
    input: WindowInput,
    r: Vec<UiAction>,
)
    requires
        call_ensures(HelperApp::window_event, (h, w, input), r),
    ensures
        input == (WindowInput::ModifiersChanged { modifiers }) ==> r@.len() == 0
            && final(h)@.modifiers == modifiers,
        !(input is ModifiersChanged) ==> final(h)@.modifiers == old(h)@.modifiers,
        input is RedrawRequested ==> r@.len() == 1 && r@[0] is Redraw && r@[0]->Redraw_window == w,
        !(input is RedrawRequested) && !(old(h)@.set.mirrors.contains_key(w)) ==> r@.len() == 0,
{
    assert(r@.len() == ui_views(r@).len());
    if r@.len() > 0 {
        assert(ui_views(r@)[0] == r@[0]@);
    }
}

/// Input to one window of a helper leaves every other mirror as it is, and of its
/// own changes at most the pointer's place, the time of the last move and the
/// agreed size.
pub proof fn helper_input_stays_in_its_window(
    h: &mut HelperApp,
    w: LocalId,
    input: WindowInput,
    r: Vec<UiAction>,
    other: LocalId,
)
    requires
        call_ensures(HelperApp::window_event, (h, w, input), r),
    ensures
        final(h)@.set.mirrors.dom() == old(h)@.set.mirrors.dom(),
        other != w ==> final(h)@.set.mirrors[other] == old(h)@.set.mirrors[other],
        final(h)@.set.by_remote == old(h)@.set.by_remote,
        final(h)@.set.by_track == old(h)@.set.by_track,
        final(h)@.set.early_frames == old(h)@.set.early_frames,
        old(h)@.set.mirrors.contains_key(w) ==> {
            let (before, after) = (old(h)@.set.mirrors[w], final(h)@.set.mirrors[w]);
            &&& after.content == before.content
            &&& after.remote_id == before.remote_id
            &&& after.kind == before.kind
            &&& after.base_title == before.base_title
            &&& after.minimized == before.minimized
            &&& after.mapping == before.mapping
        },
{
    assert(final(h)@.set.mirrors.dom() =~= old(h)@.set.mirrors.dom());
}

/// A click in a mirror of the client is forwarded to the window it mirrors, at its
/// point: down exactly when the button was pressed, up exactly when it was
/// released, and by the button it was made with. Other buttons are not
/// forwarded.
pub proof fn client_forwards_clicks(
    a: &mut App,
    w: LocalId,
    pressed: bool,
    button: LocalButton,
    point: (Scalar, Scalar),
    r: Vec<UiAction>,
)
    requires
        call_ensures(
            App::window_event,
            (a, w, WindowInput::MouseInput { pressed, button, point }),
            r,
        ),
        old(a)@.set.mirrors.contains_key(w),
    ensures
        button == LocalButton::Other ==> r@.len() == 0,
        button != LocalButton::Other ==> {
            &&& r@.len() == 1
            &&& r@[0] is Send
            &&& r@[0]->msg is MouseInput
            &&& r@[0]->msg->MouseInput_window_id == old(a)@.set.mirrors[w].remote_id
            &&& r@[0]->msg->MouseInput_x == point.0
            &&& r@[0]->msg->MouseInput_y == point.1
            &&& r@[0]->msg->button == MouseButton::Left <==> button == LocalButton::Left
            &&& r@[0]->msg->action == MouseAction::Down <==> pressed
            &&& r@[0]->msg->action == MouseAction::Up <==> !pressed
        },
{
    assert(r@.len() == ui_views(r@).len());
    if r@.len() > 0 {
        assert(ui_views(r@)[0] == r@[0]@);
    }
}

/// A key in a mirror of the client is forwarded to the window it mirrors, with the
/// low half of its code, whether it went down, and one flag bit for each
/// modifier that is held. A key without a code is not forwarded, and neither
/// is the quit shortcut, which ends the program.
pub proof fn client_forwards_keys(
    a: &mut App,
    w: LocalId,
    down: bool,
    is_q: bool,
    code: Option<u32>,
    r: Vec<UiAction>,
)
    requires
        call_ensures(
            App::window_event,
            (a, w, WindowInput::KeyboardInput { down, is_q, code }),
            r,
        ),
        old(a)@.set.mirrors.contains_key(w),
    ensures
        ({
            let held = old(a)@.modifiers;
            let quits = down && is_q && held.command;
            &&& quits ==> r@.len() == 1 && r@[0] is Exit
            &&& !quits && code is None ==> r@.len() == 0
            &&& !quits && code is Some ==> {
                let flags = r@[0]->msg->flags as int;
                &&& r@.len() == 1
                &&& r@[0] is Send
                &&& r@[0]->msg is KeyEvent
                &&& r@[0]->msg->KeyEvent_window_id == old(a)@.set.mirrors[w].remote_id
                &&& code->0 as int - r@[0]->msg->key_code as int == 65536 * (code->0 as int / 65536)
                &&& r@[0]->msg->down == down
                &&& flags % 131072 == 0
                &&& flags / 131072 % 2 == 1 <==> held.shift
                &&& flags / 262144 % 2 == 1 <==> held.control
                &&& flags / 524288 % 2 == 1 <==> held.alt
                &&& flags / 1048576 == 1 <==> held.command
                &&& flags < 2097152
            }
        }),
{
    assert(r@.len() == ui_views(r@).len());
    if r@.len() > 0 {
        assert(ui_views(r@)[0] == r@[0]@);
    }
}

/// A pointer move over a mirror of the client is forwarded, at its point, when at
/// least sixteen milliseconds have passed since the last one that was; the
/// pointer's place is remembered either way.
pub proof fn client_forwards_moves(
    a: &mut App,
    w: LocalId,
    position: (Scalar, Scalar),
    point: (Scalar, Scalar),
    now: u64,
    r: Vec<UiAction>,
)
    requires
        call_ensures(
            App::window_event,
            (a, w, WindowInput::CursorMoved { position, point, now }),
            r,
        ),
        old(a)@.set.mirrors.contains_key(w),
    ensures
        final(a)@.set.mirrors[w].cursor == position,
        now - old(a)@.set.mirrors[w].last_move_sent >= 16_000_000 ==> {
            &&& r@.len() == 1
            &&& r@[0] is Send
            &&& r@[0]->msg is MouseMove
            &&& r@[0]->msg->MouseMove_window_id == old(a)@.set.mirrors[w].remote_id
            &&& r@[0]->msg->MouseMove_x == point.0
            &&& r@[0]->msg->MouseMove_y == point.1
            &&& final(a)@.set.mirrors[w].last_move_sent == now
        },
        now - old(a)@.set.mirrors[w].last_move_sent < 16_000_000 ==> {
            &&& r@.len() == 0
            &&& final(a)@.set.mirrors[w].last_move_sent == old(a)@.set.mirrors[w].last_move_sent
        },
{
    assert(r@.len() == ui_views(r@).len());
    if r@.len() > 0 {
        assert(ui_views(r@)[0] == r@[0]@);
    }
}

/// Focus that a mirror of the client gains is asked for on the host, unless the
/// window is a transient; focus that it loses is not spoken of.
pub proof fn client_forwards_focus(
    a: &mut App,
    w: LocalId,
    gained: bool,
    r: Vec<UiAction>,
)
    requires
        call_ensures(App::window_event, (a, w, WindowInput::Focused { gained }), r),
        old(a)@.set.mirrors.contains_key(w),
    ensures
        !gained || old(a)@.set.mirrors[w].kind == WindowKind::Transient ==> r@.len() == 0,
        gained && old(a)@.set.mirrors[w].kind != WindowKind::Transient ==> {
            &&& r@.len() == 1
            &&& r@[0] is Send
            &&& r@[0]->msg is FocusChange
            &&& r@[0]->msg->FocusChange_window_id == old(a)@.set.mirrors[w].remote_id
        },
{
    assert(r@.len() == ui_views(r@).len());
    if r@.len() > 0 {
        assert(ui_views(r@)[0] == r@[0]@);
    }
}

/// When a normal window's mirror of the client changed its size by a point or more
/// from the agreed one, the host is asked for the size and it becomes the
/// agreed one. Other sizes are kept to the client.
pub proof fn client_forwards_resizes(
    a: &mut App,
    w: LocalId,
    size: (Scalar, Scalar),
    far: bool,
    r: Vec<UiAction>,
)
    requires
        call_ensures(App::window_event, (a, w, WindowInput::Resized { size, far }), r),
        old(a)@.set.mirrors.contains_key(w),
    ensures
        ({
            let asks = far && old(a)@.set.mirrors[w].kind == WindowKind::Normal;
            &&& !asks ==> r@.len() == 0
                && final(a)@.set.mirrors[w].last_host_size == old(a)@.set.mirrors[w].last_host_size
            &&& asks ==> {
                &&& r@.len() == 1
                &&& r@[0] is Send
                &&& r@[0]->msg is ResizeRequest
                &&& r@[0]->msg->ResizeRequest_window_id == old(a)@.set.mirrors[w].remote_id
                &&& r@[0]->msg->width == size.0
                &&& r@[0]->msg->height == size.1
                &&& final(a)@.set.mirrors[w].last_host_size == size
            }
        }),
{
    assert(r@.len() == ui_views(r@).len());
    if r@.len() > 0 {
        assert(ui_views(r@)[0] == r@[0]@);
    }
}

/// Closing a mirror of the client asks the host to close the window; the mirror
/// stays until the host says that it did.
pub proof fn client_forwards_closing(
    a: &mut App,
    w: LocalId,
    r: Vec<UiAction>,
)
    requires
        call_ensures(App::window_event, (a, w, WindowInput::CloseRequested), r),
        old(a)@.set.mirrors.contains_key(w),
    ensures
        r@.len() == 1,
        r@[0] is Send,
        r@[0]->msg is CloseRequest,
        r@[0]->msg->CloseRequest_window_id == old(a)@.set.mirrors[w].remote_id,
        final(a)@ == old(a)@,
{
    assert(r@.len() == ui_views(r@).len());
    if r@.len() > 0 {
        assert(ui_views(r@)[0] == r@[0]@);
    }
}

/// The modifiers that the client hears of are those that keys are forwarded with;
/// a redraw request is answered with a redraw of that window; and a window that
/// mirrors nothing sends nothing.
pub proof fn client_keeps_modifiers_and_redraws(
    a: &mut App,
    w: LocalId,
    modifiers: Modifiers,
    input: WindowInput,
    r: Vec<UiAction>,
)
    requires
        call_ensures(App::window_event, (a, w, input), r),
    ensures
        input == (WindowInput::ModifiersChanged { modifiers }) ==> r@.len() == 0
            && final(a)@.modifiers == modifiers,
        !(input is ModifiersChanged) ==> final(a)@.modifiers == old(a)@.modifiers,
        input is RedrawRequested ==> r@.len() == 1 && r@[0] is Redraw && r@[0]->Redraw_window == w,
        !(input is RedrawRequested) && !(old(a)@.set.mirrors.contains_key(w)) ==> r@.len() == 0,
{
    assert(r@.len() == ui_views(r@).len());
    if r@.len() > 0 {
        assert(ui_views(r@)[0] == r@[0]@);
    }
}

/// Input to one window of the client leaves every other mirror as it is, and of its
/// own changes at most the pointer's place, the time of the last move and the
/// agreed size.
pub proof fn client_input_stays_in_its_window(
    a: &mut App,
    w: LocalId,
    input: WindowInput,
    r: Vec<UiAction>,
    other: LocalId,
)
    requires
        call_ensures(App::window_event, (a, w, input), r),
    ensures
        final(a)@.set.mirrors.dom() == old(a)@.set.mirrors.dom(),
        other != w ==> final(a)@.set.mirrors[other] == old(a)@.set.mirrors[other],
        final(a)@.set.by_remote == old(a)@.set.by_remote,
        final(a)@.set.by_track == old(a)@.set.by_track,
        final(a)@.set.early_frames == old(a)@.set.early_frames,
        old(a)@.set.mirrors.contains_key(w) ==> {
            let (before, after) = (old(a)@.set.mirrors[w], final(a)@.set.mirrors[w]);
            &&& after.content == before.content
            &&& after.remote_id == before.remote_id
            &&& after.kind == before.kind
            &&& after.base_title == before.base_title
            &&& after.minimized == before.minimized
            &&& after.mapping == before.mapping
        },
{
    assert(final(a)@.set.mirrors.dom() =~= old(a)@.set.mirrors.dom());
}

/// A click or move that reaches the host concerns the window it names, at the
/// place where the host last saw that window, and keeps its point, button and
/// direction; one for a window that the host does not know does nothing.
pub proof fn pointer_reaches_the_window_where_it_stands(
    s: &Session,
    window_id: WindowId,
    x: Scalar,
    y: Scalar,
    button: MouseButton,
    action: MouseAction,
    stands: Option<&WindowInfo>,
    click: InputAction,
    moved: InputAction,
)
    requires
        call_ensures(Session::geometry, (s, window_id), stands),
        call_ensures(
            Session::on_client_message,
            (s, ClientMessage::MouseInput { window_id, x, y, button, action }),
            click,
        ),
        call_ensures(
            Session::on_client_message,
            (s, ClientMessage::MouseMove { window_id, x, y }),
            moved,
        ),
    ensures
        stands is None ==> click is Nothing && moved is Nothing,
        stands is Some ==> {
            &&& click is Mouse
            &&& click->Mouse_window_id == window_id
            &&& click->Mouse_info == *stands->0
            &&& click->Mouse_x == x
            &&& click->Mouse_y == y
            &&& click->button == button
            &&& click->action == action
            &&& moved is MouseMove
            &&& moved->MouseMove_window_id == window_id
            &&& moved->MouseMove_info == *stands->0
            &&& moved->MouseMove_x == x
            &&& moved->MouseMove_y == y
        },
{
}

/// Where the host says that a window stands is what its tracker knows.
pub proof fn geometry_is_the_tracked_one(s: &Session, id: WindowId, r: Option<&WindowInfo>)
    requires
        call_ensures(Session::geometry, (s, id), r),
    ensures
        r is Some <==> s@.tracker.live.contains_key(id),
        r is Some ==> *r->0 == s@.tracker.live[id].info,
{
}

/// A key, a focus change, a resize, a close request and an unsubscription reach
/// what they name as they were sent. An answer to an offer is not input.
pub proof fn other_input_reaches_what_it_names(
    s: &Session,
    window_id: WindowId,
    key_code: u16,
    down: bool,
    flags: u64,
    width: Scalar,
    height: Scalar,
    app_id: u32,
    sdp: String,
    key: InputAction,
    focus: InputAction,
    resize: InputAction,
    close: InputAction,
    unsubscribe: InputAction,
    answer: InputAction,
)
    requires
        call_ensures(
            Session::on_client_message,
            (s, ClientMessage::KeyEvent { window_id, key_code, down, flags }),
            key,
        ),
        call_ensures(
            Session::on_client_message,
            (s, ClientMessage::FocusChange { window_id }),
            focus,
        ),
        call_ensures(
            Session::on_client_message,
            (s, ClientMessage::ResizeRequest { window_id, width, height }),
            resize,
        ),
        call_ensures(
            Session::on_client_message,
            (s, ClientMessage::CloseRequest { window_id }),
            close,
        ),
        call_ensures(
            Session::on_client_message,
            (s, ClientMessage::UnsubscribeApp { app_id }),
            unsubscribe,
        ),
        call_ensures(Session::on_client_message, (s, ClientMessage::SdpAnswer { sdp }), answer),
    ensures
        key is Key,
        key->Key_window_id == window_id,
        key->key_code == key_code,
        key->down == down,
        key->flags == flags,
        focus is Focus,
        focus->Focus_window_id == window_id,
        resize is Resize,
        resize->Resize_window_id == window_id,
        resize->width == width,
        resize->height == height,
        close is Close,
        close->Close_window_id == window_id,
        unsubscribe is Unsubscribe,
        unsubscribe->app_id == app_id,
        answer is Nothing,
{
}

/// The event of a click says which button it was and whether it went down.
pub open spec fn is_click(e: ClickEvent, left: bool, down: bool) -> bool {
    match e {
        ClickEvent::LeftMouseDown => left && down,
        ClickEvent::LeftMouseUp => left && !down,
        ClickEvent::RightMouseDown => !left && down,
        ClickEvent::RightMouseUp => !left && !down,
    }
}

/// Under activation a click is posted at its point with its button and
/// direction. A press first raises the window's application, so it needs to
/// know it; a release is posted as it is.
pub proof fn activation_posts_clicks(
    sink: &AxInput,
    window_id: WindowId,
    x: Scalar,
    y: Scalar,
    button: MouseButton,
    action: MouseAction,
    r: Result<InputPlan, InputError>,
)
    requires
        call_ensures(AxInput::mouse, (sink, window_id, x, y, button, action), r),
    ensures
        r is Err <==> action == MouseAction::Down && !sink@.contains_key(window_id),
        r is Err ==> r->Err_0 == (InputError::UnknownWindow { window_id }),
        r is Ok ==> {
            let plan = r->Ok_0;
            &&& plan is PostGlobal
            &&& plan->raise_first == (if action == MouseAction::Down {
                Some(sink@[window_id])
            } else {
                None
            })
            &&& plan->PostGlobal_event is Click
            &&& is_click(
                plan->PostGlobal_event->event,
                button == MouseButton::Left,
                action == MouseAction::Down,
            )
            &&& plan->PostGlobal_event->button == button
            &&& plan->PostGlobal_event->Click_x == x
            &&& plan->PostGlobal_event->Click_y == y
        },
{
}

/// Under activation moves and keys are posted as they are and raise nothing.
pub proof fn activation_posts_moves_and_keys(
    sink: &AxInput,
    window_id: WindowId,
    x: Scalar,
    y: Scalar,
    key_code: u16,
    down: bool,
    flags: u64,
    moved: Result<InputPlan, InputError>,
    key: Result<InputPlan, InputError>,
)
    requires
        call_ensures(AxInput::mouse_move, (sink, window_id, x, y), moved),
        call_ensures(AxInput::key, (sink, window_id, key_code, down, flags), key),
    ensures
        moved is Ok,
        moved->Ok_0 is PostGlobal,
        moved->Ok_0->raise_first is None,
        moved->Ok_0->PostGlobal_event == (PostedEvent::MouseMoved { x, y }),
        key is Ok,
        key->Ok_0 is PostGlobal,
        key->Ok_0->raise_first is None,
        key->Ok_0->PostGlobal_event == (PostedEvent::Key { key_code, down, flags }),
{
}

/// Under activation a focus change raises the window's application, and a
/// resize and a close go to it; none of them can without knowing it.
pub proof fn activation_finds_the_application(
    sink: &AxInput,
    window_id: WindowId,
    width: Scalar,
    height: Scalar,
    focus: Result<InputPlan, InputError>,
    resize: Result<InputPlan, InputError>,
    close: Result<InputPlan, InputError>,
)
    requires
        call_ensures(AxInput::focus, (sink, window_id), focus),
        call_ensures(AxInput::resize_window, (sink, window_id, width, height), resize),
        call_ensures(AxInput::close_window, (sink, window_id), close),
    ensures
        !sink@.contains_key(window_id) ==> {
            &&& focus is Err && focus->Err_0 == (InputError::UnknownWindow { window_id })
            &&& resize is Err && resize->Err_0 == (InputError::UnknownWindow { window_id })
            &&& close is Err && close->Err_0 == (InputError::UnknownWindow { window_id })
        },
        sink@.contains_key(window_id) ==> {
            &&& focus == Ok::<InputPlan, InputError>(InputPlan::Raise { pid: sink@[window_id] })
            &&& resize is Ok && resize->Ok_0 is ResizeWindow
            &&& resize->Ok_0->ResizeWindow_pid == sink@[window_id]
            &&& resize->Ok_0->width == width
            &&& resize->Ok_0->height == height
            &&& close == Ok::<InputPlan, InputError>(
                InputPlan::CloseWindow { pid: sink@[window_id] },
            )
        },
{
}

/// Posted to a process, every piece of input reaches the window's own process
/// as it was made, or is refused when the process is not known; a focus change
/// does nothing.
pub proof fn posting_reaches_the_process(
    sink: &PidInput,
    window_id: WindowId,
    x: Scalar,
    y: Scalar,
    button: MouseButton,
    action: MouseAction,
    key_code: u16,
    down: bool,
    flags: u64,
    click: Result<InputPlan, InputError>,
    moved: Result<InputPlan, InputError>,
    key: Result<InputPlan, InputError>,
    resize: Result<InputPlan, InputError>,
    close: Result<InputPlan, InputError>,
    focus: Result<InputPlan, InputError>,
)
    requires
        call_ensures(PidInput::mouse, (sink, window_id, x, y, button, action), click),
        call_ensures(PidInput::mouse_move, (sink, window_id, x, y), moved),
        call_ensures(PidInput::key, (sink, window_id, key_code, down, flags), key),
        call_ensures(PidInput::resize_window, (sink, window_id, x, y), resize),
        call_ensures(PidInput::close_window, (sink, window_id), close),
        call_ensures(PidInput::focus, (sink, window_id), focus),
    ensures
        focus == Ok::<InputPlan, InputError>(InputPlan::Nothing),
        !sink@.contains_key(window_id) ==> {
            let unknown = InputError::UnknownWindow { window_id };
            &&& click is Err && click->Err_0 == unknown
            &&& moved is Err && moved->Err_0 == unknown
            &&& key is Err && key->Err_0 == unknown
            &&& resize is Err && resize->Err_0 == unknown
            &&& close is Err && close->Err_0 == unknown
        },
        sink@.contains_key(window_id) ==> {
            let pid = sink@[window_id];
            &&& click is Ok && click->Ok_0 is PostToPid && click->Ok_0->PostToPid_pid == pid
            &&& click->Ok_0->PostToPid_event is Click
            &&& is_click(
                click->Ok_0->PostToPid_event->event,
                button == MouseButton::Left,
                action == MouseAction::Down,
            )
            &&& click->Ok_0->PostToPid_event->button == button
            &&& click->Ok_0->PostToPid_event->Click_x == x
            &&& click->Ok_0->PostToPid_event->Click_y == y
            &&& moved == Ok::<InputPlan, InputError>(
                InputPlan::PostToPid { pid, event: PostedEvent::MouseMoved { x, y } },
            )
            &&& key == Ok::<InputPlan, InputError>(
                InputPlan::PostToPid { pid, event: PostedEvent::Key { key_code, down, flags } },
            )
            &&& resize == Ok::<InputPlan, InputError>(
                InputPlan::ResizeWindow { pid, width: x, height: y },
            )
            &&& close == Ok::<InputPlan, InputError>(InputPlan::CloseWindow { pid })
        },
{
}

/// A button pressed or released over a mirror is the same button pressed or
/// released over the window, all the way from the helper to the event that the
/// host posts.
pub proof fn click_arrives_as_it_was_made(
    h: &mut HelperApp,
    w: LocalId,
    pressed: bool,
    button: LocalButton,
    point: (Scalar, Scalar),
    sent: Vec<UiAction>,
    s: &Session,
    asked: InputAction,
    sink: &AxInput,
    x: Scalar,
    y: Scalar,
    plan: Result<InputPlan, InputError>,
)
    requires
        button != LocalButton::Other,
        old(h)@.set.mirrors.contains_key(w),
        call_ensures(
            HelperApp::window_event,
            (h, w, WindowInput::MouseInput { pressed, button, point }),
            sent,
        ),
        call_ensures(Session::on_client_message, (s, sent@[0]->msg), asked),
        asked is Mouse,
        call_ensures(
            AxInput::mouse,
            (sink, asked->Mouse_window_id, x, y, asked->button, asked->action),
            plan,
        ),
        plan is Ok,
    ensures
        asked->Mouse_window_id == old(h)@.set.mirrors[w].remote_id,
        plan->Ok_0 is PostGlobal,
        plan->Ok_0->PostGlobal_event is Click,
        is_click(plan->Ok_0->PostGlobal_event->event, button == LocalButton::Left, pressed),
{
    helper_forwards_clicks(h, w, pressed, button, point, sent);
}

} // verus!
