//! How a client's input reaches the host's windows.
//!
//! A sink turns a piece of input into an [`InputPlan`]; posting events and
//! talking to the accessibility API is left to the caller.

use crate::protocol::{MouseAction, MouseButton, WindowId};
use crate::scalar::Scalar;
use std::collections::HashMap;
use vstd::prelude::*;

verus! {

broadcast use vstd::std_specs::hash::group_hash_axioms;

/// How long the window server gets to complete a focus change before a click
/// lands, in milliseconds.
pub const RAISE_SETTLE_MS: u64 = 60;

/// Input for a window; points are on the host's screen.
#[derive(Debug, Clone, Copy)]
pub enum WindowWork {
    Mouse { x: Scalar, y: Scalar, button: MouseButton, action: MouseAction },
    MouseMove { x: Scalar, y: Scalar },
    Key { key_code: u16, down: bool, flags: u64 },
    Focus,
    Resize { width: Scalar, height: Scalar },
    Close,
}

/// The system event of a click.
#[derive(Debug, Clone, Copy, PartialEq, Eq, Structural)]
pub enum ClickEvent {
    LeftMouseDown,
    LeftMouseUp,
    RightMouseDown,
    RightMouseUp,
}

/// A system event.
#[derive(Debug, Clone, Copy)]
pub enum PostedEvent {
    Click { event: ClickEvent, button: MouseButton, x: Scalar, y: Scalar },
    MouseMoved { x: Scalar, y: Scalar },
    Key { key_code: u16, down: bool, flags: u64 },
}

/// What delivers a piece of input.
#[derive(Debug, Clone, Copy)]
pub enum InputPlan {
    Nothing,
    /// Make the window's application frontmost and raise the window.
    Raise { pid: i32 },
    /// Post an event at the input tap, where the frontmost application gets
    /// it; raise the window of that process first, if one is given, and post
    /// nothing if that fails.
    PostGlobal { raise_first: Option<i32>, event: PostedEvent },
    /// Post an event to a process.
    PostToPid { pid: i32, event: PostedEvent },
    ResizeWindow { pid: i32, width: Scalar, height: Scalar },
    CloseWindow { pid: i32 },
}

/// Why a piece of input cannot be delivered.
#[derive(Debug, Clone, Copy, PartialEq, Eq, Structural)]
pub enum InputError {
    /// No process is known for the window.
    UnknownWindow { window_id: WindowId },
}

pub open spec fn click_event(button: MouseButton, action: MouseAction) -> ClickEvent {
    match (button, action) {
        (MouseButton::Left, MouseAction::Down) => ClickEvent::LeftMouseDown,
        (MouseButton::Left, MouseAction::Up) => ClickEvent::LeftMouseUp,
        (MouseButton::Right, MouseAction::Down) => ClickEvent::RightMouseDown,
        (MouseButton::Right, MouseAction::Up) => ClickEvent::RightMouseUp,
    }
}

/// The system event of a click.
pub fn click_event_of(button: MouseButton, action: MouseAction) -> (e: ClickEvent)
    ensures
        e == click_event(button, action),
{
    match (button, action) {
        (MouseButton::Left, MouseAction::Down) => ClickEvent::LeftMouseDown,
        (MouseButton::Left, MouseAction::Up) => ClickEvent::LeftMouseUp,
        (MouseButton::Right, MouseAction::Down) => ClickEvent::RightMouseDown,
        (MouseButton::Right, MouseAction::Up) => ClickEvent::RightMouseUp,
    }
}

/// The process of a window.
pub open spec fn process_of(pids: Map<WindowId, i32>, window_id: WindowId) -> Result<
    i32,
    InputError,
> {
    if pids.contains_key(window_id) {
        Ok(pids[window_id])
    } else {
        Err(InputError::UnknownWindow { window_id })
    }
}

fn find_process(pids: &HashMap<WindowId, i32>, window_id: WindowId) -> (r: Result<i32, InputError>)
    ensures
        r == process_of(pids@, window_id),
{
    match pids.get(&window_id) {
        Some(pid) => Ok(*pid),
        None => Err(InputError::UnknownWindow { window_id }),
    }
}

/// Platform seam: deliver input to a specific host window.
pub trait InputSink {
    /// The processes of the windows.
    spec fn processes(&self) -> Map<WindowId, i32>;

    /// What delivers a piece of input.
    spec fn plan_for(&self, window_id: WindowId, work: WindowWork) -> Result<InputPlan, InputError>;

    /// What delivers a piece of input.
    fn plan(&self, window_id: WindowId, work: WindowWork) -> (r: Result<InputPlan, InputError>)
        ensures
            r == self.plan_for(window_id, work),
    ;

    fn mouse(
        &self,
        window_id: WindowId,
        screen_x: Scalar,
        screen_y: Scalar,
        button: MouseButton,
        action: MouseAction,
    ) -> (r: Result<InputPlan, InputError>)
        ensures
            r == self.plan_for(
                window_id,
                WindowWork::Mouse { x: screen_x, y: screen_y, button, action },
            ),
    {
        self.plan(window_id, WindowWork::Mouse { x: screen_x, y: screen_y, button, action })
    }

    fn mouse_move(&self, window_id: WindowId, screen_x: Scalar, screen_y: Scalar) -> (r: Result<
        InputPlan,
        InputError,
    >)
        ensures
            r == self.plan_for(window_id, WindowWork::MouseMove { x: screen_x, y: screen_y }),
    {
        self.plan(window_id, WindowWork::MouseMove { x: screen_x, y: screen_y })
    }

    fn key(&self, window_id: WindowId, key_code: u16, down: bool, flags: u64) -> (r: Result<
        InputPlan,
        InputError,
    >)
        ensures
            r == self.plan_for(window_id, WindowWork::Key { key_code, down, flags }),
    {
        self.plan(window_id, WindowWork::Key { key_code, down, flags })
    }

    /// Client-side mirror focus changed; make this window the host input
    /// target.
    fn focus(&self, window_id: WindowId) -> (r: Result<InputPlan, InputError>)
        ensures
            r == self.plan_for(window_id, WindowWork::Focus),
    {
        self.plan(window_id, WindowWork::Focus)
    }

    /// Client-driven resize (bidirectional size sync), width/height in host
    /// points.
    fn resize_window(&self, window_id: WindowId, width: Scalar, height: Scalar) -> (r: Result<
        InputPlan,
        InputError,
    >)
        ensures
            r == self.plan_for(window_id, WindowWork::Resize { width, height }),
    {
        self.plan(window_id, WindowWork::Resize { width, height })
    }

    fn close_window(&self, window_id: WindowId) -> (r: Result<InputPlan, InputError>)
        ensures
            r == self.plan_for(window_id, WindowWork::Close),
    {
        self.plan(window_id, WindowWork::Close)
    }

    /// The tracker's live map from windows to processes.
    fn set_pid_map(&mut self, pids: HashMap<WindowId, i32>)
        ensures
            final(self).processes() == pids@,
    ;
}

/// Activates a window's application before it posts: keys and clicks land on
/// the frontmost application.
pub struct AxInput {
    pids: HashMap<WindowId, i32>,
}

impl View for AxInput {
    type V = Map<WindowId, i32>;

    closed spec fn view(&self) -> Map<WindowId, i32> {
        self.pids@
    }
}

/// What delivers input by activation. Only a press raises its window: a
/// release follows a press that already did, and moves must not churn focus.
pub open spec fn activating_plan(
    pids: Map<WindowId, i32>,
    window_id: WindowId,
    work: WindowWork,
) -> Result<InputPlan, InputError> {
    let process = process_of(pids, window_id);
    match work {
        WindowWork::Mouse { x, y, button, action } => {
            let event = PostedEvent::Click { event: click_event(button, action), button, x, y };
            if action == MouseAction::Down {
                match process {
                    Ok(pid) => Ok(InputPlan::PostGlobal { raise_first: Some(pid), event }),
                    Err(e) => Err(e),
                }
            } else {
                Ok(InputPlan::PostGlobal { raise_first: None, event })
            }
        },
        WindowWork::MouseMove { x, y } => Ok(
            InputPlan::PostGlobal { raise_first: None, event: PostedEvent::MouseMoved { x, y } },
        ),
        WindowWork::Key { key_code, down, flags } => Ok(
            InputPlan::PostGlobal {
                raise_first: None,
                event: PostedEvent::Key { key_code, down, flags },
            },
        ),
        WindowWork::Focus => match process {
            Ok(pid) => Ok(InputPlan::Raise { pid }),
            Err(e) => Err(e),
        },
        WindowWork::Resize { width, height } => match process {
            Ok(pid) => Ok(InputPlan::ResizeWindow { pid, width, height }),
            Err(e) => Err(e),
        },
        WindowWork::Close => match process {
            Ok(pid) => Ok(InputPlan::CloseWindow { pid }),
            Err(e) => Err(e),
        },
    }
}

impl AxInput {
    pub fn new(pids: HashMap<WindowId, i32>) -> (s: AxInput)
        ensures
            s@ == pids@,
    {
        AxInput { pids }
    }
}

impl InputSink for AxInput {
    open spec fn processes(&self) -> Map<WindowId, i32> {
        self@
    }

    open spec fn plan_for(&self, window_id: WindowId, work: WindowWork) -> Result<
        InputPlan,
        InputError,
    > {
        activating_plan(self@, window_id, work)
    }

    fn plan(&self, window_id: WindowId, work: WindowWork) -> (r: Result<InputPlan, InputError>) {
        match work {
            WindowWork::Mouse { x, y, button, action } => {
                let event = PostedEvent::Click {
                    event: click_event_of(button, action),
                    button,
                    x,
                    y,
                };
                if action == MouseAction::Down {
                    match find_process(&self.pids, window_id) {
                        Ok(pid) => Ok(InputPlan::PostGlobal { raise_first: Some(pid), event }),
                        Err(e) => Err(e),
                    }
                } else {
                    Ok(InputPlan::PostGlobal { raise_first: None, event })
                }
            },
            WindowWork::MouseMove { x, y } => Ok(
                InputPlan::PostGlobal {
                    raise_first: None,
                    event: PostedEvent::MouseMoved { x, y },
                },
            ),
            WindowWork::Key { key_code, down, flags } => Ok(
                InputPlan::PostGlobal {
                    raise_first: None,
                    event: PostedEvent::Key { key_code, down, flags },
                },
            ),
            WindowWork::Focus => match find_process(&self.pids, window_id) {
                Ok(pid) => Ok(InputPlan::Raise { pid }),
                Err(e) => Err(e),
            },
            WindowWork::Resize { width, height } => match find_process(&self.pids, window_id) {
                Ok(pid) => Ok(InputPlan::ResizeWindow { pid, width, height }),
                Err(e) => Err(e),
            },
            WindowWork::Close => match find_process(&self.pids, window_id) {
                Ok(pid) => Ok(InputPlan::CloseWindow { pid }),
                Err(e) => Err(e),
            },
        }
    }

    fn set_pid_map(&mut self, pids: HashMap<WindowId, i32>) {
        self.pids = pids;
    }
}

/// Posts events to a window's process: they carry their target, so nothing is
/// raised.
pub struct PidInput {
    pids: HashMap<WindowId, i32>,
}

impl View for PidInput {
    type V = Map<WindowId, i32>;

    closed spec fn view(&self) -> Map<WindowId, i32> {
        self.pids@
    }
}

/// What delivers input by process.
pub open spec fn targeted_plan(
    pids: Map<WindowId, i32>,
    window_id: WindowId,
    work: WindowWork,
) -> Result<InputPlan, InputError> {
    match work {
        WindowWork::Focus => Ok(InputPlan::Nothing),
        _ => match process_of(pids, window_id) {
            Err(e) => Err(e),
            Ok(pid) => match work {
                WindowWork::Mouse { x, y, button, action } => Ok(
                    InputPlan::PostToPid {
                        pid,
                        event: PostedEvent::Click {
                            event: click_event(button, action),
                            button,
                            x,
                            y,
                        },
                    },
                ),
                WindowWork::MouseMove { x, y } => Ok(
                    InputPlan::PostToPid { pid, event: PostedEvent::MouseMoved { x, y } },
                ),
                WindowWork::Key { key_code, down, flags } => Ok(
                    InputPlan::PostToPid { pid, event: PostedEvent::Key { key_code, down, flags } },
                ),
                WindowWork::Focus => Ok(InputPlan::Nothing),
                WindowWork::Resize { width, height } => Ok(
                    InputPlan::ResizeWindow { pid, width, height },
                ),
                WindowWork::Close => Ok(InputPlan::CloseWindow { pid }),
            },
        },
    }
}

impl PidInput {
    pub fn new(pids: HashMap<WindowId, i32>) -> (s: PidInput)
        ensures
            s@ == pids@,
    {
        PidInput { pids }
    }

    /// The process of a window.
    pub fn pid(&self, window_id: WindowId) -> (r: Result<i32, InputError>)
        ensures
            r == process_of(self@, window_id),
    {
        find_process(&self.pids, window_id)
    }
}

impl InputSink for PidInput {
    open spec fn processes(&self) -> Map<WindowId, i32> {
        self@
    }

    open spec fn plan_for(&self, window_id: WindowId, work: WindowWork) -> Result<
        InputPlan,
        InputError,
    > {
        targeted_plan(self@, window_id, work)
    }

    fn plan(&self, window_id: WindowId, work: WindowWork) -> (r: Result<InputPlan, InputError>) {
        if let WindowWork::Focus = work {
            return Ok(InputPlan::Nothing);
        }
        let pid: i32 = match self.pid(window_id) {
            Ok(pid) => pid,
            Err(e) => {
                return Err(e);
            },
        };
        match work {
            WindowWork::Mouse { x, y, button, action } => {
                let event = PostedEvent::Click {
                    event: click_event_of(button, action),
                    button,
                    x,
                    y,
                };
                Ok(InputPlan::PostToPid { pid, event })
            },
            WindowWork::MouseMove { x, y } => Ok(
                InputPlan::PostToPid { pid, event: PostedEvent::MouseMoved { x, y } },
            ),
            WindowWork::Key { key_code, down, flags } => Ok(
                InputPlan::PostToPid { pid, event: PostedEvent::Key { key_code, down, flags } },
            ),
            WindowWork::Focus => Ok(InputPlan::Nothing),
            WindowWork::Resize { width, height } => Ok(
                InputPlan::ResizeWindow { pid, width, height },
            ),
            WindowWork::Close => Ok(InputPlan::CloseWindow { pid }),
        }
    }

    fn set_pid_map(&mut self, pids: HashMap<WindowId, i32>) {
        self.pids = pids;
    }
}

/// Only a press or a focus change raises a window, and only under activation.
pub proof fn only_press_and_focus_raise(
    pids: Map<WindowId, i32>,
    window_id: WindowId,
    work: WindowWork,
)
    ensures
        match activating_plan(pids, window_id, work) {
            Ok(InputPlan::PostGlobal { raise_first: Some(_), .. }) => work is Mouse && work->action
                == MouseAction::Down,
            Ok(InputPlan::Raise { .. }) => work is Focus,
            _ => true,
        },
        match targeted_plan(pids, window_id, work) {
            Ok(InputPlan::PostGlobal { .. }) => false,
            Ok(InputPlan::Raise { .. }) => false,
            _ => true,
        },
{
}

} // verus!
