//! The events and lifecycle signals that flow through the tree.
//!
//! Payloads are opaque to the pass logic, which reads only positions,
//! identifiers and tokens.
use vstd::prelude::*;
use crate::geometry::{Point, Rect, Size};
use crate::state::WidgetId;

verus! {

/// The id of a window.
#[derive(Clone, Copy, Debug, PartialEq, Eq, Hash, Structural)]
pub struct WindowId(pub u64);

/// The token of a timer.
#[derive(Clone, Copy, Debug, PartialEq, Eq, Hash, Structural)]
pub struct TimerToken(pub u64);

/// A pointer event.
#[derive(Clone, Copy, Debug, PartialEq, Eq, Structural)]
pub struct MouseEvent {
    /// Position in the receiving widget's coordinate space.
    pub pos: Point,
    /// Position in window coordinates.
    pub window_pos: Point,
    /// Buttons held, one bit each.
    pub buttons: u32,
    /// The button that changed, if any (`0` for none).
    pub button: u32,
    /// Number of clicks in a row.
    pub count: u8,
    /// Scroll amount, for wheel events.
    pub wheel_delta: Point,
}

/// A keyboard event.
#[derive(Clone, Copy, Debug, PartialEq, Eq, Structural)]
pub struct KeyEvent {
    pub code: u32,
    pub mods: u32,
    pub repeat: bool,
}

/// A handle to data on the clipboard.
#[derive(Clone, Copy, Debug, PartialEq, Eq, Structural)]
pub struct PasteData {
    pub token: u64,
}

/// Where a command goes.
#[derive(Clone, Copy, Debug, PartialEq, Eq, Structural)]
pub enum Target {
    /// Every window.
    Global,
    /// One window.
    Window(WindowId),
    /// One widget.
    Widget(WidgetId),
    /// Resolved by whoever submits it.
    Auto,
}

/// A command: a selector with a payload, for a target.
#[derive(Clone, Copy, Debug, PartialEq, Eq, Structural)]
pub struct Command {
    pub selector: u64,
    pub payload: u64,
    pub target: Target,
}

/// A message a widget sends to its ancestors.
#[derive(Clone, Copy, Debug, PartialEq, Eq, Structural)]
pub struct Notification {
    pub source: WidgetId,
    pub selector: u64,
    pub payload: u64,
}

/// The outcome of a promise a widget was waiting on.
#[derive(Clone, Copy, Debug, PartialEq, Eq, Structural)]
pub struct PromiseResult {
    pub token: u64,
    pub payload: u64,
}

/// An event of the event pass.
#[derive(Clone, Copy, Debug, PartialEq, Eq, Structural)]
pub enum Event {
    WindowConnected,
    WindowCloseRequested,
    WindowDisconnected,
    WindowSize(Size),
    MouseDown(MouseEvent),
    MouseUp(MouseEvent),
    MouseMove(MouseEvent),
    Wheel(MouseEvent),
    KeyDown(KeyEvent),
    KeyUp(KeyEvent),
    Paste(PasteData),
    /// A zoom gesture; the amount is in thousandths.
    Zoom(i64),
    Timer(TimerToken),
    /// Nanoseconds since the last frame.
    AnimFrame(u64),
    ImeStateChange,
    Command(Command),
    Notification(Notification),
    PromiseResult(PromiseResult),
    Internal(InternalEvent),
}

/// Events that the passes route and unwrap.
#[derive(Clone, Copy, Debug, PartialEq, Eq, Structural)]
pub enum InternalEvent {
    /// The pointer left the window.
    MouseLeave,
    TargetedCommand(Command),
    RouteTimer(TimerToken, WidgetId),
    RoutePromiseResult(PromiseResult, WidgetId),
    RouteImeStateChange(WidgetId),
}

/// Signals of the lifecycle pass.
#[derive(Clone, Copy, Debug, PartialEq, Eq, Structural)]
pub enum LifeCycle {
    /// The widget joined the tree; sent once.
    WidgetAdded,
    /// The disabled state of an ancestor became the value carried.
    DisabledChanged(bool),
    BuildFocusChain,
    /// A child asks to be scrolled into view; never sent downward.
    RequestPanToChild(Rect),
    Internal(InternalLifeCycle),
}

/// Lifecycle signals that the passes route.
#[derive(Clone, Copy, Debug, PartialEq, Eq, Structural)]
pub enum InternalLifeCycle {
    RouteWidgetAdded,
    RouteDisabledChanged,
    RouteFocusChanged { old: Option<WidgetId>, new: Option<WidgetId> },
    ParentWindowOrigin,
}

/// A change of a widget's own status, sent to it alone.
#[derive(Clone, Copy, Debug, PartialEq, Eq, Structural)]
pub enum StatusChange {
    HotChanged(bool),
    FocusChanged(bool),
}

/// The sizes a widget may take in layout.
#[derive(Clone, Copy, Debug, PartialEq, Eq, Structural)]
pub struct BoxConstraints {
    pub min: Size,
    pub max: Size,
}

impl BoxConstraints {
    pub open spec fn spec_is_valid(self) -> bool {
        0 <= self.min.width <= self.max.width && 0 <= self.min.height <= self.max.height
    }

    /// Minimum at most maximum, and neither negative.
    pub fn is_valid(&self) -> (r: bool)
        ensures
            r == self.spec_is_valid(),
    {
        0 <= self.min.width && self.min.width <= self.max.width && 0 <= self.min.height
            && self.min.height <= self.max.height
    }
}

} // verus!
