//! The local decisions of the event pass: hot state and where an event goes.
use vstd::prelude::*;
use crate::event::{Event, InternalEvent, MouseEvent, Notification, Target};
use crate::bloom::Bloom;
use crate::geometry::{Point, Rect};
use crate::state::{WidgetId, WidgetState};

verus! {

/// Whether a widget whose paint rectangle is `rect` is hot for the pointer at
/// `pos` (`None`: the pointer left the window).
pub open spec fn spec_hot_at(rect: Rect, pos: Option<Point>) -> bool {
    match pos {
        Some(p) => rect.spec_contains(p),
        None => false,
    }
}

/// Whether the pointer at `pos` makes a widget with paint rectangle `rect` hot.
pub fn hot_at(rect: Rect, pos: Option<Point>) -> (r: bool)
    ensures
        r == spec_hot_at(rect, pos),
{
    match pos {
        Some(p) => rect.winding(p) != 0,
        None => false,
    }
}

/// The pointer input an event gives to hot tracking: `Some(Some(p))` for a
/// pointer event at `p`, `Some(None)` when the pointer left, `None` otherwise.
pub open spec fn spec_pointer_input(e: Event) -> Option<Option<Point>> {
    match e {
        Event::MouseDown(m) => Some(Some(m.pos)),
        Event::MouseUp(m) => Some(Some(m.pos)),
        Event::MouseMove(m) => Some(Some(m.pos)),
        Event::Wheel(m) => Some(Some(m.pos)),
        Event::Internal(InternalEvent::MouseLeave) => Some(None),
        _ => None,
    }
}

pub fn pointer_input(e: &Event) -> (r: Option<Option<Point>>)
    ensures
        r == spec_pointer_input(*e),
{
    match e {
        Event::MouseDown(m) => Some(Some(m.pos)),
        Event::MouseUp(m) => Some(Some(m.pos)),
        Event::MouseMove(m) => Some(Some(m.pos)),
        Event::Wheel(m) => Some(Some(m.pos)),
        Event::Internal(InternalEvent::MouseLeave) => Some(None),
        _ => None,
    }
}

/// A pointer event expressed relative to `origin`.
pub open spec fn spec_translated(m: MouseEvent, origin: Point) -> MouseEvent {
    MouseEvent { pos: m.pos.spec_minus(origin), ..m }
}

/// The origin of a widget's layout rectangle in its parent's coordinates.
pub open spec fn spec_layout_origin(s: WidgetState) -> Point {
    Point { x: s.spec_layout_rect().x0, y: s.spec_layout_rect().y0 }
}

/// What routing reads of a node: its id, its descendant filter, its hot,
/// stashed and focus flags, and the origin of its layout rectangle.
#[derive(Clone, Copy, Debug, PartialEq, Eq, Structural)]
pub struct RouteView {
    pub id: WidgetId,
    pub children: Bloom,
    pub is_hot: bool,
    pub is_stashed: bool,
    pub has_focus: bool,
    pub origin: Point,
}

pub open spec fn spec_route_view(s: WidgetState) -> RouteView {
    RouteView {
        id: s.id,
        children: s.children,
        is_hot: s.flags.is_hot,
        is_stashed: s.flags.is_stashed,
        has_focus: s.flags.has_focus,
        origin: spec_layout_origin(s),
    }
}

/// The routing view of a node's state.
pub fn route_view(s: &WidgetState) -> (r: RouteView)
    ensures
        r == spec_route_view(*s),
{
    let lr = s.layout_rect();
    RouteView {
        id: s.id,
        children: s.children,
        is_hot: s.flags.is_hot,
        is_stashed: s.flags.is_stashed,
        has_focus: s.flags.has_focus,
        origin: Point { x: lr.x0, y: lr.y0 },
    }
}

/// Routing of a targeted event: unwrap at the target, pass on where the
/// target may be a descendant, drop elsewhere.
pub open spec fn spec_route_to(
    e: Event,
    s: RouteView,
    target: WidgetId,
    unwrapped: Event,
) -> Option<Event> {
    if target == s.id {
        Some(unwrapped)
    } else if s.children.spec_may_contain(target.0) {
        Some(e)
    } else {
        None
    }
}

/// A pointer event goes in, in local coordinates, when the widget is (or
/// was) active or is hot, and is not stashed.
pub open spec fn spec_route_pointer(go: bool, s: RouteView, m: MouseEvent) -> Option<MouseEvent> {
    if go && !s.is_stashed {
        Some(spec_translated(m, s.origin))
    } else {
        None
    }
}

/// The event handed to the inner widget, if any.
///
/// `s` is the routing view of the node after its hot state was updated; `had_active` is
/// `has_active` before; `hot_changed` tells whether the hot state just
/// changed; `anim_pending` is the animation request before it was cleared;
/// `is_root` tells whether the node is the root of the tree.
#[verifier::opaque]
pub open spec fn spec_route_event(
    e: Event,
    s: RouteView,
    had_active: bool,
    hot_changed: bool,
    anim_pending: bool,
    is_root: bool,
) -> Option<Event> {
    let hot = s.is_hot;
    match e {
        Event::Internal(InternalEvent::MouseLeave) => if had_active || hot_changed {
            Some(e)
        } else {
            None
        },
        Event::Internal(InternalEvent::TargetedCommand(cmd)) => match cmd.target {
            Target::Widget(t) => spec_route_to(e, s, t, Event::Command(cmd)),
            Target::Global => Some(Event::Command(cmd)),
            Target::Window(_) => Some(Event::Command(cmd)),
            Target::Auto => None,
        },
        Event::Internal(InternalEvent::RouteTimer(tok, t)) => spec_route_to(
            e,
            s,
            t,
            Event::Timer(tok),
        ),
        Event::Internal(InternalEvent::RoutePromiseResult(p, t)) => spec_route_to(
            e,
            s,
            t,
            Event::PromiseResult(p),
        ),
        Event::Internal(InternalEvent::RouteImeStateChange(t)) => spec_route_to(
            e,
            s,
            t,
            Event::ImeStateChange,
        ),
        Event::WindowConnected => Some(e),
        Event::WindowCloseRequested => Some(e),
        Event::WindowDisconnected => Some(e),
        Event::WindowSize(_) => if is_root {
            Some(e)
        } else {
            None
        },
        Event::MouseDown(m) => match spec_route_pointer(had_active || hot, s, m) {
            Some(t) => Some(Event::MouseDown(t)),
            None => None,
        },
        Event::MouseUp(m) => match spec_route_pointer(had_active || hot, s, m) {
            Some(t) => Some(Event::MouseUp(t)),
            None => None,
        },
        Event::MouseMove(m) => match spec_route_pointer(had_active || hot || hot_changed, s, m) {
            Some(t) => Some(Event::MouseMove(t)),
            None => None,
        },
        Event::Wheel(m) => match spec_route_pointer(had_active || hot, s, m) {
            Some(t) => Some(Event::Wheel(t)),
            None => None,
        },
        Event::AnimFrame(_) => if anim_pending {
            Some(e)
        } else {
            None
        },
        Event::KeyDown(_) => if s.has_focus {
            Some(e)
        } else {
            None
        },
        Event::KeyUp(_) => if s.has_focus {
            Some(e)
        } else {
            None
        },
        Event::Paste(_) => if s.has_focus {
            Some(e)
        } else {
            None
        },
        Event::Zoom(_) => if had_active || hot {
            Some(e)
        } else {
            None
        },
        Event::Timer(_) => None,
        Event::Notification(_) => None,
        Event::PromiseResult(_) => None,
        Event::ImeStateChange => Some(e),
        Event::Command(_) => Some(e),
    }
}

fn route_to(e: &Event, s: &RouteView, target: WidgetId, unwrapped: Event) -> (r: Option<Event>)
    ensures
        r == spec_route_to(*e, *s, target, unwrapped),
{
    if target == s.id {
        Some(unwrapped)
    } else if s.children.may_contain(target.0) {
        Some(*e)
    } else {
        None
    }
}

fn route_pointer(go: bool, s: &RouteView, m: &MouseEvent) -> (r: Option<MouseEvent>)
    ensures
        r == spec_route_pointer(go, *s, *m),
{
    if go && !s.is_stashed {
        Some(MouseEvent { pos: m.pos.minus(s.origin), ..*m })
    } else {
        None
    }
}

/// Decide whether the inner widget receives `e`, and in which form: pointer
/// positions made local, routed variants unwrapped at their target.
pub fn route_event(
    e: &Event,
    s: &WidgetState,
    had_active: bool,
    hot_changed: bool,
    anim_pending: bool,
    is_root: bool,
) -> (r: Option<Event>)
    ensures
        r == spec_route_event(*e, spec_route_view(*s), had_active, hot_changed, anim_pending, is_root),
{
    reveal(spec_route_event);
    let v = route_view(s);
    let s = &v;
    let hot = s.is_hot;
    match e {
        Event::Internal(InternalEvent::MouseLeave) => if had_active || hot_changed {
            Some(*e)
        } else {
            None
        },
        Event::Internal(InternalEvent::TargetedCommand(cmd)) => match cmd.target {
            Target::Widget(t) => route_to(e, s, t, Event::Command(*cmd)),
            Target::Global => Some(Event::Command(*cmd)),
            Target::Window(_) => Some(Event::Command(*cmd)),
            Target::Auto => None,
        },
        Event::Internal(InternalEvent::RouteTimer(tok, t)) => route_to(e, s, *t, Event::Timer(*tok)),
        Event::Internal(InternalEvent::RoutePromiseResult(p, t)) => route_to(
            e,
            s,
            *t,
            Event::PromiseResult(*p),
        ),
        Event::Internal(InternalEvent::RouteImeStateChange(t)) => route_to(
            e,
            s,
            *t,
            Event::ImeStateChange,
        ),
        Event::WindowConnected => Some(*e),
        Event::WindowCloseRequested => Some(*e),
        Event::WindowDisconnected => Some(*e),
        Event::WindowSize(_) => if is_root {
            Some(*e)
        } else {
            None
        },
        Event::MouseDown(m) => match route_pointer(had_active || hot, s, m) {
            Some(t) => Some(Event::MouseDown(t)),
            None => None,
        },
        Event::MouseUp(m) => match route_pointer(had_active || hot, s, m) {
            Some(t) => Some(Event::MouseUp(t)),
            None => None,
        },
        Event::MouseMove(m) => match route_pointer(had_active || hot || hot_changed, s, m) {
            Some(t) => Some(Event::MouseMove(t)),
            None => None,
        },
        Event::Wheel(m) => match route_pointer(had_active || hot, s, m) {
            Some(t) => Some(Event::Wheel(t)),
            None => None,
        },
        Event::AnimFrame(_) => if anim_pending {
            Some(*e)
        } else {
            None
        },
        Event::KeyDown(_) => if s.has_focus {
            Some(*e)
        } else {
            None
        },
        Event::KeyUp(_) => if s.has_focus {
            Some(*e)
        } else {
            None
        },
        Event::Paste(_) => if s.has_focus {
            Some(*e)
        } else {
            None
        },
        Event::Zoom(_) => if had_active || hot {
            Some(*e)
        } else {
            None
        },
        Event::Timer(_) => None,
        Event::Notification(_) => None,
        Event::PromiseResult(_) => None,
        Event::ImeStateChange => Some(*e),
        Event::Command(_) => Some(*e),
    }
}

/// What goes up to the grandparent for one notification that came out of a
/// widget's event call: one emitted by the widget itself (`source == self_id`)
/// goes on as it is; any other was shown to the widget, which emitted
/// `emitted` while handling it, and goes on after those unless handled.
pub open spec fn spec_bubble(
    n: Notification,
    self_id: WidgetId,
    handled: bool,
    emitted: Seq<Notification>,
) -> Seq<Notification> {
    if n.source == self_id {
        seq![n]
    } else if handled {
        emitted
    } else {
        emitted.push(n)
    }
}

/// Append to `out` what goes up for notification `n` (see `spec_bubble`).
pub fn bubble_notification(
    out: &mut Vec<Notification>,
    n: Notification,
    self_id: WidgetId,
    handled: bool,
    emitted: &Vec<Notification>,
)
    ensures
        final(out)@ == old(out)@ + spec_bubble(n, self_id, handled, emitted@),
{
    if n.source == self_id {
        out.push(n);
        assert(final(out)@ =~= old(out)@ + seq![n]);
    } else {
        let mut i: usize = 0;
        while i < emitted.len()
            invariant
                i <= emitted@.len(),
                out@ == old(out)@ + emitted@.subrange(0, i as int),
            decreases emitted@.len() - i,
        {
            out.push(emitted[i]);
            assert(emitted@.subrange(0, i as int + 1) =~= emitted@.subrange(0, i as int).push(
                emitted@[i as int],
            ));
            i += 1;
        }
        assert(emitted@.subrange(0, emitted@.len() as int) =~= emitted@);
        if !handled {
            out.push(n);
            assert(final(out)@ =~= old(out)@ + emitted@.push(n));
        }
    }
}

/// Whether a hot-state update reports a change: the widget was hot and the
/// pointer is no longer over it, or the other way round.
pub open spec fn spec_hot_changed(was_hot: bool, rect: Rect, pos: Option<Point>) -> bool {
    was_hot != spec_hot_at(rect, pos)
}

/// Hot-state updates are idempotent: after one update for a pointer position
/// (which leaves the hot state at `spec_hot_at(rect, pos)`), a second update
/// for the same position reports no change and keeps the hot state.
pub proof fn lemma_hot_state_idempotent(was_hot: bool, rect: Rect, pos: Option<Point>)
    ensures
        !spec_hot_changed(spec_hot_at(rect, pos), rect, pos),
        spec_hot_changed(was_hot, rect, pos) ==> was_hot != spec_hot_at(rect, pos),
{
}

} // verus!
