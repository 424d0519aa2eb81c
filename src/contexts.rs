//! The scoped contexts handed to widgets during each pass, and the state
//! shared by a whole pass.
use vstd::prelude::*;
use crate::event::Notification;
use crate::geometry::{Insets, Point, Rect, Region, Size};
use crate::state::{flags_with_active, FocusChange, WidgetId, WidgetState};

verus! {

/// An RGBA color.
#[derive(Clone, Copy, Debug, PartialEq, Eq, Structural)]
pub struct Color {
    pub r: u8,
    pub g: u8,
    pub b: u8,
    pub a: u8,
}

/// The configuration a tree is run with.
#[derive(Clone, Debug)]
pub struct Env {
    /// Outline every widget's layout bounds.
    pub debug_paint: bool,
    /// Label the hot widget with its id.
    pub debug_widget_id: bool,
    /// Colors for debug drawing, chosen by widget id.
    pub debug_colors: Vec<Color>,
}

/// Color used for debug drawing when the palette is empty.
pub open spec fn fallback_debug_color() -> Color {
    Color { r: 128, g: 128, b: 128, a: 255 }
}

impl Env {
    pub open spec fn spec_debug_color(&self, id: u64) -> Color {
        if self.debug_colors@.len() == 0 {
            fallback_debug_color()
        } else {
            self.debug_colors@[(id % (self.debug_colors@.len() as u64)) as int]
        }
    }

    /// The two environments hold the same settings.
    pub open spec fn same_as(self, o: Env) -> bool {
        self.debug_paint == o.debug_paint && self.debug_widget_id == o.debug_widget_id
            && self.debug_colors@ == o.debug_colors@
    }

    /// A copy of this environment.
    pub fn copy(&self) -> (r: Env)
        ensures
            r.same_as(*self),
    {
        let mut colors: Vec<Color> = Vec::new();
        let mut i: usize = 0;
        while i < self.debug_colors.len()
            invariant
                i <= self.debug_colors@.len(),
                colors@ == self.debug_colors@.subrange(0, i as int),
            decreases self.debug_colors@.len() - i,
        {
            colors.push(self.debug_colors[i]);
            assert(self.debug_colors@.subrange(0, i as int + 1) =~= self.debug_colors@.subrange(0, i as int).push(self.debug_colors@[i as int]));
            i += 1;
        }
        assert(self.debug_colors@.subrange(0, self.debug_colors@.len() as int) =~= self.debug_colors@);
        assert(colors@ =~= self.debug_colors@);
        Env { debug_paint: self.debug_paint, debug_widget_id: self.debug_widget_id, debug_colors: colors }
    }

    /// The debug color of the widget with raw id `id`: the palette cycled by id.
    pub fn get_debug_color(&self, id: u64) -> (r: Color)
        ensures
            r == self.spec_debug_color(id),
    {
        let n = self.debug_colors.len();
        if n == 0 {
            Color { r: 128, g: 128, b: 128, a: 255 }
        } else {
            self.debug_colors[(id % (n as u64)) as usize]
        }
    }
}

/// The pass in which a problem was found.
#[derive(Clone, Copy, Debug, PartialEq, Eq, Structural)]
pub enum PassName {
    Event,
    Lifecycle,
    Layout,
    Paint,
}

/// A protocol violation by a widget implementation, or a warning.
#[derive(Clone, Copy, Debug, PartialEq, Eq, Structural)]
pub enum Diagnostic {
    /// A pass reached a widget before `WidgetAdded`.
    NotInitialized { widget: WidgetId, pass: PassName },
    /// `WidgetAdded` came a second time.
    AlreadyInitialized { widget: WidgetId },
    /// Layout was asked of a stashed widget.
    LayoutOfStashed { widget: WidgetId },
    /// Paint was asked of a stashed widget.
    PaintOfStashed { widget: WidgetId },
    /// The children changed without `children_changed` being flagged.
    ChildrenChangedUnflagged { widget: WidgetId, pass: PassName },
    /// A child that is not stashed was not visited.
    ChildNotVisited { parent: WidgetId, child: WidgetId, pass: PassName },
    /// A child was laid out but not placed.
    MissingPlaceChild { parent: WidgetId, child: WidgetId },
    /// A child paints outside its parent's paint bounds.
    ChildPaintOutside { parent: WidgetId, child: WidgetId },
    /// Layout produced an unbounded (saturated) width (`horizontal`) or height.
    UnboundedSize { widget: WidgetId, horizontal: bool },
    /// Layout constraints with a minimum above the maximum, or negative.
    InvalidConstraints { widget: WidgetId },
}

/// State shared by every widget during one pass.
#[derive(Debug)]
pub struct GlobalPassCtx {
    /// The widget that has keyboard focus.
    pub focus_widget: Option<WidgetId>,
    /// Stamp given to the next widget visited. A driver keeps this clock
    /// increasing over the life of the tree (it starts each pass at least
    /// where the last one ended), so that a stamp from an earlier pass is
    /// never taken for a visit in this one.
    pub visit_clock: u64,
    /// Problems found so far.
    pub diagnostics: Vec<Diagnostic>,
}

impl GlobalPassCtx {
    pub fn new(focus_widget: Option<WidgetId>) -> (r: GlobalPassCtx)
        ensures
            r.focus_widget == focus_widget,
            r.visit_clock == 1,
            r.diagnostics@.len() == 0,
    {
        GlobalPassCtx { focus_widget, visit_clock: 1, diagnostics: Vec::new() }
    }

    /// The shared state of a pass that follows one whose clock ended at
    /// `visit_clock`.
    pub fn resume(focus_widget: Option<WidgetId>, visit_clock: u64) -> (r: GlobalPassCtx)
        ensures
            r.focus_widget == focus_widget,
            r.visit_clock == visit_clock,
            r.diagnostics@.len() == 0,
    {
        GlobalPassCtx { focus_widget, visit_clock, diagnostics: Vec::new() }
    }

    /// The shared state handed to a widget's own code: the same focus and
    /// clock, and an empty list of problems, to be absorbed afterwards.
    pub fn for_child(&self) -> (r: GlobalPassCtx)
        ensures
            r.focus_widget == self.focus_widget,
            r.visit_clock == self.visit_clock,
            r.diagnostics@.len() == 0,
    {
        GlobalPassCtx { focus_widget: self.focus_widget, visit_clock: self.visit_clock, diagnostics: Vec::new() }
    }

    /// Take back the shared state handed to a widget's own code: its clock,
    /// and its problems after the ones recorded so far.
    pub fn absorb(&mut self, child: GlobalPassCtx)
        ensures
            final(self).diagnostics@ == old(self).diagnostics@ + child.diagnostics@,
            final(self).focus_widget == old(self).focus_widget,
            final(self).visit_clock == child.visit_clock,
    {
        let mut i: usize = 0;
        while i < child.diagnostics.len()
            invariant
                i <= child.diagnostics@.len(),
                self.diagnostics@ == old(self).diagnostics@ + child.diagnostics@.subrange(0, i as int),
                self.focus_widget == old(self).focus_widget,
            decreases child.diagnostics@.len() - i,
        {
            self.diagnostics.push(child.diagnostics[i]);
            assert(child.diagnostics@.subrange(0, i as int + 1) =~= child.diagnostics@.subrange(0, i as int).push(child.diagnostics@[i as int]));
            assert(self.diagnostics@ =~= old(self).diagnostics@ + child.diagnostics@.subrange(0, i as int + 1));
            i += 1;
        }
        assert(child.diagnostics@.subrange(0, child.diagnostics@.len() as int) =~= child.diagnostics@);
        self.visit_clock = child.visit_clock;
    }

    /// Record a problem.
    pub fn report(&mut self, d: Diagnostic)
        ensures
            final(self).diagnostics@ == old(self).diagnostics@.push(d),
            final(self).focus_widget == old(self).focus_widget,
            final(self).visit_clock == old(self).visit_clock,
    {
        self.diagnostics.push(d);
    }

    /// Take a stamp for a visit; stamps never decrease.
    pub fn next_stamp(&mut self) -> (r: u64)
        ensures
            r == old(self).visit_clock,
            final(self).visit_clock == if r < u64::MAX {
                (r + 1) as u64
            } else {
                r
            },
            final(self).focus_widget == old(self).focus_widget,
            final(self).diagnostics == old(self).diagnostics,
    {
        let r = self.visit_clock;
        if r < u64::MAX {
            self.visit_clock = r + 1;
        }
        r
    }
}

/// `after` keeps the focus of `before` and every problem it had recorded,
/// in order, possibly followed by more.
pub open spec fn keeps(before: GlobalPassCtx, after: GlobalPassCtx) -> bool {
    &&& after.focus_widget == before.focus_widget
    &&& before.diagnostics@.len() <= after.diagnostics@.len()
    &&& after.diagnostics@.subrange(0, before.diagnostics@.len() as int) == before.diagnostics@
}

pub proof fn lemma_keeps_refl(a: GlobalPassCtx)
    ensures
        keeps(a, a),
{
    assert(a.diagnostics@.subrange(0, a.diagnostics@.len() as int) =~= a.diagnostics@);
}

pub proof fn lemma_keeps_trans(a: GlobalPassCtx, b: GlobalPassCtx, c: GlobalPassCtx)
    requires
        keeps(a, b),
        keeps(b, c),
    ensures
        keeps(a, c),
{
    assert(c.diagnostics@.subrange(0, a.diagnostics@.len() as int) =~= c.diagnostics@.subrange(
        0,
        b.diagnostics@.len() as int,
    ).subrange(0, a.diagnostics@.len() as int));
}

/// What a container reports of one child, for the checks run after a pass.
#[derive(Clone, Copy, Debug, PartialEq, Eq, Structural)]
pub struct ChildSummary {
    pub id: WidgetId,
    pub last_visit: u64,
    pub is_stashed: bool,
    pub is_expecting_place_child_call: bool,
    pub paint_rect: Rect,
}

/// The context of the event pass.
#[derive(Debug)]
pub struct EventCtx {
    pub global_state: GlobalPassCtx,
    pub widget_state: WidgetState,
    /// Notifications for the ancestors.
    pub notifications: Vec<Notification>,
    pub is_handled: bool,
    /// This context belongs to the root of the tree.
    pub is_root: bool,
    /// A rectangle (in this widget's coordinates) to scroll into view.
    pub request_pan_to_child: Option<Rect>,
}

impl EventCtx {
    /// The context a driver hands to the root pod.
    pub fn new_root(global_state: GlobalPassCtx, widget_state: WidgetState) -> (r: EventCtx)
        ensures
            r.global_state == global_state,
            r.widget_state == widget_state,
            r.notifications@.len() == 0,
            !r.is_handled,
            r.is_root,
            r.request_pan_to_child.is_none(),
    {
        EventCtx {
            global_state,
            widget_state,
            notifications: Vec::new(),
            is_handled: false,
            is_root: true,
            request_pan_to_child: None,
        }
    }

    pub fn is_hot(&self) -> (r: bool)
        ensures
            r == self.widget_state.flags.is_hot,
    {
        self.widget_state.flags.is_hot
    }

    pub fn is_active(&self) -> (r: bool)
        ensures
            r == self.widget_state.flags.is_active,
    {
        self.widget_state.flags.is_active
    }

    pub fn widget_id(&self) -> (r: WidgetId)
        ensures
            r == self.widget_state.id,
    {
        self.widget_state.id
    }

    /// Take or release the pointer.
    pub fn set_active(&mut self, active: bool)
        ensures
            final(self).widget_state.flags == flags_with_active(old(self).widget_state.flags, active),
    {
        self.widget_state.flags.is_active = active;
        self.widget_state.flags.has_active = self.widget_state.flags.has_active || active;
    }

    /// Mark the event handled: siblings processed later skip it.
    pub fn set_handled(&mut self)
        ensures
            final(self).is_handled,
    {
        self.is_handled = true;
    }

    /// Send a notification from this widget to its ancestors.
    pub fn submit_notification(&mut self, selector: u64, payload: u64)
        ensures
            final(self).notifications@ == old(self).notifications@.push(
                Notification { source: old(self).widget_state.id, selector, payload },
            ),
    {
        let n = Notification { source: self.widget_state.id, selector, payload };
        self.notifications.push(n);
    }

    pub fn request_layout(&mut self)
        ensures
            final(self).widget_state.flags.needs_layout,
    {
        self.widget_state.flags.needs_layout = true;
    }

    pub fn request_anim_frame(&mut self)
        ensures
            final(self).widget_state.flags.request_anim,
    {
        self.widget_state.flags.request_anim = true;
    }

    pub fn request_paint(&mut self)
        ensures
            final(self).widget_state.flags.request_paint,
    {
        self.widget_state.flags.request_paint = true;
    }

    /// Acknowledge that the set of children changed.
    pub fn children_changed(&mut self)
        ensures
            final(self).widget_state.flags.children_changed,
            final(self).widget_state.flags.needs_layout,
    {
        self.widget_state.flags.children_changed = true;
        self.widget_state.flags.needs_layout = true;
    }

    /// Ask that this widget be disabled (or enabled) at the next disabled pass.
    pub fn set_disabled(&mut self, disabled: bool)
        ensures
            final(self).widget_state.flags.is_explicitly_disabled_new == disabled,
    {
        self.widget_state.flags.is_explicitly_disabled_new = disabled;
    }

    /// Ask for keyboard focus; the request goes up with the state.
    pub fn request_focus(&mut self)
        ensures
            final(self).widget_state.request_focus == Some(FocusChange::Focus(old(self).widget_state.id)),
    {
        let id = self.widget_state.id;
        self.widget_state.request_focus = Some(FocusChange::Focus(id));
    }

    /// Ask that focus move to the next widget of the focus chain.
    pub fn focus_next(&mut self)
        ensures
            final(self).widget_state.request_focus == Some(FocusChange::Next),
    {
        self.widget_state.request_focus = Some(FocusChange::Next);
    }

    /// Ask that focus move to the previous widget of the focus chain.
    pub fn focus_prev(&mut self)
        ensures
            final(self).widget_state.request_focus == Some(FocusChange::Previous),
    {
        self.widget_state.request_focus = Some(FocusChange::Previous);
    }

    /// Ask the ancestors to scroll `rect` (in this widget's coordinates) into view.
    pub fn request_pan_to_this(&mut self, rect: Rect)
        ensures
            final(self).request_pan_to_child == Some(rect),
    {
        self.request_pan_to_child = Some(rect);
    }
}

/// The context of the lifecycle pass.
#[derive(Debug)]
pub struct LifeCycleCtx {
    pub global_state: GlobalPassCtx,
    pub widget_state: WidgetState,
}

impl LifeCycleCtx {
    /// The context a driver hands to the root pod.
    pub fn new_root(global_state: GlobalPassCtx, widget_state: WidgetState) -> (r: LifeCycleCtx)
        ensures
            r.global_state == global_state,
            r.widget_state == widget_state,
    {
        LifeCycleCtx { global_state, widget_state }
    }

    pub fn widget_id(&self) -> (r: WidgetId)
        ensures
            r == self.widget_state.id,
    {
        self.widget_state.id
    }

    pub fn is_disabled(&self) -> (r: bool)
        ensures
            r == self.widget_state.spec_is_disabled(),
    {
        self.widget_state.is_disabled()
    }

    /// Record `child_id` among this widget's descendants.
    pub fn register_child(&mut self, child_id: WidgetId)
        ensures
            final(self).widget_state.children.bits == old(self).widget_state.children.bits
                | crate::bloom::probe_mask(child_id.0),
            final(self).widget_state.children.spec_may_contain(child_id.0),
    {
        self.widget_state.children.add(child_id.0);
    }

    /// Acknowledge that the set of children changed.
    pub fn children_changed(&mut self)
        ensures
            final(self).widget_state.flags.children_changed,
            final(self).widget_state.flags.needs_layout,
    {
        self.widget_state.flags.children_changed = true;
        self.widget_state.flags.needs_layout = true;
    }

    pub fn request_paint(&mut self)
        ensures
            final(self).widget_state.flags.request_paint,
    {
        self.widget_state.flags.request_paint = true;
    }

    /// Ask that this widget be disabled (or enabled) at the next disabled pass.
    pub fn set_disabled(&mut self, disabled: bool)
        ensures
            final(self).widget_state.flags.is_explicitly_disabled_new == disabled,
    {
        self.widget_state.flags.is_explicitly_disabled_new = disabled;
    }

    /// Ask for a place in the focus chain.
    pub fn register_for_focus(&mut self)
        ensures
            final(self).widget_state.focus_chain@ == old(self).widget_state.focus_chain@.push(
                old(self).widget_state.id,
            ),
    {
        let id = self.widget_state.id;
        self.widget_state.focus_chain.push(id);
    }
}

/// The context of the layout pass.
#[derive(Debug)]
pub struct LayoutCtx {
    pub global_state: GlobalPassCtx,
    pub widget_state: WidgetState,
    /// The pointer position in this widget's coordinates, if known.
    pub mouse_pos: Option<Point>,
}

impl LayoutCtx {
    /// The context a driver hands to the root pod.
    pub fn new_root(global_state: GlobalPassCtx, widget_state: WidgetState, mouse_pos: Option<
        Point,
    >) -> (r: LayoutCtx)
        ensures
            r.global_state == global_state,
            r.widget_state == widget_state,
            r.mouse_pos == mouse_pos,
    {
        LayoutCtx { global_state, widget_state, mouse_pos }
    }

    /// Set how far this widget paints beyond its layout bounds.
    pub fn set_paint_insets(&mut self, insets: Insets)
        ensures
            final(self).widget_state.paint_insets == insets,
    {
        self.widget_state.paint_insets = insets;
    }

    /// Set the distance from the bottom of this widget to its baseline.
    pub fn set_baseline_offset(&mut self, offset: i64)
        ensures
            final(self).widget_state.baseline_offset == offset,
    {
        self.widget_state.baseline_offset = offset;
    }
}

/// A drawing instruction, in the coordinates current when it is replayed.
#[derive(Clone, Copy, Debug, PartialEq, Eq, Structural)]
pub enum DrawOp {
    Save,
    Restore,
    /// Move the origin by the offset.
    Translate(Point),
    FillRect { rect: Rect, color: Color },
    StrokeRect { rect: Rect, color: Color, width: i64 },
    /// The id of a widget, written with its lower right corner at `corner`.
    IdLabel { id: u64, corner: Point, background: Color, text_color: Color },
    /// A drawing of the widget's own, identified by a tag.
    Custom { tag: u64, rect: Rect },
}

/// A drawing instruction deferred until everything below it in the stack
/// order has been drawn.
#[derive(Clone, Copy, Debug, PartialEq, Eq, Structural)]
pub struct ZOp {
    pub z: u32,
    pub op: DrawOp,
}

/// The context of the paint pass.
#[derive(Debug)]
pub struct PaintCtx {
    pub global_state: GlobalPassCtx,
    pub widget_state: WidgetState,
    pub ops: Vec<DrawOp>,
    pub z_ops: Vec<ZOp>,
    /// The visible part, in this widget's coordinates.
    pub region: Region,
    /// Nesting depth, used as the stack order of deferred drawing.
    pub depth: u32,
}

impl PaintCtx {
    /// The context a driver hands to the root pod.
    pub fn new_root(global_state: GlobalPassCtx, widget_state: WidgetState, region: Region) -> (r:
        PaintCtx)
        ensures
            r.global_state == global_state,
            r.widget_state == widget_state,
            r.region == region,
            r.ops@.len() == 0,
            r.z_ops@.len() == 0,
            r.depth == 0,
    {
        PaintCtx { global_state, widget_state, ops: Vec::new(), z_ops: Vec::new(), region, depth: 0 }
    }

    pub fn size(&self) -> (r: Size)
        ensures
            r == self.widget_state.size,
    {
        self.widget_state.size
    }

    pub fn widget_id(&self) -> (r: WidgetId)
        ensures
            r == self.widget_state.id,
    {
        self.widget_state.id
    }

    pub fn draw(&mut self, op: DrawOp)
        ensures
            final(self).ops@ == old(self).ops@.push(op),
            final(self).z_ops == old(self).z_ops,
            final(self).widget_state == old(self).widget_state,
            final(self).region == old(self).region,
            final(self).depth == old(self).depth,
    {
        self.ops.push(op);
    }

    /// Draw `op` after everything of a lower stack order.
    pub fn draw_with_z_index(&mut self, z: u32, op: DrawOp)
        ensures
            final(self).z_ops@ == old(self).z_ops@.push(ZOp { z, op }),
            final(self).ops == old(self).ops,
            final(self).widget_state == old(self).widget_state,
            final(self).region == old(self).region,
            final(self).depth == old(self).depth,
    {
        self.z_ops.push(ZOp { z, op });
    }
}

} // verus!
