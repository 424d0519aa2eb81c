//! The pod: one widget with its node state, and the four passes.
use vstd::prelude::*;
use crate::contexts::{
    keeps, lemma_keeps_refl, lemma_keeps_trans, ChildSummary, Color, Diagnostic, DrawOp, Env, EventCtx, GlobalPassCtx,
    LayoutCtx, LifeCycleCtx, PaintCtx, PassName, ZOp,
};
use crate::event::BoxConstraints;
use crate::event::{Event, InternalLifeCycle, LifeCycle, Notification, StatusChange};
use crate::geometry::{clip_all, rect_contains, Insets, Point, Rect, Region, Size};
use crate::routing::{spec_layout_origin, 
    bubble_notification, hot_at, pointer_input, route_event, spec_bubble, spec_hot_at,
    spec_hot_changed, spec_pointer_input, spec_route_event, spec_route_view, RouteView,
};
use crate::bloom::probe_mask;
use crate::state::{FocusChange, merged_flags, StateFlags, WidgetId, WidgetIdSource, WidgetState};
use crate::widget::Widget;

verus! {

/// A container for one widget in the hierarchy: the widget, and the state
/// needed for it to take part in layout and in the flow of events.
pub struct WidgetPod<W> {
    pub state: WidgetState,
    pub inner: W,
    /// The environment captured when the widget was added.
    pub env: Option<Env>,
    /// Every call the pod has made into its inner widget, in order.
    pub calls: Ghost<Seq<InnerCall>>,
}

/// A call a pod makes into its inner widget, with what it hands over.
pub enum InnerCall {
    /// `on_event` with this event, the widget's state showing `has_active`;
    /// the widget marked it `handled` and asked to pan to `pan`.
    Event { event: Event, has_active: bool, handled: bool, pan: Option<Rect> },
    /// `on_event` with a notification from a descendant; the widget marked it
    /// `handled` and emitted `emitted`.
    Notification { notification: Notification, handled: bool, emitted: Seq<Notification> },
    /// `on_status_change` with this change.
    Status(StatusChange),
    /// `lifecycle` with this signal.
    Lifecycle(LifeCycle),
    /// `layout` under `bc`, with the pointer at `mouse_pos` (local) and the
    /// paint bounds at `bounds` when the call began; the widget chose `size`.
    Layout { bc: BoxConstraints, mouse_pos: Option<Point>, bounds: Rect, size: Size },
    /// `children`, which reported these children.
    Children(Seq<ChildSummary>),
    /// `paint` in a context with this visible region and depth; the widget
    /// drew `ops` and deferred `z_ops`.
    Paint { region: Region, depth: u32, ops: Seq<DrawOp>, z_ops: Seq<ZOp> },
}

/// A read-only view of a widget with its state.
pub struct WidgetRef<'a, W: ?Sized> {
    pub state: &'a WidgetState,
    pub widget: &'a W,
}

/// The flags of a pod before it received `WidgetAdded`.
pub open spec fn spec_initial_flags() -> StateFlags {
    StateFlags {
        is_new: true,
        children_changed: true,
        needs_layout: true,
        ..StateFlags::spec_clear()
    }
}

/// Diagnostics for the children after a widget method ran: one if the list of
/// children changed without being flagged, then one for each child that is
/// not stashed and was not visited since `start`.
pub open spec fn spec_child_diagnostics(
    parent: WidgetId,
    flagged: bool,
    before: Seq<WidgetId>,
    after: Seq<ChildSummary>,
    start: u64,
    pass: PassName,
) -> Seq<Diagnostic> {
    let head = if after.map_values(|c: ChildSummary| c.id) != before && !flagged {
        seq![Diagnostic::ChildrenChangedUnflagged { widget: parent, pass }]
    } else {
        Seq::<Diagnostic>::empty()
    };
    head + spec_unvisited(parent, after, start, pass)
}

/// One diagnostic per child of `kids` that is not stashed and whose last
/// visit is older than `start`, in order.
pub open spec fn spec_unvisited(
    parent: WidgetId,
    kids: Seq<ChildSummary>,
    start: u64,
    pass: PassName,
) -> Seq<Diagnostic>
    decreases kids.len(),
{
    if kids.len() == 0 {
        Seq::<Diagnostic>::empty()
    } else {
        let c = kids.last();
        let rest = spec_unvisited(parent, kids.drop_last(), start, pass);
        if c.last_visit < start && !c.is_stashed {
            rest.push(Diagnostic::ChildNotVisited { parent, child: c.id, pass })
        } else {
            rest
        }
    }
}

/// The ids of a list of child summaries.
pub fn child_ids(kids: &Vec<ChildSummary>) -> (r: Vec<WidgetId>)
    ensures
        r@ == kids@.map_values(|c: ChildSummary| c.id),
{
    let mut r: Vec<WidgetId> = Vec::new();
    let mut i: usize = 0;
    while i < kids.len()
        invariant
            i <= kids@.len(),
            r@ == kids@.subrange(0, i as int).map_values(|c: ChildSummary| c.id),
        decreases kids@.len() - i,
    {
        r.push(kids[i].id);
        assert(kids@.subrange(0, i as int + 1).map_values(|c: ChildSummary| c.id)
            =~= kids@.subrange(0, i as int).map_values(|c: ChildSummary| c.id).push(kids@[i as int].id));
        i += 1;
    }
    assert(kids@.subrange(0, kids@.len() as int) =~= kids@);
    r
}

fn same_ids(a: &Vec<WidgetId>, b: &Vec<WidgetId>) -> (r: bool)
    ensures
        r == (a@ == b@),
{
    if a.len() != b.len() {
        return false;
    }
    let mut i: usize = 0;
    while i < a.len()
        invariant
            a@.len() == b@.len(),
            i <= a@.len(),
            forall|j: int| 0 <= j < i ==> a@[j] == b@[j],
        decreases a@.len() - i,
    {
        if a[i] != b[i] {
            return false;
        }
        i += 1;
    }
    assert(a@ =~= b@);
    true
}

/// Record the diagnostics of `spec_child_diagnostics`.
pub fn check_children(
    global: &mut GlobalPassCtx,
    parent: WidgetId,
    flagged: bool,
    before: &Vec<WidgetId>,
    after: &Vec<ChildSummary>,
    start: u64,
    pass: PassName,
)
    ensures
        final(global).diagnostics@ == old(global).diagnostics@ + spec_child_diagnostics(
            parent,
            flagged,
            before@,
            after@,
            start,
            pass,
        ),
        final(global).focus_widget == old(global).focus_widget,
        final(global).visit_clock == old(global).visit_clock,
{
    let ids = child_ids(after);
    let ghost d0 = global.diagnostics@;
    if !same_ids(&ids, before) && !flagged {
        global.report(Diagnostic::ChildrenChangedUnflagged { widget: parent, pass });
    }
    let ghost d1 = global.diagnostics@;
    let mut i: usize = 0;
    while i < after.len()
        invariant
            i <= after@.len(),
            global.diagnostics@ == d1 + spec_unvisited(parent, after@.subrange(0, i as int), start, pass),
            global.focus_widget == old(global).focus_widget,
            global.visit_clock == old(global).visit_clock,
        decreases after@.len() - i,
    {
        let c = after[i];
        assert(after@.subrange(0, i as int + 1).drop_last() =~= after@.subrange(0, i as int));
        if c.last_visit < start && !c.is_stashed {
            global.report(Diagnostic::ChildNotVisited { parent, child: c.id, pass });
        }
        i += 1;
    }
    assert(after@.subrange(0, after@.len() as int) =~= after@);
    assert(global.diagnostics@ =~= d0 + spec_child_diagnostics(parent, flagged, before@, after@, start, pass));
}

/// `now` with the flags that only the pod decides taken from `saved`:
/// whether the widget is new, hot, stashed, and disabled by itself or by an
/// ancestor. Flags that a widget's code can only raise through its context
/// (focus held in the subtree, focus chain, layout, window origin, children
/// changed, animation and paint requests) are never lowered by it, and
/// `has_active` covers `is_active`.
pub open spec fn spec_with_owned(now: StateFlags, saved: StateFlags) -> StateFlags {
    StateFlags {
        has_active: now.has_active || now.is_active,
        has_focus: now.has_focus || saved.has_focus,
        update_focus_chain: now.update_focus_chain || saved.update_focus_chain,
        needs_layout: now.needs_layout || saved.needs_layout,
        needs_window_origin: now.needs_window_origin || saved.needs_window_origin,
        children_changed: now.children_changed || saved.children_changed,
        request_anim: now.request_anim || saved.request_anim,
        request_paint: now.request_paint || saved.request_paint,
        is_new: saved.is_new,
        is_hot: saved.is_hot,
        is_stashed: saved.is_stashed,
        is_explicitly_disabled: saved.is_explicitly_disabled,
        ancestor_disabled: saved.ancestor_disabled,
        ..now
    }
}

/// The flags only the pod decides are the same in `a` and `b`.
pub open spec fn spec_owned_same(a: StateFlags, b: StateFlags) -> bool {
    &&& a.is_new == b.is_new
    &&& a.is_hot == b.is_hot
    &&& a.is_stashed == b.is_stashed
    &&& a.is_explicitly_disabled == b.is_explicitly_disabled
    &&& a.ancestor_disabled == b.ancestor_disabled
}

/// Put back the id and the pod-decided flags after a widget's code ran.
fn restore_owned(state: &mut WidgetState, id: WidgetId, saved: StateFlags)
    ensures
        *final(state) == (WidgetState {
            id,
            flags: spec_with_owned(old(state).flags, saved),
            ..*old(state)
        }),
{
    state.id = id;
    let f = state.flags;
    state.flags = StateFlags {
        has_active: f.has_active || f.is_active,
        has_focus: f.has_focus || saved.has_focus,
        update_focus_chain: f.update_focus_chain || saved.update_focus_chain,
        needs_layout: f.needs_layout || saved.needs_layout,
        needs_window_origin: f.needs_window_origin || saved.needs_window_origin,
        children_changed: f.children_changed || saved.children_changed,
        request_anim: f.request_anim || saved.request_anim,
        request_paint: f.request_paint || saved.request_paint,
        is_new: saved.is_new,
        is_hot: saved.is_hot,
        is_stashed: saved.is_stashed,
        is_explicitly_disabled: saved.is_explicitly_disabled,
        ancestor_disabled: saved.ancestor_disabled,
        ..f
    };
}

/// Diagnostics for the children after layout, in order: a child that was
/// laid out but not placed, and (unless the parent is a portal) a child whose
/// paint rectangle is not inside the parent's paint bounds `bounds`.
pub open spec fn spec_layout_diagnostics(
    parent: WidgetId,
    kids: Seq<ChildSummary>,
    bounds: Rect,
    is_portal: bool,
) -> Seq<Diagnostic>
    decreases kids.len(),
{
    if kids.len() == 0 {
        Seq::<Diagnostic>::empty()
    } else {
        let c = kids.last();
        let rest = spec_layout_diagnostics(parent, kids.drop_last(), bounds, is_portal);
        let rest2 = if c.is_expecting_place_child_call {
            rest.push(Diagnostic::MissingPlaceChild { parent, child: c.id })
        } else {
            rest
        };
        if !c.paint_rect.spec_inside(bounds) && !is_portal {
            rest2.push(Diagnostic::ChildPaintOutside { parent, child: c.id })
        } else {
            rest2
        }
    }
}

/// Record the diagnostics of `spec_layout_diagnostics`.
pub fn check_layout_children(
    global: &mut GlobalPassCtx,
    parent: WidgetId,
    kids: &Vec<ChildSummary>,
    bounds: Rect,
    is_portal: bool,
)
    ensures
        final(global).diagnostics@ == old(global).diagnostics@ + spec_layout_diagnostics(
            parent,
            kids@,
            bounds,
            is_portal,
        ),
        final(global).focus_widget == old(global).focus_widget,
        final(global).visit_clock == old(global).visit_clock,
{
    let ghost d0 = global.diagnostics@;
    let mut i: usize = 0;
    while i < kids.len()
        invariant
            i <= kids@.len(),
            global.diagnostics@ == d0 + spec_layout_diagnostics(
                parent,
                kids@.subrange(0, i as int),
                bounds,
                is_portal,
            ),
            global.focus_widget == old(global).focus_widget,
            global.visit_clock == old(global).visit_clock,
        decreases kids@.len() - i,
    {
        let c = kids[i];
        assert(kids@.subrange(0, i as int + 1).drop_last() =~= kids@.subrange(0, i as int));
        if c.is_expecting_place_child_call {
            global.report(Diagnostic::MissingPlaceChild { parent, child: c.id });
        }
        if !rect_contains(&bounds, &c.paint_rect) && !is_portal {
            global.report(Diagnostic::ChildPaintOutside { parent, child: c.id });
        }
        i += 1;
    }
    assert(kids@.subrange(0, kids@.len() as int) =~= kids@);
}

pub open spec fn spec_debug_text_color(c: Color) -> Color {
    if (c.r as int + c.g as int + c.b as int) / 3 < 128 {
        Color { r: 255, g: 255, b: 255, a: 255 }
    } else {
        Color { r: 0, g: 0, b: 0, a: 255 }
    }
}

/// The color of a widget-id label on background `c`: white on dark
/// backgrounds (mean channel below 128), black on light ones.
pub fn debug_text_color(c: Color) -> (r: Color)
    ensures
        r == spec_debug_text_color(c),
{
    let avg: u32 = (c.r as u32 + c.g as u32 + c.b as u32) / 3;
    if avg < 128 {
        Color { r: 255, g: 255, b: 255, a: 255 }
    } else {
        Color { r: 0, g: 0, b: 0, a: 255 }
    }
}

/// The diagnostics layout records at a node before its widget runs: one if
/// the node is not initialized, one if the constraints are not valid.
pub open spec fn spec_layout_start_diagnostics(s: WidgetState, bc: BoxConstraints) -> Seq<Diagnostic> {
    spec_init_diagnostics(s, PassName::Layout) + if bc.spec_is_valid() {
        Seq::<Diagnostic>::empty()
    } else {
        seq![Diagnostic::InvalidConstraints { widget: s.id }]
    }
}

/// One warning per dimension of `size` that is unbounded, width first.
pub open spec fn spec_unbounded_diagnostics(id: WidgetId, size: Size) -> Seq<Diagnostic> {
    (if size.width == i64::MAX {
        seq![Diagnostic::UnboundedSize { widget: id, horizontal: true }]
    } else {
        Seq::<Diagnostic>::empty()
    }) + if size.height == i64::MAX {
        seq![Diagnostic::UnboundedSize { widget: id, horizontal: false }]
    } else {
        Seq::<Diagnostic>::empty()
    }
}

/// The diagnostic of a `WidgetAdded` that reaches a node already initialized.
pub open spec fn spec_added_diagnostics(s: WidgetState, ev: LifeCycle) -> Seq<Diagnostic> {
    if ev == LifeCycle::WidgetAdded && !s.flags.is_new {
        seq![Diagnostic::AlreadyInitialized { widget: s.id }]
    } else {
        Seq::<Diagnostic>::empty()
    }
}

/// The pointer position a node's widget sees in layout: the parent's,
/// relative to the node's layout origin.
pub open spec fn spec_local_mouse(parent_pos: Option<Point>, s: WidgetState) -> Option<Point> {
    match parent_pos {
        Some(p) => Some(p.spec_minus(spec_layout_origin(s))),
        None => None,
    }
}

/// Append `src` to `dst`.
pub fn append_ops(dst: &mut Vec<DrawOp>, src: &Vec<DrawOp>)
    ensures
        final(dst)@ == old(dst)@ + src@,
{
    let mut i: usize = 0;
    while i < src.len()
        invariant
            i <= src@.len(),
            dst@ == old(dst)@ + src@.subrange(0, i as int),
        decreases src@.len() - i,
    {
        dst.push(src[i]);
        assert(src@.subrange(0, i as int + 1) =~= src@.subrange(0, i as int).push(src@[i as int]));
        assert(dst@ =~= old(dst)@ + src@.subrange(0, i as int + 1));
        i += 1;
    }
    assert(src@.subrange(0, src@.len() as int) =~= src@);
}

/// Append `src` to `dst`.
pub fn append_z_ops(dst: &mut Vec<ZOp>, src: &Vec<ZOp>)
    ensures
        final(dst)@ == old(dst)@ + src@,
{
    let mut i: usize = 0;
    while i < src.len()
        invariant
            i <= src@.len(),
            dst@ == old(dst)@ + src@.subrange(0, i as int),
        decreases src@.len() - i,
    {
        dst.push(src[i]);
        assert(src@.subrange(0, i as int + 1) =~= src@.subrange(0, i as int).push(src@[i as int]));
        assert(dst@ =~= old(dst)@ + src@.subrange(0, i as int + 1));
        i += 1;
    }
    assert(src@.subrange(0, src@.len() as int) =~= src@);
}

/// The outline of the layout bounds a node with state `s` gets in debug
/// painting: drawn when layout bounds are shown, or when the node is hot
/// and widget ids are shown.
pub open spec fn spec_overlay_ops(s: WidgetState, env: Env) -> Seq<DrawOp> {
    if (s.flags.is_hot && env.debug_widget_id) || env.debug_paint {
        seq![DrawOp::StrokeRect {
            rect: Rect::spec_from_origin_size(Point { x: 0, y: 0 }, s.size),
            color: env.spec_debug_color(s.id.0),
            width: 1,
        }]
    } else {
        Seq::<DrawOp>::empty()
    }
}

/// The id label a hot node gets when widget ids are shown, above everything
/// at depth `depth`, in its lower right corner.
pub open spec fn spec_overlay_z_ops(s: WidgetState, depth: u32, env: Env) -> Seq<ZOp> {
    if s.flags.is_hot && env.debug_widget_id {
        seq![ZOp {
            z: depth,
            op: DrawOp::IdLabel {
                id: s.id.0,
                corner: Point { x: s.size.width, y: s.size.height },
                background: env.spec_debug_color(s.id.0),
                text_color: spec_debug_text_color(env.spec_debug_color(s.id.0)),
            },
        }]
    } else {
        Seq::<ZOp>::empty()
    }
}

/// What `paint_raw` does: the widget paints once, in a context with `c0`'s
/// region and depth; what it drew follows `c0`'s drawing, then the overlays.
pub open spec fn spec_painted<W>(p0: WidgetPod<W>, p1: WidgetPod<W>, c0: PaintCtx, c1: PaintCtx, env: Env) -> bool {
    let e = p1.calls@.last();
    &&& p1.calls@.len() == p0.calls@.len() + 1
    &&& p1.calls@ == p0.calls@.push(e)
    &&& e is Paint
    &&& e->Paint_region.rects@ == c0.region.rects@
    &&& e->Paint_depth == c0.depth
    &&& c1.ops@ == c0.ops@ + e->Paint_ops + spec_overlay_ops(p0.state, env)
    &&& c1.z_ops@ == c0.z_ops@ + e->Paint_z_ops + spec_overlay_z_ops(p0.state, c0.depth, env)
    &&& c1.region == c0.region
    &&& c1.depth == c0.depth
    &&& c1.widget_state == c0.widget_state
    &&& keeps(c0.global_state, c1.global_state)
    &&& p1.state.id == p0.state.id
    &&& p1.env == p0.env
}

/// What `paint` (`always == false`) and `paint_always` do. A stashed node is
/// reported and nothing else changes. A node whose paint rectangle misses the
/// visible region (unless `always`) is not painted and leaves the context's
/// drawing, region and depth as they were. Otherwise the parent's drawing
/// gains a saved, translated section in which the node is painted as by
/// `paint_raw`, in a child context whose region is the visible part of the
/// paint rectangle in the node's coordinates and whose depth is one more.
pub open spec fn spec_paint_outcome<W>(
    p0: WidgetPod<W>,
    p1: WidgetPod<W>,
    c0: PaintCtx,
    c1: PaintCtx,
    env: Env,
    always: bool,
) -> bool {
    let s = p0.state;
    let o = spec_layout_origin(s);
    &&& p1.state.id == s.id
    &&& c1.region == c0.region
    &&& c1.depth == c0.depth
    &&& c1.widget_state == c0.widget_state
    &&& s.flags.is_stashed ==> {
        &&& p1.inner == p0.inner
        &&& p1.calls == p0.calls
        &&& p1.state == s
        &&& c1.ops == c0.ops
        &&& c1.z_ops == c0.z_ops
        &&& c1.global_state.diagnostics@ == c0.global_state.diagnostics@.push(
            Diagnostic::PaintOfStashed { widget: s.id },
        )
    }
    &&& !s.flags.is_stashed && !always && !c0.region.spec_intersects(s.spec_paint_rect()) ==> {
        &&& p1.inner == p0.inner
        &&& p1.calls == p0.calls
        &&& p1.state == (WidgetState { last_visit: p1.state.last_visit, ..s })
        &&& c1.ops == c0.ops
        &&& c1.z_ops == c0.z_ops
    }
    &&& !s.flags.is_stashed && (always || c0.region.spec_intersects(s.spec_paint_rect())) ==> {
        let e = p1.calls@.last();
        &&& p1.calls@.len() == p0.calls@.len() + 1
        &&& p1.calls@ == p0.calls@.push(e)
        &&& e is Paint
        &&& e->Paint_region.rects@ == clip_all(c0.region.rects@, s.spec_paint_rect()).map_values(
            |x: Rect| x.spec_translate_back(o),
        )
        &&& e->Paint_depth == if c0.depth < u32::MAX { (c0.depth + 1) as u32 } else { c0.depth }
        &&& c1.ops@ == c0.ops@ + seq![DrawOp::Save, DrawOp::Translate(o)] + e->Paint_ops
            + spec_overlay_ops(s, env) + seq![DrawOp::Restore]
        &&& c1.z_ops@ == c0.z_ops@ + e->Paint_z_ops + spec_overlay_z_ops(
            s,
            if c0.depth < u32::MAX { (c0.depth + 1) as u32 } else { c0.depth },
            env,
        )
    }
}

/// What the lifecycle pass does at a node before its post-order bookkeeping.
#[derive(Clone, Copy, Debug, PartialEq, Eq, Structural)]
pub enum LifecycleAction {
    /// Leave the inner widget alone.
    Skip,
    /// Hand the signal to the inner widget.
    Recurse,
    /// Hand the inner widget this signal instead of the routed one.
    Deliver(LifeCycle),
}

/// The signals that may reach a node before it is initialized.
pub open spec fn spec_is_added_signal(ev: LifeCycle) -> bool {
    ev == LifeCycle::WidgetAdded || ev == LifeCycle::Internal(InternalLifeCycle::RouteWidgetAdded)
}

/// The signal a node acts on: a routed `WidgetAdded` reaching a new node
/// becomes `WidgetAdded` itself.
pub open spec fn spec_effective_signal(ev: LifeCycle, is_new: bool) -> LifeCycle {
    if is_new && ev == LifeCycle::Internal(InternalLifeCycle::RouteWidgetAdded) {
        LifeCycle::WidgetAdded
    } else {
        ev
    }
}

/// The disabled state after a disabled pass: the explicit request takes
/// effect, and the ancestors' state is `ancestor`.
pub open spec fn spec_disabled_after(f: StateFlags, ancestor: bool) -> bool {
    f.is_explicitly_disabled_new || ancestor
}

/// The old and new focus of a `RouteFocusChanged` signal.
pub open spec fn spec_focus_route(ev: LifeCycle) -> Option<(Option<WidgetId>, Option<WidgetId>)> {
    match ev {
        LifeCycle::Internal(InternalLifeCycle::RouteFocusChanged { old, new }) => Some((old, new)),
        _ => None,
    }
}

/// Whether a node with descendant filter `b` may lead to `id`.
pub open spec fn spec_may_lead_to(b: crate::bloom::Bloom, id: Option<WidgetId>) -> bool {
    match id {
        Some(x) => b.spec_may_contain(x.0),
        None => false,
    }
}

/// Append `src` to `dst`.
pub fn extend_ids(dst: &mut Vec<WidgetId>, src: &Vec<WidgetId>)
    ensures
        final(dst)@ == old(dst)@ + src@,
{
    let mut i: usize = 0;
    while i < src.len()
        invariant
            i <= src@.len(),
            dst@ == old(dst)@ + src@.subrange(0, i as int),
        decreases src@.len() - i,
    {
        dst.push(src[i]);
        assert(src@.subrange(0, i as int + 1) =~= src@.subrange(0, i as int).push(src@[i as int]));
        assert(dst@ =~= old(dst)@ + src@.subrange(0, i as int + 1));
        i += 1;
    }
    assert(src@.subrange(0, src@.len() as int) =~= src@);
}

/// The post-order bookkeeping of the lifecycle pass, run for the child
/// `state` against its parent's state `parent` after the inner widget ran.
pub fn lifecycle_post(state: &mut WidgetState, parent: &mut WidgetState, ev: &LifeCycle, had_focus: bool)
    ensures
        final(state).id == old(state).id,
        final(state).flags.is_new == old(state).flags.is_new,
        final(parent).flags == old(parent).flags,
        final(parent).id == old(parent).id,
        spec_is_added_signal(*ev) ==> final(parent).children.spec_may_contain(old(state).id.0),
        spec_is_added_signal(*ev) ==> forall|x: u64|
            old(state).children.spec_may_contain(x) ==> #[trigger] final(parent).children.spec_may_contain(x),
        final(state).children == old(state).children,
        final(state).focus_chain == old(state).focus_chain,
        final(state).flags.is_explicitly_disabled == old(state).flags.is_explicitly_disabled,
        final(state).flags.ancestor_disabled == old(state).flags.ancestor_disabled,
        final(parent).request_focus == old(parent).request_focus,
        spec_is_added_signal(*ev) ==> !final(state).flags.children_changed
            && final(parent).children.bits == (old(parent).children.bits | old(state).children.bits)
            | probe_mask(old(state).id.0)
            && final(parent).focus_chain == old(parent).focus_chain,
        !spec_is_added_signal(*ev) ==> final(parent).children == old(parent).children,
        (*ev is DisabledChanged || *ev == LifeCycle::Internal(InternalLifeCycle::RouteDisabledChanged))
            ==> !final(state).flags.children_disabled_changed
            && final(state).flags.is_explicitly_disabled_new == old(state).flags.is_explicitly_disabled
            && final(state).flags.is_explicitly_disabled == old(state).flags.is_explicitly_disabled
            && final(state).flags.ancestor_disabled == old(state).flags.ancestor_disabled
            && final(state).flags.has_focus == old(state).flags.has_focus
            && (old(state).spec_is_disabled() && old(state).flags.has_focus ==> final(state).request_focus
            == Some(FocusChange::Resign)),
        *ev is BuildFocusChain ==> !final(state).flags.update_focus_chain
            && final(state).flags.has_focus == had_focus
            && (had_focus && !old(state).flags.has_focus ==> final(state).request_focus == Some(
            FocusChange::Resign))
            && final(parent).focus_chain@ == if old(state).spec_is_disabled() {
                old(parent).focus_chain@
            } else {
                old(parent).focus_chain@ + old(state).focus_chain@
            },
        !(*ev is BuildFocusChain) ==> final(parent).focus_chain == old(parent).focus_chain,
        !(*ev is BuildFocusChain) ==> final(state).flags.update_focus_chain == old(state).flags.update_focus_chain,
        spec_focus_route(*ev) is Some ==> final(state).flags.has_focus == old(state).flags.has_focus,
        !spec_is_added_signal(*ev) && !(*ev is DisabledChanged) && *ev != LifeCycle::Internal(
            InternalLifeCycle::RouteDisabledChanged,
        ) && !(*ev is BuildFocusChain) ==> *final(state) == *old(state),
{
    match ev {
        LifeCycle::WidgetAdded | LifeCycle::Internal(InternalLifeCycle::RouteWidgetAdded) => {
            state.flags.children_changed = false;
            parent.children = parent.children.union(state.children);
            parent.children.add(state.id.0);
        },
        LifeCycle::DisabledChanged(_) | LifeCycle::Internal(
            InternalLifeCycle::RouteDisabledChanged,
        ) => {
            state.flags.children_disabled_changed = false;
            if state.is_disabled() && state.flags.has_focus {
                state.request_focus = Some(FocusChange::Resign);
            }
            state.flags.is_explicitly_disabled_new = state.flags.is_explicitly_disabled;
        },
        LifeCycle::BuildFocusChain => {
            state.flags.update_focus_chain = false;
            if had_focus && !state.flags.has_focus {
                state.request_focus = Some(FocusChange::Resign);
            }
            state.flags.has_focus = had_focus;
            if !state.is_disabled() {
                extend_ids(&mut parent.focus_chain, &state.focus_chain);
            }
        },
        _ => {},
    }
}

/// What a lifecycle signal `ev` makes an initialized node with state `s` do
/// (or any node, for `WidgetAdded`): the action on its inner widget, and the
/// status change it is told of afterwards.
pub open spec fn spec_lifecycle_decision(s: WidgetState, ev: LifeCycle) -> (LifecycleAction, Option<StatusChange>) {
    match ev {
        LifeCycle::WidgetAdded => (LifecycleAction::Recurse, None),
        LifeCycle::Internal(InternalLifeCycle::RouteWidgetAdded) => (
            if s.flags.children_changed {
                LifecycleAction::Recurse
            } else {
                LifecycleAction::Skip
            },
            None,
        ),
        LifeCycle::Internal(InternalLifeCycle::RouteDisabledChanged) => (
            if s.spec_is_disabled() != spec_disabled_after(s.flags, s.flags.ancestor_disabled) {
                LifecycleAction::Deliver(
                    LifeCycle::DisabledChanged(spec_disabled_after(s.flags, s.flags.ancestor_disabled)),
                )
            } else if s.flags.children_disabled_changed {
                LifecycleAction::Recurse
            } else {
                LifecycleAction::Skip
            },
            None,
        ),
        LifeCycle::Internal(InternalLifeCycle::RouteFocusChanged { old, new }) => (
            if spec_may_lead_to(s.children, old) || spec_may_lead_to(s.children, new) {
                LifecycleAction::Recurse
            } else {
                LifecycleAction::Skip
            },
            if old == Some(s.id) {
                Some(StatusChange::FocusChanged(false))
            } else if new == Some(s.id) {
                Some(StatusChange::FocusChanged(true))
            } else {
                None
            },
        ),
        LifeCycle::Internal(InternalLifeCycle::ParentWindowOrigin) => (LifecycleAction::Recurse, None),
        LifeCycle::DisabledChanged(a) => (
            if s.spec_is_disabled() != spec_disabled_after(s.flags, a) {
                LifecycleAction::Recurse
            } else {
                LifecycleAction::Skip
            },
            None,
        ),
        LifeCycle::BuildFocusChain => (
            if s.flags.update_focus_chain {
                LifecycleAction::Recurse
            } else {
                LifecycleAction::Skip
            },
            None,
        ),
        LifeCycle::RequestPanToChild(_) => (LifecycleAction::Skip, None),
    }
}

/// The calls into the inner widget for `action` on signal `ev`, then the
/// status change `extra`.
pub open spec fn spec_action_calls(action: LifecycleAction, ev: LifeCycle, extra: Option<StatusChange>) -> Seq<InnerCall> {
    let first = match action {
        LifecycleAction::Recurse => seq![InnerCall::Lifecycle(ev)],
        LifecycleAction::Deliver(e) => seq![InnerCall::Lifecycle(e)],
        LifecycleAction::Skip => Seq::<InnerCall>::empty(),
    };
    match extra {
        Some(x) => first.push(InnerCall::Status(x)),
        None => first,
    }
}

/// The calls a lifecycle signal makes into the inner widget of a node.
pub open spec fn spec_lifecycle_calls(s: WidgetState, ev: LifeCycle) -> Seq<InnerCall> {
    let (a, x) = spec_lifecycle_decision(s, ev);
    spec_action_calls(a, ev, x)
}

/// The post-order bookkeeping of a lifecycle signal `ev` as seen from
/// outside: a node that was added has registered its descendants and itself
/// in its parent's filter; after a disabled signal no change is pending and
/// a disabled node gives up focus; after building the focus chain the node's
/// chain has joined the parent's (unless the node is disabled) and its focus
/// flag is as before.
pub open spec fn spec_lifecycle_post_effects<W>(
    p0: WidgetPod<W>,
    p1: WidgetPod<W>,
    parent0: WidgetState,
    parent1: WidgetState,
    ev: LifeCycle,
    handed_up: Option<FocusChange>,
) -> bool {
    &&& spec_is_added_signal(ev) ==> {
        &&& !p1.state.flags.is_new
        &&& !p1.state.flags.children_changed
        &&& parent1.children.spec_may_contain(p0.state.id.0)
        &&& forall|x: u64| p1.state.children.spec_may_contain(x) ==> #[trigger] parent1.children.spec_may_contain(x)
    }
    &&& ev == LifeCycle::WidgetAdded ==> p1.env.is_some()
    &&& !spec_is_added_signal(ev) ==> parent1.children == parent0.children
    &&& (ev is DisabledChanged || ev == LifeCycle::Internal(InternalLifeCycle::RouteDisabledChanged)) ==> {
        &&& !p1.state.flags.children_disabled_changed
        &&& p1.state.flags.is_explicitly_disabled == p0.state.flags.is_explicitly_disabled_new
        &&& p1.state.flags.is_explicitly_disabled_new == p1.state.flags.is_explicitly_disabled
        &&& p1.state.spec_is_disabled() && p1.state.flags.has_focus ==> handed_up == Some(FocusChange::Resign)
    }
    &&& ev is DisabledChanged ==> p1.state.flags.ancestor_disabled == ev->DisabledChanged_0
    &&& (ev is DisabledChanged || ev == LifeCycle::Internal(InternalLifeCycle::RouteDisabledChanged))
        ==> p1.state.flags.update_focus_chain
    &&& ev is BuildFocusChain ==> {
        &&& !p1.state.flags.update_focus_chain
        &&& p1.state.flags.has_focus == p0.state.flags.has_focus
        &&& parent1.focus_chain@ == if p1.state.spec_is_disabled() {
            parent0.focus_chain@
        } else {
            parent0.focus_chain@ + p1.state.focus_chain@
        }
    }
    &&& !(ev is BuildFocusChain) ==> parent1.focus_chain == parent0.focus_chain
    &&& spec_focus_route(ev) is Some ==> {
        let (from, to) = spec_focus_route(ev)->Some_0;
        &&& to == Some(p0.state.id) && from != Some(p0.state.id) ==> p1.state.flags.has_focus
        &&& spec_lifecycle_decision(p0.state, ev).0 is Skip ==> p1.state.flags.has_focus == (to == Some(p0.state.id) && from != Some(p0.state.id))
    }
    &&& spec_lifecycle_calls(p0.state, ev).len() == 0 ==> p1.inner == p0.inner
}

/// `WidgetAdded` at a node: it becomes initialized, captures the
/// environment, and its focus chain is to be rebuilt. A repeat is reported.
pub fn added_step(
    state: &mut WidgetState,
    env_slot: &mut Option<Env>,
    global: &mut GlobalPassCtx,
    env: &Env,
) -> (r: LifecycleAction)
    ensures
        r == LifecycleAction::Recurse,
        *final(state) == (WidgetState {
            flags: StateFlags { is_new: false, update_focus_chain: true, ..old(state).flags },
            ..*old(state)
        }),
        *final(env_slot) is Some && (*final(env_slot))->Some_0.same_as(*env),
        final(global).diagnostics@ == if old(state).flags.is_new {
            old(global).diagnostics@
        } else {
            old(global).diagnostics@.push(Diagnostic::AlreadyInitialized { widget: old(state).id })
        },
        final(global).focus_widget == old(global).focus_widget,
{
    if !state.flags.is_new {
        global.report(Diagnostic::AlreadyInitialized { widget: state.id });
    }
    *env_slot = Some(env.copy());
    state.flags = StateFlags { is_new: false, update_focus_chain: true, ..state.flags };
    LifecycleAction::Recurse
}

/// A routed `WidgetAdded` at an initialized node: if its children changed,
/// forget the descendant filter (it is rebuilt as they register) and go on
/// into them; otherwise stop here.
pub fn route_added_step(state: &mut WidgetState) -> (r: LifecycleAction)
    ensures
        old(state).flags.children_changed ==> r == LifecycleAction::Recurse
            && *final(state) == (WidgetState {
            children: crate::bloom::Bloom { bits: 0 },
            ..*old(state)
        }),
        !old(state).flags.children_changed ==> r == LifecycleAction::Skip && *final(state) == *old(state),
{
    if state.flags.children_changed {
        state.children.clear();
        LifecycleAction::Recurse
    } else {
        LifecycleAction::Skip
    }
}

/// A routed disabled change: the explicit request takes effect. If that
/// flips the node's disabled state, the widget is told with a plain
/// `DisabledChanged` and routing stops here; otherwise routing goes on only
/// where a descendant has a change pending.
pub fn route_disabled_step(state: &mut WidgetState) -> (r: LifecycleAction)
    ensures
        *final(state) == (WidgetState {
            flags: StateFlags {
                is_explicitly_disabled: old(state).flags.is_explicitly_disabled_new,
                update_focus_chain: true,
                ..old(state).flags
            },
            ..*old(state)
        }),
        r == if old(state).spec_is_disabled() != spec_disabled_after(
            old(state).flags,
            old(state).flags.ancestor_disabled,
        ) {
            LifecycleAction::Deliver(LifeCycle::DisabledChanged(final(state).spec_is_disabled()))
        } else if old(state).flags.children_disabled_changed {
            LifecycleAction::Recurse
        } else {
            LifecycleAction::Skip
        },
{
    let old_flags = state.flags;
    let was_disabled = old_flags.is_explicitly_disabled || old_flags.ancestor_disabled;
    let f = StateFlags {
        update_focus_chain: true,
        is_explicitly_disabled: old_flags.is_explicitly_disabled_new,
        ..old_flags
    };
    state.flags = f;
    let now_disabled = f.is_explicitly_disabled || f.ancestor_disabled;
    if was_disabled != now_disabled {
        LifecycleAction::Deliver(LifeCycle::DisabledChanged(now_disabled))
    } else if f.children_disabled_changed {
        LifecycleAction::Recurse
    } else {
        LifecycleAction::Skip
    }
}

/// A plain disabled change from the ancestors: the explicit request takes
/// effect and the ancestors' state is recorded; the widget (and so its
/// children) hears of it only if the node's own disabled state flips.
pub fn disabled_step(state: &mut WidgetState, ancestors_disabled: bool) -> (r: LifecycleAction)
    ensures
        *final(state) == (WidgetState {
            flags: StateFlags {
                is_explicitly_disabled: old(state).flags.is_explicitly_disabled_new,
                ancestor_disabled: ancestors_disabled,
                update_focus_chain: true,
                ..old(state).flags
            },
            ..*old(state)
        }),
        r == if old(state).spec_is_disabled() != spec_disabled_after(
            old(state).flags,
            ancestors_disabled,
        ) {
            LifecycleAction::Recurse
        } else {
            LifecycleAction::Skip
        },
{
    let old_flags = state.flags;
    let was_disabled = old_flags.is_explicitly_disabled || old_flags.ancestor_disabled;
    let f = StateFlags {
        update_focus_chain: true,
        is_explicitly_disabled: old_flags.is_explicitly_disabled_new,
        ancestor_disabled: ancestors_disabled,
        ..old_flags
    };
    state.flags = f;
    if was_disabled != (f.is_explicitly_disabled || f.ancestor_disabled) {
        LifecycleAction::Recurse
    } else {
        LifecycleAction::Skip
    }
}

/// A routed focus change from `from` to `to`: the node has focus when it is
/// `to` (and is not also `from`); it is told it lost focus when it is `from`,
/// gained it when it is only `to`; routing goes on where either may be a
/// descendant.
pub fn route_focus_step(state: &mut WidgetState, from: Option<WidgetId>, to: Option<WidgetId>) -> (r: (
    LifecycleAction,
    Option<StatusChange>,
))
    ensures
        *final(state) == (WidgetState {
            flags: StateFlags {
                has_focus: to == Some(old(state).id) && from != Some(old(state).id),
                ..old(state).flags
            },
            ..*old(state)
        }),
        r == spec_lifecycle_decision(
            *old(state),
            LifeCycle::Internal(InternalLifeCycle::RouteFocusChanged { old: from, new: to }),
        ),
{
    let id = state.id;
    let change = if from == Some(id) {
        Some(false)
    } else if to == Some(id) {
        Some(true)
    } else {
        None
    };
    let focused = match change {
        Some(c) => c,
        None => false,
    };
    state.flags = StateFlags { has_focus: focused, ..state.flags };
    let extra = match change {
        Some(c) => Some(StatusChange::FocusChanged(c)),
        None => None,
    };
    let via_old = match from {
        Some(o) => state.children.may_contain(o.0),
        None => false,
    };
    let via_new = match to {
        Some(n) => state.children.may_contain(n.0),
        None => false,
    };
    if via_old || via_new {
        (LifecycleAction::Recurse, extra)
    } else {
        (LifecycleAction::Skip, extra)
    }
}

/// Record the parent's window origin and go on into the children.
pub fn window_origin_step(state: &mut WidgetState, parent_window_origin: Point) -> (r:
    LifecycleAction)
    ensures
        r == LifecycleAction::Recurse,
        *final(state) == (WidgetState {
            parent_window_origin,
            flags: StateFlags { needs_window_origin: false, ..old(state).flags },
            ..*old(state)
        }),
{
    state.parent_window_origin = parent_window_origin;
    state.flags = StateFlags { needs_window_origin: false, ..state.flags };
    LifecycleAction::Recurse
}

/// Focus-chain building at a node: only a subtree whose chain is out of date
/// is rebuilt; its chain is cleared, and `has_focus` is set from the
/// focused widget of the pass for the duration of the rebuild.
pub fn focus_chain_step(state: &mut WidgetState, focus_widget: Option<WidgetId>) -> (r:
    LifecycleAction)
    ensures
        old(state).flags.update_focus_chain ==> r == LifecycleAction::Recurse
            && final(state).flags == (StateFlags {
            has_focus: focus_widget == Some(old(state).id),
            ..old(state).flags
        }) && final(state).focus_chain@.len() == 0 && final(state).id == old(state).id
            && final(state).children == old(state).children,
        !old(state).flags.update_focus_chain ==> r == LifecycleAction::Skip && *final(state)
            == *old(state),
{
    if state.flags.update_focus_chain {
        state.flags = StateFlags { has_focus: focus_widget == Some(state.id), ..state.flags };
        state.focus_chain.clear();
        LifecycleAction::Recurse
    } else {
        LifecycleAction::Skip
    }
}

/// `now` is `old` with flags `base`, except that the widget may have made
/// requests: paint, layout and animation requests only ever get added, and
/// the focus request is the widget's.
#[verifier::opaque]
pub open spec fn spec_requests_only(old: WidgetState, base: StateFlags, now: WidgetState) -> bool {
    &&& now == (WidgetState {
        flags: StateFlags {
            request_paint: now.flags.request_paint,
            needs_layout: now.flags.needs_layout,
            request_anim: now.flags.request_anim,
            ..base
        },
        request_focus: now.request_focus,
        ..old
    })
    &&& base.request_paint ==> now.flags.request_paint
    &&& base.needs_layout ==> now.flags.needs_layout
    &&& base.request_anim ==> now.flags.request_anim
}

/// What `spec_requests_only` gives of the flags and of what routing and
/// painting read.
pub proof fn lemma_requests_only(old: WidgetState, base: StateFlags, now: WidgetState)
    requires
        spec_requests_only(old, base, now),
    ensures
        now.flags == (StateFlags {
            request_paint: now.flags.request_paint,
            needs_layout: now.flags.needs_layout,
            request_anim: now.flags.request_anim,
            ..base
        }),
        base.request_paint ==> now.flags.request_paint,
        base.needs_layout ==> now.flags.needs_layout,
        base.request_anim ==> now.flags.request_anim,
        now.id == old.id,
        now.origin == old.origin,
        now.size == old.size,
        now.paint_insets == old.paint_insets,
        now.children == old.children,
{
    reveal(spec_requests_only);
}

/// A copy of the state for a widget's status-change handler (without the
/// focus chain, which that handler has no use for).
fn status_copy(s: &WidgetState) -> (r: WidgetState)
    ensures
        r == (WidgetState { focus_chain: r.focus_chain, ..*s }),
{
    WidgetState {
        id: s.id,
        origin: s.origin,
        parent_window_origin: s.parent_window_origin,
        size: s.size,
        paint_insets: s.paint_insets,
        local_paint_rect: s.local_paint_rect,
        baseline_offset: s.baseline_offset,
        flags: s.flags,
        request_focus: s.request_focus,
        children: s.children,
        focus_chain: Vec::new(),
        last_visit: s.last_visit,
    }
}

/// Take the requests a widget made in `from` into `state`.
fn take_requests(state: &mut WidgetState, from: &WidgetState)
    ensures
        spec_requests_only(*old(state), old(state).flags, *final(state)),
        final(state).request_focus == from.request_focus,
{
    let f = state.flags;
    state.flags = StateFlags {
        request_paint: f.request_paint || from.flags.request_paint,
        needs_layout: f.needs_layout || from.flags.needs_layout,
        request_anim: f.request_anim || from.flags.request_anim,
        ..f
    };
    state.request_focus = from.request_focus;
    proof { reveal(spec_requests_only); }
}

/// `seg` is the redelivery, in order, of each notification of `ns` that did
/// not come from the widget `id` itself.
pub open spec fn spec_redelivery(ns: Seq<Notification>, id: WidgetId, seg: Seq<InnerCall>) -> bool
    decreases ns.len(),
{
    if ns.len() == 0 {
        seg.len() == 0
    } else if ns.last().source == id {
        spec_redelivery(ns.drop_last(), id, seg)
    } else {
        &&& seg.len() > 0
        &&& seg.last() is Notification
        &&& seg.last()->Notification_notification == ns.last()
        &&& spec_redelivery(ns.drop_last(), id, seg.drop_last())
    }
}

/// What goes up for the notifications `ns`, given the redeliveries `seg`:
/// each one the widget emitted itself as it is; each other one after what
/// the widget emitted while handling it, and only if it was not handled.
pub open spec fn spec_bubbled(ns: Seq<Notification>, id: WidgetId, seg: Seq<InnerCall>) -> Seq<Notification>
    decreases ns.len(),
{
    if ns.len() == 0 {
        Seq::<Notification>::empty()
    } else if ns.last().source == id {
        spec_bubbled(ns.drop_last(), id, seg).push(ns.last())
    } else {
        spec_bubbled(ns.drop_last(), id, seg.drop_last()) + spec_bubble(
            ns.last(),
            id,
            seg.last()->Notification_handled,
            seg.last()->Notification_emitted,
        )
    }
}

/// After the delivered event at index `n` of `calls`, the only calls are the
/// pan request the widget made (if any) and then redelivered notifications.
pub open spec fn spec_followups(calls: Seq<InnerCall>, n: int) -> bool {
    let pan = calls[n]->Event_pan;
    let k = if pan is Some { n + 2 } else { n + 1 };
    &&& pan is Some ==> n + 1 < calls.len() && calls[n + 1] == InnerCall::Lifecycle(
        LifeCycle::RequestPanToChild(pan->Some_0),
    )
    &&& k <= calls.len()
    &&& forall|i: int| k <= i < calls.len() ==> (#[trigger] calls[i]) is Notification
}

/// Every entry of a redelivery sequence is a notification redelivery.
pub proof fn lemma_redelivery_all_notifications(ns: Seq<Notification>, id: WidgetId, seg: Seq<InnerCall>, j: int)
    requires
        spec_redelivery(ns, id, seg),
        0 <= j < seg.len(),
    ensures
        seg[j] is Notification,
    decreases ns.len(),
{
    if ns.len() > 0 {
        if ns.last().source == id {
            lemma_redelivery_all_notifications(ns.drop_last(), id, seg, j);
        } else if j < seg.len() - 1 {
            lemma_redelivery_all_notifications(ns.drop_last(), id, seg.drop_last(), j);
        }
    }
}

/// What the parent's context takes up from the delivered event `entry`: the
/// event is handled when the widget handled it, and its pan request goes up
/// moved by the node's origin `origin`.
pub open spec fn spec_outcome_taken(c0: EventCtx, c1: EventCtx, entry: InnerCall, origin: Point) -> bool {
    &&& c1.is_handled == (c0.is_handled || entry->Event_handled)
    &&& c1.request_pan_to_child == match entry->Event_pan {
        Some(t) => Some(t.spec_translate(origin)),
        None => c0.request_pan_to_child,
    }
}

/// The hot state of a node with state `s` after event `e`.
pub open spec fn spec_hot_after(e: Event, s: WidgetState) -> bool {
    match spec_pointer_input(e) {
        Some(pos) => spec_hot_at(s.spec_paint_rect(), pos),
        None => s.flags.is_hot,
    }
}

/// The status call an event causes by changing the hot state, if any.
pub open spec fn spec_hot_calls(e: Event, s: WidgetState) -> Seq<InnerCall> {
    match spec_pointer_input(e) {
        Some(pos) => if spec_hot_changed(s.flags.is_hot, s.spec_paint_rect(), pos) {
            seq![InnerCall::Status(StatusChange::HotChanged(spec_hot_at(s.spec_paint_rect(), pos)))]
        } else {
            Seq::<InnerCall>::empty()
        },
        None => Seq::<InnerCall>::empty(),
    }
}

/// The event the inner widget of a node with state `s` receives for `e`:
/// routing on the node as it is once its hot state is updated.
pub open spec fn spec_event_delivery(e: Event, s: WidgetState, is_root: bool) -> Option<Event> {
    spec_route_event(
        e,
        RouteView { is_hot: spec_hot_after(e, s), ..spec_route_view(s) },
        s.flags.has_active,
        spec_hot_calls(e, s).len() > 0,
        s.flags.request_anim,
        is_root,
    )
}

/// The diagnostics of a pass that reached a node with state `s`, before
/// anything the widget's own code adds: one if it is not yet initialized.
pub open spec fn spec_init_diagnostics(s: WidgetState, pass: PassName) -> Seq<Diagnostic> {
    if s.flags.is_new {
        seq![Diagnostic::NotInitialized { widget: s.id, pass }]
    } else {
        Seq::<Diagnostic>::empty()
    }
}

/// `after` keeps the problems of `before` followed by `more`, possibly
/// followed by others, and the same focus.
pub open spec fn keeps_then(before: GlobalPassCtx, more: Seq<Diagnostic>, after: GlobalPassCtx) -> bool {
    let pre = before.diagnostics@ + more;
    &&& after.focus_widget == before.focus_widget
    &&& pre.len() <= after.diagnostics@.len()
    &&& after.diagnostics@.subrange(0, pre.len() as int) == pre
}

/// What an event pass that was not already handled does at a pod: the
/// widget gets the status call of a hot change, then the routed event if
/// any (with `has_active` cleared for it to recompute), then only its own
/// pan request and redelivered notifications; the hot flag follows the
/// pointer; the parent's flags take in the child's, and its handled mark
/// and pan request take up the widget's; an uninitialized node is reported.
/// When nothing is routed and the hot state did not change, the flags change
/// only as the event itself says (an animation frame uses up its request);
/// a resize always calls for layout.
pub open spec fn spec_event_outcome<W>(
    p0: WidgetPod<W>,
    p1: WidgetPod<W>,
    c0: EventCtx,
    c1: EventCtx,
    e: Event,
) -> bool {
    let s = p0.state;
    let hot_calls = spec_hot_calls(e, s);
    let n0 = p0.calls@.len() + hot_calls.len();
    &&& c1.widget_state.flags == merged_flags(c0.widget_state.flags, p1.state.flags)
    &&& c1.widget_state.id == c0.widget_state.id
    &&& keeps_then(c0.global_state, spec_init_diagnostics(s, PassName::Event), c1.global_state)
    &&& p1.state.flags.is_hot == spec_hot_after(e, s)
    &&& p1.state.flags.is_new == s.flags.is_new
    &&& e is WindowSize ==> p1.state.flags.needs_layout
    &&& n0 <= p1.calls@.len()
    &&& p1.calls@.subrange(0, n0 as int) == p0.calls@ + hot_calls
    &&& match spec_event_delivery(e, s, c0.is_root) {
        None => {
            &&& p1.calls@ == p0.calls@ + hot_calls
            &&& hot_calls.len() == 0 ==> p1.inner == p0.inner
            &&& hot_calls.len() == 0 ==> p1.state.flags == spec_noted(s.flags, e)
            &&& c1.is_handled == c0.is_handled
            &&& c1.request_pan_to_child == c0.request_pan_to_child
        },
        Some(d) => {
            &&& n0 < p1.calls@.len()
            &&& p1.calls@[n0 as int] is Event
            &&& p1.calls@[n0 as int]->Event_event == d
            &&& p1.calls@[n0 as int]->Event_has_active == false
            &&& spec_followups(p1.calls@, n0 as int)
            &&& spec_outcome_taken(c0, c1, p1.calls@[n0 as int], s.origin)
            &&& p1.state.flags.is_active ==> p1.state.flags.has_active
        },
    }
}

/// Take up what the inner widget's event handler left in its context: the
/// parent's event is handled when the widget handled it, and a pan request
/// goes up moved by this node's `origin`.
pub fn absorb_outcome(parent_ctx: &mut EventCtx, handled: bool, pan: Option<Rect>, origin: Point)
    ensures
        final(parent_ctx).is_handled == (old(parent_ctx).is_handled || handled),
        final(parent_ctx).request_pan_to_child == match pan {
            Some(t) => Some(t.spec_translate(origin)),
            None => old(parent_ctx).request_pan_to_child,
        },
        final(parent_ctx).widget_state == old(parent_ctx).widget_state,
        final(parent_ctx).global_state == old(parent_ctx).global_state,
        final(parent_ctx).notifications == old(parent_ctx).notifications,
        final(parent_ctx).is_root == old(parent_ctx).is_root,
{
    parent_ctx.is_handled = parent_ctx.is_handled || handled;
    match pan {
        Some(t) => {
            parent_ctx.request_pan_to_child = Some(t.translate(origin));
        },
        None => {},
    }
}

/// The flags after event `e` set or cleared what it does by itself: an
/// animation frame uses up the animation request; a window resize calls for
/// layout.
pub open spec fn spec_noted(f: StateFlags, e: Event) -> StateFlags {
    if e is AnimFrame {
        StateFlags { request_anim: false, ..f }
    } else if e is WindowSize {
        StateFlags { needs_layout: true, ..f }
    } else {
        f
    }
}

fn note_event_flags(flags: &mut StateFlags, e: &Event)
    ensures
        *final(flags) == spec_noted(*old(flags), *e),
{
    match e {
        Event::AnimFrame(_) => {
            flags.request_anim = false;
        },
        Event::WindowSize(_) => {
            flags.needs_layout = true;
        },
        _ => {},
    }
}

impl<W: Widget> WidgetPod<W> {
    /// Create a pod for `inner` with the next id of `ids`.
    pub fn new(inner: W, ids: &mut WidgetIdSource) -> (r: WidgetPod<W>)
        requires
            old(ids).next_raw < u64::MAX,
        ensures
            r.state.id == WidgetId(old(ids).next_raw),
            final(ids).next_raw == old(ids).next_raw + 1,
            r.inner == inner,
            r.env.is_none(),
            r.state.flags == spec_initial_flags(),
    {
        let id = ids.next();
        Self::new_with_id(inner, id)
    }

    /// Create a pod for `inner` with the given id: new, needing layout, with
    /// its children to be registered.
    pub fn new_with_id(inner: W, id: WidgetId) -> (r: WidgetPod<W>)
        ensures
            r.state.id == id,
            r.inner == inner,
            r.env.is_none(),
            r.state.flags == spec_initial_flags(),
            r.state.request_focus.is_none(),
            r.state.children.bits == 0,
            r.state.focus_chain@.len() == 0,
            r.state.origin == (Point { x: 0, y: 0 }),
            r.state.size == (Size { width: 0, height: 0 }),
            r.state.paint_insets == (Insets { x0: 0, y0: 0, x1: 0, y1: 0 }),
            r.calls@.len() == 0,
    {
        let mut state = WidgetState::new(id);
        state.flags.children_changed = true;
        state.flags.needs_layout = true;
        WidgetPod { state, inner, env: None, calls: Ghost(Seq::empty()) }
    }

    /// Read-only access to the state.
    pub fn state(&self) -> (r: &WidgetState)
        ensures
            *r == self.state,
    {
        &self.state
    }

    /// The inner widget.
    pub fn widget(&self) -> (r: &W)
        ensures
            *r == self.inner,
    {
        &self.inner
    }

    /// The inner widget, for changing it.
    pub fn widget_mut(&mut self) -> (r: &mut W)
        ensures
            *r == old(self).inner,
            final(self).inner == *final(r),
            final(self).state == old(self).state,
            final(self).env == old(self).env,
    {
        &mut self.inner
    }

    /// The inner widget with its state.
    pub fn as_ref(&self) -> (r: WidgetRef<'_, W>)
        ensures
            *r.state == self.state,
            *r.widget == self.inner,
    {
        WidgetRef { state: &self.state, widget: &self.inner }
    }

    /// Whether the widget has received `WidgetAdded`.
    pub fn is_initialized(&self) -> (r: bool)
        ensures
            r == !self.state.flags.is_new,
    {
        !self.state.flags.is_new
    }

    /// Whether the widget or a descendant has focus.
    pub fn has_focus(&self) -> (r: bool)
        ensures
            r == self.state.flags.has_focus,
    {
        self.state.flags.has_focus
    }

    pub fn is_active(&self) -> (r: bool)
        ensures
            r == self.state.flags.is_active,
    {
        self.state.flags.is_active
    }

    /// Whether the widget or a descendant is active.
    pub fn has_active(&self) -> (r: bool)
        ensures
            r == self.state.flags.has_active,
    {
        self.state.flags.has_active
    }

    pub fn is_hot(&self) -> (r: bool)
        ensures
            r == self.state.flags.is_hot,
    {
        self.state.flags.is_hot
    }

    pub fn id(&self) -> (r: WidgetId)
        ensures
            r == self.state.id,
    {
        self.state.id
    }

    /// The rectangle given by the origin the parent placed the widget at and
    /// the size of its last layout.
    pub fn layout_rect(&self) -> (r: Rect)
        ensures
            r == self.state.spec_layout_rect(),
    {
        self.state.layout_rect()
    }

    /// The layout rectangle grown by the paint insets.
    pub fn paint_rect(&self) -> (r: Rect)
        ensures
            r == self.state.spec_paint_rect(),
    {
        self.state.paint_rect()
    }

    pub fn paint_insets(&self) -> (r: Insets)
        ensures
            r == self.state.paint_insets,
    {
        self.state.paint_insets
    }

    /// The insets a parent of size `parent_size` needs so that its paint
    /// bounds hold this child's paint rectangle: the union of the two minus
    /// the parent's bounds.
    pub fn compute_parent_paint_insets(&self, parent_size: Size) -> (r: Insets)
        ensures
            ({
                let parent_bounds = Rect::spec_from_origin_size(Point { x: 0, y: 0 }, parent_size);
                r == self.state.spec_paint_rect().spec_union(parent_bounds).spec_insets_from(
                    parent_bounds,
                )
            }),
    {
        let parent_bounds = Rect::zero().with_size(parent_size);
        let union_paint_rect = self.paint_rect().union(parent_bounds);
        union_paint_rect.insets_from(parent_bounds)
    }

    /// The distance from the bottom of the widget to its baseline.
    pub fn baseline_offset(&self) -> (r: i64)
        ensures
            r == self.state.baseline_offset,
    {
        self.state.baseline_offset
    }

    /// What a container reports of this child.
    pub fn summary(&self) -> (r: ChildSummary)
        ensures
            r == (ChildSummary {
                id: self.state.id,
                last_visit: self.state.last_visit,
                is_stashed: self.state.flags.is_stashed,
                is_expecting_place_child_call: self.state.flags.is_expecting_place_child_call,
                paint_rect: self.state.spec_paint_rect(),
            }),
    {
        ChildSummary {
            id: self.state.id,
            last_visit: self.state.last_visit,
            is_stashed: self.state.flags.is_stashed,
            is_expecting_place_child_call: self.state.flags.is_expecting_place_child_call,
            paint_rect: self.state.paint_rect(),
        }
    }

    /// Stamp the widget as visited in the current pass.
    pub fn mark_as_visited(&mut self, global: &mut GlobalPassCtx)
        ensures
            final(self).state == (WidgetState {
                last_visit: old(global).visit_clock,
                ..old(self).state
            }),
            final(self).inner == old(self).inner,
            final(self).env == old(self).env,
            final(self).calls == old(self).calls,
            final(global).visit_clock >= old(global).visit_clock,
            final(global).focus_widget == old(global).focus_widget,
            final(global).diagnostics == old(global).diagnostics,
    {
        self.state.last_visit = global.next_stamp();
    }

    /// Report a pass that reached the widget before `WidgetAdded`.
    fn check_initialized(&self, global: &mut GlobalPassCtx, pass: PassName)
        ensures
            final(global).diagnostics@ == if self.state.flags.is_new {
                old(global).diagnostics@.push(
                    Diagnostic::NotInitialized { widget: self.state.id, pass },
                )
            } else {
                old(global).diagnostics@
            },
            final(global).focus_widget == old(global).focus_widget,
            final(global).visit_clock == old(global).visit_clock,
    {
        if self.state.flags.is_new {
            global.report(Diagnostic::NotInitialized { widget: self.state.id, pass });
        }
    }

    /// Tell the inner widget of a change of its own status. It sees a copy of
    /// the state and may only make requests (paint, layout, animation, focus).
    fn run_status_change(&mut self, global: &mut GlobalPassCtx, event: &StatusChange, env: &Env)
        ensures
            final(self).calls@ == old(self).calls@.push(InnerCall::Status(*event)),
            spec_requests_only(old(self).state, old(self).state.flags, final(self).state),
            final(self).env == old(self).env,
            keeps(*old(global), *final(global)),
    {
        let mut ctx = LifeCycleCtx { global_state: global.for_child(), widget_state: status_copy(&self.state) };
        self.calls = Ghost(self.calls@.push(InnerCall::Status(*event)));
        self.inner.on_status_change(&mut ctx, event, env);
        let ghost g0 = *global;
        global.absorb(ctx.global_state);
        assert(global.diagnostics@.subrange(0, g0.diagnostics@.len() as int) =~= g0.diagnostics@);
        take_requests(&mut self.state, &ctx.widget_state);
    }

    /// Set the hot state for the pointer at `mouse_pos` over `rect`; on a
    /// change, tell the widget at once (and, when widget ids are shown, ask
    /// for a repaint). Returns whether it changed.
    pub fn update_hot_state(
        &mut self,
        global: &mut GlobalPassCtx,
        rect: Rect,
        mouse_pos: Option<Point>,
        env: &Env,
    ) -> (r: bool)
        ensures
            r == spec_hot_changed(old(self).state.flags.is_hot, rect, mouse_pos),
            r ==> final(self).calls@ == old(self).calls@.push(
                InnerCall::Status(StatusChange::HotChanged(spec_hot_at(rect, mouse_pos))),
            ),
            r ==> spec_requests_only(
                old(self).state,
                StateFlags {
                    is_hot: spec_hot_at(rect, mouse_pos),
                    request_paint: old(self).state.flags.request_paint || env.debug_widget_id,
                    ..old(self).state.flags
                },
                final(self).state,
            ),
            !r ==> *final(self) == *old(self) && *final(global) == *old(global),
            final(self).state.flags.is_hot == spec_hot_at(rect, mouse_pos),
            final(self).state.id == old(self).state.id,
            final(self).env == old(self).env,
            keeps(*old(global), *final(global)),
    {
        let had_hot = self.state.flags.is_hot;
        let hot = hot_at(rect, mouse_pos);
        if had_hot != hot {
            let f = self.state.flags;
            self.state.flags = StateFlags {
                is_hot: hot,
                request_paint: f.request_paint || env.debug_widget_id,
                ..f
            };
            self.run_status_change(global, &StatusChange::HotChanged(hot), env);
            proof { reveal(spec_requests_only); }
            return true;
        }
        proof { lemma_keeps_refl(*global); }
        false
    }

    /// Run the inner widget's event handler with a fresh context holding this
    /// pod's state, then check its children. Returns whether it handled the
    /// event, where it asked to pan to, and the notifications it emitted.
    fn run_inner_event(
        &mut self,
        global: &mut GlobalPassCtx,
        event: &Event,
        env: &Env,
        track_active: bool,
    ) -> (r: (bool, Option<Rect>, Vec<Notification>))
        requires
            !track_active ==> *event is Notification,
        ensures
            final(self).calls@ == old(self).calls@.push(
                if track_active {
                    InnerCall::Event { event: *event, has_active: false, handled: r.0, pan: r.1 }
                } else {
                    InnerCall::Notification {
                        notification: event->Notification_0,
                        handled: r.0,
                        emitted: r.2@,
                    }
                },
            ),
            final(self).state.id == old(self).state.id,
            final(self).state.flags == spec_with_owned(final(self).state.flags, old(self).state.flags),
            final(self).state.flags.is_active ==> final(self).state.flags.has_active,
            final(self).env == old(self).env,
            keeps(*old(global), *final(global)),
    {
        let id = self.state.id;
        let saved = self.state.flags;
        let before = child_ids(&self.inner.children());
        let start = global.visit_clock;
        let mut ctx = EventCtx {
            global_state: global.for_child(),
            widget_state: WidgetState::new(id),
            notifications: Vec::new(),
            is_handled: false,
            is_root: false,
            request_pan_to_child: None,
        };
        std::mem::swap(&mut ctx.widget_state, &mut self.state);
        if track_active {
            ctx.widget_state.flags.has_active = false;
        }
        self.inner.on_event(&mut ctx, event, env);
        self.calls = Ghost(self.calls@.push(
            if track_active {
                InnerCall::Event {
                    event: *event,
                    has_active: false,
                    handled: ctx.is_handled,
                    pan: ctx.request_pan_to_child,
                }
            } else {
                InnerCall::Notification {
                    notification: event->Notification_0,
                    handled: ctx.is_handled,
                    emitted: ctx.notifications@,
                }
            },
        ));
        std::mem::swap(&mut ctx.widget_state, &mut self.state);
        let ghost g0 = *global;
        global.absorb(ctx.global_state);
        assert(global.diagnostics@.subrange(0, g0.diagnostics@.len() as int) =~= g0.diagnostics@);
        restore_owned(&mut self.state, id, saved);
        let after = self.inner.children();
        let ghost g1 = *global;
        check_children(global, id, self.state.flags.children_changed, &before, &after, start, PassName::Event);
        assert(global.diagnostics@.subrange(0, g1.diagnostics@.len() as int) =~= g1.diagnostics@);
        proof { lemma_keeps_trans(g0, g1, *global); }
        (ctx.is_handled, ctx.request_pan_to_child, ctx.notifications)
    }

    /// Tell the inner widget that a child asked to be scrolled into view.
    fn pan_to_child(&mut self, global: &mut GlobalPassCtx, env: &Env, rect: Rect)
        ensures
            final(self).calls@ == old(self).calls@.push(
                InnerCall::Lifecycle(LifeCycle::RequestPanToChild(rect)),
            ),
            final(self).state.id == old(self).state.id,
            final(self).state.flags == spec_with_owned(final(self).state.flags, old(self).state.flags),
            final(self).env == old(self).env,
            keeps(*old(global), *final(global)),
    {
        let id = self.state.id;
        let saved = self.state.flags;
        let mut ctx = LifeCycleCtx { global_state: global.for_child(), widget_state: WidgetState::new(id) };
        std::mem::swap(&mut ctx.widget_state, &mut self.state);
        self.calls = Ghost(self.calls@.push(InnerCall::Lifecycle(LifeCycle::RequestPanToChild(rect))));
        self.inner.lifecycle(&mut ctx, &LifeCycle::RequestPanToChild(rect), env);
        std::mem::swap(&mut ctx.widget_state, &mut self.state);
        let ghost g0 = *global;
        global.absorb(ctx.global_state);
        assert(global.diagnostics@.subrange(0, g0.diagnostics@.len() as int) =~= g0.diagnostics@);
        restore_owned(&mut self.state, id, saved);
    }

    /// Hand the notifications that came out of the inner widget on: those
    /// from deeper descendants are first shown to the inner widget, and go on
    /// to the parent's queue (after what it emitted meanwhile) unless it
    /// handles them; those the widget emitted itself go on as they are.
    fn process_notifications(
        &mut self,
        parent_ctx: &mut EventCtx,
        notifications: &Vec<Notification>,
        env: &Env,
    )
        ensures
            old(self).calls@.len() <= final(self).calls@.len(),
            final(self).calls@.subrange(0, old(self).calls@.len() as int) == old(self).calls@,
            spec_redelivery(
                notifications@,
                old(self).state.id,
                final(self).calls@.subrange(old(self).calls@.len() as int, final(self).calls@.len() as int),
            ),
            final(parent_ctx).notifications@ == old(parent_ctx).notifications@ + spec_bubbled(
                notifications@,
                old(self).state.id,
                final(self).calls@.subrange(old(self).calls@.len() as int, final(self).calls@.len() as int),
            ),
            final(self).state.id == old(self).state.id,
            final(self).state.flags.is_hot == old(self).state.flags.is_hot,
            final(self).state.flags.is_new == old(self).state.flags.is_new,
            old(self).state.flags.needs_layout ==> final(self).state.flags.needs_layout,
            (old(self).state.flags.is_active ==> old(self).state.flags.has_active)
                ==> (final(self).state.flags.is_active ==> final(self).state.flags.has_active),
            final(self).env == old(self).env,
            keeps(old(parent_ctx).global_state, final(parent_ctx).global_state),
            final(parent_ctx).widget_state == old(parent_ctx).widget_state,
            final(parent_ctx).is_handled == old(parent_ctx).is_handled,
            final(parent_ctx).is_root == old(parent_ctx).is_root,
            final(parent_ctx).request_pan_to_child == old(parent_ctx).request_pan_to_child,
    {
        let self_id = self.state.id;
        let ghost c0 = self.calls@;
        let ghost q0 = parent_ctx.notifications@;
        proof { lemma_keeps_refl(parent_ctx.global_state); }
        assert(notifications@.subrange(0, 0) =~= Seq::<Notification>::empty());
        assert(self.calls@.subrange(c0.len() as int, self.calls@.len() as int) =~= Seq::<InnerCall>::empty());
        assert(self.calls@.subrange(0, c0.len() as int) =~= c0);
        assert(q0 + spec_bubbled(Seq::<Notification>::empty(), self_id, Seq::<InnerCall>::empty()) =~= q0);
        let mut i: usize = 0;
        while i < notifications.len()
            invariant
                i <= notifications@.len(),
                self.state.id == self_id,
                self_id == old(self).state.id,
                self.state.flags.is_hot == old(self).state.flags.is_hot,
                self.state.flags.is_new == old(self).state.flags.is_new,
                old(self).state.flags.needs_layout ==> self.state.flags.needs_layout,
                (old(self).state.flags.is_active ==> old(self).state.flags.has_active)
                    ==> (self.state.flags.is_active ==> self.state.flags.has_active),
                self.env == old(self).env,
                c0 == old(self).calls@,
                q0 == old(parent_ctx).notifications@,
                c0.len() <= self.calls@.len(),
                self.calls@.subrange(0, c0.len() as int) == c0,
                spec_redelivery(
                    notifications@.subrange(0, i as int),
                    self_id,
                    self.calls@.subrange(c0.len() as int, self.calls@.len() as int),
                ),
                parent_ctx.notifications@ == q0 + spec_bubbled(
                    notifications@.subrange(0, i as int),
                    self_id,
                    self.calls@.subrange(c0.len() as int, self.calls@.len() as int),
                ),
                keeps(old(parent_ctx).global_state, parent_ctx.global_state),
                parent_ctx.widget_state == old(parent_ctx).widget_state,
                parent_ctx.is_handled == old(parent_ctx).is_handled,
                parent_ctx.is_root == old(parent_ctx).is_root,
                parent_ctx.request_pan_to_child == old(parent_ctx).request_pan_to_child,
            decreases notifications@.len() - i,
        {
            let n = notifications[i];
            let ghost seg0 = self.calls@.subrange(c0.len() as int, self.calls@.len() as int);
            let ghost before = parent_ctx.notifications@;
            let ghost g_before = parent_ctx.global_state;
            let ghost ns1 = notifications@.subrange(0, i as int + 1);
            proof {
                assert(ns1.drop_last() =~= notifications@.subrange(0, i as int));
                assert(ns1.last() == n);
            }
            if n.source != self_id {
                let (handled, _pan, emitted) = self.run_inner_event(
                    &mut parent_ctx.global_state,
                    &Event::Notification(n),
                    env,
                    false,
                );
                proof { lemma_keeps_trans(old(parent_ctx).global_state, g_before, parent_ctx.global_state); }
                bubble_notification(&mut parent_ctx.notifications, n, self_id, handled, &emitted);
                proof {
                    let seg1 = self.calls@.subrange(c0.len() as int, self.calls@.len() as int);
                    assert(seg1.drop_last() =~= seg0);
                    assert(self.calls@.subrange(0, c0.len() as int) =~= c0);
                    assert(parent_ctx.notifications@ =~= q0 + spec_bubbled(ns1, self_id, seg1));
                }
            } else {
                let none: Vec<Notification> = Vec::new();
                bubble_notification(&mut parent_ctx.notifications, n, self_id, false, &none);
                assert(spec_bubble(n, self_id, false, none@) == seq![n]);
                assert(parent_ctx.notifications@ =~= q0 + spec_bubbled(ns1, self_id, seg0));
            }
            i += 1;
        }
        assert(notifications@.subrange(0, notifications@.len() as int) =~= notifications@);
    }

    /// The local part of the event pass: update hot state, then decide what
    /// the inner widget receives.
    fn prepare_event(
        &mut self,
        global: &mut GlobalPassCtx,
        event: &Event,
        env: &Env,
        is_root: bool,
    ) -> (r: Option<Event>)
        ensures
            r == spec_event_delivery(*event, old(self).state, is_root),
            final(self).calls@ == old(self).calls@ + spec_hot_calls(*event, old(self).state),
            spec_hot_calls(*event, old(self).state).len() == 0 ==> *final(self) == *old(self)
                && *final(global) == *old(global),
            spec_route_view(final(self).state) == (RouteView {
                is_hot: spec_hot_after(*event, old(self).state),
                ..spec_route_view(old(self).state)
            }),
            final(self).state.flags.is_new == old(self).state.flags.is_new,
            final(self).state.id == old(self).state.id,
            final(self).state.origin == old(self).state.origin,
            final(self).env == old(self).env,
            keeps(*old(global), *final(global)),
    {
        let had_active = self.state.flags.has_active;
        let anim_pending = self.state.flags.request_anim;
        let rect = self.state.paint_rect();
        proof { lemma_keeps_refl(*global); }
        let mut hot_changed = false;
        match pointer_input(event) {
            Some(pos) => {
                hot_changed = self.update_hot_state(global, rect, pos, env);
                proof {
                    if hot_changed {
                        lemma_requests_only(
                            old(self).state,
                            StateFlags {
                                is_hot: spec_hot_at(rect, pos),
                                request_paint: old(self).state.flags.request_paint || env.debug_widget_id,
                                ..old(self).state.flags
                            },
                            self.state,
                        );
                    }
                }
            },
            None => {},
        }
        assert(self.calls@ =~= old(self).calls@ + spec_hot_calls(*event, old(self).state));
        assert(spec_route_view(self.state) == RouteView { is_hot: spec_hot_after(*event, old(self).state), ..spec_route_view(old(self).state) });
        route_event(event, &self.state, had_active, hot_changed, anim_pending, is_root)
    }

    /// The rest of the event pass at this node, given the routing result:
    /// note the flags the event sets by itself, then deliver it (if routed).
    fn deliver_or_skip(&mut self, parent_ctx: &mut EventCtx, routed: Option<Event>, event: &Event, env: &Env)
        ensures
            final(self).state.id == old(self).state.id,
            final(self).env == old(self).env,
            final(parent_ctx).widget_state == old(parent_ctx).widget_state,
            keeps(old(parent_ctx).global_state, final(parent_ctx).global_state),
            routed is None ==> {
                &&& final(self).calls == old(self).calls
                &&& final(self).inner == old(self).inner
                &&& final(self).state.flags == spec_noted(old(self).state.flags, *event)
                &&& final(parent_ctx).is_handled == old(parent_ctx).is_handled
                &&& final(parent_ctx).request_pan_to_child == old(parent_ctx).request_pan_to_child
            },
            routed is Some ==> {
                let n = old(self).calls@.len() as int;
                &&& n < final(self).calls@.len()
                &&& final(self).calls@.subrange(0, n) == old(self).calls@
                &&& final(self).calls@[n] is Event
                &&& final(self).calls@[n]->Event_event == routed->Some_0
                &&& final(self).calls@[n]->Event_has_active == false
                &&& spec_followups(final(self).calls@, n)
                &&& spec_outcome_taken(*old(parent_ctx), *final(parent_ctx), final(self).calls@[n], old(self).state.origin)
                &&& final(self).state.flags.is_hot == old(self).state.flags.is_hot
                &&& final(self).state.flags.is_new == old(self).state.flags.is_new
                &&& spec_noted(old(self).state.flags, *event).needs_layout ==> final(self).state.flags.needs_layout
                &&& final(self).state.flags.is_active ==> final(self).state.flags.has_active
            },
    {
        note_event_flags(&mut self.state.flags, event);
        match routed {
            Some(inner_event) => {
                self.deliver_event(parent_ctx, &inner_event, env);
            },
            None => {
                proof { lemma_keeps_refl(parent_ctx.global_state); }
            },
        }
    }

    /// Run the inner widget on `inner_event`, then take up its handled mark
    /// and pan request, and hand its notifications up to the parent.
    fn deliver_event(&mut self, parent_ctx: &mut EventCtx, inner_event: &Event, env: &Env)
        ensures
            old(self).calls@.len() < final(self).calls@.len(),
            final(self).calls@.subrange(0, old(self).calls@.len() as int) == old(self).calls@,
            final(self).calls@[old(self).calls@.len() as int] is Event,
            final(self).calls@[old(self).calls@.len() as int]->Event_event == *inner_event,
            final(self).calls@[old(self).calls@.len() as int]->Event_has_active == false,
            spec_followups(final(self).calls@, old(self).calls@.len() as int),
            spec_outcome_taken(
                *old(parent_ctx),
                *final(parent_ctx),
                final(self).calls@[old(self).calls@.len() as int],
                old(self).state.origin,
            ),
            final(self).state.id == old(self).state.id,
            final(self).state.flags.is_hot == old(self).state.flags.is_hot,
            final(self).state.flags.is_new == old(self).state.flags.is_new,
            old(self).state.flags.needs_layout ==> final(self).state.flags.needs_layout,
            final(self).state.flags.is_active ==> final(self).state.flags.has_active,
            final(self).env == old(self).env,
            final(parent_ctx).widget_state == old(parent_ctx).widget_state,
            keeps(old(parent_ctx).global_state, final(parent_ctx).global_state),
    {
        let ghost g0 = parent_ctx.global_state;
        let ghost n = old(self).calls@.len() as int;
        let origin = self.state.origin;
        let (handled, pan, notifications) = self.run_inner_event(
            &mut parent_ctx.global_state,
            inner_event,
            env,
            true,
        );
        let ghost c1 = self.calls@;
        let ghost p1 = *parent_ctx;
        absorb_outcome(parent_ctx, handled, pan, origin);
        let ghost p2 = *parent_ctx;
        match pan {
            Some(target_rect) => {
                let ghost g1 = parent_ctx.global_state;
                self.pan_to_child(&mut parent_ctx.global_state, env, target_rect);
                proof { lemma_keeps_trans(g0, g1, parent_ctx.global_state); }
            },
            None => {},
        }
        let ghost c2 = self.calls@;
        let ghost g2 = parent_ctx.global_state;
        assert(c2.len() >= c1.len() && c2.subrange(0, c1.len() as int) =~= c1);
        self.process_notifications(parent_ctx, &notifications, env);
        proof {
            lemma_keeps_trans(g0, g2, parent_ctx.global_state);
            let fin = self.calls@;
            assert(c1 =~= old(self).calls@.push(c1[n]));
            assert(fin.subrange(0, c2.len() as int) =~= c2);
            assert(fin[n] == c2[n]);
            assert(c2[n] == c1[n]);
            assert(fin.subrange(0, n) =~= old(self).calls@);
            if pan is Some {
                assert(fin[n + 1] == c2[n + 1]);
            }
            let k = if pan is Some { n + 2 } else { n + 1 };
            assert(k == c2.len());
            assert forall|i: int| k <= i < fin.len() implies (#[trigger] fin[i]) is Notification by {
                let seg = fin.subrange(c2.len() as int, fin.len() as int);
                lemma_redelivery_all_notifications(notifications@, self.state.id, seg, i - k);
            }
        }
    }

    /// Stamp the visit and merge this node's state into its parent's.
    fn finish_visit(&mut self, global: &mut GlobalPassCtx, parent: &mut WidgetState)
        ensures
            final(self).inner == old(self).inner,
            final(self).calls == old(self).calls,
            final(self).env == old(self).env,
            final(self).state.flags == old(self).state.flags,
            final(self).state.id == old(self).state.id,
            final(self).state.children == old(self).state.children,
            final(self).state.focus_chain == old(self).state.focus_chain,
            final(parent).flags == merged_flags(old(parent).flags, old(self).state.flags),
            final(parent).id == old(parent).id,
            final(parent).children == old(parent).children,
            final(parent).focus_chain == old(parent).focus_chain,
            final(parent).request_focus == if old(self).state.request_focus.is_some() {
                old(self).state.request_focus
            } else {
                old(parent).request_focus
            },
            final(global).diagnostics == old(global).diagnostics,
            final(global).focus_widget == old(global).focus_widget,
    {
        self.mark_as_visited(global);
        parent.merge_up(&mut self.state);
    }

    /// Propagate an event: update hot state, decide whether the inner widget
    /// sees the event and in which form, run it, hand its requests and
    /// notifications up, and merge the state into the parent's.
    #[verifier::rlimit(100)]
    pub fn on_event(&mut self, parent_ctx: &mut EventCtx, event: &Event, env: &Env)
        ensures
            final(self).state.id == old(self).state.id,
            final(self).env == old(self).env,
            old(parent_ctx).is_handled ==> final(self).inner == old(self).inner
                && final(self).calls == old(self).calls
                && final(self).state == (WidgetState { last_visit: final(self).state.last_visit, ..old(self).state })
                && final(parent_ctx).widget_state == old(parent_ctx).widget_state
                && final(parent_ctx).is_handled,
            !old(parent_ctx).is_handled ==> spec_event_outcome(*old(self), *final(self), *old(parent_ctx), *final(parent_ctx), *event),
    {
        if parent_ctx.is_handled {
            self.mark_as_visited(&mut parent_ctx.global_state);
            self.check_initialized(&mut parent_ctx.global_state, PassName::Event);
            return;
        }
        let ghost g0 = parent_ctx.global_state;
        self.check_initialized(&mut parent_ctx.global_state, PassName::Event);
        let ghost g1 = parent_ctx.global_state;
        let ghost s0 = self.state;
        let ghost c0 = self.calls@;
        let routed = self.prepare_event(&mut parent_ctx.global_state, event, env, parent_ctx.is_root);
        let ghost c1 = self.calls@;
        let ghost g2 = parent_ctx.global_state;
        let ghost f1 = self.state.flags;
        let ghost o1 = self.state.origin;
        assert(o1 == s0.origin);
        self.deliver_or_skip(parent_ctx, routed, event, env);
        let ghost f2 = self.state.flags;

        let ghost g3 = parent_ctx.global_state;
        let ghost c3 = self.calls@;
        self.finish_visit(&mut parent_ctx.global_state, &mut parent_ctx.widget_state);
        assert(self.state.flags == f2);
        proof {
            lemma_keeps_trans(g1, g2, g3);
            assert(parent_ctx.global_state.diagnostics@ == g3.diagnostics@);
            assert(g1.diagnostics@ =~= g0.diagnostics@ + spec_init_diagnostics(s0, PassName::Event));
            assert(self.calls@ == c3);
            assert(c1 =~= c0 + spec_hot_calls(*event, s0));
            assert(c3.subrange(0, c1.len() as int) =~= c1);
        }
    }

    /// Run the inner widget's lifecycle handler with a fresh context holding
    /// this pod's state, then check its children.
    fn run_inner_lifecycle(&mut self, global: &mut GlobalPassCtx, event: &LifeCycle, env: &Env)
        ensures
            final(self).calls@ == old(self).calls@.push(InnerCall::Lifecycle(*event)),
            final(self).state.id == old(self).state.id,
            final(self).state.flags == spec_with_owned(final(self).state.flags, old(self).state.flags),
            final(self).env == old(self).env,
            keeps(*old(global), *final(global)),
    {
        let id = self.state.id;
        let saved = self.state.flags;
        let before = child_ids(&self.inner.children());
        let start = global.visit_clock;
        let mut ctx = LifeCycleCtx { global_state: global.for_child(), widget_state: WidgetState::new(id) };
        std::mem::swap(&mut ctx.widget_state, &mut self.state);
        self.calls = Ghost(self.calls@.push(InnerCall::Lifecycle(*event)));
        self.inner.lifecycle(&mut ctx, event, env);
        std::mem::swap(&mut ctx.widget_state, &mut self.state);
        let ghost g0 = *global;
        global.absorb(ctx.global_state);
        assert(global.diagnostics@.subrange(0, g0.diagnostics@.len() as int) =~= g0.diagnostics@);
        restore_owned(&mut self.state, id, saved);
        let after = self.inner.children();
        let ghost g1 = *global;
        check_children(global, id, self.state.flags.children_changed, &before, &after, start, PassName::Lifecycle);
        assert(global.diagnostics@.subrange(0, g1.diagnostics@.len() as int) =~= g1.diagnostics@);
        proof { lemma_keeps_trans(g0, g1, *global); }
    }

    /// Carry out a lifecycle decision: hand the inner widget the signal (or
    /// the one it is to get instead), then tell it of the status change.
    #[verifier::rlimit(40)]
    fn run_action(
        &mut self,
        global: &mut GlobalPassCtx,
        action: LifecycleAction,
        ev: &LifeCycle,
        extra: Option<StatusChange>,
        env: &Env,
    )
        ensures
            final(self).calls@ == old(self).calls@ + spec_action_calls(action, *ev, extra),
            final(self).state.id == old(self).state.id,
            spec_owned_same(final(self).state.flags, old(self).state.flags),
            final(self).state.children == old(self).state.children || !(action is Skip),
            old(self).state.flags.has_focus ==> final(self).state.flags.has_focus,
            old(self).state.flags.update_focus_chain ==> final(self).state.flags.update_focus_chain,
            action is Skip ==> final(self).state.flags.has_focus == old(self).state.flags.has_focus
                && final(self).state.flags.update_focus_chain == old(self).state.flags.update_focus_chain,
            action is Skip && extra is None ==> *final(self) == *old(self),
            final(self).env == old(self).env,
            keeps(*old(global), *final(global)),
    {
        let ghost g0 = *global;
        proof { lemma_keeps_refl(*global); }
        match action {
            LifecycleAction::Recurse => {
                self.run_inner_lifecycle(global, ev, env);
            },
            LifecycleAction::Deliver(e) => {
                self.run_inner_lifecycle(global, &e, env);
            },
            LifecycleAction::Skip => {},
        }
        let ghost g1 = *global;
        let ghost st1 = self.state;
        match extra {
            Some(x) => {
                self.run_status_change(global, &x, env);
                proof {
                    lemma_keeps_trans(g0, g1, *global);
                    lemma_requests_only(st1, st1.flags, self.state);
                }
            },
            None => {},
        }
        assert(self.calls@ =~= old(self).calls@ + spec_action_calls(action, *ev, extra));
    }

    /// The local part of the lifecycle pass: update the node's own state for
    /// `ev` and decide what its inner widget is to get.
    #[verifier::rlimit(80)]
    fn decide_lifecycle(&mut self, parent_ctx: &mut LifeCycleCtx, ev: &LifeCycle, env: &Env) -> (r: (
        LifecycleAction,
        Option<StatusChange>,
    ))
        ensures
            r == spec_lifecycle_decision(old(self).state, *ev),
            final(self).inner == old(self).inner,
            final(self).calls == old(self).calls,
            final(self).state.id == old(self).state.id,
            *ev != LifeCycle::WidgetAdded ==> final(self).env == old(self).env
                && final(self).state.flags.is_new == old(self).state.flags.is_new,
            *ev == LifeCycle::WidgetAdded ==> final(self).env is Some && final(self).env->Some_0.same_as(*env)
                && !final(self).state.flags.is_new,
            *ev is DisabledChanged ==> final(self).state.flags.is_explicitly_disabled == old(
                self,
            ).state.flags.is_explicitly_disabled_new && final(self).state.flags.ancestor_disabled
                == ev->DisabledChanged_0,
            *ev == LifeCycle::Internal(InternalLifeCycle::RouteDisabledChanged)
                ==> final(self).state.flags.is_explicitly_disabled == old(self).state.flags.is_explicitly_disabled_new,
            (*ev is DisabledChanged || *ev == LifeCycle::Internal(InternalLifeCycle::RouteDisabledChanged))
                ==> final(self).state.flags.update_focus_chain,
            spec_focus_route(*ev) is Some ==> ({
                let (from, to) = spec_focus_route(*ev)->Some_0;
                final(self).state.flags.has_focus == (to == Some(old(self).state.id) && from != Some(old(self).state.id))
            }),
            final(parent_ctx).widget_state == old(parent_ctx).widget_state,
            keeps(old(parent_ctx).global_state, final(parent_ctx).global_state),
            keeps_then(
                old(parent_ctx).global_state,
                spec_added_diagnostics(old(self).state, *ev),
                final(parent_ctx).global_state,
            ),
    {
        let ghost s0 = self.state;
        let ghost g0 = parent_ctx.global_state;
        let r = match ev {
            LifeCycle::WidgetAdded => (
                added_step(&mut self.state, &mut self.env, &mut parent_ctx.global_state, env),
                None,
            ),
            LifeCycle::Internal(InternalLifeCycle::RouteWidgetAdded) => (
                route_added_step(&mut self.state),
                None,
            ),
            LifeCycle::Internal(InternalLifeCycle::RouteDisabledChanged) => (
                route_disabled_step(&mut self.state),
                None,
            ),
            LifeCycle::Internal(InternalLifeCycle::RouteFocusChanged { old, new }) => route_focus_step(
                &mut self.state,
                *old,
                *new,
            ),
            LifeCycle::Internal(InternalLifeCycle::ParentWindowOrigin) => (
                window_origin_step(&mut self.state, parent_ctx.widget_state.window_origin()),
                None,
            ),
            LifeCycle::DisabledChanged(a) => (disabled_step(&mut self.state, *a), None),
            LifeCycle::BuildFocusChain => (
                focus_chain_step(&mut self.state, parent_ctx.global_state.focus_widget),
                None,
            ),
            LifeCycle::RequestPanToChild(_) => (LifecycleAction::Skip, None),
        };
        assert(r == spec_lifecycle_decision(s0, *ev));
        assert(parent_ctx.global_state.diagnostics@.subrange(0, g0.diagnostics@.len() as int) =~= g0.diagnostics@);
        assert(parent_ctx.global_state.diagnostics@ =~= g0.diagnostics@ + spec_added_diagnostics(s0, *ev));
        assert(parent_ctx.global_state.diagnostics@.subrange(0, parent_ctx.global_state.diagnostics@.len() as int) =~= parent_ctx.global_state.diagnostics@);
        r
    }

    /// The steps of the lifecycle pass at an initialized node (or for
    /// `WidgetAdded`): local update, the inner widget, the status change, and
    /// the post-order bookkeeping against the parent's state.
    #[verifier::rlimit(30)]
    fn lifecycle_steps(&mut self, parent_ctx: &mut LifeCycleCtx, ev: &LifeCycle, env: &Env)
        requires
            !old(self).state.flags.is_new || *ev == LifeCycle::WidgetAdded,
        ensures
            final(self).calls@ == old(self).calls@ + spec_lifecycle_calls(old(self).state, *ev),
            final(self).state.id == old(self).state.id,
            final(parent_ctx).widget_state.flags == old(parent_ctx).widget_state.flags,
            final(parent_ctx).widget_state.id == old(parent_ctx).widget_state.id,
            final(parent_ctx).widget_state.request_focus == old(parent_ctx).widget_state.request_focus,
            keeps(old(parent_ctx).global_state, final(parent_ctx).global_state),
            keeps_then(
                old(parent_ctx).global_state,
                spec_added_diagnostics(old(self).state, *ev),
                final(parent_ctx).global_state,
            ),
            spec_lifecycle_post_effects(
                *old(self),
                *final(self),
                old(parent_ctx).widget_state,
                final(parent_ctx).widget_state,
                *ev,
                final(self).state.request_focus,
            ),
    {
        let ghost g0 = parent_ctx.global_state;
        let had_focus = self.state.flags.has_focus;
        let (action, extra) = self.decide_lifecycle(parent_ctx, ev, env);
        let ghost g1 = parent_ctx.global_state;
        self.run_action(&mut parent_ctx.global_state, action, ev, extra, env);
        proof {
            lemma_keeps_trans(g0, g1, parent_ctx.global_state);
            let pre = g0.diagnostics@ + spec_added_diagnostics(old(self).state, *ev);
            assert(parent_ctx.global_state.diagnostics@.subrange(0, pre.len() as int)
                =~= parent_ctx.global_state.diagnostics@.subrange(0, g1.diagnostics@.len() as int).subrange(0, pre.len() as int));
        }
        lifecycle_post(&mut self.state, &mut parent_ctx.widget_state, ev, had_focus);
    }

    /// Propagate a lifecycle signal. A node that is not yet initialized takes
    /// only `WidgetAdded` (a routed one reaching it becomes plain); anything
    /// else is reported and stops there. Otherwise the node updates its
    /// state, lets the inner widget run where the signal calls for it, does
    /// its post-order bookkeeping and merges into the parent's state.
    pub fn lifecycle(&mut self, parent_ctx: &mut LifeCycleCtx, event: &LifeCycle, env: &Env)
        ensures
            final(self).state.id == old(self).state.id,
            old(self).state.flags.is_new && !spec_is_added_signal(*event) ==> {
                &&& final(self).inner == old(self).inner
                &&& final(self).calls == old(self).calls
                &&& final(self).state == (WidgetState { last_visit: final(self).state.last_visit, ..old(self).state })
                &&& final(parent_ctx).widget_state == old(parent_ctx).widget_state
                &&& final(parent_ctx).global_state.diagnostics@ == old(parent_ctx).global_state.diagnostics@.push(
                    Diagnostic::NotInitialized { widget: old(self).state.id, pass: PassName::Lifecycle },
                )
            },
            !(old(self).state.flags.is_new && !spec_is_added_signal(*event)) ==> ({
                let ev = spec_effective_signal(*event, old(self).state.flags.is_new);
                &&& final(self).calls@ == old(self).calls@ + spec_lifecycle_calls(old(self).state, ev)
                &&& final(parent_ctx).widget_state.flags == merged_flags(
                    old(parent_ctx).widget_state.flags,
                    final(self).state.flags,
                )
                &&& final(parent_ctx).widget_state.id == old(parent_ctx).widget_state.id
                &&& keeps(old(parent_ctx).global_state, final(parent_ctx).global_state)
                &&& keeps_then(
                    old(parent_ctx).global_state,
                    spec_added_diagnostics(old(self).state, ev),
                    final(parent_ctx).global_state,
                )
                &&& spec_lifecycle_post_effects(
                    *old(self),
                    *final(self),
                    old(parent_ctx).widget_state,
                    final(parent_ctx).widget_state,
                    ev,
                    final(parent_ctx).widget_state.request_focus,
                )
            }),
    {
        let ev = if self.state.flags.is_new && *event == LifeCycle::Internal(
            InternalLifeCycle::RouteWidgetAdded,
        ) {
            LifeCycle::WidgetAdded
        } else {
            *event
        };
        if self.state.flags.is_new && ev != LifeCycle::WidgetAdded {
            self.mark_as_visited(&mut parent_ctx.global_state);
            parent_ctx.global_state.report(
                Diagnostic::NotInitialized { widget: self.state.id, pass: PassName::Lifecycle },
            );
            return;
        }
        self.lifecycle_steps(parent_ctx, &ev, env);
        let ghost g1 = parent_ctx.global_state;
        self.finish_visit(&mut parent_ctx.global_state, &mut parent_ctx.widget_state);
        assert(parent_ctx.global_state.diagnostics@ == g1.diagnostics@);
    }

    /// Run the inner widget's layout with a fresh context holding this pod's
    /// state, then check its children.
    fn run_inner_layout(
        &mut self,
        global: &mut GlobalPassCtx,
        bc: &BoxConstraints,
        mouse_pos: Option<Point>,
        env: &Env,
    ) -> (r: Size)
        ensures
            final(self).calls@ == old(self).calls@.push(
                InnerCall::Layout { bc: *bc, mouse_pos, bounds: old(self).state.local_paint_rect, size: r },
            ),
            final(self).state.id == old(self).state.id,
            final(self).state.flags == spec_with_owned(final(self).state.flags, old(self).state.flags),
            final(self).env == old(self).env,
            keeps(*old(global), *final(global)),
    {
        let id = self.state.id;
        let saved = self.state.flags;
        let bounds = self.state.local_paint_rect;
        let before = child_ids(&self.inner.children());
        let start = global.visit_clock;
        let mut ctx = LayoutCtx { global_state: global.for_child(), widget_state: WidgetState::new(id), mouse_pos };
        std::mem::swap(&mut ctx.widget_state, &mut self.state);
        let size = self.inner.layout(&mut ctx, bc, env);
        self.calls = Ghost(self.calls@.push(InnerCall::Layout { bc: *bc, mouse_pos, bounds, size }));
        std::mem::swap(&mut ctx.widget_state, &mut self.state);
        let ghost g0 = *global;
        global.absorb(ctx.global_state);
        assert(global.diagnostics@.subrange(0, g0.diagnostics@.len() as int) =~= g0.diagnostics@);
        restore_owned(&mut self.state, id, saved);
        let after = self.inner.children();
        let ghost g1 = *global;
        check_children(global, id, self.state.flags.children_changed, &before, &after, start, PassName::Layout);
        assert(global.diagnostics@.subrange(0, g1.diagnostics@.len() as int) =~= g1.diagnostics@);
        proof { lemma_keeps_trans(g0, g1, *global); }
        size
    }

    /// The local part of layout before the widget runs: report, clear the
    /// layout flags, owe a placement, reset the paint bounds.
    fn begin_layout(&mut self, global: &mut GlobalPassCtx, bc: &BoxConstraints)
        ensures
            final(self).inner == old(self).inner,
            final(self).calls == old(self).calls,
            final(self).env == old(self).env,
            final(self).state.id == old(self).state.id,
            final(self).state.origin == old(self).state.origin,
            final(self).state.size == old(self).state.size,
            final(self).state.local_paint_rect == (Rect { x0: 0, y0: 0, x1: 0, y1: 0 }),
            final(self).state.flags == (StateFlags {
                needs_layout: false,
                needs_window_origin: false,
                is_expecting_place_child_call: true,
                ..old(self).state.flags
            }),
            keeps_then(*old(global), spec_layout_start_diagnostics(old(self).state, *bc), *final(global)),
            final(global).diagnostics@.len() == old(global).diagnostics@.len() + spec_layout_start_diagnostics(old(self).state, *bc).len(),
    {
        let ghost g0 = *global;
        self.mark_as_visited(global);
        self.check_initialized(global, PassName::Layout);
        if !bc.is_valid() {
            global.report(Diagnostic::InvalidConstraints { widget: self.state.id });
        }
        let f0 = self.state.flags;
        self.state.flags = StateFlags {
            needs_layout: false,
            needs_window_origin: false,
            is_expecting_place_child_call: true,
            ..f0
        };
        self.state.local_paint_rect = Rect::zero();
        assert(global.diagnostics@ =~= g0.diagnostics@ + spec_layout_start_diagnostics(old(self).state, *bc));
        assert(global.diagnostics@.subrange(0, global.diagnostics@.len() as int) =~= global.diagnostics@);
    }

    /// Compute the layout of the widget under `bc`. A stashed widget is not
    /// laid out: that is reported and the size is zero. Otherwise the widget
    /// chooses its size, given the constraints and the pointer position in
    /// its own coordinates; its paint bounds grow to hold that size with the
    /// paint insets; the children are checked; the state is merged into the
    /// parent's; and the parent then owes a `place_child` call.
    #[verifier::rlimit(30)]
    pub fn layout(&mut self, parent_ctx: &mut LayoutCtx, bc: &BoxConstraints, env: &Env) -> (r: Size)
        ensures
            final(self).state.id == old(self).state.id,
            old(self).state.flags.is_stashed ==> r == (Size { width: 0, height: 0 })
                && final(self).inner == old(self).inner
                && final(self).calls == old(self).calls
                && final(self).state == old(self).state
                && final(parent_ctx).widget_state == old(parent_ctx).widget_state
                && final(parent_ctx).global_state.diagnostics@ == old(parent_ctx).global_state.diagnostics@.push(Diagnostic::LayoutOfStashed { widget: old(self).state.id }),
            !old(self).state.flags.is_stashed ==> {
                &&& final(self).calls@.len() == old(self).calls@.len() + 2
                &&& final(self).calls@.subrange(0, (old(self).calls@.len() + 1) as int) == old(self).calls@.push(InnerCall::Layout {
                    bc: *bc,
                    mouse_pos: spec_local_mouse(old(parent_ctx).mouse_pos, old(self).state),
                    bounds: Rect { x0: 0, y0: 0, x1: 0, y1: 0 },
                    size: r,
                })
                &&& final(self).calls@.last() is Children
                &&& ({
                    let d = final(parent_ctx).global_state.diagnostics@;
                    let tail = spec_layout_diagnostics(
                        old(self).state.id,
                        final(self).calls@.last()->Children_0,
                        final(self).state.local_paint_rect,
                        final(self).state.flags.is_portal,
                    ) + spec_unbounded_diagnostics(old(self).state.id, r);
                    tail.len() <= d.len() && d.subrange(d.len() - tail.len(), d.len() as int) == tail
                })
                &&& final(self).state.size == r
                &&& final(self).state.flags.is_expecting_place_child_call
                &&& Rect::spec_from_origin_size(Point { x: 0, y: 0 }, r).spec_add_insets(
                    final(self).state.paint_insets,
                ).spec_inside(final(self).state.local_paint_rect)
                &&& final(parent_ctx).widget_state.flags == merged_flags(
                    old(parent_ctx).widget_state.flags,
                    final(self).state.flags,
                )
                &&& keeps_then(
                    old(parent_ctx).global_state,
                    spec_layout_start_diagnostics(old(self).state, *bc),
                    final(parent_ctx).global_state,
                )
                &&& spec_unbounded_diagnostics(old(self).state.id, r).len() <= final(parent_ctx).global_state.diagnostics@.len()
                &&& final(parent_ctx).global_state.diagnostics@.subrange(
                    final(parent_ctx).global_state.diagnostics@.len() - spec_unbounded_diagnostics(old(self).state.id, r).len(),
                    final(parent_ctx).global_state.diagnostics@.len() as int,
                ) == spec_unbounded_diagnostics(old(self).state.id, r)
            },
    {
        if self.state.flags.is_stashed {
            parent_ctx.global_state.report(Diagnostic::LayoutOfStashed { widget: self.state.id });
            return Size::zero();
        }
        let inner_mouse_pos = match parent_ctx.mouse_pos {
            Some(p) => Some(p.minus(self.state.layout_rect().origin())),
            None => None,
        };
        let ghost g0 = parent_ctx.global_state;
        self.begin_layout(&mut parent_ctx.global_state, bc);
        let ghost g1 = parent_ctx.global_state;
        let new_size = self.run_inner_layout(&mut parent_ctx.global_state, bc, inner_mouse_pos, env);
        let own = new_size.to_rect().add_insets(self.state.paint_insets);
        self.state.local_paint_rect = self.state.local_paint_rect.union(own);
        let kids = self.inner.children();
        let ghost c2 = self.calls@;
        self.calls = Ghost(self.calls@.push(InnerCall::Children(kids@)));
        let ghost g2 = parent_ctx.global_state;
        check_layout_children(
            &mut parent_ctx.global_state,
            self.state.id,
            &kids,
            self.state.local_paint_rect,
            self.state.flags.is_portal,
        );
        let f = self.state.flags;
        self.state.flags = StateFlags { is_expecting_place_child_call: true, ..f };
        self.state.size = new_size;
        let ghost g3 = parent_ctx.global_state;
        parent_ctx.widget_state.merge_up(&mut self.state);
        let ghost g4 = parent_ctx.global_state;
        self.log_layout_issues(&mut parent_ctx.global_state, new_size);
        proof {
            let u = spec_unbounded_diagnostics(old(self).state.id, new_size);
            let l = spec_layout_diagnostics(old(self).state.id, kids@, self.state.local_paint_rect, self.state.flags.is_portal);
            let d = parent_ctx.global_state.diagnostics@;
            assert(g3.diagnostics@ == g2.diagnostics@ + l);
            assert(d == g3.diagnostics@ + u);
            assert(d.subrange(d.len() - (l + u).len(), d.len() as int) =~= l + u);
            assert(self.calls@.subrange(0, (old(self).calls@.len() + 1) as int) =~= c2);
            assert(parent_ctx.global_state.diagnostics@.subrange(
                parent_ctx.global_state.diagnostics@.len() - u.len(),
                parent_ctx.global_state.diagnostics@.len() as int,
            ) =~= u);
            assert(g3.diagnostics@.subrange(0, g2.diagnostics@.len() as int) =~= g2.diagnostics@);
            lemma_keeps_trans(g1, g2, g3);
            assert(parent_ctx.global_state.diagnostics@.subrange(0, g3.diagnostics@.len() as int) =~= g3.diagnostics@);
            lemma_keeps_trans(g1, g3, parent_ctx.global_state);
            let pre = g0.diagnostics@ + spec_layout_start_diagnostics(old(self).state, *bc);
            assert(g1.diagnostics@.subrange(0, pre.len() as int) == pre);
            assert(g1.diagnostics@ =~= pre);
        }
        new_size
    }

    /// Warn of each dimension that layout left unbounded (saturated at the
    /// largest coordinate), commonly a sign of unconstrained layout spreading
    /// down.
    fn log_layout_issues(&self, global: &mut GlobalPassCtx, size: Size)
        ensures
            final(global).diagnostics@ == old(global).diagnostics@ + spec_unbounded_diagnostics(
                self.state.id,
                size,
            ),
            final(global).focus_widget == old(global).focus_widget,
            final(global).visit_clock == old(global).visit_clock,
    {
        let ghost d0 = global.diagnostics@;
        if size.width == i64::MAX {
            global.report(Diagnostic::UnboundedSize { widget: self.state.id, horizontal: true });
        }
        if size.height == i64::MAX {
            global.report(Diagnostic::UnboundedSize { widget: self.state.id, horizontal: false });
        }
        assert(global.diagnostics@ =~= d0 + spec_unbounded_diagnostics(self.state.id, size));
    }


    /// Paint the widget in the current coordinates (without moving to its
    /// origin): the widget draws in a child context with the same region and
    /// depth; its drawing is spliced into `ctx`, followed by the debug
    /// overlays (the layout-bounds outline, and above everything at this
    /// depth the widget's id when it is hot).
    pub fn paint_raw(&mut self, ctx: &mut PaintCtx, env: &Env)
        ensures
            spec_painted(*old(self), *final(self), *old(ctx), *final(ctx), *env),
    {
        self.mark_as_visited(&mut ctx.global_state);
        let ghost g0 = ctx.global_state;
        let id = self.state.id;
        let size = self.state.size;
        let saved = self.state.flags;
        let before = child_ids(&self.inner.children());
        let start = ctx.global_state.visit_clock;
        let mut inner_ctx = PaintCtx {
            global_state: ctx.global_state.for_child(),
            widget_state: WidgetState::new(id),
            ops: Vec::new(),
            z_ops: Vec::new(),
            region: ctx.region.copy(),
            depth: ctx.depth,
        };
        std::mem::swap(&mut inner_ctx.widget_state, &mut self.state);
        self.inner.paint(&mut inner_ctx, env);
        std::mem::swap(&mut inner_ctx.widget_state, &mut self.state);
        self.calls = Ghost(self.calls@.push(InnerCall::Paint {
            region: Region { rects: ctx.region.rects },
            depth: ctx.depth,
            ops: inner_ctx.ops@,
            z_ops: inner_ctx.z_ops@,
        }));
        ctx.global_state.absorb(inner_ctx.global_state);
        assert(ctx.global_state.diagnostics@.subrange(0, g0.diagnostics@.len() as int) =~= g0.diagnostics@);
        restore_owned(&mut self.state, id, saved);
        let after = self.inner.children();
        let ghost g1 = ctx.global_state;
        check_children(&mut ctx.global_state, id, self.state.flags.children_changed, &before, &after, start, PassName::Paint);
        assert(ctx.global_state.diagnostics@.subrange(0, g1.diagnostics@.len() as int) =~= g1.diagnostics@);
        proof { lemma_keeps_trans(g0, g1, ctx.global_state); }
        append_ops(&mut ctx.ops, &inner_ctx.ops);
        let color = env.get_debug_color(id.to_raw());
        let debug_ids = saved.is_hot && env.debug_widget_id;
        if debug_ids || env.debug_paint {
            ctx.ops.push(DrawOp::StrokeRect { rect: size.to_rect(), color, width: 1 });
        }
        append_z_ops(&mut ctx.z_ops, &inner_ctx.z_ops);
        if debug_ids {
            let label = DrawOp::IdLabel {
                id: id.to_raw(),
                corner: Point::new(size.width, size.height),
                background: color,
                text_color: debug_text_color(color),
            };
            ctx.z_ops.push(ZOp { z: ctx.depth, op: label });
        }
        proof {
            assert(ctx.ops@ =~= old(ctx).ops@ + inner_ctx.ops@ + spec_overlay_ops(old(self).state, *env));
            assert(ctx.z_ops@ =~= old(ctx).z_ops@ + inner_ctx.z_ops@ + spec_overlay_z_ops(old(self).state, old(ctx).depth, *env));
        }
    }

    /// Paint the widget, moved to the origin of its layout rectangle,
    /// skipping it when its paint rectangle is outside the visible region.
    pub fn paint(&mut self, parent_ctx: &mut PaintCtx, env: &Env)
        ensures
            spec_paint_outcome(*old(self), *final(self), *old(parent_ctx), *final(parent_ctx), *env, false),
    {
        self.paint_impl(parent_ctx, env, false)
    }

    /// Paint the widget, moved to the origin of its layout rectangle, even
    /// where it is outside the visible region.
    pub fn paint_always(&mut self, parent_ctx: &mut PaintCtx, env: &Env)
        ensures
            spec_paint_outcome(*old(self), *final(self), *old(parent_ctx), *final(parent_ctx), *env, true),
    {
        self.paint_impl(parent_ctx, env, true)
    }

    /// Shared implementation of `paint` and `paint_always`.
    #[verifier::rlimit(30)]
    fn paint_impl(&mut self, parent_ctx: &mut PaintCtx, env: &Env, paint_if_not_visible: bool)
        ensures
            spec_paint_outcome(*old(self), *final(self), *old(parent_ctx), *final(parent_ctx), *env, paint_if_not_visible),
    {
        if self.state.flags.is_stashed {
            parent_ctx.global_state.report(Diagnostic::PaintOfStashed { widget: self.state.id });
            return;
        }
        let ghost g0 = parent_ctx.global_state;
        self.mark_as_visited(&mut parent_ctx.global_state);
        self.check_initialized(&mut parent_ctx.global_state, PassName::Paint);
        let paint_rect = self.state.paint_rect();
        if !paint_if_not_visible && !parent_ctx.region.intersects(paint_rect) {
            return;
        }
        let layout_origin = self.state.layout_rect().origin();
        let ghost ops0 = parent_ctx.ops@;
        parent_ctx.draw(DrawOp::Save);
        parent_ctx.draw(DrawOp::Translate(layout_origin));
        let visible = parent_ctx.region.intersected_with(paint_rect).translated_back(layout_origin);
        let mut outer = visible;
        std::mem::swap(&mut parent_ctx.region, &mut outer);
        let depth = parent_ctx.depth;
        parent_ctx.depth = if depth < u32::MAX {
            depth + 1
        } else {
            depth
        };
        let ghost ops2 = parent_ctx.ops@;
        let ghost s1 = *self;
        let ghost c1 = *parent_ctx;
        self.paint_raw(parent_ctx, env);
        parent_ctx.region = outer;
        parent_ctx.depth = depth;
        parent_ctx.draw(DrawOp::Restore);
        proof {
            let e = self.calls@.last();
            assert(self.calls@ =~= old(self).calls@.push(e));
            assert(parent_ctx.ops@ =~= old(parent_ctx).ops@ + seq![DrawOp::Save, DrawOp::Translate(layout_origin)]
                + e->Paint_ops + spec_overlay_ops(old(self).state, *env) + seq![DrawOp::Restore]);
        }
    }
}


/// Record that a child was placed at `origin`; a move means its window
/// origin is to be recomputed.
fn set_placement(state: &mut WidgetState, origin: Point, moved: bool)
    ensures
        *final(state) == (WidgetState {
            origin,
            flags: StateFlags {
                is_expecting_place_child_call: false,
                needs_window_origin: old(state).flags.needs_window_origin || moved,
                ..old(state).flags
            },
            ..*old(state)
        }),
{
    let f = state.flags;
    state.origin = origin;
    state.flags = StateFlags {
        is_expecting_place_child_call: false,
        needs_window_origin: f.needs_window_origin || moved,
        ..f
    };
}

impl<W: Widget + 'static> WidgetPod<W> {
    /// The inner widget, type-erased, with its state.
    pub fn as_dyn(&self) -> (r: WidgetRef<'_, dyn Widget>)
        ensures
            *r.state == self.state,
    {
        let widget: &dyn Widget = &self.inner;
        WidgetRef { state: &self.state, widget }
    }

    /// The same widget, boxed and type-erased, under the same id.
    pub fn boxed(self) -> (r: WidgetPod<Box<dyn Widget>>)
        ensures
            r.state.id == self.state.id,
            r.state.flags == spec_initial_flags(),
            r.env.is_none(),
    {
        WidgetPod::new_with_id(Box::new(self.inner), self.state.id)
    }
}

impl LayoutCtx {
    /// Place a child that was just laid out at `origin` (in this widget's
    /// coordinates): the child's paint rectangle joins this widget's paint
    /// bounds, and the child's hot state follows the pointer to its new place.
    pub fn place_child<W: Widget>(&mut self, child: &mut WidgetPod<W>, origin: Point, env: &Env)
        ensures
            final(child).state.id == old(child).state.id,
            final(child).state.origin == origin,
            !final(child).state.flags.is_expecting_place_child_call,
            old(child).state.origin != origin ==> final(child).state.flags.needs_window_origin,
            final(self).widget_state.id == old(self).widget_state.id,
            final(self).widget_state.local_paint_rect == old(self).widget_state.local_paint_rect.spec_union(
                (WidgetState { origin, ..old(child).state }).spec_paint_rect(),
            ),
            final(child).state.flags.is_hot == spec_hot_at(
                (WidgetState { origin, ..old(child).state }).spec_paint_rect(),
                old(self).mouse_pos,
            ),
    {
        let moved = child.state.origin != origin;
        set_placement(&mut child.state, origin, moved);
        let rect = child.state.paint_rect();
        self.widget_state.local_paint_rect = self.widget_state.local_paint_rect.union(rect);
        let hot_changed = child.update_hot_state(&mut self.global_state, rect, self.mouse_pos, env);
        if hot_changed {
            self.widget_state.merge_up(&mut child.state);
        }
        set_placement(&mut child.state, origin, moved);
    }
}

} // verus!
