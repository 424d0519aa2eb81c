use widget_pod::contexts::{
    ChildSummary, Color, Diagnostic, DrawOp, Env, EventCtx, GlobalPassCtx, LayoutCtx, LifeCycleCtx,
    PaintCtx, PassName,
};
use widget_pod::event::{
    BoxConstraints, Command, Event, InternalEvent, InternalLifeCycle, KeyEvent, LifeCycle,
    MouseEvent, StatusChange, Target,
};
use widget_pod::geometry::{Insets, Point, Rect, Region, Size};
use widget_pod::state::{WidgetId, WidgetIdSource, WidgetState};
use widget_pod::{Widget, WidgetPod};

/// A leaf that takes the pointer while a button is held and records what it sees.
struct Leaf {
    size: Size,
    events: Vec<Event>,
    lifecycles: Vec<LifeCycle>,
    status: Vec<StatusChange>,
    layouts: usize,
    paints: usize,
    notify_on_key: bool,
}

impl Leaf {
    fn sized(w: i64, h: i64) -> Leaf {
        Leaf {
            size: Size::new(w, h),
            events: Vec::new(),
            lifecycles: Vec::new(),
            status: Vec::new(),
            layouts: 0,
            paints: 0,
            notify_on_key: false,
        }
    }
}

impl Widget for Leaf {
    fn on_event(&mut self, ctx: &mut EventCtx, event: &Event, _env: &Env) {
        self.events.push(*event);
        match event {
            Event::MouseDown(_) => ctx.set_active(true),
            Event::MouseUp(_) => ctx.set_active(false),
            Event::KeyDown(_) if self.notify_on_key => ctx.submit_notification(7, 42),
            _ => {}
        }
    }

    fn on_status_change(&mut self, _ctx: &mut LifeCycleCtx, event: &StatusChange, _env: &Env) {
        self.status.push(*event);
    }

    fn lifecycle(&mut self, ctx: &mut LifeCycleCtx, event: &LifeCycle, _env: &Env) {
        self.lifecycles.push(*event);
        if let LifeCycle::BuildFocusChain = event {
            ctx.register_for_focus();
        }
    }

    fn layout(&mut self, _ctx: &mut LayoutCtx, _bc: &BoxConstraints, _env: &Env) -> Size {
        self.layouts += 1;
        self.size
    }

    fn paint(&mut self, ctx: &mut PaintCtx, _env: &Env) {
        self.paints += 1;
        let rect = ctx.size().to_rect();
        ctx.draw(DrawOp::Custom { tag: 1, rect });
    }

    fn children(&self) -> Vec<ChildSummary> {
        Vec::new()
    }
}

/// A container with one child, placed at `offset`, forwarding every pass.
struct Holder {
    child: WidgetPod<Leaf>,
    offset: Point,
    forward: bool,
    place: bool,
    handle_notifications: bool,
    notifications_seen: usize,
    grow_child_after_place: bool,
}

impl Holder {
    fn new(child: WidgetPod<Leaf>) -> Holder {
        Holder {
            child,
            offset: Point::new(0, 0),
            forward: true,
            place: true,
            handle_notifications: false,
            notifications_seen: 0,
            grow_child_after_place: false,
        }
    }
}

impl Widget for Holder {
    fn on_event(&mut self, ctx: &mut EventCtx, event: &Event, env: &Env) {
        if let Event::Notification(_) = event {
            self.notifications_seen += 1;
            if self.handle_notifications {
                ctx.set_handled();
            }
            return;
        }
        if self.forward {
            self.child.on_event(ctx, event, env);
        }
    }

    fn on_status_change(&mut self, _ctx: &mut LifeCycleCtx, _event: &StatusChange, _env: &Env) {}

    fn lifecycle(&mut self, ctx: &mut LifeCycleCtx, event: &LifeCycle, env: &Env) {
        if self.forward {
            self.child.lifecycle(ctx, event, env);
        }
    }

    fn layout(&mut self, ctx: &mut LayoutCtx, bc: &BoxConstraints, env: &Env) -> Size {
        let size = self.child.layout(ctx, bc, env);
        if self.place {
            ctx.place_child(&mut self.child, self.offset, env);
        }
        if self.grow_child_after_place {
            self.child.state.paint_insets = Insets::new(100, 100, 100, 100);
        }
        Size::new(size.width + self.offset.x, size.height + self.offset.y)
    }

    fn paint(&mut self, ctx: &mut PaintCtx, env: &Env) {
        self.child.paint(ctx, env);
    }

    fn children(&self) -> Vec<ChildSummary> {
        vec![self.child.summary()]
    }
}

fn env() -> Env {
    Env { debug_paint: false, debug_widget_id: false, debug_colors: vec![Color { r: 10, g: 20, b: 30, a: 255 }] }
}

fn root_state() -> WidgetState {
    WidgetState::new(WidgetId(1_000))
}

fn mouse(x: i64, y: i64) -> MouseEvent {
    MouseEvent {
        pos: Point::new(x, y),
        window_pos: Point::new(x, y),
        buttons: 1,
        button: 1,
        count: 1,
        wheel_delta: Point::new(0, 0),
    }
}

/// The shared state of a new pass. A driver keeps one visit clock for the
/// life of the tree; here each pass starts well past the stamps of the
/// earlier ones.
fn global<W: Widget>(pod: &WidgetPod<W>, focus: Option<WidgetId>) -> GlobalPassCtx {
    GlobalPassCtx::resume(focus, pod.state().last_visit + 1_000)
}

fn lifecycle<W: Widget>(pod: &mut WidgetPod<W>, ev: LifeCycle, focus: Option<WidgetId>) -> LifeCycleCtx {
    let mut ctx = LifeCycleCtx::new_root(global(pod, focus), root_state());
    pod.lifecycle(&mut ctx, &ev, &env());
    ctx
}

fn event<W: Widget>(pod: &mut WidgetPod<W>, ev: Event) -> EventCtx {
    let mut ctx = EventCtx::new_root(global(pod, None), root_state());
    pod.on_event(&mut ctx, &ev, &env());
    ctx
}

fn layout<W: Widget>(pod: &mut WidgetPod<W>, at: Point) -> (Size, LayoutCtx) {
    let mut ctx = LayoutCtx::new_root(global(pod, None), root_state(), None);
    let bc = BoxConstraints { min: Size::new(0, 0), max: Size::new(1_000, 1_000) };
    let size = pod.layout(&mut ctx, &bc, &env());
    ctx.place_child(pod, at, &env());
    (size, ctx)
}

fn leaf_pod(id: u64, w: i64, h: i64) -> WidgetPod<Leaf> {
    WidgetPod::new_with_id(Leaf::sized(w, h), WidgetId(id))
}

/// A holder with id 1 around a leaf with id 2, added and laid out.
fn tree() -> WidgetPod<Holder> {
    let mut pod = WidgetPod::new_with_id(Holder::new(leaf_pod(2, 10, 10)), WidgetId(1));
    lifecycle(&mut pod, LifeCycle::WidgetAdded, None);
    layout(&mut pod, Point::new(0, 0));
    pod
}

#[test]
fn pointer_press_then_move_away() {
    let mut pod = leaf_pod(5, 10, 10);
    lifecycle(&mut pod, LifeCycle::WidgetAdded, None);
    layout(&mut pod, Point::new(0, 0));
    assert_eq!(pod.layout_rect(), Rect::new(0, 0, 10, 10));

    event(&mut pod, Event::MouseDown(mouse(5, 5)));
    assert!(pod.is_active());
    assert!(pod.is_hot());
    assert!(pod.has_active());

    event(&mut pod, Event::MouseMove(mouse(50, 50)));
    assert!(!pod.is_hot());
    assert!(pod.is_active());

    event(&mut pod, Event::MouseUp(mouse(50, 50)));
    assert!(!pod.is_active());
    assert!(!pod.has_active());
    assert_eq!(
        pod.widget().status,
        vec![StatusChange::HotChanged(true), StatusChange::HotChanged(false)]
    );
}

#[test]
fn pointer_positions_are_made_local() {
    let mut pod = leaf_pod(5, 10, 10);
    lifecycle(&mut pod, LifeCycle::WidgetAdded, None);
    layout(&mut pod, Point::new(20, 30));
    event(&mut pod, Event::MouseDown(mouse(25, 33)));
    match pod.widget().events.last() {
        Some(Event::MouseDown(m)) => assert_eq!(m.pos, Point::new(5, 3)),
        other => panic!("unexpected {:?}", other),
    }
}

#[test]
fn same_pointer_position_twice_changes_hot_once() {
    let mut pod = leaf_pod(5, 10, 10);
    lifecycle(&mut pod, LifeCycle::WidgetAdded, None);
    layout(&mut pod, Point::new(0, 0));
    event(&mut pod, Event::MouseMove(mouse(3, 3)));
    event(&mut pod, Event::MouseMove(mouse(3, 3)));
    assert_eq!(pod.widget().status, vec![StatusChange::HotChanged(true)]);

    let mut global = GlobalPassCtx::new(None);
    let mut probe = leaf_pod(9, 0, 0);
    let rect = Rect::new(0, 0, 10, 10);
    let e = env();
    let first = probe.update_hot_state(&mut global, rect, Some(Point::new(1, 1)), &e);
    let second = probe.update_hot_state(&mut global, rect, Some(Point::new(1, 1)), &e);
    assert!(first);
    assert!(!second);
    assert!(probe.is_hot());
    assert_eq!(probe.widget().status, vec![StatusChange::HotChanged(true)]);
}

#[test]
fn pointer_on_degenerate_rect_is_never_hot() {
    let mut global = GlobalPassCtx::new(None);
    let mut probe = leaf_pod(9, 0, 0);
    let changed = probe.update_hot_state(&mut global, Rect::new(4, 4, 4, 4), Some(Point::new(4, 4)), &env());
    assert!(!changed);
    assert!(!probe.is_hot());
}

#[test]
fn pointer_leave_clears_hot() {
    let mut pod = leaf_pod(5, 10, 10);
    lifecycle(&mut pod, LifeCycle::WidgetAdded, None);
    layout(&mut pod, Point::new(0, 0));
    event(&mut pod, Event::MouseMove(mouse(3, 3)));
    assert!(pod.is_hot());
    event(&mut pod, Event::Internal(InternalEvent::MouseLeave));
    assert!(!pod.is_hot());
}

#[test]
fn disabled_change_reaches_child_once() {
    let mut pod = tree();
    lifecycle(&mut pod, LifeCycle::DisabledChanged(true), None);
    let leaf = pod.widget().child.widget();
    let disabled: Vec<&LifeCycle> = leaf
        .lifecycles
        .iter()
        .filter(|l| matches!(l, LifeCycle::DisabledChanged(_) | LifeCycle::Internal(InternalLifeCycle::RouteDisabledChanged)))
        .collect();
    assert_eq!(disabled, vec![&LifeCycle::DisabledChanged(true)]);
    assert!(pod.widget().child.state().is_disabled());
    assert!(pod.state().is_disabled());
}

#[test]
fn disabled_change_without_flip_stops() {
    let mut pod = tree();
    lifecycle(&mut pod, LifeCycle::DisabledChanged(false), None);
    let leaf = pod.widget().child.widget();
    assert!(!leaf.lifecycles.iter().any(|l| matches!(l, LifeCycle::DisabledChanged(_))));
}

#[test]
fn layout_of_stashed_widget_is_zero() {
    let mut pod = leaf_pod(5, 10, 10);
    lifecycle(&mut pod, LifeCycle::WidgetAdded, None);
    pod.state.flags.is_stashed = true;
    let mut ctx = LayoutCtx::new_root(GlobalPassCtx::new(None), root_state(), None);
    let bc = BoxConstraints { min: Size::new(0, 0), max: Size::new(100, 100) };
    let size = pod.layout(&mut ctx, &bc, &env());
    assert_eq!(size, Size::new(0, 0));
    assert_eq!(pod.widget().layouts, 0);
    assert_eq!(ctx.global_state.diagnostics, vec![Diagnostic::LayoutOfStashed { widget: WidgetId(5) }]);
}

#[test]
fn layout_records_size_and_paint_bounds() {
    let mut pod = leaf_pod(5, 10, 20);
    lifecycle(&mut pod, LifeCycle::WidgetAdded, None);
    let (size, ctx) = layout(&mut pod, Point::new(3, 4));
    assert_eq!(size, Size::new(10, 20));
    assert_eq!(pod.layout_rect(), Rect::new(3, 4, 13, 24));
    assert!(!pod.state().flags.needs_layout);
    assert!(!pod.state().flags.is_expecting_place_child_call);
    assert_eq!(ctx.widget_state.local_paint_rect, Rect::new(0, 0, 13, 24));
    assert!(ctx.global_state.diagnostics.is_empty());
}

#[test]
fn merge_up_ors_child_flags() {
    let mut parent = WidgetState::new(WidgetId(1));
    let mut child = WidgetState::new(WidgetId(2));
    child.flags.has_active = true;
    child.flags.needs_layout = true;
    parent.flags.has_focus = true;
    parent.merge_up(&mut child);
    assert!(parent.flags.has_active);
    assert!(parent.flags.has_focus);
    assert!(parent.flags.needs_layout);
    assert!(!parent.flags.request_anim);
    assert_eq!(parent.id, WidgetId(1));
}

#[test]
fn event_merges_child_state_into_parent() {
    let mut pod = tree();
    let ctx = event(&mut pod, Event::MouseDown(mouse(5, 5)));
    assert!(pod.widget().child.is_active());
    assert!(pod.has_active());
    assert!(!pod.is_active());
    assert!(ctx.widget_state.flags.has_active);
}

#[test]
fn targeted_command_reaches_its_target_only() {
    let mut pod = tree();
    let cmd = Command { selector: 3, payload: 4, target: Target::Widget(WidgetId(2)) };
    event(&mut pod, Event::Internal(InternalEvent::TargetedCommand(cmd)));
    let leaf = pod.widget().child.widget();
    assert_eq!(leaf.events, vec![Event::Command(cmd)]);
    assert!(pod.state().children.may_contain(2));
}

#[test]
fn targeted_command_for_unknown_widget_is_dropped() {
    let mut pod = tree();
    let cmd = Command { selector: 3, payload: 4, target: Target::Widget(WidgetId(5)) };
    event(&mut pod, Event::Internal(InternalEvent::TargetedCommand(cmd)));
    assert!(pod.widget().child.widget().events.is_empty());
}

#[test]
fn focus_moves_between_widgets() {
    let mut pod = tree();
    let to_leaf = LifeCycle::Internal(InternalLifeCycle::RouteFocusChanged { old: None, new: Some(WidgetId(2)) });
    lifecycle(&mut pod, to_leaf, None);
    assert!(pod.widget().child.has_focus());
    assert!(pod.has_focus());
    assert_eq!(pod.widget().child.widget().status, vec![StatusChange::FocusChanged(true)]);

    let away = LifeCycle::Internal(InternalLifeCycle::RouteFocusChanged { old: Some(WidgetId(2)), new: None });
    lifecycle(&mut pod, away, None);
    assert!(!pod.widget().child.has_focus());
    assert!(!pod.has_focus());
}

#[test]
fn keys_go_to_focused_widget() {
    let mut pod = tree();
    let key = Event::KeyDown(KeyEvent { code: 65, mods: 0, repeat: false });
    event(&mut pod, key);
    assert!(pod.widget().child.widget().events.is_empty());
    let to_leaf = LifeCycle::Internal(InternalLifeCycle::RouteFocusChanged { old: None, new: Some(WidgetId(2)) });
    lifecycle(&mut pod, to_leaf, None);
    event(&mut pod, key);
    assert_eq!(pod.widget().child.widget().events, vec![key]);
}

#[test]
fn focus_chain_collects_enabled_widgets() {
    let mut pod = tree();
    let ctx = lifecycle(&mut pod, LifeCycle::BuildFocusChain, None);
    assert_eq!(ctx.widget_state.focus_chain, vec![WidgetId(2)]);
    assert!(!pod.state().flags.update_focus_chain);
}

#[test]
fn invisible_widget_is_not_painted() {
    let mut pod = leaf_pod(5, 10, 10);
    lifecycle(&mut pod, LifeCycle::WidgetAdded, None);
    layout(&mut pod, Point::new(0, 0));
    let mut ctx = PaintCtx::new_root(GlobalPassCtx::new(None), root_state(), Region::from_rect(Rect::new(50, 50, 60, 60)));
    pod.paint(&mut ctx, &env());
    assert_eq!(pod.widget().paints, 0);
    assert!(ctx.ops.is_empty());
    assert!(ctx.z_ops.is_empty());
}

#[test]
fn visible_widget_is_painted_at_its_origin() {
    let mut pod = leaf_pod(5, 10, 10);
    lifecycle(&mut pod, LifeCycle::WidgetAdded, None);
    layout(&mut pod, Point::new(2, 3));
    let mut ctx = PaintCtx::new_root(GlobalPassCtx::new(None), root_state(), Region::from_rect(Rect::new(0, 0, 100, 100)));
    pod.paint(&mut ctx, &env());
    assert_eq!(pod.widget().paints, 1);
    assert_eq!(
        ctx.ops,
        vec![
            DrawOp::Save,
            DrawOp::Translate(Point::new(2, 3)),
            DrawOp::Custom { tag: 1, rect: Rect::new(0, 0, 10, 10) },
            DrawOp::Restore,
        ]
    );
}

#[test]
fn paint_always_ignores_visibility() {
    let mut pod = leaf_pod(5, 10, 10);
    lifecycle(&mut pod, LifeCycle::WidgetAdded, None);
    layout(&mut pod, Point::new(0, 0));
    let mut ctx = PaintCtx::new_root(GlobalPassCtx::new(None), root_state(), Region::empty());
    pod.paint_always(&mut ctx, &env());
    assert_eq!(pod.widget().paints, 1);
    assert_eq!(ctx.ops.first(), Some(&DrawOp::Save));
    assert_eq!(ctx.ops.last(), Some(&DrawOp::Restore));
}

#[test]
fn debug_overlays_follow_the_widget() {
    let mut pod = leaf_pod(5, 10, 10);
    lifecycle(&mut pod, LifeCycle::WidgetAdded, None);
    layout(&mut pod, Point::new(0, 0));
    event(&mut pod, Event::MouseMove(mouse(1, 1)));
    let debug = Env { debug_paint: false, debug_widget_id: true, debug_colors: vec![Color { r: 10, g: 20, b: 30, a: 255 }] };
    let mut ctx = PaintCtx::new_root(GlobalPassCtx::new(None), root_state(), Region::from_rect(Rect::new(0, 0, 100, 100)));
    pod.paint(&mut ctx, &debug);
    assert_eq!(ctx.z_ops.len(), 1);
    match ctx.z_ops[0].op {
        DrawOp::IdLabel { id, corner, background, text_color } => {
            assert_eq!(id, 5);
            assert_eq!(corner, Point::new(10, 10));
            assert_eq!(background, Color { r: 10, g: 20, b: 30, a: 255 });
            assert_eq!(text_color, Color { r: 255, g: 255, b: 255, a: 255 });
        }
        other => panic!("unexpected {:?}", other),
    }
    assert!(ctx.ops.iter().any(|op| matches!(op, DrawOp::StrokeRect { width: 1, .. })));
}

#[test]
fn notifications_bubble_until_handled() {
    let mut leaf = Leaf::sized(10, 10);
    leaf.notify_on_key = true;
    let mut pod = WidgetPod::new_with_id(Holder::new(WidgetPod::new_with_id(leaf, WidgetId(2))), WidgetId(1));
    lifecycle(&mut pod, LifeCycle::WidgetAdded, None);
    let to_leaf = LifeCycle::Internal(InternalLifeCycle::RouteFocusChanged { old: None, new: Some(WidgetId(2)) });
    lifecycle(&mut pod, to_leaf, None);
    let key = Event::KeyDown(KeyEvent { code: 65, mods: 0, repeat: false });

    let ctx = event(&mut pod, key);
    assert_eq!(pod.widget().notifications_seen, 1);
    assert_eq!(ctx.notifications.len(), 1);
    assert_eq!(ctx.notifications[0].source, WidgetId(2));
    assert_eq!(ctx.notifications[0].payload, 42);

    pod.inner.handle_notifications = true;
    let ctx = event(&mut pod, key);
    assert_eq!(pod.widget().notifications_seen, 2);
    assert!(ctx.notifications.is_empty());
}

#[test]
fn handled_event_is_not_delivered() {
    let mut pod = leaf_pod(5, 10, 10);
    lifecycle(&mut pod, LifeCycle::WidgetAdded, None);
    let mut ctx = EventCtx::new_root(GlobalPassCtx::new(None), root_state());
    ctx.set_handled();
    pod.on_event(&mut ctx, &Event::WindowConnected, &env());
    assert!(pod.widget().events.is_empty());
}

#[test]
fn window_size_marks_layout_and_stops_below_root() {
    let mut pod = tree();
    event(&mut pod, Event::WindowSize(Size::new(300, 200)));
    assert!(pod.state().flags.needs_layout);
    assert!(pod.widget().child.widget().events.is_empty());
}

#[test]
fn anim_frame_only_after_request() {
    let mut pod = leaf_pod(5, 10, 10);
    lifecycle(&mut pod, LifeCycle::WidgetAdded, None);
    event(&mut pod, Event::AnimFrame(16));
    assert!(pod.widget().events.is_empty());
    pod.state.flags.request_anim = true;
    event(&mut pod, Event::AnimFrame(16));
    assert_eq!(pod.widget().events, vec![Event::AnimFrame(16)]);
    assert!(!pod.state().flags.request_anim);
}

#[test]
fn event_before_added_is_reported() {
    let mut pod = leaf_pod(5, 10, 10);
    let ctx = event(&mut pod, Event::WindowConnected);
    assert_eq!(
        ctx.global_state.diagnostics,
        vec![Diagnostic::NotInitialized { widget: WidgetId(5), pass: PassName::Event }]
    );
}

#[test]
fn lifecycle_before_added_is_reported() {
    let mut pod = leaf_pod(5, 10, 10);
    let ctx = lifecycle(&mut pod, LifeCycle::BuildFocusChain, None);
    assert_eq!(
        ctx.global_state.diagnostics,
        vec![Diagnostic::NotInitialized { widget: WidgetId(5), pass: PassName::Lifecycle }]
    );
    assert!(pod.widget().lifecycles.is_empty());
}

#[test]
fn routed_added_initializes_new_widget() {
    let mut pod = leaf_pod(5, 10, 10);
    let ctx = lifecycle(&mut pod, LifeCycle::Internal(InternalLifeCycle::RouteWidgetAdded), None);
    assert!(pod.is_initialized());
    assert_eq!(pod.widget().lifecycles, vec![LifeCycle::WidgetAdded]);
    assert!(ctx.widget_state.children.may_contain(5));
    assert!(pod.env.is_some());
}

#[test]
fn second_added_is_reported() {
    let mut pod = leaf_pod(5, 10, 10);
    lifecycle(&mut pod, LifeCycle::WidgetAdded, None);
    let ctx = lifecycle(&mut pod, LifeCycle::WidgetAdded, None);
    assert_eq!(ctx.global_state.diagnostics, vec![Diagnostic::AlreadyInitialized { widget: WidgetId(5) }]);
}

#[test]
fn paint_of_stashed_is_reported() {
    let mut pod = leaf_pod(5, 10, 10);
    lifecycle(&mut pod, LifeCycle::WidgetAdded, None);
    pod.state.flags.is_stashed = true;
    let mut ctx = PaintCtx::new_root(GlobalPassCtx::new(None), root_state(), Region::from_rect(Rect::new(0, 0, 100, 100)));
    pod.paint(&mut ctx, &env());
    assert_eq!(pod.widget().paints, 0);
    assert_eq!(ctx.global_state.diagnostics, vec![Diagnostic::PaintOfStashed { widget: WidgetId(5) }]);
}

#[test]
fn unvisited_child_is_reported() {
    let mut pod = tree();
    pod.inner.forward = false;
    let ctx = event(&mut pod, Event::WindowConnected);
    assert_eq!(
        ctx.global_state.diagnostics,
        vec![Diagnostic::ChildNotVisited { parent: WidgetId(1), child: WidgetId(2), pass: PassName::Event }]
    );
}

struct Grower {
    kids: Vec<ChildSummary>,
}
impl Widget for Grower {
    fn on_event(&mut self, _ctx: &mut EventCtx, _event: &Event, _env: &Env) {
        self.kids.push(ChildSummary {
            id: WidgetId(77),
            last_visit: u64::MAX,
            is_stashed: false,
            is_expecting_place_child_call: false,
            paint_rect: Rect::new(0, 0, 0, 0),
        });
    }
    fn on_status_change(&mut self, _ctx: &mut LifeCycleCtx, _event: &StatusChange, _env: &Env) {}
    fn lifecycle(&mut self, _ctx: &mut LifeCycleCtx, _event: &LifeCycle, _env: &Env) {}
    fn layout(&mut self, _ctx: &mut LayoutCtx, _bc: &BoxConstraints, _env: &Env) -> Size {
        Size::new(0, 0)
    }
    fn paint(&mut self, _ctx: &mut PaintCtx, _env: &Env) {}
    fn children(&self) -> Vec<ChildSummary> {
        self.kids.clone()
    }
}

#[test]
fn unflagged_children_change_is_reported() {
    let mut pod = WidgetPod::new_with_id(Grower { kids: Vec::new() }, WidgetId(3));
    lifecycle(&mut pod, LifeCycle::WidgetAdded, None);
    lifecycle(&mut pod, LifeCycle::Internal(InternalLifeCycle::RouteWidgetAdded), None);
    assert!(!pod.state().flags.children_changed);
    let ctx = event(&mut pod, Event::WindowConnected);
    assert_eq!(
        ctx.global_state.diagnostics,
        vec![Diagnostic::ChildrenChangedUnflagged { widget: WidgetId(3), pass: PassName::Event }]
    );
}

#[test]
fn missing_place_child_is_reported() {
    let mut holder = Holder::new(leaf_pod(2, 10, 10));
    holder.place = false;
    let mut pod = WidgetPod::new_with_id(holder, WidgetId(1));
    lifecycle(&mut pod, LifeCycle::WidgetAdded, None);
    let (_, ctx) = layout(&mut pod, Point::new(0, 0));
    assert!(ctx
        .global_state
        .diagnostics
        .contains(&Diagnostic::MissingPlaceChild { parent: WidgetId(1), child: WidgetId(2) }));
}

#[test]
fn child_painting_outside_is_reported() {
    let mut holder = Holder::new(leaf_pod(2, 10, 10));
    holder.grow_child_after_place = true;
    let mut pod = WidgetPod::new_with_id(holder, WidgetId(1));
    lifecycle(&mut pod, LifeCycle::WidgetAdded, None);
    let (_, ctx) = layout(&mut pod, Point::new(0, 0));
    assert_eq!(
        ctx.global_state.diagnostics,
        vec![Diagnostic::ChildPaintOutside { parent: WidgetId(1), child: WidgetId(2) }]
    );
}

#[test]
fn unbounded_size_and_bad_constraints_are_reported() {
    let mut pod = leaf_pod(5, i64::MAX, 10);
    lifecycle(&mut pod, LifeCycle::WidgetAdded, None);
    let mut ctx = LayoutCtx::new_root(GlobalPassCtx::new(None), root_state(), None);
    let bc = BoxConstraints { min: Size::new(50, 0), max: Size::new(10, 10) };
    pod.layout(&mut ctx, &bc, &env());
    assert_eq!(
        ctx.global_state.diagnostics,
        vec![
            Diagnostic::InvalidConstraints { widget: WidgetId(5) },
            Diagnostic::UnboundedSize { widget: WidgetId(5), horizontal: true },
        ]
    );
}

#[test]
fn parent_paint_insets_cover_child_overflow() {
    let mut pod = leaf_pod(5, 20, 20);
    lifecycle(&mut pod, LifeCycle::WidgetAdded, None);
    layout(&mut pod, Point::new(-5, -5));
    assert_eq!(pod.paint_rect(), Rect::new(-5, -5, 15, 15));
    assert_eq!(pod.compute_parent_paint_insets(Size::new(10, 10)), Insets::new(5, 5, 5, 5));
    assert_eq!(pod.compute_parent_paint_insets(Size::new(30, 30)), Insets::new(5, 5, 0, 0));
}

#[test]
fn ids_come_from_source_in_order() {
    let mut ids = WidgetIdSource::new();
    let a = WidgetPod::new(Leaf::sized(0, 0), &mut ids);
    let b = WidgetPod::new(Leaf::sized(0, 0), &mut ids);
    assert_eq!(a.id(), WidgetId(1));
    assert_eq!(b.id(), WidgetId(2));
    assert!(!a.is_initialized());
    assert!(a.state().flags.needs_layout && a.state().flags.children_changed);
}

#[test]
fn boxed_pod_keeps_its_id() {
    let pod = leaf_pod(8, 1, 1);
    let boxed = pod.boxed();
    assert_eq!(boxed.id(), WidgetId(8));
    assert_eq!(boxed.as_dyn().state.id, WidgetId(8));
    assert_eq!(boxed.baseline_offset(), 0);
    assert_eq!(boxed.paint_insets(), Insets::new(0, 0, 0, 0));
}

#[test]
fn window_origin_is_cached() {
    let mut pod = leaf_pod(5, 10, 10);
    lifecycle(&mut pod, LifeCycle::WidgetAdded, None);
    let mut parent = root_state();
    parent.origin = Point::new(7, 8);
    parent.parent_window_origin = Point::new(100, 200);
    let mut ctx = LifeCycleCtx::new_root(GlobalPassCtx::new(None), parent);
    pod.lifecycle(&mut ctx, &LifeCycle::Internal(InternalLifeCycle::ParentWindowOrigin), &env());
    assert_eq!(pod.state().parent_window_origin, Point::new(107, 208));
    assert!(!pod.state().flags.needs_window_origin);
}

/// A container with two children side by side.
struct Pair {
    left: WidgetPod<Leaf>,
    right: WidgetPod<Leaf>,
}

impl Widget for Pair {
    fn on_event(&mut self, ctx: &mut EventCtx, event: &Event, env: &Env) {
        self.left.on_event(ctx, event, env);
        self.right.on_event(ctx, event, env);
    }

    fn on_status_change(&mut self, _ctx: &mut LifeCycleCtx, _event: &StatusChange, _env: &Env) {}

    fn lifecycle(&mut self, ctx: &mut LifeCycleCtx, event: &LifeCycle, env: &Env) {
        self.left.lifecycle(ctx, event, env);
        self.right.lifecycle(ctx, event, env);
    }

    fn layout(&mut self, ctx: &mut LayoutCtx, bc: &BoxConstraints, env: &Env) -> Size {
        let a = self.left.layout(ctx, bc, env);
        ctx.place_child(&mut self.left, Point::new(0, 0), env);
        let b = self.right.layout(ctx, bc, env);
        ctx.place_child(&mut self.right, Point::new(a.width, 0), env);
        Size::new(a.width + b.width, a.height.max(b.height))
    }

    fn paint(&mut self, ctx: &mut PaintCtx, env: &Env) {
        self.left.paint(ctx, env);
        self.right.paint(ctx, env);
    }

    fn children(&self) -> Vec<ChildSummary> {
        vec![self.left.summary(), self.right.summary()]
    }
}

fn pair() -> WidgetPod<Pair> {
    let mut pod = WidgetPod::new_with_id(Pair { left: leaf_pod(2, 10, 10), right: leaf_pod(3, 10, 10) }, WidgetId(1));
    lifecycle(&mut pod, LifeCycle::WidgetAdded, None);
    layout(&mut pod, Point::new(0, 0));
    pod
}

#[test]
fn targeted_command_picks_one_sibling() {
    let mut pod = pair();
    let cmd = Command { selector: 1, payload: 1, target: Target::Widget(WidgetId(3)) };
    let ctx = event(&mut pod, Event::Internal(InternalEvent::TargetedCommand(cmd)));
    assert!(pod.widget().left.widget().events.is_empty());
    assert_eq!(pod.widget().right.widget().events, vec![Event::Command(cmd)]);
    assert!(ctx.global_state.diagnostics.is_empty());
}

#[test]
fn focus_moves_between_siblings() {
    let mut pod = pair();
    let to_left = LifeCycle::Internal(InternalLifeCycle::RouteFocusChanged { old: None, new: Some(WidgetId(2)) });
    lifecycle(&mut pod, to_left, None);
    assert!(pod.widget().left.has_focus());
    assert!(!pod.widget().right.has_focus());
    let to_right = LifeCycle::Internal(InternalLifeCycle::RouteFocusChanged { old: Some(WidgetId(2)), new: Some(WidgetId(3)) });
    lifecycle(&mut pod, to_right, None);
    assert!(!pod.widget().left.has_focus());
    assert!(pod.widget().right.has_focus());
    assert!(pod.has_focus());
    let chain = lifecycle(&mut pod, LifeCycle::BuildFocusChain, Some(WidgetId(3)));
    assert_eq!(chain.widget_state.focus_chain, vec![WidgetId(2), WidgetId(3)]);
}

#[test]
fn pointer_reaches_the_sibling_under_it() {
    let mut pod = pair();
    event(&mut pod, Event::MouseDown(mouse(15, 5)));
    assert!(!pod.widget().left.is_hot());
    assert!(pod.widget().right.is_hot());
    assert!(pod.widget().right.is_active());
    match pod.widget().right.widget().events.last() {
        Some(Event::MouseDown(m)) => assert_eq!(m.pos, Point::new(5, 5)),
        other => panic!("unexpected {:?}", other),
    }
    assert!(pod.widget().left.widget().events.is_empty());
}

#[test]
fn focus_request_goes_up_with_the_state() {
    let mut parent = EventCtx::new_root(GlobalPassCtx::new(None), root_state());
    parent.request_focus();
    assert_eq!(parent.widget_state.request_focus, Some(widget_pod::state::FocusChange::Focus(WidgetId(1_000))));
    let mut child = WidgetState::new(WidgetId(2));
    child.request_focus = Some(widget_pod::state::FocusChange::Next);
    parent.widget_state.merge_up(&mut child);
    assert_eq!(parent.widget_state.request_focus, Some(widget_pod::state::FocusChange::Next));
    assert_eq!(child.request_focus, None);
    parent.focus_prev();
    assert_eq!(parent.widget_state.request_focus, Some(widget_pod::state::FocusChange::Previous));
}

#[test]
fn hot_change_requests_repaint_when_ids_are_shown() {
    let mut global = GlobalPassCtx::new(None);
    let mut probe = leaf_pod(9, 0, 0);
    let debug = Env { debug_paint: false, debug_widget_id: true, debug_colors: Vec::new() };
    assert!(probe.update_hot_state(&mut global, Rect::new(0, 0, 5, 5), Some(Point::new(1, 1)), &debug));
    assert!(probe.state().flags.request_paint);
}

#[test]
fn focus_change_to_and_from_self_resigns() {
    let mut pod = leaf_pod(5, 10, 10);
    lifecycle(&mut pod, LifeCycle::WidgetAdded, None);
    let both = LifeCycle::Internal(InternalLifeCycle::RouteFocusChanged { old: Some(WidgetId(5)), new: Some(WidgetId(5)) });
    lifecycle(&mut pod, both, None);
    assert!(!pod.has_focus());
    assert_eq!(pod.widget().status, vec![StatusChange::FocusChanged(false)]);
}

#[test]
fn layout_hands_down_local_pointer() {
    let mut pod = leaf_pod(5, 10, 10);
    lifecycle(&mut pod, LifeCycle::WidgetAdded, None);
    layout(&mut pod, Point::new(20, 30));
    let mut ctx = LayoutCtx::new_root(global(&pod, None), root_state(), Some(Point::new(25, 33)));
    let bc = BoxConstraints { min: Size::new(0, 0), max: Size::new(100, 100) };
    let size = pod.layout(&mut ctx, &bc, &env());
    assert_eq!(size, Size::new(10, 10));
    ctx.place_child(&mut pod, Point::new(20, 30), &env());
    assert!(pod.is_hot());
    assert_eq!(pod.widget().status, vec![StatusChange::HotChanged(true)]);
}

#[test]
fn unbounded_in_both_dimensions_warns_twice() {
    let mut pod = leaf_pod(5, i64::MAX, i64::MAX);
    lifecycle(&mut pod, LifeCycle::WidgetAdded, None);
    let (_, ctx) = layout(&mut pod, Point::new(0, 0));
    assert_eq!(
        ctx.global_state.diagnostics,
        vec![
            Diagnostic::UnboundedSize { widget: WidgetId(5), horizontal: true },
            Diagnostic::UnboundedSize { widget: WidgetId(5), horizontal: false },
        ]
    );
}

/// A leaf that asks to be scrolled into view on any key.
struct Panner;

impl Widget for Panner {
    fn on_event(&mut self, ctx: &mut EventCtx, event: &Event, _env: &Env) {
        if let Event::WindowConnected = event {
            ctx.request_pan_to_this(Rect::new(1, 2, 3, 4));
            ctx.set_handled();
        }
    }
    fn on_status_change(&mut self, _ctx: &mut LifeCycleCtx, _event: &StatusChange, _env: &Env) {}
    fn lifecycle(&mut self, _ctx: &mut LifeCycleCtx, _event: &LifeCycle, _env: &Env) {}
    fn layout(&mut self, _ctx: &mut LayoutCtx, _bc: &BoxConstraints, _env: &Env) -> Size {
        Size::new(10, 10)
    }
    fn paint(&mut self, _ctx: &mut PaintCtx, _env: &Env) {}
    fn children(&self) -> Vec<ChildSummary> {
        Vec::new()
    }
}

#[test]
fn pan_request_goes_up_moved_by_origin() {
    let mut pod = WidgetPod::new_with_id(Panner, WidgetId(4));
    lifecycle(&mut pod, LifeCycle::WidgetAdded, None);
    layout(&mut pod, Point::new(100, 200));
    let ctx = event(&mut pod, Event::WindowConnected);
    assert!(ctx.is_handled);
    assert_eq!(ctx.request_pan_to_child, Some(Rect::new(101, 202, 103, 204)));
}
