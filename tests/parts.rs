use widget_pod::bloom::Bloom;
use widget_pod::contexts::{Color, Env};
use widget_pod::event::{
    Command, Event, InternalEvent, KeyEvent, MouseEvent, Notification, PromiseResult, Target,
    TimerToken, WindowId,
};
use widget_pod::geometry::{rect_contains, sat_add, sat_sub, Insets, Point, Rect, Region, Size};
use widget_pod::routing::{bubble_notification, hot_at, pointer_input, route_event};
use widget_pod::state::{WidgetId, WidgetState};
use widget_pod::widget_pod::{child_ids, debug_text_color, extend_ids};
use widget_pod::contexts::ChildSummary;

fn mouse(x: i64, y: i64) -> MouseEvent {
    MouseEvent {
        pos: Point::new(x, y),
        window_pos: Point::new(x, y),
        buttons: 0,
        button: 0,
        count: 0,
        wheel_delta: Point::new(0, 0),
    }
}

fn state_with_child(id: u64, child: u64) -> WidgetState {
    let mut s = WidgetState::new(WidgetId(id));
    s.children.add(child);
    s
}

#[test]
fn saturating_arithmetic() {
    assert_eq!(sat_add(2, 3), 5);
    assert_eq!(sat_add(i64::MAX, 1), i64::MAX);
    assert_eq!(sat_sub(i64::MIN, 1), i64::MIN);
    assert_eq!(sat_sub(3, 10), -7);
}

#[test]
fn rect_union_and_intersection() {
    let a = Rect::new(0, 0, 10, 10);
    let b = Rect::new(5, -5, 20, 8);
    assert_eq!(a.union(b), Rect::new(0, -5, 20, 10));
    assert_eq!(a.intersect(b), Rect::new(5, 0, 10, 8));
    assert_eq!(a.intersect(Rect::new(20, 20, 30, 30)), Rect::new(20, 20, 20, 20));
    assert!(!a.intersect(Rect::new(20, 20, 30, 30)).has_area());
    assert!(a.intersect(b).has_area());
}

#[test]
fn rect_from_origin_size_normalises() {
    assert_eq!(Rect::from_origin_size(Point::new(5, 5), Size::new(-3, 4)), Rect::new(2, 5, 5, 9));
    assert_eq!(Size::new(4, 6).to_rect(), Rect::new(0, 0, 4, 6));
    assert_eq!(Rect::new(1, 2, 3, 4).with_size(Size::new(10, 10)), Rect::new(1, 2, 11, 12));
}

#[test]
fn winding_is_half_open() {
    let r = Rect::new(0, 0, 10, 10);
    assert_eq!(r.winding(Point::new(0, 0)), 1);
    assert_eq!(r.winding(Point::new(9, 9)), 1);
    assert_eq!(r.winding(Point::new(10, 5)), 0);
    assert_eq!(Rect::new(10, 0, 0, 10).winding(Point::new(5, 5)), -1);
    assert!(hot_at(r, Some(Point::new(5, 5))));
    assert!(!hot_at(r, None));
}

#[test]
fn insets_grow_and_measure_rects() {
    let r = Rect::new(0, 0, 10, 10);
    assert_eq!(r.add_insets(Insets::new(1, 2, 3, 4)), Rect::new(-1, -2, 13, 14));
    assert_eq!(Rect::new(-1, -2, 13, 14).insets_from(r), Insets::new(1, 2, 3, 4));
    assert!(rect_contains(&Rect::new(-1, -2, 13, 14), &r));
    assert!(!rect_contains(&r, &Rect::new(-1, -2, 13, 14)));
}

#[test]
fn region_intersection_and_translation() {
    let region = Region { rects: vec![Rect::new(0, 0, 10, 10), Rect::new(50, 50, 60, 60)] };
    assert!(region.intersects(Rect::new(55, 55, 70, 70)));
    assert!(!region.intersects(Rect::new(20, 20, 30, 30)));
    assert!(!region.intersects(Rect::new(10, 0, 20, 10)));
    let clipped = region.intersected_with(Rect::new(5, 5, 55, 55));
    assert_eq!(clipped.rects, vec![Rect::new(5, 5, 10, 10), Rect::new(50, 50, 55, 55)]);
    let moved = clipped.translated_back(Point::new(5, 5));
    assert_eq!(moved.rects, vec![Rect::new(0, 0, 5, 5), Rect::new(45, 45, 50, 50)]);
    assert_eq!(region.copy().rects, region.rects);
}

#[test]
fn bloom_reports_what_was_added() {
    let mut b = Bloom::new();
    assert!(!b.may_contain(3));
    b.add(3);
    b.add(700);
    assert!(b.may_contain(3));
    assert!(b.may_contain(700));
    assert!(!b.may_contain(5));
    let mut c = Bloom::new();
    c.add(9);
    let u = b.union(c);
    assert!(u.may_contain(3) && u.may_contain(700) && u.may_contain(9));
    b.clear();
    assert!(!b.may_contain(3));
}

#[test]
fn routing_unwraps_at_target() {
    let s = state_with_child(1, 2);
    let cmd = Command { selector: 1, payload: 2, target: Target::Widget(WidgetId(1)) };
    let e = Event::Internal(InternalEvent::TargetedCommand(cmd));
    assert_eq!(route_event(&e, &s, false, false, false, false), Some(Event::Command(cmd)));

    let to_child = Command { selector: 1, payload: 2, target: Target::Widget(WidgetId(2)) };
    let e = Event::Internal(InternalEvent::TargetedCommand(to_child));
    assert_eq!(route_event(&e, &s, false, false, false, false), Some(e));

    let elsewhere = Command { selector: 1, payload: 2, target: Target::Widget(WidgetId(5)) };
    let e = Event::Internal(InternalEvent::TargetedCommand(elsewhere));
    assert_eq!(route_event(&e, &s, false, false, false, false), None);

    let global = Command { selector: 1, payload: 2, target: Target::Global };
    let e = Event::Internal(InternalEvent::TargetedCommand(global));
    assert_eq!(route_event(&e, &s, false, false, false, false), Some(Event::Command(global)));

    let window = Command { selector: 1, payload: 2, target: Target::Window(WindowId(4)) };
    let e = Event::Internal(InternalEvent::TargetedCommand(window));
    assert_eq!(route_event(&e, &s, false, false, false, false), Some(Event::Command(window)));
}

#[test]
fn routing_of_timers_promises_and_ime() {
    let s = state_with_child(1, 2);
    let e = Event::Internal(InternalEvent::RouteTimer(TimerToken(9), WidgetId(1)));
    assert_eq!(route_event(&e, &s, false, false, false, false), Some(Event::Timer(TimerToken(9))));
    let p = PromiseResult { token: 3, payload: 4 };
    let e = Event::Internal(InternalEvent::RoutePromiseResult(p, WidgetId(1)));
    assert_eq!(route_event(&e, &s, false, false, false, false), Some(Event::PromiseResult(p)));
    let e = Event::Internal(InternalEvent::RouteImeStateChange(WidgetId(1)));
    assert_eq!(route_event(&e, &s, false, false, false, false), Some(Event::ImeStateChange));
    let e = Event::Internal(InternalEvent::RouteImeStateChange(WidgetId(2)));
    assert_eq!(route_event(&e, &s, false, false, false, false), Some(e));
    assert_eq!(route_event(&Event::Timer(TimerToken(9)), &s, true, true, true, true), None);
    assert_eq!(route_event(&Event::PromiseResult(p), &s, true, true, true, true), None);
}

#[test]
fn routing_of_window_and_input_events() {
    let mut s = WidgetState::new(WidgetId(1));
    assert_eq!(route_event(&Event::WindowConnected, &s, false, false, false, false), Some(Event::WindowConnected));
    let size = Event::WindowSize(Size::new(1, 1));
    assert_eq!(route_event(&size, &s, false, false, false, false), None);
    assert_eq!(route_event(&size, &s, false, false, false, true), Some(size));
    let key = Event::KeyDown(KeyEvent { code: 1, mods: 0, repeat: false });
    assert_eq!(route_event(&key, &s, false, false, false, false), None);
    s.flags.has_focus = true;
    assert_eq!(route_event(&key, &s, false, false, false, false), Some(key));
    assert_eq!(route_event(&Event::AnimFrame(5), &s, false, false, false, false), None);
    assert_eq!(route_event(&Event::AnimFrame(5), &s, false, false, true, false), Some(Event::AnimFrame(5)));
    assert_eq!(route_event(&Event::Zoom(1500), &s, false, false, false, false), None);
    assert_eq!(route_event(&Event::Zoom(1500), &s, true, false, false, false), Some(Event::Zoom(1500)));
}

#[test]
fn routing_of_pointer_events() {
    let mut s = WidgetState::new(WidgetId(1));
    s.origin = Point::new(10, 20);
    s.size = Size::new(5, 5);
    let down = Event::MouseDown(mouse(12, 21));
    assert_eq!(route_event(&down, &s, false, false, false, false), None);
    s.flags.is_hot = true;
    let local = MouseEvent { pos: Point::new(2, 1), ..mouse(12, 21) };
    assert_eq!(route_event(&down, &s, false, false, false, false), Some(Event::MouseDown(local)));
    s.flags.is_stashed = true;
    assert_eq!(route_event(&down, &s, false, false, false, false), None);
    s.flags.is_stashed = false;
    s.flags.is_hot = false;
    let mv = Event::MouseMove(mouse(100, 100));
    let local = MouseEvent { pos: Point::new(90, 80), ..mouse(100, 100) };
    assert_eq!(route_event(&mv, &s, false, true, false, false), Some(Event::MouseMove(local)));
    assert_eq!(route_event(&mv, &s, false, false, false, false), None);
    let leave = Event::Internal(InternalEvent::MouseLeave);
    assert_eq!(route_event(&leave, &s, true, false, false, false), Some(leave));
    assert_eq!(route_event(&leave, &s, false, false, false, false), None);
    assert_eq!(pointer_input(&down), Some(Some(Point::new(12, 21))));
    assert_eq!(pointer_input(&leave), Some(None));
    assert_eq!(pointer_input(&Event::WindowConnected), None);
}

#[test]
fn notification_bubbling_rules() {
    let own = Notification { source: WidgetId(1), selector: 1, payload: 1 };
    let deeper = Notification { source: WidgetId(2), selector: 2, payload: 2 };
    let extra = Notification { source: WidgetId(1), selector: 3, payload: 3 };
    let mut out: Vec<Notification> = Vec::new();
    bubble_notification(&mut out, own, WidgetId(1), true, &vec![extra]);
    assert_eq!(out, vec![own]);
    bubble_notification(&mut out, deeper, WidgetId(1), false, &vec![extra]);
    assert_eq!(out, vec![own, extra, deeper]);
    bubble_notification(&mut out, deeper, WidgetId(1), true, &Vec::new());
    assert_eq!(out, vec![own, extra, deeper]);
}

#[test]
fn debug_colors_cycle_by_id() {
    let env = Env {
        debug_paint: true,
        debug_widget_id: false,
        debug_colors: vec![Color { r: 1, g: 1, b: 1, a: 255 }, Color { r: 200, g: 200, b: 200, a: 255 }],
    };
    assert_eq!(env.get_debug_color(4), Color { r: 1, g: 1, b: 1, a: 255 });
    assert_eq!(env.get_debug_color(5), Color { r: 200, g: 200, b: 200, a: 255 });
    let empty = Env { debug_paint: false, debug_widget_id: false, debug_colors: Vec::new() };
    assert_eq!(empty.get_debug_color(5), Color { r: 128, g: 128, b: 128, a: 255 });
    assert_eq!(debug_text_color(Color { r: 200, g: 200, b: 200, a: 255 }), Color { r: 0, g: 0, b: 0, a: 255 });
    assert_eq!(debug_text_color(Color { r: 127, g: 128, b: 128, a: 255 }), Color { r: 255, g: 255, b: 255, a: 255 });
    assert_eq!(debug_text_color(Color { r: 128, g: 128, b: 128, a: 0 }), Color { r: 0, g: 0, b: 0, a: 255 });
}

#[test]
fn state_geometry() {
    let mut s = WidgetState::new(WidgetId(3));
    s.origin = Point::new(4, 5);
    s.size = Size::new(6, 7);
    s.paint_insets = Insets::new(1, 1, 2, 2);
    s.parent_window_origin = Point::new(100, 100);
    assert_eq!(s.layout_rect(), Rect::new(4, 5, 10, 12));
    assert_eq!(s.paint_rect(), Rect::new(3, 4, 12, 14));
    assert_eq!(s.window_origin(), Point::new(104, 105));
    s.flags.ancestor_disabled = true;
    assert!(s.is_disabled());
}

#[test]
fn id_lists() {
    let kids = vec![
        ChildSummary { id: WidgetId(4), last_visit: 0, is_stashed: false, is_expecting_place_child_call: false, paint_rect: Rect::zero() },
        ChildSummary { id: WidgetId(6), last_visit: 0, is_stashed: true, is_expecting_place_child_call: false, paint_rect: Rect::zero() },
    ];
    assert_eq!(child_ids(&kids), vec![WidgetId(4), WidgetId(6)]);
    let mut dst = vec![WidgetId(1)];
    extend_ids(&mut dst, &vec![WidgetId(2), WidgetId(3)]);
    assert_eq!(dst, vec![WidgetId(1), WidgetId(2), WidgetId(3)]);
}
