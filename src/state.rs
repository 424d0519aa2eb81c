//! The per-node state record that a pod keeps for its widget.
use vstd::prelude::*;
use crate::bloom::Bloom;
use crate::geometry::{Insets, Point, Rect, Size};

verus! {

/// A unique identifier of a widget in the tree.
#[derive(Clone, Copy, Debug, PartialEq, Eq, Hash, Structural)]
pub struct WidgetId(pub u64);

impl WidgetId {
    pub fn to_raw(self) -> (r: u64)
        ensures
            r == self.0,
    {
        self.0
    }
}

/// Hands out fresh widget ids: each one larger than the last.
#[derive(Debug)]
pub struct WidgetIdSource {
    pub next_raw: u64,
}

impl WidgetIdSource {
    /// A source whose first id is `1`.
    pub fn new() -> (r: WidgetIdSource)
        ensures
            r.next_raw == 1,
    {
        WidgetIdSource { next_raw: 1 }
    }

    /// The next unused id.
    pub fn next(&mut self) -> (r: WidgetId)
        requires
            old(self).next_raw < u64::MAX,
        ensures
            r == WidgetId(old(self).next_raw),
            final(self).next_raw == old(self).next_raw + 1,
    {
        let id = WidgetId(self.next_raw);
        self.next_raw = self.next_raw + 1;
        id
    }
}

/// A request of a widget to take or give up keyboard focus.
#[derive(Clone, Copy, Debug, PartialEq, Eq, Structural)]
pub enum FocusChange {
    /// Give up focus.
    Resign,
    /// Take focus.
    Focus(WidgetId),
    /// Pass focus to the next widget of the focus chain.
    Next,
    /// Pass focus to the previous widget of the focus chain.
    Previous,
}

/// The flags of a node.
#[derive(Clone, Copy, Debug, PartialEq, Eq, Structural)]
pub struct StateFlags {
    /// A scrolling or clipping widget: its children may paint outside it.
    pub is_portal: bool,
    /// Has not yet received `WidgetAdded`.
    pub is_new: bool,
    /// The pointer is over the widget.
    pub is_hot: bool,
    /// The widget holds the pointer (a button is pressed on it).
    pub is_active: bool,
    /// This widget or a descendant is active.
    pub has_active: bool,
    /// This widget or a descendant has keyboard focus.
    pub has_focus: bool,
    pub is_explicitly_disabled: bool,
    /// The value `is_explicitly_disabled` takes at the next disabled pass.
    pub is_explicitly_disabled_new: bool,
    pub ancestor_disabled: bool,
    /// A descendant has a disabled change waiting to be routed.
    pub children_disabled_changed: bool,
    /// Left out of layout and paint, though still in the tree.
    pub is_stashed: bool,
    pub needs_layout: bool,
    pub needs_window_origin: bool,
    /// Layout ran and the parent has not yet placed this widget.
    pub is_expecting_place_child_call: bool,
    pub children_changed: bool,
    pub update_focus_chain: bool,
    pub request_anim: bool,
    pub request_paint: bool,
}

/// The parent's flags after a child was merged into them: each flag that
/// describes the subtree becomes the OR of the parent's and the child's.
pub open spec fn merged_flags(p: StateFlags, c: StateFlags) -> StateFlags {
    StateFlags {
        needs_layout: p.needs_layout || c.needs_layout,
        needs_window_origin: p.needs_window_origin || c.needs_window_origin,
        request_anim: p.request_anim || c.request_anim,
        request_paint: p.request_paint || c.request_paint,
        children_disabled_changed: p.children_disabled_changed || c.children_disabled_changed
            || c.is_explicitly_disabled_new != c.is_explicitly_disabled,
        has_active: p.has_active || c.has_active,
        has_focus: p.has_focus || c.has_focus,
        children_changed: p.children_changed || c.children_changed,
        update_focus_chain: p.update_focus_chain || c.update_focus_chain,
        ..p
    }
}

fn merge_flags(p: StateFlags, c: StateFlags) -> (r: StateFlags)
    ensures
        r == merged_flags(p, c),
{
    StateFlags {
        needs_layout: p.needs_layout || c.needs_layout,
        needs_window_origin: p.needs_window_origin || c.needs_window_origin,
        request_anim: p.request_anim || c.request_anim,
        request_paint: p.request_paint || c.request_paint,
        children_disabled_changed: p.children_disabled_changed || c.children_disabled_changed
            || c.is_explicitly_disabled_new != c.is_explicitly_disabled,
        has_active: p.has_active || c.has_active,
        has_focus: p.has_focus || c.has_focus,
        children_changed: p.children_changed || c.children_changed,
        update_focus_chain: p.update_focus_chain || c.update_focus_chain,
        ..p
    }
}

/// The flags after a widget took (`true`) or released (`false`) the pointer.
pub open spec fn flags_with_active(f: StateFlags, active: bool) -> StateFlags {
    StateFlags { is_active: active, has_active: f.has_active || active, ..f }
}

/// What a pod knows of its widget: geometry, flags and a summary of its
/// descendants.
#[derive(Debug)]
pub struct WidgetState {
    pub id: WidgetId,
    /// Position in the parent's coordinate space, set when the parent places it.
    pub origin: Point,
    /// Position of the parent in window coordinates.
    pub parent_window_origin: Point,
    pub size: Size,
    /// How far painting may reach beyond the layout rectangle.
    pub paint_insets: Insets,
    /// Bounds of what this widget and its children paint, in its own coordinates.
    pub local_paint_rect: Rect,
    /// Distance from the bottom of the widget to its baseline.
    pub baseline_offset: i64,
    pub flags: StateFlags,
    pub request_focus: Option<FocusChange>,
    /// Ids of all descendants (with false positives).
    pub children: Bloom,
    /// Focusable descendants in tab order, as of the last focus-chain pass.
    pub focus_chain: Vec<WidgetId>,
    /// Stamp of the last pass that visited this widget.
    pub last_visit: u64,
}

/// The parent's state after a child was merged into it: its flags are merged
/// and a pending focus request of the child takes precedence.
pub open spec fn merged(p: WidgetState, c: WidgetState) -> WidgetState {
    WidgetState {
        flags: merged_flags(p.flags, c.flags),
        request_focus: if c.request_focus.is_some() {
            c.request_focus
        } else {
            p.request_focus
        },
        ..p
    }
}

/// The child's state after being merged into its parent: its focus request
/// has been handed up.
pub open spec fn merged_child(c: WidgetState) -> WidgetState {
    WidgetState { request_focus: None, ..c }
}

impl StateFlags {
    pub open spec fn spec_clear() -> StateFlags {
        StateFlags {
            is_portal: false,
            is_new: false,
            is_hot: false,
            is_active: false,
            has_active: false,
            has_focus: false,
            is_explicitly_disabled: false,
            is_explicitly_disabled_new: false,
            ancestor_disabled: false,
            children_disabled_changed: false,
            is_stashed: false,
            needs_layout: false,
            needs_window_origin: false,
            is_expecting_place_child_call: false,
            children_changed: false,
            update_focus_chain: false,
            request_anim: false,
            request_paint: false,
        }
    }

    /// All flags clear.
    pub fn clear() -> (r: StateFlags)
        ensures
            r == StateFlags::spec_clear(),
    {
        StateFlags {
            is_portal: false,
            is_new: false,
            is_hot: false,
            is_active: false,
            has_active: false,
            has_focus: false,
            is_explicitly_disabled: false,
            is_explicitly_disabled_new: false,
            ancestor_disabled: false,
            children_disabled_changed: false,
            is_stashed: false,
            needs_layout: false,
            needs_window_origin: false,
            is_expecting_place_child_call: false,
            children_changed: false,
            update_focus_chain: false,
            request_anim: false,
            request_paint: false,
        }
    }
}

impl WidgetState {
    pub open spec fn spec_is_disabled(&self) -> bool {
        self.flags.is_explicitly_disabled || self.flags.ancestor_disabled
    }

    pub open spec fn spec_layout_rect(&self) -> Rect {
        Rect::spec_from_origin_size(self.origin, self.size)
    }

    pub open spec fn spec_paint_rect(&self) -> Rect {
        self.spec_layout_rect().spec_add_insets(self.paint_insets)
    }

    /// A fresh state: new, not laid out, all other flags clear.
    pub fn new(id: WidgetId) -> (r: WidgetState)
        ensures
            r.id == id,
            r.flags == (StateFlags { is_new: true, ..StateFlags::spec_clear() }),
            r.request_focus.is_none(),
            r.children.bits == 0,
            r.focus_chain@.len() == 0,
            r.size == (Size { width: 0, height: 0 }),
            r.origin == (Point { x: 0, y: 0 }),
            r.paint_insets == (Insets { x0: 0, y0: 0, x1: 0, y1: 0 }),
    {
        let mut flags = StateFlags::clear();
        flags.is_new = true;
        WidgetState {
            id,
            origin: Point::new(0, 0),
            parent_window_origin: Point::new(0, 0),
            size: Size::zero(),
            paint_insets: Insets::zero(),
            local_paint_rect: Rect::zero(),
            baseline_offset: 0,
            flags,
            request_focus: None,
            children: Bloom::new(),
            focus_chain: Vec::new(),
            last_visit: 0,
        }
    }

    /// Disabled by itself or by an ancestor.
    pub fn is_disabled(&self) -> (r: bool)
        ensures
            r == self.spec_is_disabled(),
    {
        self.flags.is_explicitly_disabled || self.flags.ancestor_disabled
    }

    /// The rectangle at `origin` with `size`, in the parent's coordinates.
    pub fn layout_rect(&self) -> (r: Rect)
        ensures
            r == self.spec_layout_rect(),
    {
        Rect::from_origin_size(self.origin, self.size)
    }

    /// The layout rectangle grown by the paint insets.
    pub fn paint_rect(&self) -> (r: Rect)
        ensures
            r == self.spec_paint_rect(),
    {
        self.layout_rect().add_insets(self.paint_insets)
    }

    /// This widget's origin in window coordinates.
    pub fn window_origin(&self) -> (r: Point)
        ensures
            r == self.parent_window_origin.spec_plus(self.origin),
    {
        self.parent_window_origin.plus(self.origin)
    }

    /// Fold a child's state into this one after the child was visited.
    pub fn merge_up(&mut self, child_state: &mut WidgetState)
        ensures
            *final(self) == merged(*old(self), *old(child_state)),
            *final(child_state) == merged_child(*old(child_state)),
    {
        self.flags = merge_flags(self.flags, child_state.flags);
        if child_state.request_focus.is_some() {
            self.request_focus = child_state.request_focus;
        }
        child_state.request_focus = None;
    }
}

/// Merging a child never clears a flag of the parent, and every `has_*` flag
/// of the parent becomes the OR of its earlier value and the child's.
/// Merging the same child twice changes nothing more.
pub proof fn lemma_merge_up_monotone(p: WidgetState, c: WidgetState)
    ensures
        merged(p, c).flags.has_active == (p.flags.has_active || c.flags.has_active),
        merged(p, c).flags.has_focus == (p.flags.has_focus || c.flags.has_focus),
        merged(p, c).flags.needs_layout == (p.flags.needs_layout || c.flags.needs_layout),
        merged(p, c).flags.request_anim == (p.flags.request_anim || c.flags.request_anim),
        merged(p, c).flags.children_changed == (p.flags.children_changed
            || c.flags.children_changed),
        merged(p, c).flags.update_focus_chain == (p.flags.update_focus_chain
            || c.flags.update_focus_chain),
        p.flags.children_disabled_changed ==> merged(p, c).flags.children_disabled_changed,
        merged(p, c).id == p.id,
        merged_flags(merged_flags(p.flags, c.flags), c.flags) == merged_flags(p.flags, c.flags),
{
}

} // verus!
