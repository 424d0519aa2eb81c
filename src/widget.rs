//! The capabilities every widget offers to the passes.
use vstd::prelude::*;
use crate::contexts::{ChildSummary, Env, EventCtx, LayoutCtx, LifeCycleCtx, PaintCtx};
use crate::event::{BoxConstraints, Event, LifeCycle, StatusChange};
use crate::geometry::Size;

verus! {

/// A widget: the local behaviour of one node of the tree.
///
/// A container holds a `WidgetPod` for each child and calls the child's
/// pass methods from its own; the pods do all cross-widget bookkeeping.
pub trait Widget {
    /// Handle an event.
    fn on_event(&mut self, ctx: &mut EventCtx, event: &Event, env: &Env);

    /// React to a change of the widget's own status (hot, focus).
    fn on_status_change(&mut self, ctx: &mut LifeCycleCtx, event: &StatusChange, env: &Env);

    /// Handle a lifecycle signal.
    fn lifecycle(&mut self, ctx: &mut LifeCycleCtx, event: &LifeCycle, env: &Env);

    /// Choose a size within the constraints, laying out and placing children.
    fn layout(&mut self, ctx: &mut LayoutCtx, bc: &BoxConstraints, env: &Env) -> Size;

    /// Draw the widget and its children.
    fn paint(&mut self, ctx: &mut PaintCtx, env: &Env);

    /// One summary per direct child, in order.
    fn children(&self) -> Vec<ChildSummary>;
}

/// A boxed, type-erased widget behaves as the widget inside.
impl Widget for Box<dyn Widget> {
    fn on_event(&mut self, ctx: &mut EventCtx, event: &Event, env: &Env) {
        (**self).on_event(ctx, event, env)
    }

    fn on_status_change(&mut self, ctx: &mut LifeCycleCtx, event: &StatusChange, env: &Env) {
        (**self).on_status_change(ctx, event, env)
    }

    fn lifecycle(&mut self, ctx: &mut LifeCycleCtx, event: &LifeCycle, env: &Env) {
        (**self).lifecycle(ctx, event, env)
    }

    fn layout(&mut self, ctx: &mut LayoutCtx, bc: &BoxConstraints, env: &Env) -> Size {
        (**self).layout(ctx, bc, env)
    }

    fn paint(&mut self, ctx: &mut PaintCtx, env: &Env) {
        (**self).paint(ctx, env)
    }

    fn children(&self) -> Vec<ChildSummary> {
        (**self).children()
    }
}

} // verus!
