//! Whole-tree consequences of the per-node rules.
//!
//! A tree is given as the node states `states` with `parent[i]` the index of
//! the parent of node `i`; node `0` is the root and every parent comes
//! before its children.
use vstd::prelude::*;
use crate::event::{Command, Event, InternalEvent, Target};
use crate::routing::{spec_route_event, spec_route_to, spec_route_view, RouteView};
use crate::state::{WidgetId, WidgetState};
use crate::widget_pod::{spec_event_delivery, spec_lifecycle_decision, LifecycleAction};
use crate::event::{InternalLifeCycle, LifeCycle};

verus! {

/// The parent links describe a tree rooted at node `0`.
pub open spec fn is_tree(states: Seq<WidgetState>, parent: Seq<int>) -> bool {
    &&& states.len() == parent.len()
    &&& states.len() > 0
    &&& forall|i: int| 0 < i < parent.len() ==> 0 <= #[trigger] parent[i] < i
}

/// Node `a` is a proper ancestor of node `j`.
pub open spec fn is_ancestor(parent: Seq<int>, a: int, j: int) -> bool
    decreases j,
{
    if 0 < j < parent.len() && 0 <= parent[j] < j {
        parent[j] == a || is_ancestor(parent, a, parent[j])
    } else {
        false
    }
}

/// No two nodes share an id.
pub open spec fn unique_ids(states: Seq<WidgetState>) -> bool {
    forall|i: int, j: int|
        0 <= i < states.len() && 0 <= j < states.len() && (#[trigger] states[i]).id == (
        #[trigger] states[j]).id ==> i == j
}

/// Every node's descendant filter reports the id of each of its descendants:
/// the filters have no false negatives.
pub open spec fn filters_complete(states: Seq<WidgetState>, parent: Seq<int>) -> bool {
    forall|a: int, j: int|
        0 <= a < states.len() && 0 <= j < states.len() && #[trigger] is_ancestor(parent, a, j)
            ==> (#[trigger] states[a]).children.spec_may_contain(states[j].id.0)
}

/// The event a targeted command travels as.
pub open spec fn targeted(cmd: Command) -> Event {
    Event::Internal(InternalEvent::TargetedCommand(cmd))
}

/// Node `i` receives the command in its targeted form: it is the root, or its
/// parent received it and passed it on unchanged.
pub open spec fn reaches(states: Seq<WidgetState>, parent: Seq<int>, cmd: Command, i: int) -> bool
    decreases i,
{
    if i == 0 {
        true
    } else if 0 < i < parent.len() && 0 <= parent[i] < i {
        reaches(states, parent, cmd, parent[i]) && spec_event_delivery(
            targeted(cmd),
            states[parent[i]],
            parent[i] == 0,
        ) == Some(targeted(cmd))
    } else {
        false
    }
}

/// Node `i` receives the command and its pod hands the widget the plain
/// command (the event `on_event` delivers to the inner widget).
pub open spec fn delivers(states: Seq<WidgetState>, parent: Seq<int>, cmd: Command, i: int) -> bool {
    &&& reaches(states, parent, cmd, i)
    &&& spec_event_delivery(targeted(cmd), states[i], i == 0) == Some(Event::Command(cmd))
}

proof fn lemma_ancestor_before(parent: Seq<int>, a: int, j: int)
    requires
        is_ancestor(parent, a, j),
    ensures
        0 <= a < j,
    decreases j,
{
    if parent[j] != a {
        lemma_ancestor_before(parent, a, parent[j]);
    }
}

/// The parent of `j` is an ancestor of everything `j` is an ancestor-or-self of.
proof fn lemma_parent_is_ancestor(parent: Seq<int>, j: int, k: int)
    requires
        0 < j < parent.len(),
        0 <= parent[j] < j,
        j == k || is_ancestor(parent, j, k),
    ensures
        is_ancestor(parent, parent[j], k),
    decreases k,
{
    if k != j {
        if parent[k] != j {
            lemma_parent_is_ancestor(parent, j, parent[k]);
        }
    }
}

proof fn lemma_reaches_path(states: Seq<WidgetState>, parent: Seq<int>, cmd: Command, x: WidgetId, k: int, j: int)
    requires
        is_tree(states, parent),
        unique_ids(states),
        filters_complete(states, parent),
        cmd.target == Target::Widget(x),
        0 <= k < states.len(),
        states[k].id == x,
        0 <= j < states.len(),
        j == k || is_ancestor(parent, j, k),
    ensures
        reaches(states, parent, cmd, j),
    decreases j,
{
    if j > 0 {
        let p = parent[j];
        assert(0 <= p < j);
        lemma_parent_is_ancestor(parent, j, k);
        lemma_ancestor_before(parent, p, k);
        lemma_reaches_path(states, parent, cmd, x, k, p);
        assert(states[p].children.spec_may_contain(states[k].id.0));
        assert(states[p].id != x);
        reveal(spec_route_event);
        assert(spec_route_to(targeted(cmd), spec_route_view(states[p]), x, Event::Command(cmd)) == Some(targeted(cmd)));
        assert(spec_route_view(states[p]) == (RouteView { is_hot: states[p].flags.is_hot, ..spec_route_view(states[p]) }));
    }
}

/// A command targeted at the widget `x` is unwrapped by exactly one node, the
/// one with id `x`, whatever the shape of the tree, provided ids are unique
/// and the descendant filters have no false negatives.
pub proof fn lemma_targeted_command_delivered_once(
    states: Seq<WidgetState>,
    parent: Seq<int>,
    cmd: Command,
    x: WidgetId,
    k: int,
)
    requires
        is_tree(states, parent),
        unique_ids(states),
        filters_complete(states, parent),
        cmd.target == Target::Widget(x),
        0 <= k < states.len(),
        states[k].id == x,
    ensures
        delivers(states, parent, cmd, k),
        forall|i: int| 0 <= i < states.len() && #[trigger] delivers(states, parent, cmd, i) ==> i == k,
{
    lemma_reaches_path(states, parent, cmd, x, k, k);
    reveal(spec_route_event);
    assert forall|i: int| 0 <= i < states.len() && #[trigger] delivers(states, parent, cmd, i) implies i
        == k by {
        if states[i].id != x {
            assert(Some(targeted(cmd)) != Some(Event::Command(cmd)));
        }
    }
}

/// A command targeted at an id that no node has is unwrapped nowhere.
pub proof fn lemma_targeted_command_absent(
    states: Seq<WidgetState>,
    parent: Seq<int>,
    cmd: Command,
    x: WidgetId,
)
    requires
        cmd.target == Target::Widget(x),
        forall|i: int| 0 <= i < states.len() ==> (#[trigger] states[i]).id != x,
    ensures
        forall|i: int| 0 <= i < states.len() ==> !#[trigger] delivers(states, parent, cmd, i),
{
    reveal(spec_route_event);
    assert forall|i: int| 0 <= i < states.len() implies !#[trigger] delivers(states, parent, cmd, i) by {
        assert(Some(targeted(cmd)) != Some(Event::Command(cmd)));
    }
}

/// Node `j` is node `i` or one of its descendants.
pub open spec fn in_subtree(parent: Seq<int>, i: int, j: int) -> bool {
    j == i || is_ancestor(parent, i, j)
}

/// Node `i` takes part in a focus change from `from` to `to`: it is the root,
/// or its parent took part and routed the signal on into its children
/// (its descendant filter may hold `from` or `to`).
pub open spec fn focus_visits(
    states: Seq<WidgetState>,
    parent: Seq<int>,
    from: Option<WidgetId>,
    to: Option<WidgetId>,
    i: int,
) -> bool
    decreases i,
{
    if i == 0 {
        true
    } else if 0 < i < parent.len() && 0 <= parent[i] < i {
        focus_visits(states, parent, from, to, parent[i]) && spec_lifecycle_decision(
            states[parent[i]],
            LifeCycle::Internal(InternalLifeCycle::RouteFocusChanged { old: from, new: to }),
        ).0 == LifecycleAction::Recurse
    } else {
        false
    }
}

/// `has_focus` of node `i` after the focus change. A node that takes part
/// has focus when it is `to` itself (and not also `from`), or when a child
/// that took part has it (merged up after each child); unrolled, when some
/// node of its subtree that took part is so. A node that does not take part
/// keeps its flag.
pub open spec fn focus_after(
    states: Seq<WidgetState>,
    parent: Seq<int>,
    from: Option<WidgetId>,
    to: Option<WidgetId>,
    i: int,
) -> bool {
    if focus_visits(states, parent, from, to, i) {
        exists|j: int|
            0 <= j < states.len() && in_subtree(parent, i, j) && focus_visits(states, parent, from, to, j)
                && to == Some(#[trigger] states[j].id) && from != Some(states[j].id)
    } else {
        states[i].flags.has_focus
    }
}

/// Every node that has focus has the node with id `f` in its subtree: the
/// focused nodes are the path from the root to `f` (none when `f` is `None`).
pub open spec fn focus_on_path(states: Seq<WidgetState>, parent: Seq<int>, f: Option<WidgetId>) -> bool {
    forall|i: int|
        0 <= i < states.len() && (#[trigger] states[i]).flags.has_focus ==> exists|j: int|
            0 <= j < states.len() && in_subtree(parent, i, j) && f == Some(#[trigger] states[j].id)
}

/// A node whose subtree holds `from` or `to` takes part in the change.
proof fn lemma_visits_toward(
    states: Seq<WidgetState>,
    parent: Seq<int>,
    from: Option<WidgetId>,
    to: Option<WidgetId>,
    i: int,
    j: int,
)
    requires
        is_tree(states, parent),
        filters_complete(states, parent),
        0 <= i < states.len(),
        0 <= j < states.len(),
        in_subtree(parent, i, j),
        from == Some(states[j].id) || to == Some(states[j].id),
    ensures
        focus_visits(states, parent, from, to, i),
    decreases i,
{
    if i > 0 {
        let p = parent[i];
        assert(0 <= p < i);
        lemma_parent_is_ancestor(parent, i, j);
        lemma_visits_toward(states, parent, from, to, p, j);
        assert(states[p].children.spec_may_contain(states[j].id.0));
    }
}

/// Two nodes whose subtrees hold one node lie on one root path.
proof fn lemma_common_descendant(parent: Seq<int>, a: int, b: int, k: int)
    requires
        in_subtree(parent, a, k),
        in_subtree(parent, b, k),
    ensures
        in_subtree(parent, a, b) || in_subtree(parent, b, a),
    decreases k,
{
    if a != k && b != k {
        if parent[k] != a && parent[k] != b {
            lemma_common_descendant(parent, a, b, parent[k]);
        }
        if parent[k] == a && parent[k] != b {
            assert(is_ancestor(parent, b, parent[k]));
        }
        if parent[k] == b && parent[k] != a {
            assert(is_ancestor(parent, a, parent[k]));
        }
    }
}

/// Focus stays exclusive across routed focus changes: if before a change
/// from `from` to `to` the focused nodes were the path to `from`, then after
/// it they are the path to `to`, so any two focused nodes lie on one root
/// path and at most one of them is focused itself. Ids are unique and the
/// descendant filters have no false negatives.
pub proof fn lemma_focus_exclusive(
    states: Seq<WidgetState>,
    parent: Seq<int>,
    from: Option<WidgetId>,
    to: Option<WidgetId>,
)
    requires
        is_tree(states, parent),
        unique_ids(states),
        filters_complete(states, parent),
        focus_on_path(states, parent, from),
    ensures
        forall|i: int|
            0 <= i < states.len() && #[trigger] focus_after(states, parent, from, to, i) ==> exists|j: int|
                0 <= j < states.len() && in_subtree(parent, i, j) && to == Some(#[trigger] states[j].id),
        forall|a: int, b: int|
            0 <= a < states.len() && 0 <= b < states.len() && #[trigger] focus_after(
                states,
                parent,
                from,
                to,
                a,
            ) && #[trigger] focus_after(states, parent, from, to, b) ==> in_subtree(parent, a, b)
                || in_subtree(parent, b, a),
        forall|a: int, b: int|
            0 <= a < states.len() && 0 <= b < states.len() && #[trigger] focus_after(
                states,
                parent,
                from,
                to,
                a,
            ) && #[trigger] focus_after(states, parent, from, to, b) && to == Some(states[a].id)
                && to == Some(states[b].id) ==> a == b,
{
    assert forall|i: int|
        0 <= i < states.len() && #[trigger] focus_after(states, parent, from, to, i) implies exists|j: int|
        0 <= j < states.len() && in_subtree(parent, i, j) && to == Some(#[trigger] states[j].id) by {
        if !focus_visits(states, parent, from, to, i) {
            assert(states[i].flags.has_focus);
            let j = choose|j: int|
                0 <= j < states.len() && in_subtree(parent, i, j) && from == Some(#[trigger] states[j].id);
            lemma_visits_toward(states, parent, from, to, i, j);
        }
    }
    assert forall|a: int, b: int|
        0 <= a < states.len() && 0 <= b < states.len() && #[trigger] focus_after(
            states,
            parent,
            from,
            to,
            a,
        ) && #[trigger] focus_after(states, parent, from, to, b) implies in_subtree(parent, a, b)
        || in_subtree(parent, b, a) by {
        let ka = choose|j: int|
            0 <= j < states.len() && in_subtree(parent, a, j) && to == Some(#[trigger] states[j].id);
        let kb = choose|j: int|
            0 <= j < states.len() && in_subtree(parent, b, j) && to == Some(#[trigger] states[j].id);
        assert(states[ka].id == states[kb].id);
        lemma_common_descendant(parent, a, b, ka);
    }
}

} // verus!
