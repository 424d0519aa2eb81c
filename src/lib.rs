//! The per-node propagation engine of a retained-mode widget tree.
pub mod geometry;
pub mod bloom;
pub mod state;
pub mod event;
pub mod contexts;
pub mod widget;
pub mod routing;
pub mod widget_pod;
pub mod tree;

pub use crate::widget::Widget;
pub use crate::widget_pod::WidgetPod;
