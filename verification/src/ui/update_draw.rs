use crate::helpers::helpers::{Rect, DEFAULT_MARGIN};
use crate::serialize_point::SerializablePoint;
use crate::ui::logic_gate_app::Message;
use vstd::prelude::*;

verus! {

/// Whether a mouse event was consumed or left for other widgets.
#[derive(Clone, Copy, PartialEq, Eq, Structural, Debug)]
pub enum EventStatus {
    Captured,
    Ignored,
}

/// What a click on empty canvas does: near the left border it adds a free
/// input point, near the right border a free output point, anywhere else
/// nothing.
pub open spec fn spec_create_node(cursor_position: SerializablePoint, bounds: Rect) -> (
    EventStatus,
    Option<Message>,
) {
    if cursor_position.x <= DEFAULT_MARGIN {
        (EventStatus::Captured, Option::Some(Message::AddInputNode(cursor_position)))
    } else if cursor_position.x >= bounds.width - DEFAULT_MARGIN {
        (EventStatus::Captured, Option::Some(Message::AddOutputNode(cursor_position, bounds)))
    } else {
        (EventStatus::Ignored, Option::None)
    }
}

pub fn create_node(cursor_position: SerializablePoint, bounds: Rect) -> (r: (
    EventStatus,
    Option<Message>,
))
    requires
        bounds.wf(),
    ensures
        r == spec_create_node(cursor_position, bounds),
{
    if cursor_position.x <= DEFAULT_MARGIN {
        return (EventStatus::Captured, Option::Some(Message::AddInputNode(cursor_position)));
    }
    if cursor_position.x >= bounds.width - DEFAULT_MARGIN {
        return (
            EventStatus::Captured,
            Option::Some(Message::AddOutputNode(cursor_position, bounds)),
        );
    }
    (EventStatus::Ignored, Option::None)
}

} // verus!
