use vstd::prelude::*;

use crate::json::texts;
use crate::paths::{collect_paths, paths_of};

verus! {

/// A point of the surface in whole pixels, measured from its top-left corner.
#[derive(Clone, Copy, Debug, PartialEq, Eq, Structural)]
pub struct Position {
    pub x: i32,
    pub y: i32,
}

/// One stage of a drag session, as the listener sees it.
#[derive(Clone, Debug, PartialEq, Eq)]
pub enum DragDropEvent {
    /// The drag entered the surface, carrying these paths.
    Enter { paths: Vec<String>, position: Position },
    /// The drag moved over the surface.
    Over { position: Position },
    /// The drag was dropped on the surface.
    Drop { paths: Vec<String>, position: Position },
    /// The drag left the surface.
    Leave,
}

/// What a drag would do if dropped at its current location.
#[derive(Clone, Copy, Debug, PartialEq, Eq, Structural)]
pub enum DragOperation {
    /// The target refuses the drop.
    Refuse,
    /// The dragged data would be copied.
    Copy,
    /// Any other platform-specific operation, carried through unchanged.
    Other(u64),
}

/// Whether the platform's default handling runs after the listener has seen an event.
#[derive(Clone, Copy, Debug, PartialEq, Eq, Structural)]
pub enum Fallback {
    /// The listener claimed the event: the default handling does not run.
    Suppress,
    /// The listener left the event: the default handling runs.
    RunNative,
}

/// Whether the default handling runs, from whether the listener claimed the event.
pub open spec fn fallback(claimed: bool) -> Fallback {
    if claimed {
        Fallback::Suppress
    } else {
        Fallback::RunNative
    }
}

/// The operation reported for a hover left to the platform whose default handling
/// answered `op`.
pub open spec fn normalized(op: DragOperation) -> DragOperation {
    if op == DragOperation::Refuse {
        DragOperation::Copy
    } else {
        op
    }
}

/// The answer to a drag entering the surface, from what the default handling answered
/// (`None` where it did not run).
pub open spec fn entered_answer(native: Option<DragOperation>) -> DragOperation {
    match native {
        None => DragOperation::Copy,
        Some(op) => op,
    }
}

/// The answer to a drag moving over the surface, from what the default handling answered
/// (`None` where it did not run).
pub open spec fn updated_answer(native: Option<DragOperation>) -> DragOperation {
    match native {
        None => DragOperation::Copy,
        Some(op) => normalized(op),
    }
}

/// The fallback that the listener's answer selects, at every stage but the drop.
pub fn fallback_for(claimed: bool) -> (r: Fallback)
    ensures
        r == fallback(claimed),
{
    if claimed {
        Fallback::Suppress
    } else {
        Fallback::RunNative
    }
}

/// The event for a drag entering the surface at `position`, with the paths collected from
/// the payload's file list.
pub fn enter_event(file_list: &Option<Vec<Vec<u8>>>, position: Position) -> (r: DragDropEvent)
    ensures
        match r {
            DragDropEvent::Enter { paths, position: p } => texts(paths@) == paths_of(*file_list)
                && p == position,
            _ => false,
        },
{
    DragDropEvent::Enter { paths: collect_paths(file_list), position }
}

/// The operation reported for a hover whose event the listener left to the platform:
/// a refusal becomes a copy, so that a drop anywhere on the surface is not turned down,
/// and any other operation stands.
pub fn normalize_operation(op: DragOperation) -> (r: DragOperation)
    ensures
        r == normalized(op),
{
    match op {
        DragOperation::Refuse => DragOperation::Copy,
        other => other,
    }
}

/// The answer to a drag entering the surface. `native` is what the default handling
/// answered, or `None` where it did not run because the listener claimed the event:
/// then the answer is a copy. Otherwise the native answer is returned as it is.
pub fn entered_reply(native: Option<DragOperation>) -> (r: DragOperation)
    ensures
        r == entered_answer(native),
{
    match native {
        None => DragOperation::Copy,
        Some(op) => op,
    }
}

/// The answer to a drag moving over the surface. `native` is what the default handling
/// answered, or `None` where the listener claimed the event: then the answer is a copy.
/// Otherwise the native answer goes through `normalize_operation`.
pub fn updated_reply(native: Option<DragOperation>) -> (r: DragOperation)
    ensures
        r == updated_answer(native),
{
    match native {
        None => DragOperation::Copy,
        Some(op) => normalize_operation(op),
    }
}

/// At the enter, over and leave stages a claimed event suppresses the default handling
/// and is answered with a copy; an event left to the platform runs it, and its answer
/// stands, but that over the surface a refusal becomes a copy.
pub proof fn hover_stages_follow_the_listener(claimed: bool, op: DragOperation)
    ensures
        (fallback(claimed) == Fallback::Suppress) <==> claimed,
        claimed ==> entered_answer(None) == DragOperation::Copy && updated_answer(None)
            == DragOperation::Copy,
        !claimed ==> entered_answer(Some(op)) == op,
        !claimed && op == DragOperation::Refuse ==> updated_answer(Some(op)) == DragOperation::Copy,
        !claimed && op != DragOperation::Refuse ==> updated_answer(Some(op)) == op,
{
}

} // verus!
