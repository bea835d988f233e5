use vstd::prelude::*;

use crate::event::{DragDropEvent, Position};
use crate::json::{json_array, paths_to_json, texts};

verus! {

/// Where a drag session came from.
#[derive(Clone, Copy, Debug, PartialEq, Eq, Structural)]
pub enum DragClassification {
    /// Content dragged from within this application.
    Internal,
    /// Files or text dragged from the system or another application.
    External,
}

/// The three ways a drop is handled before the platform's default handling runs
/// (which it always does).
#[derive(Clone, Copy, Debug, PartialEq, Eq, Structural)]
pub enum DropRoute {
    /// The paths go to the pending-paths store; the listener is not told.
    StorePaths,
    /// The listener is told of the drop.
    NotifyListener,
    /// The payload is rewritten; the listener is not told.
    RewritePayload,
}

/// The route of a drop, from its classification and whether it carries paths.
pub open spec fn drop_route(classification: DragClassification, has_paths: bool) -> DropRoute {
    match classification {
        DragClassification::Internal => DropRoute::RewritePayload,
        DragClassification::External => if has_paths {
            DropRoute::StorePaths
        } else {
            DropRoute::NotifyListener
        },
    }
}

/// What to do with a drop, before the platform's default handling runs.
#[derive(Clone, Debug, PartialEq, Eq)]
pub enum DropPlan {
    /// Hand this JSON array of the dropped paths to the pending-paths store.
    StorePaths { json: String },
    /// Hand this event to the listener.
    NotifyListener { event: DragDropEvent },
    /// Replace the payload's text representations with the application's own.
    RewritePayload,
}

impl DropPlan {
    /// The route that this plan takes.
    pub open spec fn route(&self) -> DropRoute {
        match self {
            DropPlan::StorePaths { .. } => DropRoute::StorePaths,
            DropPlan::NotifyListener { .. } => DropRoute::NotifyListener,
            DropPlan::RewritePayload => DropRoute::RewritePayload,
        }
    }
}

/// Decides how a drop is handled. An external drop with paths stores them as a JSON array;
/// an external drop without paths tells the listener with a `Drop` event that carries no
/// paths; an internal drop rewrites the payload. Only the external drop without paths
/// reaches the listener.
pub fn plan_drop(classification: DragClassification, paths: Vec<String>, position: Position) -> (r:
    DropPlan)
    ensures
        r.route() == drop_route(classification, paths@.len() > 0),
        match r {
            DropPlan::StorePaths { json } => json@ == json_array(texts(paths@)),
            DropPlan::NotifyListener { event } => event == (DragDropEvent::Drop { paths, position }),
            DropPlan::RewritePayload => true,
        },
{
    match classification {
        DragClassification::Internal => DropPlan::RewritePayload,
        DragClassification::External => {
            if paths.len() > 0 {
                DropPlan::StorePaths { json: paths_to_json(&paths) }
            } else {
                DropPlan::NotifyListener { event: DragDropEvent::Drop { paths, position } }
            }
        },
    }
}

/// Exactly one route is taken for every drop, and which one depends on the classification
/// and on whether paths were collected, nothing else.
pub proof fn drop_routes_partition(classification: DragClassification, has_paths: bool)
    ensures
        (drop_route(classification, has_paths) == DropRoute::StorePaths) <==> (classification
            == DragClassification::External && has_paths),
        (drop_route(classification, has_paths) == DropRoute::NotifyListener) <==> (classification
            == DragClassification::External && !has_paths),
        (drop_route(classification, has_paths) == DropRoute::RewritePayload) <==> (classification
            == DragClassification::Internal),
{
}

} // verus!
