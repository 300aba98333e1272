//! Events about a workflow as a whole.

use vstd::prelude::*;
use crate::json::{lemma_object_view, members_view, JsonValue, JsonView};

verus! {

/// Name of the channel that carries workflow events.
pub const WORKFLOW_EVENT: &'static str = "workflow";

#[derive(Clone, Copy, Debug, PartialEq, Eq, Structural)]
pub enum WorkflowStatus {
    Running,
    Paused,
    Finished,
    Cancelled,
}

#[derive(Clone, Copy, Debug, PartialEq, Eq, Structural)]
pub struct WorkflowEventPayload {
    pub status: WorkflowStatus,
}

impl WorkflowStatus {
    /// The status as it is written in an event.
    pub fn as_str(&self) -> (r: &'static str)
        ensures
            r@ == match self {
                WorkflowStatus::Running => "running"@,
                WorkflowStatus::Paused => "paused"@,
                WorkflowStatus::Finished => "finished"@,
                WorkflowStatus::Cancelled => "cancelled"@,
            },
    {
        match self {
            WorkflowStatus::Running => "running",
            WorkflowStatus::Paused => "paused",
            WorkflowStatus::Finished => "finished",
            WorkflowStatus::Cancelled => "cancelled",
        }
    }
}

/// The status as it is written in an event.
pub open spec fn status_text(status: WorkflowStatus) -> Seq<char> {
    match status {
        WorkflowStatus::Running => "running"@,
        WorkflowStatus::Paused => "paused"@,
        WorkflowStatus::Finished => "finished"@,
        WorkflowStatus::Cancelled => "cancelled"@,
    }
}

impl WorkflowEventPayload {
    /// The event as a JSON object: its status.
    pub fn to_json(&self) -> (r: JsonValue)
        ensures
            r@ == JsonView::Object(seq![("status"@, JsonView::String(status_text(self.status)))]),
    {
        let mut members: Vec<(String, JsonValue)> = Vec::new();
        members.push(("status".to_owned(), JsonValue::string(self.status.as_str())));
        let r = JsonValue::Object(members);
        proof {
            lemma_object_view(r);
            assert(members_view(r->Object_0@) =~= seq![
                ("status"@, JsonView::String(status_text(self.status))),
            ]);
        }
        r
    }
}

} // verus!
