//! Events about one node.

use vstd::prelude::*;
use crate::json::{lemma_object_view, members_view, JsonValue, JsonView};

verus! {

/// Name of the channel that carries node events.
pub const NODE_EVENT: &'static str = "node";

/// What is published when a node changes its state.
#[derive(Clone, Debug)]
pub struct NodeEventPayload {
    /// One of `running`, `waiting`, `done`, `skip`, `error`, `cancel`.
    pub status: String,
    pub name: String,
    pub result: Option<JsonValue>,
}

/// The mathematical value of a [`NodeEventPayload`].
pub struct NodeEventView {
    pub status: Seq<char>,
    pub name: Seq<char>,
    pub result: Option<JsonView>,
}

/// The view of a result that may be absent.
pub open spec fn result_view(result: Option<JsonValue>) -> Option<JsonView> {
    match result {
        Some(v) => Some(v@),
        None => None,
    }
}

impl View for NodeEventPayload {
    type V = NodeEventView;

    open spec fn view(&self) -> NodeEventView {
        NodeEventView { status: self.status@, name: self.name@, result: result_view(self.result) }
    }
}

impl NodeEventPayload {
    pub fn new(status: String, name: String, result: Option<JsonValue>) -> (r: NodeEventPayload)
        ensures
            r@ == (NodeEventView { status: status@, name: name@, result: result_view(result) }),
    {
        NodeEventPayload { status, name, result }
    }

    pub fn running(name: String) -> (r: NodeEventPayload)
        ensures
            r@ == (NodeEventView { status: "running"@, name: name@, result: None }),
    {
        NodeEventPayload::new("running".to_owned(), name, None)
    }

    pub fn waiting(name: String) -> (r: NodeEventPayload)
        ensures
            r@ == (NodeEventView { status: "waiting"@, name: name@, result: None }),
    {
        NodeEventPayload::new("waiting".to_owned(), name, None)
    }

    pub fn skip(name: String, result: Option<JsonValue>) -> (r: NodeEventPayload)
        ensures
            r@ == (NodeEventView { status: "skip"@, name: name@, result: result_view(result) }),
    {
        NodeEventPayload::new("skip".to_owned(), name, result)
    }

    pub fn success(name: String, result: Option<JsonValue>) -> (r: NodeEventPayload)
        ensures
            r@ == (NodeEventView { status: "done"@, name: name@, result: result_view(result) }),
    {
        NodeEventPayload::new("done".to_owned(), name, result)
    }

    pub fn error(name: String, result: Option<JsonValue>) -> (r: NodeEventPayload)
        ensures
            r@ == (NodeEventView { status: "error"@, name: name@, result: result_view(result) }),
    {
        NodeEventPayload::new("error".to_owned(), name, result)
    }

    /// The event of a node that was cancelled; it names every node.
    pub fn cancel() -> (r: NodeEventPayload)
        ensures
            r@ == (NodeEventView { status: "cancel"@, name: "*"@, result: None }),
    {
        NodeEventPayload::new("cancel".to_owned(), "*".to_owned(), None)
    }
}

/// The JSON object that an event is published as: its status, its name and
/// its result, which is null where there is none.
pub open spec fn event_json(e: NodeEventView) -> JsonView {
    JsonView::Object(
        seq![
            ("status"@, JsonView::String(e.status)),
            ("name"@, JsonView::String(e.name)),
            (
                "result"@,
                match e.result {
                    Some(v) => v,
                    None => JsonView::Null,
                },
            ),
        ],
    )
}

impl NodeEventPayload {
    /// The event as a JSON object.
    pub fn to_json(&self) -> (r: JsonValue)
        ensures
            r@ == event_json(self@),
    {
        let mut members: Vec<(String, JsonValue)> = Vec::new();
        members.push(("status".to_owned(), JsonValue::String(self.status.clone())));
        members.push(("name".to_owned(), JsonValue::String(self.name.clone())));
        let result = match &self.result {
            Some(v) => v.duplicate(),
            None => JsonValue::Null,
        };
        members.push(("result".to_owned(), result));
        let r = JsonValue::Object(members);
        proof {
            lemma_object_view(r);
            assert(members_view(r->Object_0@) =~= event_json(self@)->Object_0);
        }
        r
    }
}

} // verus!
