//! An emitter that hands events to the window of an application.

use vstd::prelude::*;
use crate::json::{JsonValue, JsonView};
use crate::notification::emitter::Emitter;

verus! {

/// Publishes events through the handle of an application.
pub struct TauriEmitter<H: Emitter> {
    app_handle: H,
}

impl<H: Emitter> TauriEmitter<H> {
    /// The handle that events are handed to.
    pub closed spec fn handle(&self) -> H {
        self.app_handle
    }

    pub fn new(app_handle: H) -> (r: Self)
        ensures
            r.handle() == app_handle,
    {
        Self { app_handle }
    }
}

impl<H: Emitter> Emitter for TauriEmitter<H> {
    /// The answers of the handle.
    open spec fn answers(
        &self,
        event: Seq<char>,
        payload: JsonView,
        outcome: Result<(), String>,
    ) -> bool {
        self.handle().answers(event, payload, outcome)
    }

    /// Hands the event to the handle; the result is the handle's answer.
    fn emit(&self, event: &str, payload: &JsonValue) -> (r: Result<(), String>)
        ensures
            self.handle().answers(event@, payload@, r),
    {
        self.app_handle.emit(event, payload)
    }
}

} // verus!
