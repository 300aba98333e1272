//! Where events go: any number of backends, each of which gets every event.

use vstd::prelude::*;
use crate::json::{JsonValue, JsonView};

verus! {

/// A backend that publishes events.
pub trait Emitter {
    /// What the backend says of itself: whether `outcome` is an answer that it
    /// gives to the event. A backend that says nothing allows every answer.
    open spec fn answers(
        &self,
        event: Seq<char>,
        payload: JsonView,
        outcome: Result<(), String>,
    ) -> bool {
        true
    }

    fn emit(&self, event: &str, payload: &JsonValue) -> (r: Result<(), String>)
        ensures
            self.answers(event@, payload@, r),
    ;
}

/// Hands every event to each of its backends, in the order they were added.
pub struct NotificationEmitter<E: Emitter> {
    emitters: Vec<E>,
}

impl<E: Emitter> NotificationEmitter<E> {
    /// The backends, in the order they were added.
    pub closed spec fn backends(&self) -> Seq<E> {
        self.emitters@
    }

    /// An emitter without backends.
    pub fn new() -> (r: Self)
        ensures
            r.backends().len() == 0,
    {
        Self { emitters: Vec::new() }
    }

    /// The same emitter with one backend more.
    pub fn with_emitter(self, emitter: E) -> (r: Self)
        ensures
            r.backends() == self.backends().push(emitter),
    {
        let mut emitters = self.emitters;
        emitters.push(emitter);
        Self { emitters }
    }

    /// How many backends there are.
    pub fn len(&self) -> (n: usize)
        ensures
            n == self.backends().len(),
    {
        self.emitters.len()
    }

    /// Hands the event to the backends, one after the other, and stops at the
    /// first that fails; its error is the result. Without backends the event
    /// goes nowhere and the result is `Ok`.
    ///
    /// So `Ok` is the answer of every backend where the result is `Ok`; an
    /// error is the answer of one backend, and those before it answered `Ok`.
    pub fn emit(&self, event: &str, payload: &JsonValue) -> (r: Result<(), String>)
        ensures
            self.backends().len() == 0 ==> r is Ok,
            r is Ok ==> forall|k: int|
                0 <= k < self.backends().len() ==> (#[trigger] self.backends()[k]).answers(
                    event@,
                    payload@,
                    Ok(()),
                ),
            r is Err ==> exists|i: int|
                0 <= i < self.backends().len() && (#[trigger] self.backends()[i]).answers(
                    event@,
                    payload@,
                    r,
                ) && forall|k: int|
                    0 <= k < i ==> (#[trigger] self.backends()[k]).answers(
                        event@,
                        payload@,
                        Ok(()),
                    ),
    {
        let mut i: usize = 0;
        while i < self.emitters.len()
            invariant
                i <= self.emitters@.len(),
                forall|k: int|
                    0 <= k < i ==> (#[trigger] self.emitters@[k]).answers(
                        event@,
                        payload@,
                        Ok(()),
                    ),
            decreases self.emitters@.len() - i,
        {
            let outcome = self.emitters[i].emit(event, payload);
            let ghost answer = outcome;
            match outcome {
                Ok(()) => {
                    assert(answer->Ok_0 == ());
                },
                Err(e) => {
                    let r: Result<(), String> = Err(e);
                    assert(r == answer);
                    assert(self.backends()[i as int].answers(event@, payload@, r));
                    return r;
                },
            }
            i += 1;
        }
        Ok(())
    }
}

} // verus!
