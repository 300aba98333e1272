//! The state of one run: a store of JSON values under dotted keys, and the
//! places on disk that the run works from.

use vstd::prelude::*;
use crate::json::{JsonValue, JsonView};
use crate::store::{entries_view, find_entry, get_entry, put_entry};
use crate::text::{chars_of, string_of_range};
use crate::variables::{scan_token, token_at, Token};

verus! {

/// Bits of the scale factor one, read as an IEEE-754 double.
pub const UNIT_SCALE_BITS: u64 = 0x3FF0_0000_0000_0000;

/// Per-run state shared by all nodes of a workflow.
pub struct Context {
    entries: Vec<(String, JsonValue)>,
    screen_scale_bits: u64,
    pipeline_path: String,
    workflow_path: String,
}

impl Context {
    /// The values that the store holds, by key.
    pub closed spec fn store(&self) -> Map<Seq<char>, JsonView> {
        entries_view(self.entries@)
    }

    /// The directory that the workflow was loaded from.
    pub closed spec fn workflow_dir(&self) -> Seq<char> {
        self.workflow_path@
    }

    /// The directory that pipelines are loaded from.
    pub closed spec fn pipeline_dir(&self) -> Seq<char> {
        self.pipeline_path@
    }

    /// The bits of the screen scale factor.
    pub closed spec fn scale_bits(&self) -> u64 {
        self.screen_scale_bits
    }

    /// A context with an empty store, for a workflow that lives under `path`.
    pub fn new(path: &str) -> (r: Context)
        ensures
            r.store() == Map::<Seq<char>, JsonView>::empty(),
            r.workflow_dir() == path@,
            r.pipeline_dir() == path@,
            r.scale_bits() == UNIT_SCALE_BITS,
    {
        Context {
            entries: Vec::new(),
            screen_scale_bits: UNIT_SCALE_BITS,
            pipeline_path: path.to_owned(),
            workflow_path: path.to_owned(),
        }
    }

    /// The same context with another screen scale, given as the bits of an
    /// IEEE-754 double.
    pub fn with_screen_scale(self, screen_scale_bits: u64) -> (r: Context)
        ensures
            r.store() == self.store(),
            r.workflow_dir() == self.workflow_dir(),
            r.pipeline_dir() == self.pipeline_dir(),
            r.scale_bits() == screen_scale_bits,
    {
        Context {
            entries: self.entries,
            screen_scale_bits,
            pipeline_path: self.pipeline_path,
            workflow_path: self.workflow_path,
        }
    }

    /// The bits of the screen scale factor, an IEEE-754 double.
    pub fn screen_scale_bits(&self) -> (r: u64)
        ensures
            r == self.scale_bits(),
    {
        self.screen_scale_bits
    }

    /// The directory that the workflow was loaded from.
    pub fn workflow_path(&self) -> (r: &str)
        ensures
            r@ == self.workflow_dir(),
    {
        self.workflow_path.as_str()
    }

    /// The directory that pipelines are loaded from.
    pub fn pipeline_path(&self) -> (r: &str)
        ensures
            r@ == self.pipeline_dir(),
    {
        self.pipeline_path.as_str()
    }

    /// Stores `value` under `key`, in place of what was stored there.
    pub fn set_value(&mut self, key: &str, value: JsonValue)
        ensures
            final(self).store() == old(self).store().insert(key@, value@),
            final(self).workflow_dir() == old(self).workflow_dir(),
            final(self).pipeline_dir() == old(self).pipeline_dir(),
            final(self).scale_bits() == old(self).scale_bits(),
    {
        put_entry(&mut self.entries, key, value);
    }

    /// Stores the string `value` under `key`.
    pub fn set_string_value(&mut self, key: &str, value: &str)
        ensures
            final(self).store() == old(self).store().insert(key@, JsonView::String(value@)),
            final(self).workflow_dir() == old(self).workflow_dir(),
            final(self).pipeline_dir() == old(self).pipeline_dir(),
            final(self).scale_bits() == old(self).scale_bits(),
    {
        self.set_value(key, JsonValue::string(value));
    }

    /// A copy of the value stored under `key`.
    pub fn get_value(&self, key: &str) -> (r: Option<JsonValue>)
        ensures
            match r {
                Some(v) => self.store().contains_key(key@) && v@ == self.store()[key@],
                None => !self.store().contains_key(key@),
            },
    {
        get_entry(&self.entries, key)
    }

    /// Whether a value is stored under `key`.
    pub fn contains_key(&self, key: &str) -> (r: bool)
        ensures
            r == self.store().contains_key(key@),
    {
        find_entry(&self.entries, key).is_some()
    }

    /// The value that `key` asks for. Where `key` holds a token, the value is
    /// read under the key of its first token, and a default that is not empty
    /// stands in, as a string, for a value that is absent. Any other `key` is
    /// looked up as it stands.
    pub fn get_value_parse(&self, key: &str) -> (r: Option<JsonValue>)
        ensures
            match r {
                Some(v) => lookup_with_default(self.store(), key@) == Some(v@),
                None => lookup_with_default(self.store(), key@) is None,
            },
    {
        let chars = chars_of(key);
        let mut i: usize = 0;
        while i < chars.len()
            invariant
                i <= chars.len(),
                chars@ == key@,
                forall|j: int| 0 <= j < i ==> token_at(chars@, j) is None,
            decreases chars.len() - i,
        {
            match scan_token(&chars, i) {
                Some(span) => {
                    let name = string_of_range(&chars, span.key_from, span.key_to);
                    proof {
                        lemma_first_token(chars@, 0, i as int);
                    }
                    let found = self.get_value(name.as_str());
                    if found.is_some() {
                        return found;
                    }
                    if span.has_default && span.key_to + 1 < span.end - 1 {
                        let d = string_of_range(&chars, span.key_to + 1, span.end - 1);
                        return Some(JsonValue::String(d));
                    }
                    return None;
                },
                None => {
                    i += 1;
                },
            }
        }
        proof {
            lemma_no_token(chars@, 0);
        }
        self.get_value(key)
    }
}

/// The first token of `s` at or behind index `i`.
pub open spec fn first_token_from(s: Seq<char>, i: int) -> Option<Token>
    decreases s.len() - i,
{
    if i < 0 || i >= s.len() {
        None
    } else {
        match token_at(s, i) {
            Some(t) => Some(t),
            None => first_token_from(s, i + 1),
        }
    }
}

/// What [`Context::get_value_parse`] returns for `key` against `store`.
pub open spec fn lookup_with_default(store: Map<Seq<char>, JsonView>, key: Seq<char>) -> Option<
    JsonView,
> {
    match first_token_from(key, 0) {
        Some(t) => if store.contains_key(t.key) {
            Some(store[t.key])
        } else {
            match t.default {
                Some(d) => if d.len() > 0 {
                    Some(JsonView::String(d))
                } else {
                    None
                },
                None => None,
            }
        },
        None => if store.contains_key(key) {
            Some(store[key])
        } else {
            None
        },
    }
}

proof fn lemma_first_token(s: Seq<char>, i: int, j: int)
    requires
        0 <= i <= j < s.len(),
        forall|k: int| i <= k < j ==> token_at(s, k) is None,
        token_at(s, j) is Some,
    ensures
        first_token_from(s, i) == token_at(s, j),
    decreases j - i,
{
    if i < j {
        lemma_first_token(s, i + 1, j);
    }
}

proof fn lemma_no_token(s: Seq<char>, i: int)
    requires
        0 <= i <= s.len(),
        forall|k: int| i <= k < s.len() ==> token_at(s, k) is None,
    ensures
        first_token_from(s, i) is None,
    decreases s.len() - i,
{
    if i < s.len() {
        lemma_no_token(s, i + 1);
    }
}

} // verus!
