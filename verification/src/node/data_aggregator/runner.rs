//! The runner that gathers values from the context into one array or object.

use vstd::prelude::*;
use crate::context::{lookup_with_default, Context};
use crate::json::{items_view, lemma_array_view, lemma_object_view, members_view, JsonNumber, JsonValue, JsonView, NumberView};
use crate::node::params::{read_text, read_texts, shape_error, shape_fault, text_at, texts_at, texts_fault, texts_view};
use crate::store::entries_view;
use crate::text::{ascii_lower_seq, decimal, matches_ignore_case, push_decimal};
use crate::types::field::FieldType;
use crate::types::node::{fault_message, CoerceError, CoerceFault, NodeRunner, NodeRunnerController, NodeRunnerFactory};

verus! {

/// What a data aggregator is asked to do.
#[derive(Clone, Debug)]
pub struct DataAggregatorParam {
    /// `array` for an array; anything else for an object.
    pub mode: String,
    /// The keys to read from the context, each as a key or as a token with a
    /// default.
    pub sources: Vec<String>,
    /// In object mode, the names of the members.
    pub keys: Vec<String>,
}

#[derive(Default)]
pub struct DataAggregatorRunner;

/// The value that stands for a source: what the context holds for it, else null.
pub open spec fn gathered(store: Map<Seq<char>, JsonView>, source: Seq<char>) -> JsonView {
    match lookup_with_default(store, source) {
        Some(v) => v,
        None => JsonView::Null,
    }
}

/// The mathematical value of a [`DataAggregatorParam`].
pub struct AggregatorView {
    pub mode: Seq<char>,
    pub sources: Seq<Seq<char>>,
    pub keys: Seq<Seq<char>>,
}

impl View for DataAggregatorParam {
    type V = AggregatorView;

    open spec fn view(&self) -> AggregatorView {
        AggregatorView {
            mode: self.mode@,
            sources: texts_view(self.sources@),
            keys: texts_view(self.keys@),
        }
    }
}

/// The name of member `i` of the object: the key that is given for it, else
/// `item_` and its index.
pub open spec fn member_name(keys: Seq<Seq<char>>, i: int) -> Seq<char> {
    if 0 <= i < keys.len() {
        keys[i]
    } else {
        "item_"@ + decimal(i as nat)
    }
}

/// The value that the sources are aggregated to.
pub open spec fn aggregated(store: Map<Seq<char>, JsonView>, param: AggregatorView) -> JsonView {
    if ascii_lower_seq(param.mode) == "array"@ {
        JsonView::Array(Seq::new(param.sources.len(), |i: int| gathered(store, param.sources[i])))
    } else {
        JsonView::Object(
            Seq::new(
                param.sources.len(),
                |i: int| (member_name(param.keys, i), gathered(store, param.sources[i])),
            ),
        )
    }
}

/// The outputs of a data aggregator: the aggregate as `result` and the number
/// of sources as `count`.
pub open spec fn aggregate_outputs(store: Map<Seq<char>, JsonView>, param: AggregatorView) -> Seq<
    (Seq<char>, JsonView),
> {
    seq![
        ("result"@, aggregated(store, param)),
        ("count"@, JsonView::Number(NumberView::PosInt(param.sources.len() as u64))),
    ]
}

/// What the inputs of a node ask a data aggregator to do: `mode` and `sources`
/// must be there, `keys` may be; else the fault of the first of them that has
/// not its shape.
pub open spec fn requested(m: Map<Seq<char>, JsonView>) -> Result<AggregatorView, CoerceFault> {
    match text_at(m, "mode"@) {
        None => Err(shape_fault("mode"@, "expected a string"@)),
        Some(mode) => match texts_at(m, "sources"@) {
            Err(_) => Err(texts_fault(m, "sources"@)),
            Ok(None) => Err(shape_fault("sources"@, "expected a list of strings"@)),
            Ok(Some(sources)) => match texts_at(m, "keys"@) {
                Err(_) => Err(texts_fault(m, "keys"@)),
                Ok(None) => Ok(AggregatorView { mode, sources, keys: Seq::empty() }),
                Ok(Some(keys)) => Ok(AggregatorView { mode, sources, keys }),
            },
        },
    }
}

/// Whether `outcome` is what a data aggregator returns on the inputs `m`: the
/// outputs of what they ask for, else the sentence of their fault.
pub open spec fn answered(
    store: Map<Seq<char>, JsonView>,
    m: Map<Seq<char>, JsonView>,
    outcome: Result<Option<Vec<(String, JsonValue)>>, String>,
) -> bool {
    match requested(m) {
        Ok(p) => outcome matches Ok(Some(out)) && members_view(out@) == aggregate_outputs(store, p),
        Err(e) => outcome matches Err(text) && text@ == fault_message(e, FieldType::Object),
    }
}

impl DataAggregatorParam {
    /// Reads the parameters from the inputs of a node: `mode` and `sources` must
    /// be there, `keys` may be.
    pub fn from_params(params: &Vec<(String, JsonValue)>) -> (r: Result<
        DataAggregatorParam,
        CoerceError,
    >)
        ensures
            match requested(entries_view(params@)) {
                Ok(p) => r matches Ok(x) && x@ == p,
                Err(e) => r matches Err(x) && x@ == e,
            },
    {
        let mode = match read_text(params, "mode") {
            Some(m) => m,
            None => {
                return Err(shape_error("mode", "expected a string"));
            },
        };
        let sources = match read_texts(params, "sources") {
            Ok(Some(s)) => s,
            Ok(None) => {
                return Err(shape_error("sources", "expected a list of strings"));
            },
            Err(e) => {
                return Err(e);
            },
        };
        let keys = match read_texts(params, "keys") {
            Ok(Some(k)) => k,
            Ok(None) => {
                let k: Vec<String> = Vec::new();
                assert(texts_view(k@) =~= Seq::empty());
                k
            },
            Err(e) => {
                return Err(e);
            },
        };
        Ok(DataAggregatorParam { mode, sources, keys })
    }
}

/// The name of member `i` of the object.
pub fn member_key(keys: &Vec<String>, i: usize) -> (r: String)
    ensures
        r@ == member_name(texts_view(keys@), i as int),
{
    if i < keys.len() {
        keys[i].clone()
    } else {
        let mut r = String::new();
        r.push_str("item_");
        push_decimal(&mut r, i as u64);
        assert(r@ =~= "item_"@ + decimal(i as nat));
        r
    }
}

impl DataAggregatorRunner {
    pub fn new() -> Self {
        DataAggregatorRunner
    }

    /// Gathers the sources from the context. Returns the aggregate as `result`
    /// and the number of sources as `count`.
    pub fn aggregate(ctx: &Context, param: &DataAggregatorParam) -> (r: Vec<(String, JsonValue)>)
        ensures
            members_view(r@) == aggregate_outputs(ctx.store(), param@),
    {
        let n = param.sources.len();
        let as_array = matches_ignore_case(param.mode.as_str(), "array");
        let mut values: Vec<JsonValue> = Vec::new();
        let mut members: Vec<(String, JsonValue)> = Vec::new();
        let mut i: usize = 0;
        while i < n
            invariant
                i <= n,
                n == param.sources@.len(),
                values@.len() == i,
                members@.len() == i,
                forall|k: int|
                    0 <= k < i ==> (#[trigger] values@[k])@ == gathered(
                        ctx.store(),
                        param.sources@[k]@,
                    ),
                forall|k: int|
                    0 <= k < i ==> (#[trigger] members@[k]).0@ == member_name(
                        texts_view(param.keys@),
                        k,
                    )
                        && members@[k].1@ == gathered(ctx.store(), param.sources@[k]@),
            decreases n - i,
        {
            let value = match ctx.get_value_parse(param.sources[i].as_str()) {
                Some(v) => v,
                None => JsonValue::Null,
            };
            let copy = value.duplicate();
            values.push(value);
            members.push((member_key(&param.keys, i), copy));
            i += 1;
        }
        let result = if as_array {
            let v = JsonValue::Array(values);
            proof {
                lemma_array_view(v);
                assert(v@->Array_0 =~= aggregated(ctx.store(), param@)->Array_0);
            }
            v
        } else {
            let v = JsonValue::Object(members);
            proof {
                lemma_object_view(v);
                assert(v@->Object_0 =~= aggregated(ctx.store(), param@)->Object_0);
            }
            v
        };
        let mut output: Vec<(String, JsonValue)> = Vec::new();
        output.push(("result".to_owned(), result));
        output.push(("count".to_owned(), JsonValue::Number(JsonNumber::PosInt(n as u64))));
        proof {
            reveal_strlit("result");
            reveal_strlit("count");
            assert(members_view(output@) =~= aggregate_outputs(ctx.store(), param@));
        }
        output
    }
}

impl NodeRunner for DataAggregatorRunner {
    open spec fn yields(
        &self,
        before: Context,
        param: Map<Seq<char>, JsonView>,
        outcome: Result<Option<Vec<(String, JsonValue)>>, String>,
        after: Context,
    ) -> bool {
        after == before && answered(before.store(), param, outcome)
    }

    fn run(&mut self, ctx: &mut Context, param: Vec<(String, JsonValue)>) -> (r: Result<
        Option<Vec<(String, JsonValue)>>,
        String,
    >)
        ensures
            *final(ctx) == *old(ctx),
            answered(old(ctx).store(), entries_view(param@), r),
    {
        match DataAggregatorParam::from_params(&param) {
            Ok(p) => Ok(Some(DataAggregatorRunner::aggregate(ctx, &p))),
            Err(e) => Err(e.message(FieldType::Object)),
        }
    }
}

#[derive(Default)]
pub struct DataAggregatorRunnerFactory;

impl DataAggregatorRunnerFactory {
    pub fn new() -> Self {
        DataAggregatorRunnerFactory
    }
}

impl NodeRunnerFactory for DataAggregatorRunnerFactory {
    type Runner = NodeRunnerController<DataAggregatorRunner>;

    /// A runner that is new.
    open spec fn makes(&self, runner: NodeRunnerController<DataAggregatorRunner>) -> bool {
        runner.runner() == DataAggregatorRunner
    }

    fn create(&self) -> (r: NodeRunnerController<DataAggregatorRunner>)
        ensures
            r.runner() == DataAggregatorRunner,
    {
        NodeRunnerController::new(DataAggregatorRunner::new())
    }
}

} // verus!
