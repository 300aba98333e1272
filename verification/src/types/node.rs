//! What a node kind declares of itself, what a runner is, and the adapter
//! that stands between the raw inputs of a node and its runner.

use vstd::prelude::*;
use crate::context::Context;
use crate::json::{JsonNumber, JsonValue, JsonView, NumberView};
use crate::number::{float_kind, float_syntax, parse_i64, parsed_i64, FloatSyntax};
use crate::store::{entries_view, get_entry, put_entry};
use crate::text::{ascii_lower_seq, chars_of, lowercase, str_eq};
use crate::types::field::{fields_view, FieldType, FieldView, SchemaField};
use crate::variables::{parse_variables, resolve};

verus! {

/// A text in Chinese and in English.
#[derive(Clone, Default, Debug)]
pub struct I18nValue {
    pub zh: String,
    pub en: String,
}

/// The mathematical value of an [`I18nValue`].
pub struct I18nView {
    pub zh: Seq<char>,
    pub en: Seq<char>,
}

impl View for I18nValue {
    type V = I18nView;

    open spec fn view(&self) -> I18nView {
        I18nView { zh: self.zh@, en: self.en@ }
    }
}

/// The view of a text in two languages that may be absent.
pub open spec fn i18n_option_view(t: Option<I18nValue>) -> Option<I18nView> {
    match t {
        Some(v) => Some(v@),
        None => None,
    }
}

impl I18nValue {
    pub fn new(zh: &str, en: &str) -> (r: I18nValue)
        ensures
            r@ == (I18nView { zh: zh@, en: en@ }),
    {
        I18nValue { zh: zh.to_owned(), en: en.to_owned() }
    }

    /// A copy of the text.
    pub fn duplicate(&self) -> (r: I18nValue)
        ensures
            r@ == self@,
    {
        I18nValue { zh: self.zh.clone(), en: self.en.clone() }
    }
}

/// A node kind as a record.
#[derive(Clone, Default, Debug)]
pub struct NodeType {
    pub action_type: String,
    pub name: I18nValue,
    pub icon: String,
    pub category: Option<I18nValue>,
    pub description: Option<I18nValue>,
    pub output_schema: Vec<SchemaField>,
    pub input_schema: Vec<SchemaField>,
}

/// What a node kind declares of itself.
pub trait NodeDefine {
    /// What the kind says of its action type: whether `action_type` is it. A
    /// kind that says nothing allows every text.
    open spec fn names(&self, action_type: Seq<char>) -> bool {
        true
    }

    /// What the kind says of its outputs: whether `fields` are the outputs of
    /// a node of this kind whose inputs are `input`. A kind that says nothing
    /// allows every list.
    open spec fn declares(&self, input: Map<Seq<char>, JsonView>, fields: Seq<FieldView>) -> bool {
        true
    }

    fn action_type(&self) -> (r: String)
        ensures
            self.names(r@),
    ;

    fn name(&self) -> I18nValue;

    fn icon(&self) -> String;

    fn category(&self) -> Option<I18nValue>;

    fn description(&self) -> Option<I18nValue>;

    /// The outputs of a node of this kind whose inputs are `input`.
    fn output_schema(&self, input: &Vec<(String, JsonValue)>) -> (r: Vec<SchemaField>)
        ensures
            self.declares(entries_view(input@), fields_view(r@)),
    ;

    fn input_schema(&self) -> Vec<SchemaField>;
}

/// What a node kind does. A runner is made anew for every execution of a node.
pub trait NodeRunner {
    /// What the runner says of itself: whether, run on the inputs `param` in
    /// the context `before`, it may return `outcome` and leave the context
    /// `after`. A runner that says nothing allows everything.
    open spec fn yields(
        &self,
        before: Context,
        param: Map<Seq<char>, JsonView>,
        outcome: Result<Option<Vec<(String, JsonValue)>>, String>,
        after: Context,
    ) -> bool {
        true
    }

    /// Runs on the coerced inputs; returns the outputs, if there are any.
    fn run(&mut self, ctx: &mut Context, param: Vec<(String, JsonValue)>) -> (r: Result<
        Option<Vec<(String, JsonValue)>>,
        String,
    >)
        ensures
            old(self).yields(*old(ctx), entries_view(param@), r, *final(ctx)),
    ;
}

/// A runner behind its adapter.
pub trait NodeRunnerControl {
    fn run(
        &mut self,
        ctx: &mut Context,
        node_name: &str,
        params: Vec<(String, JsonValue)>,
        schema_field: &Vec<SchemaField>,
    ) -> Result<Option<Vec<(String, JsonValue)>>, String>;
}

/// Makes the runners of one node kind.
pub trait NodeRunnerFactory {
    type Runner: NodeRunnerControl;

    /// What the factory says of its runners: whether `runner` is one that it
    /// makes. A factory that says nothing allows every runner.
    open spec fn makes(&self, runner: Self::Runner) -> bool {
        true
    }

    fn create(&self) -> (r: Self::Runner)
        ensures
            self.makes(r),
    ;
}

/// Why an input could not be brought to the type of its field.
#[derive(Debug)]
pub enum CoerceError {
    /// The field is a number and the text writes none: field and text.
    UnparsableNumber(String, String),
    /// The field is a boolean and the text writes none: field and text.
    UnparsableBoolean(String, String),
    /// The field is an array or an object and the input is a bare string: field
    /// and text.
    NonScalarExpected(String, String),
    /// The inputs do not have the shape that the runner asks for.
    ParamShapeMismatch(String),
}

/// The mathematical value of a [`CoerceError`].
pub enum CoerceFault {
    UnparsableNumber(Seq<char>, Seq<char>),
    UnparsableBoolean(Seq<char>, Seq<char>),
    NonScalarExpected(Seq<char>, Seq<char>),
    ParamShapeMismatch(Seq<char>),
}

impl View for CoerceError {
    type V = CoerceFault;

    open spec fn view(&self) -> CoerceFault {
        match self {
            CoerceError::UnparsableNumber(f, t) => CoerceFault::UnparsableNumber(f@, t@),
            CoerceError::UnparsableBoolean(f, t) => CoerceFault::UnparsableBoolean(f@, t@),
            CoerceError::NonScalarExpected(f, t) => CoerceFault::NonScalarExpected(f@, t@),
            CoerceError::ParamShapeMismatch(t) => CoerceFault::ParamShapeMismatch(t@),
        }
    }
}

/// The sentence that an error reads.
pub open spec fn fault_message(e: CoerceFault, kind: FieldType) -> Seq<char> {
    match e {
        CoerceFault::UnparsableNumber(f, t) => "Field '"@ + f + "' cannot be parsed as a number: "@
            + t,
        CoerceFault::UnparsableBoolean(f, t) => "Field '"@ + f
            + "' cannot be parsed as a boolean: "@ + t,
        CoerceFault::NonScalarExpected(f, t) => if kind == FieldType::Array {
            "Field '"@ + f + "' cannot be parsed as an array: "@ + t
        } else {
            "Field '"@ + f + "' cannot be parsed as an object: "@ + t
        },
        CoerceFault::ParamShapeMismatch(t) => "Failed to parse node parameters: "@ + t,
    }
}

impl CoerceError {
    /// The error as a sentence; `kind` is the type of the field it is about.
    pub fn message(&self, kind: FieldType) -> (r: String)
        ensures
            r@ == fault_message(self@, kind),
    {
        let mut r = String::new();
        match self {
            CoerceError::UnparsableNumber(f, t) => {
                r.push_str("Field '");
                r.push_str(f.as_str());
                r.push_str("' cannot be parsed as a number: ");
                r.push_str(t.as_str());
            },
            CoerceError::UnparsableBoolean(f, t) => {
                r.push_str("Field '");
                r.push_str(f.as_str());
                r.push_str("' cannot be parsed as a boolean: ");
                r.push_str(t.as_str());
            },
            CoerceError::NonScalarExpected(f, t) => {
                r.push_str("Field '");
                r.push_str(f.as_str());
                if kind == FieldType::Array {
                    r.push_str("' cannot be parsed as an array: ");
                } else {
                    r.push_str("' cannot be parsed as an object: ");
                }
                r.push_str(t.as_str());
            },
            CoerceError::ParamShapeMismatch(t) => {
                r.push_str("Failed to parse node parameters: ");
                r.push_str(t.as_str());
            },
        }
        assert(r@ =~= fault_message(self@, kind));
        r
    }
}

/// The number that a text writes: a whole number where it writes one that fits
/// in 64 bits, else a decimal number kept as its text, and null for the words
/// that name no finite number.
pub open spec fn number_of(text: Seq<char>) -> Option<JsonView> {
    match parsed_i64(text) {
        Some(i) => Some(
            JsonView::Number(
                if i < 0 {
                    NumberView::NegInt(i)
                } else {
                    NumberView::PosInt(i as u64)
                },
            ),
        ),
        None => match float_syntax(text) {
            Some(FloatSyntax::Number) => Some(JsonView::Number(NumberView::Float(text))),
            Some(FloatSyntax::Special) => Some(JsonView::Null),
            None => None,
        },
    }
}

/// The truth value that a text writes: `true` or `1`, `false` or `0`, in
/// either case.
pub open spec fn truth_of(text: Seq<char>) -> Option<bool> {
    let low = ascii_lower_seq(text);
    if low == "true"@ || low == "1"@ {
        Some(true)
    } else if low == "false"@ || low == "0"@ {
        Some(false)
    } else {
        None
    }
}

/// The value that a resolved text gives for a field.
pub open spec fn coerced_text(field: SchemaField, text: Seq<char>) -> Result<JsonView, CoerceFault> {
    match field.field_type {
        FieldType::String | FieldType::Image | FieldType::File => Ok(JsonView::String(text)),
        FieldType::Number => match number_of(text) {
            Some(v) => Ok(v),
            None => Err(CoerceFault::UnparsableNumber(field.name@, text)),
        },
        FieldType::Boolean => match truth_of(text) {
            Some(b) => Ok(JsonView::Bool(b)),
            None => Err(CoerceFault::UnparsableBoolean(field.name@, text)),
        },
        FieldType::Array | FieldType::Object => Err(
            CoerceFault::NonScalarExpected(field.name@, text),
        ),
    }
}

/// The value that a field starts from: the raw input under its name, else its
/// default as a string, else null.
pub open spec fn starting_value(raw: Map<Seq<char>, JsonView>, field: SchemaField) -> JsonView {
    if raw.contains_key(field.name@) {
        raw[field.name@]
    } else {
        match field.default {
            Some(d) => JsonView::String(d@),
            None => JsonView::Null,
        }
    }
}

/// The value that a field gets: a string has its variables resolved and is
/// brought to the type of the field; any other value stays as it is.
pub open spec fn coerced(field: SchemaField, store: Map<Seq<char>, JsonView>, current: JsonView) -> Result<
    JsonView,
    CoerceFault,
> {
    match current {
        JsonView::String(s) => coerced_text(field, resolve(store, s)),
        _ => Ok(current),
    }
}

/// The inputs after the first `j` fields of the schema were coerced, one
/// after the other, each written back under its name; or the error of the first
/// field that could not be.
pub open spec fn coerced_inputs(
    store: Map<Seq<char>, JsonView>,
    raw: Map<Seq<char>, JsonView>,
    schema: Seq<SchemaField>,
    j: nat,
) -> Result<Map<Seq<char>, JsonView>, CoerceFault>
    decreases j,
{
    if j == 0 || j > schema.len() {
        Ok(raw)
    } else {
        match coerced_inputs(store, raw, schema, (j - 1) as nat) {
            Err(e) => Err(e),
            Ok(m) => match coerced(schema[j - 1], store, starting_value(m, schema[j - 1])) {
                Ok(v) => Ok(m.insert(schema[j - 1].name@, v)),
                Err(e) => Err(e),
            },
        }
    }
}

/// Brings a resolved text to the type of a field.
pub fn coerce_text(field: &SchemaField, text: String) -> (r: Result<JsonValue, CoerceError>)
    ensures
        match coerced_text(*field, text@) {
            Ok(v) => r matches Ok(x) && x@ == v,
            Err(e) => r matches Err(x) && x@ == e,
        },
{
    match field.field_type {
        FieldType::String | FieldType::Image | FieldType::File => Ok(JsonValue::String(text)),
        FieldType::Number => {
            let chars = chars_of(text.as_str());
            match parse_i64(&chars) {
                Some(i) => Ok(JsonValue::Number(JsonNumber::from_i64(i))),
                None => match float_kind(&chars) {
                    Some(FloatSyntax::Number) => Ok(JsonValue::Number(JsonNumber::Float(text))),
                    Some(FloatSyntax::Special) => Ok(JsonValue::Null),
                    None => Err(CoerceError::UnparsableNumber(field.name.clone(), text)),
                },
            }
        },
        FieldType::Boolean => {
            let low = lowercase(text.as_str());
            if str_eq(low.as_str(), "true") || str_eq(low.as_str(), "1") {
                Ok(JsonValue::Bool(true))
            } else if str_eq(low.as_str(), "false") || str_eq(low.as_str(), "0") {
                Ok(JsonValue::Bool(false))
            } else {
                Err(CoerceError::UnparsableBoolean(field.name.clone(), text))
            }
        },
        FieldType::Array | FieldType::Object => Err(
            CoerceError::NonScalarExpected(field.name.clone(), text),
        ),
    }
}

/// Coerces the inputs of a node, field by field in the order of the schema.
pub fn coerce_inputs(ctx: &Context, params: Vec<(String, JsonValue)>, schema: &Vec<SchemaField>) -> (r:
    Result<Vec<(String, JsonValue)>, CoerceError>)
    ensures
        match coerced_inputs(ctx.store(), entries_view(params@), schema@, schema@.len()) {
            Ok(m) => r matches Ok(out) && entries_view(out@) == m,
            Err(e) => r matches Err(x) && x@ == e,
        },
{
    let ghost raw = entries_view(params@);
    let mut entries = params;
    let mut j: usize = 0;
    while j < schema.len()
        invariant
            j <= schema@.len(),
            raw == entries_view(params@),
            coerced_inputs(ctx.store(), raw, schema@, j as nat) == Ok::<
                Map<Seq<char>, JsonView>,
                CoerceFault,
            >(entries_view(entries@)),
        decreases schema@.len() - j,
    {
        let field = &schema[j];
        let current = match get_entry(&entries, field.name.as_str()) {
            Some(v) => v,
            None => match &field.default {
                Some(d) => JsonValue::String(d.clone()),
                None => JsonValue::Null,
            },
        };
        assert(current@ == starting_value(entries_view(entries@), *field));
        let ghost start = current@;
        let value = match current {
            JsonValue::String(s) => {
                let text = parse_variables(ctx, s.as_str());
                match coerce_text(field, text) {
                    Ok(v) => v,
                    Err(e) => {
                        proof {
                            assert(coerced(*field, ctx.store(), start) == Err::<
                                JsonView,
                                CoerceFault,
                            >(e@));
                            assert(coerced_inputs(ctx.store(), raw, schema@, (j + 1) as nat)
                                == Err::<Map<Seq<char>, JsonView>, CoerceFault>(e@));
                            lemma_coercion_fails(
                                ctx.store(),
                                raw,
                                schema@,
                                (j + 1) as nat,
                                schema@.len(),
                            );
                        }
                        return Err(e);
                    },
                }
            },
            other => other,
        };
        put_entry(&mut entries, field.name.as_str(), value);
        j += 1;
    }
    Ok(entries)
}

proof fn lemma_coercion_fails(
    store: Map<Seq<char>, JsonView>,
    raw: Map<Seq<char>, JsonView>,
    schema: Seq<SchemaField>,
    j: nat,
    k: nat,
)
    requires
        j <= k <= schema.len(),
        coerced_inputs(store, raw, schema, j) is Err,
    ensures
        coerced_inputs(store, raw, schema, k) == coerced_inputs(store, raw, schema, j),
    decreases k - j,
{
    if j < k {
        lemma_coercion_fails(store, raw, schema, j, (k - 1) as nat);
    }
}

/// The key under which an output of a node is stored.
pub open spec fn output_key(node_name: Seq<char>, name: Seq<char>) -> Seq<char> {
    "ctx."@ + node_name + "."@ + name
}

/// The store after the first `j` outputs of a node were written to it, each
/// under its key.
pub open spec fn published(
    store: Map<Seq<char>, JsonView>,
    node_name: Seq<char>,
    outputs: Seq<(String, JsonValue)>,
    j: nat,
) -> Map<Seq<char>, JsonView>
    decreases j,
{
    if j == 0 || j > outputs.len() {
        store
    } else {
        published(store, node_name, outputs, (j - 1) as nat).insert(
            output_key(node_name, outputs[j - 1].0@),
            outputs[j - 1].1@,
        )
    }
}

/// The key under which the output `name` of the node `node_name` is stored.
pub fn make_output_key(node_name: &str, name: &str) -> (r: String)
    ensures
        r@ == output_key(node_name@, name@),
{
    let mut r = String::new();
    r.push_str("ctx.");
    r.push_str(node_name);
    r.push_str(".");
    r.push_str(name);
    assert(r@ =~= output_key(node_name@, name@));
    r
}

/// Writes the outputs of a node to the context, each under `ctx.<node>.<name>`.
pub fn publish_outputs(ctx: &mut Context, node_name: &str, outputs: &Vec<(String, JsonValue)>)
    ensures
        final(ctx).store() == published(old(ctx).store(), node_name@, outputs@, outputs@.len()),
        final(ctx).workflow_dir() == old(ctx).workflow_dir(),
        final(ctx).pipeline_dir() == old(ctx).pipeline_dir(),
        final(ctx).scale_bits() == old(ctx).scale_bits(),
{
    let mut j: usize = 0;
    while j < outputs.len()
        invariant
            j <= outputs@.len(),
            ctx.store() == published(old(ctx).store(), node_name@, outputs@, j as nat),
            ctx.workflow_dir() == old(ctx).workflow_dir(),
            ctx.pipeline_dir() == old(ctx).pipeline_dir(),
            ctx.scale_bits() == old(ctx).scale_bits(),
        decreases outputs@.len() - j,
    {
        let key = make_output_key(node_name, outputs[j].0.as_str());
        ctx.set_value(key.as_str(), outputs[j].1.duplicate());
        j += 1;
    }
}

/// An output is there to be read once the outputs of its node are published,
/// unless a later output of that node has taken its key.
pub proof fn lemma_published_visible(
    store: Map<Seq<char>, JsonView>,
    node_name: Seq<char>,
    outputs: Seq<(String, JsonValue)>,
    j: nat,
    i: int,
)
    requires
        j <= outputs.len(),
        0 <= i < j,
        forall|k: int|
            i < k < j ==> output_key(node_name, outputs[k].0@) != output_key(
                node_name,
                outputs[i].0@,
            ),
    ensures
        published(store, node_name, outputs, j).contains_key(
            output_key(node_name, outputs[i].0@),
        ),
        published(store, node_name, outputs, j)[output_key(node_name, outputs[i].0@)]
            == outputs[i].1@,
    decreases j,
{
    if i < j - 1 {
        lemma_published_visible(store, node_name, outputs, (j - 1) as nat, i);
    }
}

/// The adapter of a runner: it coerces the inputs, calls the runner, and
/// publishes what the runner returns.
pub struct NodeRunnerController<T: NodeRunner> {
    runner: T,
}

/// The name of the field that a fault is about, where it is about one.
pub open spec fn fault_field(e: CoerceFault) -> Option<Seq<char>> {
    match e {
        CoerceFault::UnparsableNumber(f, _) => Some(f),
        CoerceFault::UnparsableBoolean(f, _) => Some(f),
        CoerceFault::NonScalarExpected(f, _) => Some(f),
        CoerceFault::ParamShapeMismatch(_) => None,
    }
}

/// The type of the first field from index `j` on that is named `name`;
/// `String` where there is none.
pub open spec fn kind_named(schema: Seq<SchemaField>, name: Seq<char>, j: int) -> FieldType
    decreases schema.len() - j,
{
    if j < 0 || j >= schema.len() {
        FieldType::String
    } else if schema[j].name@ == name {
        schema[j].field_type
    } else {
        kind_named(schema, name, j + 1)
    }
}

/// The type of the field that a fault is about: that of the first field of
/// its name, `String` where it names none.
pub open spec fn fault_kind(schema: Seq<SchemaField>, e: CoerceFault) -> FieldType {
    match fault_field(e) {
        Some(name) => kind_named(schema, name, 0),
        None => FieldType::String,
    }
}

/// The type of the field that an error is about, `String` where there is none.
pub fn kind_of(schema: &Vec<SchemaField>, error: &CoerceError) -> (r: FieldType)
    ensures
        r == fault_kind(schema@, error@),
{
    let name = match error {
        CoerceError::UnparsableNumber(f, _) => f,
        CoerceError::UnparsableBoolean(f, _) => f,
        CoerceError::NonScalarExpected(f, _) => f,
        CoerceError::ParamShapeMismatch(_) => {
            return FieldType::String;
        },
    };
    let mut j: usize = 0;
    while j < schema.len()
        invariant
            j <= schema@.len(),
            fault_field(error@) == Some(name@),
            kind_named(schema@, name@, 0) == kind_named(schema@, name@, j as int),
        decreases schema@.len() - j,
    {
        if str_eq(schema[j].name.as_str(), name.as_str()) {
            return schema[j].field_type;
        }
        j += 1;
    }
    FieldType::String
}

/// What the outcome of a runner leaves in the store: its outputs, published
/// under the node's name, where it has any.
pub open spec fn recorded(
    store: Map<Seq<char>, JsonView>,
    node_name: Seq<char>,
    outcome: Result<Option<Vec<(String, JsonValue)>>, String>,
) -> Map<Seq<char>, JsonView> {
    match outcome {
        Ok(Some(outputs)) => published(store, node_name, outputs@, outputs@.len()),
        _ => store,
    }
}

/// Takes the outcome of a runner: publishes its outputs, where it has any,
/// and hands the outcome on.
pub fn record_outcome(
    ctx: &mut Context,
    node_name: &str,
    outcome: Result<Option<Vec<(String, JsonValue)>>, String>,
) -> (r: Result<Option<Vec<(String, JsonValue)>>, String>)
    ensures
        r == outcome,
        final(ctx).store() == recorded(old(ctx).store(), node_name@, outcome),
        final(ctx).workflow_dir() == old(ctx).workflow_dir(),
        final(ctx).pipeline_dir() == old(ctx).pipeline_dir(),
        final(ctx).scale_bits() == old(ctx).scale_bits(),
{
    match outcome {
        Ok(Some(outputs)) => {
            publish_outputs(ctx, node_name, &outputs);
            Ok(Some(outputs))
        },
        Ok(None) => Ok(None),
        Err(e) => Err(e),
    }
}

/// Whether a runner behind its adapter, called in the context `before` for
/// the node `node_name` with the inputs `params`, may return `r` and leave
/// the context `after`.
///
/// Where an input cannot be coerced, `r` is the sentence of the first fault
/// and the context stays. Else `r` is what the runner returns on the coerced
/// inputs, and the context is as the runner left it, with the outputs
/// published.
pub open spec fn adapted<T: NodeRunner>(
    runner: T,
    before: Context,
    node_name: Seq<char>,
    params: Map<Seq<char>, JsonView>,
    schema: Seq<SchemaField>,
    r: Result<Option<Vec<(String, JsonValue)>>, String>,
    after: Context,
) -> bool {
    match coerced_inputs(before.store(), params, schema, schema.len()) {
        Err(e) => after == before && (r matches Err(m) && m@ == fault_message(
            e,
            fault_kind(schema, e),
        )),
        Ok(inputs) => exists|left: Context| #[trigger]
            runner.yields(before, inputs, r, left) && after.store() == recorded(
                left.store(),
                node_name,
                r,
            ) && after.workflow_dir() == left.workflow_dir() && after.pipeline_dir()
                == left.pipeline_dir() && after.scale_bits() == left.scale_bits(),
    }
}

impl<T: NodeRunner> NodeRunnerController<T> {
    /// The runner behind the adapter.
    pub closed spec fn runner(&self) -> T {
        self.runner
    }

    pub fn new(runner: T) -> (r: Self)
        ensures
            r.runner() == runner,
    {
        Self { runner }
    }

    /// Coerces `params` by `schema_field`, calls the runner on them and, where
    /// it returns outputs, writes them to the context.
    ///
    /// Where an input cannot be coerced the runner is not called, the context
    /// stays as it is, and the error is the sentence of the first fault. Else
    /// the result is what the runner returns on the coerced inputs, and the
    /// context is as the runner left it, with the outputs published: each of
    /// them is in the context afterwards, under the key of the last output of
    /// its name.
    pub fn execute(
        &mut self,
        ctx: &mut Context,
        node_name: &str,
        params: Vec<(String, JsonValue)>,
        schema_field: &Vec<SchemaField>,
    ) -> (r: Result<Option<Vec<(String, JsonValue)>>, String>)
        ensures
            adapted(
                old(self).runner(),
                *old(ctx),
                node_name@,
                entries_view(params@),
                schema_field@,
                r,
                *final(ctx),
            ),
            coerced_inputs(
                old(ctx).store(),
                entries_view(params@),
                schema_field@,
                schema_field@.len(),
            ) is Err ==> *final(self) == *old(self),
            r matches Ok(Some(outputs)) ==> forall|i: int|
                0 <= i < outputs@.len() && (forall|k: int|
                    i < k < outputs@.len() ==> output_key(node_name@, outputs@[k].0@)
                        != output_key(node_name@, outputs@[i].0@))
                    ==> final(ctx).store().contains_key(
                    #[trigger] output_key(node_name@, outputs@[i].0@),
                ) && final(ctx).store()[output_key(node_name@, outputs@[i].0@)]
                    == outputs@[i].1@,
    {
        let coerced = match coerce_inputs(ctx, params, schema_field) {
            Ok(coerced) => coerced,
            Err(e) => {
                let kind = kind_of(schema_field, &e);
                return Err(e.message(kind));
            },
        };
        let ghost inputs = entries_view(coerced@);
        let outcome = self.runner.run(ctx, coerced);
        let ghost left = *ctx;
        let ghost before = ctx.store();
        let r = record_outcome(ctx, node_name, outcome);
        proof {
            assert(old(self).runner().yields(*old(ctx), inputs, r, left));
            if let Ok(Some(outputs)) = &r {
                assert forall|i: int|
                    0 <= i < outputs@.len() && (forall|k: int|
                        i < k < outputs@.len() ==> output_key(node_name@, outputs@[k].0@)
                            != output_key(node_name@, outputs@[i].0@)) implies ctx.store().contains_key(
                    #[trigger] output_key(node_name@, outputs@[i].0@),
                ) && ctx.store()[output_key(node_name@, outputs@[i].0@)] == outputs@[i].1@ by {
                    lemma_published_visible(before, node_name@, outputs@, outputs@.len(), i);
                }
            }
        }
        r
    }
}

impl<T: NodeRunner> NodeRunnerControl for NodeRunnerController<T> {
    fn run(
        &mut self,
        ctx: &mut Context,
        node_name: &str,
        params: Vec<(String, JsonValue)>,
        schema_field: &Vec<SchemaField>,
    ) -> (r: Result<Option<Vec<(String, JsonValue)>>, String>)
        ensures
            adapted(
                old(self).runner(),
                *old(ctx),
                node_name@,
                entries_view(params@),
                schema_field@,
                r,
                *final(ctx),
            ),
            coerced_inputs(
                old(ctx).store(),
                entries_view(params@),
                schema_field@,
                schema_field@.len(),
            ) is Err ==> *final(self) == *old(self),
            r matches Ok(Some(outputs)) ==> forall|i: int|
                0 <= i < outputs@.len() && (forall|k: int|
                    i < k < outputs@.len() ==> output_key(node_name@, outputs@[k].0@)
                        != output_key(node_name@, outputs@[i].0@))
                    ==> final(ctx).store().contains_key(
                    #[trigger] output_key(node_name@, outputs@[i].0@),
                ) && final(ctx).store()[output_key(node_name@, outputs@[i].0@)]
                    == outputs@[i].1@,
    {
        self.execute(ctx, node_name, params, schema_field)
    }
}

} // verus!
