//! Field descriptions of node inputs and outputs, with the constraints that an
//! editor may put on them.

use vstd::prelude::*;
use crate::node::params::{text_view, texts_view};
use crate::types::conditions::copy_text;
use crate::types::node::{I18nValue, I18nView};

verus! {

#[derive(Debug, Clone, Copy, Default)]
pub struct ObjectConstraint {
    pub min_properties: Option<usize>,
    pub max_properties: Option<usize>,
}

#[derive(Debug, Clone, Copy, Default)]
pub struct BooleanConstraint {
    pub equals: bool,
}

#[derive(Debug, Clone, Default)]
pub struct StringConstraint {
    pub min_length: Option<usize>,
    pub max_length: Option<usize>,
    pub pattern: Option<String>,
    pub format: Option<String>,
    pub equals: Option<String>,
    pub enum_values: Option<Vec<String>>,
}

/// Bounds on a number, each written as a decimal numeral.
#[derive(Debug, Clone, Default)]
pub struct NumberConstraint {
    pub minimum: Option<String>,
    pub exclusive_minimum: Option<String>,
    pub maximum: Option<String>,
    pub exclusive_maximum: Option<String>,
    pub multiple_of: Option<String>,
    pub equals: Option<String>,
    pub enum_values: Option<Vec<String>>,
}

#[derive(Debug)]
pub struct ArrayConstraint {
    pub min_items: Option<usize>,
    pub max_items: Option<usize>,
    pub unique_items: Option<bool>,
    pub contains: Option<Box<ValueConstraint>>,
}

#[derive(Debug)]
pub enum ValueConstraint {
    Number(NumberConstraint),
    String(StringConstraint),
    Boolean(BooleanConstraint),
    Array(ArrayConstraint),
    Object(ObjectConstraint),
}

/// A constraint on one field of the inputs.
#[derive(Debug)]
pub struct FieldCondition {
    pub field: String,
    pub constraint: ValueConstraint,
    pub required: bool,
}

/// A predicate over the inputs of a node, for editors and validators. The
/// engine does not evaluate it.
#[derive(Debug)]
pub enum Condition {
    All { conditions: Vec<Box<Condition>> },
    Any { conditions: Vec<Box<Condition>> },
    Not { condition: Box<Condition> },
    Field(FieldCondition),
}

/// The views of a list of texts that may be absent.
pub open spec fn texts_option_view(t: Option<Vec<String>>) -> Option<Seq<Seq<char>>> {
    match t {
        Some(v) => Some(texts_view(v@)),
        None => None,
    }
}

/// The mathematical value of a [`StringConstraint`].
pub struct StringConstraintView {
    pub min_length: Option<usize>,
    pub max_length: Option<usize>,
    pub pattern: Option<Seq<char>>,
    pub format: Option<Seq<char>>,
    pub equals: Option<Seq<char>>,
    pub enum_values: Option<Seq<Seq<char>>>,
}

/// The mathematical value of a [`NumberConstraint`].
pub struct NumberConstraintView {
    pub minimum: Option<Seq<char>>,
    pub exclusive_minimum: Option<Seq<char>>,
    pub maximum: Option<Seq<char>>,
    pub exclusive_maximum: Option<Seq<char>>,
    pub multiple_of: Option<Seq<char>>,
    pub equals: Option<Seq<char>>,
    pub enum_values: Option<Seq<Seq<char>>>,
}

/// The mathematical value of an [`ArrayConstraint`].
pub struct ArrayConstraintView {
    pub min_items: Option<usize>,
    pub max_items: Option<usize>,
    pub unique_items: Option<bool>,
    pub contains: Option<Box<ConstraintView>>,
}

/// The mathematical value of a [`ValueConstraint`].
pub enum ConstraintView {
    Number(NumberConstraintView),
    String(StringConstraintView),
    Boolean(BooleanConstraint),
    Array(ArrayConstraintView),
    Object(ObjectConstraint),
}

/// The mathematical value of a [`FieldCondition`].
pub struct FieldConditionView {
    pub field: Seq<char>,
    pub constraint: ConstraintView,
    pub required: bool,
}

/// The mathematical value of a [`Condition`].
pub enum ConditionView {
    All(Seq<ConditionView>),
    Any(Seq<ConditionView>),
    Not(Box<ConditionView>),
    Field(FieldConditionView),
}

impl View for StringConstraint {
    type V = StringConstraintView;

    open spec fn view(&self) -> StringConstraintView {
        StringConstraintView {
            min_length: self.min_length,
            max_length: self.max_length,
            pattern: text_view(self.pattern),
            format: text_view(self.format),
            equals: text_view(self.equals),
            enum_values: texts_option_view(self.enum_values),
        }
    }
}

impl View for NumberConstraint {
    type V = NumberConstraintView;

    open spec fn view(&self) -> NumberConstraintView {
        NumberConstraintView {
            minimum: text_view(self.minimum),
            exclusive_minimum: text_view(self.exclusive_minimum),
            maximum: text_view(self.maximum),
            exclusive_maximum: text_view(self.exclusive_maximum),
            multiple_of: text_view(self.multiple_of),
            equals: text_view(self.equals),
            enum_values: texts_option_view(self.enum_values),
        }
    }
}

/// The mathematical value of a constraint.
pub open spec fn constraint_view(c: ValueConstraint) -> ConstraintView
    decreases c,
{
    match c {
        ValueConstraint::Number(n) => ConstraintView::Number(n@),
        ValueConstraint::String(s) => ConstraintView::String(s@),
        ValueConstraint::Boolean(b) => ConstraintView::Boolean(b),
        ValueConstraint::Array(a) => ConstraintView::Array(
            ArrayConstraintView {
                min_items: a.min_items,
                max_items: a.max_items,
                unique_items: a.unique_items,
                contains: match a.contains {
                    Some(inner) => Some(Box::new(constraint_view(*inner))),
                    None => None,
                },
            },
        ),
        ValueConstraint::Object(o) => ConstraintView::Object(o),
    }
}

impl View for ValueConstraint {
    type V = ConstraintView;

    open spec fn view(&self) -> ConstraintView {
        constraint_view(*self)
    }
}

impl View for FieldCondition {
    type V = FieldConditionView;

    open spec fn view(&self) -> FieldConditionView {
        FieldConditionView {
            field: self.field@,
            constraint: self.constraint@,
            required: self.required,
        }
    }
}

/// The mathematical value of a condition.
pub open spec fn condition_view(c: Condition) -> ConditionView
    decreases c, 0nat,
{
    match c {
        Condition::All { conditions } => ConditionView::All(
            conditions_view_upto(conditions@, conditions@.len()),
        ),
        Condition::Any { conditions } => ConditionView::Any(
            conditions_view_upto(conditions@, conditions@.len()),
        ),
        Condition::Not { condition } => ConditionView::Not(Box::new(condition_view(*condition))),
        Condition::Field(f) => ConditionView::Field(f@),
    }
}

/// The views of the first `n` conditions of a list.
pub open spec fn conditions_view_upto(list: Seq<Box<Condition>>, n: nat) -> Seq<ConditionView>
    decreases list, n,
{
    if n == 0 || n > list.len() {
        Seq::empty()
    } else {
        conditions_view_upto(list, (n - 1) as nat).push(condition_view(*list[n - 1]))
    }
}

impl View for Condition {
    type V = ConditionView;

    open spec fn view(&self) -> ConditionView {
        condition_view(*self)
    }
}

/// The view of a condition that may be absent.
pub open spec fn condition_option_view(c: Option<Condition>) -> Option<ConditionView> {
    match c {
        Some(c) => Some(c@),
        None => None,
    }
}

/// A copy of a list of texts.
pub fn copy_texts(texts: &Vec<String>) -> (r: Vec<String>)
    ensures
        texts_view(r@) == texts_view(texts@),
{
    let mut out: Vec<String> = Vec::new();
    let mut i: usize = 0;
    while i < texts.len()
        invariant
            i <= texts@.len(),
            out@.len() == i,
            forall|k: int| 0 <= k < i ==> (#[trigger] out@[k])@ == texts@[k]@,
        decreases texts@.len() - i,
    {
        out.push(texts[i].clone());
        i += 1;
    }
    assert(texts_view(out@) =~= texts_view(texts@));
    out
}

/// A copy of a list of texts that may be absent.
pub fn copy_texts_option(texts: &Option<Vec<String>>) -> (r: Option<Vec<String>>)
    ensures
        texts_option_view(r) == texts_option_view(*texts),
{
    match texts {
        Some(v) => Some(copy_texts(v)),
        None => None,
    }
}

impl StringConstraint {
    /// A copy of the constraint.
    pub fn duplicate(&self) -> (r: StringConstraint)
        ensures
            r@ == self@,
    {
        StringConstraint {
            min_length: self.min_length,
            max_length: self.max_length,
            pattern: copy_text(&self.pattern),
            format: copy_text(&self.format),
            equals: copy_text(&self.equals),
            enum_values: copy_texts_option(&self.enum_values),
        }
    }
}

impl NumberConstraint {
    /// A copy of the constraint.
    pub fn duplicate(&self) -> (r: NumberConstraint)
        ensures
            r@ == self@,
    {
        NumberConstraint {
            minimum: copy_text(&self.minimum),
            exclusive_minimum: copy_text(&self.exclusive_minimum),
            maximum: copy_text(&self.maximum),
            exclusive_maximum: copy_text(&self.exclusive_maximum),
            multiple_of: copy_text(&self.multiple_of),
            equals: copy_text(&self.equals),
            enum_values: copy_texts_option(&self.enum_values),
        }
    }
}

impl ValueConstraint {
    /// A copy of the constraint.
    pub fn duplicate(&self) -> (r: ValueConstraint)
        ensures
            r@ == self@,
        decreases self,
    {
        match self {
            ValueConstraint::Number(c) => ValueConstraint::Number(c.duplicate()),
            ValueConstraint::String(c) => ValueConstraint::String(c.duplicate()),
            ValueConstraint::Boolean(c) => ValueConstraint::Boolean(*c),
            ValueConstraint::Array(c) => ValueConstraint::Array(
                ArrayConstraint {
                    min_items: c.min_items,
                    max_items: c.max_items,
                    unique_items: c.unique_items,
                    contains: match &c.contains {
                        Some(inner) => Some(Box::new(inner.duplicate())),
                        None => None,
                    },
                },
            ),
            ValueConstraint::Object(c) => ValueConstraint::Object(*c),
        }
    }
}

impl Clone for ValueConstraint {
    fn clone(&self) -> (r: Self)
        ensures
            r@ == self@,
    {
        self.duplicate()
    }
}

impl Clone for ArrayConstraint {
    fn clone(&self) -> (r: Self)
        ensures
            ValueConstraint::Array(r)@ == ValueConstraint::Array(*self)@,
    {
        ArrayConstraint {
            min_items: self.min_items,
            max_items: self.max_items,
            unique_items: self.unique_items,
            contains: match &self.contains {
                Some(inner) => Some(Box::new(inner.duplicate())),
                None => None,
            },
        }
    }
}

impl FieldCondition {
    /// A copy of the condition.
    pub fn duplicate(&self) -> (r: FieldCondition)
        ensures
            r@ == self@,
    {
        FieldCondition {
            field: self.field.clone(),
            constraint: self.constraint.duplicate(),
            required: self.required,
        }
    }
}

impl Clone for FieldCondition {
    fn clone(&self) -> (r: Self)
        ensures
            r@ == self@,
    {
        self.duplicate()
    }
}

/// The views of a list of conditions.
pub open spec fn conditions_view(list: Seq<Box<Condition>>) -> Seq<ConditionView> {
    Seq::new(list.len(), |i: int| (*list[i])@)
}

proof fn lemma_conditions_view_upto(list: Seq<Box<Condition>>, n: nat)
    requires
        n <= list.len(),
    ensures
        conditions_view_upto(list, n) == conditions_view(list.take(n as int)),
    decreases n,
{
    if n > 0 {
        lemma_conditions_view_upto(list, (n - 1) as nat);
        assert(conditions_view(list.take(n as int)) =~= conditions_view(list.take(n - 1)).push(
            condition_view(*list[n - 1]),
        ));
    } else {
        assert(conditions_view(list.take(0)) =~= Seq::empty());
    }
}

/// The view of a condition over a list holds the views of the conditions of
/// the list, in order.
pub proof fn lemma_list_view(list: Seq<Box<Condition>>)
    ensures
        conditions_view_upto(list, list.len()) == conditions_view(list),
{
    lemma_conditions_view_upto(list, list.len());
    assert(list.take(list.len() as int) == list);
}

/// Copies of the conditions in a list.
fn duplicate_all(conditions: &Vec<Box<Condition>>) -> (r: Vec<Box<Condition>>)
    ensures
        conditions_view(r@) == conditions_view(conditions@),
    decreases conditions,
{
    let mut out: Vec<Box<Condition>> = Vec::new();
    let mut i: usize = 0;
    while i < conditions.len()
        invariant
            i <= conditions.len(),
            out@.len() == i,
            forall|k: int| 0 <= k < i ==> (*(#[trigger] out@[k]))@ == (*conditions@[k])@,
        decreases conditions.len() - i,
    {
        assert(decreases_to!(conditions => conditions[i as int]));
        out.push(Box::new(conditions[i].duplicate()));
        i += 1;
    }
    assert(conditions_view(out@) =~= conditions_view(conditions@));
    out
}

impl Condition {
    /// A copy of the condition.
    pub fn duplicate(&self) -> (r: Condition)
        ensures
            r@ == self@,
        decreases self,
    {
        match self {
            Condition::All { conditions } => {
                let copies = duplicate_all(conditions);
                proof {
                    lemma_list_view(copies@);
                    lemma_list_view(conditions@);
                }
                Condition::All { conditions: copies }
            },
            Condition::Any { conditions } => {
                let copies = duplicate_all(conditions);
                proof {
                    lemma_list_view(copies@);
                    lemma_list_view(conditions@);
                }
                Condition::Any { conditions: copies }
            },
            Condition::Not { condition } => Condition::Not {
                condition: Box::new(condition.duplicate()),
            },
            Condition::Field(f) => Condition::Field(f.duplicate()),
        }
    }
}

impl Clone for Condition {
    fn clone(&self) -> (r: Self)
        ensures
            r@ == self@,
    {
        self.duplicate()
    }
}

/// The type of a field's value.
#[derive(Debug, Clone, Copy, PartialEq, Eq, Structural)]
pub enum FieldType {
    String,
    Number,
    Boolean,
    Array,
    Object,
    Image,
    File,
}

impl Default for FieldType {
    fn default() -> (r: FieldType)
        ensures
            r == FieldType::String,
    {
        FieldType::String
    }
}

/// One input or output of a node kind.
#[derive(Debug)]
pub struct SchemaField {
    pub name: String,
    pub field_type: FieldType,
    pub item_type: Option<FieldType>,
    pub description: Option<I18nValue>,
    pub enums: Vec<String>,
    pub default: Option<String>,
    pub condition: Option<Condition>,
}

/// The mathematical value of a [`SchemaField`].
pub struct FieldView {
    pub name: Seq<char>,
    pub field_type: FieldType,
    pub item_type: Option<FieldType>,
    pub description: Option<I18nView>,
    pub enums: Seq<Seq<char>>,
    pub default: Option<Seq<char>>,
    pub condition: Option<ConditionView>,
}

impl View for SchemaField {
    type V = FieldView;

    open spec fn view(&self) -> FieldView {
        FieldView {
            name: self.name@,
            field_type: self.field_type,
            item_type: self.item_type,
            description: match self.description {
                Some(d) => Some(d@),
                None => None,
            },
            enums: texts_view(self.enums@),
            default: text_view(self.default),
            condition: condition_option_view(self.condition),
        }
    }
}

/// The views of a list of fields.
pub open spec fn fields_view(fields: Seq<SchemaField>) -> Seq<FieldView> {
    Seq::new(fields.len(), |i: int| fields[i]@)
}

/// The field of the given name and type, with nothing else set.
pub open spec fn bare_field(name: Seq<char>, field_type: FieldType) -> FieldView {
    FieldView {
        name,
        field_type,
        item_type: None,
        description: None,
        enums: Seq::empty(),
        default: None,
        condition: None,
    }
}

impl SchemaField {
    /// A field of the given name and type, with nothing else set.
    pub fn new(name: &str, field_type: FieldType) -> (r: SchemaField)
        ensures
            r@ == bare_field(name@, field_type),
    {
        let r = SchemaField {
            name: name.to_owned(),
            field_type,
            item_type: None,
            description: None,
            enums: Vec::new(),
            default: None,
            condition: None,
        };
        assert(r@.enums =~= Seq::empty());
        r
    }

    /// A copy of the field.
    pub fn duplicate(&self) -> (r: SchemaField)
        ensures
            r@ == self@,
    {
        SchemaField {
            name: self.name.clone(),
            field_type: self.field_type,
            item_type: self.item_type,
            description: match &self.description {
                Some(d) => Some(d.duplicate()),
                None => None,
            },
            enums: copy_texts(&self.enums),
            default: copy_text(&self.default),
            condition: match &self.condition {
                Some(c) => Some(c.duplicate()),
                None => None,
            },
        }
    }
}

impl Clone for SchemaField {
    fn clone(&self) -> (r: Self)
        ensures
            r@ == self@,
    {
        self.duplicate()
    }
}

/// A copy of a list of fields.
pub fn copy_fields(fields: &Vec<SchemaField>) -> (r: Vec<SchemaField>)
    ensures
        fields_view(r@) == fields_view(fields@),
{
    let mut out: Vec<SchemaField> = Vec::new();
    let mut i: usize = 0;
    while i < fields.len()
        invariant
            i <= fields@.len(),
            out@.len() == i,
            forall|k: int| 0 <= k < i ==> (#[trigger] out@[k])@ == fields@[k]@,
        decreases fields@.len() - i,
    {
        out.push(fields[i].duplicate());
        i += 1;
    }
    assert(fields_view(out@) =~= fields_view(fields@));
    out
}

} // verus!
