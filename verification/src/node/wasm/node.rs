//! A node kind that a plugin has declared.

use vstd::prelude::*;
use crate::json::{JsonValue, JsonView};
use crate::types::field::{copy_fields, fields_view, FieldView, SchemaField};
use crate::types::node::{i18n_option_view, I18nValue, I18nView, NodeDefine};

verus! {

/// What a plugin declares of a node kind.
#[derive(Clone, Debug)]
pub struct HostNode {
    pub action_type: String,
    pub name: I18nValue,
    pub icon: String,
    pub output_schema: Vec<SchemaField>,
    pub input_schema: Vec<SchemaField>,
    pub description: I18nValue,
    pub category: I18nValue,
}

pub struct WasmNode {
    action_type: String,
    node_name: I18nValue,
    icon: String,
    output_schema: Vec<SchemaField>,
    input_schema: Vec<SchemaField>,
    description: I18nValue,
    category: I18nValue,
}

impl WasmNode {
    /// The action type that the plugin has given.
    pub closed spec fn declared_type(&self) -> Seq<char> {
        self.action_type@
    }

    /// The name that the plugin has given.
    pub closed spec fn declared_name(&self) -> I18nView {
        self.node_name@
    }

    /// The icon that the plugin has given.
    pub closed spec fn declared_icon(&self) -> Seq<char> {
        self.icon@
    }

    /// The category that the plugin has given.
    pub closed spec fn declared_category(&self) -> I18nView {
        self.category@
    }

    /// The description that the plugin has given.
    pub closed spec fn declared_description(&self) -> I18nView {
        self.description@
    }

    /// The inputs that the plugin has given.
    pub closed spec fn declared_inputs(&self) -> Seq<FieldView> {
        fields_view(self.input_schema@)
    }

    /// The outputs that the plugin has given.
    pub closed spec fn declared_outputs(&self) -> Seq<FieldView> {
        fields_view(self.output_schema@)
    }

    /// The node kind that a plugin has declared.
    pub fn from_node(n: HostNode) -> (r: WasmNode)
        ensures
            r.declared_type() == n.action_type@,
            r.declared_name() == n.name@,
            r.declared_icon() == n.icon@,
            r.declared_category() == n.category@,
            r.declared_description() == n.description@,
            r.declared_inputs() == fields_view(n.input_schema@),
            r.declared_outputs() == fields_view(n.output_schema@),
    {
        WasmNode {
            action_type: n.action_type,
            node_name: n.name,
            icon: n.icon,
            output_schema: n.output_schema,
            input_schema: n.input_schema,
            description: n.description,
            category: n.category,
        }
    }
}

impl NodeDefine for WasmNode {
    /// The action type of the kind.
    open spec fn names(&self, action_type: Seq<char>) -> bool {
        action_type == self.declared_type()
    }

    /// The outputs of a node of this kind whose inputs are `input`.
    open spec fn declares(&self, input: Map<Seq<char>, JsonView>, fields: Seq<FieldView>) -> bool {
        fields == self.declared_outputs()
    }

    fn action_type(&self) -> (r: String)
        ensures
            r@ == self.declared_type(),
    {
        self.action_type.clone()
    }

    fn name(&self) -> (r: I18nValue)
        ensures
            r@ == self.declared_name(),
    {
        self.node_name.duplicate()
    }

    fn icon(&self) -> (r: String)
        ensures
            r@ == self.declared_icon(),
    {
        self.icon.clone()
    }

    fn category(&self) -> (r: Option<I18nValue>)
        ensures
            i18n_option_view(r) == Some(self.declared_category()),
    {
        Some(self.category.duplicate())
    }

    fn description(&self) -> (r: Option<I18nValue>)
        ensures
            i18n_option_view(r) == Some(self.declared_description()),
    {
        Some(self.description.duplicate())
    }

    fn output_schema(&self, _input: &Vec<(String, JsonValue)>) -> (r: Vec<SchemaField>)
        ensures
            fields_view(r@) == self.declared_outputs(),
    {
        copy_fields(&self.output_schema)
    }

    fn input_schema(&self) -> (r: Vec<SchemaField>)
        ensures
            fields_view(r@) == self.declared_inputs(),
    {
        copy_fields(&self.input_schema)
    }
}

} // verus!
