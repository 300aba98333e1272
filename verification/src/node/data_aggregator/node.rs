//! The node kind that gathers values from the context into one value.

use vstd::prelude::*;
use crate::json::{JsonValue, JsonView};
use crate::types::field::{fields_view, FieldType, FieldView, SchemaField};
use crate::types::node::{i18n_option_view, I18nValue, I18nView, NodeDefine};

verus! {

pub const NODE_TYPE: &'static str = "DataAggregator";

#[derive(Default)]
pub struct DataAggregatorNode;

impl DataAggregatorNode {
    pub fn new() -> Self {
        Self {  }
    }
}

/// The icon of the node kind, as a data URL.
pub const ICON: &'static str = "data:image/svg+xml;base64,PHN2ZyB4bWxucz0iaHR0cDovL3d3dy53My5vcmcvMjAwMC9zdmciIHdpZHRoPSIyNCIgaGVpZ2h0PSIyNCIgdmlld0JveD0iMCAwIDI0IDI0IiBmaWxsPSJub25lIiBzdHJva2U9ImN1cnJlbnRDb2xvciIgc3Ryb2tlLXdpZHRoPSIxLjUiIHN0cm9rZS1saW5lY2FwPSJyb3VuZCIgc3Ryb2tlLWxpbmVqb2luPSJyb3VuZCIgY2xhc3M9Imx1Y2lkZSBsdWNpZGUtYmV0d2Vlbi1ob3Jpem9udGFsLXN0YXJ0LWljb24gbHVjaWRlLWJldHdlZW4taG9yaXpvbnRhbC1zdGFydCI+PHJlY3Qgd2lkdGg9IjEzIiBoZWlnaHQ9IjciIHg9IjgiIHk9IjMiIHJ4PSIxIi8+PHBhdGggZD0ibTIgOSAzIDMtMyAzIi8+PHJlY3Qgd2lkdGg9IjEzIiBoZWlnaHQ9IjciIHg9IjgiIHk9IjE0IiByeD0iMSIvPjwvc3ZnPg==";

/// The name of the node kind.
pub open spec fn name_text() -> I18nView {
    I18nView { zh: "数据聚合器"@, en: "Data Aggregator"@ }
}

/// The category of the node kind.
pub open spec fn category_text() -> Option<I18nView> {
    Some(I18nView { zh: "数据处理"@, en: "Data Processing"@ })
}

/// The description of the node kind.
pub open spec fn description_text() -> Option<I18nView> {
    Some(I18nView { zh: "聚合多个数据源的值到一个对象或数组中"@, en: "Aggregate values from multiple data sources into an object or array"@ })
}

/// The outputs of a node of this kind.
pub open spec fn output_fields() -> Seq<FieldView> {
    seq![
        FieldView {
            name: "result"@,
            field_type: FieldType::Object,
            item_type: None,
            description: Some(I18nView { zh: "聚合后的结果数据"@, en: "Aggregated result data"@ }),
            enums: Seq::empty(),
            default: None,
            condition: None,
        },
        FieldView {
            name: "count"@,
            field_type: FieldType::Number,
            item_type: None,
            description: Some(I18nView { zh: "聚合的数据项数量"@, en: "Number of aggregated data items"@ }),
            enums: Seq::empty(),
            default: None,
            condition: None,
        },
    ]
}

/// The inputs of a node of this kind.
pub open spec fn input_fields() -> Seq<FieldView> {
    seq![
        FieldView {
            name: "mode"@,
            field_type: FieldType::String,
            item_type: None,
            description: Some(I18nView { zh: "聚合模式：object（对象）或 array（数组）"@, en: "Aggregation mode: object or array"@ }),
            enums: seq!["object"@, "array"@],
            default: Some("object"@),
            condition: None,
        },
        FieldView {
            name: "sources"@,
            field_type: FieldType::Array,
            item_type: Some(FieldType::String),
            description: Some(I18nView { zh: "数据源路径列表，例如：ctx.node1.value, ctx.node2.result"@, en: "List of data source paths, e.g.: ctx.node1.value, ctx.node2.result"@ }),
            enums: Seq::empty(),
            default: None,
            condition: None,
        },
        FieldView {
            name: "keys"@,
            field_type: FieldType::Array,
            item_type: Some(FieldType::String),
            description: Some(I18nView { zh: "对象模式下使用的键名列表（可选，默认使用索引）"@, en: "List of keys for object mode (optional, defaults to indices)"@ }),
            enums: Seq::empty(),
            default: None,
            condition: None,
        },
    ]
}

impl NodeDefine for DataAggregatorNode {
    /// The action type of the kind.
    open spec fn names(&self, action_type: Seq<char>) -> bool {
        action_type == NODE_TYPE@
    }

    /// The outputs of a node of this kind whose inputs are `input`.
    open spec fn declares(&self, input: Map<Seq<char>, JsonView>, fields: Seq<FieldView>) -> bool {
        fields == output_fields()
    }

    fn action_type(&self) -> (r: String)
        ensures
            r@ == NODE_TYPE@,
    {
        NODE_TYPE.to_owned()
    }

    fn name(&self) -> (r: I18nValue)
        ensures
            r@ == name_text(),
    {
        I18nValue {
            zh: "数据聚合器".to_owned(),
            en: "Data Aggregator".to_owned(),
        }
    }

    fn icon(&self) -> (r: String)
        ensures
            r@ == ICON@,
    {
        ICON.to_owned()
    }

    fn category(&self) -> (r: Option<I18nValue>)
        ensures
            i18n_option_view(r) == category_text(),
    {
        Some(I18nValue {
            zh: "数据处理".to_owned(),
            en: "Data Processing".to_owned(),
        })
    }

    fn description(&self) -> (r: Option<I18nValue>)
        ensures
            i18n_option_view(r) == description_text(),
    {
        Some(I18nValue {
            zh: "聚合多个数据源的值到一个对象或数组中".to_owned(),
            en: "Aggregate values from multiple data sources into an object or array".to_owned(),
        })
    }

    fn output_schema(&self, _input: &Vec<(String, JsonValue)>) -> (r: Vec<SchemaField>)
        ensures
            fields_view(r@) == output_fields(),
    {
        let f0 = SchemaField {
            name: "result".to_owned(),
            field_type: FieldType::Object,
            item_type: None,
            description: Some(I18nValue {
                zh: "聚合后的结果数据".to_owned(),
                en: "Aggregated result data".to_owned(),
            }),
            enums: vec![],
            default: None,
            condition: None,
        };
        assert(f0@.enums =~= output_fields()[0].enums);
        assert(f0@ == output_fields()[0]);
        let f1 = SchemaField {
            name: "count".to_owned(),
            field_type: FieldType::Number,
            item_type: None,
            description: Some(I18nValue {
                zh: "聚合的数据项数量".to_owned(),
                en: "Number of aggregated data items".to_owned(),
            }),
            enums: vec![],
            default: None,
            condition: None,
        };
        assert(f1@.enums =~= output_fields()[1].enums);
        assert(f1@ == output_fields()[1]);
        let r = vec![f0, f1];
        assert(fields_view(r@) =~= output_fields());
        r
    }

    fn input_schema(&self) -> (r: Vec<SchemaField>)
        ensures
            fields_view(r@) == input_fields(),
    {
        let f0 = SchemaField {
            name: "mode".to_owned(),
            field_type: FieldType::String,
            item_type: None,
            description: Some(I18nValue {
                zh: "聚合模式：object（对象）或 array（数组）".to_owned(),
                en: "Aggregation mode: object or array".to_owned(),
            }),
            enums: vec!["object".to_owned(), "array".to_owned()],
            default: Some("object".to_owned()),
            condition: None,
        };
        assert(f0@.enums =~= input_fields()[0].enums);
        assert(f0@ == input_fields()[0]);
        let f1 = SchemaField {
            name: "sources".to_owned(),
            field_type: FieldType::Array,
            item_type: Some(FieldType::String),
            description: Some(I18nValue {
                zh: "数据源路径列表，例如：ctx.node1.value, ctx.node2.result".to_owned(),
                en: "List of data source paths, e.g.: ctx.node1.value, ctx.node2.result"
                    .to_owned(),
            }),
            enums: vec![],
            default: None,
            condition: None,
        };
        assert(f1@.enums =~= input_fields()[1].enums);
        assert(f1@ == input_fields()[1]);
        let f2 = SchemaField {
            name: "keys".to_owned(),
            field_type: FieldType::Array,
            item_type: Some(FieldType::String),
            description: Some(I18nValue {
                zh: "对象模式下使用的键名列表（可选，默认使用索引）".to_owned(),
                en: "List of keys for object mode (optional, defaults to indices)".to_owned(),
            }),
            enums: vec![],
            default: None,
            condition: None,
        };
        assert(f2@.enums =~= input_fields()[2].enums);
        assert(f2@ == input_fields()[2]);
        let r = vec![f0, f1, f2];
        assert(fields_view(r@) =~= input_fields());
        r
    }
}

} // verus!
