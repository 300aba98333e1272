//! The node kind that clicks a mouse button.

use vstd::prelude::*;
use crate::json::{JsonValue, JsonView};
use crate::types::field::{fields_view, FieldType, FieldView, SchemaField};
use crate::types::node::{i18n_option_view, I18nValue, I18nView, NodeDefine};

verus! {

#[derive(Default)]
pub struct MouseClickNode {}

impl MouseClickNode {
    pub fn new() -> Self {
        Self {  }
    }
}

/// The icon of the node kind, as a data URL.
pub const ICON: &'static str = "data:image/svg+xml;base64,PHN2ZyB4bWxucz0iaHR0cDovL3d3dy53My5vcmcvMjAwMC9zdmciIHdpZHRoPSIyNCIgaGVpZ2h0PSIyNCIgdmlld0JveD0iMCAwIDI0IDI0IiBmaWxsPSJub25lIiBzdHJva2U9ImN1cnJlbnRDb2xvciIgc3Ryb2tlLXdpZHRoPSIxLjUiIHN0cm9rZS1saW5lY2FwPSJyb3VuZCIgc3Ryb2tlLWxpbmVqb2luPSJyb3VuZCIgY2xhc3M9Imx1Y2lkZSBsdWNpZGUtbW91c2UtcG9pbnRlci1jbGljay1pY29uIGx1Y2lkZS1tb3VzZS1wb2ludGVyLWNsaWNrIj48cGF0aCBkPSJNMTQgNC4xIDEyIDYiLz48cGF0aCBkPSJtNS4xIDgtMi45LS44Ii8+PHBhdGggZD0ibTYgMTItMS45IDIiLz48cGF0aCBkPSJNNy4yIDIuMiA4IDUuMSIvPjxwYXRoIGQ9Ik05LjAzNyA5LjY5YS40OTguNDk4IDAgMCAxIC42NTMtLjY1M2wxMSA0LjVhLjUuNSAwIDAgMS0uMDc0Ljk0OWwtNC4zNDkgMS4wNDFhMSAxIDAgMCAwLS43NC43MzlsLTEuMDQgNC4zNWEuNS41IDAgMCAxLS45NS4wNzR6Ii8+PC9zdmc+";

/// The name of the node kind.
pub open spec fn name_text() -> I18nView {
    I18nView { zh: "鼠标点击"@, en: "Mouse Click"@ }
}

/// The category of the node kind.
pub open spec fn category_text() -> Option<I18nView> {
    Some(I18nView { zh: "桌面自动化"@, en: "Desktop Automatic"@ })
}

/// The description of the node kind.
pub open spec fn description_text() -> Option<I18nView> {
    Some(I18nView { zh: "模拟鼠标点击操作"@, en: "Simulate mouse click operations"@ })
}

/// The outputs of a node of this kind.
pub open spec fn output_fields() -> Seq<FieldView> {
    Seq::empty()
}

/// The inputs of a node of this kind.
pub open spec fn input_fields() -> Seq<FieldView> {
    seq![
        FieldView {
            name: "value"@,
            field_type: FieldType::String,
            item_type: None,
            description: Some(I18nView { zh: "鼠标点击值，示例：left/right"@, en: "Mouse click value, e.g. left/right"@ }),
            enums: seq!["left"@, "right"@],
            default: Some("left"@),
            condition: None,
        },
    ]
}

impl NodeDefine for MouseClickNode {
    /// The action type of the kind.
    open spec fn names(&self, action_type: Seq<char>) -> bool {
        action_type == "MouseClick"@
    }

    /// The outputs of a node of this kind whose inputs are `input`.
    open spec fn declares(&self, input: Map<Seq<char>, JsonView>, fields: Seq<FieldView>) -> bool {
        fields == output_fields()
    }

    fn action_type(&self) -> (r: String)
        ensures
            r@ == "MouseClick"@,
    {
        "MouseClick".to_owned()
    }

    fn name(&self) -> (r: I18nValue)
        ensures
            r@ == name_text(),
    {
        I18nValue {
            zh: "鼠标点击".to_owned(),
            en: "Mouse Click".to_owned(),
        }
    }

    fn icon(&self) -> (r: String)
        ensures
            r@ == ICON@,
    {
        ICON.to_owned()
    }

    fn category(&self) -> (r: Option<I18nValue>)
        ensures
            i18n_option_view(r) == category_text(),
    {
        Some(I18nValue {
            zh: "桌面自动化".to_owned(),
            en: "Desktop Automatic".to_owned(),
        })
    }

    fn description(&self) -> (r: Option<I18nValue>)
        ensures
            i18n_option_view(r) == description_text(),
    {
        Some(I18nValue {
            zh: "模拟鼠标点击操作".to_owned(),
            en: "Simulate mouse click operations".to_owned(),
        })
    }

    fn output_schema(&self, _input: &Vec<(String, JsonValue)>) -> (r: Vec<SchemaField>)
        ensures
            fields_view(r@) == output_fields(),
    {
        let r: Vec<SchemaField> = Vec::new();
        assert(fields_view(r@) =~= output_fields());
        r
    }

    fn input_schema(&self) -> (r: Vec<SchemaField>)
        ensures
            fields_view(r@) == input_fields(),
    {
        let f0 = SchemaField {
            name: "value".to_owned(),
            field_type: FieldType::String,
            item_type: None,
            description: Some(I18nValue {
                zh: "鼠标点击值，示例：left/right".to_owned(),
                en: "Mouse click value, e.g. left/right".to_owned(),
            }),
            enums: vec!["left".to_owned(), "right".to_owned()],
            default: Some("left".to_owned()),
            condition: None,
        };
        assert(f0@.enums =~= input_fields()[0].enums);
        assert(f0@ == input_fields()[0]);
        let r = vec![f0];
        assert(fields_view(r@) =~= input_fields());
        r
    }
}

} // verus!
