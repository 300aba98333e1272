//! The node kind that presses keys or types text.

use vstd::prelude::*;
use crate::json::{JsonValue, JsonView};
use crate::types::field::{fields_view, FieldType, FieldView, SchemaField};
use crate::types::node::{i18n_option_view, I18nValue, I18nView, NodeDefine};

verus! {

#[derive(Default)]
pub struct KeyboardNode {}

impl KeyboardNode {
    pub fn new() -> Self {
        Self {  }
    }
}

/// The icon of the node kind, as a data URL.
pub const ICON: &'static str = "data:image/svg+xml;base64,PHN2ZyB4bWxucz0iaHR0cDovL3d3dy53My5vcmcvMjAwMC9zdmciIHdpZHRoPSIyNCIgaGVpZ2h0PSIyNCIgdmlld0JveD0iMCAwIDI0IDI0IiBmaWxsPSJub25lIiBzdHJva2U9ImN1cnJlbnRDb2xvciIgc3Ryb2tlLXdpZHRoPSIxLjUiIHN0cm9rZS1saW5lY2FwPSJyb3VuZCIgc3Ryb2tlLWxpbmVqb2luPSJyb3VuZCIgY2xhc3M9Imx1Y2lkZSBsdWNpZGUta2V5Ym9hcmQtaWNvbiBsdWNpZGUta2V5Ym9hcmQiPjxwYXRoIGQ9Ik0xMCA4aC4wMSIvPjxwYXRoIGQ9Ik0xMiAxMmguMDEiLz48cGF0aCBkPSJNMTQgOGguMDEiLz48cGF0aCBkPSJNMTYgMTJoLjAxIi8+PHBhdGggZD0iTTE4IDhoLjAxIi8+PHBhdGggZD0iTTYgOGguMDEiLz48cGF0aCBkPSJNNyAxNmgxMCIvPjxwYXRoIGQ9Ik04IDEyaC4wMSIvPjxyZWN0IHdpZHRoPSIyMCIgaGVpZ2h0PSIxNiIgeD0iMiIgeT0iNCIgcng9IjIiLz48L3N2Zz4=";

/// The name of the node kind.
pub open spec fn name_text() -> I18nView {
    I18nView { zh: "键盘"@, en: "Keyboard"@ }
}

/// The category of the node kind.
pub open spec fn category_text() -> Option<I18nView> {
    Some(I18nView { zh: "桌面自动化"@, en: "Desktop Automatic"@ })
}

/// The description of the node kind.
pub open spec fn description_text() -> Option<I18nView> {
    Some(I18nView { zh: "模拟键盘按键或文本输入"@, en: "Simulate keyboard key presses or text input"@ })
}

/// The outputs of a node of this kind.
pub open spec fn output_fields() -> Seq<FieldView> {
    Seq::empty()
}

/// The inputs of a node of this kind.
pub open spec fn input_fields() -> Seq<FieldView> {
    seq![
        FieldView {
            name: "mode"@,
            field_type: FieldType::String,
            item_type: None,
            description: Some(I18nView { zh: "键盘操作模式，支持点击、按下、抬起或文本输入"@, en: "Keyboard mode: click, press, release, or type text"@ }),
            enums: seq!["Click"@, "Down"@, "Up"@, "Type"@],
            default: Some("Click"@),
            condition: None,
        },
        FieldView {
            name: "key"@,
            field_type: FieldType::String,
            item_type: None,
            description: Some(I18nView { zh: "键盘按键，示例：A、Enter、F1、Control 等"@, en: "Keyboard key, e.g. A, Enter, F1, Control"@ }),
            enums: Seq::empty(),
            default: None,
            condition: None,
        },
        FieldView {
            name: "value"@,
            field_type: FieldType::String,
            item_type: None,
            description: Some(I18nView { zh: "文本输入内容，仅在 Type 模式下使用"@, en: "Text to input when mode is Type"@ }),
            enums: Seq::empty(),
            default: None,
            condition: None,
        },
    ]
}

impl NodeDefine for KeyboardNode {
    /// The action type of the kind.
    open spec fn names(&self, action_type: Seq<char>) -> bool {
        action_type == "KeyBoard"@
    }

    /// The outputs of a node of this kind whose inputs are `input`.
    open spec fn declares(&self, input: Map<Seq<char>, JsonView>, fields: Seq<FieldView>) -> bool {
        fields == output_fields()
    }

    fn action_type(&self) -> (r: String)
        ensures
            r@ == "KeyBoard"@,
    {
        "KeyBoard".to_owned()
    }

    fn name(&self) -> (r: I18nValue)
        ensures
            r@ == name_text(),
    {
        I18nValue {
            zh: "键盘".to_owned(),
            en: "Keyboard".to_owned(),
        }
    }

    fn icon(&self) -> (r: String)
        ensures
            r@ == ICON@,
    {
        ICON.to_owned()
    }

    fn category(&self) -> (r: Option<I18nValue>)
        ensures
            i18n_option_view(r) == category_text(),
    {
        Some(I18nValue {
            zh: "桌面自动化".to_owned(),
            en: "Desktop Automatic".to_owned(),
        })
    }

    fn description(&self) -> (r: Option<I18nValue>)
        ensures
            i18n_option_view(r) == description_text(),
    {
        Some(I18nValue {
            zh: "模拟键盘按键或文本输入".to_owned(),
            en: "Simulate keyboard key presses or text input".to_owned(),
        })
    }

    fn output_schema(&self, _input: &Vec<(String, JsonValue)>) -> (r: Vec<SchemaField>)
        ensures
            fields_view(r@) == output_fields(),
    {
        let r: Vec<SchemaField> = Vec::new();
        assert(fields_view(r@) =~= output_fields());
        r
    }

    fn input_schema(&self) -> (r: Vec<SchemaField>)
        ensures
            fields_view(r@) == input_fields(),
    {
        let f0 = SchemaField {
            name: "mode".to_owned(),
            field_type: FieldType::String,
            item_type: None,
            description: Some(I18nValue {
                zh: "键盘操作模式，支持点击、按下、抬起或文本输入".to_owned(),
                en: "Keyboard mode: click, press, release, or type text".to_owned(),
            }),
            enums: vec![
                "Click".to_owned(),
                "Down".to_owned(),
                "Up".to_owned(),
                "Type".to_owned(),
            ],
            default: Some("Click".to_owned()),
            condition: None,
        };
        assert(f0@.enums =~= input_fields()[0].enums);
        assert(f0@ == input_fields()[0]);
        let f1 = SchemaField {
            name: "key".to_owned(),
            field_type: FieldType::String,
            item_type: None,
            description: Some(I18nValue {
                zh: "键盘按键，示例：A、Enter、F1、Control 等".to_owned(),
                en: "Keyboard key, e.g. A, Enter, F1, Control".to_owned(),
            }),
            enums: vec![],
            default: None,
            condition: None,
        };
        assert(f1@.enums =~= input_fields()[1].enums);
        assert(f1@ == input_fields()[1]);
        let f2 = SchemaField {
            name: "value".to_owned(),
            field_type: FieldType::String,
            item_type: None,
            description: Some(I18nValue {
                zh: "文本输入内容，仅在 Type 模式下使用".to_owned(),
                en: "Text to input when mode is Type".to_owned(),
            }),
            enums: vec![],
            default: None,
            condition: None,
        };
        assert(f2@.enums =~= input_fields()[2].enums);
        assert(f2@ == input_fields()[2]);
        let r = vec![f0, f1, f2];
        assert(fields_view(r@) =~= input_fields());
        r
    }
}

} // verus!
