//! The node kind that reads text from an image.

use vstd::prelude::*;
use crate::json::{JsonValue, JsonView};
use crate::types::field::{fields_view, FieldType, FieldView, SchemaField};
use crate::types::node::{i18n_option_view, I18nValue, I18nView, NodeDefine};

verus! {

pub const NODE_TYPE: &'static str = "OCR";

#[derive(Default)]
pub struct OcrNode;

impl OcrNode {
    pub fn new() -> Self {
        Self {  }
    }
}

/// The icon of the node kind, as a data URL.
pub const ICON: &'static str = "data:image/svg+xml;base64,PHN2ZyB4bWxucz0iaHR0cDovL3d3dy53My5vcmcvMjAwMC9zdmciIHdpZHRoPSIyNCIgaGVpZ2h0PSIyNCIgdmlld0JveD0iMCAwIDI0IDI0IiBmaWxsPSJub25lIiBzdHJva2U9ImN1cnJlbnRDb2xvciIgc3Ryb2tlLXdpZHRoPSIxLjUiIHN0cm9rZS1saW5lY2FwPSJyb3VuZCIgc3Ryb2tlLWxpbmVqb2luPSJyb3VuZCIgY2xhc3M9Imx1Y2lkZSBsdWNpZGUtc2Nhbi10ZXh0LWljb24gbHVjaWRlLXNjYW4tdGV4dCI+PHBhdGggZD0iTTMgN1Y1YTIgMiAwIDAgMSAyLTJoMiIvPjxwYXRoIGQ9Ik0xNyAzaDJhMiAyIDAgMCAxIDIgMnYyIi8+PHBhdGggZD0iTTIxIDE3djJhMiAyIDAgMCAxLTIgMmgtMiIvPjxwYXRoIGQ9Ik03IDIxSDVhMiAyIDAgMCAxLTItMnYtMiIvPjxwYXRoIGQ9Ik03IDhoOCIvPjxwYXRoIGQ9Ik03IDEyaDEwIi8+PHBhdGggZD0iTTcgMTZoNiIvPjwvc3ZnPg==";

/// The name of the node kind.
pub open spec fn name_text() -> I18nView {
    I18nView { zh: "本地OCR"@, en: "Local OCR"@ }
}

/// The category of the node kind.
pub open spec fn category_text() -> Option<I18nView> {
    Some(I18nView { zh: "图像处理"@, en: "Image Processing"@ })
}

/// The description of the node kind.
pub open spec fn description_text() -> Option<I18nView> {
    Some(I18nView { zh: "使用内置 PP-OCRv5 模型进行本地 OCR 识别，返回首个检测文本及置信度。"@, en: "Run OCR locally with the built-in PP-OCRv5 model, returning the first detected text and confidence."@ })
}

/// The outputs of a node of this kind.
pub open spec fn output_fields() -> Seq<FieldView> {
    seq![
        FieldView {
            name: "text"@,
            field_type: FieldType::String,
            item_type: None,
            description: Some(I18nView { zh: "首个识别出的文本"@, en: "First recognized text"@ }),
            enums: Seq::empty(),
            default: None,
            condition: None,
        },
        FieldView {
            name: "confidence"@,
            field_type: FieldType::Number,
            item_type: None,
            description: Some(I18nView { zh: "对应文本的置信度得分"@, en: "Confidence score for the detected text"@ }),
            enums: Seq::empty(),
            default: None,
            condition: None,
        },
    ]
}

/// The inputs of a node of this kind.
pub open spec fn input_fields() -> Seq<FieldView> {
    seq![
        FieldView {
            name: "image"@,
            field_type: FieldType::File,
            item_type: None,
            description: Some(I18nView { zh: "待识别的图片路径，支持绝对路径或相对工作流 files 目录。"@, en: "Image path for OCR, absolute or relative to the workflow files directory."@ }),
            enums: Seq::empty(),
            default: None,
            condition: None,
        },
        FieldView {
            name: "digits_only"@,
            field_type: FieldType::Boolean,
            item_type: None,
            description: Some(I18nView { zh: "仅保留 ASCII 数字字符，过滤其他字符。"@, en: "Keep only ASCII digits, filtering out other characters."@ }),
            enums: Seq::empty(),
            default: Some("false"@),
            condition: None,
        },
    ]
}

impl NodeDefine for OcrNode {
    /// The action type of the kind.
    open spec fn names(&self, action_type: Seq<char>) -> bool {
        action_type == NODE_TYPE@
    }

    /// The outputs of a node of this kind whose inputs are `input`.
    open spec fn declares(&self, input: Map<Seq<char>, JsonView>, fields: Seq<FieldView>) -> bool {
        fields == output_fields()
    }

    fn action_type(&self) -> (r: String)
        ensures
            r@ == NODE_TYPE@,
    {
        NODE_TYPE.to_owned()
    }

    fn name(&self) -> (r: I18nValue)
        ensures
            r@ == name_text(),
    {
        I18nValue {
            zh: "本地OCR".to_owned(),
            en: "Local OCR".to_owned(),
        }
    }

    fn icon(&self) -> (r: String)
        ensures
            r@ == ICON@,
    {
        ICON.to_owned()
    }

    fn category(&self) -> (r: Option<I18nValue>)
        ensures
            i18n_option_view(r) == category_text(),
    {
        Some(I18nValue {
            zh: "图像处理".to_owned(),
            en: "Image Processing".to_owned(),
        })
    }

    fn description(&self) -> (r: Option<I18nValue>)
        ensures
            i18n_option_view(r) == description_text(),
    {
        Some(I18nValue {
            zh: "使用内置 PP-OCRv5 模型进行本地 OCR 识别，返回首个检测文本及置信度。".to_owned(),
            en: "Run OCR locally with the built-in PP-OCRv5 model, returning the first detected text and confidence."
                .to_owned(),
        })
    }

    fn output_schema(&self, _input: &Vec<(String, JsonValue)>) -> (r: Vec<SchemaField>)
        ensures
            fields_view(r@) == output_fields(),
    {
        let f0 = SchemaField {
            name: "text".to_owned(),
            field_type: FieldType::String,
            item_type: None,
            description: Some(I18nValue {
                zh: "首个识别出的文本".to_owned(),
                en: "First recognized text".to_owned(),
            }),
            enums: vec![],
            default: None,
            condition: None,
        };
        assert(f0@.enums =~= output_fields()[0].enums);
        assert(f0@ == output_fields()[0]);
        let f1 = SchemaField {
            name: "confidence".to_owned(),
            field_type: FieldType::Number,
            item_type: None,
            description: Some(I18nValue {
                zh: "对应文本的置信度得分".to_owned(),
                en: "Confidence score for the detected text".to_owned(),
            }),
            enums: vec![],
            default: None,
            condition: None,
        };
        assert(f1@.enums =~= output_fields()[1].enums);
        assert(f1@ == output_fields()[1]);
        let r = vec![f0, f1];
        assert(fields_view(r@) =~= output_fields());
        r
    }

    fn input_schema(&self) -> (r: Vec<SchemaField>)
        ensures
            fields_view(r@) == input_fields(),
    {
        let f0 = SchemaField {
            name: "image".to_owned(),
            field_type: FieldType::File,
            item_type: None,
            description: Some(I18nValue {
                zh: "待识别的图片路径，支持绝对路径或相对工作流 files 目录。".to_owned(),
                en: "Image path for OCR, absolute or relative to the workflow files directory."
                    .to_owned(),
            }),
            enums: vec![],
            default: None,
            condition: None,
        };
        assert(f0@.enums =~= input_fields()[0].enums);
        assert(f0@ == input_fields()[0]);
        let f1 = SchemaField {
            name: "digits_only".to_owned(),
            field_type: FieldType::Boolean,
            item_type: None,
            description: Some(I18nValue {
                zh: "仅保留 ASCII 数字字符，过滤其他字符。".to_owned(),
                en: "Keep only ASCII digits, filtering out other characters.".to_owned(),
            }),
            enums: vec![],
            default: Some("false".to_owned()),
            condition: None,
        };
        assert(f1@.enums =~= input_fields()[1].enums);
        assert(f1@ == input_fields()[1]);
        let r = vec![f0, f1];
        assert(fields_view(r@) =~= input_fields());
        r
    }
}

} // verus!
