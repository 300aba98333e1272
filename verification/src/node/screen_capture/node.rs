//! The node kind that saves a picture of the screen.

use vstd::prelude::*;
use crate::json::{JsonValue, JsonView};
use crate::types::field::{Condition, ConditionView, ConstraintView, FieldCondition, FieldConditionView, fields_view, FieldType, FieldView, SchemaField, StringConstraint, StringConstraintView, ValueConstraint};
use crate::types::node::{i18n_option_view, I18nValue, I18nView, NodeDefine};

verus! {

pub const NODE_TYPE: &'static str = "ScreenCapture";

#[derive(Default)]
pub struct ScreenCaptureNode;

impl ScreenCaptureNode {
    pub fn new() -> Self {
        Self {  }
    }
}

/// The icon of the node kind, as a data URL.
pub const ICON: &'static str = "data:image/svg+xml;base64,PHN2ZyB4bWxucz0iaHR0cDovL3d3dy53My5vcmcvMjAwMC9zdmciIHdpZHRoPSIyNCIgaGVpZ2h0PSIyNCIgdmlld0JveD0iMCAwIDI0IDI0IiBmaWxsPSJub25lIiBzdHJva2U9ImN1cnJlbnRDb2xvciIgc3Ryb2tlLXdpZHRoPSIyIiBzdHJva2UtbGluZWNhcD0icm91bmQiIHN0cm9rZS1saW5lam9pbj0icm91bmQiPjxyZWN0IHg9IjMiIHk9IjQiIHdpZHRoPSIxOCIgaGVpZ2h0PSIxMiIgcng9IjIiIHJ5PSIyIi8+PHBhdGggZD0iTTkgMjBoNiIvPjxwYXRoIGQ9Ik0xMiAxNnY0Ii8+PGNpcmNsZSBjeD0iMTIiIGN5PSIxMCIgcj0iMi41Ii8+PC9zdmc+";

/// The condition that a part of the screen is asked for: `mode` is `area`.
pub open spec fn area_condition_view() -> ConditionView {
    ConditionView::Field(
        FieldConditionView {
            field: "mode"@,
            constraint: ConstraintView::String(
                StringConstraintView {
                    min_length: None,
                    max_length: None,
                    pattern: None,
                    format: None,
                    equals: Some("area"@),
                    enum_values: None,
                },
            ),
            required: true,
        },
    )
}

/// The name of the node kind.
pub open spec fn name_text() -> I18nView {
    I18nView { zh: "屏幕截图"@, en: "Screen Capture"@ }
}

/// The category of the node kind.
pub open spec fn category_text() -> Option<I18nView> {
    Some(I18nView { zh: "桌面自动化"@, en: "Desktop Automatic"@ })
}

/// The description of the node kind.
pub open spec fn description_text() -> Option<I18nView> {
    Some(I18nView { zh: "截取桌面屏幕，可选择全屏或指定区域。"@, en: "Capture desktop screen as a full image or specified area and save to file."@ })
}

/// The outputs of a node of this kind.
pub open spec fn output_fields() -> Seq<FieldView> {
    seq![
        FieldView {
            name: "file"@,
            field_type: FieldType::String,
            item_type: None,
            description: Some(I18nView { zh: "截图保存名称"@, en: "Saved screenshot name"@ }),
            enums: Seq::empty(),
            default: None,
            condition: None,
        },
        FieldView {
            name: "width"@,
            field_type: FieldType::Number,
            item_type: None,
            description: Some(I18nView { zh: "截图宽度"@, en: "Screenshot width"@ }),
            enums: Seq::empty(),
            default: None,
            condition: None,
        },
        FieldView {
            name: "height"@,
            field_type: FieldType::Number,
            item_type: None,
            description: Some(I18nView { zh: "截图高度"@, en: "Screenshot height"@ }),
            enums: Seq::empty(),
            default: None,
            condition: None,
        },
    ]
}

/// The inputs of a node of this kind.
pub open spec fn input_fields() -> Seq<FieldView> {
    seq![
        FieldView {
            name: "mode"@,
            field_type: FieldType::String,
            item_type: None,
            description: Some(I18nView { zh: "截图模式：full/area"@, en: "Capture mode: full or area"@ }),
            enums: seq!["full"@, "area"@],
            default: Some("full"@),
            condition: None,
        },
        FieldView {
            name: "file_name"@,
            field_type: FieldType::String,
            item_type: None,
            description: Some(I18nView { zh: "保存的文件名。"@, en: "File name to save under current workflow directory."@ }),
            enums: Seq::empty(),
            default: Some("screenshot.png"@),
            condition: None,
        },
        FieldView {
            name: "screen_index"@,
            field_type: FieldType::Number,
            item_type: None,
            description: Some(I18nView { zh: "使用的屏幕索引，默认0。"@, en: "Screen index to capture, default 0."@ }),
            enums: Seq::empty(),
            default: Some("0"@),
            condition: None,
        },
        FieldView {
            name: "x"@,
            field_type: FieldType::Number,
            item_type: None,
            description: Some(I18nView { zh: "区域截图的起始X坐标"@, en: "Start X for area capture"@ }),
            enums: Seq::empty(),
            default: None,
            condition: Some(area_condition_view()),
        },
        FieldView {
            name: "y"@,
            field_type: FieldType::Number,
            item_type: None,
            description: Some(I18nView { zh: "区域截图的起始Y坐标"@, en: "Start Y for area capture"@ }),
            enums: Seq::empty(),
            default: None,
            condition: Some(area_condition_view()),
        },
        FieldView {
            name: "width"@,
            field_type: FieldType::Number,
            item_type: None,
            description: Some(I18nView { zh: "区域截图的宽度"@, en: "Width for area capture"@ }),
            enums: Seq::empty(),
            default: None,
            condition: Some(area_condition_view()),
        },
        FieldView {
            name: "height"@,
            field_type: FieldType::Number,
            item_type: None,
            description: Some(I18nView { zh: "区域截图的高度"@, en: "Height for area capture"@ }),
            enums: Seq::empty(),
            default: None,
            condition: Some(area_condition_view()),
        },
    ]
}

impl NodeDefine for ScreenCaptureNode {
    /// The action type of the kind.
    open spec fn names(&self, action_type: Seq<char>) -> bool {
        action_type == NODE_TYPE@
    }

    /// The outputs of a node of this kind whose inputs are `input`.
    open spec fn declares(&self, input: Map<Seq<char>, JsonView>, fields: Seq<FieldView>) -> bool {
        fields == output_fields()
    }

    fn action_type(&self) -> (r: String)
        ensures
            r@ == NODE_TYPE@,
    {
        NODE_TYPE.to_owned()
    }

    fn name(&self) -> (r: I18nValue)
        ensures
            r@ == name_text(),
    {
        I18nValue {
            zh: "屏幕截图".to_owned(),
            en: "Screen Capture".to_owned(),
        }
    }

    fn icon(&self) -> (r: String)
        ensures
            r@ == ICON@,
    {
        ICON.to_owned()
    }

    fn category(&self) -> (r: Option<I18nValue>)
        ensures
            i18n_option_view(r) == category_text(),
    {
        Some(I18nValue {
            zh: "桌面自动化".to_owned(),
            en: "Desktop Automatic".to_owned(),
        })
    }

    fn description(&self) -> (r: Option<I18nValue>)
        ensures
            i18n_option_view(r) == description_text(),
    {
        Some(I18nValue {
            zh: "截取桌面屏幕，可选择全屏或指定区域。".to_owned(),
            en: "Capture desktop screen as a full image or specified area and save to file."
                .to_owned(),
        })
    }

    fn output_schema(&self, _input: &Vec<(String, JsonValue)>) -> (r: Vec<SchemaField>)
        ensures
            fields_view(r@) == output_fields(),
    {
        let f0 = SchemaField {
            name: "file".to_owned(),
            field_type: FieldType::String,
            item_type: None,
            description: Some(I18nValue {
                zh: "截图保存名称".to_owned(),
                en: "Saved screenshot name".to_owned(),
            }),
            enums: vec![],
            default: None,
            condition: None,
        };
        assert(f0@.enums =~= output_fields()[0].enums);
        assert(f0@ == output_fields()[0]);
        let f1 = SchemaField {
            name: "width".to_owned(),
            field_type: FieldType::Number,
            item_type: None,
            description: Some(I18nValue {
                zh: "截图宽度".to_owned(),
                en: "Screenshot width".to_owned(),
            }),
            enums: vec![],
            default: None,
            condition: None,
        };
        assert(f1@.enums =~= output_fields()[1].enums);
        assert(f1@ == output_fields()[1]);
        let f2 = SchemaField {
            name: "height".to_owned(),
            field_type: FieldType::Number,
            item_type: None,
            description: Some(I18nValue {
                zh: "截图高度".to_owned(),
                en: "Screenshot height".to_owned(),
            }),
            enums: vec![],
            default: None,
            condition: None,
        };
        assert(f2@.enums =~= output_fields()[2].enums);
        assert(f2@ == output_fields()[2]);
        let r = vec![f0, f1, f2];
        assert(fields_view(r@) =~= output_fields());
        r
    }

    fn input_schema(&self) -> (r: Vec<SchemaField>)
        ensures
            fields_view(r@) == input_fields(),
    {
        let area_condition = Condition::Field(FieldCondition {
            field: "mode".to_owned(),
            constraint: ValueConstraint::String(StringConstraint {
                min_length: None,
                max_length: None,
                pattern: None,
                format: None,
                equals: Some("area".to_owned()),
                enum_values: None,
            }),
            required: true,
        });
        assert(area_condition@ == area_condition_view());
        let f0 = SchemaField {
            name: "mode".to_owned(),
            field_type: FieldType::String,
            item_type: None,
            description: Some(I18nValue {
                zh: "截图模式：full/area".to_owned(),
                en: "Capture mode: full or area".to_owned(),
            }),
            enums: vec!["full".to_owned(), "area".to_owned()],
            default: Some("full".to_owned()),
            condition: None,
        };
        assert(f0@.enums =~= input_fields()[0].enums);
        assert(f0@ == input_fields()[0]);
        let f1 = SchemaField {
            name: "file_name".to_owned(),
            field_type: FieldType::String,
            item_type: None,
            description: Some(I18nValue {
                zh: "保存的文件名。".to_owned(),
                en: "File name to save under current workflow directory.".to_owned(),
            }),
            enums: vec![],
            default: Some("screenshot.png".to_owned()),
            condition: None,
        };
        assert(f1@.enums =~= input_fields()[1].enums);
        assert(f1@ == input_fields()[1]);
        let f2 = SchemaField {
            name: "screen_index".to_owned(),
            field_type: FieldType::Number,
            item_type: None,
            description: Some(I18nValue {
                zh: "使用的屏幕索引，默认0。".to_owned(),
                en: "Screen index to capture, default 0.".to_owned(),
            }),
            enums: vec![],
            default: Some("0".to_owned()),
            condition: None,
        };
        assert(f2@.enums =~= input_fields()[2].enums);
        assert(f2@ == input_fields()[2]);
        let f3 = SchemaField {
            name: "x".to_owned(),
            field_type: FieldType::Number,
            item_type: None,
            description: Some(I18nValue {
                zh: "区域截图的起始X坐标".to_owned(),
                en: "Start X for area capture".to_owned(),
            }),
            enums: vec![],
            default: None,
            condition: Some(area_condition.clone()),
        };
        assert(f3@.enums =~= input_fields()[3].enums);
        assert(f3@ == input_fields()[3]);
        let f4 = SchemaField {
            name: "y".to_owned(),
            field_type: FieldType::Number,
            item_type: None,
            description: Some(I18nValue {
                zh: "区域截图的起始Y坐标".to_owned(),
                en: "Start Y for area capture".to_owned(),
            }),
            enums: vec![],
            default: None,
            condition: Some(area_condition.clone()),
        };
        assert(f4@.enums =~= input_fields()[4].enums);
        assert(f4@ == input_fields()[4]);
        let f5 = SchemaField {
            name: "width".to_owned(),
            field_type: FieldType::Number,
            item_type: None,
            description: Some(I18nValue {
                zh: "区域截图的宽度".to_owned(),
                en: "Width for area capture".to_owned(),
            }),
            enums: vec![],
            default: None,
            condition: Some(area_condition.clone()),
        };
        assert(f5@.enums =~= input_fields()[5].enums);
        assert(f5@ == input_fields()[5]);
        let f6 = SchemaField {
            name: "height".to_owned(),
            field_type: FieldType::Number,
            item_type: None,
            description: Some(I18nValue {
                zh: "区域截图的高度".to_owned(),
                en: "Height for area capture".to_owned(),
            }),
            enums: vec![],
            default: None,
            condition: Some(area_condition),
        };
        assert(f6@.enums =~= input_fields()[6].enums);
        assert(f6@ == input_fields()[6]);
        let r = vec![f0, f1, f2, f3, f4, f5, f6];
        assert(fields_view(r@) =~= input_fields());
        r
    }
}

} // verus!
