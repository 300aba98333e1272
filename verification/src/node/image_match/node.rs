//! The node kind that finds a template image in a source image.

use vstd::prelude::*;
use crate::json::{JsonValue, JsonView};
use crate::types::field::{fields_view, FieldType, FieldView, SchemaField};
use crate::types::node::{i18n_option_view, I18nValue, I18nView, NodeDefine};

verus! {

#[derive(Default)]
pub struct ImageMatchNode;

impl ImageMatchNode {
    pub fn new() -> Self {
        ImageMatchNode {}
    }
}

/// The icon of the node kind, as a data URL.
pub const ICON: &'static str = "data:image/svg+xml;base64,PHN2ZyB4bWxucz0iaHR0cDovL3d3dy53My5vcmcvMjAwMC9zdmciIHdpZHRoPSIyNCIgaGVpZ2h0PSIyNCIgdmlld0JveD0iMCAwIDI0IDI0IiBmaWxsPSJub25lIiBzdHJva2U9ImN1cnJlbnRDb2xvciIgc3Ryb2tlLXdpZHRoPSIyIiBzdHJva2UtbGluZWNhcD0icm91bmQiIHN0cm9rZS1saW5lam9pbj0icm91bmQiIGNsYXNzPSJsdWNpZGUgbHVjaWRlLWltYWdlcy1pY29uIGx1Y2lkZS1pbWFnZXMiPjxwYXRoIGQ9Im0yMiAxMS0xLjI5Ni0xLjI5NmEyLjQgMi40IDAgMCAwLTMuNDA4IDBMMTEgMTYiLz48cGF0aCBkPSJNNCA4YTIgMiAwIDAgMC0yIDJ2MTBhMiAyIDAgMCAwIDIgMmgxMGEyIDIgMCAwIDAgMi0yIi8+PGNpcmNsZSBjeD0iMTMiIGN5PSI3IiByPSIxIiBmaWxsPSJjdXJyZW50Q29sb3IiLz48cmVjdCB4PSI4IiB5PSIyIiB3aWR0aD0iMTQiIGhlaWdodD0iMTQiIHJ4PSIyIi8+PC9zdmc+";

/// The name of the node kind.
pub open spec fn name_text() -> I18nView {
    I18nView { zh: "图像匹配"@, en: "Image Match"@ }
}

/// The category of the node kind.
pub open spec fn category_text() -> Option<I18nView> {
    Some(I18nView { zh: "图像处理"@, en: "Image Processing"@ })
}

/// The description of the node kind.
pub open spec fn description_text() -> Option<I18nView> {
    Some(I18nView { zh: "找到目标图片在模板图片上的坐标位置"@, en: "Determine the coordinates of the target image on the template image"@ })
}

/// The outputs of a node of this kind.
pub open spec fn output_fields() -> Seq<FieldView> {
    seq![
        FieldView {
            name: "score"@,
            field_type: FieldType::Number,
            item_type: None,
            description: Some(I18nView { zh: "匹配结果分值，最小为0，最大为1"@, en: "Matching final score, minimum 0, maximum 1"@ }),
            enums: Seq::empty(),
            default: Some("0.8"@),
            condition: None,
        },
    ]
}

/// The inputs of a node of this kind.
pub open spec fn input_fields() -> Seq<FieldView> {
    seq![
        FieldView {
            name: "target_score"@,
            field_type: FieldType::Number,
            item_type: None,
            description: Some(I18nView { zh: "目标匹配分值，最小为0，最大为1"@, en: "Target matching score, minimum 0, maximum 1"@ }),
            enums: Seq::empty(),
            default: Some("0.8"@),
            condition: None,
        },
        FieldView {
            name: "imread_type"@,
            field_type: FieldType::String,
            item_type: None,
            description: Some(I18nView { zh: "图像读取方式"@, en: "Image read mode"@ }),
            enums: seq!["Grayscale"@, "Color"@],
            default: Some("Grayscale"@),
            condition: None,
        },
        FieldView {
            name: "use_screenshot"@,
            field_type: FieldType::Boolean,
            item_type: None,
            description: Some(I18nView { zh: "是否使用桌面截图作为源图片？"@, en: "Should desktop screenshots be used as source images?"@ }),
            enums: Seq::empty(),
            default: None,
            condition: None,
        },
        FieldView {
            name: "resize"@,
            field_type: FieldType::Number,
            item_type: None,
            description: Some(I18nView { zh: "图片大小倍率，倍率越小匹配速度越快，精度越低"@, en: "Image scaling factor: The smaller the scaling factor, the faster the matching speed but the lower the accuracy."@ }),
            enums: seq!["0.5"@, "1"@, "2"@],
            default: Some("1"@),
            condition: None,
        },
        FieldView {
            name: "template_image"@,
            field_type: FieldType::File,
            item_type: None,
            description: Some(I18nView { zh: "图像模板"@, en: "Image template"@ }),
            enums: Seq::empty(),
            default: None,
            condition: None,
        },
        FieldView {
            name: "source_image"@,
            field_type: FieldType::File,
            item_type: None,
            description: Some(I18nView { zh: "原始图像"@, en: "Source image"@ }),
            enums: Seq::empty(),
            default: None,
            condition: None,
        },
    ]
}

impl NodeDefine for ImageMatchNode {
    /// The action type of the kind.
    open spec fn names(&self, action_type: Seq<char>) -> bool {
        action_type == "ImageMatch"@
    }

    /// The outputs of a node of this kind whose inputs are `input`.
    open spec fn declares(&self, input: Map<Seq<char>, JsonView>, fields: Seq<FieldView>) -> bool {
        fields == output_fields()
    }

    fn action_type(&self) -> (r: String)
        ensures
            r@ == "ImageMatch"@,
    {
        "ImageMatch".to_owned()
    }

    fn name(&self) -> (r: I18nValue)
        ensures
            r@ == name_text(),
    {
        I18nValue {
            zh: "图像匹配".to_owned(),
            en: "Image Match".to_owned(),
        }
    }

    fn icon(&self) -> (r: String)
        ensures
            r@ == ICON@,
    {
        ICON.to_owned()
    }

    fn category(&self) -> (r: Option<I18nValue>)
        ensures
            i18n_option_view(r) == category_text(),
    {
        Some(I18nValue {
            zh: "图像处理".to_owned(),
            en: "Image Processing".to_owned(),
        })
    }

    fn description(&self) -> (r: Option<I18nValue>)
        ensures
            i18n_option_view(r) == description_text(),
    {
        Some(I18nValue {
            zh: "找到目标图片在模板图片上的坐标位置".to_owned(),
            en: "Determine the coordinates of the target image on the template image".to_owned(),
        })
    }

    fn output_schema(&self, _input: &Vec<(String, JsonValue)>) -> (r: Vec<SchemaField>)
        ensures
            fields_view(r@) == output_fields(),
    {
        let f0 = SchemaField {
            name: "score".to_owned(),
            field_type: FieldType::Number,
            item_type: None,
            description: Some(I18nValue {
                zh: "匹配结果分值，最小为0，最大为1".to_owned(),
                en: "Matching final score, minimum 0, maximum 1".to_owned(),
            }),
            enums: vec![],
            default: Some("0.8".to_owned()),
            condition: None,
        };
        assert(f0@.enums =~= output_fields()[0].enums);
        assert(f0@ == output_fields()[0]);
        let r = vec![f0];
        assert(fields_view(r@) =~= output_fields());
        r
    }

    fn input_schema(&self) -> (r: Vec<SchemaField>)
        ensures
            fields_view(r@) == input_fields(),
    {
        let f0 = SchemaField {
            name: "target_score".to_owned(),
            field_type: FieldType::Number,
            item_type: None,
            description: Some(I18nValue {
                zh: "目标匹配分值，最小为0，最大为1".to_owned(),
                en: "Target matching score, minimum 0, maximum 1".to_owned(),
            }),
            enums: vec![],
            default: Some("0.8".to_owned()),
            condition: None,
        };
        assert(f0@.enums =~= input_fields()[0].enums);
        assert(f0@ == input_fields()[0]);
        let f1 = SchemaField {
            name: "imread_type".to_owned(),
            field_type: FieldType::String,
            item_type: None,
            description: Some(I18nValue {
                zh: "图像读取方式".to_owned(),
                en: "Image read mode".to_owned(),
            }),
            enums: vec!["Grayscale".to_owned(), "Color".to_owned()],
            default: Some("Grayscale".to_owned()),
            condition: None,
        };
        assert(f1@.enums =~= input_fields()[1].enums);
        assert(f1@ == input_fields()[1]);
        let f2 = SchemaField {
            name: "use_screenshot".to_owned(),
            field_type: FieldType::Boolean,
            item_type: None,
            description: Some(I18nValue {
                zh: "是否使用桌面截图作为源图片？".to_owned(),
                en: "Should desktop screenshots be used as source images?".to_owned(),
            }),
            enums: vec![],
            default: None,
            condition: None,
        };
        assert(f2@.enums =~= input_fields()[2].enums);
        assert(f2@ == input_fields()[2]);
        let f3 = SchemaField {
            name: "resize".to_owned(),
            field_type: FieldType::Number,
            item_type: None,
            description: Some(I18nValue {
                zh: "图片大小倍率，倍率越小匹配速度越快，精度越低".to_owned(),
                en: "Image scaling factor: The smaller the scaling factor, the faster the matching speed but the lower the accuracy.".to_owned(),
            }),
            enums: vec!["0.5".to_owned(), "1".to_owned(), "2".to_owned()],
            default: Some("1".to_owned()),
            condition: None,
        };
        assert(f3@.enums =~= input_fields()[3].enums);
        assert(f3@ == input_fields()[3]);
        let f4 = SchemaField {
            name: "template_image".to_owned(),
            field_type: FieldType::File,
            item_type: None,
            description: Some(I18nValue {
                zh: "图像模板".to_owned(),
                en: "Image template".to_owned(),
            }),
            enums: vec![],
            default: None,
            condition: None,
        };
        assert(f4@.enums =~= input_fields()[4].enums);
        assert(f4@ == input_fields()[4]);
        let f5 = SchemaField {
            name: "source_image".to_owned(),
            field_type: FieldType::File,
            item_type: None,
            description: Some(I18nValue {
                zh: "原始图像".to_owned(),
                en: "Source image".to_owned(),
            }),
            enums: vec![],
            default: None,
            condition: None,
        };
        assert(f5@.enums =~= input_fields()[5].enums);
        assert(f5@ == input_fields()[5]);
        let r = vec![f0, f1, f2, f3, f4, f5];
        assert(fields_view(r@) =~= input_fields());
        r
    }
}

} // verus!
