//! The node kind that moves the mouse.

use vstd::prelude::*;
use crate::json::{JsonValue, JsonView};
use crate::types::field::{fields_view, FieldType, FieldView, SchemaField};
use crate::types::node::{i18n_option_view, I18nValue, I18nView, NodeDefine};

verus! {

#[derive(Default)]
pub struct MouseMoveNode {}

impl MouseMoveNode {
    pub fn new() -> Self {
        Self {  }
    }
}

/// The icon of the node kind, as a data URL.
pub const ICON: &'static str = "data:image/svg+xml;base64,PHN2ZyB4bWxucz0iaHR0cDovL3d3dy53My5vcmcvMjAwMC9zdmciIHdpZHRoPSIyNCIgaGVpZ2h0PSIyNCIgdmlld0JveD0iMCAwIDI0IDI0IiBmaWxsPSJub25lIiBzdHJva2U9ImN1cnJlbnRDb2xvciIgc3Ryb2tlLXdpZHRoPSIxLjUiIHN0cm9rZS1saW5lY2FwPSJyb3VuZCIgc3Ryb2tlLWxpbmVqb2luPSJyb3VuZCIgY2xhc3M9Imx1Y2lkZSBsdWNpZGUtc3BsaW5lLXBvaW50ZXItaWNvbiBsdWNpZGUtc3BsaW5lLXBvaW50ZXIiPjxwYXRoIGQ9Ik0xMi4wMzQgMTIuNjgxYS40OTguNDk4IDAgMCAxIC42NDctLjY0N2w5IDMuNWEuNS41IDAgMCAxLS4wMzMuOTQzbC0zLjQ0NCAxLjA2OGExIDEgMCAwIDAtLjY2LjY2bC0xLjA2NyAzLjQ0M2EuNS41IDAgMCAxLS45NDMuMDMzeiIvPjxwYXRoIGQ9Ik01IDE3QTEyIDEyIDAgMCAxIDE3IDUiLz48Y2lyY2xlIGN4PSIxOSIgY3k9IjUiIHI9IjIiLz48Y2lyY2xlIGN4PSI1IiBjeT0iMTkiIHI9IjIiLz48L3N2Zz4=";

/// The name of the node kind.
pub open spec fn name_text() -> I18nView {
    I18nView { zh: "鼠标移动"@, en: "MouseMove"@ }
}

/// The category of the node kind.
pub open spec fn category_text() -> Option<I18nView> {
    Some(I18nView { zh: "桌面自动化"@, en: "Desktop Automatic"@ })
}

/// The description of the node kind.
pub open spec fn description_text() -> Option<I18nView> {
    Some(I18nView { zh: "接收参数x和y坐标，模拟鼠标移动"@, en: "Accepts x and y coordinates as parameters to simulate mouse movement."@ })
}

/// The outputs of a node of this kind.
pub open spec fn output_fields() -> Seq<FieldView> {
    Seq::empty()
}

/// The inputs of a node of this kind.
pub open spec fn input_fields() -> Seq<FieldView> {
    seq![
        FieldView {
            name: "x"@,
            field_type: FieldType::Number,
            item_type: None,
            description: Some(I18nView { zh: "鼠标移动的横坐标"@, en: "Horizontal position of mouse move"@ }),
            enums: Seq::empty(),
            default: None,
            condition: None,
        },
        FieldView {
            name: "y"@,
            field_type: FieldType::Number,
            item_type: None,
            description: Some(I18nView { zh: "鼠标移动的纵坐标"@, en: "Vertical position of mouse move"@ }),
            enums: Seq::empty(),
            default: None,
            condition: None,
        },
        FieldView {
            name: "hidpi"@,
            field_type: FieldType::String,
            item_type: None,
            description: Some(I18nView { zh: "HiDPI "@, en: "HiDPI"@ }),
            enums: seq!["100%"@, "200%"@, "400%"@],
            default: Some("100%"@),
            condition: None,
        },
    ]
}

impl NodeDefine for MouseMoveNode {
    /// The action type of the kind.
    open spec fn names(&self, action_type: Seq<char>) -> bool {
        action_type == "MouseMove"@
    }

    /// The outputs of a node of this kind whose inputs are `input`.
    open spec fn declares(&self, input: Map<Seq<char>, JsonView>, fields: Seq<FieldView>) -> bool {
        fields == output_fields()
    }

    fn action_type(&self) -> (r: String)
        ensures
            r@ == "MouseMove"@,
    {
        "MouseMove".to_owned()
    }

    fn name(&self) -> (r: I18nValue)
        ensures
            r@ == name_text(),
    {
        I18nValue {
            zh: "鼠标移动".to_owned(),
            en: "MouseMove".to_owned(),
        }
    }

    fn icon(&self) -> (r: String)
        ensures
            r@ == ICON@,
    {
        ICON.to_owned()
    }

    fn category(&self) -> (r: Option<I18nValue>)
        ensures
            i18n_option_view(r) == category_text(),
    {
        Some(I18nValue {
            zh: "桌面自动化".to_owned(),
            en: "Desktop Automatic".to_owned(),
        })
    }

    fn description(&self) -> (r: Option<I18nValue>)
        ensures
            i18n_option_view(r) == description_text(),
    {
        Some(I18nValue {
            zh: "接收参数x和y坐标，模拟鼠标移动".to_owned(),
            en: "Accepts x and y coordinates as parameters to simulate mouse movement.".to_owned(),
        })
    }

    fn output_schema(&self, _input: &Vec<(String, JsonValue)>) -> (r: Vec<SchemaField>)
        ensures
            fields_view(r@) == output_fields(),
    {
        let r: Vec<SchemaField> = Vec::new();
        assert(fields_view(r@) =~= output_fields());
        r
    }

    fn input_schema(&self) -> (r: Vec<SchemaField>)
        ensures
            fields_view(r@) == input_fields(),
    {
        let f0 = SchemaField {
            name: "x".to_owned(),
            field_type: FieldType::Number,
            item_type: None,
            description: Some(I18nValue {
                zh: "鼠标移动的横坐标".to_owned(),
                en: "Horizontal position of mouse move".to_owned(),
            }),
            enums: vec![],
            default: None,
            condition: None,
        };
        assert(f0@.enums =~= input_fields()[0].enums);
        assert(f0@ == input_fields()[0]);
        let f1 = SchemaField {
            name: "y".to_owned(),
            field_type: FieldType::Number,
            item_type: None,
            description: Some(I18nValue {
                zh: "鼠标移动的纵坐标".to_owned(),
                en: "Vertical position of mouse move".to_owned(),
            }),
            enums: vec![],
            default: None,
            condition: None,
        };
        assert(f1@.enums =~= input_fields()[1].enums);
        assert(f1@ == input_fields()[1]);
        let f2 = SchemaField {
            name: "hidpi".to_owned(),
            field_type: FieldType::String,
            item_type: None,
            description: Some(I18nValue {
                zh: "HiDPI ".to_owned(),
                en: "HiDPI".to_owned(),
            }),
            enums: vec!["100%".to_owned(), "200%".to_owned(), "400%".to_owned()],
            default: Some("100%".to_owned()),
            condition: None,
        };
        assert(f2@.enums =~= input_fields()[2].enums);
        assert(f2@ == input_fields()[2]);
        let r = vec![f0, f1, f2];
        assert(fields_view(r@) =~= input_fields());
        r
    }
}

} // verus!
