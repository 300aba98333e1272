//! The node kind that sends an HTTP request.

use vstd::prelude::*;
use crate::json::{JsonValue, JsonView};
use crate::types::field::{fields_view, FieldType, FieldView, SchemaField};
use crate::types::node::{i18n_option_view, I18nValue, I18nView, NodeDefine};

verus! {

pub const NODE_TYPE: &'static str = "HTTPClient";

#[derive(Default)]
pub struct HttpNode;

impl HttpNode {
    pub fn new() -> Self {
        Self {  }
    }
}

/// The icon of the node kind, as a data URL.
pub const ICON: &'static str = "data:image/svg+xml;base64,PHN2ZyB4bWxucz0iaHR0cDovL3d3dy53My5vcmcvMjAwMC9zdmciIHdpZHRoPSIyNCIgaGVpZ2h0PSIyNCIgdmlld0JveD0iMCAwIDI0IDI0IiBmaWxsPSJub25lIiBzdHJva2U9ImN1cnJlbnRDb2xvciIgc3Ryb2tlLXdpZHRoPSIxLjUiIHN0cm9rZS1saW5lY2FwPSJyb3VuZCIgc3Ryb2tlLWxpbmVqb2luPSJyb3VuZCIgY2xhc3M9Imx1Y2lkZSBsdWNpZGUtZ2xvYmUtaWNvbiBsdWNpZGUtZ2xvYmUiPjxjaXJjbGUgY3g9IjEyIiBjeT0iMTIiIHI9IjEwIi8+PHBhdGggZD0iTTEyIDJhMTQuNSAxNC41IDAgMCAwIDAgMjAgMTQuNSAxNC41IDAgMCAwIDAtMjAiLz48cGF0aCBkPSJNMiAxMmgyMCIvPjwvc3ZnPg==";

/// The name of the node kind.
pub open spec fn name_text() -> I18nView {
    I18nView { zh: "HTTP 请求"@, en: "HTTP Request"@ }
}

/// The category of the node kind.
pub open spec fn category_text() -> Option<I18nView> {
    Some(I18nView { zh: "网络请求"@, en: "Network"@ })
}

/// The description of the node kind.
pub open spec fn description_text() -> Option<I18nView> {
    Some(I18nView { zh: "发送简单的 HTTP 请求（基于 reqwest）。"@, en: "Send simple HTTP requests using reqwest."@ })
}

/// The outputs of a node of this kind.
pub open spec fn output_fields() -> Seq<FieldView> {
    seq![
        FieldView {
            name: "status"@,
            field_type: FieldType::Number,
            item_type: None,
            description: Some(I18nView { zh: "HTTP 状态码"@, en: "HTTP status code"@ }),
            enums: Seq::empty(),
            default: None,
            condition: None,
        },
        FieldView {
            name: "body"@,
            field_type: FieldType::String,
            item_type: None,
            description: Some(I18nView { zh: "响应正文"@, en: "Response body"@ }),
            enums: Seq::empty(),
            default: None,
            condition: None,
        },
    ]
}

/// The inputs of a node of this kind.
pub open spec fn input_fields() -> Seq<FieldView> {
    seq![
        FieldView {
            name: "method"@,
            field_type: FieldType::String,
            item_type: None,
            description: Some(I18nView { zh: "HTTP 方法，支持 GET/POST"@, en: "HTTP method, supports GET/POST"@ }),
            enums: seq!["GET"@, "POST"@],
            default: Some("GET"@),
            condition: None,
        },
        FieldView {
            name: "url"@,
            field_type: FieldType::String,
            item_type: None,
            description: Some(I18nView { zh: "请求 URL"@, en: "Request URL"@ }),
            enums: Seq::empty(),
            default: None,
            condition: None,
        },
        FieldView {
            name: "headers"@,
            field_type: FieldType::Array,
            item_type: Some(FieldType::String),
            description: Some(I18nView { zh: "可选请求头列表，格式：Key: Value"@, en: "Optional headers list, format: Key: Value"@ }),
            enums: Seq::empty(),
            default: None,
            condition: None,
        },
        FieldView {
            name: "body"@,
            field_type: FieldType::String,
            item_type: None,
            description: Some(I18nView { zh: "POST 请求体，文本/JSON 皆可。"@, en: "POST body, plain text or JSON string."@ }),
            enums: Seq::empty(),
            default: Some(""@),
            condition: None,
        },
        FieldView {
            name: "timeout_ms"@,
            field_type: FieldType::Number,
            item_type: None,
            description: Some(I18nView { zh: "请求超时时间（毫秒），默认 30000。"@, en: "Request timeout in milliseconds, default 30000."@ }),
            enums: Seq::empty(),
            default: Some("30000"@),
            condition: None,
        },
    ]
}

impl NodeDefine for HttpNode {
    /// The action type of the kind.
    open spec fn names(&self, action_type: Seq<char>) -> bool {
        action_type == NODE_TYPE@
    }

    /// The outputs of a node of this kind whose inputs are `input`.
    open spec fn declares(&self, input: Map<Seq<char>, JsonView>, fields: Seq<FieldView>) -> bool {
        fields == output_fields()
    }

    fn action_type(&self) -> (r: String)
        ensures
            r@ == NODE_TYPE@,
    {
        NODE_TYPE.to_owned()
    }

    fn name(&self) -> (r: I18nValue)
        ensures
            r@ == name_text(),
    {
        I18nValue {
            zh: "HTTP 请求".to_owned(),
            en: "HTTP Request".to_owned(),
        }
    }

    fn icon(&self) -> (r: String)
        ensures
            r@ == ICON@,
    {
        ICON.to_owned()
    }

    fn category(&self) -> (r: Option<I18nValue>)
        ensures
            i18n_option_view(r) == category_text(),
    {
        Some(I18nValue {
            zh: "网络请求".to_owned(),
            en: "Network".to_owned(),
        })
    }

    fn description(&self) -> (r: Option<I18nValue>)
        ensures
            i18n_option_view(r) == description_text(),
    {
        Some(I18nValue {
            zh: "发送简单的 HTTP 请求（基于 reqwest）。".to_owned(),
            en: "Send simple HTTP requests using reqwest.".to_owned(),
        })
    }

    fn output_schema(&self, _input: &Vec<(String, JsonValue)>) -> (r: Vec<SchemaField>)
        ensures
            fields_view(r@) == output_fields(),
    {
        let f0 = SchemaField {
            name: "status".to_owned(),
            field_type: FieldType::Number,
            item_type: None,
            description: Some(I18nValue {
                zh: "HTTP 状态码".to_owned(),
                en: "HTTP status code".to_owned(),
            }),
            enums: vec![],
            default: None,
            condition: None,
        };
        assert(f0@.enums =~= output_fields()[0].enums);
        assert(f0@ == output_fields()[0]);
        let f1 = SchemaField {
            name: "body".to_owned(),
            field_type: FieldType::String,
            item_type: None,
            description: Some(I18nValue {
                zh: "响应正文".to_owned(),
                en: "Response body".to_owned(),
            }),
            enums: vec![],
            default: None,
            condition: None,
        };
        assert(f1@.enums =~= output_fields()[1].enums);
        assert(f1@ == output_fields()[1]);
        let r = vec![f0, f1];
        assert(fields_view(r@) =~= output_fields());
        r
    }

    fn input_schema(&self) -> (r: Vec<SchemaField>)
        ensures
            fields_view(r@) == input_fields(),
    {
        let f0 = SchemaField {
            name: "method".to_owned(),
            field_type: FieldType::String,
            item_type: None,
            description: Some(I18nValue {
                zh: "HTTP 方法，支持 GET/POST".to_owned(),
                en: "HTTP method, supports GET/POST".to_owned(),
            }),
            enums: vec!["GET".to_owned(), "POST".to_owned()],
            default: Some("GET".to_owned()),
            condition: None,
        };
        assert(f0@.enums =~= input_fields()[0].enums);
        assert(f0@ == input_fields()[0]);
        let f1 = SchemaField {
            name: "url".to_owned(),
            field_type: FieldType::String,
            item_type: None,
            description: Some(I18nValue {
                zh: "请求 URL".to_owned(),
                en: "Request URL".to_owned(),
            }),
            enums: vec![],
            default: None,
            condition: None,
        };
        assert(f1@.enums =~= input_fields()[1].enums);
        assert(f1@ == input_fields()[1]);
        let f2 = SchemaField {
            name: "headers".to_owned(),
            field_type: FieldType::Array,
            item_type: Some(FieldType::String),
            description: Some(I18nValue {
                zh: "可选请求头列表，格式：Key: Value".to_owned(),
                en: "Optional headers list, format: Key: Value".to_owned(),
            }),
            enums: vec![],
            default: None,
            condition: None,
        };
        assert(f2@.enums =~= input_fields()[2].enums);
        assert(f2@ == input_fields()[2]);
        let f3 = SchemaField {
            name: "body".to_owned(),
            field_type: FieldType::String,
            item_type: None,
            description: Some(I18nValue {
                zh: "POST 请求体，文本/JSON 皆可。".to_owned(),
                en: "POST body, plain text or JSON string.".to_owned(),
            }),
            enums: vec![],
            default: Some("".to_owned()),
            condition: None,
        };
        assert(f3@.enums =~= input_fields()[3].enums);
        assert(f3@ == input_fields()[3]);
        let f4 = SchemaField {
            name: "timeout_ms".to_owned(),
            field_type: FieldType::Number,
            item_type: None,
            description: Some(I18nValue {
                zh: "请求超时时间（毫秒），默认 30000。".to_owned(),
                en: "Request timeout in milliseconds, default 30000.".to_owned(),
            }),
            enums: vec![],
            default: Some("30000".to_owned()),
            condition: None,
        };
        assert(f4@.enums =~= input_fields()[4].enums);
        assert(f4@ == input_fields()[4]);
        let r = vec![f0, f1, f2, f3, f4];
        assert(fields_view(r@) =~= input_fields());
        r
    }
}

} // verus!
