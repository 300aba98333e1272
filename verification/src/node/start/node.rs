//! The node kind that a workflow begins with.

use vstd::prelude::*;
use crate::json::{lemma_object_view, members_view, JsonValue, JsonView};
use crate::store::{entries_view, find_entry};
use crate::types::field::{bare_field, fields_view, FieldType, FieldView, SchemaField};
use crate::types::node::{i18n_option_view, I18nValue, I18nView, NodeDefine};

verus! {

pub const NODE_TYPE: &'static str = "Start";

#[derive(Default)]
pub struct StartNode;

/// The members of the object that the inputs hold under `params`; none where
/// no object is there.
pub open spec fn params_members(input: Map<Seq<char>, JsonView>) -> Seq<(Seq<char>, JsonView)> {
    if input.contains_key("params"@) {
        match input["params"@] {
            JsonView::Object(members) => members,
            _ => Seq::empty(),
        }
    } else {
        Seq::empty()
    }
}

/// The members of the object under `params`; none where no object is there.
pub fn start_params(input: &Vec<(String, JsonValue)>) -> (r: Vec<(String, JsonValue)>)
    ensures
        members_view(r@) == params_members(entries_view(input@)),
{
    match find_entry(input, "params") {
        Some(i) => match &input[i].1 {
            JsonValue::Object(members) => {
                let mut out: Vec<(String, JsonValue)> = Vec::new();
                let mut k: usize = 0;
                while k < members.len()
                    invariant
                        k <= members@.len(),
                        out@.len() == k,
                        forall|x: int|
                            0 <= x < k ==> (#[trigger] out@[x]).0@ == members@[x].0@ && out@[x].1@
                                == members@[x].1@,
                    decreases members@.len() - k,
                {
                    out.push((members[k].0.clone(), members[k].1.duplicate()));
                    k += 1;
                }
                proof {
                    lemma_object_view(input@[i as int].1);
                    assert(members_view(out@) =~= members_view(members@));
                }
                out
            },
            _ => {
                let out: Vec<(String, JsonValue)> = Vec::new();
                assert(members_view(out@) =~= Seq::empty());
                out
            },
        },
        None => {
            let out: Vec<(String, JsonValue)> = Vec::new();
            assert(members_view(out@) =~= Seq::empty());
            out
        },
    }
}

impl StartNode {
    pub fn new() -> StartNode {
        Self {  }
    }
}

/// The icon of the node kind, as a data URL.
pub const ICON: &'static str = "data:image/svg+xml;base64,PHN2ZyB4bWxucz0iaHR0cDovL3d3dy53My5vcmcvMjAwMC9zdmciIHdpZHRoPSIyNCIgaGVpZ2h0PSIyNCIgdmlld0JveD0iMCAwIDI0IDI0IiBmaWxsPSJub25lIiBzdHJva2U9ImN1cnJlbnRDb2xvciIgc3Ryb2tlLXdpZHRoPSIxLjUiIHN0cm9rZS1saW5lY2FwPSJyb3VuZCIgc3Ryb2tlLWxpbmVqb2luPSJyb3VuZCIgY2xhc3M9Imx1Y2lkZSBsdWNpZGUtY2lyY2xlLXBsYXktaWNvbiBsdWNpZGUtY2lyY2xlLXBsYXkiPjxwYXRoIGQ9Ik05IDkuMDAzYTEgMSAwIDAgMSAxLjUxNy0uODU5bDQuOTk3IDIuOTk3YTEgMSAwIDAgMSAwIDEuNzE4bC00Ljk5NyAyLjk5N0ExIDEgMCAwIDEgOSAxNC45OTZ6Ii8+PGNpcmNsZSBjeD0iMTIiIGN5PSIxMiIgcj0iMTAiLz48L3N2Zz4=";

/// The name of the node kind.
pub open spec fn name_text() -> I18nView {
    I18nView { zh: "开始"@, en: "Start"@ }
}

/// The category of the node kind.
pub open spec fn category_text() -> Option<I18nView> {
    Some(I18nView { zh: "基础节点"@, en: "Basic Node"@ })
}

/// The description of the node kind.
pub open spec fn description_text() -> Option<I18nView> {
    Some(I18nView { zh: "工作流从此节点开始执行"@, en: "The workflow start at this node."@ })
}

/// The outputs of a start node whose inputs are `input`: one string field for
/// each member of the object that is given as `params`, under its name.
pub open spec fn output_fields(input: Map<Seq<char>, JsonView>) -> Seq<FieldView> {
    Seq::new(
        params_members(input).len(),
        |i: int| bare_field(params_members(input)[i].0, FieldType::String),
    )
}

/// The inputs of a start node: an object under `params`.
pub open spec fn input_fields() -> Seq<FieldView> {
    seq![
        FieldView {
            name: "params"@,
            field_type: FieldType::Object,
            item_type: None,
            description: Some(I18nView { zh: ""@, en: ""@ }),
            enums: Seq::empty(),
            default: None,
            condition: None,
        },
    ]
}

impl NodeDefine for StartNode {
    /// The action type of the kind.
    open spec fn names(&self, action_type: Seq<char>) -> bool {
        action_type == NODE_TYPE@
    }

    /// The outputs of a node of this kind whose inputs are `input`.
    open spec fn declares(&self, input: Map<Seq<char>, JsonView>, fields: Seq<FieldView>) -> bool {
        fields == output_fields(input)
    }

    fn action_type(&self) -> (r: String)
        ensures
            r@ == NODE_TYPE@,
    {
        NODE_TYPE.to_owned()
    }

    fn name(&self) -> (r: I18nValue)
        ensures
            r@ == name_text(),
    {
        I18nValue { zh: "开始".to_owned(), en: "Start".to_owned() }
    }

    fn icon(&self) -> (r: String)
        ensures
            r@ == ICON@,
    {
        ICON.to_owned()
    }

    fn category(&self) -> (r: Option<I18nValue>)
        ensures
            i18n_option_view(r) == category_text(),
    {
        Some(I18nValue { zh: "基础节点".to_owned(), en: "Basic Node".to_owned() })
    }

    fn description(&self) -> (r: Option<I18nValue>)
        ensures
            i18n_option_view(r) == description_text(),
    {
        Some(
            I18nValue {
                zh: "工作流从此节点开始执行".to_owned(),
                en: "The workflow start at this node.".to_owned(),
            },
        )
    }

    /// One string field for each member of the object that is given as `params`.
    fn output_schema(&self, input: &Vec<(String, JsonValue)>) -> (r: Vec<SchemaField>)
        ensures
            fields_view(r@) == output_fields(entries_view(input@)),
    {
        let params = start_params(input);
        let ghost members = params_members(entries_view(input@));
        let mut outputs: Vec<SchemaField> = Vec::new();
        let mut i: usize = 0;
        while i < params.len()
            invariant
                i <= params@.len(),
                outputs@.len() == i,
                members == members_view(params@),
                forall|k: int|
                    0 <= k < i ==> (#[trigger] outputs@[k])@ == bare_field(
                        members[k].0,
                        FieldType::String,
                    ),
            decreases params@.len() - i,
        {
            outputs.push(SchemaField::new(params[i].0.as_str(), FieldType::String));
            i += 1;
        }
        assert(fields_view(outputs@) =~= output_fields(entries_view(input@)));
        outputs
    }

    fn input_schema(&self) -> (r: Vec<SchemaField>)
        ensures
            fields_view(r@) == input_fields(),
    {
        let f0 = SchemaField {
            name: "params".to_owned(),
            field_type: FieldType::Object,
            item_type: None,
            description: Some(I18nValue { zh: "".to_owned(), en: "".to_owned() }),
            enums: vec![],
            default: None,
            condition: None,
        };
        assert(f0@.enums =~= input_fields()[0].enums);
        assert(f0@ == input_fields()[0]);
        let r = vec![f0];
        assert(fields_view(r@) =~= input_fields());
        r
    }
}

} // verus!
