//! From the key events of a KeyMouseGo script to the stages of a pipeline.

use vstd::prelude::*;
use crate::text::{decimal, push_decimal, str_eq};
use crate::types::keyboard::{key_code_of, pascal_case, KeyBoardKeyMode, KeyBoardParams, ToKeyCode};
use crate::types::typs::{MetaData, Node, Stage};

verus! {

/// The tools whose scripts can be converted.
pub enum ConverterFrom {
    KeyMouseGo,
}

pub struct Converter {
    content: String,
}

/// One key event of a script.
#[derive(Clone, Debug)]
pub struct KeyStroke {
    /// Milliseconds to wait before the event.
    pub delay: u64,
    /// How the script names what is done with the key.
    pub action_type: String,
    /// What is done with the key.
    pub mode: KeyBoardKeyMode,
    /// The name of the key.
    pub key: String,
}

/// The least delay, in milliseconds, that becomes a wait of its own.
pub const MIN_WAIT_MS: u64 = 10;

/// A key event names a key that is not known.
#[derive(Debug)]
pub struct UnknownKey {
    pub key: String,
}

/// What a key event asks for, by the name that a script gives it: `key down`
/// holds the key, `key up` releases it, every other name clicks it.
pub open spec fn mode_of_event(action_type: Seq<char>) -> KeyBoardKeyMode {
    if action_type == "key down"@ {
        KeyBoardKeyMode::Down
    } else if action_type == "key up"@ {
        KeyBoardKeyMode::Up
    } else {
        KeyBoardKeyMode::Click
    }
}

/// What a key event asks for, by the name that a script gives it.
pub fn key_mode(action_type: &str) -> (r: KeyBoardKeyMode)
    ensures
        r == mode_of_event(action_type@),
{
    if str_eq(action_type, "key down") {
        KeyBoardKeyMode::Down
    } else if str_eq(action_type, "key up") {
        KeyBoardKeyMode::Up
    } else {
        KeyBoardKeyMode::Click
    }
}

/// How many stages a key event becomes: two where it comes after more than
/// ten milliseconds, else one.
pub open spec fn stage_count(stroke: KeyStroke) -> nat {
    if stroke.delay > MIN_WAIT_MS {
        2
    } else {
        1
    }
}

/// How many stages the first `i` key events become.
pub open spec fn offset(strokes: Seq<KeyStroke>, i: nat) -> nat
    decreases i,
{
    if i == 0 || i > strokes.len() {
        0
    } else {
        offset(strokes, (i - 1) as nat) + stage_count(strokes[i - 1])
    }
}

/// The first of the first `j` key events whose key is not known.
pub open spec fn first_unknown(strokes: Seq<KeyStroke>, j: nat) -> Option<int>
    decreases j,
{
    if j == 0 || j > strokes.len() {
        None
    } else {
        match first_unknown(strokes, (j - 1) as nat) {
            Some(i) => Some(i),
            None => if key_code_of(pascal_case(strokes[j - 1].key@)) is None {
                Some(j - 1)
            } else {
                None
            },
        }
    }
}

/// `stages` are what key event number `index` becomes, where its key is
/// known.
pub open spec fn stroke_becomes(index: int, stroke: KeyStroke, stages: Seq<Stage>) -> bool {
    let code = key_code_of(pascal_case(stroke.key@));
    let name = stroke.action_type@ + "-"@ + stroke.key@ + "-"@ + decimal(index as nat);
    &&& code is Some
    &&& stages.len() == stage_count(stroke)
    &&& stages[stages.len() - 1].is_key(name, None, None, stroke.mode, code->0)
    &&& stroke.delay > MIN_WAIT_MS ==> stages[0].is_wait(
        "wait-"@ + name,
        Some(stroke.delay as u32),
        None,
        None,
    )
}

proof fn lemma_offset_grows(strokes: Seq<KeyStroke>, i: nat, j: nat)
    requires
        i <= j <= strokes.len(),
    ensures
        offset(strokes, i) <= offset(strokes, j),
    decreases j - i,
{
    if i < j {
        lemma_offset_grows(strokes, i, (j - 1) as nat);
    }
}

/// The stages of the events before the last are where they were once the
/// stages of the last are appended, and those of the last stand behind them.
proof fn lemma_stage_ranges(
    strokes: Seq<KeyStroke>,
    before: Seq<Stage>,
    added: Seq<Stage>,
    index: nat,
)
    requires
        index < strokes.len(),
        before.len() == offset(strokes, index),
        stroke_becomes(index as int, strokes[index as int], added),
        forall|i: int|
            0 <= i < index ==> stroke_becomes(
                i,
                #[trigger] strokes[i],
                before.subrange(
                    offset(strokes, i as nat) as int,
                    offset(strokes, (i + 1) as nat) as int,
                ),
            ),
    ensures
        (before + added).len() == offset(strokes, index + 1),
        forall|i: int|
            0 <= i < index + 1 ==> stroke_becomes(
                i,
                #[trigger] strokes[i],
                (before + added).subrange(
                    offset(strokes, i as nat) as int,
                    offset(strokes, (i + 1) as nat) as int,
                ),
            ),
{
    let all = before + added;
    assert forall|i: int| 0 <= i < index + 1 implies stroke_becomes(
        i,
        #[trigger] strokes[i],
        all.subrange(offset(strokes, i as nat) as int, offset(strokes, (i + 1) as nat) as int),
    ) by {
        let from = offset(strokes, i as nat) as int;
        let to = offset(strokes, (i + 1) as nat) as int;
        if i < index {
            lemma_offset_grows(strokes, (i + 1) as nat, index);
            lemma_offset_grows(strokes, i as nat, (i + 1) as nat);
            assert(all.subrange(from, to) =~= before.subrange(from, to));
        } else {
            assert(all.subrange(from, to) =~= added);
        }
    }
}

proof fn lemma_unknown_stays(strokes: Seq<KeyStroke>, j: nat, k: nat)
    requires
        j <= k <= strokes.len(),
        first_unknown(strokes, j) is Some,
    ensures
        first_unknown(strokes, k) == first_unknown(strokes, j),
    decreases k - j,
{
    if j < k {
        lemma_unknown_stays(strokes, j, (k - 1) as nat);
    }
}

impl Converter {
    /// The text of the script.
    pub closed spec fn text(&self) -> Seq<char> {
        self.content@
    }

    /// A converter for the text of a script.
    pub fn new(content: String) -> (r: Converter)
        ensures
            r.text() == content@,
    {
        Converter { content }
    }

    /// The text of the script.
    pub fn content(&self) -> (r: &str)
        ensures
            r@ == self.text(),
    {
        self.content.as_str()
    }

    /// The stages that key event number `index` becomes: a wait named
    /// `wait-<action>-<key>-<index>` where the event comes after more than ten
    /// milliseconds, then a key stage named `<action>-<key>-<index>`. An error
    /// where the key is not known.
    pub fn convert_stroke(index: usize, stroke: &KeyStroke) -> (r: Result<Vec<Stage>, UnknownKey>)
        ensures
            match key_code_of(pascal_case(stroke.key@)) {
                None => r matches Err(e) && e.key@ == stroke.key@,
                Some(code) => r matches Ok(stages) && stroke_becomes(
                    index as int,
                    *stroke,
                    stages@,
                ),
            },
    {
        let code = match stroke.key.to_key_code() {
            Some(code) => code,
            None => {
                return Err(UnknownKey { key: stroke.key.clone() });
            },
        };
        let mut stages: Vec<Stage> = Vec::new();
        if stroke.delay > MIN_WAIT_MS {
            let mut name = String::new();
            name.push_str("wait-");
            name.push_str(stroke.action_type.as_str());
            name.push_str("-");
            name.push_str(stroke.key.as_str());
            name.push_str("-");
            push_decimal(&mut name, index as u64);
            assert(name@ =~= "wait-"@ + (stroke.action_type@ + "-"@ + stroke.key@ + "-"@ + decimal(
                index as nat,
            )));
            let metadata = MetaData {
                name,
                description: None,
                duration: Some(#[verifier::truncate] (stroke.delay as u32)),
                retry: None,
                interval: None,
                conditions: None,
                err_return: None,
            };
            let mut stage: Vec<Node> = Vec::new();
            stage.push(Node::TimeWait { metadata });
            stages.push(Stage { stage });
        }
        let mut name = String::new();
        name.push_str(stroke.action_type.as_str());
        name.push_str("-");
        name.push_str(stroke.key.as_str());
        name.push_str("-");
        push_decimal(&mut name, index as u64);
        assert(name@ =~= stroke.action_type@ + "-"@ + stroke.key@ + "-"@ + decimal(index as nat));
        let metadata = MetaData {
            name,
            duration: None,
            retry: Some(0),
            interval: Some(0),
            conditions: None,
            err_return: None,
            description: None,
        };
        let params = KeyBoardParams { mode: stroke.mode, key: code, value: None };
        let mut stage: Vec<Node> = Vec::new();
        stage.push(Node::KeyBoard { metadata, params });
        stages.push(Stage { stage });
        Ok(stages)
    }

    /// The stages that the key events of a script become, in their order; the
    /// error of the first event whose key is not known.
    pub fn convert(&self, config: ConverterFrom, strokes: &Vec<KeyStroke>) -> (r: Result<
        Vec<Stage>,
        UnknownKey,
    >)
        ensures
            match first_unknown(strokes@, strokes@.len()) {
                Some(i) => r matches Err(e) && e.key@ == strokes@[i].key@,
                None => r matches Ok(stages) && stages@.len() == offset(strokes@, strokes@.len())
                    && forall|i: int|
                    0 <= i < strokes@.len() ==> stroke_becomes(
                        i,
                        #[trigger] strokes@[i],
                        stages@.subrange(
                            offset(strokes@, i as nat) as int,
                            offset(strokes@, (i + 1) as nat) as int,
                        ),
                    ),
            },
    {
        let mut pipelines: Vec<Stage> = Vec::new();
        let mut index: usize = 0;
        while index < strokes.len()
            invariant
                index <= strokes@.len(),
                first_unknown(strokes@, index as nat) is None,
                pipelines@.len() == offset(strokes@, index as nat),
                forall|i: int|
                    0 <= i < index ==> stroke_becomes(
                        i,
                        #[trigger] strokes@[i],
                        pipelines@.subrange(
                            offset(strokes@, i as nat) as int,
                            offset(strokes@, (i + 1) as nat) as int,
                        ),
                    ),
            decreases strokes@.len() - index,
        {
            let ghost before = pipelines@;
            match Converter::convert_stroke(index, &strokes[index]) {
                Ok(mut stages) => {
                    let ghost added = stages@;
                    pipelines.append(&mut stages);
                    proof {
                        assert(pipelines@ == before + added);
                        lemma_stage_ranges(strokes@, before, added, index as nat);
                    }
                },
                Err(e) => {
                    proof {
                        lemma_unknown_stays(strokes@, (index + 1) as nat, strokes@.len());
                    }
                    return Err(e);
                },
            }
            index += 1;
        }
        Ok(pipelines)
    }
}

} // verus!
