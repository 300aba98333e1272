//! Metadata that every node carries, and the nodes of a pipeline.

use vstd::prelude::*;
use crate::context::Context;
use crate::types::conditions::{verdict, Conditions};
use crate::node::image_match::runner::ImreadMode;
use crate::text::str_eq;
use crate::types::keyboard::KeyBoardParams;

verus! {

#[derive(Clone, Debug)]
pub struct MouseClickParams {
    pub value: String,
}

#[derive(Clone, Debug)]
pub struct MouseMoveParams {
    pub x: String,
    pub y: String,
}

#[derive(Clone, Debug)]
pub struct ImageRecognitionParams {
    pub images: Vec<String>,
    pub sub_pipeline: String,
    pub optimization: ImageOptimization,
}

/// How an image is prepared before it is searched.
#[derive(Clone, Debug)]
pub struct ImageOptimization {
    /// The factor by which the image is resized, as a decimal numeral.
    pub resize: Option<String>,
    /// `COLOR` or `GRAYSCALE`.
    pub imread_type: Option<String>,
}

impl Default for ImageOptimization {
    fn default() -> (r: ImageOptimization)
        ensures
            r.resize matches Some(t) && t@ == "1.0"@,
            r.imread_type matches Some(t) && t@ == "GRAYSCALE"@,
    {
        ImageOptimization { resize: Some("1.0".to_owned()), imread_type: Some("GRAYSCALE".to_owned()) }
    }
}

impl ImageOptimization {
    /// The factor by which the image is resized, as a decimal numeral; one
    /// where nothing is said.
    pub fn resize(&self) -> (r: String)
        ensures
            r@ == match self.resize {
                Some(t) => t@,
                None => "1.0"@,
            },
    {
        match &self.resize {
            Some(t) => t.clone(),
            None => "1.0".to_owned(),
        }
    }

    /// How the image is read: in colour where `COLOR` is said, else in shades
    /// of grey.
    pub fn imread_type(&self) -> (r: ImreadMode)
        ensures
            r == (if self.imread_type matches Some(t) && t@ == "COLOR"@ {
                ImreadMode::Color
            } else {
                ImreadMode::Grayscale
            }),
    {
        match &self.imread_type {
            Some(t) => if str_eq(t.as_str(), "COLOR") {
                ImreadMode::Color
            } else {
                ImreadMode::Grayscale
            },
            None => ImreadMode::Grayscale,
        }
    }
}

/// The nodes of a pipeline that run side by side.
#[derive(Clone, Debug)]
pub struct Stage {
    pub stage: Vec<Node>,
}

#[derive(Clone, Debug, Default)]
pub struct MetaData {
    pub name: String,
    pub description: Option<String>,
    /// Milliseconds.
    pub duration: Option<u32>,
    /// How often a failed node is tried again; below zero, without end.
    pub retry: Option<i32>,
    /// Milliseconds.
    pub interval: Option<u64>,
    pub conditions: Option<Conditions>,
    /// Whether a failure of the node ends the run; it does where nothing is said.
    pub err_return: Option<bool>,
}

impl MetaData {
    /// Metadata with a name and nothing else.
    pub fn named(name: &str) -> (r: MetaData)
        ensures
            r.name@ == name@,
            r.description is None,
            r.duration is None,
            r.retry is None,
            r.interval is None,
            r.conditions is None,
            r.err_return is None,
    {
        MetaData {
            name: name.to_owned(),
            description: None,
            duration: None,
            retry: None,
            interval: None,
            conditions: None,
            err_return: None,
        }
    }
}

/// A node of a pipeline.
#[derive(Clone, Debug)]
#[allow(inconsistent_fields)]
pub enum Node {
    Start { metadata: MetaData },
    KeyBoard { metadata: MetaData, params: KeyBoardParams },
    MouseClick { metadata: MetaData, params: MouseClickParams },
    MouseMove { metadata: MetaData, params: MouseMoveParams },
    ImageRecognition { metadata: MetaData, params: ImageRecognitionParams },
    TimeWait { metadata: MetaData },
}

impl Stage {
    /// The stage holds one node, a wait of this name and with these settings.
    pub open spec fn is_wait(
        &self,
        name: Seq<char>,
        duration: Option<u32>,
        conditions: Option<Conditions>,
        retry: Option<i32>,
    ) -> bool {
        self.stage@.len() == 1 && match self.stage@[0] {
            Node::TimeWait { metadata } => metadata.name@ == name && metadata.duration == duration
                && metadata.conditions == conditions && metadata.retry == retry,
            _ => false,
        }
    }

    /// The stage holds one node, a key action of this name and with these
    /// settings.
    pub open spec fn is_key(
        &self,
        name: Seq<char>,
        duration: Option<u32>,
        conditions: Option<Conditions>,
        mode: crate::types::keyboard::KeyBoardKeyMode,
        key: crate::types::keyboard::KeyCode,
    ) -> bool {
        self.stage@.len() == 1 && match self.stage@[0] {
            Node::KeyBoard { metadata, params } => metadata.name@ == name && metadata.duration
                == duration && metadata.conditions == conditions && metadata.retry == Some(0i32)
                && params.mode == mode && params.key == key && params.value is None,
            _ => false,
        }
    }
}

impl Node {
    /// The metadata of the node.
    pub open spec fn meta(&self) -> MetaData {
        match self {
            Node::Start { metadata } => *metadata,
            Node::KeyBoard { metadata, .. } => *metadata,
            Node::MouseClick { metadata, .. } => *metadata,
            Node::MouseMove { metadata, .. } => *metadata,
            Node::ImageRecognition { metadata, .. } => *metadata,
            Node::TimeWait { metadata } => *metadata,
        }
    }

    /// The metadata of the node.
    pub fn metadata(&self) -> (r: &MetaData)
        ensures
            *r == self.meta(),
    {
        match self {
            Node::Start { metadata } => metadata,
            Node::KeyBoard { metadata, .. } => metadata,
            Node::MouseClick { metadata, .. } => metadata,
            Node::MouseMove { metadata, .. } => metadata,
            Node::ImageRecognition { metadata, .. } => metadata,
            Node::TimeWait { metadata } => metadata,
        }
    }

    pub fn name(&self) -> (r: &str)
        ensures
            r@ == self.meta().name@,
    {
        self.metadata().name.as_str()
    }

    pub fn conditions(&self) -> (r: Option<Conditions>)
        ensures
            r == self.meta().conditions,
    {
        match &self.metadata().conditions {
            Some(c) => Some(c.duplicate()),
            None => None,
        }
    }

    /// Whether the conditions of the node could be checked: `false` only where
    /// the node has conditions and their check fails with an error.
    pub fn check_conditions(&self, ctx: &Context) -> (r: bool)
        ensures
            r == !(self.meta().conditions is Some && verdict(
                self.meta().conditions->0,
                ctx.store(),
            ) is Err),
    {
        match &self.metadata().conditions {
            Some(c) => c.check(ctx).is_ok(),
            None => true,
        }
    }

    /// Whether a failure of the node ends the pipeline.
    pub fn stop_when_error(&self) -> (r: bool)
        ensures
            r == match self.meta().err_return {
                Some(b) => b,
                None => true,
            },
    {
        match self.metadata().err_return {
            Some(b) => b,
            None => true,
        }
    }
}

} // verus!
