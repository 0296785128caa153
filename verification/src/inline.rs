//! The tree of inline elements that an output format produces, and its
//! mathematical model.

use vstd::prelude::*;
use crate::formatting::{DisplayMode, Formatting, LocalizedQuotes, QuotesModel};

verus! {

/// A node of rich text inside a field's value.
#[derive(Debug, PartialEq, Eq)]
pub enum MicroNode {
    Text(String),
    Quoted { localized: LocalizedQuotes, children: Vec<MicroNode> },
    NoCase(Vec<MicroNode>),
    Formatted(Vec<MicroNode>, Formatting),
}

/// An element of formatted output.
#[derive(Debug, PartialEq, Eq)]
pub enum InlineElement {
    Text(String),
    Micro(Vec<MicroNode>),
    Quoted { localized: LocalizedQuotes, inlines: Vec<InlineElement> },
    Div(DisplayMode, Vec<InlineElement>),
    Formatted(Vec<InlineElement>, Formatting),
    Anchor { title: String, url: String, content: Vec<InlineElement> },
}

/// What a `MicroNode` stands for: the same tree over sequences.
pub enum MicroModel {
    Text(Seq<char>),
    Quoted { localized: QuotesModel, children: Seq<MicroModel> },
    NoCase(Seq<MicroModel>),
    Formatted(Seq<MicroModel>, Formatting),
}

/// What an `InlineElement` stands for: the same tree over sequences.
pub enum InlineModel {
    Text(Seq<char>),
    Micro(Seq<MicroModel>),
    Quoted { localized: QuotesModel, inlines: Seq<InlineModel> },
    Div(DisplayMode, Seq<InlineModel>),
    Formatted(Seq<InlineModel>, Formatting),
    Anchor { title: Seq<char>, url: Seq<char>, content: Seq<InlineModel> },
}

/// The model of a micro node.
pub open spec fn micro_model(m: MicroNode) -> MicroModel
    decreases m,
{
    match m {
        MicroNode::Text(s) => MicroModel::Text(s@),
        MicroNode::Quoted { localized, children } => MicroModel::Quoted {
            localized: localized@,
            children: Seq::new(
                children@.len(),
                |i: int|
                    if 0 <= i < children@.len() {
                        micro_model(children@[i])
                    } else {
                        MicroModel::Text(Seq::empty())
                    },
            ),
        },
        MicroNode::NoCase(children) => MicroModel::NoCase(
            Seq::new(
                children@.len(),
                |i: int|
                    if 0 <= i < children@.len() {
                        micro_model(children@[i])
                    } else {
                        MicroModel::Text(Seq::empty())
                    },
            ),
        ),
        MicroNode::Formatted(children, f) => MicroModel::Formatted(
            Seq::new(
                children@.len(),
                |i: int|
                    if 0 <= i < children@.len() {
                        micro_model(children@[i])
                    } else {
                        MicroModel::Text(Seq::empty())
                    },
            ),
            f,
        ),
    }
}

impl View for MicroNode {
    type V = MicroModel;

    open spec fn view(&self) -> MicroModel {
        micro_model(*self)
    }
}

/// The model of an inline element.
pub open spec fn inline_model(el: InlineElement) -> InlineModel
    decreases el,
{
    match el {
        InlineElement::Text(s) => InlineModel::Text(s@),
        InlineElement::Micro(micros) => InlineModel::Micro(micro_models(micros@)),
        InlineElement::Quoted { localized, inlines } => InlineModel::Quoted {
            localized: localized@,
            inlines: Seq::new(
                inlines@.len(),
                |i: int|
                    if 0 <= i < inlines@.len() {
                        inline_model(inlines@[i])
                    } else {
                        InlineModel::Text(Seq::empty())
                    },
            ),
        },
        InlineElement::Div(d, inlines) => InlineModel::Div(
            d,
            Seq::new(
                inlines@.len(),
                |i: int|
                    if 0 <= i < inlines@.len() {
                        inline_model(inlines@[i])
                    } else {
                        InlineModel::Text(Seq::empty())
                    },
            ),
        ),
        InlineElement::Formatted(inlines, f) => InlineModel::Formatted(
            Seq::new(
                inlines@.len(),
                |i: int|
                    if 0 <= i < inlines@.len() {
                        inline_model(inlines@[i])
                    } else {
                        InlineModel::Text(Seq::empty())
                    },
            ),
            f,
        ),
        InlineElement::Anchor { title, url, content } => InlineModel::Anchor {
            title: title@,
            url: url@,
            content: Seq::new(
                content@.len(),
                |i: int|
                    if 0 <= i < content@.len() {
                        inline_model(content@[i])
                    } else {
                        InlineModel::Text(Seq::empty())
                    },
            ),
        },
    }
}

impl View for InlineElement {
    type V = InlineModel;

    open spec fn view(&self) -> InlineModel {
        inline_model(*self)
    }
}

/// The models of a sequence of micro nodes, one for one.
pub open spec fn micro_models(s: Seq<MicroNode>) -> Seq<MicroModel> {
    Seq::new(s.len(), |i: int| s[i]@)
}

/// The models of a sequence of inline elements, one for one.
pub open spec fn inline_models(s: Seq<InlineElement>) -> Seq<InlineModel> {
    Seq::new(s.len(), |i: int| s[i]@)
}

} // verus!
