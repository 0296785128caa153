//! How the model of a node is made of the models of its children.

use vstd::prelude::*;
use crate::inline::{inline_models, micro_models, InlineElement, InlineModel, MicroModel, MicroNode};
use crate::ir::{ir_models, IrModel, IR};

verus! {

/// The micro nodes directly under `m`.
pub open spec fn micro_children(m: MicroNode) -> Seq<MicroNode> {
    match m {
        MicroNode::Text(_) => Seq::empty(),
        MicroNode::Quoted { localized, children } => children@,
        MicroNode::NoCase(children) => children@,
        MicroNode::Formatted(children, _) => children@,
    }
}

/// The inline elements directly under `el`.
pub open spec fn inline_children(el: InlineElement) -> Seq<InlineElement> {
    match el {
        InlineElement::Quoted { localized, inlines } => inlines@,
        InlineElement::Div(_, inlines) => inlines@,
        InlineElement::Formatted(inlines, _) => inlines@,
        InlineElement::Anchor { title, url, content } => content@,
        _ => Seq::empty(),
    }
}

/// The model of a micro node holds the models of its children, each of which
/// is smaller than the model of the node.
pub proof fn lemma_micro_view(m: MicroNode)
    ensures
        m matches MicroNode::Text(s) ==> m@ == MicroModel::Text(s@),
        m matches MicroNode::Quoted { localized, children } ==> m@ == (MicroModel::Quoted {
            localized: localized@,
            children: micro_models(children@),
        }),
        m matches MicroNode::NoCase(children) ==> m@ == MicroModel::NoCase(
            micro_models(children@),
        ),
        m matches MicroNode::Formatted(children, f) ==> m@ == MicroModel::Formatted(
            micro_models(children@),
            f,
        ),
        forall|j: int|
            0 <= j < micro_children(m).len() ==> decreases_to!(m@ => #[trigger] micro_children(m)[j]@),
{
    match m {
        MicroNode::Text(s) => {},
        MicroNode::Quoted { localized, children } => {
            assert(m@->Quoted_children =~= micro_models(children@));
            assert forall|j: int| 0 <= j < children@.len() implies decreases_to!(m@ => #[trigger] children@[j]@) by {
                assert(m@->Quoted_children[j] == children@[j]@);
            }
        },
        MicroNode::NoCase(children) => {
            assert(m@->NoCase_0 =~= micro_models(children@));
            assert forall|j: int| 0 <= j < children@.len() implies decreases_to!(m@ => #[trigger] children@[j]@) by {
                assert(m@->NoCase_0[j] == children@[j]@);
            }
        },
        MicroNode::Formatted(children, f) => {
            assert(m@->Formatted_0 =~= micro_models(children@));
            assert forall|j: int| 0 <= j < children@.len() implies decreases_to!(m@ => #[trigger] children@[j]@) by {
                assert(m@->Formatted_0[j] == children@[j]@);
            }
        },
    }
}

/// The model of an inline element holds the models of its children, each of
/// which is smaller than the model of the element.
pub proof fn lemma_inline_view(el: InlineElement)
    ensures
        el matches InlineElement::Text(s) ==> el@ == InlineModel::Text(s@),
        el matches InlineElement::Micro(micros) ==> el@ == InlineModel::Micro(
            micro_models(micros@),
        ),
        el matches InlineElement::Quoted { localized, inlines } ==> el@ == (InlineModel::Quoted {
            localized: localized@,
            inlines: inline_models(inlines@),
        }),
        el matches InlineElement::Div(d, inlines) ==> el@ == InlineModel::Div(
            d,
            inline_models(inlines@),
        ),
        el matches InlineElement::Formatted(inlines, f) ==> el@ == InlineModel::Formatted(
            inline_models(inlines@),
            f,
        ),
        el matches InlineElement::Anchor { title, url, content } ==> el@ == (InlineModel::Anchor {
            title: title@,
            url: url@,
            content: inline_models(content@),
        }),
        forall|j: int|
            0 <= j < inline_children(el).len() ==> decreases_to!(el@ => #[trigger] inline_children(el)[j]@),
{
    match el {
        InlineElement::Text(s) => {},
        InlineElement::Micro(micros) => {},
        InlineElement::Quoted { localized, inlines } => {
            assert(el@->Quoted_inlines =~= inline_models(inlines@));
            assert forall|j: int| 0 <= j < inlines@.len() implies decreases_to!(el@ => #[trigger] inlines@[j]@) by {
                assert(el@->Quoted_inlines[j] == inlines@[j]@);
            }
        },
        InlineElement::Div(d, inlines) => {
            assert(el@->Div_1 =~= inline_models(inlines@));
            assert forall|j: int| 0 <= j < inlines@.len() implies decreases_to!(el@ => #[trigger] inlines@[j]@) by {
                assert(el@->Div_1[j] == inlines@[j]@);
            }
        },
        InlineElement::Formatted(inlines, f) => {
            assert(el@->Formatted_0 =~= inline_models(inlines@));
            assert forall|j: int| 0 <= j < inlines@.len() implies decreases_to!(el@ => #[trigger] inlines@[j]@) by {
                assert(el@->Formatted_0[j] == inlines@[j]@);
            }
        },
        InlineElement::Anchor { title, url, content } => {
            assert(el@->content =~= inline_models(content@));
            assert forall|j: int| 0 <= j < content@.len() implies decreases_to!(el@ => #[trigger] content@[j]@) by {
                assert(el@->content[j] == content@[j]@);
            }
        },
    }
}

/// A child of a micro node has a smaller model than the node.
pub proof fn lemma_micro_child(m: MicroNode, j: int)
    requires
        0 <= j < micro_children(m).len(),
    ensures
        decreases_to!(m@ => micro_children(m)[j]@),
        m@ matches MicroModel::Quoted { localized, children } ==> children[j] == micro_children(m)[j]@,
        m@ matches MicroModel::NoCase(children) ==> children[j] == micro_children(m)[j]@,
        m@ matches MicroModel::Formatted(children, _) ==> children[j] == micro_children(m)[j]@,
{
    lemma_micro_view(m);
}

/// A child of an inline element has a smaller model than the element.
pub proof fn lemma_inline_child(el: InlineElement, j: int)
    requires
        0 <= j < inline_children(el).len(),
    ensures
        decreases_to!(el@ => inline_children(el)[j]@),
        el@ matches InlineModel::Quoted { localized, inlines } ==> inlines[j] == inline_children(el)[j]@,
        el@ matches InlineModel::Div(_, inlines) ==> inlines[j] == inline_children(el)[j]@,
        el@ matches InlineModel::Formatted(inlines, _) ==> inlines[j] == inline_children(el)[j]@,
{
    lemma_inline_view(el);
}

/// The model of rich text holds the models of its micro nodes.
pub proof fn lemma_inline_micro_child(el: InlineElement, j: int)
    requires
        el is Micro,
        0 <= j < el->Micro_0@.len(),
    ensures
        el@ matches InlineModel::Micro(micros) && micros[j] == el->Micro_0@[j]@,
{
    lemma_inline_view(el);
}

/// The model of a node of the intermediate representation holds the models
/// of what the node holds.
pub proof fn lemma_ir_view(ir: IR)
    ensures
        ir matches IR::Rendered(content) ==> ir@ == IrModel::Rendered(
            match content {
                Some(inline) => Some(inline@),
                None => None,
            },
        ),
        ir matches IR::Sequence(seq) ==> ir@ == (IrModel::Sequence {
            contents: ir_models(seq.contents@),
            formatting: seq.formatting,
            affixes: seq.affixes@,
            delimiter: seq.delimiter@,
        }),
{
    match ir {
        IR::Sequence(seq) => {
            assert(ir@->contents =~= ir_models(seq.contents@));
        },
        _ => {},
    }
}

} // verus!
