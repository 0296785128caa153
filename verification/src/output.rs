//! What the evaluator asks of an output format.

use vstd::prelude::*;
use crate::formatting::Formatting;
use crate::inline::{inline_models, InlineElement, InlineModel};
use crate::style::{Affixes, AffixesModel};
use crate::views::lemma_inline_view;

verus! {

/// An output format: it turns a text, with formatting and affixes, into an
/// inline element.
pub trait OutputFormat {
    /// The element that the format makes of a text.
    spec fn affixed(
        &self,
        text: Seq<char>,
        formatting: Option<Formatting>,
        affixes: AffixesModel,
    ) -> InlineModel;

    /// Makes an inline element of a text, with its formatting, inside its
    /// affixes.
    fn affixed_text(&self, text: String, formatting: Option<Formatting>, affixes: &Affixes) -> (r:
        InlineElement)
        ensures
            r@ == self.affixed(text@, formatting, affixes@),
    ;
}

/// Formatting without any attribute.
pub open spec fn plain_formatting() -> Formatting {
    Formatting {
        font_style: None,
        font_variant: None,
        font_weight: None,
        text_decoration: None,
        vertical_alignment: None,
    }
}

/// The format that keeps the structure: a formatted span that holds the
/// prefix, the text and the suffix, each as a text of its own.
#[derive(Clone, Copy, Debug, PartialEq, Eq)]
pub struct Markup;

impl OutputFormat for Markup {
    open spec fn affixed(
        &self,
        text: Seq<char>,
        formatting: Option<Formatting>,
        affixes: AffixesModel,
    ) -> InlineModel {
        InlineModel::Formatted(
            seq![
                InlineModel::Text(affixes.prefix),
                InlineModel::Text(text),
                InlineModel::Text(affixes.suffix),
            ],
            match formatting {
                Some(f) => f,
                None => plain_formatting(),
            },
        )
    }

    fn affixed_text(&self, text: String, formatting: Option<Formatting>, affixes: &Affixes) -> (r:
        InlineElement) {
        let f = match formatting {
            Some(f) => f,
            None => Formatting {
                font_style: None,
                font_variant: None,
                font_weight: None,
                text_decoration: None,
                vertical_alignment: None,
            },
        };
        let mut parts: Vec<InlineElement> = Vec::new();
        parts.push(InlineElement::Text(affixes.prefix.clone()));
        parts.push(InlineElement::Text(text));
        parts.push(InlineElement::Text(affixes.suffix.clone()));
        let r = InlineElement::Formatted(parts, f);
        proof {
            lemma_inline_view(r);
            lemma_inline_view(parts@[0]);
            lemma_inline_view(parts@[1]);
            lemma_inline_view(parts@[2]);
            assert(inline_models(parts@) =~= seq![
                InlineModel::Text(affixes.prefix@),
                InlineModel::Text(text@),
                InlineModel::Text(affixes.suffix@),
            ]);
        }
        r
    }
}

} // verus!
