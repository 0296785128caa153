//! Formatting options that travel with rendered output.

use vstd::prelude::*;

verus! {

#[derive(Clone, Copy, Debug, PartialEq, Eq)]
pub enum FontStyle {
    Normal,
    Italic,
    Oblique,
}

#[derive(Clone, Copy, Debug, PartialEq, Eq)]
pub enum FontVariant {
    Normal,
    SmallCaps,
}

#[derive(Clone, Copy, Debug, PartialEq, Eq)]
pub enum FontWeight {
    Normal,
    Bold,
    Light,
}

#[derive(Clone, Copy, Debug, PartialEq, Eq)]
pub enum TextDecoration {
    Plain,
    Underline,
}

#[derive(Clone, Copy, Debug, PartialEq, Eq)]
pub enum VerticalAlignment {
    Baseline,
    Superscript,
    Subscript,
}

/// The formatting attributes of an element; an absent attribute is inherited.
#[derive(Clone, Copy, Debug, PartialEq, Eq)]
pub struct Formatting {
    pub font_style: Option<FontStyle>,
    pub font_variant: Option<FontVariant>,
    pub font_weight: Option<FontWeight>,
    pub text_decoration: Option<TextDecoration>,
    pub vertical_alignment: Option<VerticalAlignment>,
}

/// How a block of output is laid out on the page.
#[derive(Clone, Copy, Debug, PartialEq, Eq)]
pub enum DisplayMode {
    Block,
    LeftMargin,
    RightInline,
    Indent,
}

/// The opening and closing marks of a locale, and whether punctuation that
/// follows a closing mark belongs inside it.
#[derive(Clone, Debug, PartialEq, Eq)]
pub struct LocalizedQuotes {
    pub outer_open: String,
    pub outer_close: String,
    pub inner_open: String,
    pub inner_close: String,
    pub punctuation_in_quote: bool,
}

/// What localized quotes stand for: the four marks as texts, and the flag.
pub struct QuotesModel {
    pub outer_open: Seq<char>,
    pub outer_close: Seq<char>,
    pub inner_open: Seq<char>,
    pub inner_close: Seq<char>,
    pub punctuation_in_quote: bool,
}

impl View for LocalizedQuotes {
    type V = QuotesModel;

    open spec fn view(&self) -> QuotesModel {
        QuotesModel {
            outer_open: self.outer_open@,
            outer_close: self.outer_close@,
            inner_open: self.inner_open@,
            inner_close: self.inner_close@,
            punctuation_in_quote: self.punctuation_in_quote,
        }
    }
}

} // verus!
