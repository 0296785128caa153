//! What the punctuation pass means, stated on the models of the inline tree.
//!
//! A pair of neighbours migrates when the first offers an insertion point (the
//! children of the deepest quote at its right edge that takes punctuation) and
//! the text that the second begins with starts with a punctuation character.
//! That character leaves the second element; it is appended at the insertion
//! point unless what stands there already ends with punctuation.

use vstd::prelude::*;
use crate::inline::{InlineModel, MicroModel};

verus! {

/// The characters that migrate into a quotation.
pub open spec fn is_punctuation(c: char) -> bool {
    c == '.' || c == ',' || c == '!' || c == '?'
}

/// A text whose last character is punctuation.
pub open spec fn text_ends_with_punctuation(s: Seq<char>) -> bool {
    s.len() > 0 && is_punctuation(s.last())
}

/// A text without its first character; the empty text stays as it is.
pub open spec fn text_without_first(s: Seq<char>) -> Seq<char> {
    if s.len() > 0 {
        s.drop_first()
    } else {
        s
    }
}

/// The list that a migrating character is appended to.
#[derive(Clone, Copy, Debug, PartialEq, Eq)]
pub enum RightQuoteInsertionPoint {
    /// The inline elements of a quoted inline element.
    Inline,
    /// The children of a quoted micro node.
    Micro,
}

impl MicroModel {
    /// The rightmost text under this node, through every wrapper, ends with
    /// punctuation.
    pub open spec fn ends_with_punctuation(self) -> bool
        decreases self,
    {
        match self {
            MicroModel::Text(s) => text_ends_with_punctuation(s),
            MicroModel::Quoted { localized, children } => children.len() > 0
                && children.last().ends_with_punctuation(),
            MicroModel::NoCase(children) => children.len() > 0
                && children.last().ends_with_punctuation(),
            MicroModel::Formatted(children, _) => children.len() > 0
                && children.last().ends_with_punctuation(),
        }
    }

    /// There is an insertion point at the right edge of this node: going down
    /// by last children, a quote that takes punctuation is met.
    pub open spec fn has_right_quote(self) -> bool
        decreases self,
    {
        match self {
            MicroModel::Text(_) => false,
            MicroModel::Quoted { localized, children } => (children.len() > 0
                && children.last().has_right_quote()) || localized.punctuation_in_quote,
            MicroModel::NoCase(children) => children.len() > 0
                && children.last().has_right_quote(),
            MicroModel::Formatted(children, _) => children.len() > 0
                && children.last().has_right_quote(),
        }
    }

    /// The list at the insertion point ends with punctuation. The insertion
    /// point is that of the deepest eligible quote.
    pub open spec fn insertion_ends_with_punctuation(self) -> bool
        decreases self,
    {
        match self {
            MicroModel::Text(_) => false,
            MicroModel::Quoted { localized, children } => {
                if children.len() > 0 && children.last().has_right_quote() {
                    children.last().insertion_ends_with_punctuation()
                } else {
                    localized.punctuation_in_quote && children.len() > 0
                        && children.last().ends_with_punctuation()
                }
            },
            MicroModel::NoCase(children) => children.len() > 0
                && children.last().insertion_ends_with_punctuation(),
            MicroModel::Formatted(children, _) => children.len() > 0
                && children.last().insertion_ends_with_punctuation(),
        }
    }

    /// This node with a text of the one character `c` appended at the
    /// insertion point; a node without insertion point stays as it is.
    pub open spec fn pushed(self, c: char) -> MicroModel
        decreases self,
    {
        match self {
            MicroModel::Text(_) => self,
            MicroModel::Quoted { localized, children } => {
                if children.len() > 0 && children.last().has_right_quote() {
                    MicroModel::Quoted {
                        localized,
                        children: children.update(
                            children.len() - 1,
                            children.last().pushed(c),
                        ),
                    }
                } else if localized.punctuation_in_quote {
                    MicroModel::Quoted {
                        localized,
                        children: children.push(MicroModel::Text(seq![c])),
                    }
                } else {
                    self
                }
            },
            MicroModel::NoCase(children) => {
                if children.len() > 0 {
                    MicroModel::NoCase(
                        children.update(children.len() - 1, children.last().pushed(c)),
                    )
                } else {
                    self
                }
            },
            MicroModel::Formatted(children, f) => {
                if children.len() > 0 {
                    MicroModel::Formatted(
                        children.update(children.len() - 1, children.last().pushed(c)),
                        f,
                    )
                } else {
                    self
                }
            },
        }
    }

    /// The text that this node begins with: going down by first children
    /// through formatting, never into a quote.
    pub open spec fn leading_text(self) -> Option<Seq<char>>
        decreases self,
    {
        match self {
            MicroModel::Text(s) => Some(s),
            MicroModel::Quoted { localized, children } => None,
            MicroModel::NoCase(children) => if children.len() > 0 {
                children[0].leading_text()
            } else {
                None
            },
            MicroModel::Formatted(children, _) => if children.len() > 0 {
                children[0].leading_text()
            } else {
                None
            },
        }
    }

    /// This node with the first character of its leading text removed; a node
    /// without leading text, or with an empty one, stays as it is.
    pub open spec fn without_leading_char(self) -> MicroModel
        decreases self,
    {
        match self {
            MicroModel::Text(s) => MicroModel::Text(text_without_first(s)),
            MicroModel::Quoted { localized, children } => self,
            MicroModel::NoCase(children) => if children.len() > 0 {
                MicroModel::NoCase(children.update(0, children[0].without_leading_char()))
            } else {
                self
            },
            MicroModel::Formatted(children, f) => if children.len() > 0 {
                MicroModel::Formatted(children.update(0, children[0].without_leading_char()), f)
            } else {
                self
            },
        }
    }
}

impl InlineModel {
    /// The rightmost text under this element, through every wrapper, ends
    /// with punctuation.
    pub open spec fn ends_with_punctuation(self) -> bool
        decreases self,
    {
        match self {
            InlineModel::Text(s) => text_ends_with_punctuation(s),
            InlineModel::Micro(micros) => micros.len() > 0
                && micros.last().ends_with_punctuation(),
            InlineModel::Quoted { localized, inlines } => inlines.len() > 0
                && inlines.last().ends_with_punctuation(),
            InlineModel::Div(_, inlines) => inlines.len() > 0
                && inlines.last().ends_with_punctuation(),
            InlineModel::Formatted(inlines, _) => inlines.len() > 0
                && inlines.last().ends_with_punctuation(),
            InlineModel::Anchor { title, url, content } => false,
        }
    }

    /// The insertion point at the right edge of this element, if there is one:
    /// the list of the deepest quote that takes punctuation, going down by last
    /// children. A quote that does not take punctuation is gone through like
    /// any other wrapper.
    pub open spec fn right_quote(self) -> Option<RightQuoteInsertionPoint>
        decreases self,
    {
        match self {
            InlineModel::Text(_) => None,
            InlineModel::Micro(micros) => if micros.len() > 0 && micros.last().has_right_quote() {
                Some(RightQuoteInsertionPoint::Micro)
            } else {
                None
            },
            InlineModel::Quoted { localized, inlines } => {
                if inlines.len() > 0 && inlines.last().right_quote() is Some {
                    inlines.last().right_quote()
                } else if localized.punctuation_in_quote {
                    Some(RightQuoteInsertionPoint::Inline)
                } else {
                    None
                }
            },
            InlineModel::Div(_, inlines) => if inlines.len() > 0 {
                inlines.last().right_quote()
            } else {
                None
            },
            InlineModel::Formatted(inlines, _) => if inlines.len() > 0 {
                inlines.last().right_quote()
            } else {
                None
            },
            InlineModel::Anchor { title, url, content } => None,
        }
    }

    /// The list at the insertion point ends with punctuation.
    pub open spec fn insertion_ends_with_punctuation(self) -> bool
        decreases self,
    {
        match self {
            InlineModel::Text(_) => false,
            InlineModel::Micro(micros) => micros.len() > 0
                && micros.last().insertion_ends_with_punctuation(),
            InlineModel::Quoted { localized, inlines } => {
                if inlines.len() > 0 && inlines.last().right_quote() is Some {
                    inlines.last().insertion_ends_with_punctuation()
                } else {
                    localized.punctuation_in_quote && inlines.len() > 0
                        && inlines.last().ends_with_punctuation()
                }
            },
            InlineModel::Div(_, inlines) => inlines.len() > 0
                && inlines.last().insertion_ends_with_punctuation(),
            InlineModel::Formatted(inlines, _) => inlines.len() > 0
                && inlines.last().insertion_ends_with_punctuation(),
            InlineModel::Anchor { title, url, content } => false,
        }
    }

    /// This element with a text of the one character `c` appended at the
    /// insertion point; an element without insertion point stays as it is.
    pub open spec fn pushed(self, c: char) -> InlineModel
        decreases self,
    {
        match self {
            InlineModel::Text(_) => self,
            InlineModel::Micro(micros) => {
                if micros.len() > 0 {
                    InlineModel::Micro(micros.update(micros.len() - 1, micros.last().pushed(c)))
                } else {
                    self
                }
            },
            InlineModel::Quoted { localized, inlines } => {
                if inlines.len() > 0 && inlines.last().right_quote() is Some {
                    InlineModel::Quoted {
                        localized,
                        inlines: inlines.update(inlines.len() - 1, inlines.last().pushed(c)),
                    }
                } else if localized.punctuation_in_quote {
                    InlineModel::Quoted {
                        localized,
                        inlines: inlines.push(InlineModel::Text(seq![c])),
                    }
                } else {
                    self
                }
            },
            InlineModel::Div(d, inlines) => {
                if inlines.len() > 0 {
                    InlineModel::Div(
                        d,
                        inlines.update(inlines.len() - 1, inlines.last().pushed(c)),
                    )
                } else {
                    self
                }
            },
            InlineModel::Formatted(inlines, f) => {
                if inlines.len() > 0 {
                    InlineModel::Formatted(
                        inlines.update(inlines.len() - 1, inlines.last().pushed(c)),
                        f,
                    )
                } else {
                    self
                }
            },
            InlineModel::Anchor { title, url, content } => self,
        }
    }

    /// The text that this element begins with: its own, or that of the first
    /// micro node of rich text.
    pub open spec fn leading_text(self) -> Option<Seq<char>> {
        match self {
            InlineModel::Text(s) => Some(s),
            InlineModel::Micro(micros) => if micros.len() > 0 {
                micros[0].leading_text()
            } else {
                None
            },
            _ => None,
        }
    }

    /// The punctuation character that this element begins with, if it begins
    /// with one.
    pub open spec fn leading_punctuation(self) -> Option<char> {
        match self.leading_text() {
            Some(t) => if t.len() > 0 && is_punctuation(t[0]) {
                Some(t[0])
            } else {
                None
            },
            None => None,
        }
    }

    /// This element with the first character of its leading text removed.
    pub open spec fn without_leading_char(self) -> InlineModel {
        match self {
            InlineModel::Text(s) => InlineModel::Text(text_without_first(s)),
            InlineModel::Micro(micros) => if micros.len() > 0 {
                InlineModel::Micro(micros.update(0, micros[0].without_leading_char()))
            } else {
                self
            },
            _ => self,
        }
    }
}

/// The pair of neighbours `a`, `b` migrates: `a` offers an insertion point and
/// `b` begins with punctuation.
pub open spec fn migrates(a: InlineModel, b: InlineModel) -> bool {
    a.right_quote() is Some && b.leading_punctuation() is Some
}

/// Element `j` of `s` after the pair before it was handled: it lost its
/// leading punctuation if that pair migrates.
pub open spec fn stripped_at(s: Seq<InlineModel>, j: int) -> InlineModel {
    if j > 0 && migrates(s[j - 1], s[j]) {
        s[j].without_leading_char()
    } else {
        s[j]
    }
}

/// Element `j` of `s` after the whole pass over a sequence of two or more: it
/// lost its leading punctuation to the element before it, and took that of
/// the element after it unless its insertion point already ended with
/// punctuation.
pub open spec fn moved_at(s: Seq<InlineModel>, j: int) -> InlineModel {
    let a = stripped_at(s, j);
    if j + 1 < s.len() && migrates(s[j], s[j + 1]) && !a.insertion_ends_with_punctuation() {
        a.pushed(s[j + 1].leading_punctuation()->0)
    } else {
        a
    }
}

/// The sequence after the pass. With two or more elements every pair of
/// neighbours is handled, from left to right, and no child list is entered.
/// A single element has the pass applied to its own list of inline elements,
/// where it is a quote, a block or formatting.
pub open spec fn moved(s: Seq<InlineModel>) -> Seq<InlineModel>
    decreases s,
{
    if s.len() >= 2 {
        Seq::new(s.len(), |j: int| moved_at(s, j))
    } else if s.len() == 1 {
        seq![
            match s[0] {
                InlineModel::Quoted { localized, inlines } => InlineModel::Quoted {
                    localized,
                    inlines: moved(inlines),
                },
                InlineModel::Div(d, inlines) => InlineModel::Div(d, moved(inlines)),
                InlineModel::Formatted(inlines, f) => InlineModel::Formatted(moved(inlines), f),
                _ => s[0],
            },
        ]
    } else {
        s
    }
}

/// The element begins with two punctuation characters in a row.
pub open spec fn leads_with_two(b: InlineModel) -> bool {
    b.leading_text() matches Some(t) && t.len() >= 2 && is_punctuation(t[0]) && is_punctuation(
        t[1],
    )
}

/// One pass settles the sequence: wherever the pass looks at a pair of
/// neighbours whose first offers an insertion point, the second does not
/// begin with two punctuation characters in a row. (A second pass would take
/// the second of them.)
pub open spec fn settles_in_one_pass(s: Seq<InlineModel>) -> bool
    decreases s,
{
    if s.len() >= 2 {
        forall|j: int|
            0 <= j < s.len() - 1 ==> !(#[trigger] s[j].right_quote() is Some && leads_with_two(
                s[j + 1],
            ))
    } else if s.len() == 1 {
        match s[0] {
            InlineModel::Quoted { localized, inlines } => settles_in_one_pass(inlines),
            InlineModel::Div(_, inlines) => settles_in_one_pass(inlines),
            InlineModel::Formatted(inlines, _) => settles_in_one_pass(inlines),
            _ => true,
        }
    } else {
        true
    }
}

/// How often the character `c` occurs in the text `t`.
pub open spec fn occurrences(t: Seq<char>, c: char) -> nat
    decreases t.len(),
{
    if t.len() == 0 {
        0
    } else {
        (if t[0] == c {
            1nat
        } else {
            0nat
        }) + occurrences(t.drop_first(), c)
    }
}

impl MicroModel {
    /// How often the character `c` occurs in the texts under this node.
    pub open spec fn count(self, c: char) -> nat
        decreases self, 0nat,
    {
        match self {
            MicroModel::Text(s) => occurrences(s, c),
            MicroModel::Quoted { localized, children } => micro_count_upto(
                children,
                children.len(),
                c,
            ),
            MicroModel::NoCase(children) => micro_count_upto(children, children.len(), c),
            MicroModel::Formatted(children, _) => micro_count_upto(children, children.len(), c),
        }
    }
}

/// How often the character `c` occurs in the texts under the first `n` nodes
/// of `s`.
pub open spec fn micro_count_upto(s: Seq<MicroModel>, n: nat, c: char) -> nat
    decreases s, n,
{
    if n == 0 || n > s.len() {
        0
    } else {
        micro_count_upto(s, (n - 1) as nat, c) + s[n - 1].count(c)
    }
}

impl InlineModel {
    /// How often the character `c` occurs in the texts under this element.
    pub open spec fn count(self, c: char) -> nat
        decreases self, 0nat,
    {
        match self {
            InlineModel::Text(s) => occurrences(s, c),
            InlineModel::Micro(micros) => micro_count_upto(micros, micros.len(), c),
            InlineModel::Quoted { localized, inlines } => inline_count_upto(
                inlines,
                inlines.len(),
                c,
            ),
            InlineModel::Div(_, inlines) => inline_count_upto(inlines, inlines.len(), c),
            InlineModel::Formatted(inlines, _) => inline_count_upto(inlines, inlines.len(), c),
            InlineModel::Anchor { title, url, content } => inline_count_upto(
                content,
                content.len(),
                c,
            ),
        }
    }
}

/// How often the character `c` occurs in the texts under the first `n`
/// elements of `s`.
pub open spec fn inline_count_upto(s: Seq<InlineModel>, n: nat, c: char) -> nat
    decreases s, n,
{
    if n == 0 || n > s.len() {
        0
    } else {
        inline_count_upto(s, (n - 1) as nat, c) + s[n - 1].count(c)
    }
}

/// How often the character `c` occurs in the texts of the sequence `s`.
pub open spec fn inline_count(s: Seq<InlineModel>, c: char) -> nat {
    inline_count_upto(s, s.len(), c)
}

/// 1 where the pair of elements `j` and `j + 1` migrates the character `c`
/// and it is dropped, because the insertion point already ends with
/// punctuation; 0 elsewhere.
pub open spec fn dropped_at(s: Seq<InlineModel>, j: int, c: char) -> nat {
    if j + 1 < s.len() && migrates(s[j], s[j + 1]) && stripped_at(
        s,
        j,
    ).insertion_ends_with_punctuation() && s[j + 1].leading_punctuation() == Some(c) {
        1
    } else {
        0
    }
}

/// How often the pairs that begin at the first `n` elements drop `c`.
pub open spec fn dropped_upto(s: Seq<InlineModel>, n: nat, c: char) -> nat
    decreases n,
{
    if n == 0 {
        0
    } else {
        dropped_upto(s, (n - 1) as nat, c) + dropped_at(s, n - 1, c)
    }
}

/// How often the pass over `s` drops the character `c`: takes it from the
/// text behind a quote without appending it inside.
pub open spec fn dropped(s: Seq<InlineModel>, c: char) -> nat
    decreases s,
{
    if s.len() >= 2 {
        dropped_upto(s, s.len(), c)
    } else if s.len() == 1 {
        match s[0] {
            InlineModel::Quoted { localized, inlines } => dropped(inlines, c),
            InlineModel::Div(_, inlines) => dropped(inlines, c),
            InlineModel::Formatted(inlines, _) => dropped(inlines, c),
            _ => 0,
        }
    } else {
        0
    }
}

} // verus!
