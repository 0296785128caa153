//! The pass that moves punctuation from behind a closing quote to inside it.

use vstd::prelude::*;
use crate::inline::{inline_models, micro_models, InlineElement, InlineModel, MicroModel, MicroNode};
use crate::punctuation_spec::{
    is_punctuation, moved, moved_at, stripped_at, RightQuoteInsertionPoint,
};
use crate::punctuation_laws::lemma_strip_keeps_right_quote;
use crate::text::{char_to_string, first_char, last_char, remove_first_char};
use crate::views::{
    lemma_inline_child, lemma_inline_micro_child, lemma_inline_view, lemma_micro_child,
    lemma_micro_view,
};

verus! {

/// Whether `c` is one of the characters that migrate.
pub fn is_punc(c: char) -> (r: bool)
    ensures
        r == is_punctuation(c),
{
    c == '.' || c == ',' || c == '!' || c == '?'
}

/// Whether the last character of `s` is punctuation.
fn string_ends_with_punctuation(s: &String) -> (r: bool)
    ensures
        r == crate::punctuation_spec::text_ends_with_punctuation(s@),
{
    match last_char(s.as_str()) {
        Some(c) => is_punc(c),
        None => false,
    }
}

/// Whether the rightmost text under `i` ends with punctuation.
pub fn ends_with_punctuation_micro(i: &MicroNode) -> (r: bool)
    ensures
        r == i@.ends_with_punctuation(),
    decreases i@,
{
    proof {
        lemma_micro_view(*i);
    }
    match i {
        MicroNode::Text(string) => string_ends_with_punctuation(string),
        MicroNode::Quoted { localized, children } => {
            let len = children.len();
            if len > 0 {
                proof {
                    lemma_micro_child(*i, len - 1);
                }
                ends_with_punctuation_micro(&children[len - 1])
            } else {
                false
            }
        },
        MicroNode::NoCase(children) => {
            let len = children.len();
            if len > 0 {
                proof {
                    lemma_micro_child(*i, len - 1);
                }
                ends_with_punctuation_micro(&children[len - 1])
            } else {
                false
            }
        },
        MicroNode::Formatted(children, _) => {
            let len = children.len();
            if len > 0 {
                proof {
                    lemma_micro_child(*i, len - 1);
                }
                ends_with_punctuation_micro(&children[len - 1])
            } else {
                false
            }
        },
    }
}

/// Whether the rightmost text under `i` ends with punctuation.
pub fn ends_with_punctuation(i: &InlineElement) -> (r: bool)
    ensures
        r == i@.ends_with_punctuation(),
    decreases i@,
{
    proof {
        lemma_inline_view(*i);
    }
    match i {
        InlineElement::Text(string) => string_ends_with_punctuation(string),
        InlineElement::Micro(micros) => {
            let len = micros.len();
            if len > 0 {
                proof {
                    lemma_inline_micro_child(*i, len - 1);
                }
                ends_with_punctuation_micro(&micros[len - 1])
            } else {
                false
            }
        },
        InlineElement::Quoted { localized, inlines } => {
            let len = inlines.len();
            if len > 0 {
                proof {
                    lemma_inline_child(*i, len - 1);
                }
                ends_with_punctuation(&inlines[len - 1])
            } else {
                false
            }
        },
        InlineElement::Div(_, inlines) => {
            let len = inlines.len();
            if len > 0 {
                proof {
                    lemma_inline_child(*i, len - 1);
                }
                ends_with_punctuation(&inlines[len - 1])
            } else {
                false
            }
        },
        InlineElement::Formatted(inlines, _) => {
            let len = inlines.len();
            if len > 0 {
                proof {
                    lemma_inline_child(*i, len - 1);
                }
                ends_with_punctuation(&inlines[len - 1])
            } else {
                false
            }
        },
        InlineElement::Anchor { .. } => false,
    }
}

/// Looks for the insertion point at the right edge of `micro`.
pub fn find_right_quote_micro(micro: &MicroNode) -> (r: Option<RightQuoteInsertionPoint>)
    ensures
        r == (if micro@.has_right_quote() {
            Some(RightQuoteInsertionPoint::Micro)
        } else {
            None::<RightQuoteInsertionPoint>
        }),
    decreases micro@,
{
    proof {
        lemma_micro_view(*micro);
    }
    match micro {
        MicroNode::Text(_) => None,
        MicroNode::Quoted { localized, children } => {
            let len = children.len();
            if len > 0 {
                proof {
                    lemma_micro_child(*micro, len - 1);
                }
                let deeper = find_right_quote_micro(&children[len - 1]);
                if deeper.is_some() {
                    return deeper;
                }
            }
            if localized.punctuation_in_quote {
                Some(RightQuoteInsertionPoint::Micro)
            } else {
                None
            }
        },
        MicroNode::NoCase(nodes) => {
            let len = nodes.len();
            if len > 0 {
                proof {
                    lemma_micro_child(*micro, len - 1);
                }
                find_right_quote_micro(&nodes[len - 1])
            } else {
                None
            }
        },
        MicroNode::Formatted(nodes, _) => {
            let len = nodes.len();
            if len > 0 {
                proof {
                    lemma_micro_child(*micro, len - 1);
                }
                find_right_quote_micro(&nodes[len - 1])
            } else {
                None
            }
        },
    }
}

/// Looks for the insertion point at the right edge of `el`.
pub fn find_right_quote(el: &InlineElement) -> (r: Option<RightQuoteInsertionPoint>)
    ensures
        r == el@.right_quote(),
    decreases el@,
{
    proof {
        lemma_inline_view(*el);
    }
    match el {
        InlineElement::Quoted { localized, inlines } => {
            let len = inlines.len();
            if len > 0 {
                proof {
                    lemma_inline_child(*el, len - 1);
                }
                let deeper = find_right_quote(&inlines[len - 1]);
                if deeper.is_some() {
                    return deeper;
                }
            }
            if localized.punctuation_in_quote {
                Some(RightQuoteInsertionPoint::Inline)
            } else {
                None
            }
        },
        InlineElement::Micro(micros) => {
            let len = micros.len();
            if len > 0 {
                proof {
                    lemma_inline_micro_child(*el, len - 1);
                }
                find_right_quote_micro(&micros[len - 1])
            } else {
                None
            }
        },
        InlineElement::Div(_, inlines) => {
            let len = inlines.len();
            if len > 0 {
                proof {
                    lemma_inline_child(*el, len - 1);
                }
                find_right_quote(&inlines[len - 1])
            } else {
                None
            }
        },
        InlineElement::Formatted(inlines, _) => {
            let len = inlines.len();
            if len > 0 {
                proof {
                    lemma_inline_child(*el, len - 1);
                }
                find_right_quote(&inlines[len - 1])
            } else {
                None
            }
        },
        _ => None,
    }
}

/// Whether the list at the insertion point of `micro` ends with punctuation.
fn insertion_ends_with_punctuation_micro(micro: &MicroNode) -> (r: bool)
    ensures
        r == micro@.insertion_ends_with_punctuation(),
    decreases micro@,
{
    proof {
        lemma_micro_view(*micro);
    }
    match micro {
        MicroNode::Text(_) => false,
        MicroNode::Quoted { localized, children } => {
            let len = children.len();
            if len > 0 && find_right_quote_micro(&children[len - 1]).is_some() {
                proof {
                    lemma_micro_child(*micro, len - 1);
                }
                insertion_ends_with_punctuation_micro(&children[len - 1])
            } else if localized.punctuation_in_quote && len > 0 {
                proof {
                    lemma_micro_child(*micro, len - 1);
                }
                ends_with_punctuation_micro(&children[len - 1])
            } else {
                false
            }
        },
        MicroNode::NoCase(nodes) => {
            let len = nodes.len();
            if len > 0 {
                proof {
                    lemma_micro_child(*micro, len - 1);
                }
                insertion_ends_with_punctuation_micro(&nodes[len - 1])
            } else {
                false
            }
        },
        MicroNode::Formatted(nodes, _) => {
            let len = nodes.len();
            if len > 0 {
                proof {
                    lemma_micro_child(*micro, len - 1);
                }
                insertion_ends_with_punctuation_micro(&nodes[len - 1])
            } else {
                false
            }
        },
    }
}

impl RightQuoteInsertionPoint {
    /// Whether the list at this insertion point of `el` already ends with
    /// punctuation, through every wrapper down to the last text.
    pub fn ends_with_punctuation(&self, el: &InlineElement) -> (r: bool)
        requires
            el@.right_quote() == Some(*self),
        ensures
            r == el@.insertion_ends_with_punctuation(),
        decreases el@,
    {
        proof {
            lemma_inline_view(*el);
        }
        match el {
            InlineElement::Quoted { localized, inlines } => {
                let len = inlines.len();
                if len > 0 && find_right_quote(&inlines[len - 1]).is_some() {
                    proof {
                        lemma_inline_child(*el, len - 1);
                    }
                    self.ends_with_punctuation(&inlines[len - 1])
                } else if len > 0 {
                    proof {
                        lemma_inline_child(*el, len - 1);
                    }
                    ends_with_punctuation(&inlines[len - 1])
                } else {
                    false
                }
            },
            InlineElement::Micro(micros) => {
                let len = micros.len();
                if len > 0 {
                    proof {
                        lemma_inline_micro_child(*el, len - 1);
                    }
                    insertion_ends_with_punctuation_micro(&micros[len - 1])
                } else {
                    false
                }
            },
            InlineElement::Div(_, inlines) => {
                let len = inlines.len();
                if len > 0 {
                    proof {
                        lemma_inline_child(*el, len - 1);
                    }
                    self.ends_with_punctuation(&inlines[len - 1])
                } else {
                    false
                }
            },
            InlineElement::Formatted(inlines, _) => {
                let len = inlines.len();
                if len > 0 {
                    proof {
                        lemma_inline_child(*el, len - 1);
                    }
                    self.ends_with_punctuation(&inlines[len - 1])
                } else {
                    false
                }
            },
            _ => false,
        }
    }
}

/// The text that `m` begins with, through formatting and never into a quote.
pub fn find_string_micro(m: &MicroNode) -> (r: Option<&String>)
    ensures
        r matches Some(s) ==> m@.leading_text() == Some(s@),
        r is None ==> m@.leading_text() is None,
    decreases m@,
{
    proof {
        lemma_micro_view(*m);
    }
    match m {
        MicroNode::Text(string) => Some(string),
        MicroNode::NoCase(nodes) => {
            if nodes.len() > 0 {
                proof {
                    lemma_micro_child(*m, 0);
                }
                find_string_micro(&nodes[0])
            } else {
                None
            }
        },
        MicroNode::Formatted(nodes, _) => {
            if nodes.len() > 0 {
                proof {
                    lemma_micro_child(*m, 0);
                }
                find_string_micro(&nodes[0])
            } else {
                None
            }
        },
        _ => None,
    }
}

/// The punctuation character that `el` begins with, if it begins with one.
pub fn leading_punctuation(el: &InlineElement) -> (r: Option<char>)
    ensures
        r == el@.leading_punctuation(),
{
    proof {
        lemma_inline_view(*el);
    }
    let string = match el {
        InlineElement::Text(string) => Some(string),
        InlineElement::Micro(micros) => {
            if micros.len() > 0 {
                proof {
                    lemma_inline_micro_child(*el, 0);
                }
                find_string_micro(&micros[0])
            } else {
                None
            }
        },
        _ => None,
    };
    match string {
        Some(s) => match first_char(s.as_str()) {
            Some(c) => if is_punc(c) {
                Some(c)
            } else {
                None
            },
            None => None,
        },
        None => None,
    }
}

/// Removes the first character of the text that `m` begins with, if there
/// is one.
fn remove_leading_char_micro(m: &mut MicroNode)
    ensures
        final(m)@ == old(m)@.without_leading_char(),
    decreases old(m)@,
{
    proof {
        lemma_micro_view(*m);
    }
    match m {
        MicroNode::Text(string) => {
            if !string.as_str().is_empty() {
                let _ = remove_first_char(string);
            }
        },
        MicroNode::NoCase(nodes) => {
            if nodes.len() > 0 {
                let ghost before = nodes@;
                proof {
                    lemma_micro_child(*old(m), 0);
                }
                remove_leading_char_micro(&mut nodes[0]);
                assert(micro_models(nodes@) =~= micro_models(before).update(0, nodes@[0]@));
            }
        },
        MicroNode::Formatted(nodes, _) => {
            if nodes.len() > 0 {
                let ghost before = nodes@;
                proof {
                    lemma_micro_child(*old(m), 0);
                }
                remove_leading_char_micro(&mut nodes[0]);
                assert(micro_models(nodes@) =~= micro_models(before).update(0, nodes@[0]@));
            }
        },
        MicroNode::Quoted { .. } => {},
    }
    proof {
        lemma_micro_view(*m);
    }
}

/// Removes the first character of the text that `el` begins with, if there
/// is one.
pub fn remove_leading_char(el: &mut InlineElement)
    ensures
        final(el)@ == old(el)@.without_leading_char(),
{
    proof {
        lemma_inline_view(*el);
    }
    match el {
        InlineElement::Text(string) => {
            if !string.as_str().is_empty() {
                let _ = remove_first_char(string);
            }
        },
        InlineElement::Micro(micros) => {
            if micros.len() > 0 {
                let ghost before = micros@;
                remove_leading_char_micro(&mut micros[0]);
                assert(micro_models(micros@) =~= micro_models(before).update(0, micros@[0]@));
            }
        },
        _ => {},
    }
    proof {
        lemma_inline_view(*el);
    }
}

/// Appends the character `c`, as a text of its own, at the insertion point
/// of `m`.
fn push_micro(m: &mut MicroNode, c: char)
    ensures
        final(m)@ == old(m)@.pushed(c),
    decreases old(m)@,
{
    proof {
        lemma_micro_view(*m);
    }
    match m {
        MicroNode::Text(_) => {},
        MicroNode::Quoted { localized, children } => {
            let len = children.len();
            let ghost before = children@;
            if len > 0 && find_right_quote_micro(&children[len - 1]).is_some() {
                proof {
                    lemma_micro_child(*old(m), len - 1);
                }
                push_micro(&mut children[len - 1], c);
                assert(micro_models(children@) =~= micro_models(before).update(
                    len - 1,
                    children@[len - 1]@,
                ));
            } else if localized.punctuation_in_quote {
                let text = MicroNode::Text(char_to_string(c));
                proof {
                    lemma_micro_view(text);
                }
                children.push(text);
                assert(micro_models(children@) =~= micro_models(before).push(
                    MicroModel::Text(seq![c]),
                ));
            }
        },
        MicroNode::NoCase(nodes) => {
            let len = nodes.len();
            let ghost before = nodes@;
            if len > 0 {
                proof {
                    lemma_micro_child(*old(m), len - 1);
                }
                push_micro(&mut nodes[len - 1], c);
                assert(micro_models(nodes@) =~= micro_models(before).update(
                    len - 1,
                    nodes@[len - 1]@,
                ));
            }
        },
        MicroNode::Formatted(nodes, _) => {
            let len = nodes.len();
            let ghost before = nodes@;
            if len > 0 {
                proof {
                    lemma_micro_child(*old(m), len - 1);
                }
                push_micro(&mut nodes[len - 1], c);
                assert(micro_models(nodes@) =~= micro_models(before).update(
                    len - 1,
                    nodes@[len - 1]@,
                ));
            }
        },
    }
    proof {
        lemma_micro_view(*m);
    }
}

impl RightQuoteInsertionPoint {
    /// Appends the character `c`, as a text of its own, at this insertion
    /// point of `el`.
    pub fn push(&self, el: &mut InlineElement, c: char)
        requires
            old(el)@.right_quote() == Some(*self),
        ensures
            final(el)@ == old(el)@.pushed(c),
        decreases old(el)@,
    {
        proof {
            lemma_inline_view(*el);
        }
        match el {
            InlineElement::Quoted { localized, inlines } => {
                let len = inlines.len();
                let ghost before = inlines@;
                if len > 0 && find_right_quote(&inlines[len - 1]).is_some() {
                    proof {
                        lemma_inline_child(*old(el), len - 1);
                    }
                    self.push(&mut inlines[len - 1], c);
                    assert(inline_models(inlines@) =~= inline_models(before).update(
                        len - 1,
                        inlines@[len - 1]@,
                    ));
                } else {
                    let text = InlineElement::Text(char_to_string(c));
                    proof {
                        lemma_inline_view(text);
                    }
                    inlines.push(text);
                    assert(inline_models(inlines@) =~= inline_models(before).push(
                        InlineModel::Text(seq![c]),
                    ));
                }
            },
            InlineElement::Micro(micros) => {
                let len = micros.len();
                let ghost before = micros@;
                if len > 0 {
                    push_micro(&mut micros[len - 1], c);
                    assert(micro_models(micros@) =~= micro_models(before).update(
                        len - 1,
                        micros@[len - 1]@,
                    ));
                }
            },
            InlineElement::Div(_, inlines) => {
                let len = inlines.len();
                let ghost before = inlines@;
                if len > 0 {
                    proof {
                        lemma_inline_child(*old(el), len - 1);
                    }
                    self.push(&mut inlines[len - 1], c);
                    assert(inline_models(inlines@) =~= inline_models(before).update(
                        len - 1,
                        inlines@[len - 1]@,
                    ));
                }
            },
            InlineElement::Formatted(inlines, _) => {
                let len = inlines.len();
                let ghost before = inlines@;
                if len > 0 {
                    proof {
                        lemma_inline_child(*old(el), len - 1);
                    }
                    self.push(&mut inlines[len - 1], c);
                    assert(inline_models(inlines@) =~= inline_models(before).update(
                        len - 1,
                        inlines@[len - 1]@,
                    ));
                }
            },
            _ => {},
        }
        proof {
            lemma_inline_view(*el);
        }
    }
}

/// Moves punctuation into the quotations of `slice`.
///
/// In a sequence of two or more elements every pair of neighbours is looked
/// at once, from left to right: where the first has a quote at its right edge
/// that takes punctuation and the second begins with a punctuation character,
/// that character leaves the second and is appended inside the deepest such
/// quote, unless what stands there already ends with punctuation. A sequence
/// of one element has the pass applied to the inline elements of that
/// element.
pub fn move_punctuation(slice: &mut [InlineElement])
    ensures
        inline_models(final(slice)@) == moved(inline_models(old(slice)@)),
    decreases inline_models(old(slice)@),
{
    let len = slice.len();
    let ghost orig = inline_models(slice@);
    if len >= 2 {
        let mut i: usize = 0;
        while i < len - 1
            invariant
                len == slice@.len(),
                len >= 2,
                i <= len - 1,
                orig.len() == len,
                forall|j: int| 0 <= j < i ==> (#[trigger] slice@[j])@ == moved_at(orig, j),
                slice@[i as int]@ == stripped_at(orig, i as int),
                forall|j: int| i < j < len ==> (#[trigger] slice@[j])@ == orig[j],
            decreases len - 1 - i,
        {
            proof {
                lemma_strip_keeps_right_quote(orig[i as int]);
            }
            let ghost before = slice@;
            match find_right_quote(&slice[i]) {
                Some(insertion_point) => {
                    match leading_punctuation(&slice[i + 1]) {
                        Some(c) => {
                            remove_leading_char(&mut slice[i + 1]);
                            if !insertion_point.ends_with_punctuation(&slice[i]) {
                                insertion_point.push(&mut slice[i], c);
                            }
                        },
                        None => {},
                    }
                },
                None => {},
            }
            assert(forall|j: int| 0 <= j < len && j != i && j != i + 1 ==> slice@[j] == before[j]);
            i += 1;
        }
        assert(inline_models(slice@) =~= moved(orig));
    } else if len == 1 {
        let ghost first = slice@[0];
        proof {
            lemma_inline_view(first);
            assert(orig[0] == first@);
        }
        match &mut slice[0] {
            InlineElement::Quoted { localized, inlines } => {
                proof {
                    assert(decreases_to!(orig => orig[0]));
                    assert(decreases_to!(orig[0] => orig[0]->Quoted_inlines));
                }
                move_punctuation(inlines.as_mut_slice());
            },
            InlineElement::Div(_, inlines) => {
                proof {
                    assert(decreases_to!(orig => orig[0]));
                    assert(decreases_to!(orig[0] => orig[0]->Div_1));
                }
                move_punctuation(inlines.as_mut_slice());
            },
            InlineElement::Formatted(inlines, _) => {
                proof {
                    assert(decreases_to!(orig => orig[0]));
                    assert(decreases_to!(orig[0] => orig[0]->Formatted_0));
                }
                move_punctuation(inlines.as_mut_slice());
            },
            _ => {},
        }
        proof {
            lemma_inline_view(slice@[0]);
        }
        assert(inline_models(slice@) =~= moved(orig));
    } else {
        assert(inline_models(slice@) =~= moved(orig));
    }
}

} // verus!
