//! What holds of the punctuation pass on every tree.

use vstd::prelude::*;
use crate::inline::{InlineModel, MicroModel};
use crate::punctuation_spec::{
    migrates, moved, moved_at, settles_in_one_pass, stripped_at, text_without_first,
};

verus! {

/// Removing the leading character of a micro node does not touch its
/// insertion point.
pub proof fn lemma_strip_keeps_right_quote_micro(m: MicroModel)
    ensures
        m.without_leading_char().has_right_quote() == m.has_right_quote(),
    decreases m,
{
    match m {
        MicroModel::Text(s) => {},
        MicroModel::Quoted { localized, children } => {},
        MicroModel::NoCase(children) => {
            if children.len() > 0 {
                lemma_strip_keeps_right_quote_micro(children[0]);
            }
        },
        MicroModel::Formatted(children, f) => {
            if children.len() > 0 {
                lemma_strip_keeps_right_quote_micro(children[0]);
            }
        },
    }
}

/// Removing the leading character of an element does not touch its insertion
/// point.
pub proof fn lemma_strip_keeps_right_quote(el: InlineModel)
    ensures
        el.without_leading_char().right_quote() == el.right_quote(),
{
    match el {
        InlineModel::Micro(micros) => {
            if micros.len() > 0 {
                lemma_strip_keeps_right_quote_micro(micros[0]);
            }
        },
        _ => {},
    }
}

/// Appending at the insertion point of a micro node leaves the insertion
/// point where it was.
pub proof fn lemma_push_keeps_right_quote_micro(m: MicroModel, c: char)
    ensures
        m.pushed(c).has_right_quote() == m.has_right_quote(),
    decreases m,
{
    match m {
        MicroModel::Text(s) => {},
        MicroModel::Quoted { localized, children } => {
            if children.len() > 0 {
                lemma_push_keeps_right_quote_micro(children.last(), c);
            }
            let text = MicroModel::Text(seq![c]);
            assert(!text.has_right_quote());
            assert(children.push(text).last() == text);
        },
        MicroModel::NoCase(children) => {
            if children.len() > 0 {
                lemma_push_keeps_right_quote_micro(children.last(), c);
            }
        },
        MicroModel::Formatted(children, f) => {
            if children.len() > 0 {
                lemma_push_keeps_right_quote_micro(children.last(), c);
            }
        },
    }
}

/// Appending at the insertion point of an element leaves the insertion point
/// where it was.
pub proof fn lemma_push_keeps_right_quote(el: InlineModel, c: char)
    ensures
        el.pushed(c).right_quote() == el.right_quote(),
    decreases el,
{
    match el {
        InlineModel::Micro(micros) => {
            if micros.len() > 0 {
                lemma_push_keeps_right_quote_micro(micros.last(), c);
                let after = micros.update(micros.len() - 1, micros.last().pushed(c));
                assert(after.last() == micros.last().pushed(c));
                assert(el.pushed(c) == InlineModel::Micro(after));
            }
        },
        InlineModel::Quoted { localized, inlines } => {
            if inlines.len() > 0 {
                lemma_push_keeps_right_quote(inlines.last(), c);
            }
            let text = InlineModel::Text(seq![c]);
            assert(text.right_quote() is None);
            assert(inlines.push(text).last() == text);
        },
        InlineModel::Div(d, inlines) => {
            if inlines.len() > 0 {
                lemma_push_keeps_right_quote(inlines.last(), c);
            }
        },
        InlineModel::Formatted(inlines, f) => {
            if inlines.len() > 0 {
                lemma_push_keeps_right_quote(inlines.last(), c);
            }
        },
        _ => {},
    }
}

/// Appending at the insertion point of a micro node does not change the text
/// that the node begins with.
pub proof fn lemma_push_keeps_leading_text_micro(m: MicroModel, c: char)
    ensures
        m.pushed(c).leading_text() == m.leading_text(),
    decreases m,
{
    match m {
        MicroModel::Text(s) => {},
        MicroModel::Quoted { localized, children } => {},
        MicroModel::NoCase(children) => {
            if children.len() > 0 {
                lemma_push_keeps_leading_text_micro(children.last(), c);
            }
        },
        MicroModel::Formatted(children, f) => {
            if children.len() > 0 {
                lemma_push_keeps_leading_text_micro(children.last(), c);
            }
        },
    }
}

/// Appending at the insertion point of an element does not change the text
/// that the element begins with.
pub proof fn lemma_push_keeps_leading_text(el: InlineModel, c: char)
    ensures
        el.pushed(c).leading_text() == el.leading_text(),
{
    match el {
        InlineModel::Micro(micros) => {
            if micros.len() > 0 {
                lemma_push_keeps_leading_text_micro(micros.last(), c);
            }
        },
        _ => {},
    }
}

/// After its leading character is removed, a micro node begins with the rest
/// of the text that it began with.
pub proof fn lemma_strip_leading_text_micro(m: MicroModel)
    ensures
        m.without_leading_char().leading_text() == (match m.leading_text() {
            Some(t) => Some(text_without_first(t)),
            None => None,
        }),
    decreases m,
{
    match m {
        MicroModel::Text(s) => {},
        MicroModel::Quoted { localized, children } => {},
        MicroModel::NoCase(children) => {
            if children.len() > 0 {
                lemma_strip_leading_text_micro(children[0]);
            }
        },
        MicroModel::Formatted(children, f) => {
            if children.len() > 0 {
                lemma_strip_leading_text_micro(children[0]);
            }
        },
    }
}

/// After its leading character is removed, an element begins with the rest of
/// the text that it began with.
pub proof fn lemma_strip_leading_text(el: InlineModel)
    ensures
        el.without_leading_char().leading_text() == (match el.leading_text() {
            Some(t) => Some(text_without_first(t)),
            None => None,
        }),
{
    match el {
        InlineModel::Micro(micros) => {
            if micros.len() > 0 {
                lemma_strip_leading_text_micro(micros[0]);
            }
        },
        _ => {},
    }
}

/// What the pass leaves of element `j`: its insertion point is where it was,
/// and it begins with the text it began with, less the character that
/// migrated.
pub proof fn lemma_moved_at(s: Seq<InlineModel>, j: int)
    requires
        0 <= j < s.len(),
    ensures
        moved_at(s, j).right_quote() == s[j].right_quote(),
        moved_at(s, j).leading_text() == (if j > 0 && migrates(s[j - 1], s[j]) {
            Some(text_without_first(s[j].leading_text()->0))
        } else {
            s[j].leading_text()
        }),
{
    let a = stripped_at(s, j);
    lemma_strip_keeps_right_quote(s[j]);
    lemma_strip_leading_text(s[j]);
    if j + 1 < s.len() && s[j + 1].leading_punctuation() is Some {
        let c = s[j + 1].leading_punctuation()->0;
        lemma_push_keeps_right_quote(a, c);
        lemma_push_keeps_leading_text(a, c);
    }
}

/// The pass is idempotent on every sequence that one pass settles: applying
/// it a second time changes nothing.
pub proof fn lemma_move_punctuation_idempotent(s: Seq<InlineModel>)
    requires
        settles_in_one_pass(s),
    ensures
        moved(moved(s)) == moved(s),
    decreases s,
{
    let t = moved(s);
    if s.len() >= 2 {
        assert(t.len() == s.len());
        assert forall|j: int| 0 <= j < s.len() implies #[trigger] moved_at(t, j) == t[j] by {
            lemma_moved_at(s, j);
            if j > 0 {
                lemma_moved_at(s, j - 1);
                assert(!(s[j - 1].right_quote() is Some && crate::punctuation_spec::leads_with_two(s[j])));
            }
            if j + 1 < s.len() {
                lemma_moved_at(s, j + 1);
                assert(!(s[j].right_quote() is Some && crate::punctuation_spec::leads_with_two(s[j + 1])));
            }
        }
        assert(moved(t) =~= t);
    } else if s.len() == 1 {
        assert(decreases_to!(s => s[0]));
        match s[0] {
            InlineModel::Quoted { localized, inlines } => {
                assert(decreases_to!(s[0] => s[0]->Quoted_inlines));
                lemma_move_punctuation_idempotent(inlines);
            },
            InlineModel::Div(d, inlines) => {
                assert(decreases_to!(s[0] => s[0]->Div_1));
                lemma_move_punctuation_idempotent(inlines);
            },
            InlineModel::Formatted(inlines, f) => {
                assert(decreases_to!(s[0] => s[0]->Formatted_0));
                lemma_move_punctuation_idempotent(inlines);
            },
            _ => {},
        }
        assert(moved(t) =~= t);
    } else {
    }
}

/// On every other sequence a second pass does change something: one pass
/// settles exactly the sequences that `settles_in_one_pass` admits.
pub proof fn lemma_move_punctuation_second_pass(s: Seq<InlineModel>)
    requires
        !settles_in_one_pass(s),
    ensures
        moved(moved(s)) != moved(s),
    decreases s,
{
    let t = moved(s);
    if s.len() >= 2 {
        let j = choose|j: int|
            0 <= j < s.len() - 1 && (#[trigger] s[j].right_quote() is Some
                && crate::punctuation_spec::leads_with_two(s[j + 1]));
        lemma_moved_at(s, j);
        lemma_moved_at(s, j + 1);
        assert(t[j] == moved_at(s, j));
        assert(t[j + 1] == moved_at(s, j + 1));
        let before = s[j + 1].leading_text()->0;
        let between = t[j + 1].leading_text()->0;
        assert(between == before.drop_first());
        assert(between[0] == before[1]);
        assert(migrates(t[j], t[j + 1]));
        lemma_moved_at(t, j + 1);
        let after = moved_at(t, j + 1).leading_text()->0;
        assert(after.len() == between.len() - 1);
        assert(moved(t)[j + 1] == moved_at(t, j + 1));
        assert(moved(t)[j + 1] != t[j + 1]);
    } else {
        assert(s.len() == 1);
        assert(decreases_to!(s => s[0]));
        match s[0] {
            InlineModel::Quoted { localized, inlines } => {
                assert(decreases_to!(s[0] => s[0]->Quoted_inlines));
                lemma_move_punctuation_second_pass(inlines);
                assert(moved(t)[0]->Quoted_inlines == moved(moved(inlines)));
                assert(t[0]->Quoted_inlines == moved(inlines));
            },
            InlineModel::Div(d, inlines) => {
                assert(decreases_to!(s[0] => s[0]->Div_1));
                lemma_move_punctuation_second_pass(inlines);
                assert(moved(t)[0]->Div_1 == moved(moved(inlines)));
                assert(t[0]->Div_1 == moved(inlines));
            },
            InlineModel::Formatted(inlines, f) => {
                assert(decreases_to!(s[0] => s[0]->Formatted_0));
                lemma_move_punctuation_second_pass(inlines);
                assert(moved(t)[0]->Formatted_0 == moved(moved(inlines)));
                assert(t[0]->Formatted_0 == moved(inlines));
            },
            _ => {},
        }
    }
}

} // verus!
