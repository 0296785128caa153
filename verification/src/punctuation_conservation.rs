//! The punctuation pass loses no character but the ones it drops at a quote
//! that already ends with punctuation.

use vstd::prelude::*;
use crate::inline::{InlineModel, MicroModel};
use crate::punctuation_laws::lemma_strip_keeps_right_quote;
use crate::punctuation_spec::{
    dropped, dropped_at, dropped_upto, inline_count, inline_count_upto, is_punctuation,
    micro_count_upto, migrates, moved, moved_at, occurrences, stripped_at,
};

verus! {

/// 1 where the two characters are the same, 0 elsewhere.
pub open spec fn one_if(a: char, b: char) -> nat {
    if a == b {
        1
    } else {
        0
    }
}

/// Replacing node `i` changes the count of a prefix by the difference of the
/// two nodes, where the prefix holds node `i`.
pub proof fn lemma_micro_count_update(s: Seq<MicroModel>, i: int, x: MicroModel, n: nat, c: char)
    requires
        0 <= i < s.len(),
        n <= s.len(),
    ensures
        micro_count_upto(s.update(i, x), n, c) + (if i < n {
            s[i].count(c)
        } else {
            0
        }) == micro_count_upto(s, n, c) + (if i < n {
            x.count(c)
        } else {
            0
        }),
    decreases n,
{
    if n > 0 {
        lemma_micro_count_update(s, i, x, (n - 1) as nat, c);
    }
}

/// Appending a node leaves the counts of the prefixes as they were.
pub proof fn lemma_micro_count_push_prefix(s: Seq<MicroModel>, x: MicroModel, n: nat, c: char)
    requires
        n <= s.len(),
    ensures
        micro_count_upto(s.push(x), n, c) == micro_count_upto(s, n, c),
    decreases n,
{
    if n > 0 {
        lemma_micro_count_push_prefix(s, x, (n - 1) as nat, c);
    }
}

/// Appending a node adds its count.
pub proof fn lemma_micro_count_push(s: Seq<MicroModel>, x: MicroModel, c: char)
    ensures
        micro_count_upto(s.push(x), s.len() + 1, c) == micro_count_upto(s, s.len(), c)
            + x.count(c),
{
    lemma_micro_count_push_prefix(s, x, s.len(), c);
    assert(s.push(x)[s.len() as int] == x);
}

/// Replacing element `i` changes the count of a prefix by the difference of
/// the two elements, where the prefix holds element `i`.
pub proof fn lemma_inline_count_update(
    s: Seq<InlineModel>,
    i: int,
    x: InlineModel,
    n: nat,
    c: char,
)
    requires
        0 <= i < s.len(),
        n <= s.len(),
    ensures
        inline_count_upto(s.update(i, x), n, c) + (if i < n {
            s[i].count(c)
        } else {
            0
        }) == inline_count_upto(s, n, c) + (if i < n {
            x.count(c)
        } else {
            0
        }),
    decreases n,
{
    if n > 0 {
        lemma_inline_count_update(s, i, x, (n - 1) as nat, c);
    }
}

/// Appending an element leaves the counts of the prefixes as they were.
pub proof fn lemma_inline_count_push_prefix(s: Seq<InlineModel>, x: InlineModel, n: nat, c: char)
    requires
        n <= s.len(),
    ensures
        inline_count_upto(s.push(x), n, c) == inline_count_upto(s, n, c),
    decreases n,
{
    if n > 0 {
        lemma_inline_count_push_prefix(s, x, (n - 1) as nat, c);
    }
}

/// Appending an element adds its count.
pub proof fn lemma_inline_count_push(s: Seq<InlineModel>, x: InlineModel, c: char)
    ensures
        inline_count_upto(s.push(x), s.len() + 1, c) == inline_count_upto(s, s.len(), c)
            + x.count(c),
{
    lemma_inline_count_push_prefix(s, x, s.len(), c);
    assert(s.push(x)[s.len() as int] == x);
}

/// The text of the one character `a` holds `a` once and nothing else.
pub proof fn lemma_single_occurrence(a: char, c: char)
    ensures
        occurrences(seq![a], c) == one_if(a, c),
{
    let t = seq![a];
    assert(t.drop_first().len() == 0);
    assert(occurrences(t.drop_first(), c) == 0);
}

/// Appending `a` at the insertion point of a micro node adds one occurrence
/// of `a`.
pub proof fn lemma_micro_pushed_count(m: MicroModel, a: char, c: char)
    requires
        m.has_right_quote(),
    ensures
        m.pushed(a).count(c) == m.count(c) + one_if(a, c),
    decreases m,
{
    match m {
        MicroModel::Text(s) => {},
        MicroModel::Quoted { localized, children } => {
            if children.len() > 0 && children.last().has_right_quote() {
                lemma_micro_pushed_count(children.last(), a, c);
                lemma_micro_count_update(
                    children,
                    children.len() - 1,
                    children.last().pushed(a),
                    children.len(),
                    c,
                );
            } else {
                let text = MicroModel::Text(seq![a]);
                lemma_single_occurrence(a, c);
                assert(text.count(c) == one_if(a, c));
                lemma_micro_count_push(children, text, c);
            }
        },
        MicroModel::NoCase(children) => {
            lemma_micro_pushed_count(children.last(), a, c);
            lemma_micro_count_update(
                children,
                children.len() - 1,
                children.last().pushed(a),
                children.len(),
                c,
            );
        },
        MicroModel::Formatted(children, f) => {
            lemma_micro_pushed_count(children.last(), a, c);
            lemma_micro_count_update(
                children,
                children.len() - 1,
                children.last().pushed(a),
                children.len(),
                c,
            );
        },
    }
}

/// Appending `a` at the insertion point of an element adds one occurrence of
/// `a`.
pub proof fn lemma_inline_pushed_count(el: InlineModel, a: char, c: char)
    requires
        el.right_quote() is Some,
    ensures
        el.pushed(a).count(c) == el.count(c) + one_if(a, c),
    decreases el,
{
    match el {
        InlineModel::Micro(micros) => {
            lemma_micro_pushed_count(micros.last(), a, c);
            lemma_micro_count_update(
                micros,
                micros.len() - 1,
                micros.last().pushed(a),
                micros.len(),
                c,
            );
        },
        InlineModel::Quoted { localized, inlines } => {
            if inlines.len() > 0 && inlines.last().right_quote() is Some {
                lemma_inline_pushed_count(inlines.last(), a, c);
                lemma_inline_count_update(
                    inlines,
                    inlines.len() - 1,
                    inlines.last().pushed(a),
                    inlines.len(),
                    c,
                );
            } else {
                let text = InlineModel::Text(seq![a]);
                lemma_single_occurrence(a, c);
                assert(text.count(c) == one_if(a, c));
                lemma_inline_count_push(inlines, text, c);
            }
        },
        InlineModel::Div(d, inlines) => {
            lemma_inline_pushed_count(inlines.last(), a, c);
            lemma_inline_count_update(
                inlines,
                inlines.len() - 1,
                inlines.last().pushed(a),
                inlines.len(),
                c,
            );
        },
        InlineModel::Formatted(inlines, f) => {
            lemma_inline_pushed_count(inlines.last(), a, c);
            lemma_inline_count_update(
                inlines,
                inlines.len() - 1,
                inlines.last().pushed(a),
                inlines.len(),
                c,
            );
        },
        _ => {},
    }
}

/// Removing the leading character of a micro node takes one occurrence of
/// that character away.
pub proof fn lemma_micro_stripped_count(m: MicroModel, c: char)
    requires
        m.leading_text() is Some,
        m.leading_text()->0.len() > 0,
    ensures
        m.without_leading_char().count(c) + one_if(m.leading_text()->0[0], c) == m.count(c),
    decreases m,
{
    match m {
        MicroModel::Text(s) => {},
        MicroModel::Quoted { localized, children } => {},
        MicroModel::NoCase(children) => {
            lemma_micro_stripped_count(children[0], c);
            lemma_micro_count_update(
                children,
                0,
                children[0].without_leading_char(),
                children.len(),
                c,
            );
        },
        MicroModel::Formatted(children, f) => {
            lemma_micro_stripped_count(children[0], c);
            lemma_micro_count_update(
                children,
                0,
                children[0].without_leading_char(),
                children.len(),
                c,
            );
        },
    }
}

/// Removing the leading character of an element takes one occurrence of that
/// character away.
pub proof fn lemma_inline_stripped_count(el: InlineModel, c: char)
    requires
        el.leading_text() is Some,
        el.leading_text()->0.len() > 0,
    ensures
        el.without_leading_char().count(c) + one_if(el.leading_text()->0[0], c) == el.count(c),
{
    match el {
        InlineModel::Micro(micros) => {
            lemma_micro_stripped_count(micros[0], c);
            lemma_micro_count_update(
                micros,
                0,
                micros[0].without_leading_char(),
                micros.len(),
                c,
            );
        },
        _ => {},
    }
}

/// 1 where the pair of elements `j - 1` and `j` migrates the character `c`;
/// 0 elsewhere.
pub open spec fn carried_at(s: Seq<InlineModel>, j: int, c: char) -> nat {
    if 0 < j < s.len() && migrates(s[j - 1], s[j]) && s[j].leading_punctuation() == Some(c) {
        1
    } else {
        0
    }
}

/// What element `j` holds after the pass, with what it dropped and what it
/// gave to the element before it, is what it held with what it took from the
/// element after it.
pub proof fn lemma_moved_at_count(s: Seq<InlineModel>, j: int, c: char)
    requires
        0 <= j < s.len(),
    ensures
        moved_at(s, j).count(c) + dropped_at(s, j, c) + carried_at(s, j, c) == s[j].count(c)
            + carried_at(s, j + 1, c),
{
    let a = stripped_at(s, j);
    if j > 0 && migrates(s[j - 1], s[j]) {
        lemma_inline_stripped_count(s[j], c);
    }
    lemma_strip_keeps_right_quote(s[j]);
    if j + 1 < s.len() && migrates(s[j], s[j + 1]) && !a.insertion_ends_with_punctuation() {
        lemma_inline_pushed_count(a, s[j + 1].leading_punctuation()->0, c);
    }
}

/// The counts of a prefix of the sequence after the pass, in a sequence of
/// two or more.
pub proof fn lemma_moved_prefix_count(s: Seq<InlineModel>, n: nat, c: char)
    requires
        s.len() >= 2,
        n <= s.len(),
    ensures
        inline_count_upto(moved(s), n, c) + dropped_upto(s, n, c) == inline_count_upto(s, n, c)
            + carried_at(s, n as int, c),
    decreases n,
{
    if n > 0 {
        lemma_moved_prefix_count(s, (n - 1) as nat, c);
        lemma_moved_at_count(s, n - 1, c);
        assert(moved(s)[n - 1] == moved_at(s, n - 1));
    }
}

/// The pass conserves every character, punctuation among them, but for the
/// punctuation that it drops at a quote which already ends with punctuation:
/// what the sequence holds of the character `c` after the pass, and what the
/// pass dropped of it, is what the sequence held of it. Only punctuation is
/// dropped.
pub proof fn lemma_move_punctuation_conserves(s: Seq<InlineModel>, c: char)
    ensures
        inline_count(moved(s), c) + dropped(s, c) == inline_count(s, c),
        !is_punctuation(c) ==> dropped(s, c) == 0,
    decreases s,
{
    if s.len() >= 2 {
        lemma_moved_prefix_count(s, s.len(), c);
        lemma_dropped_is_punctuation(s, s.len(), c);
    } else if s.len() == 1 {
        let t = moved(s);
        assert(decreases_to!(s => s[0]));
        assert(inline_count_upto(s, 0, c) == 0);
        assert(inline_count_upto(t, 0, c) == 0);
        assert(inline_count(s, c) == s[0].count(c));
        assert(inline_count(t, c) == t[0].count(c));
        match s[0] {
            InlineModel::Quoted { localized, inlines } => {
                assert(decreases_to!(s[0] => s[0]->Quoted_inlines));
                lemma_move_punctuation_conserves(inlines, c);
            },
            InlineModel::Div(d, inlines) => {
                assert(decreases_to!(s[0] => s[0]->Div_1));
                lemma_move_punctuation_conserves(inlines, c);
            },
            InlineModel::Formatted(inlines, f) => {
                assert(decreases_to!(s[0] => s[0]->Formatted_0));
                lemma_move_punctuation_conserves(inlines, c);
            },
            _ => {},
        }
    } else {
    }
}

/// What the pairs drop is punctuation.
pub proof fn lemma_dropped_is_punctuation(s: Seq<InlineModel>, n: nat, c: char)
    ensures
        !is_punctuation(c) ==> dropped_upto(s, n, c) == 0,
    decreases n,
{
    if n > 0 {
        lemma_dropped_is_punctuation(s, (n - 1) as nat, c);
    }
}

} // verus!
