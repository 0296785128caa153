//! What holds of merging and of term lookup on every locale.

use vstd::prelude::*;
use crate::lang::Lang;
use crate::locale::LocaleModel;
use crate::locale_store::merged_along;
use crate::terms::{SelectorModel, TermForm, TermKey};

verus! {

/// Merge monotonicity. The table merged from a chain of three documents,
/// least specific first, holds every key of the third, every further key of
/// the second and every further key of the first, and no other; each with the
/// term of the most specific document that has the key.
pub proof fn lemma_merge_monotone(a: LocaleModel, b: LocaleModel, c: LocaleModel, k: TermKey)
    ensures
        ({
            let m = LocaleModel::empty().merged(a).merged(b).merged(c);
            &&& m.terms.contains_key(k) <==> (a.terms.contains_key(k) || b.terms.contains_key(k)
                || c.terms.contains_key(k))
            &&& c.terms.contains_key(k) ==> m.terms[k] == c.terms[k]
            &&& !c.terms.contains_key(k) && b.terms.contains_key(k) ==> m.terms[k] == b.terms[k]
            &&& !c.terms.contains_key(k) && !b.terms.contains_key(k) && a.terms.contains_key(k)
                ==> m.terms[k] == a.terms[k]
        }),
{
}

/// The document of `tag` has a term under the key `k`.
pub open spec fn provides(docs: Map<Lang, LocaleModel>, tag: Lang, k: TermKey) -> bool {
    docs.contains_key(tag) && docs[tag].terms.contains_key(k)
}

/// Merge monotonicity along a chain of any length: the merged table holds a
/// key where some document of the chain has it, with the term of the last,
/// most specific, document that has it.
pub proof fn lemma_merged_along_terms(docs: Map<Lang, LocaleModel>, chain: Seq<Lang>, k: TermKey)
    ensures
        merged_along(docs, chain).terms.contains_key(k) <==> exists|i: int|
            0 <= i < chain.len() && provides(docs, #[trigger] chain[i], k),
        forall|i: int|
            0 <= i < chain.len() && provides(docs, #[trigger] chain[i], k) && (forall|j: int|
                i < j < chain.len() ==> !provides(docs, #[trigger] chain[j], k)) ==> merged_along(
                docs,
                chain,
            ).terms[k] == docs[chain[i]].terms[k],
    decreases chain.len(),
{
    if chain.len() > 0 {
        let front = chain.drop_last();
        let last = chain.len() - 1;
        lemma_merged_along_terms(docs, front, k);
        assert forall|i: int| 0 <= i < front.len() implies #[trigger] front[i] == chain[i] by {}
        if provides(docs, chain.last(), k) {
            assert(provides(docs, chain[last], k));
        } else {
            if merged_along(docs, chain).terms.contains_key(k) {
                let i = choose|i: int| 0 <= i < front.len() && provides(docs, #[trigger] front[i], k);
                assert(provides(docs, chain[i], k));
            }
            if exists|i: int| 0 <= i < chain.len() && provides(docs, #[trigger] chain[i], k) {
                let i = choose|i: int| 0 <= i < chain.len() && provides(docs, #[trigger] chain[i], k);
                assert(i < last);
                assert(provides(docs, front[i], k));
            }
        }
        assert forall|i: int|
            0 <= i < chain.len() && provides(docs, #[trigger] chain[i], k) && (forall|j: int|
                i < j < chain.len() ==> !provides(docs, #[trigger] chain[j], k)) implies merged_along(
            docs,
            chain,
        ).terms[k] == docs[chain[i]].terms[k] by {
            if i < last {
                assert(!provides(docs, chain[last], k));
                assert(provides(docs, front[i], k));
                assert forall|j: int| i < j < front.len() implies !provides(
                    docs,
                    #[trigger] front[j],
                    k,
                ) by {
                    assert(front[j] == chain[j]);
                }
            }
        }
    }
}

/// Merging is associative.
pub proof fn lemma_merge_associative(a: LocaleModel, b: LocaleModel, c: LocaleModel)
    ensures
        a.merged(b).merged(c) == a.merged(b.merged(c)),
{
    assert(a.merged(b).merged(c).terms =~= a.merged(b.merged(c)).terms);
}

/// Merging the same document twice in a row is merging it once.
pub proof fn lemma_merge_idempotent(a: LocaleModel, d: LocaleModel)
    ensures
        a.merged(d).merged(d) == a.merged(d),
{
    assert(a.merged(d).merged(d).terms =~= a.merged(d).terms);
}

/// Form fallback coverage. A selector resolves to a text exactly where the
/// table has a term for it in some form of the fallback chain of the form
/// asked for; and the text is that of the first such form in the chain.
pub proof fn lemma_form_fallback_coverage(locale: LocaleModel, sel: SelectorModel, plural: bool)
    ensures
        locale.text_term(sel, plural) is Some <==> exists|i: int|
            0 <= i < sel.form().chain().len() && locale.term_in_form(
                sel,
                #[trigger] sel.form().chain()[i],
            ) is Some,
        forall|i: int|
            0 <= i < sel.form().chain().len() && locale.term_in_form(
                sel,
                #[trigger] sel.form().chain()[i],
            ) is Some && (forall|j: int|
                0 <= j < i ==> locale.term_in_form(sel, #[trigger] sel.form().chain()[j]) is None)
                ==> locale.text_term(sel, plural) == Some(
                locale.term_in_form(sel, sel.form().chain()[i])->0.value.text(plural),
            ),
{
    lemma_resolve_along_chain(locale, sel, sel.form());
}

/// The same for resolving from any form on.
pub proof fn lemma_resolve_along_chain(locale: LocaleModel, sel: SelectorModel, form: TermForm)
    ensures
        locale.resolve(sel, form) is Some <==> exists|i: int|
            0 <= i < form.chain().len() && locale.term_in_form(sel, #[trigger] form.chain()[i])
                is Some,
        forall|i: int|
            0 <= i < form.chain().len() && locale.term_in_form(sel, #[trigger] form.chain()[i])
                is Some && (forall|j: int|
                0 <= j < i ==> locale.term_in_form(sel, #[trigger] form.chain()[j]) is None)
                ==> locale.resolve(sel, form) == locale.term_in_form(sel, form.chain()[i]),
    decreases form.rank(),
{
    let chain = form.chain();
    assert(chain[0] == form);
    match form.refined() {
        None => {
            assert(chain =~= seq![form]);
        },
        Some(f) => {
            lemma_resolve_along_chain(locale, sel, f);
            let rest = f.chain();
            assert(chain =~= seq![form] + rest);
            assert forall|i: int| 0 <= i < rest.len() implies #[trigger] rest[i] == chain[i + 1] by {}
            if locale.term_in_form(sel, form) is None {
                if locale.resolve(sel, form) is Some {
                    let i = choose|i: int|
                        0 <= i < rest.len() && locale.term_in_form(sel, #[trigger] rest[i]) is Some;
                    assert(locale.term_in_form(sel, chain[i + 1]) is Some);
                }
                if exists|i: int|
                    0 <= i < chain.len() && locale.term_in_form(sel, #[trigger] chain[i]) is Some {
                    let i = choose|i: int|
                        0 <= i < chain.len() && locale.term_in_form(sel, #[trigger] chain[i])
                            is Some;
                    assert(i > 0);
                    assert(locale.term_in_form(sel, rest[i - 1]) is Some);
                }
            }
            assert forall|i: int|
                0 <= i < chain.len() && locale.term_in_form(sel, #[trigger] chain[i]) is Some && (
                forall|j: int|
                    0 <= j < i ==> locale.term_in_form(sel, #[trigger] chain[j])
                        is None) implies locale.resolve(sel, form) == locale.term_in_form(
                sel,
                chain[i],
            ) by {
                if i > 0 {
                    assert(locale.term_in_form(sel, chain[0]) is None);
                    assert(rest[i - 1] == chain[i]);
                    assert forall|j: int| 0 <= j < i - 1 implies locale.term_in_form(
                        sel,
                        #[trigger] rest[j],
                    ) is None by {
                        assert(rest[j] == chain[j + 1]);
                    }
                }
            }
        },
    }
}

} // verus!
