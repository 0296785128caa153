//! The store of locale documents, and the locale in effect for a language.

use vstd::prelude::*;
use crate::assoc::{assoc_map, lemma_assoc_hit, lemma_assoc_miss};
use crate::lang::Lang;
use crate::locale::{Locale, LocaleModel};

verus! {

/// The locale that a chain of tags gives: the documents of the tags, where
/// there are any, overlaid one on the other from the first tag to the last,
/// so that the last one wins.
pub open spec fn merged_along(docs: Map<Lang, LocaleModel>, chain: Seq<Lang>) -> LocaleModel
    decreases chain.len(),
{
    if chain.len() == 0 {
        LocaleModel::empty()
    } else {
        let base = merged_along(docs, chain.drop_last());
        if docs.contains_key(chain.last()) {
            base.merged(docs[chain.last()])
        } else {
            base
        }
    }
}

/// The locale in effect for `tag`: the documents along its fallback chain,
/// from the root to the tag itself, the more specific over the less.
pub open spec fn effective_locale(docs: Map<Lang, LocaleModel>, tag: Lang) -> LocaleModel {
    merged_along(docs, tag.chain())
}

/// A locale under its tag.
pub struct Stored {
    pub lang: Lang,
    pub locale: Locale,
}

/// The stored locales, each with its tag.
pub open spec fn stored_entries(s: Seq<Stored>) -> Seq<(Lang, LocaleModel)> {
    Seq::new(s.len(), |i: int| (s[i].lang, s[i].locale@))
}

/// The locale documents by language tag, with the merged locales that were
/// asked for so far.
pub struct LocaleStore {
    documents: Vec<Stored>,
    merged: Vec<Stored>,
}

impl LocaleStore {
    /// The documents of the store by tag.
    pub closed spec fn documents(&self) -> Map<Lang, LocaleModel> {
        assoc_map(stored_entries(self.documents@))
    }

    /// Every merged locale that the store keeps is the locale in effect for
    /// its tag.
    #[verifier::type_invariant]
    spec fn merged_are_current(&self) -> bool {
        forall|i: int|
            0 <= i < self.merged@.len() ==> (#[trigger] self.merged@[i]).locale@
                == effective_locale(self.documents(), self.merged@[i].lang)
    }

    /// A store without documents.
    pub fn new() -> (r: LocaleStore)
        ensures
            r.documents() == Map::<Lang, LocaleModel>::empty(),
    {
        let r = LocaleStore { documents: Vec::new(), merged: Vec::new() };
        assert(stored_entries(r.documents@) =~= Seq::empty());
        r
    }

    /// Puts a document under its tag, in place of the one that was there.
    pub fn insert(&mut self, lang: Lang, locale: Locale)
        ensures
            final(self).documents() == old(self).documents().insert(lang, locale@),
    {
        let ghost before = stored_entries(self.documents@);
        let mut stale: Vec<Stored> = Vec::new();
        let mut documents: Vec<Stored> = Vec::new();
        std::mem::swap(&mut stale, &mut self.merged);
        std::mem::swap(&mut documents, &mut self.documents);
        documents.push(Stored { lang, locale });
        assert(stored_entries(documents@).drop_last() =~= before);
        *self = LocaleStore { documents, merged: Vec::new() };
    }

    /// The document under `lang`, if there is one.
    pub fn locale(&self, lang: Lang) -> (r: Option<&Locale>)
        ensures
            match r {
                Some(l) => self.documents().contains_key(lang) && self.documents()[lang] == l@,
                None => !self.documents().contains_key(lang),
            },
    {
        let ghost entries = stored_entries(self.documents@);
        let mut i: usize = self.documents.len();
        while i > 0
            invariant
                i <= self.documents@.len(),
                entries == stored_entries(self.documents@),
                forall|j: int| i <= j < entries.len() ==> (#[trigger] entries[j]).0 != lang,
            decreases i,
        {
            i -= 1;
            if self.documents[i].lang == lang {
                proof {
                    assert(entries[i as int].0 == lang);
                    lemma_assoc_hit(entries, i as int);
                }
                return Some(&self.documents[i].locale);
            }
            assert(entries[i as int].0 != lang);
        }
        proof {
            lemma_assoc_miss(entries, lang);
        }
        None
    }

    /// The merged locale for a language tag: the documents along the fallback
    /// chain of the tag, from the root to the tag itself, overlaid so that the
    /// most specific wins term by term and option by option. A tag without
    /// document only shortens the chain. The result is kept, and the next
    /// call for the tag returns what was kept.
    pub fn merged_locale(&mut self, tag: Lang) -> (r: Locale)
        ensures
            r@ == effective_locale(old(self).documents(), tag),
            final(self).documents() == old(self).documents(),
    {
        proof {
            use_type_invariant(&*self);
        }
        let mut i: usize = 0;
        while i < self.merged.len()
            invariant
                i <= self.merged@.len(),
                *self == *old(self),
            decreases self.merged@.len() - i,
        {
            if self.merged[i].lang == tag {
                proof {
                    use_type_invariant(&*self);
                    assert(self.merged@[i as int].locale@ == effective_locale(
                        self.documents(),
                        tag,
                    ));
                }
                return self.merged[i].locale.duplicate();
            }
            i += 1;
        }
        let chain = tag.fallback_chain();
        let mut merged = Locale::new();
        let mut k: usize = 0;
        while k < chain.len()
            invariant
                k <= chain@.len(),
                *self == *old(self),
                merged@ == merged_along(self.documents(), chain@.subrange(0, k as int)),
            decreases chain@.len() - k,
        {
            match self.locale(chain[k]) {
                Some(document) => {
                    merged.merge(document);
                },
                None => {},
            }
            k += 1;
            assert(chain@.subrange(0, k as int).drop_last() =~= chain@.subrange(0, k - 1));
        }
        assert(chain@.subrange(0, k as int) =~= chain@);
        let kept = merged.duplicate();
        let ghost before = *self;
        let mut results: Vec<Stored> = Vec::new();
        let mut documents: Vec<Stored> = Vec::new();
        std::mem::swap(&mut results, &mut self.merged);
        std::mem::swap(&mut documents, &mut self.documents);
        results.push(Stored { lang: tag, locale: kept });
        assert(documents@ == before.documents@);
        assert forall|i: int| 0 <= i < results@.len() implies (#[trigger] results@[i]).locale@
            == effective_locale(before.documents(), results@[i].lang) by {
            if i < before.merged@.len() {
                assert(results@[i] == before.merged@[i]);
            }
        }
        *self = LocaleStore { documents, merged: results };
        merged
    }
}

} // verus!
