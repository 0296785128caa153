//! Locale documents, their merging, and the lookup of terms.

use vstd::prelude::*;
use crate::assoc::{assoc_map, lemma_assoc_concat, lemma_assoc_hit, lemma_assoc_miss};
use crate::terms::{
    Gender, SelectorModel, Term, TermForm, TermKey, TermModel, TextTermSelector,
};

verus! {

/// The options of a locale; an option that a document does not set is left
/// to the documents that it falls back to.
#[derive(Clone, Copy, Debug, PartialEq, Eq)]
pub struct LocaleOptions {
    pub punctuation_in_quote: Option<bool>,
    pub limit_day_ordinals_to_day_1: Option<bool>,
}

impl LocaleOptions {
    /// These options overlaid with those of a more specific document: field
    /// by field, what the more specific one sets wins.
    pub open spec fn overlaid(self, with: LocaleOptions) -> LocaleOptions {
        LocaleOptions {
            punctuation_in_quote: if with.punctuation_in_quote is Some {
                with.punctuation_in_quote
            } else {
                self.punctuation_in_quote
            },
            limit_day_ordinals_to_day_1: if with.limit_day_ordinals_to_day_1 is Some {
                with.limit_day_ordinals_to_day_1
            } else {
                self.limit_day_ordinals_to_day_1
            },
        }
    }

    /// Options of which none is set.
    pub open spec fn unset() -> LocaleOptions {
        LocaleOptions { punctuation_in_quote: None, limit_day_ordinals_to_day_1: None }
    }
}

/// A locale: a document as it was parsed, or several of them merged into the
/// locale that is in effect for a language.
#[derive(Debug, PartialEq, Eq)]
pub struct Locale {
    pub options: LocaleOptions,
    pub terms: Vec<Term>,
}

/// What a locale stands for: its options and the table of its terms.
pub struct LocaleModel {
    pub options: LocaleOptions,
    pub terms: Map<TermKey, TermModel>,
}

/// The terms of a list, each with its key.
pub open spec fn term_entries(s: Seq<Term>) -> Seq<(TermKey, TermModel)> {
    Seq::new(s.len(), |i: int| (s[i]@.key(), s[i]@))
}

impl View for Locale {
    type V = LocaleModel;

    open spec fn view(&self) -> LocaleModel {
        LocaleModel { options: self.options, terms: assoc_map(term_entries(self.terms@)) }
    }
}

impl LocaleModel {
    /// The locale without options and terms.
    pub open spec fn empty() -> LocaleModel {
        LocaleModel { options: LocaleOptions::unset(), terms: Map::empty() }
    }

    /// This locale overlaid with a more specific one: a term of the more
    /// specific one shadows the term with the same name, form and gender, and
    /// an option that it sets wins.
    pub open spec fn merged(self, with: LocaleModel) -> LocaleModel {
        LocaleModel {
            options: self.options.overlaid(with.options),
            terms: self.terms.union_prefer_right(with.terms),
        }
    }

    /// The term that answers the selector in the one form `form`: for a
    /// selector with gender the term of that gender, else the neutral one.
    pub open spec fn term_in_form(self, sel: SelectorModel, form: TermForm) -> Option<TermModel> {
        let exact = TermKey { name: sel.name(), form, gender: sel.gender() };
        let neutral = TermKey { name: sel.name(), form, gender: Gender::Neuter };
        if self.terms.contains_key(exact) {
            Some(self.terms[exact])
        } else if self.terms.contains_key(neutral) {
            Some(self.terms[neutral])
        } else {
            None
        }
    }

    /// The term that answers the selector from the form `form` on: the first
    /// hit along the forms that `form` refines.
    pub open spec fn resolve(self, sel: SelectorModel, form: TermForm) -> Option<TermModel>
        decreases form.rank(),
    {
        match self.term_in_form(sel, form) {
            Some(t) => Some(t),
            None => match form.refined() {
                Some(f) => self.resolve(sel, f),
                None => None,
            },
        }
    }

    /// The text that answers the selector, in the singular or the plural.
    pub open spec fn text_term(self, sel: SelectorModel, plural: bool) -> Option<Seq<char>> {
        match self.resolve(sel, sel.form()) {
            Some(t) => Some(t.value.text(plural)),
            None => None,
        }
    }
}

impl Locale {
    /// A locale without options and terms.
    pub fn new() -> (r: Locale)
        ensures
            r@ == LocaleModel::empty(),
    {
        let r = Locale {
            options: LocaleOptions { punctuation_in_quote: None, limit_day_ordinals_to_day_1: None },
            terms: Vec::new(),
        };
        assert(term_entries(r.terms@) =~= Seq::empty());
        r
    }

    /// Adds a term; it shadows a term with the same name, form and gender.
    pub fn add_term(&mut self, term: Term)
        ensures
            final(self)@.options == old(self)@.options,
            final(self)@.terms == old(self)@.terms.insert(term@.key(), term@),
    {
        let ghost before = term_entries(self.terms@);
        self.terms.push(term);
        assert(term_entries(self.terms@).drop_last() =~= before);
    }

    /// A copy of this locale.
    pub fn duplicate(&self) -> (r: Locale)
        ensures
            r@ == self@,
    {
        let mut terms: Vec<Term> = Vec::new();
        let mut i: usize = 0;
        while i < self.terms.len()
            invariant
                i <= self.terms@.len(),
                terms@.len() == i,
                forall|k: int| 0 <= k < i ==> (#[trigger] terms@[k])@ == self.terms@[k]@,
            decreases self.terms@.len() - i,
        {
            terms.push(self.terms[i].duplicate());
            i += 1;
        }
        assert(term_entries(terms@) =~= term_entries(self.terms@));
        Locale { options: self.options, terms }
    }

    /// Overlays this locale with a more specific one.
    pub fn merge(&mut self, with: &Locale)
        ensures
            final(self)@ == old(self)@.merged(with@),
    {
        let ghost before = term_entries(self.terms@);
        if with.options.punctuation_in_quote.is_some() {
            self.options.punctuation_in_quote = with.options.punctuation_in_quote;
        }
        if with.options.limit_day_ordinals_to_day_1.is_some() {
            self.options.limit_day_ordinals_to_day_1 = with.options.limit_day_ordinals_to_day_1;
        }
        let ghost start = self.terms@;
        let mut i: usize = 0;
        while i < with.terms.len()
            invariant
                i <= with.terms@.len(),
                self.options == old(self).options.overlaid(with.options),
                self.terms@.len() == start.len() + i,
                forall|k: int| 0 <= k < start.len() ==> (#[trigger] self.terms@[k]) == start[k],
                forall|k: int| 0 <= k < i ==> (#[trigger] self.terms@[start.len() + k])@ == with.terms@[k]@,
            decreases with.terms@.len() - i,
        {
            self.terms.push(with.terms[i].duplicate());
            i += 1;
        }
        proof {
            assert(term_entries(self.terms@) =~= before + term_entries(with.terms@)) by {
                assert forall|k: int| 0 <= k < self.terms@.len() implies term_entries(
                    self.terms@,
                )[k] == (before + term_entries(with.terms@))[k] by {
                    if k >= start.len() {
                        assert(self.terms@[start.len() + (k - start.len())]@ == with.terms@[k - start.len()]@);
                    }
                }
            }
            lemma_assoc_concat(before, term_entries(with.terms@));
        }
    }

    /// The term with the given name, form and gender, if the locale has one.
    pub fn find(&self, name: &String, form: TermForm, gender: Gender) -> (r: Option<&Term>)
        ensures
            ({
                let key = TermKey { name: name@, form, gender };
                match r {
                    Some(t) => self@.terms.contains_key(key) && self@.terms[key] == t@,
                    None => !self@.terms.contains_key(key),
                }
            }),
    {
        let ghost key = TermKey { name: name@, form, gender };
        let ghost entries = term_entries(self.terms@);
        let mut i: usize = self.terms.len();
        while i > 0
            invariant
                i <= self.terms@.len(),
                entries == term_entries(self.terms@),
                key == (TermKey { name: name@, form, gender }),
                forall|j: int| i <= j < entries.len() ==> (#[trigger] entries[j]).0 != key,
            decreases i,
        {
            i -= 1;
            let term = &self.terms[i];
            if term.form == form && term.gender == gender && term.name == *name {
                proof {
                    assert(entries[i as int].0 == key);
                    lemma_assoc_hit(entries, i as int);
                }
                return Some(term);
            }
            assert(entries[i as int].0 != key);
        }
        proof {
            lemma_assoc_miss(entries, key);
        }
        None
    }

    /// The term that answers the selector in the one form `form`: for a
    /// selector with gender the term of that gender, else the neutral one.
    pub fn find_in_form(&self, sel: &TextTermSelector, form: TermForm) -> (r: Option<&Term>)
        ensures
            match r {
                Some(t) => self@.term_in_form(sel@, form) == Some(t@),
                None => self@.term_in_form(sel@, form) is None,
            },
    {
        let name = sel.name();
        match self.find(name, form, sel.gender()) {
            Some(t) => Some(t),
            None => self.find(name, form, Gender::Neuter),
        }
    }

    /// Resolves a selector to the text of a term. The forms are tried in
    /// order, from the one asked for down to `Long`; in each, a selector with
    /// gender takes the term of its gender before the neutral one. The first
    /// term found gives its plural where `plural` is set and it has one.
    pub fn get_text_term(&self, sel: &TextTermSelector, plural: bool) -> (r: Option<&str>)
        ensures
            match r {
                Some(s) => self@.text_term(sel@, plural) == Some(s@),
                None => self@.text_term(sel@, plural) is None,
            },
    {
        let mut form = sel.form();
        loop
            invariant
                self@.resolve(sel@, form) == self@.resolve(sel@, sel@.form()),
            decreases form.rank(),
        {
            match self.find_in_form(sel, form) {
                Some(term) => {
                    return Some(term.value.get(plural));
                },
                None => match form.fallback() {
                    Some(f) => {
                        form = f;
                    },
                    None => {
                        return None;
                    },
                },
            }
        }
    }
}

} // verus!
