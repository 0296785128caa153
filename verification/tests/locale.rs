use citeproc::lang::{IsoCountry, IsoLang, Lang};
use citeproc::locale::{Locale, LocaleOptions};
use citeproc::locale_store::LocaleStore;
use citeproc::terms::{Gender, Term, TermForm, TermValue, TextTermSelector};

fn en_au() -> Lang {
    Lang::Iso(IsoLang::English, Some(IsoCountry::AU))
}

fn term(name: &str, form: TermForm, text: &str) -> Term {
    Term::new(name.to_string(), form, TermValue::Invariant(text.to_string()))
}

fn document(terms: Vec<Term>) -> Locale {
    let mut locale = Locale::new();
    for t in terms {
        locale.add_term(t);
    }
    locale
}

fn term_and(form: TermForm) -> TextTermSelector {
    TextTermSelector::Simple("and".to_string(), form)
}

fn test_simple_term(term: TextTermSelector, langs: Vec<(Lang, Vec<Term>)>, expect: Option<&str>) {
    let mut db = LocaleStore::new();
    for (lang, terms) in langs {
        db.insert(lang, document(terms));
    }
    // use en-AU so it has to do fallback to en-US
    let locale = db.merged_locale(en_au());
    assert_eq!(locale.get_text_term(&term, false), expect)
}

#[test]
fn term_override() {
    test_simple_term(
        term_and(TermForm::Long),
        vec![
            (Lang::en_us(), vec![term("and", TermForm::Long, "USA")]),
            (en_au(), vec![term("and", TermForm::Long, "Australia")]),
        ],
        Some("Australia"),
    )
}

#[test]
fn term_form_refine() {
    test_simple_term(
        term_and(TermForm::Long),
        vec![
            (Lang::en_us(), vec![term("and", TermForm::Long, "USA")]),
            (en_au(), vec![term("and", TermForm::Short, "Australia")]),
        ],
        Some("USA"),
    );
    test_simple_term(
        term_and(TermForm::Short),
        vec![
            (Lang::en_us(), vec![term("and", TermForm::Long, "USA")]),
            (en_au(), vec![term("and", TermForm::Short, "Australia")]),
        ],
        Some("Australia"),
    );
}

#[test]
fn term_form_fallback() {
    test_simple_term(
        term_and(TermForm::Short),
        vec![
            (Lang::en_us(), vec![term("and", TermForm::Long, "USA")]),
            (en_au(), vec![term("and", TermForm::Long, "Australia")]),
        ],
        Some("Australia"),
    );
    test_simple_term(
        // short falls back to long and skips the "symbol" in a later locale
        term_and(TermForm::Short),
        vec![
            (Lang::en_us(), vec![term("and", TermForm::Long, "USA")]),
            (en_au(), vec![term("and", TermForm::Symbol, "Australia")]),
        ],
        Some("USA"),
    );
    test_simple_term(
        term_and(TermForm::VerbShort),
        vec![
            (Lang::en_us(), vec![term("and", TermForm::Long, "USA")]),
            (en_au(), vec![term("and", TermForm::Symbol, "Australia")]),
        ],
        Some("USA"),
    );
}

#[test]
fn term_locale_fallback() {
    test_simple_term(
        term_and(TermForm::Long),
        vec![(Lang::en_us(), vec![term("and", TermForm::Long, "USA")]), (en_au(), vec![])],
        Some("USA"),
    )
}

#[test]
fn unresolved_term_is_empty() {
    test_simple_term(
        term_and(TermForm::Long),
        vec![(Lang::en_us(), vec![term("et-al", TermForm::Long, "et al.")])],
        None,
    );
    test_simple_term(term_and(TermForm::Symbol), vec![], None);
    test_simple_term(
        term_and(TermForm::Long),
        vec![(en_au(), vec![term("and", TermForm::Short, "&")])],
        None,
    );
}

#[test]
fn form_chains() {
    assert_eq!(TermForm::Long.fallback(), None);
    assert_eq!(TermForm::Short.fallback(), Some(TermForm::Long));
    assert_eq!(TermForm::Symbol.fallback(), Some(TermForm::Short));
    assert_eq!(TermForm::Verb.fallback(), Some(TermForm::Long));
    assert_eq!(TermForm::VerbShort.fallback(), Some(TermForm::Verb));
    test_simple_term(
        term_and(TermForm::Symbol),
        vec![(
            Lang::en_us(),
            vec![term("and", TermForm::Long, "and"), term("and", TermForm::Short, "&")],
        )],
        Some("&"),
    );
    test_simple_term(
        term_and(TermForm::VerbShort),
        vec![(
            Lang::en_us(),
            vec![term("and", TermForm::Long, "and"), term("and", TermForm::Verb, "ands")],
        )],
        Some("ands"),
    );
    test_simple_term(
        term_and(TermForm::Verb),
        vec![(
            Lang::en_us(),
            vec![term("and", TermForm::Short, "&"), term("and", TermForm::Symbol, "+")],
        )],
        None,
    );
}

#[test]
fn language_chains() {
    assert_eq!(Lang::Root.fallback(), None);
    assert_eq!(Lang::en_us().fallback(), Some(Lang::Root));
    assert_eq!(en_au().fallback(), Some(Lang::en_us()));
    assert_eq!(Lang::Root.fallback_chain(), vec![Lang::Root]);
    assert_eq!(Lang::en_us().fallback_chain(), vec![Lang::Root, Lang::en_us()]);
    assert_eq!(en_au().fallback_chain(), vec![Lang::Root, Lang::en_us(), en_au()]);
    let de = Lang::Iso(IsoLang::Deutsch, Some(IsoCountry::DE));
    let at = Lang::Iso(IsoLang::Deutsch, Some(IsoCountry::AT));
    assert_eq!(at.fallback_chain(), vec![Lang::Root, Lang::en_us(), de, at]);
    assert_eq!(de.fallback_chain(), vec![Lang::Root, Lang::en_us(), de]);
    assert_eq!(
        Lang::Iso(IsoLang::French, None).fallback_chain(),
        vec![Lang::Root, Lang::en_us(), Lang::Iso(IsoLang::French, None)]
    );
    let cn = Lang::Iso(IsoLang::Chinese, Some(IsoCountry::CN));
    let tw = Lang::Iso(IsoLang::Chinese, Some(IsoCountry::TW));
    assert_eq!(tw.fallback_chain(), vec![Lang::Root, Lang::en_us(), cn, tw]);
    let mx = Lang::Iso(IsoLang::Spanish, Some(IsoCountry::CA));
    assert_eq!(mx.fallback_chain(), vec![Lang::Root, Lang::en_us(), mx]);
    let br = Lang::Iso(IsoLang::Portuguese, Some(IsoCountry::BR));
    let pt = Lang::Iso(IsoLang::Portuguese, Some(IsoCountry::PT));
    assert_eq!(br.fallback(), Some(pt));
    assert_eq!(pt.fallback(), Some(Lang::en_us()));
    let ca = Lang::Iso(IsoLang::French, Some(IsoCountry::CA));
    assert_eq!(ca.fallback(), Some(Lang::Iso(IsoLang::French, Some(IsoCountry::FR))));
    assert_eq!(Lang::Iso(IsoLang::English, Some(IsoCountry::GB)).fallback(), Some(Lang::en_us()));
    assert_eq!(
        Lang::Iso(IsoLang::English, None).fallback_chain(),
        vec![Lang::Root, Lang::en_us(), Lang::Iso(IsoLang::English, None)]
    );
}

#[test]
fn plural_selection() {
    let mut locale = Locale::new();
    locale.add_term(Term::new(
        "page".to_string(),
        TermForm::Long,
        TermValue::Pluralized { single: "page".to_string(), multiple: "pages".to_string() },
    ));
    locale.add_term(term("and", TermForm::Long, "and"));
    let page = TextTermSelector::Simple("page".to_string(), TermForm::Long);
    assert_eq!(locale.get_text_term(&page, false), Some("page"));
    assert_eq!(locale.get_text_term(&page, true), Some("pages"));
    assert_eq!(locale.get_text_term(&term_and(TermForm::Long), true), Some("and"));
    assert_eq!(locale.get_text_term(&term_and(TermForm::Long), false), Some("and"));
}

#[test]
fn gendered_selection() {
    let mut locale = Locale::new();
    locale.add_term(term("edition", TermForm::Long, "edition"));
    locale.add_term(Term {
        name: "edition".to_string(),
        form: TermForm::Long,
        gender: Gender::Feminine,
        gender_form: None,
        value: TermValue::Invariant("édition".to_string()),
    });
    locale.add_term(Term {
        name: "edition".to_string(),
        form: TermForm::Short,
        gender: Gender::Masculine,
        gender_form: None,
        value: TermValue::Invariant("éd.".to_string()),
    });
    let sel = |form, gender| TextTermSelector::Gendered("edition".to_string(), form, gender);
    assert_eq!(locale.get_text_term(&sel(TermForm::Long, Gender::Feminine), false), Some("édition"));
    assert_eq!(locale.get_text_term(&sel(TermForm::Long, Gender::Masculine), false), Some("edition"));
    assert_eq!(locale.get_text_term(&sel(TermForm::Short, Gender::Masculine), false), Some("éd."));
    // the short form has no feminine and no neutral term: the long form is next
    assert_eq!(locale.get_text_term(&sel(TermForm::Short, Gender::Feminine), false), Some("édition"));
    let role = TextTermSelector::Role("edition".to_string(), TermForm::Short);
    assert_eq!(locale.get_text_term(&role, false), Some("edition"));
}

#[test]
fn merge_shadows_by_key_and_keeps_the_rest() {
    let mut a = document(vec![
        term("and", TermForm::Long, "A-and"),
        term("et-al", TermForm::Long, "A-et-al"),
        term("page", TermForm::Long, "A-page"),
    ]);
    let b = document(vec![
        term("and", TermForm::Long, "B-and"),
        term("et-al", TermForm::Long, "B-et-al"),
        term("issue", TermForm::Long, "B-issue"),
    ]);
    let c = document(vec![term("and", TermForm::Long, "C-and"), term("note", TermForm::Long, "C-note")]);
    a.merge(&b);
    a.merge(&c);
    let get = |l: &Locale, n: &str| {
        l.get_text_term(&TextTermSelector::Simple(n.to_string(), TermForm::Long), false)
            .map(|s| s.to_string())
    };
    assert_eq!(get(&a, "and"), Some("C-and".to_string()));
    assert_eq!(get(&a, "note"), Some("C-note".to_string()));
    assert_eq!(get(&a, "et-al"), Some("B-et-al".to_string()));
    assert_eq!(get(&a, "issue"), Some("B-issue".to_string()));
    assert_eq!(get(&a, "page"), Some("A-page".to_string()));
    assert_eq!(get(&a, "volume"), None);
}

#[test]
fn options_merge_field_by_field() {
    let mut a = Locale::new();
    a.options = LocaleOptions { punctuation_in_quote: Some(true), limit_day_ordinals_to_day_1: Some(false) };
    let mut b = Locale::new();
    b.options = LocaleOptions { punctuation_in_quote: None, limit_day_ordinals_to_day_1: Some(true) };
    a.merge(&b);
    assert_eq!(
        a.options,
        LocaleOptions { punctuation_in_quote: Some(true), limit_day_ordinals_to_day_1: Some(true) }
    );
    let mut c = Locale::new();
    c.options.punctuation_in_quote = Some(false);
    a.merge(&c);
    assert_eq!(
        a.options,
        LocaleOptions { punctuation_in_quote: Some(false), limit_day_ordinals_to_day_1: Some(true) }
    );
}

#[test]
fn merged_locale_is_kept_and_renewed() {
    let mut db = LocaleStore::new();
    db.insert(Lang::en_us(), document(vec![term("and", TermForm::Long, "USA")]));
    let first = db.merged_locale(en_au());
    let second = db.merged_locale(en_au());
    assert_eq!(first.get_text_term(&term_and(TermForm::Long), false), Some("USA"));
    assert_eq!(second.get_text_term(&term_and(TermForm::Long), false), Some("USA"));
    db.insert(en_au(), document(vec![term("and", TermForm::Long, "Australia")]));
    let third = db.merged_locale(en_au());
    assert_eq!(third.get_text_term(&term_and(TermForm::Long), false), Some("Australia"));
    let us = db.merged_locale(Lang::en_us());
    assert_eq!(us.get_text_term(&term_and(TermForm::Long), false), Some("USA"));
    db.insert(en_au(), document(vec![]));
    let fourth = db.merged_locale(en_au());
    assert_eq!(fourth.get_text_term(&term_and(TermForm::Long), false), Some("USA"));
    assert!(db.locale(Lang::Root).is_none());
    assert!(db.locale(en_au()).is_some());
}
