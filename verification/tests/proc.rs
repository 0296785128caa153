use citeproc::formatting::Formatting;
use citeproc::inline::InlineElement;
use citeproc::ir::{DisambToken, GroupVars, IrSeq, IrState, IrSum, IR};
use citeproc::locale::Locale;
use citeproc::output::{Markup, OutputFormat};
use citeproc::proc::{condition_matches, from_number_variable, Proc, MACRO_DEPTH};
use citeproc::proc_spec::{Evaluated, ProcError, SubEvaluator};
use citeproc::reference::{Cite, CiteContext, NumberEntry, NumericValue, OrdinaryEntry, Reference};
use citeproc::style::{
    Affixes, BodyDate, Choose, Citation, Condition, DateVariable, Element, Group, IfThen,
    LabelElement, Layout, LocatorType, MacroDef, Match, NameVariable, Names, NumberElement,
    NumberVariable, NumericForm, Plural, StandardVariable, Style, TextCase, TextElement,
    TextSource, Variable, VariableForm,
};
use citeproc::terms::{Gender, Term, TermForm, TermValue, TextTermSelector};

struct Sub;

impl SubEvaluator<Markup> for Sub {
    fn names_evaluated(&self, _: Names, _: CiteContext<'_, Markup>) -> Evaluated {
        unreachable!()
    }

    fn date_evaluated(&self, _: BodyDate, _: CiteContext<'_, Markup>) -> Evaluated {
        unreachable!()
    }

    fn names(&self, _names: &Names, state: &mut IrState, _ctx: &CiteContext<Markup>) -> IrSum {
        state.insert(DisambToken { text: "Doe".to_string() });
        (IR::Names(InlineElement::Text("Doe".to_string())), GroupVars::DidRender)
    }

    fn date(&self, _date: &BodyDate, state: &mut IrState, _ctx: &CiteContext<Markup>) -> IrSum {
        state.insert(DisambToken { text: "2001".to_string() });
        (IR::Rendered(None), GroupVars::OnlyEmpty)
    }
}

fn affixes(prefix: &str, suffix: &str) -> Affixes {
    Affixes { prefix: prefix.to_string(), suffix: suffix.to_string() }
}

fn plain() -> Formatting {
    Formatting {
        font_style: None,
        font_variant: None,
        font_weight: None,
        text_decoration: None,
        vertical_alignment: None,
    }
}

fn out(prefix: &str, s: &str, suffix: &str) -> IR {
    IR::Rendered(Some(InlineElement::Formatted(
        vec![
            InlineElement::Text(prefix.to_string()),
            InlineElement::Text(s.to_string()),
            InlineElement::Text(suffix.to_string()),
        ],
        plain(),
    )))
}

fn text(source: TextSource) -> Element {
    text_with(source, affixes("", ""))
}

fn text_with(source: TextSource, affixes: Affixes) -> Element {
    Element::Text(TextElement {
        source,
        formatting: None,
        affixes,
        quotes: false,
        strip_periods: false,
        text_case: TextCase::Unchanged,
        display: None,
    })
}

fn value(s: &str) -> Element {
    text(TextSource::Value(s.to_string()))
}

fn variable(v: Variable) -> Element {
    text(TextSource::Variable(StandardVariable::Ordinary(v), VariableForm::Long))
}

fn number_text(v: NumberVariable) -> Element {
    text(TextSource::Variable(StandardVariable::Number(v), VariableForm::Long))
}

fn group(delimiter: &str, elements: Vec<Element>) -> Element {
    Element::Group(Group {
        delimiter: delimiter.to_string(),
        formatting: None,
        affixes: affixes("(", ")"),
        elements,
    })
}

fn seq(delimiter: &str, prefix: &str, suffix: &str, contents: Vec<IR>) -> IR {
    IR::Sequence(IrSeq {
        contents,
        formatting: None,
        affixes: affixes(prefix, suffix),
        delimiter: delimiter.to_string(),
    })
}

fn numeric(verbatim: &str, number: &str, multiple: bool) -> NumericValue {
    NumericValue { verbatim: verbatim.to_string(), number: number.to_string(), multiple }
}

fn reference() -> Reference {
    Reference {
        ordinary: vec![
            OrdinaryEntry { variable: Variable::Title, value: "A Title - here".to_string() },
            OrdinaryEntry { variable: Variable::Publisher, value: "Press".to_string() },
        ],
        number: vec![
            NumberEntry { variable: NumberVariable::Page, value: numeric("12-15", "12-15", true) },
            NumberEntry { variable: NumberVariable::Issue, value: numeric("no. 4-5", "4-5", false) },
            NumberEntry { variable: NumberVariable::Locator, value: numeric("r-1", "r-1", false) },
        ],
        date: vec![],
    }
}

fn cite() -> Cite {
    Cite { locator_type: Some(LocatorType::Chapter), locator: Some(numeric("3-4", "3-4", true)) }
}

fn locale() -> Locale {
    let mut l = Locale::new();
    let plural = |name: &str, form, single: &str, multiple: &str| {
        Term::new(
            name.to_string(),
            form,
            TermValue::Pluralized { single: single.to_string(), multiple: multiple.to_string() },
        )
    };
    l.add_term(plural("page", TermForm::Long, "page", "pages"));
    l.add_term(plural("page", TermForm::Short, "p.", "pp."));
    l.add_term(plural("chapter", TermForm::Long, "chapter", "chapters"));
    l.add_term(plural("issue", TermForm::Long, "issue", "issues"));
    l.add_term(Term::new("and".to_string(), TermForm::Long, TermValue::Invariant("and".to_string())));
    l
}

fn style(macros: Vec<MacroDef>, elements: Vec<Element>) -> Style {
    Style {
        macros,
        citation: Citation {
            layout: Layout {
                delimiter: "; ".to_string(),
                formatting: None,
                affixes: affixes("[", "]"),
                elements,
            },
        },
    }
}

fn run_in(style: &Style, el: &Element) -> (Result<IrSum, ProcError>, IrState) {
    let reference = reference();
    let cite = cite();
    let locale = locale();
    let format = Markup;
    let ctx = CiteContext { reference: &reference, cite: &cite, format: &format, locale: &locale, style };
    let mut state = IrState::new();
    let r = el.intermediate(&Sub, &mut state, &ctx);
    (r, state)
}

fn run(el: &Element) -> IrSum {
    let style = style(vec![], vec![]);
    run_in(&style, el).0.unwrap()
}

#[test]
fn text_value_is_rendered_with_affixes() {
    let el = text_with(TextSource::Value("lit".to_string()), affixes("<", ">"));
    assert_eq!(run(&el), (out("<", "lit", ">"), GroupVars::NoneSeen));
}

#[test]
fn text_variable_present_and_absent() {
    assert_eq!(run(&variable(Variable::Title)), (out("", "A Title - here", ""), GroupVars::DidRender));
    assert_eq!(run(&variable(Variable::DOI)), (IR::Rendered(None), GroupVars::OnlyEmpty));
}

#[test]
fn number_variable_as_text_is_verbatim_with_en_dashes_for_the_locator() {
    assert_eq!(
        run(&number_text(NumberVariable::Page)),
        (out("", "12-15", ""), GroupVars::DidRender)
    );
    assert_eq!(
        run(&number_text(NumberVariable::Issue)),
        (out("", "no. 4-5", ""), GroupVars::DidRender)
    );
    assert_eq!(run(&number_text(NumberVariable::Volume)), (IR::Rendered(None), GroupVars::OnlyEmpty));
    // as a text, the locator is looked for in the reference
    assert_eq!(
        run(&number_text(NumberVariable::Locator)),
        (out("", "r\u{2013}1", ""), GroupVars::DidRender)
    );
}

#[test]
fn text_term_is_resolved_in_the_locale() {
    let sel = |name: &str, form| TextTermSelector::Simple(name.to_string(), form);
    assert_eq!(
        run(&text(TextSource::Term(sel("and", TermForm::Symbol), false))),
        (out("", "and", ""), GroupVars::NoneSeen)
    );
    assert_eq!(
        run(&text(TextSource::Term(sel("page", TermForm::Short), true))),
        (out("", "pp.", ""), GroupVars::NoneSeen)
    );
    assert_eq!(
        run(&text(TextSource::Term(sel("et-al", TermForm::Long), false))),
        (IR::Rendered(None), GroupVars::NoneSeen)
    );
}

fn label(variable: NumberVariable, form: TermForm, plural: Plural) -> Element {
    Element::Label(LabelElement {
        variable,
        form,
        formatting: None,
        affixes: affixes("", " "),
        text_case: TextCase::Unchanged,
        strip_periods: false,
        plural,
    })
}

#[test]
fn label_takes_its_plural_from_policy_and_value() {
    let page = |plural| run(&label(NumberVariable::Page, TermForm::Long, plural));
    assert_eq!(page(Plural::Contextual), (out("", "pages", " "), GroupVars::NoneSeen));
    assert_eq!(page(Plural::Always), (out("", "pages", " "), GroupVars::NoneSeen));
    assert_eq!(page(Plural::Never), (out("", "page", " "), GroupVars::NoneSeen));
    let issue = |plural| run(&label(NumberVariable::Issue, TermForm::Short, plural));
    assert_eq!(issue(Plural::Contextual), (out("", "issue", " "), GroupVars::NoneSeen));
    assert_eq!(issue(Plural::Always), (out("", "issues", " "), GroupVars::NoneSeen));
    // the variable is absent
    assert_eq!(
        run(&label(NumberVariable::Volume, TermForm::Long, Plural::Always)),
        (IR::Rendered(None), GroupVars::NoneSeen)
    );
    // the locator is the cite's and is labelled by its type
    assert_eq!(
        run(&label(NumberVariable::Locator, TermForm::Long, Plural::Contextual)),
        (out("", "chapters", " "), GroupVars::NoneSeen)
    );
    // the variable is there but the locale has no term
    assert_eq!(
        run(&label(NumberVariable::Locator, TermForm::Long, Plural::Never)),
        (out("", "chapter", " "), GroupVars::NoneSeen)
    );
}

#[test]
fn label_selector_of_a_variable() {
    assert_eq!(
        from_number_variable(None, NumberVariable::Issue, TermForm::Short),
        Some(TextTermSelector::Gendered("issue".to_string(), TermForm::Short, Gender::Neuter))
    );
    assert_eq!(
        from_number_variable(Some(LocatorType::Verse), NumberVariable::Locator, TermForm::Long),
        Some(TextTermSelector::Gendered("verse".to_string(), TermForm::Long, Gender::Neuter))
    );
    assert_eq!(from_number_variable(None, NumberVariable::Locator, TermForm::Long), None);
}

fn number(variable: NumberVariable) -> Element {
    Element::Number(NumberElement {
        variable,
        form: NumericForm::Numeric,
        formatting: None,
        affixes: affixes("", ""),
        text_case: TextCase::Unchanged,
        display: None,
    })
}

#[test]
fn number_is_stringified() {
    assert_eq!(run(&number(NumberVariable::Issue)), (out("", "4-5", ""), GroupVars::DidRender));
    assert_eq!(run(&number(NumberVariable::Page)), (out("", "12-15", ""), GroupVars::DidRender));
    assert_eq!(run(&number(NumberVariable::Locator)), (out("", "3\u{2013}4", ""), GroupVars::DidRender));
    assert_eq!(run(&number(NumberVariable::Edition)), (IR::Rendered(None), GroupVars::OnlyEmpty));
}

#[test]
fn group_of_empty_variables_is_suppressed() {
    let g = group(", ", vec![value("lit"), variable(Variable::DOI), variable(Variable::URL)]);
    assert_eq!(run(&g), (IR::Rendered(None), GroupVars::NoneSeen));
}

#[test]
fn group_with_a_rendered_variable_renders_its_literals() {
    let g = group(
        ", ",
        vec![value("lit"), variable(Variable::DOI), variable(Variable::Publisher)],
    );
    assert_eq!(
        run(&g),
        (
            seq(", ", "(", ")", vec![out("", "lit", ""), out("", "Press", "")]),
            GroupVars::DidRender
        )
    );
}

#[test]
fn group_of_literals_renders() {
    let g = group(" ", vec![value("a"), value("b")]);
    assert_eq!(
        run(&g),
        (seq(" ", "(", ")", vec![out("", "a", ""), out("", "b", "")]), GroupVars::NoneSeen)
    );
    let empty = group(" ", vec![]);
    assert_eq!(run(&empty), (seq(" ", "(", ")", vec![]), GroupVars::NoneSeen));
}

#[test]
fn suppressed_inner_group_does_not_suppress_the_outer() {
    let inner = group(", ", vec![variable(Variable::DOI)]);
    let outer = group(" ", vec![value("lit"), inner]);
    assert_eq!(run(&outer), (seq(" ", "(", ")", vec![out("", "lit", "")]), GroupVars::NoneSeen));
}

#[test]
fn group_vars_join() {
    let (did, important, none, only) = (
        GroupVars::DidRender,
        GroupVars::Important,
        GroupVars::NoneSeen,
        GroupVars::OnlyEmpty,
    );
    assert_eq!(GroupVars::new(), none);
    assert_eq!(GroupVars::rendered_if(true), did);
    assert_eq!(GroupVars::rendered_if(false), only);
    assert_eq!(none.neighbour(none), none);
    assert_eq!(none.neighbour(only), only);
    assert_eq!(only.neighbour(none), only);
    assert_eq!(only.neighbour(did), did);
    assert_eq!(did.neighbour(only), did);
    assert_eq!(did.neighbour(none), did);
    assert_eq!(only.neighbour(important), important);
    assert_eq!(important.neighbour(did), important);
    assert_eq!(none.neighbour(important), important);
    assert!(none.should_render_tree());
    assert!(did.should_render_tree());
    assert!(important.should_render_tree());
    assert!(!only.should_render_tree());
}

#[test]
fn macro_is_evaluated_inside_the_text_element() {
    let st = style(
        vec![MacroDef {
            name: "m".to_string(),
            elements: vec![value("x"), variable(Variable::Publisher)],
        }],
        vec![],
    );
    let el = text_with(TextSource::Macro("m".to_string()), affixes("{", "}"));
    let (r, _) = run_in(&st, &el);
    assert_eq!(
        r,
        Ok((seq("", "{", "}", vec![out("", "x", ""), out("", "Press", "")]), GroupVars::DidRender))
    );
}

#[test]
fn unknown_macro_is_reported() {
    let st = style(vec![], vec![]);
    let el = text(TextSource::Macro("nope".to_string()));
    assert_eq!(run_in(&st, &el).0, Err(ProcError::UnknownMacro("nope".to_string())));
    let g = group(" ", vec![value("a"), text(TextSource::Macro("nope".to_string()))]);
    assert_eq!(run_in(&st, &g).0, Err(ProcError::UnknownMacro("nope".to_string())));
}

#[test]
fn macros_that_call_themselves_are_reported() {
    let st = style(
        vec![MacroDef {
            name: "loop".to_string(),
            elements: vec![text(TextSource::Macro("loop".to_string()))],
        }],
        vec![],
    );
    let el = text(TextSource::Macro("loop".to_string()));
    assert_eq!(run_in(&st, &el).0, Err(ProcError::MacroNesting));
    assert_eq!(MACRO_DEPTH, 64);
}

fn branch(match_type: Match, variables: Vec<StandardVariable>, s: &str) -> IfThen {
    IfThen { condition: Condition { match_type, variables }, elements: vec![value(s)] }
}

#[test]
fn choose_renders_the_first_branch_that_matches() {
    let doi = StandardVariable::Ordinary(Variable::DOI);
    let title = StandardVariable::Ordinary(Variable::Title);
    let page = StandardVariable::Number(NumberVariable::Page);
    let choose = |branches, otherwise| Element::Choose(Choose { branches, otherwise });
    let first = |s: &str| (seq("", "", "", vec![out("", s, "")]), GroupVars::NoneSeen);
    assert_eq!(
        run(&choose(
            vec![
                branch(Match::Any, vec![doi], "doi"),
                branch(Match::Any, vec![doi, title], "any"),
                branch(Match::All, vec![title, page], "all"),
            ],
            vec![value("else")]
        )),
        first("any")
    );
    assert_eq!(
        run(&choose(
            vec![
                branch(Match::All, vec![doi, title], "all"),
                branch(Match::Neither, vec![title], "neither"),
            ],
            vec![value("else")]
        )),
        first("else")
    );
    assert_eq!(
        run(&choose(vec![branch(Match::Neither, vec![doi], "neither")], vec![value("else")])),
        first("neither")
    );
    assert_eq!(
        run(&choose(vec![branch(Match::Any, vec![], "any")], vec![])),
        (seq("", "", "", vec![]), GroupVars::NoneSeen)
    );
    assert_eq!(run(&choose(vec![branch(Match::All, vec![], "all")], vec![])), first("all"));
}

#[test]
fn conditions() {
    let reference = reference();
    let cite = Cite { locator_type: None, locator: None };
    let locale = locale();
    let st = style(vec![], vec![]);
    let format = Markup;
    let ctx = CiteContext { reference: &reference, cite: &cite, format: &format, locale: &locale, style: &st };
    let cond = |match_type, variables| Condition { match_type, variables };
    let locator = StandardVariable::Number(NumberVariable::Locator);
    let page = StandardVariable::Number(NumberVariable::Page);
    assert!(!condition_matches(&ctx, &cond(Match::Any, vec![locator])));
    assert!(condition_matches(&ctx, &cond(Match::Any, vec![locator, page])));
    assert!(!condition_matches(&ctx, &cond(Match::All, vec![locator, page])));
    assert!(condition_matches(&ctx, &cond(Match::Neither, vec![locator])));
    assert!(!condition_matches(&ctx, &cond(Match::Neither, vec![page])));
}

#[test]
fn names_and_dates_are_handed_to_their_evaluators() {
    let names = Element::Names(Names {
        variables: vec![NameVariable::Author],
        formatting: None,
        affixes: affixes("", ""),
        delimiter: ", ".to_string(),
    });
    let date = Element::Date(BodyDate {
        variable: DateVariable::Issued,
        formatting: None,
        affixes: affixes("", ""),
    });
    let st = style(vec![], vec![]);
    let (r, state) = run_in(&st, &names);
    assert_eq!(r, Ok((IR::Names(InlineElement::Text("Doe".to_string())), GroupVars::DidRender)));
    assert!(state.contains(&DisambToken { text: "Doe".to_string() }));
    assert!(!state.contains(&DisambToken { text: "2001".to_string() }));
    let g = group(" ", vec![date, value("lit")]);
    let (r, state) = run_in(&st, &g);
    assert_eq!(r, Ok((IR::Rendered(None), GroupVars::NoneSeen)));
    assert!(state.contains(&DisambToken { text: "2001".to_string() }));
}

#[test]
fn style_evaluates_its_layout_without_the_layout_affixes() {
    let st = style(vec![], vec![value("a"), variable(Variable::DOI), variable(Variable::Title)]);
    let reference = reference();
    let cite = cite();
    let locale = locale();
    let format = Markup;
    let ctx = CiteContext { reference: &reference, cite: &cite, format: &format, locale: &locale, style: &st };
    let mut state = IrState::new();
    let r = st.intermediate(&Sub, &mut state, &ctx);
    assert_eq!(
        r,
        Ok((
            seq("", "", "", vec![out("", "a", ""), out("", "A Title - here", "")]),
            GroupVars::DidRender
        ))
    );
    assert!(state.tokens.is_empty());
}

#[test]
fn state_accumulates_tokens() {
    let mut state = IrState::new();
    assert!(state.tokens.is_empty());
    let t = |s: &str| DisambToken { text: s.to_string() };
    assert!(!state.contains(&t("a")));
    state.insert(t("a"));
    state.insert(t("b"));
    state.insert(t("a"));
    assert!(state.contains(&t("a")));
    assert!(state.contains(&t("b")));
    assert!(!state.contains(&t("c")));
    assert_eq!(state.tokens.len(), 2);
}

#[test]
fn markup_keeps_formatting() {
    let italic = Formatting {
        font_style: Some(citeproc::formatting::FontStyle::Italic),
        font_variant: None,
        font_weight: None,
        text_decoration: None,
        vertical_alignment: None,
    };
    assert_eq!(
        Markup.affixed_text("x".to_string(), Some(italic), &affixes("a", "b")),
        InlineElement::Formatted(
            vec![
                InlineElement::Text("a".to_string()),
                InlineElement::Text("x".to_string()),
                InlineElement::Text("b".to_string()),
            ],
            italic
        )
    );
}
