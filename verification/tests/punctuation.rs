use citeproc::formatting::{DisplayMode, Formatting, LocalizedQuotes};
use citeproc::inline::{InlineElement, MicroNode};
use citeproc::punctuation::{
    ends_with_punctuation, ends_with_punctuation_micro, find_right_quote, find_right_quote_micro,
    find_string_micro, is_punc, leading_punctuation, move_punctuation, remove_leading_char,
};
use citeproc::punctuation_spec::RightQuoteInsertionPoint;

fn quotes(punctuation_in_quote: bool) -> LocalizedQuotes {
    LocalizedQuotes {
        outer_open: "\u{201c}".to_string(),
        outer_close: "\u{201d}".to_string(),
        inner_open: "\u{2018}".to_string(),
        inner_close: "\u{2019}".to_string(),
        punctuation_in_quote,
    }
}

fn text(s: &str) -> InlineElement {
    InlineElement::Text(s.to_string())
}

fn quoted(piq: bool, inlines: Vec<InlineElement>) -> InlineElement {
    InlineElement::Quoted { localized: quotes(piq), inlines }
}

fn mtext(s: &str) -> MicroNode {
    MicroNode::Text(s.to_string())
}

fn mquoted(piq: bool, children: Vec<MicroNode>) -> MicroNode {
    MicroNode::Quoted { localized: quotes(piq), children }
}

fn italic() -> Formatting {
    Formatting {
        font_style: Some(citeproc::formatting::FontStyle::Italic),
        font_variant: None,
        font_weight: None,
        text_decoration: None,
        vertical_alignment: None,
    }
}

#[test]
fn punctuation_characters() {
    assert!(is_punc('.'));
    assert!(is_punc(','));
    assert!(is_punc('!'));
    assert!(is_punc('?'));
    assert!(!is_punc(';'));
    assert!(!is_punc(':'));
    assert!(!is_punc(' '));
    assert!(!is_punc('a'));
}

#[test]
fn migration_into_quoted_text() {
    let mut v = vec![quoted(true, vec![text("hello")]), text(", world")];
    move_punctuation(&mut v);
    assert_eq!(v, vec![quoted(true, vec![text("hello"), text(",")]), text(" world")]);
}

#[test]
fn migration_does_not_double() {
    let mut v = vec![quoted(true, vec![text("hello?")]), text(", world")];
    move_punctuation(&mut v);
    assert_eq!(v, vec![quoted(true, vec![text("hello?")]), text(" world")]);
}

#[test]
fn no_migration_without_locale_option() {
    let mut v = vec![quoted(false, vec![text("hello")]), text(", world")];
    move_punctuation(&mut v);
    assert_eq!(v, vec![quoted(false, vec![text("hello")]), text(", world")]);
}

#[test]
fn no_migration_of_other_characters() {
    let mut v = vec![quoted(true, vec![text("hello")]), text("; world")];
    move_punctuation(&mut v);
    assert_eq!(v, vec![quoted(true, vec![text("hello")]), text("; world")]);
    let mut w = vec![quoted(true, vec![text("hello")]), text("")];
    move_punctuation(&mut w);
    assert_eq!(w, vec![quoted(true, vec![text("hello")]), text("")]);
}

#[test]
fn deepest_quote_wins() {
    let mut v = vec![
        quoted(true, vec![text("A "), quoted(true, vec![text("B")])]),
        text(". C"),
    ];
    move_punctuation(&mut v);
    assert_eq!(
        v,
        vec![
            quoted(true, vec![text("A "), quoted(true, vec![text("B"), text(".")])]),
            text(" C"),
        ]
    );
}

#[test]
fn descent_goes_through_a_quote_that_takes_no_punctuation() {
    let mut v = vec![
        quoted(false, vec![text("A "), quoted(true, vec![text("B")])]),
        text(". C"),
    ];
    move_punctuation(&mut v);
    assert_eq!(
        v,
        vec![
            quoted(false, vec![text("A "), quoted(true, vec![text("B"), text(".")])]),
            text(" C"),
        ]
    );
}

#[test]
fn descent_through_formatting_and_blocks() {
    let mut v = vec![
        InlineElement::Formatted(
            vec![InlineElement::Div(DisplayMode::Block, vec![quoted(true, vec![text("q")])])],
            italic(),
        ),
        text("!"),
    ];
    move_punctuation(&mut v);
    assert_eq!(
        v,
        vec![
            InlineElement::Formatted(
                vec![InlineElement::Div(
                    DisplayMode::Block,
                    vec![quoted(true, vec![text("q"), text("!")])]
                )],
                italic(),
            ),
            text(""),
        ]
    );
}

#[test]
fn migration_into_rich_text() {
    let mut v = vec![
        InlineElement::Micro(vec![
            mtext("see "),
            MicroNode::NoCase(vec![mquoted(true, vec![mtext("it")])]),
        ]),
        InlineElement::Micro(vec![MicroNode::Formatted(vec![mtext(", and")], italic())]),
    ];
    move_punctuation(&mut v);
    assert_eq!(
        v,
        vec![
            InlineElement::Micro(vec![
                mtext("see "),
                MicroNode::NoCase(vec![mquoted(true, vec![mtext("it"), mtext(",")])]),
            ]),
            InlineElement::Micro(vec![MicroNode::Formatted(vec![mtext(" and")], italic())]),
        ]
    );
}

#[test]
fn consecutive_pairs_each_migrate_once() {
    let mut v = vec![
        quoted(true, vec![text("a")]),
        text(","),
        quoted(true, vec![text("b")]),
        text(". end"),
    ];
    move_punctuation(&mut v);
    assert_eq!(
        v,
        vec![
            quoted(true, vec![text("a"), text(",")]),
            text(""),
            quoted(true, vec![text("b"), text(".")]),
            text(" end"),
        ]
    );
}

#[test]
fn a_single_element_is_entered() {
    let mut v = vec![InlineElement::Formatted(
        vec![quoted(true, vec![text("hello")]), text(", world")],
        italic(),
    )];
    move_punctuation(&mut v);
    assert_eq!(
        v,
        vec![InlineElement::Formatted(
            vec![quoted(true, vec![text("hello"), text(",")]), text(" world")],
            italic(),
        )]
    );
    let mut e: Vec<InlineElement> = vec![];
    move_punctuation(&mut e);
    assert_eq!(e, vec![]);
    let mut t = vec![text(", x")];
    move_punctuation(&mut t);
    assert_eq!(t, vec![text(", x")]);
}

#[test]
fn children_of_a_longer_sequence_are_not_entered() {
    let inner = || {
        InlineElement::Formatted(vec![quoted(true, vec![text("q")]), text(", r")], italic())
    };
    let mut v = vec![inner(), text("x")];
    move_punctuation(&mut v);
    assert_eq!(v, vec![inner(), text("x")]);
}

#[test]
fn anchors_are_left_alone() {
    let anchor = || InlineElement::Anchor {
        title: "t".to_string(),
        url: "u".to_string(),
        content: vec![quoted(true, vec![text("q")])],
    };
    let mut v = vec![anchor(), text(", r")];
    move_punctuation(&mut v);
    assert_eq!(v, vec![anchor(), text(", r")]);
}

#[test]
fn second_pass_changes_nothing_when_settled() {
    let mut v = vec![quoted(true, vec![text("hello")]), text(", world")];
    move_punctuation(&mut v);
    let once = format!("{:?}", v);
    move_punctuation(&mut v);
    assert_eq!(format!("{:?}", v), once);
}

#[test]
fn second_pass_takes_a_doubled_mark() {
    let mut v = vec![quoted(true, vec![text("a")]), text(",,")];
    move_punctuation(&mut v);
    assert_eq!(v, vec![quoted(true, vec![text("a"), text(",")]), text(",")]);
    move_punctuation(&mut v);
    assert_eq!(v, vec![quoted(true, vec![text("a"), text(",")]), text("")]);
}

fn count(v: &[InlineElement], c: char) -> usize {
    format!("{:?}", v).matches(c).count()
}

#[test]
fn characters_are_conserved() {
    let mut v = vec![
        quoted(true, vec![text("a.b")]),
        text("! c"),
        quoted(true, vec![text("d?")]),
        text(", e"),
    ];
    let before_bang = count(&v, '!');
    let before_q = count(&v, '?');
    move_punctuation(&mut v);
    assert_eq!(count(&v, '!'), before_bang);
    assert_eq!(count(&v, '?'), before_q);
    assert_eq!(
        v,
        vec![
            quoted(true, vec![text("a.b"), text("!")]),
            text(" c"),
            quoted(true, vec![text("d?")]),
            text(" e"),
        ]
    );
}

#[test]
fn reading_functions() {
    assert!(ends_with_punctuation(&text("end.")));
    assert!(!ends_with_punctuation(&text("end")));
    assert!(!ends_with_punctuation(&text("")));
    assert!(ends_with_punctuation(&quoted(false, vec![text("a"), text("b!")])));
    assert!(ends_with_punctuation(&InlineElement::Micro(vec![mtext("x?")])));
    assert!(!ends_with_punctuation(&InlineElement::Micro(vec![])));
    assert!(ends_with_punctuation_micro(&MicroNode::NoCase(vec![mtext("x,")])));
    assert!(!ends_with_punctuation_micro(&mquoted(true, vec![])));
    assert_eq!(find_right_quote(&text("a")), None);
    assert_eq!(
        find_right_quote(&quoted(true, vec![])),
        Some(RightQuoteInsertionPoint::Inline)
    );
    assert_eq!(find_right_quote(&quoted(false, vec![text("a")])), None);
    assert_eq!(
        find_right_quote(&InlineElement::Micro(vec![mquoted(true, vec![mtext("a")])])),
        Some(RightQuoteInsertionPoint::Micro)
    );
    assert_eq!(find_right_quote_micro(&mtext("a")), None);
    assert_eq!(
        find_right_quote_micro(&MicroNode::Formatted(vec![mquoted(true, vec![])], italic())),
        Some(RightQuoteInsertionPoint::Micro)
    );
    assert_eq!(find_string_micro(&mquoted(true, vec![mtext("a")])), None);
    assert_eq!(
        find_string_micro(&MicroNode::NoCase(vec![mtext("ab"), mtext("c")])),
        Some(&"ab".to_string())
    );
    assert_eq!(leading_punctuation(&text("?x")), Some('?'));
    assert_eq!(leading_punctuation(&text("x?")), None);
    assert_eq!(leading_punctuation(&quoted(true, vec![text(".")])), None);
    let mut e = text("\u{e9}t\u{e9}");
    remove_leading_char(&mut e);
    assert_eq!(e, text("t\u{e9}"));
    let ip = RightQuoteInsertionPoint::Inline;
    let q = quoted(true, vec![text("a.")]);
    assert!(ip.ends_with_punctuation(&q));
    let mut q2 = quoted(true, vec![text("a")]);
    assert!(!ip.ends_with_punctuation(&q2));
    ip.push(&mut q2, '.');
    assert_eq!(q2, quoted(true, vec![text("a"), text(".")]));
}
