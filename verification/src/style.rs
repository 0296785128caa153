//! The style tree that the evaluator consumes.

use vstd::prelude::*;
use crate::formatting::Formatting;
use crate::terms::{TermForm, TextTermSelector};

verus! {

/// The text put before and behind an element's output.
#[derive(Debug, PartialEq, Eq)]
pub struct Affixes {
    pub prefix: String,
    pub suffix: String,
}

/// What affixes stand for: the two texts.
pub struct AffixesModel {
    pub prefix: Seq<char>,
    pub suffix: Seq<char>,
}

impl AffixesModel {
    /// Affixes of two empty texts.
    pub open spec fn empty() -> AffixesModel {
        AffixesModel { prefix: Seq::empty(), suffix: Seq::empty() }
    }
}

impl View for Affixes {
    type V = AffixesModel;

    open spec fn view(&self) -> AffixesModel {
        AffixesModel { prefix: self.prefix@, suffix: self.suffix@ }
    }
}

impl Affixes {
    /// Affixes of two empty texts.
    pub fn empty() -> (r: Affixes)
        ensures
            r@ == AffixesModel::empty(),
    {
        Affixes { prefix: String::new(), suffix: String::new() }
    }

    /// A copy of these affixes.
    pub fn duplicate(&self) -> (r: Affixes)
        ensures
            r@ == self@,
    {
        Affixes { prefix: self.prefix.clone(), suffix: self.suffix.clone() }
    }
}

/// The variables that hold a string.
#[derive(Clone, Copy, Debug, PartialEq, Eq, Hash, Structural)]
pub enum Variable {
    Title,
    ContainerTitle,
    CollectionTitle,
    Publisher,
    PublisherPlace,
    Genre,
    Note,
    Abstract,
    URL,
    DOI,
}

/// The variables that hold a number, or a string in the place of one.
#[derive(Clone, Copy, Debug, PartialEq, Eq, Hash, Structural)]
pub enum NumberVariable {
    ChapterNumber,
    CollectionNumber,
    Edition,
    Issue,
    Number,
    NumberOfPages,
    NumberOfVolumes,
    Volume,
    Page,
    Locator,
}

/// The variables that hold a date.
#[derive(Clone, Copy, Debug, PartialEq, Eq, Hash, Structural)]
pub enum DateVariable {
    Issued,
    Accessed,
    EventDate,
    OriginalDate,
    Submitted,
}

/// The variables that hold names.
#[derive(Clone, Copy, Debug, PartialEq, Eq, Hash, Structural)]
pub enum NameVariable {
    Author,
    Editor,
    Translator,
    ContainerAuthor,
    CollectionEditor,
}

/// What a cited locator counts.
#[derive(Clone, Copy, Debug, PartialEq, Eq, Hash, Structural)]
pub enum LocatorType {
    Page,
    Chapter,
    Section,
    Paragraph,
    Line,
    Verse,
    Volume,
}

/// A variable that a text element can render.
#[derive(Clone, Copy, Debug, PartialEq, Eq, Hash, Structural)]
pub enum StandardVariable {
    Ordinary(Variable),
    Number(NumberVariable),
}

impl Variable {
    /// Whether the hyphens of this variable's value stand for ranges and are
    /// written as en dashes. No string variable holds ranges.
    pub open spec fn replaces_hyphens(self) -> bool {
        false
    }

    /// Whether the hyphens of this variable's value are written as en dashes.
    pub fn should_replace_hyphens(self) -> (r: bool)
        ensures
            r == self.replaces_hyphens(),
    {
        false
    }
}

impl NumberVariable {
    /// Whether the hyphens of this variable's value stand for ranges and are
    /// written as en dashes: those of the locator do.
    pub open spec fn replaces_hyphens(self) -> bool {
        self == NumberVariable::Locator
    }

    /// Whether the hyphens of this variable's value are written as en dashes.
    pub fn should_replace_hyphens(self) -> (r: bool)
        ensures
            r == self.replaces_hyphens(),
    {
        match self {
            NumberVariable::Locator => true,
            _ => false,
        }
    }
}

impl LocatorType {
    /// The name of the term that labels a locator of this type.
    pub open spec fn term_name(self) -> Seq<char> {
        match self {
            LocatorType::Page => "page"@,
            LocatorType::Chapter => "chapter"@,
            LocatorType::Section => "section"@,
            LocatorType::Paragraph => "paragraph"@,
            LocatorType::Line => "line"@,
            LocatorType::Verse => "verse"@,
            LocatorType::Volume => "volume"@,
        }
    }

    /// The name of the term that labels a locator of this type.
    pub fn term(self) -> (r: String)
        ensures
            r@ == self.term_name(),
    {
        match self {
            LocatorType::Page => "page".to_owned(),
            LocatorType::Chapter => "chapter".to_owned(),
            LocatorType::Section => "section".to_owned(),
            LocatorType::Paragraph => "paragraph".to_owned(),
            LocatorType::Line => "line".to_owned(),
            LocatorType::Verse => "verse".to_owned(),
            LocatorType::Volume => "volume".to_owned(),
        }
    }
}

impl NumberVariable {
    /// The name of the term that labels this variable.
    pub open spec fn term_name(self) -> Seq<char> {
        match self {
            NumberVariable::ChapterNumber => "chapter-number"@,
            NumberVariable::CollectionNumber => "collection-number"@,
            NumberVariable::Edition => "edition"@,
            NumberVariable::Issue => "issue"@,
            NumberVariable::Number => "number"@,
            NumberVariable::NumberOfPages => "number-of-pages"@,
            NumberVariable::NumberOfVolumes => "number-of-volumes"@,
            NumberVariable::Volume => "volume"@,
            NumberVariable::Page => "page"@,
            NumberVariable::Locator => "locator"@,
        }
    }

    /// The name of the term that labels this variable.
    pub fn term(self) -> (r: String)
        ensures
            r@ == self.term_name(),
    {
        match self {
            NumberVariable::ChapterNumber => "chapter-number".to_owned(),
            NumberVariable::CollectionNumber => "collection-number".to_owned(),
            NumberVariable::Edition => "edition".to_owned(),
            NumberVariable::Issue => "issue".to_owned(),
            NumberVariable::Number => "number".to_owned(),
            NumberVariable::NumberOfPages => "number-of-pages".to_owned(),
            NumberVariable::NumberOfVolumes => "number-of-volumes".to_owned(),
            NumberVariable::Volume => "volume".to_owned(),
            NumberVariable::Page => "page".to_owned(),
            NumberVariable::Locator => "locator".to_owned(),
        }
    }
}

/// How the plural of a label is chosen.
#[derive(Clone, Copy, Debug, PartialEq, Eq, Hash, Structural)]
pub enum Plural {
    /// By the value of the variable.
    Contextual,
    Always,
    Never,
}

/// How a variable is written out.
#[derive(Clone, Copy, Debug, PartialEq, Eq, Hash, Structural)]
pub enum VariableForm {
    Long,
    Short,
}

/// How a number is written out.
#[derive(Clone, Copy, Debug, PartialEq, Eq, Hash, Structural)]
pub enum NumericForm {
    Numeric,
    Ordinal,
    LongOrdinal,
    Roman,
}

/// The case that a text is put in.
#[derive(Clone, Copy, Debug, PartialEq, Eq, Hash, Structural)]
pub enum TextCase {
    Unchanged,
    Lowercase,
    Uppercase,
    CapitalizeFirst,
    CapitalizeAll,
    Sentence,
    Title,
}

/// Where a text element takes its text from.
#[derive(Debug, PartialEq, Eq)]
pub enum TextSource {
    Macro(String),
    Value(String),
    Variable(StandardVariable, VariableForm),
    Term(TextTermSelector, bool),
}

/// A text element.
#[derive(Debug, PartialEq, Eq)]
pub struct TextElement {
    pub source: TextSource,
    pub formatting: Option<Formatting>,
    pub affixes: Affixes,
    pub quotes: bool,
    pub strip_periods: bool,
    pub text_case: TextCase,
    pub display: Option<crate::formatting::DisplayMode>,
}

/// A label for a number variable.
#[derive(Debug, PartialEq, Eq)]
pub struct LabelElement {
    pub variable: NumberVariable,
    pub form: TermForm,
    pub formatting: Option<Formatting>,
    pub affixes: Affixes,
    pub text_case: TextCase,
    pub strip_periods: bool,
    pub plural: Plural,
}

/// A number element.
#[derive(Debug, PartialEq, Eq)]
pub struct NumberElement {
    pub variable: NumberVariable,
    pub form: NumericForm,
    pub formatting: Option<Formatting>,
    pub affixes: Affixes,
    pub text_case: TextCase,
    pub display: Option<crate::formatting::DisplayMode>,
}

/// A names element; rendering it is the work of the names evaluator.
#[derive(Debug, PartialEq, Eq)]
pub struct Names {
    pub variables: Vec<NameVariable>,
    pub formatting: Option<Formatting>,
    pub affixes: Affixes,
    pub delimiter: String,
}

/// A date element; rendering it is the work of the date evaluator.
#[derive(Debug, PartialEq, Eq)]
pub struct BodyDate {
    pub variable: DateVariable,
    pub formatting: Option<Formatting>,
    pub affixes: Affixes,
}

/// How the tests of a condition combine.
#[derive(Clone, Copy, Debug, PartialEq, Eq, Hash, Structural)]
pub enum Match {
    /// At least one test holds.
    Any,
    /// Every test holds.
    All,
    /// No test holds.
    Neither,
}

/// The condition of a branch: tests whether the reference has variables.
#[derive(Debug, PartialEq, Eq)]
pub struct Condition {
    pub match_type: Match,
    pub variables: Vec<StandardVariable>,
}

/// A branch of a choice.
#[derive(Debug, PartialEq, Eq)]
pub struct IfThen {
    pub condition: Condition,
    pub elements: Vec<Element>,
}

/// A choice between branches, with what is rendered where none matches.
#[derive(Debug, PartialEq, Eq)]
pub struct Choose {
    pub branches: Vec<IfThen>,
    pub otherwise: Vec<Element>,
}

/// A group of elements.
#[derive(Debug, PartialEq, Eq)]
pub struct Group {
    pub delimiter: String,
    pub formatting: Option<Formatting>,
    pub affixes: Affixes,
    pub elements: Vec<Element>,
}

/// A rendering element of a style.
#[derive(Debug, PartialEq, Eq)]
pub enum Element {
    Choose(Choose),
    Text(TextElement),
    Label(LabelElement),
    Number(NumberElement),
    Names(Names),
    Group(Group),
    Date(BodyDate),
}

/// A macro: a named list of elements.
#[derive(Debug, PartialEq, Eq)]
pub struct MacroDef {
    pub name: String,
    pub elements: Vec<Element>,
}

/// The layout of a citation.
#[derive(Debug, PartialEq, Eq)]
pub struct Layout {
    pub delimiter: String,
    pub formatting: Option<Formatting>,
    pub affixes: Affixes,
    pub elements: Vec<Element>,
}

/// The citation part of a style.
#[derive(Debug, PartialEq, Eq)]
pub struct Citation {
    pub layout: Layout,
}

/// A parsed style.
#[derive(Debug, PartialEq, Eq)]
pub struct Style {
    pub macros: Vec<MacroDef>,
    pub citation: Citation,
}

/// The elements of the first macro named `name`, if there is one.
pub open spec fn macro_body(macros: Seq<MacroDef>, name: Seq<char>) -> Option<Seq<Element>>
    decreases macros.len(),
{
    if macros.len() == 0 {
        None
    } else if macros[0].name@ == name {
        Some(macros[0].elements@)
    } else {
        macro_body(macros.drop_first(), name)
    }
}

impl Style {
    /// The elements of the macro named `name`, if the style has one.
    pub fn find_macro(&self, name: &String) -> (r: Option<&Vec<Element>>)
        ensures
            match r {
                Some(els) => macro_body(self.macros@, name@) == Some(els@),
                None => macro_body(self.macros@, name@) is None,
            },
    {
        let mut i: usize = 0;
        assert(self.macros@.subrange(0, self.macros@.len() as int) =~= self.macros@);
        while i < self.macros.len()
            invariant
                i <= self.macros@.len(),
                macro_body(self.macros@, name@) == macro_body(
                    self.macros@.subrange(i as int, self.macros@.len() as int),
                    name@,
                ),
            decreases self.macros@.len() - i,
        {
            let ghost rest = self.macros@.subrange(i as int, self.macros@.len() as int);
            assert(rest[0] == self.macros@[i as int]);
            assert(rest.drop_first() =~= self.macros@.subrange(
                i + 1,
                self.macros@.len() as int,
            ));
            if self.macros[i].name == *name {
                return Some(&self.macros[i].elements);
            }
            i += 1;
        }
        assert(self.macros@.subrange(i as int, self.macros@.len() as int).len() == 0);
        None
    }
}

} // verus!
