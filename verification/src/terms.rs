//! Terms of a locale and the selectors that ask for them.

use vstd::prelude::*;

verus! {

/// The form of a term.
#[derive(Clone, Copy, Debug, PartialEq, Eq, Hash, Structural)]
pub enum TermForm {
    Long,
    Short,
    Symbol,
    Verb,
    VerbShort,
}

/// The grammatical gender of a term; `Neuter` is the neutral one that terms
/// without gender have.
#[derive(Clone, Copy, Debug, PartialEq, Eq, Hash, Structural)]
pub enum Gender {
    Masculine,
    Feminine,
    Neuter,
}

impl TermForm {
    /// The less specific form that this one refines, if there is one.
    pub open spec fn refined(self) -> Option<TermForm> {
        match self {
            TermForm::Long => None,
            TermForm::Short => Some(TermForm::Long),
            TermForm::Symbol => Some(TermForm::Short),
            TermForm::Verb => Some(TermForm::Long),
            TermForm::VerbShort => Some(TermForm::Verb),
        }
    }

    /// How many steps this form is from `Long`.
    pub open spec fn rank(self) -> nat {
        match self {
            TermForm::Long => 0,
            TermForm::Short => 1,
            TermForm::Symbol => 2,
            TermForm::Verb => 1,
            TermForm::VerbShort => 2,
        }
    }

    /// The forms that are tried for this one, in order: the form itself, then
    /// the ever less specific ones down to `Long`.
    pub open spec fn chain(self) -> Seq<TermForm>
        decreases self.rank(),
    {
        match self.refined() {
            None => seq![self],
            Some(f) => seq![self] + f.chain(),
        }
    }

    /// The less specific form that this one refines, if there is one.
    pub fn fallback(self) -> (r: Option<TermForm>)
        ensures
            r == self.refined(),
            r matches Some(f) ==> f.rank() < self.rank(),
    {
        match self {
            TermForm::Long => None,
            TermForm::Short => Some(TermForm::Long),
            TermForm::Symbol => Some(TermForm::Short),
            TermForm::Verb => Some(TermForm::Long),
            TermForm::VerbShort => Some(TermForm::Verb),
        }
    }
}

/// What a term says: one string, or one for the singular and one for the
/// plural.
#[derive(Debug, PartialEq, Eq)]
pub enum TermValue {
    Invariant(String),
    Pluralized { single: String, multiple: String },
}

/// What the value of a term stands for.
pub enum TermValueModel {
    Invariant(Seq<char>),
    Pluralized { single: Seq<char>, multiple: Seq<char> },
}

impl TermValueModel {
    /// The string for the plural where it is asked for and there is one, the
    /// string for the singular where there is one, else the one string.
    pub open spec fn text(self, plural: bool) -> Seq<char> {
        match self {
            TermValueModel::Invariant(s) => s,
            TermValueModel::Pluralized { single, multiple } => if plural {
                multiple
            } else {
                single
            },
        }
    }
}

impl View for TermValue {
    type V = TermValueModel;

    open spec fn view(&self) -> TermValueModel {
        match *self {
            TermValue::Invariant(s) => TermValueModel::Invariant(s@),
            TermValue::Pluralized { single, multiple } => TermValueModel::Pluralized {
                single: single@,
                multiple: multiple@,
            },
        }
    }
}

impl TermValue {
    /// The string of this value for the singular or the plural.
    pub fn get(&self, plural: bool) -> (r: &str)
        ensures
            r@ == self@.text(plural),
    {
        match self {
            TermValue::Invariant(s) => s.as_str(),
            TermValue::Pluralized { single, multiple } => if plural {
                multiple.as_str()
            } else {
                single.as_str()
            },
        }
    }

    /// A copy of this value.
    pub fn duplicate(&self) -> (r: TermValue)
        ensures
            r@ == self@,
    {
        match self {
            TermValue::Invariant(s) => TermValue::Invariant(s.clone()),
            TermValue::Pluralized { single, multiple } => TermValue::Pluralized {
                single: single.clone(),
                multiple: multiple.clone(),
            },
        }
    }
}

/// A term of a locale document.
#[derive(Debug, PartialEq, Eq)]
pub struct Term {
    pub name: String,
    pub form: TermForm,
    pub gender: Gender,
    pub gender_form: Option<Gender>,
    pub value: TermValue,
}

/// What a term is found by.
pub struct TermKey {
    pub name: Seq<char>,
    pub form: TermForm,
    pub gender: Gender,
}

/// What a term stands for.
pub struct TermModel {
    pub name: Seq<char>,
    pub form: TermForm,
    pub gender: Gender,
    pub gender_form: Option<Gender>,
    pub value: TermValueModel,
}

impl TermModel {
    /// What the term is found by: its name, form and gender.
    pub open spec fn key(self) -> TermKey {
        TermKey { name: self.name, form: self.form, gender: self.gender }
    }
}

impl View for Term {
    type V = TermModel;

    open spec fn view(&self) -> TermModel {
        TermModel {
            name: self.name@,
            form: self.form,
            gender: self.gender,
            gender_form: self.gender_form,
            value: self.value@,
        }
    }
}

impl Term {
    /// A term without gender.
    pub fn new(name: String, form: TermForm, value: TermValue) -> (r: Term)
        ensures
            r@ == (TermModel {
                name: name@,
                form,
                gender: Gender::Neuter,
                gender_form: None,
                value: value@,
            }),
    {
        Term { name, form, gender: Gender::Neuter, gender_form: None, value }
    }

    /// A copy of this term.
    pub fn duplicate(&self) -> (r: Term)
        ensures
            r@ == self@,
    {
        Term {
            name: self.name.clone(),
            form: self.form,
            gender: self.gender,
            gender_form: self.gender_form,
            value: self.value.duplicate(),
        }
    }
}

/// A request for the text of a term.
#[derive(Debug, PartialEq, Eq)]
pub enum TextTermSelector {
    /// A term without gender.
    Simple(String, TermForm),
    /// A term with grammatical gender, such as the label of a locator.
    Gendered(String, TermForm, Gender),
    /// The label of a contributor's role.
    Role(String, TermForm),
}

/// What a selector stands for.
pub enum SelectorModel {
    Simple(Seq<char>, TermForm),
    Gendered(Seq<char>, TermForm, Gender),
    Role(Seq<char>, TermForm),
}

impl SelectorModel {
    /// The name of the term asked for.
    pub open spec fn name(self) -> Seq<char> {
        match self {
            SelectorModel::Simple(n, _) => n,
            SelectorModel::Gendered(n, _, _) => n,
            SelectorModel::Role(n, _) => n,
        }
    }

    /// The form asked for.
    pub open spec fn form(self) -> TermForm {
        match self {
            SelectorModel::Simple(_, f) => f,
            SelectorModel::Gendered(_, f, _) => f,
            SelectorModel::Role(_, f) => f,
        }
    }

    /// The gender asked for; the neutral one where the selector has none.
    pub open spec fn gender(self) -> Gender {
        match self {
            SelectorModel::Gendered(_, _, g) => g,
            _ => Gender::Neuter,
        }
    }
}

impl View for TextTermSelector {
    type V = SelectorModel;

    open spec fn view(&self) -> SelectorModel {
        match *self {
            TextTermSelector::Simple(n, f) => SelectorModel::Simple(n@, f),
            TextTermSelector::Gendered(n, f, g) => SelectorModel::Gendered(n@, f, g),
            TextTermSelector::Role(n, f) => SelectorModel::Role(n@, f),
        }
    }
}

impl TextTermSelector {
    /// The name of the term asked for.
    pub fn name(&self) -> (r: &String)
        ensures
            r@ == self@.name(),
    {
        match self {
            TextTermSelector::Simple(n, _) => n,
            TextTermSelector::Gendered(n, _, _) => n,
            TextTermSelector::Role(n, _) => n,
        }
    }

    /// The form asked for.
    pub fn form(&self) -> (r: TermForm)
        ensures
            r == self@.form(),
    {
        match self {
            TextTermSelector::Simple(_, f) => *f,
            TextTermSelector::Gendered(_, f, _) => *f,
            TextTermSelector::Role(_, f) => *f,
        }
    }

    /// The gender asked for; the neutral one where the selector has none.
    pub fn gender(&self) -> (r: Gender)
        ensures
            r == self@.gender(),
    {
        match self {
            TextTermSelector::Gendered(_, _, g) => *g,
            _ => Gender::Neuter,
        }
    }
}

} // verus!
