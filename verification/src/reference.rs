//! References, cites, and the context of one rendering.

use vstd::prelude::*;
use crate::locale::Locale;
use crate::style::{DateVariable, LocatorType, NumberVariable, Style, Variable};
use crate::text::{en_dashed, hyphens_replaced_if};

verus! {

/// The value of a number variable: as it was written, as a number, and
/// whether it stands for more than one.
#[derive(Debug, PartialEq, Eq)]
pub struct NumericValue {
    pub verbatim: String,
    pub number: String,
    pub multiple: bool,
}

impl NumericValue {
    /// The value as it was written, with en dashes for hyphens where
    /// `replace_hyphens` is set.
    pub open spec fn verbatim_text(self, replace_hyphens: bool) -> Seq<char> {
        if replace_hyphens {
            en_dashed(self.verbatim@)
        } else {
            self.verbatim@
        }
    }

    /// The value as a number, with en dashes for hyphens where
    /// `replace_hyphens` is set.
    pub open spec fn number_text(self, replace_hyphens: bool) -> Seq<char> {
        if replace_hyphens {
            en_dashed(self.number@)
        } else {
            self.number@
        }
    }

    /// Whether the value stands for more than one.
    pub fn is_multiple(&self) -> (r: bool)
        ensures
            r == self.multiple,
    {
        self.multiple
    }

    /// The value as it was written.
    pub fn verbatim(&self, replace_hyphens: bool) -> (r: String)
        ensures
            r@ == self.verbatim_text(replace_hyphens),
    {
        hyphens_replaced_if(&self.verbatim, replace_hyphens)
    }

    /// The value as a number.
    pub fn as_number(&self, replace_hyphens: bool) -> (r: String)
        ensures
            r@ == self.number_text(replace_hyphens),
    {
        hyphens_replaced_if(&self.number, replace_hyphens)
    }
}

/// A date; a month or day of 0 is not known.
#[derive(Clone, Copy, Debug, PartialEq, Eq)]
pub struct Date {
    pub year: i32,
    pub month: u32,
    pub day: u32,
}

/// A string variable with its value.
#[derive(Debug, PartialEq, Eq)]
pub struct OrdinaryEntry {
    pub variable: Variable,
    pub value: String,
}

/// A number variable with its value.
#[derive(Debug, PartialEq, Eq)]
pub struct NumberEntry {
    pub variable: NumberVariable,
    pub value: NumericValue,
}

/// A date variable with its value.
#[derive(Debug, PartialEq, Eq)]
pub struct DateEntry {
    pub variable: DateVariable,
    pub value: Date,
}

/// A bibliographic reference: a bag of typed variables.
#[derive(Debug, PartialEq, Eq)]
pub struct Reference {
    pub ordinary: Vec<OrdinaryEntry>,
    pub number: Vec<NumberEntry>,
    pub date: Vec<DateEntry>,
}

/// The value of the first entry for `variable`, if there is one.
pub open spec fn ordinary_value(entries: Seq<OrdinaryEntry>, variable: Variable) -> Option<String>
    decreases entries.len(),
{
    if entries.len() == 0 {
        None
    } else if entries[0].variable == variable {
        Some(entries[0].value)
    } else {
        ordinary_value(entries.drop_first(), variable)
    }
}

/// The value of the first entry for `variable`, if there is one.
pub open spec fn number_value(entries: Seq<NumberEntry>, variable: NumberVariable) -> Option<
    NumericValue,
>
    decreases entries.len(),
{
    if entries.len() == 0 {
        None
    } else if entries[0].variable == variable {
        Some(entries[0].value)
    } else {
        number_value(entries.drop_first(), variable)
    }
}

/// The value of the first entry for `variable`, if there is one.
pub open spec fn date_value(entries: Seq<DateEntry>, variable: DateVariable) -> Option<Date>
    decreases entries.len(),
{
    if entries.len() == 0 {
        None
    } else if entries[0].variable == variable {
        Some(entries[0].value)
    } else {
        date_value(entries.drop_first(), variable)
    }
}

impl Reference {
    /// The value of a string variable, if the reference has it.
    pub fn get_ordinary(&self, variable: Variable) -> (r: Option<&String>)
        ensures
            match r {
                Some(v) => ordinary_value(self.ordinary@, variable) == Some(*v),
                None => ordinary_value(self.ordinary@, variable) is None,
            },
    {
        let mut i: usize = 0;
        assert(self.ordinary@.subrange(0, self.ordinary@.len() as int) =~= self.ordinary@);
        while i < self.ordinary.len()
            invariant
                i <= self.ordinary@.len(),
                ordinary_value(self.ordinary@, variable) == ordinary_value(
                    self.ordinary@.subrange(i as int, self.ordinary@.len() as int),
                    variable,
                ),
            decreases self.ordinary@.len() - i,
        {
            let ghost rest = self.ordinary@.subrange(i as int, self.ordinary@.len() as int);
            assert(rest[0] == self.ordinary@[i as int]);
            assert(rest.drop_first() =~= self.ordinary@.subrange(
                i + 1,
                self.ordinary@.len() as int,
            ));
            if self.ordinary[i].variable == variable {
                return Some(&self.ordinary[i].value);
            }
            i += 1;
        }
        assert(self.ordinary@.subrange(i as int, self.ordinary@.len() as int).len() == 0);
        None
    }

    /// The value of a number variable, if the reference has it.
    pub fn get_number(&self, variable: NumberVariable) -> (r: Option<&NumericValue>)
        ensures
            match r {
                Some(v) => number_value(self.number@, variable) == Some(*v),
                None => number_value(self.number@, variable) is None,
            },
    {
        let mut i: usize = 0;
        assert(self.number@.subrange(0, self.number@.len() as int) =~= self.number@);
        while i < self.number.len()
            invariant
                i <= self.number@.len(),
                number_value(self.number@, variable) == number_value(
                    self.number@.subrange(i as int, self.number@.len() as int),
                    variable,
                ),
            decreases self.number@.len() - i,
        {
            let ghost rest = self.number@.subrange(i as int, self.number@.len() as int);
            assert(rest[0] == self.number@[i as int]);
            assert(rest.drop_first() =~= self.number@.subrange(i + 1, self.number@.len() as int));
            if self.number[i].variable == variable {
                return Some(&self.number[i].value);
            }
            i += 1;
        }
        assert(self.number@.subrange(i as int, self.number@.len() as int).len() == 0);
        None
    }

    /// The value of a date variable, if the reference has it.
    pub fn get_date(&self, variable: DateVariable) -> (r: Option<Date>)
        ensures
            r == date_value(self.date@, variable),
    {
        let mut i: usize = 0;
        assert(self.date@.subrange(0, self.date@.len() as int) =~= self.date@);
        while i < self.date.len()
            invariant
                i <= self.date@.len(),
                date_value(self.date@, variable) == date_value(
                    self.date@.subrange(i as int, self.date@.len() as int),
                    variable,
                ),
            decreases self.date@.len() - i,
        {
            let ghost rest = self.date@.subrange(i as int, self.date@.len() as int);
            assert(rest[0] == self.date@[i as int]);
            assert(rest.drop_first() =~= self.date@.subrange(i + 1, self.date@.len() as int));
            if self.date[i].variable == variable {
                return Some(self.date[i].value);
            }
            i += 1;
        }
        assert(self.date@.subrange(i as int, self.date@.len() as int).len() == 0);
        None
    }
}

/// One citing of a reference.
#[derive(Debug, PartialEq, Eq)]
pub struct Cite {
    pub locator_type: Option<LocatorType>,
    pub locator: Option<NumericValue>,
}

/// What one rendering of a cite works with. It does not change while the
/// cite is rendered.
pub struct CiteContext<'c, O> {
    pub reference: &'c Reference,
    pub cite: &'c Cite,
    pub format: &'c O,
    pub locale: &'c Locale,
    pub style: &'c Style,
}

impl<'c, O> CiteContext<'c, O> {
    /// The value of a number variable in this context: the locator is the
    /// cite's, every other variable the reference's.
    pub open spec fn number_of(self, variable: NumberVariable) -> Option<NumericValue> {
        if variable == NumberVariable::Locator {
            self.cite.locator
        } else {
            number_value(self.reference.number@, variable)
        }
    }

    /// The value of a number variable in this context.
    pub fn get_number(&self, variable: NumberVariable) -> (r: Option<&NumericValue>)
        ensures
            match r {
                Some(v) => self.number_of(variable) == Some(*v),
                None => self.number_of(variable) is None,
            },
    {
        match variable {
            NumberVariable::Locator => match &self.cite.locator {
                Some(v) => Some(v),
                None => None,
            },
            _ => self.reference.get_number(variable),
        }
    }
}

} // verus!
