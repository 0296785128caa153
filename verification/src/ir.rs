//! The intermediate representation that the evaluator produces.

use vstd::prelude::*;
use crate::formatting::Formatting;
use crate::inline::{InlineElement, InlineModel};
use crate::style::{Affixes, AffixesModel};

verus! {

/// What a group knows of the variables among its children.
#[derive(Clone, Copy, Debug, PartialEq, Eq, Structural)]
pub enum GroupVars {
    /// No child that stands for a variable was met.
    NoneSeen,
    /// At least one variable resolved to content.
    DidRender,
    /// At least one variable was met, and all of them were empty.
    OnlyEmpty,
    /// The output is forced, whatever the variables did.
    Important,
}

impl GroupVars {
    /// The summary of two neighbours: a forced render wins over everything,
    /// a rendered variable over an empty one, an empty one over none.
    pub open spec fn joined(self, other: GroupVars) -> GroupVars {
        if self == GroupVars::Important || other == GroupVars::Important {
            GroupVars::Important
        } else if self == GroupVars::DidRender || other == GroupVars::DidRender {
            GroupVars::DidRender
        } else if self == GroupVars::OnlyEmpty || other == GroupVars::OnlyEmpty {
            GroupVars::OnlyEmpty
        } else {
            GroupVars::NoneSeen
        }
    }

    /// A group with this summary renders: every summary but `OnlyEmpty`.
    pub open spec fn renders(self) -> bool {
        self != GroupVars::OnlyEmpty
    }

    /// The summary of one variable: rendered or empty.
    pub open spec fn of_variable(present: bool) -> GroupVars {
        if present {
            GroupVars::DidRender
        } else {
            GroupVars::OnlyEmpty
        }
    }

    /// The summary of an element that stands for no variable.
    pub fn new() -> (r: GroupVars)
        ensures
            r == GroupVars::NoneSeen,
    {
        GroupVars::NoneSeen
    }

    /// The summary of one variable: rendered where it resolved to content,
    /// empty where it did not.
    pub fn rendered_if(b: bool) -> (r: GroupVars)
        ensures
            r == GroupVars::of_variable(b),
    {
        if b {
            GroupVars::DidRender
        } else {
            GroupVars::OnlyEmpty
        }
    }

    /// The summary of two neighbours.
    pub fn neighbour(self, other: GroupVars) -> (r: GroupVars)
        ensures
            r == self.joined(other),
    {
        match (self, other) {
            (GroupVars::Important, _) => GroupVars::Important,
            (_, GroupVars::Important) => GroupVars::Important,
            (GroupVars::DidRender, _) => GroupVars::DidRender,
            (_, GroupVars::DidRender) => GroupVars::DidRender,
            (GroupVars::OnlyEmpty, _) => GroupVars::OnlyEmpty,
            (_, GroupVars::OnlyEmpty) => GroupVars::OnlyEmpty,
            (GroupVars::NoneSeen, GroupVars::NoneSeen) => GroupVars::NoneSeen,
        }
    }

    /// Whether a group with this summary renders.
    pub fn should_render_tree(self) -> (r: bool)
        ensures
            r == self.renders(),
    {
        match self {
            GroupVars::OnlyEmpty => false,
            _ => true,
        }
    }
}

/// An ordered group of nodes, to be joined by its delimiter inside its
/// affixes.
#[derive(Debug, PartialEq, Eq)]
pub struct IrSeq {
    pub contents: Vec<IR>,
    pub formatting: Option<Formatting>,
    pub affixes: Affixes,
    pub delimiter: String,
}

/// A node of the intermediate representation.
#[derive(Debug, PartialEq, Eq)]
pub enum IR {
    /// A leaf that is rendered already; `None` where there is nothing.
    Rendered(Option<InlineElement>),
    /// An ordered group.
    Sequence(IrSeq),
    /// A subtree whose evaluation may change after disambiguation.
    ConditionalDisamb(Box<IR>),
    /// The place of a year suffix, with what stands there until it is known.
    YearSuffix(InlineElement),
    /// A rendered list of names.
    Names(InlineElement),
}

/// What a node of the intermediate representation stands for.
pub enum IrModel {
    Rendered(Option<InlineModel>),
    Sequence {
        contents: Seq<IrModel>,
        formatting: Option<Formatting>,
        affixes: AffixesModel,
        delimiter: Seq<char>,
    },
    ConditionalDisamb(Box<IrModel>),
    YearSuffix(InlineModel),
    Names(InlineModel),
}

/// The model of a node.
pub open spec fn ir_model(ir: IR) -> IrModel
    decreases ir,
{
    match ir {
        IR::Rendered(content) => IrModel::Rendered(
            match content {
                Some(inline) => Some(inline@),
                None => None,
            },
        ),
        IR::Sequence(seq) => IrModel::Sequence {
            contents: Seq::new(
                seq.contents@.len(),
                |i: int|
                    if 0 <= i < seq.contents@.len() {
                        ir_model(seq.contents@[i])
                    } else {
                        IrModel::Rendered(None)
                    },
            ),
            formatting: seq.formatting,
            affixes: seq.affixes@,
            delimiter: seq.delimiter@,
        },
        IR::ConditionalDisamb(inner) => IrModel::ConditionalDisamb(Box::new(ir_model(*inner))),
        IR::YearSuffix(inline) => IrModel::YearSuffix(inline@),
        IR::Names(inline) => IrModel::Names(inline@),
    }
}

impl View for IR {
    type V = IrModel;

    open spec fn view(&self) -> IrModel {
        ir_model(*self)
    }
}

/// The models of a sequence of nodes, one for one.
pub open spec fn ir_models(s: Seq<IR>) -> Seq<IrModel> {
    Seq::new(s.len(), |i: int| s[i]@)
}

/// A node and what it knows of the variables under it.
pub type IrSum = (IR, GroupVars);

/// A token that disambiguation works with.
#[derive(Debug, PartialEq, Eq)]
pub struct DisambToken {
    pub text: String,
}

/// The tokens of a list, as texts.
pub open spec fn token_texts(s: Seq<DisambToken>) -> Set<Seq<char>> {
    Set::new(|t: Seq<char>| exists|i: int| 0 <= i < s.len() && (#[trigger] s[i]).text@ == t)
}

/// The state of one evaluation: the disambiguation tokens met so far.
#[derive(Debug)]
pub struct IrState {
    pub tokens: Vec<DisambToken>,
}

impl View for IrState {
    type V = Set<Seq<char>>;

    open spec fn view(&self) -> Set<Seq<char>> {
        token_texts(self.tokens@)
    }
}

impl IrState {
    /// A state without tokens.
    pub fn new() -> (r: IrState)
        ensures
            r@ == Set::<Seq<char>>::empty(),
    {
        let r = IrState { tokens: Vec::new() };
        assert(r@ =~= Set::<Seq<char>>::empty());
        r
    }

    /// Whether the token is among those met so far.
    pub fn contains(&self, token: &DisambToken) -> (r: bool)
        ensures
            r == self@.contains(token.text@),
    {
        let mut i: usize = 0;
        while i < self.tokens.len()
            invariant
                i <= self.tokens@.len(),
                forall|j: int| 0 <= j < i ==> (#[trigger] self.tokens@[j]).text@ != token.text@,
            decreases self.tokens@.len() - i,
        {
            if self.tokens[i].text == token.text {
                return true;
            }
            i += 1;
        }
        false
    }

    /// Adds a token to those met so far.
    pub fn insert(&mut self, token: DisambToken)
        ensures
            final(self)@ == old(self)@.insert(token.text@),
    {
        let ghost before = self.tokens@;
        if !self.contains(&token) {
            self.tokens.push(token);
            assert(self@ =~= old(self)@.insert(token.text@)) by {
                assert forall|t: Seq<char>| #[trigger]
                    old(self)@.insert(token.text@).contains(t) implies self@.contains(t) by {
                    if t == token.text@ {
                        assert(self.tokens@[before.len() as int].text@ == t);
                    } else {
                        let i = choose|i: int| 0 <= i < before.len() && (#[trigger] before[i]).text@ == t;
                        assert(self.tokens@[i] == before[i]);
                    }
                }
                assert forall|t: Seq<char>| #[trigger] self@.contains(t) implies old(
                    self,
                )@.insert(token.text@).contains(t) by {
                    let i = choose|i: int| 0 <= i < self.tokens@.len() && (#[trigger] self.tokens@[i]).text@ == t;
                    if i < before.len() {
                        assert(before[i].text@ == t);
                    }
                }
            }
        } else {
            assert(self@ =~= old(self)@.insert(token.text@));
        }
    }
}

} // verus!
