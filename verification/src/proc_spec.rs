//! What the evaluation of a style element means.
//!
//! An element evaluates to a node of the intermediate representation, a
//! summary of the variables under it, and the disambiguation tokens that it
//! adds. The evaluation is a function of the element and the cite context
//! alone. A macro may call macros; `depth` is the number of nested calls that
//! are still allowed.

use vstd::prelude::*;
use crate::formatting::Formatting;
use crate::ir::{GroupVars, IrModel, IrState, IrSum};
use crate::output::OutputFormat;
use crate::reference::{ordinary_value, number_value, CiteContext};
use crate::style::{
    macro_body, AffixesModel, BodyDate, Condition, Element, IfThen, LocatorType, Match, Names,
    NumberVariable, Plural, StandardVariable, TextSource,
};
use crate::terms::{Gender, SelectorModel, TermForm};

verus! {

/// What an element evaluates to.
pub struct Evaluated {
    pub ir: IrModel,
    pub group_vars: GroupVars,
    pub tokens: Set<Seq<char>>,
}

/// What a list of elements evaluates to: the nodes that are not empty, in
/// order, the joined summary, and the tokens.
pub struct Listed {
    pub nodes: Seq<IrModel>,
    pub group_vars: GroupVars,
    pub tokens: Set<Seq<char>>,
}

/// Why an evaluation fails.
#[derive(Debug, PartialEq, Eq)]
pub enum ProcError {
    /// A text element names a macro that the style does not have.
    UnknownMacro(String),
    /// Macros call macros deeper than the evaluator follows.
    MacroNesting,
}

/// What a failure stands for.
pub enum ProcErrorModel {
    UnknownMacro(Seq<char>),
    MacroNesting,
}

impl View for ProcError {
    type V = ProcErrorModel;

    open spec fn view(&self) -> ProcErrorModel {
        match *self {
            ProcError::UnknownMacro(name) => ProcErrorModel::UnknownMacro(name@),
            ProcError::MacroNesting => ProcErrorModel::MacroNesting,
        }
    }
}

/// The evaluators of names and of dates, which the element evaluator hands
/// these elements to. Each result is a function of the element and the cite
/// context, and each adds its tokens to the state.
pub trait SubEvaluator<O: OutputFormat> {
    /// What a names element evaluates to.
    spec fn names_evaluated(&self, names: Names, ctx: CiteContext<O>) -> Evaluated;

    /// What a date element evaluates to.
    spec fn date_evaluated(&self, date: BodyDate, ctx: CiteContext<O>) -> Evaluated;

    /// Evaluates a names element.
    fn names(&self, names: &Names, state: &mut IrState, ctx: &CiteContext<O>) -> (r:
        IrSum)
        ensures
            r.0@ == self.names_evaluated(*names, *ctx).ir,
            r.1 == self.names_evaluated(*names, *ctx).group_vars,
            final(state)@ == old(state)@.union(self.names_evaluated(*names, *ctx).tokens),
    ;

    /// Evaluates a date element.
    fn date(&self, date: &BodyDate, state: &mut IrState, ctx: &CiteContext<O>) -> (r:
        IrSum)
        ensures
            r.0@ == self.date_evaluated(*date, *ctx).ir,
            r.1 == self.date_evaluated(*date, *ctx).group_vars,
            final(state)@ == old(state)@.union(self.date_evaluated(*date, *ctx).tokens),
    ;
}

/// The reference, or for the locator the cite, has the variable.
pub open spec fn has_variable<O>(ctx: CiteContext<O>, variable: StandardVariable) -> bool {
    match variable {
        StandardVariable::Ordinary(v) => ordinary_value(ctx.reference.ordinary@, v) is Some,
        StandardVariable::Number(v) => ctx.number_of(v) is Some,
    }
}

/// The condition holds in the context.
pub open spec fn condition_holds<O>(ctx: CiteContext<O>, condition: Condition) -> bool {
    let any = exists|i: int|
        0 <= i < condition.variables@.len() && has_variable(ctx, #[trigger] condition.variables@[i]);
    let all = forall|i: int|
        0 <= i < condition.variables@.len() ==> has_variable(
            ctx,
            #[trigger] condition.variables@[i],
        );
    match condition.match_type {
        Match::Any => any,
        Match::All => all,
        Match::Neither => !any,
    }
}

/// The index of the first of the first `n` branches whose condition holds.
pub open spec fn first_match<O>(branches: Seq<IfThen>, n: nat, ctx: CiteContext<O>) -> Option<int>
    decreases n,
{
    if n == 0 || n > branches.len() {
        None
    } else {
        match first_match(branches, (n - 1) as nat, ctx) {
            Some(i) => Some(i),
            None => if condition_holds(ctx, branches[n - 1].condition) {
                Some(n - 1)
            } else {
                None
            },
        }
    }
}

/// The branch found is one of the first `n`, and its condition holds.
pub proof fn lemma_first_match_in_range<O>(branches: Seq<IfThen>, n: nat, ctx: CiteContext<O>)
    ensures
        first_match(branches, n, ctx) matches Some(i) ==> 0 <= i < n && i < branches.len()
            && condition_holds(ctx, branches[i].condition),
    decreases n,
{
    if n > 0 && n <= branches.len() {
        lemma_first_match_in_range(branches, (n - 1) as nat, ctx);
    }
}

/// The selector of the label of a number variable: the term of the locator's
/// type for the locator, where the cite has one, and the term of the variable
/// for every other.
pub open spec fn label_selector(
    locator_type: Option<LocatorType>,
    variable: NumberVariable,
    form: TermForm,
) -> Option<SelectorModel> {
    if variable == NumberVariable::Locator {
        match locator_type {
            Some(l) => Some(SelectorModel::Gendered(l.term_name(), form, Gender::Neuter)),
            None => None,
        }
    } else {
        Some(SelectorModel::Gendered(variable.term_name(), form, Gender::Neuter))
    }
}

/// A leaf with the text, where there is one, made into output.
pub open spec fn rendered<O: OutputFormat>(
    ctx: CiteContext<O>,
    text: Option<Seq<char>>,
    formatting: Option<Formatting>,
    affixes: AffixesModel,
) -> IrModel {
    IrModel::Rendered(
        match text {
            Some(t) => Some(ctx.format.affixed(t, formatting, affixes)),
            None => None,
        },
    )
}

/// What the text of a variable is, where the context has the variable.
pub open spec fn variable_text<O>(ctx: CiteContext<O>, variable: StandardVariable) -> Option<
    Seq<char>,
> {
    match variable {
        StandardVariable::Ordinary(v) => match ordinary_value(ctx.reference.ordinary@, v) {
            Some(value) => Some(
                if v.replaces_hyphens() {
                    crate::text::en_dashed(value@)
                } else {
                    value@
                },
            ),
            None => None,
        },
        StandardVariable::Number(v) => match number_value(ctx.reference.number@, v) {
            Some(value) => Some(value.verbatim_text(v.replaces_hyphens())),
            None => None,
        },
    }
}

/// What the text of a label is: the term of the variable, in the plural as
/// the policy and the value say; nothing where the variable is absent.
pub open spec fn label_text<O>(
    ctx: CiteContext<O>,
    variable: NumberVariable,
    form: TermForm,
    plural: Plural,
) -> Option<Seq<char>> {
    match ctx.number_of(variable) {
        None => None,
        Some(value) => {
            let p = match plural {
                Plural::Contextual => value.multiple,
                Plural::Always => true,
                Plural::Never => false,
            };
            match label_selector(ctx.cite.locator_type, variable, form) {
                Some(sel) => ctx.locale@.text_term(sel, p),
                None => None,
            }
        },
    }
}

/// What one element evaluates to.
pub open spec fn eval<S: SubEvaluator<O>, O: OutputFormat>(
    el: Element,
    db: S,
    ctx: CiteContext<O>,
    depth: nat,
) -> Result<Evaluated, ProcErrorModel>
    decreases depth, el, 0nat,
{
    match el {
        Element::Choose(choose) => {
            match first_match(choose.branches@, choose.branches@.len(), ctx) {
                Some(i) => {
                    proof {
                        lemma_first_match_in_range(
                            choose.branches@,
                            choose.branches@.len(),
                            ctx,
                        );
                    }
                    sequence_of(
                        choose.branches@[i].elements@,
                        db,
                        ctx,
                        depth,
                        Seq::empty(),
                        None,
                        AffixesModel::empty(),
                    )
                },
                None => sequence_of(
                    choose.otherwise@,
                    db,
                    ctx,
                    depth,
                    Seq::empty(),
                    None,
                    AffixesModel::empty(),
                ),
            }
        },
        Element::Text(text) => match text.source {
            TextSource::Macro(name) => match macro_body(ctx.style.macros@, name@) {
                None => Err(ProcErrorModel::UnknownMacro(name@)),
                Some(body) => if depth == 0 {
                    Err(ProcErrorModel::MacroNesting)
                } else {
                    sequence_of(
                        body,
                        db,
                        ctx,
                        (depth - 1) as nat,
                        Seq::empty(),
                        text.formatting,
                        text.affixes@,
                    )
                },
            },
            TextSource::Value(value) => Ok(
                Evaluated {
                    ir: rendered(ctx, Some(value@), text.formatting, text.affixes@),
                    group_vars: GroupVars::NoneSeen,
                    tokens: Set::empty(),
                },
            ),
            TextSource::Variable(variable, _) => Ok(
                Evaluated {
                    ir: rendered(
                        ctx,
                        variable_text(ctx, variable),
                        text.formatting,
                        text.affixes@,
                    ),
                    group_vars: GroupVars::of_variable(variable_text(ctx, variable) is Some),
                    tokens: Set::empty(),
                },
            ),
            TextSource::Term(selector, plural) => Ok(
                Evaluated {
                    ir: rendered(
                        ctx,
                        ctx.locale@.text_term(selector@, plural),
                        text.formatting,
                        text.affixes@,
                    ),
                    group_vars: GroupVars::NoneSeen,
                    tokens: Set::empty(),
                },
            ),
        },
        Element::Label(label) => Ok(
            Evaluated {
                ir: rendered(
                    ctx,
                    label_text(ctx, label.variable, label.form, label.plural),
                    label.formatting,
                    label.affixes@,
                ),
                group_vars: GroupVars::NoneSeen,
                tokens: Set::empty(),
            },
        ),
        Element::Number(number) => {
            let text = match ctx.number_of(number.variable) {
                Some(value) => Some(value.number_text(number.variable.replaces_hyphens())),
                None => None,
            };
            Ok(
                Evaluated {
                    ir: rendered(ctx, text, number.formatting, number.affixes@),
                    group_vars: GroupVars::of_variable(text is Some),
                    tokens: Set::empty(),
                },
            )
        },
        Element::Names(names) => Ok(db.names_evaluated(names, ctx)),
        Element::Group(group) => {
            match sequence_of(
                group.elements@,
                db,
                ctx,
                depth,
                group.delimiter@,
                group.formatting,
                group.affixes@,
            ) {
                Ok(seq) => if seq.group_vars.renders() {
                    Ok(seq)
                } else {
                    Ok(
                        Evaluated {
                            ir: IrModel::Rendered(None),
                            group_vars: GroupVars::NoneSeen,
                            tokens: seq.tokens,
                        },
                    )
                },
                Err(e) => Err(e),
            }
        },
        Element::Date(date) => Ok(db.date_evaluated(date, ctx)),
    }
}

/// What the first `n` elements of a list evaluate to, one after the other:
/// the nodes that are not empty, the joined summary, the tokens of all; or
/// the failure of the first element that fails.
pub open spec fn eval_list<S: SubEvaluator<O>, O: OutputFormat>(
    els: Seq<Element>,
    n: nat,
    db: S,
    ctx: CiteContext<O>,
    depth: nat,
) -> Result<Listed, ProcErrorModel>
    decreases depth, els, n,
{
    if n == 0 || n > els.len() {
        Ok(Listed { nodes: Seq::empty(), group_vars: GroupVars::NoneSeen, tokens: Set::empty() })
    } else {
        match eval_list(els, (n - 1) as nat, db, ctx, depth) {
            Err(e) => Err(e),
            Ok(front) => match eval(els[n - 1], db, ctx, depth) {
                Err(e) => Err(e),
                Ok(ev) => Ok(
                    Listed {
                        nodes: if ev.ir == IrModel::Rendered(None) {
                            front.nodes
                        } else {
                            front.nodes.push(ev.ir)
                        },
                        group_vars: front.group_vars.joined(ev.group_vars),
                        tokens: front.tokens.union(ev.tokens),
                    },
                ),
            },
        }
    }
}

/// What a list of elements evaluates to as an ordered group: the nodes that
/// are not empty, to be joined by the delimiter inside the affixes.
pub open spec fn sequence_of<S: SubEvaluator<O>, O: OutputFormat>(
    els: Seq<Element>,
    db: S,
    ctx: CiteContext<O>,
    depth: nat,
    delimiter: Seq<char>,
    formatting: Option<Formatting>,
    affixes: AffixesModel,
) -> Result<Evaluated, ProcErrorModel>
    decreases depth, els, els.len() + 1,
{
    match eval_list(els, els.len(), db, ctx, depth) {
        Ok(list) => Ok(
            Evaluated {
                ir: IrModel::Sequence { contents: list.nodes, formatting, affixes, delimiter },
                group_vars: list.group_vars,
                tokens: list.tokens,
            },
        ),
        Err(e) => Err(e),
    }
}

/// The outcome `r` of an evaluation, with the state before and after it, is
/// what `expected` says: the node, the summary and the tokens added; or the
/// failure, after which the state has lost nothing.
pub open spec fn agrees(
    r: Result<IrSum, ProcError>,
    before: Set<Seq<char>>,
    after: Set<Seq<char>>,
    expected: Result<Evaluated, ProcErrorModel>,
) -> bool {
    match expected {
        Ok(ev) => r matches Ok(sum) && sum.0@ == ev.ir && sum.1 == ev.group_vars && after
            == before.union(ev.tokens),
        Err(e) => r matches Err(x) && x@ == e && before.subset_of(after),
    }
}

} // verus!
