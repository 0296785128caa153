//! The evaluator: from a style element and a cite context to a node of the
//! intermediate representation.

use vstd::prelude::*;
use crate::formatting::Formatting;
use crate::ir::{ir_models, GroupVars, IrSeq, IrState, IrSum, IR};
use crate::output::OutputFormat;
use crate::proc_spec::{
    agrees, condition_holds, eval, eval_list, first_match, has_variable, label_selector,
    label_text, rendered, sequence_of, variable_text, ProcError, SubEvaluator,
};
use crate::reference::CiteContext;
use crate::style::{
    Affixes, AffixesModel, Condition, Element, LabelElement, LocatorType, Match,
    NumberVariable, Plural, StandardVariable, Style, TextSource,
};
use crate::terms::{Gender, TermForm, TextTermSelector};
use crate::text::hyphens_replaced_if;
use crate::views::lemma_ir_view;

verus! {

/// How deep macros may call macros.
pub const MACRO_DEPTH: usize = 64;

/// A failure among the first elements of a list is the failure of the list.
pub proof fn lemma_list_failure<S: SubEvaluator<O>, O: OutputFormat>(
    els: Seq<Element>,
    i: nat,
    n: nat,
    db: S,
    ctx: CiteContext<O>,
    depth: nat,
)
    requires
        i <= n <= els.len(),
        eval_list(els, i, db, ctx, depth) is Err,
    ensures
        eval_list(els, n, db, ctx, depth) == eval_list(els, i, db, ctx, depth),
    decreases n,
{
    if i < n {
        lemma_list_failure(els, i, (n - 1) as nat, db, ctx, depth);
    }
}

/// The first branch that matches among some is the first that matches among
/// more.
pub proof fn lemma_first_match_stays<O>(
    branches: Seq<crate::style::IfThen>,
    i: nat,
    n: nat,
    ctx: CiteContext<O>,
)
    requires
        i <= n <= branches.len(),
        first_match(branches, i, ctx) is Some,
    ensures
        first_match(branches, n, ctx) == first_match(branches, i, ctx),
    decreases n,
{
    if i < n {
        lemma_first_match_stays(branches, i, (n - 1) as nat, ctx);
    }
}

/// Whether the context has the variable.
fn context_has<O: OutputFormat>(ctx: &CiteContext<O>, variable: StandardVariable) -> (r: bool)
    ensures
        r == has_variable(*ctx, variable),
{
    match variable {
        StandardVariable::Ordinary(v) => ctx.reference.get_ordinary(v).is_some(),
        StandardVariable::Number(v) => ctx.get_number(v).is_some(),
    }
}

/// Whether the condition of a branch holds in the context.
pub fn condition_matches<O: OutputFormat>(ctx: &CiteContext<O>, condition: &Condition) -> (r: bool)
    ensures
        r == condition_holds(*ctx, *condition),
{
    let mut any = false;
    let mut all = true;
    let mut i: usize = 0;
    while i < condition.variables.len()
        invariant
            i <= condition.variables@.len(),
            any == exists|j: int| 0 <= j < i && has_variable(*ctx, #[trigger] condition.variables@[j]),
            all == forall|j: int|
                0 <= j < i ==> has_variable(*ctx, #[trigger] condition.variables@[j]),
        decreases condition.variables@.len() - i,
    {
        if context_has(ctx, condition.variables[i]) {
            any = true;
        } else {
            all = false;
        }
        i += 1;
    }
    match condition.match_type {
        Match::Any => any,
        Match::All => all,
        Match::Neither => !any,
    }
}

/// The selector of the label of a number variable.
pub fn from_number_variable(
    locator_type: Option<LocatorType>,
    variable: NumberVariable,
    form: TermForm,
) -> (r: Option<TextTermSelector>)
    ensures
        match r {
            Some(sel) => label_selector(locator_type, variable, form) == Some(sel@),
            None => label_selector(locator_type, variable, form) is None,
        },
{
    match variable {
        NumberVariable::Locator => match locator_type {
            Some(l) => Some(TextTermSelector::Gendered(l.term(), form, Gender::Neuter)),
            None => None,
        },
        _ => Some(TextTermSelector::Gendered(variable.term(), form, Gender::Neuter)),
    }
}

/// A leaf: the text, where there is one, made into output by the format.
fn render<O: OutputFormat>(
    ctx: &CiteContext<O>,
    text: Option<String>,
    formatting: Option<Formatting>,
    affixes: &Affixes,
) -> (r: IR)
    ensures
        r@ == rendered(
            *ctx,
            match text {
                Some(t) => Some(t@),
                None => None,
            },
            formatting,
            affixes@,
        ),
        r is Rendered,
        (r->Rendered_0 is Some) == (text is Some),
{
    let content = match text {
        Some(t) => Some(ctx.format.affixed_text(t, formatting, affixes)),
        None => None,
    };
    let r = IR::Rendered(content);
    proof {
        lemma_ir_view(r);
    }
    r
}

/// The text of a variable, where the context has the variable.
fn text_of_variable<O: OutputFormat>(ctx: &CiteContext<O>, variable: StandardVariable) -> (r:
    Option<String>)
    ensures
        match r {
            Some(t) => variable_text(*ctx, variable) == Some(t@),
            None => variable_text(*ctx, variable) is None,
        },
{
    match variable {
        StandardVariable::Ordinary(v) => match ctx.reference.get_ordinary(v) {
            Some(value) => Some(hyphens_replaced_if(value, v.should_replace_hyphens())),
            None => None,
        },
        StandardVariable::Number(v) => match ctx.reference.get_number(v) {
            Some(value) => Some(value.verbatim(v.should_replace_hyphens())),
            None => None,
        },
    }
}

/// The text of a label, where the variable is there and the locale has the
/// term.
fn text_of_label<O: OutputFormat>(ctx: &CiteContext<O>, label: &LabelElement) -> (r: Option<String>)
    ensures
        match r {
            Some(t) => label_text(*ctx, label.variable, label.form, label.plural) == Some(t@),
            None => label_text(*ctx, label.variable, label.form, label.plural) is None,
        },
{
    let selector = from_number_variable(ctx.cite.locator_type, label.variable, label.form);
    let plural = match ctx.get_number(label.variable) {
        None => None,
        Some(value) => match label.plural {
            Plural::Contextual => Some(value.is_multiple()),
            Plural::Always => Some(true),
            Plural::Never => Some(false),
        },
    };
    match plural {
        Some(p) => match selector {
            Some(sel) => match ctx.locale.get_text_term(&sel, p) {
                Some(value) => Some(value.to_owned()),
                None => None,
            },
            None => None,
        },
        None => None,
    }
}

/// Evaluates the elements of a list one after the other, into an ordered
/// group of the nodes that are not empty.
pub fn sequence<S: SubEvaluator<O>, O: OutputFormat>(
    db: &S,
    state: &mut IrState,
    ctx: &CiteContext<O>,
    els: &Vec<Element>,
    delimiter: String,
    formatting: Option<Formatting>,
    affixes: Affixes,
    depth: usize,
) -> (r: Result<IrSum, ProcError>)
    ensures
        agrees(
            r,
            old(state)@,
            final(state)@,
            sequence_of(els@, *db, *ctx, depth as nat, delimiter@, formatting, affixes@),
        ),
    decreases depth, els@, 1nat,
{
    let mut contents: Vec<IR> = Vec::new();
    let mut group_vars = GroupVars::new();
    let ghost mut tokens: Set<Seq<char>> = Set::empty();
    let mut i: usize = 0;
    assert(ir_models(contents@) =~= Seq::empty());
    assert(state@ =~= old(state)@.union(tokens));
    while i < els.len()
        invariant
            i <= els@.len(),
            eval_list(els@, i as nat, *db, *ctx, depth as nat) == Ok::<_, crate::proc_spec::ProcErrorModel>(
                crate::proc_spec::Listed { nodes: ir_models(contents@), group_vars, tokens },
            ),
            state@ == old(state)@.union(tokens),
        decreases els@.len() - i,
    {
        let ghost before = state@;
        let ghost nodes = ir_models(contents@);
        match evaluate(&els[i], db, state, ctx, depth) {
            Err(e) => {
                proof {
                    lemma_list_failure(els@, (i + 1) as nat, els@.len(), *db, *ctx, depth as nat);
                    assert(old(state)@.subset_of(state@));
                }
                return Err(e);
            },
            Ok(sum) => {
                let (ir, gv) = sum;
                proof {
                    lemma_ir_view(ir);
                    let ev = eval(els@[i as int], *db, *ctx, depth as nat)->Ok_0;
                    assert(state@ =~= old(state)@.union(tokens.union(ev.tokens)));
                    tokens = tokens.union(ev.tokens);
                }
                let empty = match &ir {
                    IR::Rendered(None) => true,
                    _ => false,
                };
                if !empty {
                    contents.push(ir);
                    assert(ir_models(contents@) =~= nodes.push(ir@));
                }
                group_vars = group_vars.neighbour(gv);
            },
        }
        i += 1;
    }
    let r = IR::Sequence(IrSeq { contents, formatting, affixes, delimiter });
    proof {
        lemma_ir_view(r);
    }
    Ok((r, group_vars))
}

/// Evaluates one element.
pub fn evaluate<S: SubEvaluator<O>, O: OutputFormat>(
    el: &Element,
    db: &S,
    state: &mut IrState,
    ctx: &CiteContext<O>,
    depth: usize,
) -> (r: Result<IrSum, ProcError>)
    ensures
        agrees(r, old(state)@, final(state)@, eval(*el, *db, *ctx, depth as nat)),
    decreases depth, *el, 0nat,
{
    assert(state@.union(Set::empty()) =~= state@);
    match el {
        Element::Choose(choose) => {
            let mut i: usize = 0;
            while i < choose.branches.len()
                invariant
                    i <= choose.branches@.len(),
                    first_match(choose.branches@, i as nat, *ctx) is None,
                    *state == *old(state),
                    *el == Element::Choose(*choose),
                decreases choose.branches@.len() - i,
            {
                if condition_matches(ctx, &choose.branches[i].condition) {
                    proof {
                        assert(first_match(choose.branches@, (i + 1) as nat, *ctx) == Some(
                            i as int,
                        ));
                        lemma_first_match_stays(
                            choose.branches@,
                            (i + 1) as nat,
                            choose.branches@.len(),
                            *ctx,
                        );
                        assert(decreases_to!(*el => *choose));
                        assert(decreases_to!(*choose => choose.branches));
                        assert(decreases_to!(choose.branches => choose.branches@[i as int]));
                        assert(decreases_to!(choose.branches@[i as int] => choose.branches@[i as int].elements@));
                    }
                    return sequence(
                        db,
                        state,
                        ctx,
                        &choose.branches[i].elements,
                        String::new(),
                        None,
                        Affixes::empty(),
                        depth,
                    );
                }
                i += 1;
            }
            sequence(db, state, ctx, &choose.otherwise, String::new(), None, Affixes::empty(), depth)
        },
        Element::Text(text) => match &text.source {
            TextSource::Macro(name) => match ctx.style.find_macro(name) {
                None => Err(ProcError::UnknownMacro(name.clone())),
                Some(body) => {
                    if depth == 0 {
                        Err(ProcError::MacroNesting)
                    } else {
                        sequence(
                            db,
                            state,
                            ctx,
                            body,
                            String::new(),
                            text.formatting,
                            text.affixes.duplicate(),
                            depth - 1,
                        )
                    }
                },
            },
            TextSource::Value(value) => {
                let ir = render(ctx, Some(value.clone()), text.formatting, &text.affixes);
                Ok((ir, GroupVars::new()))
            },
            TextSource::Variable(variable, _form) => {
                let content = text_of_variable(ctx, *variable);
                let gv = GroupVars::rendered_if(content.is_some());
                let ir = render(ctx, content, text.formatting, &text.affixes);
                Ok((ir, gv))
            },
            TextSource::Term(selector, plural) => {
                let content = match ctx.locale.get_text_term(selector, *plural) {
                    Some(value) => Some(value.to_owned()),
                    None => None,
                };
                let ir = render(ctx, content, text.formatting, &text.affixes);
                Ok((ir, GroupVars::new()))
            },
        },
        Element::Label(label) => {
            let content = text_of_label(ctx, label);
            let ir = render(ctx, content, label.formatting, &label.affixes);
            Ok((ir, GroupVars::new()))
        },
        Element::Number(number) => {
            let content = match ctx.get_number(number.variable) {
                Some(value) => Some(value.as_number(number.variable.should_replace_hyphens())),
                None => None,
            };
            let gv = GroupVars::rendered_if(content.is_some());
            let ir = render(ctx, content, number.formatting, &number.affixes);
            Ok((ir, gv))
        },
        Element::Names(names) => Ok(db.names(names, state, ctx)),
        Element::Group(group) => {
            match sequence(
                db,
                state,
                ctx,
                &group.elements,
                group.delimiter.clone(),
                group.formatting,
                group.affixes.duplicate(),
                depth,
            ) {
                Ok(sum) => {
                    let (seq, group_vars) = sum;
                    if group_vars.should_render_tree() {
                        Ok((seq, group_vars))
                    } else {
                        let ir = IR::Rendered(None);
                        proof {
                            lemma_ir_view(ir);
                        }
                        Ok((ir, GroupVars::NoneSeen))
                    }
                },
                Err(e) => Err(e),
            }
        },
        Element::Date(date) => Ok(db.date(date, state, ctx)),
    }
}

/// What can be evaluated into the intermediate representation.
pub trait Proc<S: SubEvaluator<O>, O: OutputFormat> {
    /// What the evaluation gives: the node, the summary of the variables and
    /// the tokens, or the failure.
    spec fn evaluation(&self, db: S, ctx: CiteContext<O>) -> Result<
        crate::proc_spec::Evaluated,
        crate::proc_spec::ProcErrorModel,
    >;

    /// Evaluates `self` for one cite. The tokens met are added to `state`.
    fn intermediate(
        &self,
        db: &S,
        state: &mut IrState,
        ctx: &CiteContext<O>,
    ) -> (r: Result<IrSum, ProcError>)
        ensures
            agrees(r, old(state)@, final(state)@, self.evaluation(*db, *ctx)),
    ;
}

impl<S: SubEvaluator<O>, O: OutputFormat> Proc<S, O> for Style {
    /// The elements of the citation layout, as an ordered group without
    /// delimiter, formatting and affixes: those of the layout are applied
    /// where the cites of a cluster are joined.
    open spec fn evaluation(
        &self,
        db: S,
        ctx: CiteContext<O>,
    ) -> Result<crate::proc_spec::Evaluated, crate::proc_spec::ProcErrorModel> {
        sequence_of(
            self.citation.layout.elements@,
            db,
            ctx,
            MACRO_DEPTH as nat,
            Seq::empty(),
            None,
            AffixesModel::empty(),
        )
    }

    fn intermediate(
        &self,
        db: &S,
        state: &mut IrState,
        ctx: &CiteContext<O>,
    ) -> (r: Result<IrSum, ProcError>) {
        sequence(
            db,
            state,
            ctx,
            &self.citation.layout.elements,
            String::new(),
            None,
            Affixes::empty(),
            MACRO_DEPTH,
        )
    }
}

impl<S: SubEvaluator<O>, O: OutputFormat> Proc<S, O> for Element {
    open spec fn evaluation(
        &self,
        db: S,
        ctx: CiteContext<O>,
    ) -> Result<crate::proc_spec::Evaluated, crate::proc_spec::ProcErrorModel> {
        eval(*self, db, ctx, MACRO_DEPTH as nat)
    }

    fn intermediate(
        &self,
        db: &S,
        state: &mut IrState,
        ctx: &CiteContext<O>,
    ) -> (r: Result<IrSum, ProcError>) {
        evaluate(self, db, state, ctx, MACRO_DEPTH)
    }
}

} // verus!
