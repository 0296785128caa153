//! What holds of the evaluation of every group.

use vstd::prelude::*;
use crate::ir::{GroupVars, IrModel};
use crate::output::OutputFormat;
use crate::proc_spec::{eval, eval_list, SubEvaluator};
use crate::reference::CiteContext;
use crate::style::{Element, Group};

verus! {

/// Where a list evaluates without failure, each of its elements does, and the
/// list is summed up from them: the summary is `OnlyEmpty` exactly where some
/// element is an empty variable and every other is one too or stands for no
/// variable at all; and every node that is not empty is among the nodes of
/// the list.
pub proof fn lemma_list_summary<S: SubEvaluator<O>, O: OutputFormat>(
    els: Seq<Element>,
    n: nat,
    db: S,
    ctx: CiteContext<O>,
    depth: nat,
)
    requires
        n <= els.len(),
        eval_list(els, n, db, ctx, depth) is Ok,
    ensures
        forall|i: int| 0 <= i < n ==> (#[trigger] eval(els[i], db, ctx, depth)) is Ok,
        eval_list(els, n, db, ctx, depth)->Ok_0.group_vars == GroupVars::OnlyEmpty <==> ((exists|
            i: int,
        |
            0 <= i < n && (#[trigger] eval(els[i], db, ctx, depth))->Ok_0.group_vars
                == GroupVars::OnlyEmpty) && (forall|i: int|
            0 <= i < n ==> {
                let gv = (#[trigger] eval(els[i], db, ctx, depth))->Ok_0.group_vars;
                gv == GroupVars::OnlyEmpty || gv == GroupVars::NoneSeen
            })),
        eval_list(els, n, db, ctx, depth)->Ok_0.group_vars == GroupVars::NoneSeen <==> (forall|
            i: int,
        |
            0 <= i < n ==> (#[trigger] eval(els[i], db, ctx, depth))->Ok_0.group_vars
                == GroupVars::NoneSeen),
        forall|i: int|
            0 <= i < n && (#[trigger] eval(els[i], db, ctx, depth))->Ok_0.ir != IrModel::Rendered(
                None,
            ) ==> eval_list(els, n, db, ctx, depth)->Ok_0.nodes.contains(
                eval(els[i], db, ctx, depth)->Ok_0.ir,
            ),
    decreases n,
{
    if n > 0 {
        let m = (n - 1) as nat;
        lemma_list_summary(els, m, db, ctx, depth);
        let front = eval_list(els, m, db, ctx, depth)->Ok_0;
        let list = eval_list(els, n, db, ctx, depth)->Ok_0;
        let last = eval(els[n - 1], db, ctx, depth)->Ok_0;
        assert forall|i: int|
            0 <= i < n && (#[trigger] eval(els[i], db, ctx, depth))->Ok_0.ir != IrModel::Rendered(
                None,
            ) implies list.nodes.contains(eval(els[i], db, ctx, depth)->Ok_0.ir) by {
            let ir = eval(els[i], db, ctx, depth)->Ok_0.ir;
            if i < m {
                assert(front.nodes.contains(ir));
                let k = choose|k: int| 0 <= k < front.nodes.len() && front.nodes[k] == ir;
                assert(list.nodes[k] == ir);
            } else {
                assert(list.nodes[list.nodes.len() - 1] == ir);
            }
        }
        assert(last == eval(els[n - 1], db, ctx, depth)->Ok_0);
        assert(list.group_vars == front.group_vars.joined(last.group_vars));
        // the summary is NoneSeen exactly where every element is
        if list.group_vars == GroupVars::NoneSeen {
            assert forall|i: int| 0 <= i < n implies (#[trigger] eval(
                els[i],
                db,
                ctx,
                depth,
            ))->Ok_0.group_vars == GroupVars::NoneSeen by {
                if i < m {
                } else {
                    assert(i == n - 1);
                }
            }
        }
        if forall|i: int|
            0 <= i < n ==> (#[trigger] eval(els[i], db, ctx, depth))->Ok_0.group_vars
                == GroupVars::NoneSeen {
            assert(eval(els[n - 1], db, ctx, depth)->Ok_0.group_vars == GroupVars::NoneSeen);
            assert(front.group_vars == GroupVars::NoneSeen);
        }
        // the summary is OnlyEmpty exactly where some element is and the others are that or NoneSeen
        if list.group_vars == GroupVars::OnlyEmpty {
            if last.group_vars == GroupVars::OnlyEmpty {
                assert(eval(els[n - 1], db, ctx, depth)->Ok_0.group_vars == GroupVars::OnlyEmpty);
            } else {
                assert(front.group_vars == GroupVars::OnlyEmpty);
                let i = choose|i: int|
                    0 <= i < m && (#[trigger] eval(els[i], db, ctx, depth))->Ok_0.group_vars
                        == GroupVars::OnlyEmpty;
                assert(eval(els[i], db, ctx, depth)->Ok_0.group_vars == GroupVars::OnlyEmpty);
            }
            assert forall|i: int| 0 <= i < n implies {
                let gv = (#[trigger] eval(els[i], db, ctx, depth))->Ok_0.group_vars;
                gv == GroupVars::OnlyEmpty || gv == GroupVars::NoneSeen
            } by {
                if i < m {
                    if front.group_vars == GroupVars::NoneSeen {
                    } else {
                        assert(front.group_vars == GroupVars::OnlyEmpty);
                    }
                } else {
                    assert(i == n - 1);
                }
            }
        }
        if (exists|i: int|
            0 <= i < n && (#[trigger] eval(els[i], db, ctx, depth))->Ok_0.group_vars
                == GroupVars::OnlyEmpty) && (forall|i: int|
            0 <= i < n ==> {
                let gv = (#[trigger] eval(els[i], db, ctx, depth))->Ok_0.group_vars;
                gv == GroupVars::OnlyEmpty || gv == GroupVars::NoneSeen
            }) {
            let w = choose|i: int|
                0 <= i < n && (#[trigger] eval(els[i], db, ctx, depth))->Ok_0.group_vars
                    == GroupVars::OnlyEmpty;
            let gl = eval(els[n - 1], db, ctx, depth)->Ok_0.group_vars;
            assert(gl == GroupVars::OnlyEmpty || gl == GroupVars::NoneSeen);
            assert forall|i: int| 0 <= i < m implies {
                let gv = (#[trigger] eval(els[i], db, ctx, depth))->Ok_0.group_vars;
                gv == GroupVars::OnlyEmpty || gv == GroupVars::NoneSeen
            } by {}
            if w < m {
                assert(eval(els[w], db, ctx, depth)->Ok_0.group_vars == GroupVars::OnlyEmpty);
                assert(front.group_vars == GroupVars::OnlyEmpty);
            } else {
                assert(gl == GroupVars::OnlyEmpty);
                if front.group_vars != GroupVars::OnlyEmpty {
                    // no element before is an empty variable, so all are NoneSeen
                    assert forall|i: int| 0 <= i < m implies (#[trigger] eval(
                        els[i],
                        db,
                        ctx,
                        depth,
                    ))->Ok_0.group_vars == GroupVars::NoneSeen by {
                        let gv = eval(els[i], db, ctx, depth)->Ok_0.group_vars;
                        assert(gv == GroupVars::OnlyEmpty || gv == GroupVars::NoneSeen);
                        if gv == GroupVars::OnlyEmpty {
                            assert(eval(els[i], db, ctx, depth)->Ok_0.group_vars == GroupVars::OnlyEmpty);
                        }
                    }
                    assert(front.group_vars == GroupVars::NoneSeen);
                }
            }
            assert(list.group_vars == GroupVars::OnlyEmpty);
        }
    }
}

/// Group suppression. A group whose elements evaluate without failure is
/// suppressed where their summary is `OnlyEmpty`: it gives no output and the
/// summary `NoneSeen`, whatever its affixes and the literals among its
/// elements. Where the summary is another, it gives the ordered group of all
/// nodes that are not empty, inside its delimiter, formatting and affixes.
pub proof fn lemma_group_suppression<S: SubEvaluator<O>, O: OutputFormat>(
    group: Group,
    db: S,
    ctx: CiteContext<O>,
    depth: nat,
)
    requires
        eval_list(group.elements@, group.elements@.len(), db, ctx, depth) is Ok,
    ensures
        ({
            let list = eval_list(group.elements@, group.elements@.len(), db, ctx, depth)->Ok_0;
            let ev = eval(Element::Group(group), db, ctx, depth);
            &&& ev is Ok
            &&& list.group_vars == GroupVars::OnlyEmpty ==> ev->Ok_0.ir == IrModel::Rendered(None)
                && ev->Ok_0.group_vars == GroupVars::NoneSeen
            &&& list.group_vars != GroupVars::OnlyEmpty ==> ev->Ok_0.ir == (IrModel::Sequence {
                contents: list.nodes,
                formatting: group.formatting,
                affixes: group.affixes@,
                delimiter: group.delimiter@,
            }) && ev->Ok_0.group_vars == list.group_vars
        }),
{
}

/// A group of which every element is an empty variable or stands for no
/// variable, and at least one is an empty variable, gives no output.
pub proof fn lemma_group_of_empty_variables<S: SubEvaluator<O>, O: OutputFormat>(
    group: Group,
    db: S,
    ctx: CiteContext<O>,
    depth: nat,
)
    requires
        eval_list(group.elements@, group.elements@.len(), db, ctx, depth) is Ok,
        exists|i: int|
            0 <= i < group.elements@.len() && (#[trigger] eval(
                group.elements@[i],
                db,
                ctx,
                depth,
            ))->Ok_0.group_vars == GroupVars::OnlyEmpty,
        forall|i: int|
            0 <= i < group.elements@.len() ==> {
                let gv = (#[trigger] eval(group.elements@[i], db, ctx, depth))->Ok_0.group_vars;
                gv == GroupVars::OnlyEmpty || gv == GroupVars::NoneSeen
            },
    ensures
        eval(Element::Group(group), db, ctx, depth) matches Ok(ev) && ev.ir == IrModel::Rendered(
            None,
        ),
{
    lemma_list_summary(group.elements@, group.elements@.len(), db, ctx, depth);
    lemma_group_suppression(group, db, ctx, depth);
}

/// A group with an element that is a rendered variable gives output, and the
/// output holds the node of every element that is not empty, the literals
/// among them.
pub proof fn lemma_group_with_rendered_variable<S: SubEvaluator<O>, O: OutputFormat>(
    group: Group,
    db: S,
    ctx: CiteContext<O>,
    depth: nat,
    k: int,
)
    requires
        eval_list(group.elements@, group.elements@.len(), db, ctx, depth) is Ok,
        0 <= k < group.elements@.len(),
        eval(group.elements@[k], db, ctx, depth)->Ok_0.group_vars == GroupVars::DidRender,
    ensures
        eval(Element::Group(group), db, ctx, depth) matches Ok(ev) && ev.ir matches IrModel::Sequence {
            contents,
            ..
        } && forall|i: int|
            0 <= i < group.elements@.len() && (#[trigger] eval(
                group.elements@[i],
                db,
                ctx,
                depth,
            ))->Ok_0.ir != IrModel::Rendered(None) ==> contents.contains(
                eval(group.elements@[i], db, ctx, depth)->Ok_0.ir,
            ),
{
    lemma_list_summary(group.elements@, group.elements@.len(), db, ctx, depth);
    lemma_group_suppression(group, db, ctx, depth);
    let gv = eval(group.elements@[k], db, ctx, depth)->Ok_0.group_vars;
    assert(!(gv == GroupVars::OnlyEmpty || gv == GroupVars::NoneSeen));
}

} // verus!
