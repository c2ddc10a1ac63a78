//! What becomes of a nested action.
use crate::annotate::{action_name, base_annotations, closure_annotation, forwarding_body};
use crate::ast::{FnDeclV, PatV};
use crate::capture::{captures, first_index, lemma_captures_count, lemma_captures_ordered};
use crate::transform::{
    action_ident, captured, covered, hoisted_item, inner_context, is_action, note_idents,
    visited_fn_decl, visited_params, walked_fn, Context, StateV,
};
use vstd::prelude::*;

verus! {
/// Visiting parameters leaves as many as there were.
proof fn lemma_params_same_len(path: Seq<char>, ctx: Context, st: StateV, ps: Seq<PatV>)
    ensures
        visited_params(path, ctx, st, ps).0.len() == ps.len(),
    decreases ps.len(),
{
    if ps.len() > 0 {
        lemma_params_same_len(path, ctx, st, ps.drop_last());
    }
}

/// A nested action is hoisted. What stays in its place has the name, the parameters
/// and the kind it had, and a body that does nothing but forward to the hoisted
/// function. One item is queued for it: that function, exported. Behind it stand the
/// three annotations of every action and a fourth that lists what it captures: each
/// candidate that occurs in it, once, in the order of first occurrence.
pub proof fn lemma_nested_action_hoisted(path: Seq<char>, ctx: Context, st: StateV, f: FnDeclV)
    requires
        !ctx.top_level,
        is_action(ctx, f),
    ensures
        ({
            let r = visited_fn_decl(path, ctx, st, f);
            let w = walked_fn(path, ctx, st, f);
            let name = action_name(covered(ctx), f.ident.sym);
            let index = w.1.export_actions.len();
            let caps = captured(w.1);
            &&& r.0.ident == f.ident
            &&& r.0.function.params == w.0.params
            &&& r.0.function.params.len() == f.function.params.len()
            &&& r.0.function.is_async == f.function.is_async
            &&& r.0.function.is_generator == f.function.is_generator
            &&& r.0.function.body == Some(forwarding_body(action_ident(name, index), f.ident))
            &&& r.2.extra_items == w.1.extra_items.push(
                hoisted_item(
                    ctx,
                    w.1,
                    f.ident,
                    w.0.body,
                    f.function.is_async,
                    f.function.is_generator,
                    index,
                ),
            )
            &&& r.2.extra_items.last() is ExportFn
            &&& r.1 == base_annotations(f.ident, path, name).push(
                closure_annotation(f.ident, caps),
            )
            &&& caps.len() == w.1.action_idents.to_set().intersect(
                w.1.closure_idents.to_set(),
            ).len()
            &&& forall|i: int, j: int|
                0 <= i < j < caps.len() ==> first_index(w.1.action_idents, caps[i]) < first_index(
                    w.1.action_idents,
                    caps[j],
                )
        }),
{
    let r = visited_fn_decl(path, ctx, st, f);
    let w = walked_fn(path, ctx, st, f);
    let caps = captured(w.1);
    let inner = inner_context(ctx, f);
    lemma_params_same_len(
        path,
        inner,
        note_idents(inner, StateV { action_idents: seq![], ..st }, seq![f.ident]),
        f.function.params,
    );
    assert(r.2.extra_items =~= w.1.extra_items.push(r.2.extra_items.last()));
    lemma_captures_count(w.1.action_idents, w.1.closure_idents);
    assert forall|i: int, j: int| 0 <= i < j < caps.len() implies first_index(
        w.1.action_idents,
        caps[i],
    ) < first_index(w.1.action_idents, caps[j]) by {
        lemma_captures_ordered(w.1.action_idents, w.1.closure_idents, i, j);
    }
}

} // verus!
