//! An action that is not declared `async` is reported and treated like any other, and
//! what is reported changes nothing for what comes after.
use crate::ast::{
    ExprV, FnDeclV, FunctionV, IdentV, ModuleItemV, ObjectPatPropV, PatV, PropV, StmtV,
    VarDeclaratorV,
};
use crate::transform::{
    body_to_visit, function_context, hoisted_item, inner_context, is_action, note_idents,
    note_key, note_opt_ident, visited_body, visited_declarator, visited_declarators,
    visited_expr, visited_exprs, visited_fn_decl, visited_function, visited_opt_expr,
    visited_opt_pat, visited_opt_pats, visited_param, visited_params, visited_pat,
    visited_pat_prop, visited_pat_props, visited_prop, visited_props, visited_stmt,
    visited_stmts, walked_fn, Context, StateV,
};
use vstd::prelude::*;

verus! {
/// The same declaration, declared `async`.
pub open spec fn declared_async(f: FnDeclV) -> FnDeclV {
    FnDeclV { ident: f.ident, function: FunctionV { is_async: true, ..f.function } }
}

/// An action that is not declared `async` is reported once and otherwise treated as
/// if it were: the declaration that stays, the annotations, the names on record and
/// what is queued are those of the asynchronous declaration, except that the functions
/// are not asynchronous.
pub proof fn lemma_not_async_reported_and_settled(
    path: Seq<char>,
    ctx: Context,
    st: StateV,
    f: FnDeclV,
)
    requires
        is_action(ctx, f),
        !f.function.is_async,
    ensures
        ({
            let r = visited_fn_decl(path, ctx, st, f);
            let a = visited_fn_decl(path, ctx, st, declared_async(f));
            let w = walked_fn(path, ctx, st, f);
            let index = w.1.export_actions.len();
            &&& !r.0.function.is_async
            &&& declared_async(r.0) == a.0
            &&& r.1 == a.1
            &&& r.2.diagnostics == a.2.diagnostics.push(f.ident)
            &&& a.2.diagnostics == w.1.diagnostics
            &&& r.2.has_action == a.2.has_action
            &&& r.2.export_actions == a.2.export_actions
            &&& r.2.closure_idents == a.2.closure_idents
            &&& r.2.action_idents == a.2.action_idents
            &&& ctx.top_level ==> r.2.extra_items == a.2.extra_items
            &&& !ctx.top_level ==> r.2.extra_items == w.1.extra_items.push(
                hoisted_item(ctx, w.1, f.ident, w.0.body, false, f.function.is_generator, index),
            ) && a.2.extra_items == w.1.extra_items.push(
                hoisted_item(ctx, w.1, f.ident, w.0.body, true, f.function.is_generator, index),
            )
        }),
{
    let g = declared_async(f);
    let r = visited_fn_decl(path, ctx, st, f);
    let a = visited_fn_decl(path, ctx, st, g);
    let w = walked_fn(path, ctx, st, f);
    assert(is_action(ctx, g) == is_action(ctx, f));
    assert(inner_context(ctx, g) == inner_context(ctx, f));
    assert(walked_fn(path, ctx, st, g).1 == w.1);
    assert(walked_fn(path, ctx, st, g).0 == FunctionV { is_async: true, ..w.0 });
    assert(declared_async(r.0).function =~= a.0.function);
    if !ctx.top_level {
        assert(r.2.extra_items =~= w.1.extra_items.push(r.2.extra_items.last()));
        assert(a.2.extra_items =~= w.1.extra_items.push(a.2.extra_items.last()));
    } else {
        assert(r.2.extra_items =~= a.2.extra_items);
    }
}

/// The state with other reports and another queue.
pub open spec fn with_output(st: StateV, reports: Seq<IdentV>, queue: Seq<ModuleItemV>) -> StateV {
    StateV { diagnostics: reports, extra_items: queue, ..st }
}

/// `later` is `earlier` run from other reports and another queue: it has added to
/// them what `earlier` added, and is the same otherwise.
pub open spec fn same_but_output(
    start: StateV,
    earlier: StateV,
    reports: Seq<IdentV>,
    queue: Seq<ModuleItemV>,
    later: StateV,
) -> bool {
    &&& start.diagnostics.is_prefix_of(earlier.diagnostics)
    &&& start.extra_items.is_prefix_of(earlier.extra_items)
    &&& later == with_output(
        earlier,
        reports + earlier.diagnostics.skip(start.diagnostics.len() as int),
        queue + earlier.extra_items.skip(start.extra_items.len() as int),
    )
}

proof fn lemma_same_but_output_chain(
    a: StateV,
    b: StateV,
    c: StateV,
    reports: Seq<IdentV>,
    queue: Seq<ModuleItemV>,
    b2: StateV,
    c2: StateV,
)
    requires
        same_but_output(a, b, reports, queue, b2),
        same_but_output(b, c, b2.diagnostics, b2.extra_items, c2),
    ensures
        same_but_output(a, c, reports, queue, c2),
{
    let n = a.diagnostics.len() as int;
    let m = b.diagnostics.len() as int;
    assert(reports + b.diagnostics.skip(n) + c.diagnostics.skip(m) =~= reports + c.diagnostics.skip(
        n,
    ));
    let k = a.extra_items.len() as int;
    let l = b.extra_items.len() as int;
    assert(queue + b.extra_items.skip(k) + c.extra_items.skip(l) =~= queue + c.extra_items.skip(k));
}

proof fn lemma_unchanged_output(
    st: StateV,
    later: StateV,
    reports: Seq<IdentV>,
    queue: Seq<ModuleItemV>,
)
    requires
        later.diagnostics == st.diagnostics,
        later.extra_items == st.extra_items,
    ensures
        same_but_output(st, later, reports, queue, with_output(later, reports, queue)),
{
    let n = st.diagnostics.len() as int;
    assert(reports + later.diagnostics.skip(n) =~= reports);
    let k = st.extra_items.len() as int;
    assert(queue + later.extra_items.skip(k) =~= queue);
}

proof fn lemma_expr_write_only(
    path: Seq<char>,
    ctx: Context,
    st: StateV,
    reports: Seq<IdentV>,
    queue: Seq<ModuleItemV>,
    e: ExprV,
)
    ensures
        ({
            let r = visited_expr(path, ctx, st, e);
            let o = visited_expr(path, ctx, with_output(st, reports, queue), e);
            &&& o.0 == r.0
            &&& same_but_output(st, r.1, reports, queue, o.1)
        }),
    decreases e,
{
    match e {
        ExprV::Array(elems) => {
            lemma_exprs_write_only(path, ctx, st, reports, queue, elems);
        },
        ExprV::Object(props) => {
            lemma_props_write_only(path, ctx, st, reports, queue, props);
        },
        ExprV::Call { callee, args } => {
            lemma_expr_write_only(path, ctx, st, reports, queue, *callee);
            let s1 = visited_expr(path, ctx, st, *callee).1;
            let t1 = visited_expr(path, ctx, with_output(st, reports, queue), *callee).1;
            lemma_exprs_write_only(path, ctx, s1, t1.diagnostics, t1.extra_items, args);
            let s2 = visited_exprs(path, ctx, s1, args).1;
            let t2 = visited_exprs(path, ctx, t1, args).1;
            lemma_same_but_output_chain(st, s1, s2, reports, queue, t1, t2);
        },
        ExprV::Member { obj, prop } => {
            lemma_expr_write_only(path, ctx, st, reports, queue, *obj);
        },
        ExprV::Index { obj, index } => {
            lemma_expr_write_only(path, ctx, st, reports, queue, *obj);
            let s1 = visited_expr(path, ctx, st, *obj).1;
            let t1 = visited_expr(path, ctx, with_output(st, reports, queue), *obj).1;
            lemma_expr_write_only(path, ctx, s1, t1.diagnostics, t1.extra_items, *index);
            let s2 = visited_expr(path, ctx, s1, *index).1;
            let t2 = visited_expr(path, ctx, t1, *index).1;
            lemma_same_but_output_chain(st, s1, s2, reports, queue, t1, t2);
        },
        ExprV::Assign { left, right } => {
            lemma_expr_write_only(path, ctx, st, reports, queue, *left);
            let s1 = visited_expr(path, ctx, st, *left).1;
            let t1 = visited_expr(path, ctx, with_output(st, reports, queue), *left).1;
            lemma_expr_write_only(path, ctx, s1, t1.diagnostics, t1.extra_items, *right);
            let s2 = visited_expr(path, ctx, s1, *right).1;
            let t2 = visited_expr(path, ctx, t1, *right).1;
            lemma_same_but_output_chain(st, s1, s2, reports, queue, t1, t2);
        },
        ExprV::Other { shape, parts } => {
            lemma_exprs_write_only(path, ctx, st, reports, queue, parts);
        },
        ExprV::Function { shape, ident, function } => {
            let s1 = note_opt_ident(ctx, st, ident);
            lemma_function_write_only(path, function_context(ctx), s1, reports, queue, *function);
        },
        _ => {
            lemma_unchanged_output(st, st, reports, queue);
        },
    }
}

proof fn lemma_exprs_write_only(
    path: Seq<char>,
    ctx: Context,
    st: StateV,
    reports: Seq<IdentV>,
    queue: Seq<ModuleItemV>,
    xs: Seq<ExprV>,
)
    ensures
        ({
            let r = visited_exprs(path, ctx, st, xs);
            let o = visited_exprs(path, ctx, with_output(st, reports, queue), xs);
            &&& o.0 == r.0
            &&& same_but_output(st, r.1, reports, queue, o.1)
        }),
    decreases xs,
{
    if xs.len() > 0 {
        let shorter = xs.drop_last();
        lemma_exprs_write_only(path, ctx, st, reports, queue, shorter);
        let before = visited_exprs(path, ctx, st, shorter).1;
        let other = visited_exprs(path, ctx, with_output(st, reports, queue), shorter).1;
        let at = ctx;
        lemma_expr_write_only(
            path,
            at,
            before,
            other.diagnostics,
            other.extra_items,
            xs.last(),
        );
        lemma_same_but_output_chain(
            st,
            before,
            visited_expr(path, at, before, xs.last()).1,
            reports,
            queue,
            other,
            visited_expr(path, at, other, xs.last()).1,
        );
    } else {
        lemma_unchanged_output(st, st, reports, queue);
    }
}

proof fn lemma_opt_expr_write_only(
    path: Seq<char>,
    ctx: Context,
    st: StateV,
    reports: Seq<IdentV>,
    queue: Seq<ModuleItemV>,
    e: Option<ExprV>,
)
    ensures
        ({
            let r = visited_opt_expr(path, ctx, st, e);
            let o = visited_opt_expr(path, ctx, with_output(st, reports, queue), e);
            &&& o.0 == r.0
            &&& same_but_output(st, r.1, reports, queue, o.1)
        }),
    decreases e,
{
    match e {
        Some(x) => {
            lemma_expr_write_only(path, ctx, st, reports, queue, x);
        },
        _ => {
            lemma_unchanged_output(st, st, reports, queue);
        },
    }
}

proof fn lemma_prop_write_only(
    path: Seq<char>,
    ctx: Context,
    st: StateV,
    reports: Seq<IdentV>,
    queue: Seq<ModuleItemV>,
    p: PropV,
)
    ensures
        ({
            let r = visited_prop(path, ctx, st, p);
            let o = visited_prop(path, ctx, with_output(st, reports, queue), p);
            &&& o.0 == r.0
            &&& same_but_output(st, r.1, reports, queue, o.1)
        }),
    decreases p,
{
    match p {
        PropV::KeyValue { key, value } => {
            let s1 = note_key(ctx, st, key);
            lemma_expr_write_only(path, ctx, s1, reports, queue, value);
        },
        _ => {
            lemma_unchanged_output(st, st, reports, queue);
        },
    }
}

proof fn lemma_props_write_only(
    path: Seq<char>,
    ctx: Context,
    st: StateV,
    reports: Seq<IdentV>,
    queue: Seq<ModuleItemV>,
    xs: Seq<PropV>,
)
    ensures
        ({
            let r = visited_props(path, ctx, st, xs);
            let o = visited_props(path, ctx, with_output(st, reports, queue), xs);
            &&& o.0 == r.0
            &&& same_but_output(st, r.1, reports, queue, o.1)
        }),
    decreases xs,
{
    if xs.len() > 0 {
        let shorter = xs.drop_last();
        lemma_props_write_only(path, ctx, st, reports, queue, shorter);
        let before = visited_props(path, ctx, st, shorter).1;
        let other = visited_props(path, ctx, with_output(st, reports, queue), shorter).1;
        let at = ctx;
        lemma_prop_write_only(
            path,
            at,
            before,
            other.diagnostics,
            other.extra_items,
            xs.last(),
        );
        lemma_same_but_output_chain(
            st,
            before,
            visited_prop(path, at, before, xs.last()).1,
            reports,
            queue,
            other,
            visited_prop(path, at, other, xs.last()).1,
        );
    } else {
        lemma_unchanged_output(st, st, reports, queue);
    }
}

proof fn lemma_pat_write_only(
    path: Seq<char>,
    ctx: Context,
    st: StateV,
    reports: Seq<IdentV>,
    queue: Seq<ModuleItemV>,
    p: PatV,
)
    ensures
        ({
            let r = visited_pat(path, ctx, st, p);
            let o = visited_pat(path, ctx, with_output(st, reports, queue), p);
            &&& o.0 == r.0
            &&& same_but_output(st, r.1, reports, queue, o.1)
        }),
    decreases p, 0int,
{
    match p {
        PatV::Array(elems) => {
            lemma_opt_pats_write_only(path, ctx, st, reports, queue, elems);
        },
        PatV::Object(props) => {
            lemma_pat_props_write_only(path, ctx, st, reports, queue, props);
        },
        PatV::Rest(inner) => {
            lemma_pat_write_only(path, ctx, st, reports, queue, *inner);
        },
        PatV::Assign { left, right } => {
            lemma_pat_write_only(path, ctx, st, reports, queue, *left);
            let s1 = visited_pat(path, ctx, st, *left).1;
            let t1 = visited_pat(path, ctx, with_output(st, reports, queue), *left).1;
            lemma_expr_write_only(path, ctx, s1, t1.diagnostics, t1.extra_items, right);
            let s2 = visited_expr(path, ctx, s1, right).1;
            let t2 = visited_expr(path, ctx, t1, right).1;
            lemma_same_but_output_chain(st, s1, s2, reports, queue, t1, t2);
        },
        _ => {
            lemma_unchanged_output(st, st, reports, queue);
        },
    }
}

proof fn lemma_opt_pat_write_only(
    path: Seq<char>,
    ctx: Context,
    st: StateV,
    reports: Seq<IdentV>,
    queue: Seq<ModuleItemV>,
    p: Option<PatV>,
)
    ensures
        ({
            let r = visited_opt_pat(path, ctx, st, p);
            let o = visited_opt_pat(path, ctx, with_output(st, reports, queue), p);
            &&& o.0 == r.0
            &&& same_but_output(st, r.1, reports, queue, o.1)
        }),
    decreases p,
{
    match p {
        Some(x) => {
            lemma_pat_write_only(path, ctx, st, reports, queue, x);
        },
        _ => {
            lemma_unchanged_output(st, st, reports, queue);
        },
    }
}

proof fn lemma_opt_pats_write_only(
    path: Seq<char>,
    ctx: Context,
    st: StateV,
    reports: Seq<IdentV>,
    queue: Seq<ModuleItemV>,
    xs: Seq<Option<PatV>>,
)
    ensures
        ({
            let r = visited_opt_pats(path, ctx, st, xs);
            let o = visited_opt_pats(path, ctx, with_output(st, reports, queue), xs);
            &&& o.0 == r.0
            &&& same_but_output(st, r.1, reports, queue, o.1)
        }),
    decreases xs,
{
    if xs.len() > 0 {
        let shorter = xs.drop_last();
        lemma_opt_pats_write_only(path, ctx, st, reports, queue, shorter);
        let before = visited_opt_pats(path, ctx, st, shorter).1;
        let other = visited_opt_pats(path, ctx, with_output(st, reports, queue), shorter).1;
        let at = ctx;
        lemma_opt_pat_write_only(
            path,
            at,
            before,
            other.diagnostics,
            other.extra_items,
            xs.last(),
        );
        lemma_same_but_output_chain(
            st,
            before,
            visited_opt_pat(path, at, before, xs.last()).1,
            reports,
            queue,
            other,
            visited_opt_pat(path, at, other, xs.last()).1,
        );
    } else {
        lemma_unchanged_output(st, st, reports, queue);
    }
}

proof fn lemma_pat_prop_write_only(
    path: Seq<char>,
    ctx: Context,
    st: StateV,
    reports: Seq<IdentV>,
    queue: Seq<ModuleItemV>,
    p: ObjectPatPropV,
)
    ensures
        ({
            let r = visited_pat_prop(path, ctx, st, p);
            let o = visited_pat_prop(path, ctx, with_output(st, reports, queue), p);
            &&& o.0 == r.0
            &&& same_but_output(st, r.1, reports, queue, o.1)
        }),
    decreases p,
{
    match p {
        ObjectPatPropV::KeyValue { key, value } => {
            let s1 = note_key(ctx, st, key);
            lemma_pat_write_only(path, ctx, s1, reports, queue, value);
        },
        ObjectPatPropV::Assign { key, value } => {
            let s1 = note_idents(ctx, st, seq![key]);
            lemma_opt_expr_write_only(path, ctx, s1, reports, queue, value);
        },
        ObjectPatPropV::Rest(inner) => {
            lemma_pat_write_only(path, ctx, st, reports, queue, inner);
        },
    }
}

proof fn lemma_pat_props_write_only(
    path: Seq<char>,
    ctx: Context,
    st: StateV,
    reports: Seq<IdentV>,
    queue: Seq<ModuleItemV>,
    xs: Seq<ObjectPatPropV>,
)
    ensures
        ({
            let r = visited_pat_props(path, ctx, st, xs);
            let o = visited_pat_props(path, ctx, with_output(st, reports, queue), xs);
            &&& o.0 == r.0
            &&& same_but_output(st, r.1, reports, queue, o.1)
        }),
    decreases xs,
{
    if xs.len() > 0 {
        let shorter = xs.drop_last();
        lemma_pat_props_write_only(path, ctx, st, reports, queue, shorter);
        let before = visited_pat_props(path, ctx, st, shorter).1;
        let other = visited_pat_props(path, ctx, with_output(st, reports, queue), shorter).1;
        let at = ctx;
        lemma_pat_prop_write_only(
            path,
            at,
            before,
            other.diagnostics,
            other.extra_items,
            xs.last(),
        );
        lemma_same_but_output_chain(
            st,
            before,
            visited_pat_prop(path, at, before, xs.last()).1,
            reports,
            queue,
            other,
            visited_pat_prop(path, at, other, xs.last()).1,
        );
    } else {
        lemma_unchanged_output(st, st, reports, queue);
    }
}

proof fn lemma_param_write_only(
    path: Seq<char>,
    ctx: Context,
    st: StateV,
    reports: Seq<IdentV>,
    queue: Seq<ModuleItemV>,
    p: PatV,
)
    ensures
        ({
            let r = visited_param(path, ctx, st, p);
            let o = visited_param(path, ctx, with_output(st, reports, queue), p);
            &&& o.0 == r.0
            &&& same_but_output(st, r.1, reports, queue, o.1)
        }),
    decreases p, 1int,
{
    lemma_pat_write_only(path, ctx, st, reports, queue, p);
}

proof fn lemma_params_write_only(
    path: Seq<char>,
    ctx: Context,
    st: StateV,
    reports: Seq<IdentV>,
    queue: Seq<ModuleItemV>,
    xs: Seq<PatV>,
)
    ensures
        ({
            let r = visited_params(path, ctx, st, xs);
            let o = visited_params(path, ctx, with_output(st, reports, queue), xs);
            &&& o.0 == r.0
            &&& same_but_output(st, r.1, reports, queue, o.1)
        }),
    decreases xs,
{
    if xs.len() > 0 {
        let shorter = xs.drop_last();
        lemma_params_write_only(path, ctx, st, reports, queue, shorter);
        let before = visited_params(path, ctx, st, shorter).1;
        let other = visited_params(path, ctx, with_output(st, reports, queue), shorter).1;
        let at = ctx;
        lemma_param_write_only(
            path,
            at,
            before,
            other.diagnostics,
            other.extra_items,
            xs.last(),
        );
        lemma_same_but_output_chain(
            st,
            before,
            visited_param(path, at, before, xs.last()).1,
            reports,
            queue,
            other,
            visited_param(path, at, other, xs.last()).1,
        );
    } else {
        lemma_unchanged_output(st, st, reports, queue);
    }
}

proof fn lemma_declarator_write_only(
    path: Seq<char>,
    ctx: Context,
    st: StateV,
    reports: Seq<IdentV>,
    queue: Seq<ModuleItemV>,
    d: VarDeclaratorV,
)
    ensures
        ({
            let r = visited_declarator(path, ctx, st, d);
            let o = visited_declarator(path, ctx, with_output(st, reports, queue), d);
            &&& o.0 == r.0
            &&& same_but_output(st, r.1, reports, queue, o.1)
        }),
    decreases d,
{
    lemma_pat_write_only(path, ctx, st, reports, queue, d.name);
    let s1 = visited_pat(path, ctx, st, d.name).1;
    let t1 = visited_pat(path, ctx, with_output(st, reports, queue), d.name).1;
    lemma_opt_expr_write_only(path, ctx, s1, t1.diagnostics, t1.extra_items, d.init);
    let s2 = visited_opt_expr(path, ctx, s1, d.init).1;
    let t2 = visited_opt_expr(path, ctx, t1, d.init).1;
    lemma_same_but_output_chain(st, s1, s2, reports, queue, t1, t2);
}

proof fn lemma_declarators_write_only(
    path: Seq<char>,
    ctx: Context,
    st: StateV,
    reports: Seq<IdentV>,
    queue: Seq<ModuleItemV>,
    xs: Seq<VarDeclaratorV>,
)
    ensures
        ({
            let r = visited_declarators(path, ctx, st, xs);
            let o = visited_declarators(path, ctx, with_output(st, reports, queue), xs);
            &&& o.0 == r.0
            &&& same_but_output(st, r.1, reports, queue, o.1)
        }),
    decreases xs,
{
    if xs.len() > 0 {
        let shorter = xs.drop_last();
        lemma_declarators_write_only(path, ctx, st, reports, queue, shorter);
        let before = visited_declarators(path, ctx, st, shorter).1;
        let other = visited_declarators(path, ctx, with_output(st, reports, queue), shorter).1;
        let at = ctx;
        lemma_declarator_write_only(
            path,
            at,
            before,
            other.diagnostics,
            other.extra_items,
            xs.last(),
        );
        lemma_same_but_output_chain(
            st,
            before,
            visited_declarator(path, at, before, xs.last()).1,
            reports,
            queue,
            other,
            visited_declarator(path, at, other, xs.last()).1,
        );
    } else {
        lemma_unchanged_output(st, st, reports, queue);
    }
}

proof fn lemma_body_write_only(
    path: Seq<char>,
    ctx: Context,
    st: StateV,
    reports: Seq<IdentV>,
    queue: Seq<ModuleItemV>,
    b: Option<Seq<StmtV>>,
)
    ensures
        ({
            let r = visited_body(path, ctx, st, b);
            let o = visited_body(path, ctx, with_output(st, reports, queue), b);
            &&& o.0 == r.0
            &&& same_but_output(st, r.1, reports, queue, o.1)
        }),
    decreases b,
{
    match b {
        Some(ss) => {
            lemma_stmts_write_only(path, ctx, st, reports, queue, ss);
        },
        _ => {
            lemma_unchanged_output(st, st, reports, queue);
        },
    }
}

proof fn lemma_function_write_only(
    path: Seq<char>,
    ctx: Context,
    st: StateV,
    reports: Seq<IdentV>,
    queue: Seq<ModuleItemV>,
    f: FunctionV,
)
    ensures
        ({
            let r = visited_function(path, ctx, st, f);
            let o = visited_function(path, ctx, with_output(st, reports, queue), f);
            &&& o.0 == r.0
            &&& same_but_output(st, r.1, reports, queue, o.1)
        }),
    decreases f,
{
    lemma_params_write_only(path, ctx, st, reports, queue, f.params);
    let s1 = visited_params(path, ctx, st, f.params).1;
    let t1 = visited_params(path, ctx, with_output(st, reports, queue), f.params).1;
    lemma_body_write_only(path, ctx, s1, t1.diagnostics, t1.extra_items, f.body);
    let s2 = visited_body(path, ctx, s1, f.body).1;
    let t2 = visited_body(path, ctx, t1, f.body).1;
    lemma_same_but_output_chain(st, s1, s2, reports, queue, t1, t2);
}

proof fn lemma_stmt_write_only(
    path: Seq<char>,
    ctx: Context,
    st: StateV,
    reports: Seq<IdentV>,
    queue: Seq<ModuleItemV>,
    s: StmtV,
)
    ensures
        ({
            let r = visited_stmt(path, ctx, st, s);
            let o = visited_stmt(path, ctx, with_output(st, reports, queue), s);
            &&& o.0 == r.0
            &&& o.1 == r.1
            &&& same_but_output(st, r.2, reports, queue, o.2)
        }),
    decreases s,
{
    match s {
        StmtV::Expr(e) => {
            lemma_expr_write_only(path, ctx, st, reports, queue, e);
        },
        StmtV::Return(e) => {
            lemma_opt_expr_write_only(path, ctx, st, reports, queue, e);
        },
        StmtV::Var(d) => {
            lemma_declarators_write_only(path, ctx, st, reports, queue, d.decls);
        },
        StmtV::Fn(f) => {
            lemma_fn_write_only(path, ctx, st, reports, queue, f);
        },
        StmtV::Block(b) => {
            lemma_stmts_write_only(path, ctx, st, reports, queue, b);
        },
        StmtV::Other { shape, exprs, body } => {
            lemma_exprs_write_only(path, ctx, st, reports, queue, exprs);
            let s1 = visited_exprs(path, ctx, st, exprs).1;
            let t1 = visited_exprs(path, ctx, with_output(st, reports, queue), exprs).1;
            lemma_stmts_write_only(path, ctx, s1, t1.diagnostics, t1.extra_items, body);
            let s2 = visited_stmts(path, ctx, s1, body).1;
            let t2 = visited_stmts(path, ctx, t1, body).1;
            lemma_same_but_output_chain(st, s1, s2, reports, queue, t1, t2);
        },
        _ => {
            lemma_unchanged_output(st, st, reports, queue);
        },
    }
}

proof fn lemma_stmts_write_only(
    path: Seq<char>,
    ctx: Context,
    st: StateV,
    reports: Seq<IdentV>,
    queue: Seq<ModuleItemV>,
    xs: Seq<StmtV>,
)
    ensures
        ({
            let r = visited_stmts(path, ctx, st, xs);
            let o = visited_stmts(path, ctx, with_output(st, reports, queue), xs);
            &&& o.0 == r.0
            &&& same_but_output(st, r.1, reports, queue, o.1)
        }),
    decreases xs,
{
    if xs.len() > 0 {
        let shorter = xs.drop_last();
        lemma_stmts_write_only(path, ctx, st, reports, queue, shorter);
        let before = visited_stmts(path, ctx, st, shorter).1;
        let other = visited_stmts(path, ctx, with_output(st, reports, queue), shorter).1;
        let at = Context { top_level: false, ..ctx };
        lemma_stmt_write_only(
            path,
            at,
            before,
            other.diagnostics,
            other.extra_items,
            xs.last(),
        );
        lemma_same_but_output_chain(
            st,
            before,
            visited_stmt(path, at, before, xs.last()).2,
            reports,
            queue,
            other,
            visited_stmt(path, at, other, xs.last()).2,
        );
    } else {
        lemma_unchanged_output(st, st, reports, queue);
    }
}

#[verifier::rlimit(40)]
proof fn lemma_walked_write_only(
    path: Seq<char>,
    ctx: Context,
    st: StateV,
    reports: Seq<IdentV>,
    queue: Seq<ModuleItemV>,
    f: FnDeclV,
)
    ensures
        ({
            let w = walked_fn(path, ctx, st, f);
            let o = walked_fn(path, ctx, with_output(st, reports, queue), f);
            &&& o.0 == w.0
            &&& same_but_output(st, w.1, reports, queue, o.1)
        }),
    decreases f, 0int,
{
    let inner = inner_context(ctx, f);
    let other = with_output(st, reports, queue);
    let a1 = note_idents(inner, StateV { action_idents: seq![], ..st }, seq![f.ident]);
    let b1 = note_idents(inner, StateV { action_idents: seq![], ..other }, seq![f.ident]);
    assert(b1 == with_output(a1, reports, queue));
    lemma_params_write_only(path, inner, a1, reports, queue, f.function.params);
    let a2 = visited_params(path, inner, a1, f.function.params);
    let b2 = visited_params(path, inner, b1, f.function.params);
    let w = walked_fn(path, ctx, st, f);
    let w2 = walked_fn(path, ctx, other, f);
    match body_to_visit(ctx, f) {
        Some(ss) => {
            lemma_stmts_write_only(path, inner, a2.1, b2.1.diagnostics, b2.1.extra_items, ss);
            lemma_same_but_output_chain(a1, a2.1, w.1, reports, queue, b2.1, w2.1);
        },
        None => {},
    }
    assert(w2.0 == w.0);
    assert(same_but_output(a1, w.1, reports, queue, w2.1));
}

#[verifier::rlimit(40)]
proof fn lemma_fn_write_only(
    path: Seq<char>,
    ctx: Context,
    st: StateV,
    reports: Seq<IdentV>,
    queue: Seq<ModuleItemV>,
    f: FnDeclV,
)
    ensures
        ({
            let r = visited_fn_decl(path, ctx, st, f);
            let o = visited_fn_decl(path, ctx, with_output(st, reports, queue), f);
            &&& o.0 == r.0
            &&& o.1 == r.1
            &&& same_but_output(st, r.2, reports, queue, o.2)
        }),
    decreases f, 1int,
{
    lemma_walked_write_only(path, ctx, st, reports, queue, f);
    let other = with_output(st, reports, queue);
    let w = walked_fn(path, ctx, st, f);
    let w2 = walked_fn(path, ctx, other, f);
    let r = visited_fn_decl(path, ctx, st, f);
    let r2 = visited_fn_decl(path, ctx, other, f);
    let n = st.diagnostics.len() as int;
    let k = st.extra_items.len() as int;
    assert(r2.0 == r.0);
    assert(r2.1 == r.1);
    assert(r2.2.diagnostics =~= reports + r.2.diagnostics.skip(n));
    assert(r2.2.extra_items =~= queue + r.2.extra_items.skip(k));
    assert(st.diagnostics.is_prefix_of(r.2.diagnostics));
    assert(st.extra_items.is_prefix_of(r.2.extra_items));
}

/// Reports and queued items are only ever written. Whatever has been reported and
/// queued before, a visit leaves the same function declaration and the same
/// annotations, records the same names, candidates and identifiers, and adds the same
/// reports and items. So an action that is reported changes nothing for those after it.
pub proof fn lemma_reports_do_not_matter(
    path: Seq<char>,
    ctx: Context,
    st: StateV,
    reports: Seq<IdentV>,
    queue: Seq<ModuleItemV>,
    f: FnDeclV,
)
    ensures
        ({
            let r = visited_fn_decl(path, ctx, st, f);
            let o = visited_fn_decl(path, ctx, with_output(st, reports, queue), f);
            &&& o.0 == r.0
            &&& o.1 == r.1
            &&& o.2.has_action == r.2.has_action
            &&& o.2.export_actions == r.2.export_actions
            &&& o.2.closure_idents == r.2.closure_idents
            &&& o.2.action_idents == r.2.action_idents
            &&& o.2.diagnostics == reports + r.2.diagnostics.skip(st.diagnostics.len() as int)
            &&& o.2.extra_items == queue + r.2.extra_items.skip(st.extra_items.len() as int)
        }),
{
    lemma_fn_write_only(path, ctx, st, reports, queue, f);
}

} // verus!
