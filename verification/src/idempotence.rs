//! Applying the pass twice.
//!
//! The pass takes away the directives that it consults. Where none is left in its
//! output, a second application finds nothing to do. Two things can leave one behind:
//! a directive that stands directly behind another, and a directive in a function that
//! is an action already because the file is an action file and the function exported.
use crate::annotate::{
    action_name, annotation, base_annotations, capture_array, closure_annotation, export_alias,
    forwarding_body, type_marker,
};
use crate::ast::{
    plain_ident, ExprV, FnDeclV, FunctionV, IdentV, ModuleItemV, ModuleV, ObjectPatPropV, PatV,
    PropV, StmtV, VarDeclaratorV,
};
use crate::capture::first_index;
use crate::directive::{
    is_directive, items_start_with_directive, items_without_directive, starts_with_directive,
    without_directive,
};
use crate::rewrite::{
    capture_read, replace_body, replace_declarator, replace_declarators, replace_expr,
    replace_exprs, replace_function, replace_opt_expr, replace_opt_pat, replace_opt_pats,
    replace_pat, replace_pat_prop, replace_pat_props, replace_pats, replace_prop, replace_props,
    replace_stmt, replace_stmts,
};
use crate::transform::{
    action_ident, annotations_of, body_to_visit, captured, closure_arg, covered,
    function_context, has_own_directive, hoisted_item, initial_state, inner_context, is_action,
    module_context, note_idents, note_key, note_opt_ident, settled_action, stmts_as_items,
    transformed, visited_body, visited_declarator, visited_declarators, visited_expr,
    visited_exprs, visited_fn_decl, visited_function, visited_item, visited_items,
    visited_opt_expr, visited_opt_pat, visited_opt_pats, visited_param, visited_params,
    visited_pat, visited_pat_prop, visited_pat_props, visited_prop, visited_props, visited_stmt,
    visited_stmts, walked_fn, Context, StateV, TransformedV,
};
use vstd::prelude::*;

verus! {

/// Whether a function declaration holds no function declaration whose body starts with
/// the directive, at any depth, and is none itself.
pub open spec fn directive_free_fn(f: FnDeclV) -> bool
    decreases f,
{
    &&& directive_free_function(f.function)
    &&& f.function.body is Some ==> !starts_with_directive(f.function.body->0)
}

pub open spec fn directive_free_expr(e: ExprV) -> bool
    decreases e,
{
    match e {
        ExprV::Array(elems) => directive_free_exprs(elems),
        ExprV::Object(props) => directive_free_props(props),
        ExprV::Call { callee, args } => directive_free_expr(*callee) && directive_free_exprs(args),
        ExprV::Member { obj, prop } => directive_free_expr(*obj),
        ExprV::Index { obj, index } => directive_free_expr(*obj) && directive_free_expr(*index),
        ExprV::Assign { left, right } => directive_free_expr(*left) && directive_free_expr(*right),
        ExprV::Other { shape, parts } => directive_free_exprs(parts),
        ExprV::Function { shape, ident, function } => directive_free_function(*function),
        _ => true,
    }
}

pub open spec fn directive_free_exprs(xs: Seq<ExprV>) -> bool
    decreases xs,
{
    forall|i: int| 0 <= i < xs.len() ==> directive_free_expr(#[trigger] xs[i])
}

pub open spec fn directive_free_opt_expr(e: Option<ExprV>) -> bool
    decreases e,
{
    match e {
        Some(x) => directive_free_expr(x),
        _ => true,
    }
}

pub open spec fn directive_free_prop(p: PropV) -> bool
    decreases p,
{
    match p {
        PropV::KeyValue { key, value } => directive_free_expr(value),
        _ => true,
    }
}

pub open spec fn directive_free_props(xs: Seq<PropV>) -> bool
    decreases xs,
{
    forall|i: int| 0 <= i < xs.len() ==> directive_free_prop(#[trigger] xs[i])
}

pub open spec fn directive_free_pat(p: PatV) -> bool
    decreases p, 0int,
{
    match p {
        PatV::Array(elems) => directive_free_opt_pats(elems),
        PatV::Object(props) => directive_free_pat_props(props),
        PatV::Rest(inner) => directive_free_pat(*inner),
        PatV::Assign { left, right } => directive_free_pat(*left) && directive_free_expr(right),
        _ => true,
    }
}

pub open spec fn directive_free_opt_pat(p: Option<PatV>) -> bool
    decreases p,
{
    match p {
        Some(x) => directive_free_pat(x),
        _ => true,
    }
}

pub open spec fn directive_free_opt_pats(xs: Seq<Option<PatV>>) -> bool
    decreases xs,
{
    forall|i: int| 0 <= i < xs.len() ==> directive_free_opt_pat(#[trigger] xs[i])
}

pub open spec fn directive_free_pat_prop(p: ObjectPatPropV) -> bool
    decreases p,
{
    match p {
        ObjectPatPropV::KeyValue { key, value } => directive_free_pat(value),
        ObjectPatPropV::Assign { key, value } => directive_free_opt_expr(value),
        ObjectPatPropV::Rest(inner) => directive_free_pat(inner),
    }
}

pub open spec fn directive_free_pat_props(xs: Seq<ObjectPatPropV>) -> bool
    decreases xs,
{
    forall|i: int| 0 <= i < xs.len() ==> directive_free_pat_prop(#[trigger] xs[i])
}

pub open spec fn directive_free_param(p: PatV) -> bool
    decreases p, 1int,
{
    directive_free_pat(p)
}

pub open spec fn directive_free_params(xs: Seq<PatV>) -> bool
    decreases xs,
{
    forall|i: int| 0 <= i < xs.len() ==> directive_free_param(#[trigger] xs[i])
}

pub open spec fn directive_free_declarator(d: VarDeclaratorV) -> bool
    decreases d,
{
    directive_free_pat(d.name) && directive_free_opt_expr(d.init)
}

pub open spec fn directive_free_declarators(xs: Seq<VarDeclaratorV>) -> bool
    decreases xs,
{
    forall|i: int| 0 <= i < xs.len() ==> directive_free_declarator(#[trigger] xs[i])
}

pub open spec fn directive_free_body(b: Option<Seq<StmtV>>) -> bool
    decreases b,
{
    match b {
        Some(ss) => directive_free_stmts(ss),
        _ => true,
    }
}

pub open spec fn directive_free_function(f: FunctionV) -> bool
    decreases f,
{
    directive_free_params(f.params) && directive_free_body(f.body)
}

pub open spec fn directive_free_stmt(s: StmtV) -> bool
    decreases s,
{
    match s {
        StmtV::Expr(e) => directive_free_expr(e),
        StmtV::Return(e) => directive_free_opt_expr(e),
        StmtV::Var(d) => directive_free_declarators(d.decls),
        StmtV::Fn(f) => directive_free_fn(f),
        StmtV::Block(b) => directive_free_stmts(b),
        StmtV::Other { shape, exprs, body } => {
            directive_free_exprs(exprs)
                && directive_free_stmts(body)
        },
        _ => true,
    }
}

pub open spec fn directive_free_stmts(xs: Seq<StmtV>) -> bool
    decreases xs,
{
    forall|i: int| 0 <= i < xs.len() ==> directive_free_stmt(#[trigger] xs[i])
}

pub open spec fn directive_free_item(item: ModuleItemV) -> bool {
    match item {
        ModuleItemV::Stmt(s) => directive_free_stmt(s),
        ModuleItemV::ExportFn(f) => directive_free_fn(f),
        ModuleItemV::ExportVar(d) => directive_free_declarators(d.decls),
        ModuleItemV::Opaque(_) => true,
    }
}

pub open spec fn directive_free_items(items: Seq<ModuleItemV>) -> bool {
    forall|i: int| 0 <= i < items.len() ==> directive_free_item(#[trigger] items[i])
}

/// Whether the directive stands nowhere the pass looks for it: not at the head of the
/// module, and not at the head of the body of any function declaration.
pub open spec fn directive_free(m: ModuleV) -> bool {
    !items_start_with_directive(m.body) && directive_free_items(m.body)
}

/// `later` differs from `earlier` in nothing but the candidates for capture.
pub open spec fn only_candidates_differ(earlier: StateV, later: StateV) -> bool {
    later == (StateV { closure_idents: later.closure_idents, ..earlier })
}

proof fn lemma_expr_untouched(path: Seq<char>, ctx: Context, st: StateV, e: ExprV)
    requires
        !ctx.in_action_file,
        !ctx.in_action_fn,
        directive_free_expr(e),
    ensures
        visited_expr(path, ctx, st, e).0 == e,
        only_candidates_differ(st, visited_expr(path, ctx, st, e).1),
    decreases e,
{
    match e {
        ExprV::Array(elems) => {
            lemma_exprs_untouched(path, ctx, st, elems);
        },
        ExprV::Object(props) => {
            lemma_props_untouched(path, ctx, st, props);
        },
        ExprV::Call { callee, args } => {
            lemma_expr_untouched(path, ctx, st, *callee);
            let s1 = visited_expr(path, ctx, st, *callee).1;
            lemma_exprs_untouched(path, ctx, s1, args);
        },
        ExprV::Member { obj, prop } => {
            lemma_expr_untouched(path, ctx, st, *obj);
        },
        ExprV::Index { obj, index } => {
            lemma_expr_untouched(path, ctx, st, *obj);
            let s1 = visited_expr(path, ctx, st, *obj).1;
            lemma_expr_untouched(path, ctx, s1, *index);
        },
        ExprV::Assign { left, right } => {
            lemma_expr_untouched(path, ctx, st, *left);
            let s1 = visited_expr(path, ctx, st, *left).1;
            lemma_expr_untouched(path, ctx, s1, *right);
        },
        ExprV::Other { shape, parts } => {
            lemma_exprs_untouched(path, ctx, st, parts);
        },
        ExprV::Function { shape, ident, function } => {
            let s1 = note_opt_ident(ctx, st, ident);
            lemma_function_untouched(path, function_context(ctx), s1, *function);
        },
        _ => {},
    }
}

proof fn lemma_opt_expr_untouched(path: Seq<char>, ctx: Context, st: StateV, e: Option<ExprV>)
    requires
        !ctx.in_action_file,
        !ctx.in_action_fn,
        directive_free_opt_expr(e),
    ensures
        visited_opt_expr(path, ctx, st, e).0 == e,
        only_candidates_differ(st, visited_opt_expr(path, ctx, st, e).1),
    decreases e,
{
    match e {
        Some(x) => {
            lemma_expr_untouched(path, ctx, st, x);
        },
        _ => {},
    }
}

proof fn lemma_prop_untouched(path: Seq<char>, ctx: Context, st: StateV, p: PropV)
    requires
        !ctx.in_action_file,
        !ctx.in_action_fn,
        directive_free_prop(p),
    ensures
        visited_prop(path, ctx, st, p).0 == p,
        only_candidates_differ(st, visited_prop(path, ctx, st, p).1),
    decreases p,
{
    match p {
        PropV::KeyValue { key, value } => {
            let s1 = note_key(ctx, st, key);
            lemma_expr_untouched(path, ctx, s1, value);
        },
        _ => {},
    }
}

proof fn lemma_pat_untouched(path: Seq<char>, ctx: Context, st: StateV, p: PatV)
    requires
        !ctx.in_action_file,
        !ctx.in_action_fn,
        directive_free_pat(p),
    ensures
        visited_pat(path, ctx, st, p).0 == p,
        only_candidates_differ(st, visited_pat(path, ctx, st, p).1),
    decreases p, 0int,
{
    match p {
        PatV::Array(elems) => {
            lemma_opt_pats_untouched(path, ctx, st, elems);
        },
        PatV::Object(props) => {
            lemma_pat_props_untouched(path, ctx, st, props);
        },
        PatV::Rest(inner) => {
            lemma_pat_untouched(path, ctx, st, *inner);
        },
        PatV::Assign { left, right } => {
            lemma_pat_untouched(path, ctx, st, *left);
            let s1 = visited_pat(path, ctx, st, *left).1;
            lemma_expr_untouched(path, ctx, s1, right);
        },
        _ => {},
    }
}

proof fn lemma_opt_pat_untouched(path: Seq<char>, ctx: Context, st: StateV, p: Option<PatV>)
    requires
        !ctx.in_action_file,
        !ctx.in_action_fn,
        directive_free_opt_pat(p),
    ensures
        visited_opt_pat(path, ctx, st, p).0 == p,
        only_candidates_differ(st, visited_opt_pat(path, ctx, st, p).1),
    decreases p,
{
    match p {
        Some(x) => {
            lemma_pat_untouched(path, ctx, st, x);
        },
        _ => {},
    }
}

proof fn lemma_pat_prop_untouched(path: Seq<char>, ctx: Context, st: StateV, p: ObjectPatPropV)
    requires
        !ctx.in_action_file,
        !ctx.in_action_fn,
        directive_free_pat_prop(p),
    ensures
        visited_pat_prop(path, ctx, st, p).0 == p,
        only_candidates_differ(st, visited_pat_prop(path, ctx, st, p).1),
    decreases p,
{
    match p {
        ObjectPatPropV::KeyValue { key, value } => {
            let s1 = note_key(ctx, st, key);
            lemma_pat_untouched(path, ctx, s1, value);
        },
        ObjectPatPropV::Assign { key, value } => {
            let s1 = note_idents(ctx, st, seq![key]);
            lemma_opt_expr_untouched(path, ctx, s1, value);
        },
        ObjectPatPropV::Rest(inner) => {
            lemma_pat_untouched(path, ctx, st, inner);
        },
    }
}

proof fn lemma_param_untouched(path: Seq<char>, ctx: Context, st: StateV, p: PatV)
    requires
        !ctx.in_action_file,
        !ctx.in_action_fn,
        directive_free_param(p),
    ensures
        visited_param(path, ctx, st, p).0 == p,
        only_candidates_differ(st, visited_param(path, ctx, st, p).1),
    decreases p, 1int,
{
    lemma_pat_untouched(path, ctx, st, p);
}

proof fn lemma_declarator_untouched(path: Seq<char>, ctx: Context, st: StateV, d: VarDeclaratorV)
    requires
        !ctx.in_action_file,
        !ctx.in_action_fn,
        directive_free_declarator(d),
    ensures
        visited_declarator(path, ctx, st, d).0 == d,
        only_candidates_differ(st, visited_declarator(path, ctx, st, d).1),
    decreases d,
{
    lemma_pat_untouched(path, ctx, st, d.name);
    let s1 = visited_pat(path, ctx, st, d.name).1;
    lemma_opt_expr_untouched(path, ctx, s1, d.init);
}

proof fn lemma_body_untouched(path: Seq<char>, ctx: Context, st: StateV, b: Option<Seq<StmtV>>)
    requires
        !ctx.in_action_file,
        !ctx.in_action_fn,
        directive_free_body(b),
    ensures
        visited_body(path, ctx, st, b).0 == b,
        only_candidates_differ(st, visited_body(path, ctx, st, b).1),
    decreases b,
{
    match b {
        Some(ss) => {
            lemma_stmts_untouched(path, ctx, st, ss);
        },
        _ => {},
    }
}

proof fn lemma_function_untouched(path: Seq<char>, ctx: Context, st: StateV, f: FunctionV)
    requires
        !ctx.in_action_file,
        !ctx.in_action_fn,
        directive_free_function(f),
    ensures
        visited_function(path, ctx, st, f).0 == f,
        only_candidates_differ(st, visited_function(path, ctx, st, f).1),
    decreases f,
{
    lemma_params_untouched(path, ctx, st, f.params);
    let s1 = visited_params(path, ctx, st, f.params).1;
    lemma_body_untouched(path, ctx, s1, f.body);
}

proof fn lemma_stmt_untouched(path: Seq<char>, ctx: Context, st: StateV, s: StmtV)
    requires
        !ctx.in_action_file,
        !ctx.in_action_fn,
        directive_free_stmt(s),
    ensures
        visited_stmt(path, ctx, st, s).0 == s,
        visited_stmt(path, ctx, st, s).1 == Seq::<StmtV>::empty(),
        only_candidates_differ(st, visited_stmt(path, ctx, st, s).2),
    decreases s,
{
    match s {
        StmtV::Expr(e) => {
            lemma_expr_untouched(path, ctx, st, e);
        },
        StmtV::Return(e) => {
            lemma_opt_expr_untouched(path, ctx, st, e);
        },
        StmtV::Var(d) => {
            lemma_declarators_untouched(path, ctx, st, d.decls);
        },
        StmtV::Fn(f) => {
            lemma_fn_untouched(path, ctx, st, f);
        },
        StmtV::Block(b) => {
            lemma_stmts_untouched(path, ctx, st, b);
        },
        StmtV::Other { shape, exprs, body } => {
            lemma_exprs_untouched(path, ctx, st, exprs);
            let s1 = visited_exprs(path, ctx, st, exprs).1;
            lemma_stmts_untouched(path, ctx, s1, body);
        },
        _ => {},
    }
}

proof fn lemma_exprs_untouched(path: Seq<char>, ctx: Context, st: StateV, xs: Seq<ExprV>)
    requires
        !ctx.in_action_file,
        !ctx.in_action_fn,
        directive_free_exprs(xs),
    ensures
        visited_exprs(path, ctx, st, xs).0 == xs,
        only_candidates_differ(st, visited_exprs(path, ctx, st, xs).1),
    decreases xs,
{
    if xs.len() > 0 {
        let shorter = xs.drop_last();
        assert forall|i: int| 0 <= i < shorter.len() implies directive_free_expr(
            #[trigger] shorter[i],
        ) by {
            assert(directive_free_expr(xs[i]));
        }
        assert(directive_free_expr(xs[xs.len() - 1]));
        lemma_exprs_untouched(path, ctx, st, shorter);
        let before = visited_exprs(path, ctx, st, shorter).1;
        lemma_expr_untouched(path, ctx, before, xs.last());
    }
    assert(visited_exprs(path, ctx, st, xs).0 =~= xs);
}

proof fn lemma_props_untouched(path: Seq<char>, ctx: Context, st: StateV, xs: Seq<PropV>)
    requires
        !ctx.in_action_file,
        !ctx.in_action_fn,
        directive_free_props(xs),
    ensures
        visited_props(path, ctx, st, xs).0 == xs,
        only_candidates_differ(st, visited_props(path, ctx, st, xs).1),
    decreases xs,
{
    if xs.len() > 0 {
        let shorter = xs.drop_last();
        assert forall|i: int| 0 <= i < shorter.len() implies directive_free_prop(
            #[trigger] shorter[i],
        ) by {
            assert(directive_free_prop(xs[i]));
        }
        assert(directive_free_prop(xs[xs.len() - 1]));
        lemma_props_untouched(path, ctx, st, shorter);
        let before = visited_props(path, ctx, st, shorter).1;
        lemma_prop_untouched(path, ctx, before, xs.last());
    }
    assert(visited_props(path, ctx, st, xs).0 =~= xs);
}

proof fn lemma_opt_pats_untouched(path: Seq<char>, ctx: Context, st: StateV, xs: Seq<Option<PatV>>)
    requires
        !ctx.in_action_file,
        !ctx.in_action_fn,
        directive_free_opt_pats(xs),
    ensures
        visited_opt_pats(path, ctx, st, xs).0 == xs,
        only_candidates_differ(st, visited_opt_pats(path, ctx, st, xs).1),
    decreases xs,
{
    if xs.len() > 0 {
        let shorter = xs.drop_last();
        assert forall|i: int| 0 <= i < shorter.len() implies directive_free_opt_pat(
            #[trigger] shorter[i],
        ) by {
            assert(directive_free_opt_pat(xs[i]));
        }
        assert(directive_free_opt_pat(xs[xs.len() - 1]));
        lemma_opt_pats_untouched(path, ctx, st, shorter);
        let before = visited_opt_pats(path, ctx, st, shorter).1;
        lemma_opt_pat_untouched(path, ctx, before, xs.last());
    }
    assert(visited_opt_pats(path, ctx, st, xs).0 =~= xs);
}

proof fn lemma_pat_props_untouched(
    path: Seq<char>,
    ctx: Context,
    st: StateV,
    xs: Seq<ObjectPatPropV>,
)
    requires
        !ctx.in_action_file,
        !ctx.in_action_fn,
        directive_free_pat_props(xs),
    ensures
        visited_pat_props(path, ctx, st, xs).0 == xs,
        only_candidates_differ(st, visited_pat_props(path, ctx, st, xs).1),
    decreases xs,
{
    if xs.len() > 0 {
        let shorter = xs.drop_last();
        assert forall|i: int| 0 <= i < shorter.len() implies directive_free_pat_prop(
            #[trigger] shorter[i],
        ) by {
            assert(directive_free_pat_prop(xs[i]));
        }
        assert(directive_free_pat_prop(xs[xs.len() - 1]));
        lemma_pat_props_untouched(path, ctx, st, shorter);
        let before = visited_pat_props(path, ctx, st, shorter).1;
        lemma_pat_prop_untouched(path, ctx, before, xs.last());
    }
    assert(visited_pat_props(path, ctx, st, xs).0 =~= xs);
}

proof fn lemma_params_untouched(path: Seq<char>, ctx: Context, st: StateV, xs: Seq<PatV>)
    requires
        !ctx.in_action_file,
        !ctx.in_action_fn,
        directive_free_params(xs),
    ensures
        visited_params(path, ctx, st, xs).0 == xs,
        only_candidates_differ(st, visited_params(path, ctx, st, xs).1),
    decreases xs,
{
    if xs.len() > 0 {
        let shorter = xs.drop_last();
        assert forall|i: int| 0 <= i < shorter.len() implies directive_free_param(
            #[trigger] shorter[i],
        ) by {
            assert(directive_free_param(xs[i]));
        }
        assert(directive_free_param(xs[xs.len() - 1]));
        lemma_params_untouched(path, ctx, st, shorter);
        let before = visited_params(path, ctx, st, shorter).1;
        lemma_param_untouched(path, ctx, before, xs.last());
    }
    assert(visited_params(path, ctx, st, xs).0 =~= xs);
}

proof fn lemma_declarators_untouched(
    path: Seq<char>,
    ctx: Context,
    st: StateV,
    xs: Seq<VarDeclaratorV>,
)
    requires
        !ctx.in_action_file,
        !ctx.in_action_fn,
        directive_free_declarators(xs),
    ensures
        visited_declarators(path, ctx, st, xs).0 == xs,
        only_candidates_differ(st, visited_declarators(path, ctx, st, xs).1),
    decreases xs,
{
    if xs.len() > 0 {
        let shorter = xs.drop_last();
        assert forall|i: int| 0 <= i < shorter.len() implies directive_free_declarator(
            #[trigger] shorter[i],
        ) by {
            assert(directive_free_declarator(xs[i]));
        }
        assert(directive_free_declarator(xs[xs.len() - 1]));
        lemma_declarators_untouched(path, ctx, st, shorter);
        let before = visited_declarators(path, ctx, st, shorter).1;
        lemma_declarator_untouched(path, ctx, before, xs.last());
    }
    assert(visited_declarators(path, ctx, st, xs).0 =~= xs);
}

proof fn lemma_stmts_untouched(path: Seq<char>, ctx: Context, st: StateV, xs: Seq<StmtV>)
    requires
        !ctx.in_action_file,
        !ctx.in_action_fn,
        directive_free_stmts(xs),
    ensures
        visited_stmts(path, ctx, st, xs).0 == xs,
        only_candidates_differ(st, visited_stmts(path, ctx, st, xs).1),
    decreases xs,
{
    if xs.len() > 0 {
        let shorter = xs.drop_last();
        assert forall|i: int| 0 <= i < shorter.len() implies directive_free_stmt(
            #[trigger] shorter[i],
        ) by {
            assert(directive_free_stmt(xs[i]));
        }
        assert(directive_free_stmt(xs[xs.len() - 1]));
        lemma_stmts_untouched(path, ctx, st, shorter);
        let before = visited_stmts(path, ctx, st, shorter).1;
        lemma_stmt_untouched(
            path,
            Context { top_level: false, ..ctx },
            before,
            xs.last(),
        );
    }
    assert(visited_stmts(path, ctx, st, xs).0 =~= xs);
}

proof fn lemma_fn_untouched(path: Seq<char>, ctx: Context, st: StateV, f: FnDeclV)
    requires
        !ctx.in_action_file,
        !ctx.in_action_fn,
        directive_free_fn(f),
    ensures
        visited_fn_decl(path, ctx, st, f).0 == f,
        visited_fn_decl(path, ctx, st, f).1 == Seq::<StmtV>::empty(),
        only_candidates_differ(st, visited_fn_decl(path, ctx, st, f).2),
    decreases f,
{
    let inner = inner_context(ctx, f);
    assert(!is_action(ctx, f));
    let st0 = StateV { action_idents: seq![], ..st };
    let st1 = note_idents(inner, st0, seq![f.ident]);
    assert(directive_free_function(f.function));
    assert(directive_free_params(f.function.params));
    assert(directive_free_body(f.function.body));
    lemma_params_untouched(path, inner, st1, f.function.params);
    let p = visited_params(path, inner, st1, f.function.params);
    if f.function.body is Some {
        lemma_stmts_untouched(path, inner, p.1, f.function.body->0);
    }
    let w = walked_fn(path, ctx, st, f);
    assert(w.0 == f.function);
    assert(w.1.action_idents =~= Seq::<IdentV>::empty());
    assert(st.action_idents + w.1.action_idents =~= st.action_idents);
}

proof fn lemma_items_untouched(path: Seq<char>, ctx: Context, st: StateV, items: Seq<ModuleItemV>)
    requires
        !ctx.in_action_file,
        !ctx.in_action_fn,
        st.extra_items == Seq::<ModuleItemV>::empty(),
        directive_free_items(items),
    ensures
        visited_items(path, ctx, st, items).0 == items,
        only_candidates_differ(st, visited_items(path, ctx, st, items).1),
    decreases items.len(),
{
    if items.len() > 0 {
        assert forall|i: int| 0 <= i < items.drop_last().len() implies directive_free_item(
            #[trigger] items.drop_last()[i],
        ) by {
            assert(directive_free_item(items[i]));
        }
        assert(directive_free_item(items[items.len() - 1]));
        lemma_items_untouched(path, ctx, st, items.drop_last());
        let before = visited_items(path, ctx, st, items.drop_last());
        let at = Context { top_level: true, ..ctx };
        let exported = Context { in_export_decl: true, ..at };
        match items.last() {
            ModuleItemV::Stmt(s) => {
                lemma_stmt_untouched(path, at, before.1, s);
            },
            ModuleItemV::ExportFn(f) => {
                lemma_fn_untouched(path, exported, before.1, f);
            },
            ModuleItemV::ExportVar(d) => {
                lemma_declarators_untouched(path, exported, before.1, d.decls);
            },
            ModuleItemV::Opaque(_) => {},
        }
        let last = visited_item(path, at, before.1, items.last());
        assert(last.0 == items.last());
        assert(stmts_as_items(last.1) =~= Seq::<ModuleItemV>::empty());
        assert(visited_items(path, ctx, st, items).0 =~= items);
    } else {
        assert(visited_items(path, ctx, st, items).0 =~= items);
    }
}

/// The pass leaves a module alone in which the directive stands nowhere the pass looks
/// for it: the module comes back as it was, without a marker comment or a report.
pub proof fn lemma_directive_free_untouched(path: Seq<char>, m: ModuleV)
    requires
        directive_free(m),
    ensures
        transformed(path, m) == (TransformedV { module: m, comment: None, diagnostics: seq![] }),
{
    lemma_items_untouched(path, module_context(m.body), initial_state(), m.body);
    assert(StateV { has_action: false, ..initial_state() } == initial_state());
}

/// Applying the pass to its own output changes nothing, where that output no longer
/// holds the directive in a place where the pass looks for it.
pub proof fn lemma_second_pass_changes_nothing(path: Seq<char>, m: ModuleV)
    requires
        directive_free(transformed(path, m).module),
    ensures
        transformed(path, transformed(path, m).module).module == transformed(path, m).module,
        transformed(path, transformed(path, m).module).comment is None,
        transformed(path, transformed(path, m).module).diagnostics == Seq::<IdentV>::empty(),
{
    lemma_directive_free_untouched(path, transformed(path, m).module);
}

/// Whether the directives that the pass consults in a function declaration, and in
/// what is inside it, stand alone. `exported` says whether the declaration is, or
/// stands inside, a function that an action file exports as it stands: there the pass
/// consults no directive, so the body must not start with one; elsewhere the body must
/// not start with two.
pub open spec fn marked_once_fn(exported: bool, f: FnDeclV) -> bool
    decreases f,
{
    &&& marked_once_function(exported, f.function)
    &&& f.function.body is Some ==> if exported {
        !starts_with_directive(f.function.body->0)
    } else {
        !starts_with_directive(without_directive(f.function.body->0))
    }
}

pub open spec fn marked_once_expr(exported: bool, e: ExprV) -> bool
    decreases e,
{
    match e {
        ExprV::Array(elems) => marked_once_exprs(exported, elems),
        ExprV::Object(props) => marked_once_props(exported, props),
        ExprV::Call { callee, args } => {
            marked_once_expr(exported, *callee)
                && marked_once_exprs(exported, args)
        },
        ExprV::Member { obj, prop } => marked_once_expr(exported, *obj),
        ExprV::Index { obj, index } => {
            marked_once_expr(exported, *obj)
                && marked_once_expr(exported, *index)
        },
        ExprV::Assign { left, right } => {
            marked_once_expr(exported, *left)
                && marked_once_expr(exported, *right)
        },
        ExprV::Other { shape, parts } => marked_once_exprs(exported, parts),
        ExprV::Function { shape, ident, function } => marked_once_function(exported, *function),
        _ => true,
    }
}

pub open spec fn marked_once_exprs(exported: bool, xs: Seq<ExprV>) -> bool
    decreases xs,
{
    forall|i: int| 0 <= i < xs.len() ==> marked_once_expr(exported, #[trigger] xs[i])
}

pub open spec fn marked_once_opt_expr(exported: bool, e: Option<ExprV>) -> bool
    decreases e,
{
    match e {
        Some(x) => marked_once_expr(exported, x),
        _ => true,
    }
}

pub open spec fn marked_once_prop(exported: bool, p: PropV) -> bool
    decreases p,
{
    match p {
        PropV::KeyValue { key, value } => marked_once_expr(exported, value),
        _ => true,
    }
}

pub open spec fn marked_once_props(exported: bool, xs: Seq<PropV>) -> bool
    decreases xs,
{
    forall|i: int| 0 <= i < xs.len() ==> marked_once_prop(exported, #[trigger] xs[i])
}

pub open spec fn marked_once_pat(exported: bool, p: PatV) -> bool
    decreases p, 0int,
{
    match p {
        PatV::Array(elems) => marked_once_opt_pats(exported, elems),
        PatV::Object(props) => marked_once_pat_props(exported, props),
        PatV::Rest(inner) => marked_once_pat(exported, *inner),
        PatV::Assign { left, right } => {
            marked_once_pat(exported, *left)
                && marked_once_expr(exported, right)
        },
        _ => true,
    }
}

pub open spec fn marked_once_opt_pat(exported: bool, p: Option<PatV>) -> bool
    decreases p,
{
    match p {
        Some(x) => marked_once_pat(exported, x),
        _ => true,
    }
}

pub open spec fn marked_once_opt_pats(exported: bool, xs: Seq<Option<PatV>>) -> bool
    decreases xs,
{
    forall|i: int| 0 <= i < xs.len() ==> marked_once_opt_pat(exported, #[trigger] xs[i])
}

pub open spec fn marked_once_pat_prop(exported: bool, p: ObjectPatPropV) -> bool
    decreases p,
{
    match p {
        ObjectPatPropV::KeyValue { key, value } => marked_once_pat(exported, value),
        ObjectPatPropV::Assign { key, value } => marked_once_opt_expr(exported, value),
        ObjectPatPropV::Rest(inner) => marked_once_pat(exported, inner),
    }
}

pub open spec fn marked_once_pat_props(exported: bool, xs: Seq<ObjectPatPropV>) -> bool
    decreases xs,
{
    forall|i: int| 0 <= i < xs.len() ==> marked_once_pat_prop(exported, #[trigger] xs[i])
}

pub open spec fn marked_once_param(exported: bool, p: PatV) -> bool
    decreases p, 1int,
{
    marked_once_pat(exported, p)
}

pub open spec fn marked_once_params(exported: bool, xs: Seq<PatV>) -> bool
    decreases xs,
{
    forall|i: int| 0 <= i < xs.len() ==> marked_once_param(exported, #[trigger] xs[i])
}

pub open spec fn marked_once_declarator(exported: bool, d: VarDeclaratorV) -> bool
    decreases d,
{
    marked_once_pat(exported, d.name) && marked_once_opt_expr(exported, d.init)
}

pub open spec fn marked_once_declarators(exported: bool, xs: Seq<VarDeclaratorV>) -> bool
    decreases xs,
{
    forall|i: int| 0 <= i < xs.len() ==> marked_once_declarator(exported, #[trigger] xs[i])
}

pub open spec fn marked_once_body(exported: bool, b: Option<Seq<StmtV>>) -> bool
    decreases b,
{
    match b {
        Some(ss) => marked_once_stmts(exported, ss),
        _ => true,
    }
}

pub open spec fn marked_once_function(exported: bool, f: FunctionV) -> bool
    decreases f,
{
    marked_once_params(exported, f.params) && marked_once_body(exported, f.body)
}

pub open spec fn marked_once_stmt(exported: bool, s: StmtV) -> bool
    decreases s,
{
    match s {
        StmtV::Expr(e) => marked_once_expr(exported, e),
        StmtV::Return(e) => marked_once_opt_expr(exported, e),
        StmtV::Var(d) => marked_once_declarators(exported, d.decls),
        StmtV::Fn(f) => marked_once_fn(exported, f),
        StmtV::Block(b) => marked_once_stmts(exported, b),
        StmtV::Other { shape, exprs, body } => {
            marked_once_exprs(exported, exprs)
                && marked_once_stmts(exported, body)
        },
        _ => true,
    }
}

pub open spec fn marked_once_stmts(exported: bool, xs: Seq<StmtV>) -> bool
    decreases xs,
{
    forall|i: int| 0 <= i < xs.len() ==> marked_once_stmt(exported, #[trigger] xs[i])
}

pub open spec fn marked_once_item(in_action_file: bool, item: ModuleItemV) -> bool {
    match item {
        ModuleItemV::Stmt(s) => marked_once_stmt(false, s),
        ModuleItemV::ExportFn(f) => marked_once_fn(in_action_file, f),
        ModuleItemV::ExportVar(d) => marked_once_declarators(in_action_file, d.decls),
        ModuleItemV::Opaque(_) => true,
    }
}

/// Whether every directive in the module that the pass consults stands alone: the
/// module does not start with two, no function body that is searched for one starts
/// with two, and no function body that is not searched starts with one.
pub open spec fn marked_once(m: ModuleV) -> bool {
    &&& !items_start_with_directive(items_without_directive(m.body))
    &&& forall|i: int|
        0 <= i < m.body.len() ==> marked_once_item(
            items_start_with_directive(m.body),
            #[trigger] m.body[i],
        )
}

proof fn lemma_replace_keeps_directive(s: StmtV, used: Seq<IdentV>, arg: IdentV)
    ensures
        is_directive(replace_stmt(s, used, arg)) == is_directive(s),
{
    match s {
        StmtV::Expr(e) => {
            match e {
                ExprV::Str(_) => {},
                _ => {},
            }
        },
        _ => {},
    }
}

proof fn lemma_replace_expr_free(e: ExprV, used: Seq<IdentV>, arg: IdentV)
    requires
        directive_free_expr(e),
    ensures
        directive_free_expr(replace_expr(e, used, arg)),
    decreases e,
{
    match e {
        ExprV::Ident(i) => {
            assert(directive_free_expr(ExprV::Ident(arg)));
            assert(directive_free_expr(ExprV::Num(first_index(used, i) as u64)));
            assert(directive_free_expr(capture_read(arg, first_index(used, i))));
        },
        ExprV::Array(elems) => {
            lemma_replace_exprs_free(elems, used, arg);
        },
        ExprV::Object(props) => {
            lemma_replace_props_free(props, used, arg);
        },
        ExprV::Call { callee, args } => {
            lemma_replace_expr_free(*callee, used, arg);
            lemma_replace_exprs_free(args, used, arg);
        },
        ExprV::Member { obj, prop } => {
            lemma_replace_expr_free(*obj, used, arg);
        },
        ExprV::Index { obj, index } => {
            lemma_replace_expr_free(*obj, used, arg);
            lemma_replace_expr_free(*index, used, arg);
        },
        ExprV::Assign { left, right } => {
            lemma_replace_expr_free(*left, used, arg);
            lemma_replace_expr_free(*right, used, arg);
        },
        ExprV::Other { shape, parts } => {
            lemma_replace_exprs_free(parts, used, arg);
        },
        ExprV::Function { shape, ident, function } => {
            lemma_replace_function_free(*function, used, arg);
        },
        _ => {},
    }
}

proof fn lemma_replace_exprs_free(xs: Seq<ExprV>, used: Seq<IdentV>, arg: IdentV)
    requires
        directive_free_exprs(xs),
    ensures
        directive_free_exprs(replace_exprs(xs, used, arg)),
    decreases xs,
{
    let out = replace_exprs(xs, used, arg);
    assert forall|i: int| 0 <= i < out.len() implies directive_free_expr(
        #[trigger] out[i],
    ) by {
        assert(directive_free_expr(xs[i]));
        lemma_replace_expr_free(xs[i], used, arg);
    }
}

proof fn lemma_replace_opt_expr_free(e: Option<ExprV>, used: Seq<IdentV>, arg: IdentV)
    requires
        directive_free_opt_expr(e),
    ensures
        directive_free_opt_expr(replace_opt_expr(e, used, arg)),
    decreases e,
{
    match e {
        Some(x) => {
            lemma_replace_expr_free(x, used, arg);
        },
        _ => {},
    }
}

proof fn lemma_replace_prop_free(p: PropV, used: Seq<IdentV>, arg: IdentV)
    requires
        directive_free_prop(p),
    ensures
        directive_free_prop(replace_prop(p, used, arg)),
    decreases p,
{
    match p {
        PropV::Shorthand(i) => {
            assert(directive_free_expr(ExprV::Ident(arg)));
            assert(directive_free_expr(ExprV::Num(first_index(used, i) as u64)));
            assert(directive_free_expr(capture_read(arg, first_index(used, i))));
        },
        PropV::KeyValue { key, value } => {
            lemma_replace_expr_free(value, used, arg);
        },
        _ => {},
    }
}

proof fn lemma_replace_props_free(xs: Seq<PropV>, used: Seq<IdentV>, arg: IdentV)
    requires
        directive_free_props(xs),
    ensures
        directive_free_props(replace_props(xs, used, arg)),
    decreases xs,
{
    let out = replace_props(xs, used, arg);
    assert forall|i: int| 0 <= i < out.len() implies directive_free_prop(
        #[trigger] out[i],
    ) by {
        assert(directive_free_prop(xs[i]));
        lemma_replace_prop_free(xs[i], used, arg);
    }
}

proof fn lemma_replace_pat_free(p: PatV, used: Seq<IdentV>, arg: IdentV)
    requires
        directive_free_pat(p),
    ensures
        directive_free_pat(replace_pat(p, used, arg)),
    decreases p, 0int,
{
    match p {
        PatV::Array(elems) => {
            lemma_replace_opt_pats_free(elems, used, arg);
        },
        PatV::Object(props) => {
            lemma_replace_pat_props_free(props, used, arg);
        },
        PatV::Rest(inner) => {
            lemma_replace_pat_free(*inner, used, arg);
        },
        PatV::Assign { left, right } => {
            lemma_replace_pat_free(*left, used, arg);
            lemma_replace_expr_free(right, used, arg);
        },
        _ => {},
    }
}

proof fn lemma_replace_opt_pat_free(p: Option<PatV>, used: Seq<IdentV>, arg: IdentV)
    requires
        directive_free_opt_pat(p),
    ensures
        directive_free_opt_pat(replace_opt_pat(p, used, arg)),
    decreases p,
{
    match p {
        Some(x) => {
            lemma_replace_pat_free(x, used, arg);
        },
        _ => {},
    }
}

proof fn lemma_replace_opt_pats_free(xs: Seq<Option<PatV>>, used: Seq<IdentV>, arg: IdentV)
    requires
        directive_free_opt_pats(xs),
    ensures
        directive_free_opt_pats(replace_opt_pats(xs, used, arg)),
    decreases xs,
{
    let out = replace_opt_pats(xs, used, arg);
    assert forall|i: int| 0 <= i < out.len() implies directive_free_opt_pat(
        #[trigger] out[i],
    ) by {
        assert(directive_free_opt_pat(xs[i]));
        lemma_replace_opt_pat_free(xs[i], used, arg);
    }
}

proof fn lemma_replace_pat_prop_free(p: ObjectPatPropV, used: Seq<IdentV>, arg: IdentV)
    requires
        directive_free_pat_prop(p),
    ensures
        directive_free_pat_prop(replace_pat_prop(p, used, arg)),
    decreases p,
{
    match p {
        ObjectPatPropV::KeyValue { key, value } => {
            lemma_replace_pat_free(value, used, arg);
        },
        ObjectPatPropV::Assign { key, value } => {
            lemma_replace_opt_expr_free(value, used, arg);
        },
        ObjectPatPropV::Rest(inner) => {
            lemma_replace_pat_free(inner, used, arg);
        },
    }
}

proof fn lemma_replace_pat_props_free(xs: Seq<ObjectPatPropV>, used: Seq<IdentV>, arg: IdentV)
    requires
        directive_free_pat_props(xs),
    ensures
        directive_free_pat_props(replace_pat_props(xs, used, arg)),
    decreases xs,
{
    let out = replace_pat_props(xs, used, arg);
    assert forall|i: int| 0 <= i < out.len() implies directive_free_pat_prop(
        #[trigger] out[i],
    ) by {
        assert(directive_free_pat_prop(xs[i]));
        lemma_replace_pat_prop_free(xs[i], used, arg);
    }
}

proof fn lemma_replace_param_free(p: PatV, used: Seq<IdentV>, arg: IdentV)
    requires
        directive_free_param(p),
    ensures
        directive_free_param(replace_pat(p, used, arg)),
    decreases p, 1int,
{
    lemma_replace_pat_free(p, used, arg);
}

proof fn lemma_replace_params_free(xs: Seq<PatV>, used: Seq<IdentV>, arg: IdentV)
    requires
        directive_free_params(xs),
    ensures
        directive_free_params(replace_pats(xs, used, arg)),
    decreases xs,
{
    let out = replace_pats(xs, used, arg);
    assert forall|i: int| 0 <= i < out.len() implies directive_free_param(
        #[trigger] out[i],
    ) by {
        assert(directive_free_param(xs[i]));
        lemma_replace_param_free(xs[i], used, arg);
    }
}

proof fn lemma_replace_declarator_free(d: VarDeclaratorV, used: Seq<IdentV>, arg: IdentV)
    requires
        directive_free_declarator(d),
    ensures
        directive_free_declarator(replace_declarator(d, used, arg)),
    decreases d,
{
    lemma_replace_pat_free(d.name, used, arg);
    lemma_replace_opt_expr_free(d.init, used, arg);
}

proof fn lemma_replace_declarators_free(xs: Seq<VarDeclaratorV>, used: Seq<IdentV>, arg: IdentV)
    requires
        directive_free_declarators(xs),
    ensures
        directive_free_declarators(replace_declarators(xs, used, arg)),
    decreases xs,
{
    let out = replace_declarators(xs, used, arg);
    assert forall|i: int| 0 <= i < out.len() implies directive_free_declarator(
        #[trigger] out[i],
    ) by {
        assert(directive_free_declarator(xs[i]));
        lemma_replace_declarator_free(xs[i], used, arg);
    }
}

proof fn lemma_replace_body_free(b: Option<Seq<StmtV>>, used: Seq<IdentV>, arg: IdentV)
    requires
        directive_free_body(b),
    ensures
        directive_free_body(replace_body(b, used, arg)),
    decreases b,
{
    match b {
        Some(ss) => {
            lemma_replace_stmts_free(ss, used, arg);
        },
        _ => {},
    }
}

proof fn lemma_replace_function_free(f: FunctionV, used: Seq<IdentV>, arg: IdentV)
    requires
        directive_free_function(f),
    ensures
        directive_free_function(replace_function(f, used, arg)),
    decreases f,
{
    lemma_replace_params_free(f.params, used, arg);
    lemma_replace_body_free(f.body, used, arg);
}

proof fn lemma_replace_fn_free(f: FnDeclV, used: Seq<IdentV>, arg: IdentV)
    requires
        directive_free_fn(f),
    ensures
        directive_free_fn(
            FnDeclV { ident: f.ident, function: replace_function(f.function, used, arg) },
        ),
    decreases f,
{
    lemma_replace_function_free(f.function, used, arg);
    if f.function.body is Some {
        assert(directive_free_body(f.function.body));
        lemma_replace_stmts_free(f.function.body->0, used, arg);
    }
}

proof fn lemma_replace_stmt_free(s: StmtV, used: Seq<IdentV>, arg: IdentV)
    requires
        directive_free_stmt(s),
    ensures
        directive_free_stmt(replace_stmt(s, used, arg)),
    decreases s,
{
    match s {
        StmtV::Expr(e) => {
            lemma_replace_expr_free(e, used, arg);
        },
        StmtV::Return(e) => {
            lemma_replace_opt_expr_free(e, used, arg);
        },
        StmtV::Var(d) => {
            lemma_replace_declarators_free(d.decls, used, arg);
        },
        StmtV::Fn(f) => {
            lemma_replace_fn_free(f, used, arg);
        },
        StmtV::Block(b) => {
            lemma_replace_stmts_free(b, used, arg);
        },
        StmtV::Other { shape, exprs, body } => {
            lemma_replace_exprs_free(exprs, used, arg);
            lemma_replace_stmts_free(body, used, arg);
        },
        _ => {},
    }
}

proof fn lemma_replace_stmts_free(xs: Seq<StmtV>, used: Seq<IdentV>, arg: IdentV)
    requires
        directive_free_stmts(xs),
    ensures
        directive_free_stmts(replace_stmts(xs, used, arg)),
        starts_with_directive(replace_stmts(xs, used, arg)) == starts_with_directive(xs),
    decreases xs,
{
    let out = replace_stmts(xs, used, arg);
    assert forall|i: int| 0 <= i < out.len() implies directive_free_stmt(
        #[trigger] out[i],
    ) by {
        assert(directive_free_stmt(xs[i]));
        lemma_replace_stmt_free(xs[i], used, arg);
    }
    if xs.len() > 0 {
        lemma_replace_keeps_directive(xs[0], used, arg);
    }
}

/// A synthesized read of a property holds no function.
proof fn lemma_member_free(obj: IdentV, prop: IdentV)
    ensures
        directive_free_expr(ExprV::Member { obj: Box::new(ExprV::Ident(obj)), prop }),
{
    assert(directive_free_expr(ExprV::Ident(obj)));
}

proof fn lemma_annotation_free(target: IdentV, field: Seq<char>, value: ExprV)
    requires
        directive_free_expr(value),
    ensures
        directive_free_stmt(annotation(target, field, value)),
{
    lemma_member_free(target, plain_ident(field));
    let assignment = ExprV::Assign {
        left: Box::new(
            ExprV::Member { obj: Box::new(ExprV::Ident(target)), prop: plain_ident(field) },
        ),
        right: Box::new(value),
    };
    assert(directive_free_expr(assignment));
}

/// An annotation is an assignment: it holds no function and is no directive.
proof fn lemma_annotations_free(path: Seq<char>, ctx: Context, st: StateV, ident: IdentV)
    ensures
        directive_free_stmts(annotations_of(path, ctx, st, ident)),
{
    let notes = annotations_of(path, ctx, st, ident);
    let name = action_name(covered(ctx), ident.sym);
    let base = base_annotations(ident, path, name);
    let caps = captured(st);
    lemma_member_free(plain_ident("Symbol"@), plain_ident("for"@));
    let args = seq![ExprV::Str("react.server.reference"@)];
    assert(directive_free_exprs(args)) by {
        assert forall|i: int| 0 <= i < args.len() implies directive_free_expr(
            #[trigger] args[i],
        ) by {}
    }
    assert(directive_free_expr(type_marker()));
    lemma_annotation_free(ident, "$$typeof"@, type_marker());
    assert(directive_free_expr(ExprV::Str(path)));
    lemma_annotation_free(ident, "$$filepath"@, ExprV::Str(path));
    assert(directive_free_expr(ExprV::Str(name)));
    lemma_annotation_free(ident, "$$name"@, ExprV::Str(name));
    let listed = Seq::new(caps.len(), |i: int| ExprV::Ident(caps[i]));
    assert(directive_free_exprs(listed)) by {
        assert forall|i: int| 0 <= i < listed.len() implies directive_free_expr(
            #[trigger] listed[i],
        ) by {}
    }
    assert(directive_free_expr(capture_array(caps)));
    lemma_annotation_free(ident, "$$closure"@, capture_array(caps));
    assert forall|i: int| 0 <= i < notes.len() implies directive_free_stmt(#[trigger] notes[i]) by {
        if i < 3 {
            assert(notes[i] == base[i]);
        } else {
            assert(notes[i] == closure_annotation(ident, caps));
        }
    }
}

/// The body that forwards to the hoisted function holds no function and starts with
/// no directive.
proof fn lemma_forwarding_free(hoisted: IdentV, binding: IdentV)
    ensures
        directive_free_stmts(forwarding_body(hoisted, binding)),
        !starts_with_directive(forwarding_body(hoisted, binding)),
{
    let body = forwarding_body(hoisted, binding);
    lemma_member_free(binding, plain_ident("$$closure"@));
    let args = seq![
        ExprV::Member { obj: Box::new(ExprV::Ident(binding)), prop: plain_ident("$$closure"@) },
    ];
    assert(directive_free_exprs(args)) by {
        assert forall|i: int| 0 <= i < args.len() implies directive_free_expr(
            #[trigger] args[i],
        ) by {}
    }
    assert(directive_free_expr(ExprV::Ident(hoisted)));
    let call = ExprV::Call { callee: Box::new(ExprV::Ident(hoisted)), args };
    assert(directive_free_expr(call));
    assert(directive_free_opt_expr(Some(call)));
    assert(directive_free_stmt(StmtV::Return(Some(call))));
    assert forall|i: int| 0 <= i < body.len() implies directive_free_stmt(#[trigger] body[i]) by {
        assert(body[i] == StmtV::Return(Some(call)));
    }
}

/// The exported alias holds no function.
proof fn lemma_alias_free(alias: IdentV, binding: IdentV)
    ensures
        directive_free_item(export_alias(alias, binding)),
{
    let d = VarDeclaratorV { name: PatV::Ident(alias), init: Some(ExprV::Ident(binding)) };
    assert(directive_free_pat(d.name));
    assert(directive_free_expr(ExprV::Ident(binding)));
    assert(directive_free_opt_expr(d.init));
    assert(directive_free_declarator(d));
    let decls = seq![d];
    assert forall|i: int| 0 <= i < decls.len() implies directive_free_declarator(
        #[trigger] decls[i],
    ) by {}
}

proof fn lemma_expr_settles(path: Seq<char>, ctx: Context, st: StateV, e: ExprV)
    requires
        marked_once_expr(covered(ctx), e),
        directive_free_items(st.extra_items),
    ensures
        directive_free_expr(visited_expr(path, ctx, st, e).0),
        directive_free_items(visited_expr(path, ctx, st, e).1.extra_items),
    decreases e,
{
    match e {
        ExprV::Array(elems) => {
            lemma_exprs_settle(path, ctx, st, elems);
        },
        ExprV::Object(props) => {
            lemma_props_settle(path, ctx, st, props);
        },
        ExprV::Call { callee, args } => {
            lemma_expr_settles(path, ctx, st, *callee);
            let s1 = visited_expr(path, ctx, st, *callee).1;
            lemma_exprs_settle(path, ctx, s1, args);
        },
        ExprV::Member { obj, prop } => {
            lemma_expr_settles(path, ctx, st, *obj);
        },
        ExprV::Index { obj, index } => {
            lemma_expr_settles(path, ctx, st, *obj);
            let s1 = visited_expr(path, ctx, st, *obj).1;
            lemma_expr_settles(path, ctx, s1, *index);
        },
        ExprV::Assign { left, right } => {
            lemma_expr_settles(path, ctx, st, *left);
            let s1 = visited_expr(path, ctx, st, *left).1;
            lemma_expr_settles(path, ctx, s1, *right);
        },
        ExprV::Other { shape, parts } => {
            lemma_exprs_settle(path, ctx, st, parts);
        },
        ExprV::Function { shape, ident, function } => {
            let s1 = note_opt_ident(ctx, st, ident);
            lemma_function_settles(path, function_context(ctx), s1, *function);
        },
        _ => {},
    }
}

proof fn lemma_opt_expr_settles(path: Seq<char>, ctx: Context, st: StateV, e: Option<ExprV>)
    requires
        marked_once_opt_expr(covered(ctx), e),
        directive_free_items(st.extra_items),
    ensures
        directive_free_opt_expr(visited_opt_expr(path, ctx, st, e).0),
        directive_free_items(visited_opt_expr(path, ctx, st, e).1.extra_items),
    decreases e,
{
    match e {
        Some(x) => {
            lemma_expr_settles(path, ctx, st, x);
        },
        _ => {},
    }
}

proof fn lemma_prop_settles(path: Seq<char>, ctx: Context, st: StateV, p: PropV)
    requires
        marked_once_prop(covered(ctx), p),
        directive_free_items(st.extra_items),
    ensures
        directive_free_prop(visited_prop(path, ctx, st, p).0),
        directive_free_items(visited_prop(path, ctx, st, p).1.extra_items),
    decreases p,
{
    match p {
        PropV::KeyValue { key, value } => {
            let s1 = note_key(ctx, st, key);
            lemma_expr_settles(path, ctx, s1, value);
        },
        _ => {},
    }
}

proof fn lemma_pat_settles(path: Seq<char>, ctx: Context, st: StateV, p: PatV)
    requires
        marked_once_pat(covered(ctx), p),
        directive_free_items(st.extra_items),
    ensures
        directive_free_pat(visited_pat(path, ctx, st, p).0),
        directive_free_items(visited_pat(path, ctx, st, p).1.extra_items),
    decreases p, 0int,
{
    match p {
        PatV::Array(elems) => {
            lemma_opt_pats_settle(path, ctx, st, elems);
        },
        PatV::Object(props) => {
            lemma_pat_props_settle(path, ctx, st, props);
        },
        PatV::Rest(inner) => {
            lemma_pat_settles(path, ctx, st, *inner);
        },
        PatV::Assign { left, right } => {
            lemma_pat_settles(path, ctx, st, *left);
            let s1 = visited_pat(path, ctx, st, *left).1;
            lemma_expr_settles(path, ctx, s1, right);
        },
        _ => {},
    }
}

proof fn lemma_opt_pat_settles(path: Seq<char>, ctx: Context, st: StateV, p: Option<PatV>)
    requires
        marked_once_opt_pat(covered(ctx), p),
        directive_free_items(st.extra_items),
    ensures
        directive_free_opt_pat(visited_opt_pat(path, ctx, st, p).0),
        directive_free_items(visited_opt_pat(path, ctx, st, p).1.extra_items),
    decreases p,
{
    match p {
        Some(x) => {
            lemma_pat_settles(path, ctx, st, x);
        },
        _ => {},
    }
}

proof fn lemma_pat_prop_settles(path: Seq<char>, ctx: Context, st: StateV, p: ObjectPatPropV)
    requires
        marked_once_pat_prop(covered(ctx), p),
        directive_free_items(st.extra_items),
    ensures
        directive_free_pat_prop(visited_pat_prop(path, ctx, st, p).0),
        directive_free_items(visited_pat_prop(path, ctx, st, p).1.extra_items),
    decreases p,
{
    match p {
        ObjectPatPropV::KeyValue { key, value } => {
            let s1 = note_key(ctx, st, key);
            lemma_pat_settles(path, ctx, s1, value);
        },
        ObjectPatPropV::Assign { key, value } => {
            let s1 = note_idents(ctx, st, seq![key]);
            lemma_opt_expr_settles(path, ctx, s1, value);
        },
        ObjectPatPropV::Rest(inner) => {
            lemma_pat_settles(path, ctx, st, inner);
        },
    }
}

proof fn lemma_param_settles(path: Seq<char>, ctx: Context, st: StateV, p: PatV)
    requires
        marked_once_param(covered(ctx), p),
        directive_free_items(st.extra_items),
    ensures
        directive_free_param(visited_param(path, ctx, st, p).0),
        directive_free_items(visited_param(path, ctx, st, p).1.extra_items),
    decreases p, 1int,
{
    lemma_pat_settles(path, ctx, st, p);
}

proof fn lemma_declarator_settles(path: Seq<char>, ctx: Context, st: StateV, d: VarDeclaratorV)
    requires
        marked_once_declarator(covered(ctx), d),
        directive_free_items(st.extra_items),
    ensures
        directive_free_declarator(visited_declarator(path, ctx, st, d).0),
        directive_free_items(visited_declarator(path, ctx, st, d).1.extra_items),
    decreases d,
{
    lemma_pat_settles(path, ctx, st, d.name);
    let s1 = visited_pat(path, ctx, st, d.name).1;
    lemma_opt_expr_settles(path, ctx, s1, d.init);
}

proof fn lemma_body_settles(path: Seq<char>, ctx: Context, st: StateV, b: Option<Seq<StmtV>>)
    requires
        marked_once_body(covered(ctx), b),
        directive_free_items(st.extra_items),
    ensures
        directive_free_body(visited_body(path, ctx, st, b).0),
        directive_free_items(visited_body(path, ctx, st, b).1.extra_items),
    decreases b,
{
    match b {
        Some(ss) => {
            lemma_stmts_settle(path, ctx, st, ss);
        },
        _ => {},
    }
}

proof fn lemma_function_settles(path: Seq<char>, ctx: Context, st: StateV, f: FunctionV)
    requires
        marked_once_function(covered(ctx), f),
        directive_free_items(st.extra_items),
    ensures
        directive_free_function(visited_function(path, ctx, st, f).0),
        directive_free_items(visited_function(path, ctx, st, f).1.extra_items),
    decreases f,
{
    lemma_params_settle(path, ctx, st, f.params);
    let s1 = visited_params(path, ctx, st, f.params).1;
    lemma_body_settles(path, ctx, s1, f.body);
}

proof fn lemma_stmt_settles(path: Seq<char>, ctx: Context, st: StateV, s: StmtV)
    requires
        marked_once_stmt(covered(ctx), s),
        directive_free_items(st.extra_items),
    ensures
        directive_free_stmt(visited_stmt(path, ctx, st, s).0),
        directive_free_stmts(visited_stmt(path, ctx, st, s).1),
        is_directive(visited_stmt(path, ctx, st, s).0) == is_directive(s),
        directive_free_items(visited_stmt(path, ctx, st, s).2.extra_items),
    decreases s,
{
    match s {
        StmtV::Expr(e) => {
            lemma_expr_settles(path, ctx, st, e);
        },
        StmtV::Return(e) => {
            lemma_opt_expr_settles(path, ctx, st, e);
        },
        StmtV::Var(d) => {
            lemma_declarators_settle(path, ctx, st, d.decls);
        },
        StmtV::Fn(f) => {
            lemma_fn_settles(path, ctx, st, f);
        },
        StmtV::Block(b) => {
            lemma_stmts_settle(path, ctx, st, b);
        },
        StmtV::Other { shape, exprs, body } => {
            lemma_exprs_settle(path, ctx, st, exprs);
            let s1 = visited_exprs(path, ctx, st, exprs).1;
            lemma_stmts_settle(path, ctx, s1, body);
        },
        _ => {},
    }
}

proof fn lemma_exprs_settle(path: Seq<char>, ctx: Context, st: StateV, xs: Seq<ExprV>)
    requires
        marked_once_exprs(covered(ctx), xs),
        directive_free_items(st.extra_items),
    ensures
        directive_free_exprs(visited_exprs(path, ctx, st, xs).0),
        directive_free_items(visited_exprs(path, ctx, st, xs).1.extra_items),
    decreases xs,
{
    if xs.len() > 0 {
        let shorter = xs.drop_last();
        assert forall|i: int| 0 <= i < shorter.len() implies marked_once_expr(
            covered(ctx),
            #[trigger] shorter[i],
        ) by {
            assert(marked_once_expr(covered(ctx), xs[i]));
        }
        assert(marked_once_expr(covered(ctx), xs[xs.len() - 1]));
        lemma_exprs_settle(path, ctx, st, shorter);
        let before = visited_exprs(path, ctx, st, shorter);
        lemma_expr_settles(path, ctx, before.1, xs.last());
        let last = visited_expr(path, ctx, before.1, xs.last()).0;
        let out = visited_exprs(path, ctx, st, xs).0;
        assert forall|i: int| 0 <= i < out.len() implies directive_free_expr(
            #[trigger] out[i],
        ) by {
            if i < before.0.len() {
                assert(out[i] == before.0[i]);
            } else {
                assert(out[i] == last);
            }
        }
    }
}

proof fn lemma_props_settle(path: Seq<char>, ctx: Context, st: StateV, xs: Seq<PropV>)
    requires
        marked_once_props(covered(ctx), xs),
        directive_free_items(st.extra_items),
    ensures
        directive_free_props(visited_props(path, ctx, st, xs).0),
        directive_free_items(visited_props(path, ctx, st, xs).1.extra_items),
    decreases xs,
{
    if xs.len() > 0 {
        let shorter = xs.drop_last();
        assert forall|i: int| 0 <= i < shorter.len() implies marked_once_prop(
            covered(ctx),
            #[trigger] shorter[i],
        ) by {
            assert(marked_once_prop(covered(ctx), xs[i]));
        }
        assert(marked_once_prop(covered(ctx), xs[xs.len() - 1]));
        lemma_props_settle(path, ctx, st, shorter);
        let before = visited_props(path, ctx, st, shorter);
        lemma_prop_settles(path, ctx, before.1, xs.last());
        let last = visited_prop(path, ctx, before.1, xs.last()).0;
        let out = visited_props(path, ctx, st, xs).0;
        assert forall|i: int| 0 <= i < out.len() implies directive_free_prop(
            #[trigger] out[i],
        ) by {
            if i < before.0.len() {
                assert(out[i] == before.0[i]);
            } else {
                assert(out[i] == last);
            }
        }
    }
}

proof fn lemma_opt_pats_settle(path: Seq<char>, ctx: Context, st: StateV, xs: Seq<Option<PatV>>)
    requires
        marked_once_opt_pats(covered(ctx), xs),
        directive_free_items(st.extra_items),
    ensures
        directive_free_opt_pats(visited_opt_pats(path, ctx, st, xs).0),
        directive_free_items(visited_opt_pats(path, ctx, st, xs).1.extra_items),
    decreases xs,
{
    if xs.len() > 0 {
        let shorter = xs.drop_last();
        assert forall|i: int| 0 <= i < shorter.len() implies marked_once_opt_pat(
            covered(ctx),
            #[trigger] shorter[i],
        ) by {
            assert(marked_once_opt_pat(covered(ctx), xs[i]));
        }
        assert(marked_once_opt_pat(covered(ctx), xs[xs.len() - 1]));
        lemma_opt_pats_settle(path, ctx, st, shorter);
        let before = visited_opt_pats(path, ctx, st, shorter);
        lemma_opt_pat_settles(path, ctx, before.1, xs.last());
        let last = visited_opt_pat(path, ctx, before.1, xs.last()).0;
        let out = visited_opt_pats(path, ctx, st, xs).0;
        assert forall|i: int| 0 <= i < out.len() implies directive_free_opt_pat(
            #[trigger] out[i],
        ) by {
            if i < before.0.len() {
                assert(out[i] == before.0[i]);
            } else {
                assert(out[i] == last);
            }
        }
    }
}

proof fn lemma_pat_props_settle(path: Seq<char>, ctx: Context, st: StateV, xs: Seq<ObjectPatPropV>)
    requires
        marked_once_pat_props(covered(ctx), xs),
        directive_free_items(st.extra_items),
    ensures
        directive_free_pat_props(visited_pat_props(path, ctx, st, xs).0),
        directive_free_items(visited_pat_props(path, ctx, st, xs).1.extra_items),
    decreases xs,
{
    if xs.len() > 0 {
        let shorter = xs.drop_last();
        assert forall|i: int| 0 <= i < shorter.len() implies marked_once_pat_prop(
            covered(ctx),
            #[trigger] shorter[i],
        ) by {
            assert(marked_once_pat_prop(covered(ctx), xs[i]));
        }
        assert(marked_once_pat_prop(covered(ctx), xs[xs.len() - 1]));
        lemma_pat_props_settle(path, ctx, st, shorter);
        let before = visited_pat_props(path, ctx, st, shorter);
        lemma_pat_prop_settles(path, ctx, before.1, xs.last());
        let last = visited_pat_prop(path, ctx, before.1, xs.last()).0;
        let out = visited_pat_props(path, ctx, st, xs).0;
        assert forall|i: int| 0 <= i < out.len() implies directive_free_pat_prop(
            #[trigger] out[i],
        ) by {
            if i < before.0.len() {
                assert(out[i] == before.0[i]);
            } else {
                assert(out[i] == last);
            }
        }
    }
}

proof fn lemma_params_settle(path: Seq<char>, ctx: Context, st: StateV, xs: Seq<PatV>)
    requires
        marked_once_params(covered(ctx), xs),
        directive_free_items(st.extra_items),
    ensures
        directive_free_params(visited_params(path, ctx, st, xs).0),
        directive_free_items(visited_params(path, ctx, st, xs).1.extra_items),
    decreases xs,
{
    if xs.len() > 0 {
        let shorter = xs.drop_last();
        assert forall|i: int| 0 <= i < shorter.len() implies marked_once_param(
            covered(ctx),
            #[trigger] shorter[i],
        ) by {
            assert(marked_once_param(covered(ctx), xs[i]));
        }
        assert(marked_once_param(covered(ctx), xs[xs.len() - 1]));
        lemma_params_settle(path, ctx, st, shorter);
        let before = visited_params(path, ctx, st, shorter);
        lemma_param_settles(path, ctx, before.1, xs.last());
        let last = visited_param(path, ctx, before.1, xs.last()).0;
        let out = visited_params(path, ctx, st, xs).0;
        assert forall|i: int| 0 <= i < out.len() implies directive_free_param(
            #[trigger] out[i],
        ) by {
            if i < before.0.len() {
                assert(out[i] == before.0[i]);
            } else {
                assert(out[i] == last);
            }
        }
    }
}

proof fn lemma_declarators_settle(
    path: Seq<char>,
    ctx: Context,
    st: StateV,
    xs: Seq<VarDeclaratorV>,
)
    requires
        marked_once_declarators(covered(ctx), xs),
        directive_free_items(st.extra_items),
    ensures
        directive_free_declarators(visited_declarators(path, ctx, st, xs).0),
        directive_free_items(visited_declarators(path, ctx, st, xs).1.extra_items),
    decreases xs,
{
    if xs.len() > 0 {
        let shorter = xs.drop_last();
        assert forall|i: int| 0 <= i < shorter.len() implies marked_once_declarator(
            covered(ctx),
            #[trigger] shorter[i],
        ) by {
            assert(marked_once_declarator(covered(ctx), xs[i]));
        }
        assert(marked_once_declarator(covered(ctx), xs[xs.len() - 1]));
        lemma_declarators_settle(path, ctx, st, shorter);
        let before = visited_declarators(path, ctx, st, shorter);
        lemma_declarator_settles(path, ctx, before.1, xs.last());
        let last = visited_declarator(path, ctx, before.1, xs.last()).0;
        let out = visited_declarators(path, ctx, st, xs).0;
        assert forall|i: int| 0 <= i < out.len() implies directive_free_declarator(
            #[trigger] out[i],
        ) by {
            if i < before.0.len() {
                assert(out[i] == before.0[i]);
            } else {
                assert(out[i] == last);
            }
        }
    }
}

#[verifier::rlimit(40)]
proof fn lemma_stmts_settle(path: Seq<char>, ctx: Context, st: StateV, ss: Seq<StmtV>)
    requires
        marked_once_stmts(covered(ctx), ss),
        directive_free_items(st.extra_items),
    ensures
        directive_free_stmts(visited_stmts(path, ctx, st, ss).0),
        directive_free_items(visited_stmts(path, ctx, st, ss).1.extra_items),
        visited_stmts(path, ctx, st, ss).0.len() >= ss.len(),
        starts_with_directive(visited_stmts(path, ctx, st, ss).0) == starts_with_directive(ss),
    decreases ss,
{
    if ss.len() > 0 {
        let shorter = ss.drop_last();
        assert forall|i: int| 0 <= i < shorter.len() implies marked_once_stmt(
            covered(ctx),
            #[trigger] shorter[i],
        ) by {
            assert(marked_once_stmt(covered(ctx), ss[i]));
        }
        assert(marked_once_stmt(covered(ctx), ss[ss.len() - 1]));
        lemma_stmts_settle(path, ctx, st, shorter);
        let before = visited_stmts(path, ctx, st, shorter);
        let at = Context { top_level: false, ..ctx };
        assert(covered(at) == covered(ctx));
        lemma_stmt_settles(path, at, before.1, ss.last());
        let last = visited_stmt(path, at, before.1, ss.last());
        let out = visited_stmts(path, ctx, st, ss).0;
        assert(out == before.0.push(last.0) + last.1);
        assert forall|i: int| 0 <= i < out.len() implies directive_free_stmt(#[trigger] out[i]) by {
            if i < before.0.len() {
                assert(out[i] == before.0[i]);
            } else if i == before.0.len() {
                assert(out[i] == last.0);
            } else {
                assert(out[i] == last.1[i - before.0.len() - 1]);
            }
        }
        if shorter.len() > 0 {
            assert(out[0] == before.0[0]);
            assert(shorter[0] == ss[0]);
        } else {
            assert(out[0] == last.0);
        }
    }
}

#[verifier::rlimit(40)]
proof fn lemma_fn_settles(path: Seq<char>, ctx: Context, st: StateV, f: FnDeclV)
    requires
        marked_once_fn(covered(ctx), f),
        directive_free_items(st.extra_items),
    ensures
        directive_free_fn(visited_fn_decl(path, ctx, st, f).0),
        directive_free_stmts(visited_fn_decl(path, ctx, st, f).1),
        directive_free_items(visited_fn_decl(path, ctx, st, f).2.extra_items),
    decreases f,
{
    let inner = inner_context(ctx, f);
    assert(covered(inner) == covered(ctx));
    let st1 = note_idents(inner, StateV { action_idents: seq![], ..st }, seq![f.ident]);
    assert(marked_once_function(covered(ctx), f.function));
    assert(marked_once_params(covered(ctx), f.function.params));
    assert(marked_once_body(covered(ctx), f.function.body));
    lemma_params_settle(path, inner, st1, f.function.params);
    let p = visited_params(path, inner, st1, f.function.params);
    let w = walked_fn(path, ctx, st, f);
    if f.function.body is Some {
        let b = f.function.body->0;
        let ss = body_to_visit(ctx, f)->0;
        assert forall|i: int| 0 <= i < ss.len() implies marked_once_stmt(
            covered(ctx),
            #[trigger] ss[i],
        ) by {
            if has_own_directive(ctx, f) {
                assert(ss[i] == b[i + 1]);
                assert(marked_once_stmt(covered(ctx), b[i + 1]));
            } else {
                assert(marked_once_stmt(covered(ctx), b[i]));
            }
        }
        lemma_stmts_settle(path, inner, p.1, ss);
        assert(!starts_with_directive(ss));
        assert(!starts_with_directive(w.0.body->0));
        assert(directive_free_stmts(w.0.body->0));
    }
    assert(directive_free_body(w.0.body));
    assert(directive_free_function(w.0));
    let r = visited_fn_decl(path, ctx, st, f);
    if is_action(ctx, f) {
        lemma_annotations_free(path, ctx, w.1, f.ident);
        let walked = FnDeclV { ident: f.ident, function: w.0 };
        let settled = settled_action(path, ctx, w.1, walked);
        let queued = settled.2.extra_items;
        let index = w.1.export_actions.len();
        let name = action_name(covered(ctx), f.ident.sym);
        if ctx.top_level {
            lemma_alias_free(action_ident(name, index), f.ident);
            assert forall|i: int| 0 <= i < queued.len() implies directive_free_item(
                #[trigger] queued[i],
            ) by {
                if i < w.1.extra_items.len() {
                    assert(queued[i] == w.1.extra_items[i]);
                }
            }
        } else {
            let arg = closure_arg(index);
            let caps = captured(w.1);
            lemma_replace_body_free(w.0.body, caps, arg);
            if w.0.body is Some {
                lemma_replace_stmts_free(w.0.body->0, caps, arg);
            }
            let hoisted = hoisted_item(
                ctx,
                w.1,
                f.ident,
                w.0.body,
                f.function.is_async,
                f.function.is_generator,
                index,
            );
            let params = seq![PatV::Ident(arg)];
            assert(directive_free_params(params)) by {
                assert forall|i: int| 0 <= i < params.len() implies directive_free_param(
                    #[trigger] params[i],
                ) by {
                    assert(directive_free_pat(PatV::Ident(arg)));
                }
            }
            assert(directive_free_function(hoisted->ExportFn_0.function));
            assert(directive_free_item(hoisted));
            assert forall|i: int| 0 <= i < queued.len() implies directive_free_item(
                #[trigger] queued[i],
            ) by {
                if i < w.1.extra_items.len() {
                    assert(queued[i] == w.1.extra_items[i]);
                } else {
                    assert(queued[i] == hoisted);
                }
            }
            lemma_forwarding_free(action_ident(name, index), f.ident);
            assert(directive_free_body(settled.0.function.body));
            assert(directive_free_function(settled.0.function));
        }
    }
}

proof fn lemma_item_settles(path: Seq<char>, ctx: Context, st: StateV, item: ModuleItemV)
    requires
        !ctx.in_export_decl,
        marked_once_item(ctx.in_action_file, item),
        directive_free_items(st.extra_items),
    ensures
        directive_free_item(visited_item(path, ctx, st, item).0),
        directive_free_stmts(visited_item(path, ctx, st, item).1),
        directive_free_items(visited_item(path, ctx, st, item).2.extra_items),
        visited_item(path, ctx, st, item).0 is Stmt ==> item is Stmt && is_directive(
            visited_item(path, ctx, st, item).0->Stmt_0,
        ) == is_directive(item->Stmt_0),
{
    let exported = Context { in_export_decl: true, ..ctx };
    match item {
        ModuleItemV::Stmt(s) => {
            lemma_stmt_settles(path, ctx, st, s);
        },
        ModuleItemV::ExportFn(f) => {
            lemma_fn_settles(path, exported, st, f);
        },
        ModuleItemV::ExportVar(d) => {
            lemma_declarators_settle(path, exported, st, d.decls);
        },
        ModuleItemV::Opaque(_) => {},
    }
}

#[verifier::rlimit(40)]
proof fn lemma_items_settle(path: Seq<char>, ctx: Context, st: StateV, items: Seq<ModuleItemV>)
    requires
        !ctx.in_export_decl,
        forall|i: int|
            0 <= i < items.len() ==> marked_once_item(ctx.in_action_file, #[trigger] items[i]),
        !items_start_with_directive(items),
        directive_free_items(st.extra_items),
    ensures
        directive_free_items(visited_items(path, ctx, st, items).0),
        visited_items(path, ctx, st, items).0.len() >= items.len(),
        !items_start_with_directive(visited_items(path, ctx, st, items).0),
    decreases items.len(),
{
    if items.len() > 0 {
        let shorter = items.drop_last();
        assert forall|i: int| 0 <= i < shorter.len() implies marked_once_item(
            ctx.in_action_file,
            #[trigger] shorter[i],
        ) by {
            assert(marked_once_item(ctx.in_action_file, items[i]));
        }
        assert(marked_once_item(ctx.in_action_file, items[items.len() - 1]));
        if shorter.len() > 0 {
            assert(shorter[0] == items[0]);
        }
        lemma_items_settle(path, ctx, st, shorter);
        let before = visited_items(path, ctx, st, shorter);
        let at = Context { top_level: true, ..ctx };
        lemma_item_settles(path, at, before.1, items.last());
        let last = visited_item(path, at, before.1, items.last());
        let out = visited_items(path, ctx, st, items).0;
        let notes = stmts_as_items(last.1);
        assert(out == before.0.push(last.0) + notes + last.2.extra_items);
        assert forall|i: int| 0 <= i < out.len() implies directive_free_item(#[trigger] out[i]) by {
            if i < before.0.len() {
                assert(out[i] == before.0[i]);
            } else if i == before.0.len() {
                assert(out[i] == last.0);
            } else if i < before.0.len() + 1 + notes.len() {
                let k = i - before.0.len() - 1;
                assert(out[i] == notes[k]);
                assert(directive_free_stmt(last.1[k]));
            } else {
                assert(out[i] == last.2.extra_items[i - before.0.len() - 1 - notes.len()]);
            }
        }
        if shorter.len() > 0 {
            assert(out[0] == before.0[0]);
        } else {
            assert(out[0] == last.0);
        }
    }
}

/// Where every directive that the pass consults stands alone, none is left in the
/// output.
pub proof fn lemma_directives_are_taken(path: Seq<char>, m: ModuleV)
    requires
        marked_once(m),
    ensures
        directive_free(transformed(path, m).module),
{
    let items = items_without_directive(m.body);
    let ctx = module_context(m.body);
    assert forall|i: int| 0 <= i < items.len() implies marked_once_item(
        ctx.in_action_file,
        #[trigger] items[i],
    ) by {
        if items_start_with_directive(m.body) {
            assert(items[i] == m.body[i + 1]);
            assert(marked_once_item(ctx.in_action_file, m.body[i + 1]));
        } else {
            assert(marked_once_item(ctx.in_action_file, m.body[i]));
        }
    }
    let st = StateV { has_action: items_start_with_directive(m.body), ..initial_state() };
    lemma_items_settle(path, ctx, st, items);
}

/// Applying the pass to its own output changes nothing, for every module in which the
/// directives that the pass consults stand alone.
pub proof fn lemma_idempotent(path: Seq<char>, m: ModuleV)
    requires
        marked_once(m),
    ensures
        transformed(path, transformed(path, m).module).module == transformed(path, m).module,
        transformed(path, transformed(path, m).module).comment is None,
        transformed(path, transformed(path, m).module).diagnostics == Seq::<IdentV>::empty(),
{
    lemma_directives_are_taken(path, m);
    lemma_second_pass_changes_nothing(path, m);
}

} // verus!
