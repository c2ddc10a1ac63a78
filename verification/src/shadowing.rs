//! What an action declares itself is never captured.
use crate::ast::{
    ExprV, FnDeclV, FunctionV, IdentV, ObjectPatPropV, PatV, PropV, StmtV, VarDeclaratorV,
};
use crate::capture::{captures, lemma_captures_members};
use crate::transform::{
    body_to_visit, captured, function_context, has_own_directive, inner_context, is_action,
    note_idents, note_key, note_opt_ident, visited_body, visited_declarator, visited_declarators,
    visited_expr, visited_exprs, visited_function, visited_opt_expr, visited_opt_pat,
    visited_opt_pats, visited_param, visited_params, visited_pat, visited_pat_prop,
    visited_pat_props, visited_prop, visited_props, visited_stmt, visited_stmts, walked_fn,
    Context, StateV,
};
use vstd::prelude::*;

verus! {
/// A function declaration is one, so this never holds of it.
pub open spec fn no_declaration_fn(f: FnDeclV) -> bool {
    false
}

pub open spec fn no_declaration_expr(e: ExprV) -> bool
    decreases e,
{
    match e {
        ExprV::Array(elems) => no_declaration_exprs(elems),
        ExprV::Object(props) => no_declaration_props(props),
        ExprV::Call { callee, args } => no_declaration_expr(*callee) && no_declaration_exprs(args),
        ExprV::Member { obj, prop } => no_declaration_expr(*obj),
        ExprV::Index { obj, index } => no_declaration_expr(*obj) && no_declaration_expr(*index),
        ExprV::Assign { left, right } => no_declaration_expr(*left) && no_declaration_expr(*right),
        ExprV::Other { shape, parts } => no_declaration_exprs(parts),
        ExprV::Function { shape, ident, function } => no_declaration_function(*function),
        _ => true,
    }
}

pub open spec fn no_declaration_exprs(xs: Seq<ExprV>) -> bool
    decreases xs,
{
    forall|i: int| 0 <= i < xs.len() ==> no_declaration_expr(#[trigger] xs[i])
}

pub open spec fn no_declaration_opt_expr(e: Option<ExprV>) -> bool
    decreases e,
{
    match e {
        Some(x) => no_declaration_expr(x),
        _ => true,
    }
}

pub open spec fn no_declaration_prop(p: PropV) -> bool
    decreases p,
{
    match p {
        PropV::KeyValue { key, value } => no_declaration_expr(value),
        _ => true,
    }
}

pub open spec fn no_declaration_props(xs: Seq<PropV>) -> bool
    decreases xs,
{
    forall|i: int| 0 <= i < xs.len() ==> no_declaration_prop(#[trigger] xs[i])
}

pub open spec fn no_declaration_pat(p: PatV) -> bool
    decreases p, 0int,
{
    match p {
        PatV::Array(elems) => no_declaration_opt_pats(elems),
        PatV::Object(props) => no_declaration_pat_props(props),
        PatV::Rest(inner) => no_declaration_pat(*inner),
        PatV::Assign { left, right } => no_declaration_pat(*left) && no_declaration_expr(right),
        _ => true,
    }
}

pub open spec fn no_declaration_opt_pat(p: Option<PatV>) -> bool
    decreases p,
{
    match p {
        Some(x) => no_declaration_pat(x),
        _ => true,
    }
}

pub open spec fn no_declaration_opt_pats(xs: Seq<Option<PatV>>) -> bool
    decreases xs,
{
    forall|i: int| 0 <= i < xs.len() ==> no_declaration_opt_pat(#[trigger] xs[i])
}

pub open spec fn no_declaration_pat_prop(p: ObjectPatPropV) -> bool
    decreases p,
{
    match p {
        ObjectPatPropV::KeyValue { key, value } => no_declaration_pat(value),
        ObjectPatPropV::Assign { key, value } => no_declaration_opt_expr(value),
        ObjectPatPropV::Rest(inner) => no_declaration_pat(inner),
    }
}

pub open spec fn no_declaration_pat_props(xs: Seq<ObjectPatPropV>) -> bool
    decreases xs,
{
    forall|i: int| 0 <= i < xs.len() ==> no_declaration_pat_prop(#[trigger] xs[i])
}

pub open spec fn no_declaration_param(p: PatV) -> bool
    decreases p, 1int,
{
    no_declaration_pat(p)
}

pub open spec fn no_declaration_params(xs: Seq<PatV>) -> bool
    decreases xs,
{
    forall|i: int| 0 <= i < xs.len() ==> no_declaration_param(#[trigger] xs[i])
}

pub open spec fn no_declaration_declarator(d: VarDeclaratorV) -> bool
    decreases d,
{
    no_declaration_pat(d.name) && no_declaration_opt_expr(d.init)
}

pub open spec fn no_declaration_declarators(xs: Seq<VarDeclaratorV>) -> bool
    decreases xs,
{
    forall|i: int| 0 <= i < xs.len() ==> no_declaration_declarator(#[trigger] xs[i])
}

pub open spec fn no_declaration_body(b: Option<Seq<StmtV>>) -> bool
    decreases b,
{
    match b {
        Some(ss) => no_declaration_stmts(ss),
        _ => true,
    }
}

pub open spec fn no_declaration_function(f: FunctionV) -> bool
    decreases f,
{
    no_declaration_params(f.params) && no_declaration_body(f.body)
}

pub open spec fn no_declaration_stmt(s: StmtV) -> bool
    decreases s,
{
    match s {
        StmtV::Expr(e) => no_declaration_expr(e),
        StmtV::Return(e) => no_declaration_opt_expr(e),
        StmtV::Var(d) => no_declaration_declarators(d.decls),
        StmtV::Fn(f) => no_declaration_fn(f),
        StmtV::Block(b) => no_declaration_stmts(b),
        StmtV::Other { shape, exprs, body } => {
            no_declaration_exprs(exprs)
                && no_declaration_stmts(body)
        },
        _ => true,
    }
}

pub open spec fn no_declaration_stmts(xs: Seq<StmtV>) -> bool
    decreases xs,
{
    forall|i: int| 0 <= i < xs.len() ==> no_declaration_stmt(#[trigger] xs[i])
}

proof fn lemma_expr_keeps_candidates(path: Seq<char>, ctx: Context, st: StateV, e: ExprV)
    requires
        ctx.in_action_fn,
        no_declaration_expr(e),
    ensures
        visited_expr(path, ctx, st, e).1.closure_idents == st.closure_idents,
    decreases e,
{
    match e {
        ExprV::Array(elems) => {
            lemma_exprs_keep_candidates(path, ctx, st, elems);
        },
        ExprV::Object(props) => {
            lemma_props_keep_candidates(path, ctx, st, props);
        },
        ExprV::Call { callee, args } => {
            lemma_expr_keeps_candidates(path, ctx, st, *callee);
            let s1 = visited_expr(path, ctx, st, *callee).1;
            lemma_exprs_keep_candidates(path, ctx, s1, args);
        },
        ExprV::Member { obj, prop } => {
            lemma_expr_keeps_candidates(path, ctx, st, *obj);
        },
        ExprV::Index { obj, index } => {
            lemma_expr_keeps_candidates(path, ctx, st, *obj);
            let s1 = visited_expr(path, ctx, st, *obj).1;
            lemma_expr_keeps_candidates(path, ctx, s1, *index);
        },
        ExprV::Assign { left, right } => {
            lemma_expr_keeps_candidates(path, ctx, st, *left);
            let s1 = visited_expr(path, ctx, st, *left).1;
            lemma_expr_keeps_candidates(path, ctx, s1, *right);
        },
        ExprV::Other { shape, parts } => {
            lemma_exprs_keep_candidates(path, ctx, st, parts);
        },
        ExprV::Function { shape, ident, function } => {
            let s1 = note_opt_ident(ctx, st, ident);
            lemma_function_keeps_candidates(path, function_context(ctx), s1, *function);
        },
        _ => {},
    }
}

proof fn lemma_opt_expr_keeps_candidates(
    path: Seq<char>,
    ctx: Context,
    st: StateV,
    e: Option<ExprV>,
)
    requires
        ctx.in_action_fn,
        no_declaration_opt_expr(e),
    ensures
        visited_opt_expr(path, ctx, st, e).1.closure_idents == st.closure_idents,
    decreases e,
{
    match e {
        Some(x) => {
            lemma_expr_keeps_candidates(path, ctx, st, x);
        },
        _ => {},
    }
}

proof fn lemma_prop_keeps_candidates(path: Seq<char>, ctx: Context, st: StateV, p: PropV)
    requires
        ctx.in_action_fn,
        no_declaration_prop(p),
    ensures
        visited_prop(path, ctx, st, p).1.closure_idents == st.closure_idents,
    decreases p,
{
    match p {
        PropV::KeyValue { key, value } => {
            let s1 = note_key(ctx, st, key);
            lemma_expr_keeps_candidates(path, ctx, s1, value);
        },
        _ => {},
    }
}

proof fn lemma_pat_keeps_candidates(path: Seq<char>, ctx: Context, st: StateV, p: PatV)
    requires
        ctx.in_action_fn,
        no_declaration_pat(p),
    ensures
        visited_pat(path, ctx, st, p).1.closure_idents == st.closure_idents,
    decreases p, 0int,
{
    match p {
        PatV::Array(elems) => {
            lemma_opt_pats_keep_candidates(path, ctx, st, elems);
        },
        PatV::Object(props) => {
            lemma_pat_props_keep_candidates(path, ctx, st, props);
        },
        PatV::Rest(inner) => {
            lemma_pat_keeps_candidates(path, ctx, st, *inner);
        },
        PatV::Assign { left, right } => {
            lemma_pat_keeps_candidates(path, ctx, st, *left);
            let s1 = visited_pat(path, ctx, st, *left).1;
            lemma_expr_keeps_candidates(path, ctx, s1, right);
        },
        _ => {},
    }
}

proof fn lemma_opt_pat_keeps_candidates(path: Seq<char>, ctx: Context, st: StateV, p: Option<PatV>)
    requires
        ctx.in_action_fn,
        no_declaration_opt_pat(p),
    ensures
        visited_opt_pat(path, ctx, st, p).1.closure_idents == st.closure_idents,
    decreases p,
{
    match p {
        Some(x) => {
            lemma_pat_keeps_candidates(path, ctx, st, x);
        },
        _ => {},
    }
}

proof fn lemma_pat_prop_keeps_candidates(
    path: Seq<char>,
    ctx: Context,
    st: StateV,
    p: ObjectPatPropV,
)
    requires
        ctx.in_action_fn,
        no_declaration_pat_prop(p),
    ensures
        visited_pat_prop(path, ctx, st, p).1.closure_idents == st.closure_idents,
    decreases p,
{
    match p {
        ObjectPatPropV::KeyValue { key, value } => {
            let s1 = note_key(ctx, st, key);
            lemma_pat_keeps_candidates(path, ctx, s1, value);
        },
        ObjectPatPropV::Assign { key, value } => {
            let s1 = note_idents(ctx, st, seq![key]);
            lemma_opt_expr_keeps_candidates(path, ctx, s1, value);
        },
        ObjectPatPropV::Rest(inner) => {
            lemma_pat_keeps_candidates(path, ctx, st, inner);
        },
    }
}

proof fn lemma_param_keeps_candidates(path: Seq<char>, ctx: Context, st: StateV, p: PatV)
    requires
        ctx.in_action_fn,
        no_declaration_param(p),
    ensures
        visited_param(path, ctx, st, p).1.closure_idents == st.closure_idents,
    decreases p, 1int,
{
    lemma_pat_keeps_candidates(path, ctx, st, p);
}

proof fn lemma_declarator_keeps_candidates(
    path: Seq<char>,
    ctx: Context,
    st: StateV,
    d: VarDeclaratorV,
)
    requires
        ctx.in_action_fn,
        no_declaration_declarator(d),
    ensures
        visited_declarator(path, ctx, st, d).1.closure_idents == st.closure_idents,
    decreases d,
{
    lemma_pat_keeps_candidates(path, ctx, st, d.name);
    let s1 = visited_pat(path, ctx, st, d.name).1;
    lemma_opt_expr_keeps_candidates(path, ctx, s1, d.init);
}

proof fn lemma_body_keeps_candidates(
    path: Seq<char>,
    ctx: Context,
    st: StateV,
    b: Option<Seq<StmtV>>,
)
    requires
        ctx.in_action_fn,
        no_declaration_body(b),
    ensures
        visited_body(path, ctx, st, b).1.closure_idents == st.closure_idents,
    decreases b,
{
    match b {
        Some(ss) => {
            lemma_stmts_keep_candidates(path, ctx, st, ss);
        },
        _ => {},
    }
}

proof fn lemma_function_keeps_candidates(path: Seq<char>, ctx: Context, st: StateV, f: FunctionV)
    requires
        ctx.in_action_fn,
        no_declaration_function(f),
    ensures
        visited_function(path, ctx, st, f).1.closure_idents == st.closure_idents,
    decreases f,
{
    lemma_params_keep_candidates(path, ctx, st, f.params);
    let s1 = visited_params(path, ctx, st, f.params).1;
    lemma_body_keeps_candidates(path, ctx, s1, f.body);
}

proof fn lemma_stmt_keeps_candidates(path: Seq<char>, ctx: Context, st: StateV, s: StmtV)
    requires
        ctx.in_action_fn,
        no_declaration_stmt(s),
    ensures
        visited_stmt(path, ctx, st, s).2.closure_idents == st.closure_idents,
    decreases s,
{
    match s {
        StmtV::Expr(e) => {
            lemma_expr_keeps_candidates(path, ctx, st, e);
        },
        StmtV::Return(e) => {
            lemma_opt_expr_keeps_candidates(path, ctx, st, e);
        },
        StmtV::Var(d) => {
            lemma_declarators_keep_candidates(path, ctx, st, d.decls);
        },
        StmtV::Block(b) => {
            lemma_stmts_keep_candidates(path, ctx, st, b);
        },
        StmtV::Other { shape, exprs, body } => {
            lemma_exprs_keep_candidates(path, ctx, st, exprs);
            let s1 = visited_exprs(path, ctx, st, exprs).1;
            lemma_stmts_keep_candidates(path, ctx, s1, body);
        },
        _ => {},
    }
}

proof fn lemma_exprs_keep_candidates(path: Seq<char>, ctx: Context, st: StateV, xs: Seq<ExprV>)
    requires
        ctx.in_action_fn,
        no_declaration_exprs(xs),
    ensures
        visited_exprs(path, ctx, st, xs).1.closure_idents == st.closure_idents,
    decreases xs,
{
    if xs.len() > 0 {
        let shorter = xs.drop_last();
        assert forall|i: int| 0 <= i < shorter.len() implies no_declaration_expr(
            #[trigger] shorter[i],
        ) by {
            assert(no_declaration_expr(xs[i]));
        }
        assert(no_declaration_expr(xs[xs.len() - 1]));
        lemma_exprs_keep_candidates(path, ctx, st, shorter);
        let before = visited_exprs(path, ctx, st, shorter).1;
        lemma_expr_keeps_candidates(path, ctx, before, xs.last());
    }
}

proof fn lemma_props_keep_candidates(path: Seq<char>, ctx: Context, st: StateV, xs: Seq<PropV>)
    requires
        ctx.in_action_fn,
        no_declaration_props(xs),
    ensures
        visited_props(path, ctx, st, xs).1.closure_idents == st.closure_idents,
    decreases xs,
{
    if xs.len() > 0 {
        let shorter = xs.drop_last();
        assert forall|i: int| 0 <= i < shorter.len() implies no_declaration_prop(
            #[trigger] shorter[i],
        ) by {
            assert(no_declaration_prop(xs[i]));
        }
        assert(no_declaration_prop(xs[xs.len() - 1]));
        lemma_props_keep_candidates(path, ctx, st, shorter);
        let before = visited_props(path, ctx, st, shorter).1;
        lemma_prop_keeps_candidates(path, ctx, before, xs.last());
    }
}

proof fn lemma_opt_pats_keep_candidates(
    path: Seq<char>,
    ctx: Context,
    st: StateV,
    xs: Seq<Option<PatV>>,
)
    requires
        ctx.in_action_fn,
        no_declaration_opt_pats(xs),
    ensures
        visited_opt_pats(path, ctx, st, xs).1.closure_idents == st.closure_idents,
    decreases xs,
{
    if xs.len() > 0 {
        let shorter = xs.drop_last();
        assert forall|i: int| 0 <= i < shorter.len() implies no_declaration_opt_pat(
            #[trigger] shorter[i],
        ) by {
            assert(no_declaration_opt_pat(xs[i]));
        }
        assert(no_declaration_opt_pat(xs[xs.len() - 1]));
        lemma_opt_pats_keep_candidates(path, ctx, st, shorter);
        let before = visited_opt_pats(path, ctx, st, shorter).1;
        lemma_opt_pat_keeps_candidates(path, ctx, before, xs.last());
    }
}

proof fn lemma_pat_props_keep_candidates(
    path: Seq<char>,
    ctx: Context,
    st: StateV,
    xs: Seq<ObjectPatPropV>,
)
    requires
        ctx.in_action_fn,
        no_declaration_pat_props(xs),
    ensures
        visited_pat_props(path, ctx, st, xs).1.closure_idents == st.closure_idents,
    decreases xs,
{
    if xs.len() > 0 {
        let shorter = xs.drop_last();
        assert forall|i: int| 0 <= i < shorter.len() implies no_declaration_pat_prop(
            #[trigger] shorter[i],
        ) by {
            assert(no_declaration_pat_prop(xs[i]));
        }
        assert(no_declaration_pat_prop(xs[xs.len() - 1]));
        lemma_pat_props_keep_candidates(path, ctx, st, shorter);
        let before = visited_pat_props(path, ctx, st, shorter).1;
        lemma_pat_prop_keeps_candidates(path, ctx, before, xs.last());
    }
}

proof fn lemma_params_keep_candidates(path: Seq<char>, ctx: Context, st: StateV, xs: Seq<PatV>)
    requires
        ctx.in_action_fn,
        no_declaration_params(xs),
    ensures
        visited_params(path, ctx, st, xs).1.closure_idents == st.closure_idents,
    decreases xs,
{
    if xs.len() > 0 {
        let shorter = xs.drop_last();
        assert forall|i: int| 0 <= i < shorter.len() implies no_declaration_param(
            #[trigger] shorter[i],
        ) by {
            assert(no_declaration_param(xs[i]));
        }
        assert(no_declaration_param(xs[xs.len() - 1]));
        lemma_params_keep_candidates(path, ctx, st, shorter);
        let before = visited_params(path, ctx, st, shorter).1;
        lemma_param_keeps_candidates(path, ctx, before, xs.last());
    }
}

proof fn lemma_declarators_keep_candidates(
    path: Seq<char>,
    ctx: Context,
    st: StateV,
    xs: Seq<VarDeclaratorV>,
)
    requires
        ctx.in_action_fn,
        no_declaration_declarators(xs),
    ensures
        visited_declarators(path, ctx, st, xs).1.closure_idents == st.closure_idents,
    decreases xs,
{
    if xs.len() > 0 {
        let shorter = xs.drop_last();
        assert forall|i: int| 0 <= i < shorter.len() implies no_declaration_declarator(
            #[trigger] shorter[i],
        ) by {
            assert(no_declaration_declarator(xs[i]));
        }
        assert(no_declaration_declarator(xs[xs.len() - 1]));
        lemma_declarators_keep_candidates(path, ctx, st, shorter);
        let before = visited_declarators(path, ctx, st, shorter).1;
        lemma_declarator_keeps_candidates(path, ctx, before, xs.last());
    }
}

proof fn lemma_stmts_keep_candidates(path: Seq<char>, ctx: Context, st: StateV, xs: Seq<StmtV>)
    requires
        ctx.in_action_fn,
        no_declaration_stmts(xs),
    ensures
        visited_stmts(path, ctx, st, xs).1.closure_idents == st.closure_idents,
    decreases xs,
{
    if xs.len() > 0 {
        let shorter = xs.drop_last();
        assert forall|i: int| 0 <= i < shorter.len() implies no_declaration_stmt(
            #[trigger] shorter[i],
        ) by {
            assert(no_declaration_stmt(xs[i]));
        }
        assert(no_declaration_stmt(xs[xs.len() - 1]));
        lemma_stmts_keep_candidates(path, ctx, st, shorter);
        let before = visited_stmts(path, ctx, st, shorter).1;
        lemma_stmt_keeps_candidates(
            path,
            Context { top_level: false, ..ctx },
            before,
            xs.last(),
        );
    }
}

/// What an action declares itself is never captured. The parameters of an action and
/// the variables declared in it are no candidates, also where they stand in a function
/// that is an expression: an action that holds no function declaration captures only
/// bindings that were candidates before it was entered. So an identifier of the action
/// that shares its spelling with an outer binding, but not its scope, stays as it is.
pub proof fn lemma_own_bindings_not_captured(
    path: Seq<char>,
    ctx: Context,
    st: StateV,
    f: FnDeclV,
    x: IdentV,
)
    requires
        is_action(ctx, f),
        no_declaration_function(f.function),
        forall|i: int|
            0 <= i < st.closure_idents.len() && st.closure_idents[i].sym == x.sym
                ==> st.closure_idents[i].scope != x.scope,
    ensures
        walked_fn(path, ctx, st, f).1.closure_idents == st.closure_idents,
        !captured(walked_fn(path, ctx, st, f).1).contains(x),
{
    let inner = inner_context(ctx, f);
    let st1 = note_idents(inner, StateV { action_idents: seq![], ..st }, seq![f.ident]);
    assert(no_declaration_params(f.function.params));
    assert(no_declaration_body(f.function.body));
    lemma_params_keep_candidates(path, inner, st1, f.function.params);
    let p = visited_params(path, inner, st1, f.function.params).1;
    if f.function.body is Some {
        let b = f.function.body->0;
        let ss = body_to_visit(ctx, f)->0;
        assert forall|i: int| 0 <= i < ss.len() implies no_declaration_stmt(#[trigger] ss[i]) by {
            if has_own_directive(ctx, f) {
                assert(ss[i] == b[i + 1]);
                assert(no_declaration_stmt(b[i + 1]));
            } else {
                assert(no_declaration_stmt(b[i]));
            }
        }
        lemma_stmts_keep_candidates(path, inner, p, ss);
    }
    let w = walked_fn(path, ctx, st, f);
    lemma_captures_members(w.1.action_idents, w.1.closure_idents, x);
    if st.closure_idents.contains(x) {
        let i = choose|i: int| 0 <= i < st.closure_idents.len() && st.closure_idents[i] == x;
        assert(st.closure_idents[i].scope == x.scope);
    }
}

} // verus!
