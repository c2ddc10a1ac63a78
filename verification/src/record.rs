//! The record of a file: which actions are found, under which names, and which of
//! them are reported.
use crate::annotate::action_name;
use crate::ast::{
    ExprV, FnDeclV, FunctionV, IdentV, ModuleItemV, ModuleV, ObjectPatPropV, PatV, PropV, StmtV,
    VarDeclaratorV,
};
use crate::directive::{items_start_with_directive, items_without_directive};
use crate::marker::marker_text;
use crate::transform::{
    body_to_visit, covered, function_context, initial_state, inner_context, is_action,
    module_context, note_idents, note_key, note_opt_ident, transformed, visited_body,
    visited_declarator, visited_declarators, visited_expr, visited_exprs, visited_fn_decl,
    visited_function, visited_item, visited_items, visited_module_items, visited_opt_expr,
    visited_opt_pat, visited_opt_pats, visited_param, visited_params, visited_pat,
    visited_pat_prop, visited_pat_props, visited_prop, visited_props, visited_stmt,
    visited_stmts, walked_fn, CommentV, Context, StateV,
};
use vstd::prelude::*;

verus! {
/// An action as it is found: the identifier it is declared under, its stable name,
/// and whether it is declared `async`.
pub struct ActionRecord {
    pub ident: IdentV,
    pub name: Seq<char>,
    pub is_async: bool,
}

/// The stable names of the actions, in order.
pub open spec fn names_of(actions: Seq<ActionRecord>) -> Seq<Seq<char>> {
    Seq::new(actions.len(), |i: int| actions[i].name)
}

/// The actions that are not declared `async`, in order: those that are reported.
pub open spec fn reports_of(actions: Seq<ActionRecord>) -> Seq<IdentV>
    decreases actions.len(),
{
    if actions.len() == 0 {
        seq![]
    } else if actions.last().is_async {
        reports_of(actions.drop_last())
    } else {
        reports_of(actions.drop_last()).push(actions.last().ident)
    }
}

proof fn lemma_reports_of_add(a: Seq<ActionRecord>, b: Seq<ActionRecord>)
    ensures
        reports_of(a + b) == reports_of(a) + reports_of(b),
    decreases b.len(),
{
    if b.len() == 0 {
        assert(a + b =~= a);
        assert(reports_of(a) + reports_of(b) =~= reports_of(a));
    } else {
        lemma_reports_of_add(a, b.drop_last());
        assert((a + b).drop_last() =~= a + b.drop_last());
        assert((a + b).last() == b.last());
        assert(reports_of(a + b) =~= reports_of(a) + reports_of(b));
    }
}

proof fn lemma_reports_len(actions: Seq<ActionRecord>)
    ensures
        reports_of(actions).len() <= actions.len(),
    decreases actions.len(),
{
    if actions.len() > 0 {
        lemma_reports_len(actions.drop_last());
    }
}

/// `later` has put on record, behind what `earlier` held, exactly the given actions:
/// the name of each, and a report for each that is not declared `async`. A file that
/// had actions still has them.
pub open spec fn has_found(earlier: StateV, later: StateV, actions: Seq<ActionRecord>) -> bool {
    &&& later.export_actions == earlier.export_actions + names_of(actions)
    &&& later.diagnostics == earlier.diagnostics + reports_of(actions)
    &&& earlier.has_action ==> later.has_action
}

proof fn lemma_has_found_nothing(earlier: StateV, later: StateV)
    requires
        later.export_actions == earlier.export_actions,
        later.diagnostics == earlier.diagnostics,
        later.has_action == earlier.has_action,
    ensures
        has_found(earlier, later, Seq::<ActionRecord>::empty()),
{
    assert(earlier.export_actions + names_of(Seq::<ActionRecord>::empty())
        =~= earlier.export_actions);
    assert(earlier.diagnostics + reports_of(Seq::<ActionRecord>::empty()) =~= earlier.diagnostics);
}

proof fn lemma_has_found_chain(
    a: StateV,
    b: StateV,
    c: StateV,
    first: Seq<ActionRecord>,
    second: Seq<ActionRecord>,
)
    requires
        has_found(a, b, first),
        has_found(b, c, second),
    ensures
        has_found(a, c, first + second),
{
    lemma_reports_of_add(first, second);
    assert(a.export_actions + names_of(first) + names_of(second) =~= a.export_actions + names_of(
        first + second,
    ));
    assert(a.diagnostics + reports_of(first) + reports_of(second) =~= a.diagnostics + (reports_of(
        first,
    ) + reports_of(second)));
}

/// The actions in a function declaration, in the order of discovery: those inside it,
/// then the function itself if it is one.
pub open spec fn actions_in_fn(ctx: Context, f: FnDeclV) -> Seq<ActionRecord>
    decreases f,
{
    let inner = inner_context(ctx, f);
    let in_body = match body_to_visit(ctx, f) {
        Some(ss) => actions_in_stmts(inner, ss),
        None => seq![],
    };
    let inside = actions_in_params(inner, f.function.params) + in_body;
    if is_action(ctx, f) {
        inside.push(
            ActionRecord {
                ident: f.ident,
                name: action_name(covered(ctx), f.ident.sym),
                is_async: f.function.is_async,
            },
        )
    } else {
        inside
    }
}

pub open spec fn actions_in_expr(ctx: Context, e: ExprV) -> Seq<ActionRecord>
    decreases e,
{
    match e {
        ExprV::Array(elems) => actions_in_exprs(ctx, elems),
        ExprV::Object(props) => actions_in_props(ctx, props),
        ExprV::Call { callee, args } => actions_in_expr(ctx, *callee) + actions_in_exprs(ctx, args),
        ExprV::Member { obj, prop } => actions_in_expr(ctx, *obj),
        ExprV::Index { obj, index } => actions_in_expr(ctx, *obj) + actions_in_expr(ctx, *index),
        ExprV::Assign { left, right } => actions_in_expr(ctx, *left) + actions_in_expr(ctx, *right),
        ExprV::Other { shape, parts } => actions_in_exprs(ctx, parts),
        ExprV::Function { shape, ident, function } => {
            actions_in_function(function_context(ctx), *function)
        },
        _ => seq![],
    }
}

pub open spec fn actions_in_exprs(ctx: Context, xs: Seq<ExprV>) -> Seq<ActionRecord>
    decreases xs,
{
    if xs.len() == 0 {
        seq![]
    } else {
        actions_in_exprs(ctx, xs.drop_last()) + actions_in_expr(ctx, xs.last())
    }
}

pub open spec fn actions_in_opt_expr(ctx: Context, e: Option<ExprV>) -> Seq<ActionRecord>
    decreases e,
{
    match e {
        Some(x) => actions_in_expr(ctx, x),
        _ => seq![],
    }
}

pub open spec fn actions_in_prop(ctx: Context, p: PropV) -> Seq<ActionRecord>
    decreases p,
{
    match p {
        PropV::KeyValue { key, value } => actions_in_expr(ctx, value),
        _ => seq![],
    }
}

pub open spec fn actions_in_props(ctx: Context, xs: Seq<PropV>) -> Seq<ActionRecord>
    decreases xs,
{
    if xs.len() == 0 {
        seq![]
    } else {
        actions_in_props(ctx, xs.drop_last()) + actions_in_prop(ctx, xs.last())
    }
}

pub open spec fn actions_in_pat(ctx: Context, p: PatV) -> Seq<ActionRecord>
    decreases p, 0int,
{
    match p {
        PatV::Array(elems) => actions_in_opt_pats(ctx, elems),
        PatV::Object(props) => actions_in_pat_props(ctx, props),
        PatV::Rest(inner) => actions_in_pat(ctx, *inner),
        PatV::Assign { left, right } => actions_in_pat(ctx, *left) + actions_in_expr(ctx, right),
        _ => seq![],
    }
}

pub open spec fn actions_in_opt_pat(ctx: Context, p: Option<PatV>) -> Seq<ActionRecord>
    decreases p,
{
    match p {
        Some(x) => actions_in_pat(ctx, x),
        _ => seq![],
    }
}

pub open spec fn actions_in_opt_pats(ctx: Context, xs: Seq<Option<PatV>>) -> Seq<ActionRecord>
    decreases xs,
{
    if xs.len() == 0 {
        seq![]
    } else {
        actions_in_opt_pats(ctx, xs.drop_last()) + actions_in_opt_pat(ctx, xs.last())
    }
}

pub open spec fn actions_in_pat_prop(ctx: Context, p: ObjectPatPropV) -> Seq<ActionRecord>
    decreases p,
{
    match p {
        ObjectPatPropV::KeyValue { key, value } => actions_in_pat(ctx, value),
        ObjectPatPropV::Assign { key, value } => actions_in_opt_expr(ctx, value),
        ObjectPatPropV::Rest(inner) => actions_in_pat(ctx, inner),
    }
}

pub open spec fn actions_in_pat_props(ctx: Context, xs: Seq<ObjectPatPropV>) -> Seq<ActionRecord>
    decreases xs,
{
    if xs.len() == 0 {
        seq![]
    } else {
        actions_in_pat_props(ctx, xs.drop_last()) + actions_in_pat_prop(ctx, xs.last())
    }
}

pub open spec fn actions_in_param(ctx: Context, p: PatV) -> Seq<ActionRecord>
    decreases p, 1int,
{
    actions_in_pat(ctx, p)
}

pub open spec fn actions_in_params(ctx: Context, xs: Seq<PatV>) -> Seq<ActionRecord>
    decreases xs,
{
    if xs.len() == 0 {
        seq![]
    } else {
        actions_in_params(ctx, xs.drop_last()) + actions_in_param(ctx, xs.last())
    }
}

pub open spec fn actions_in_declarator(ctx: Context, d: VarDeclaratorV) -> Seq<ActionRecord>
    decreases d,
{
    actions_in_pat(ctx, d.name) + actions_in_opt_expr(ctx, d.init)
}

pub open spec fn actions_in_declarators(ctx: Context, xs: Seq<VarDeclaratorV>) -> Seq<ActionRecord>
    decreases xs,
{
    if xs.len() == 0 {
        seq![]
    } else {
        actions_in_declarators(ctx, xs.drop_last()) + actions_in_declarator(ctx, xs.last())
    }
}

pub open spec fn actions_in_body(ctx: Context, b: Option<Seq<StmtV>>) -> Seq<ActionRecord>
    decreases b,
{
    match b {
        Some(ss) => actions_in_stmts(ctx, ss),
        _ => seq![],
    }
}

pub open spec fn actions_in_function(ctx: Context, f: FunctionV) -> Seq<ActionRecord>
    decreases f,
{
    actions_in_params(ctx, f.params) + actions_in_body(ctx, f.body)
}

pub open spec fn actions_in_stmt(ctx: Context, s: StmtV) -> Seq<ActionRecord>
    decreases s,
{
    match s {
        StmtV::Expr(e) => actions_in_expr(ctx, e),
        StmtV::Return(e) => actions_in_opt_expr(ctx, e),
        StmtV::Var(d) => actions_in_declarators(ctx, d.decls),
        StmtV::Fn(f) => actions_in_fn(ctx, f),
        StmtV::Block(b) => actions_in_stmts(ctx, b),
        StmtV::Other { shape, exprs, body } => {
            actions_in_exprs(ctx, exprs) + actions_in_stmts(ctx, body)
        },
        _ => seq![],
    }
}

pub open spec fn actions_in_stmts(ctx: Context, xs: Seq<StmtV>) -> Seq<ActionRecord>
    decreases xs,
{
    if xs.len() == 0 {
        seq![]
    } else {
        actions_in_stmts(ctx, xs.drop_last()) + actions_in_stmt(
            Context { top_level: false, ..ctx },
            xs.last(),
        )
    }
}

proof fn lemma_expr_finds(path: Seq<char>, ctx: Context, st: StateV, e: ExprV)
    ensures
        has_found(st, visited_expr(path, ctx, st, e).1, actions_in_expr(ctx, e)),
    decreases e,
{
    match e {
        ExprV::Array(elems) => {
            lemma_exprs_find(path, ctx, st, elems);
        },
        ExprV::Object(props) => {
            lemma_props_find(path, ctx, st, props);
        },
        ExprV::Call { callee, args } => {
            lemma_expr_finds(path, ctx, st, *callee);
            let s1 = visited_expr(path, ctx, st, *callee).1;
            lemma_exprs_find(path, ctx, s1, args);
            let s2 = visited_exprs(path, ctx, s1, args).1;
            lemma_has_found_chain(
                st,
                s1,
                s2,
                actions_in_expr(ctx, *callee),
                actions_in_exprs(ctx, args),
            );
        },
        ExprV::Member { obj, prop } => {
            lemma_expr_finds(path, ctx, st, *obj);
        },
        ExprV::Index { obj, index } => {
            lemma_expr_finds(path, ctx, st, *obj);
            let s1 = visited_expr(path, ctx, st, *obj).1;
            lemma_expr_finds(path, ctx, s1, *index);
            let s2 = visited_expr(path, ctx, s1, *index).1;
            lemma_has_found_chain(
                st,
                s1,
                s2,
                actions_in_expr(ctx, *obj),
                actions_in_expr(ctx, *index),
            );
        },
        ExprV::Assign { left, right } => {
            lemma_expr_finds(path, ctx, st, *left);
            let s1 = visited_expr(path, ctx, st, *left).1;
            lemma_expr_finds(path, ctx, s1, *right);
            let s2 = visited_expr(path, ctx, s1, *right).1;
            lemma_has_found_chain(
                st,
                s1,
                s2,
                actions_in_expr(ctx, *left),
                actions_in_expr(ctx, *right),
            );
        },
        ExprV::Other { shape, parts } => {
            lemma_exprs_find(path, ctx, st, parts);
        },
        ExprV::Function { shape, ident, function } => {
            let s1 = note_opt_ident(ctx, st, ident);
            lemma_function_finds(path, function_context(ctx), s1, *function);
        },
        _ => {
            lemma_has_found_nothing(st, visited_expr(path, ctx, st, e).1);
        },
    }
}

proof fn lemma_opt_expr_finds(path: Seq<char>, ctx: Context, st: StateV, e: Option<ExprV>)
    ensures
        has_found(st, visited_opt_expr(path, ctx, st, e).1, actions_in_opt_expr(ctx, e)),
    decreases e,
{
    match e {
        Some(x) => {
            lemma_expr_finds(path, ctx, st, x);
        },
        _ => {
            lemma_has_found_nothing(st, visited_opt_expr(path, ctx, st, e).1);
        },
    }
}

proof fn lemma_prop_finds(path: Seq<char>, ctx: Context, st: StateV, p: PropV)
    ensures
        has_found(st, visited_prop(path, ctx, st, p).1, actions_in_prop(ctx, p)),
    decreases p,
{
    match p {
        PropV::KeyValue { key, value } => {
            let s1 = note_key(ctx, st, key);
            lemma_expr_finds(path, ctx, s1, value);
        },
        _ => {
            lemma_has_found_nothing(st, visited_prop(path, ctx, st, p).1);
        },
    }
}

proof fn lemma_pat_finds(path: Seq<char>, ctx: Context, st: StateV, p: PatV)
    ensures
        has_found(st, visited_pat(path, ctx, st, p).1, actions_in_pat(ctx, p)),
    decreases p, 0int,
{
    match p {
        PatV::Array(elems) => {
            lemma_opt_pats_find(path, ctx, st, elems);
        },
        PatV::Object(props) => {
            lemma_pat_props_find(path, ctx, st, props);
        },
        PatV::Rest(inner) => {
            lemma_pat_finds(path, ctx, st, *inner);
        },
        PatV::Assign { left, right } => {
            lemma_pat_finds(path, ctx, st, *left);
            let s1 = visited_pat(path, ctx, st, *left).1;
            lemma_expr_finds(path, ctx, s1, right);
            let s2 = visited_expr(path, ctx, s1, right).1;
            lemma_has_found_chain(
                st,
                s1,
                s2,
                actions_in_pat(ctx, *left),
                actions_in_expr(ctx, right),
            );
        },
        _ => {
            lemma_has_found_nothing(st, visited_pat(path, ctx, st, p).1);
        },
    }
}

proof fn lemma_opt_pat_finds(path: Seq<char>, ctx: Context, st: StateV, p: Option<PatV>)
    ensures
        has_found(st, visited_opt_pat(path, ctx, st, p).1, actions_in_opt_pat(ctx, p)),
    decreases p,
{
    match p {
        Some(x) => {
            lemma_pat_finds(path, ctx, st, x);
        },
        _ => {
            lemma_has_found_nothing(st, visited_opt_pat(path, ctx, st, p).1);
        },
    }
}

proof fn lemma_pat_prop_finds(path: Seq<char>, ctx: Context, st: StateV, p: ObjectPatPropV)
    ensures
        has_found(st, visited_pat_prop(path, ctx, st, p).1, actions_in_pat_prop(ctx, p)),
    decreases p,
{
    match p {
        ObjectPatPropV::KeyValue { key, value } => {
            let s1 = note_key(ctx, st, key);
            lemma_pat_finds(path, ctx, s1, value);
        },
        ObjectPatPropV::Assign { key, value } => {
            let s1 = note_idents(ctx, st, seq![key]);
            lemma_opt_expr_finds(path, ctx, s1, value);
        },
        ObjectPatPropV::Rest(inner) => {
            lemma_pat_finds(path, ctx, st, inner);
        },
    }
}

proof fn lemma_param_finds(path: Seq<char>, ctx: Context, st: StateV, p: PatV)
    ensures
        has_found(st, visited_param(path, ctx, st, p).1, actions_in_param(ctx, p)),
    decreases p, 1int,
{
    lemma_pat_finds(path, ctx, st, p);
}

proof fn lemma_declarator_finds(path: Seq<char>, ctx: Context, st: StateV, d: VarDeclaratorV)
    ensures
        has_found(st, visited_declarator(path, ctx, st, d).1, actions_in_declarator(ctx, d)),
    decreases d,
{
    lemma_pat_finds(path, ctx, st, d.name);
    let s1 = visited_pat(path, ctx, st, d.name).1;
    lemma_opt_expr_finds(path, ctx, s1, d.init);
    let s2 = visited_opt_expr(path, ctx, s1, d.init).1;
    lemma_has_found_chain(
        st,
        s1,
        s2,
        actions_in_pat(ctx, d.name),
        actions_in_opt_expr(ctx, d.init),
    );
}

proof fn lemma_body_finds(path: Seq<char>, ctx: Context, st: StateV, b: Option<Seq<StmtV>>)
    ensures
        has_found(st, visited_body(path, ctx, st, b).1, actions_in_body(ctx, b)),
    decreases b,
{
    match b {
        Some(ss) => {
            lemma_stmts_find(path, ctx, st, ss);
        },
        _ => {
            lemma_has_found_nothing(st, visited_body(path, ctx, st, b).1);
        },
    }
}

proof fn lemma_function_finds(path: Seq<char>, ctx: Context, st: StateV, f: FunctionV)
    ensures
        has_found(st, visited_function(path, ctx, st, f).1, actions_in_function(ctx, f)),
    decreases f,
{
    lemma_params_find(path, ctx, st, f.params);
    let s1 = visited_params(path, ctx, st, f.params).1;
    lemma_body_finds(path, ctx, s1, f.body);
    let s2 = visited_body(path, ctx, s1, f.body).1;
    lemma_has_found_chain(
        st,
        s1,
        s2,
        actions_in_params(ctx, f.params),
        actions_in_body(ctx, f.body),
    );
}

proof fn lemma_stmt_finds(path: Seq<char>, ctx: Context, st: StateV, s: StmtV)
    ensures
        has_found(st, visited_stmt(path, ctx, st, s).2, actions_in_stmt(ctx, s)),
    decreases s,
{
    match s {
        StmtV::Expr(e) => {
            lemma_expr_finds(path, ctx, st, e);
        },
        StmtV::Return(e) => {
            lemma_opt_expr_finds(path, ctx, st, e);
        },
        StmtV::Var(d) => {
            lemma_declarators_find(path, ctx, st, d.decls);
        },
        StmtV::Fn(f) => {
            lemma_fn_finds(path, ctx, st, f);
        },
        StmtV::Block(b) => {
            lemma_stmts_find(path, ctx, st, b);
        },
        StmtV::Other { shape, exprs, body } => {
            lemma_exprs_find(path, ctx, st, exprs);
            let s1 = visited_exprs(path, ctx, st, exprs).1;
            lemma_stmts_find(path, ctx, s1, body);
            let s2 = visited_stmts(path, ctx, s1, body).1;
            lemma_has_found_chain(
                st,
                s1,
                s2,
                actions_in_exprs(ctx, exprs),
                actions_in_stmts(ctx, body),
            );
        },
        _ => {
            lemma_has_found_nothing(st, visited_stmt(path, ctx, st, s).2);
        },
    }
}

proof fn lemma_exprs_find(path: Seq<char>, ctx: Context, st: StateV, xs: Seq<ExprV>)
    ensures
        has_found(st, visited_exprs(path, ctx, st, xs).1, actions_in_exprs(ctx, xs)),
    decreases xs,
{
    if xs.len() > 0 {
        lemma_exprs_find(path, ctx, st, xs.drop_last());
        let before = visited_exprs(path, ctx, st, xs.drop_last()).1;
        lemma_expr_finds(path, ctx, before, xs.last());
        let last = visited_expr(path, ctx, before, xs.last()).1;
        lemma_has_found_chain(
            st,
            before,
            last,
            actions_in_exprs(ctx, xs.drop_last()),
            actions_in_expr(ctx, xs.last()),
        );
    } else {
        lemma_has_found_nothing(st, st);
    }
}

proof fn lemma_props_find(path: Seq<char>, ctx: Context, st: StateV, xs: Seq<PropV>)
    ensures
        has_found(st, visited_props(path, ctx, st, xs).1, actions_in_props(ctx, xs)),
    decreases xs,
{
    if xs.len() > 0 {
        lemma_props_find(path, ctx, st, xs.drop_last());
        let before = visited_props(path, ctx, st, xs.drop_last()).1;
        lemma_prop_finds(path, ctx, before, xs.last());
        let last = visited_prop(path, ctx, before, xs.last()).1;
        lemma_has_found_chain(
            st,
            before,
            last,
            actions_in_props(ctx, xs.drop_last()),
            actions_in_prop(ctx, xs.last()),
        );
    } else {
        lemma_has_found_nothing(st, st);
    }
}

proof fn lemma_opt_pats_find(path: Seq<char>, ctx: Context, st: StateV, xs: Seq<Option<PatV>>)
    ensures
        has_found(st, visited_opt_pats(path, ctx, st, xs).1, actions_in_opt_pats(ctx, xs)),
    decreases xs,
{
    if xs.len() > 0 {
        lemma_opt_pats_find(path, ctx, st, xs.drop_last());
        let before = visited_opt_pats(path, ctx, st, xs.drop_last()).1;
        lemma_opt_pat_finds(path, ctx, before, xs.last());
        let last = visited_opt_pat(path, ctx, before, xs.last()).1;
        lemma_has_found_chain(
            st,
            before,
            last,
            actions_in_opt_pats(ctx, xs.drop_last()),
            actions_in_opt_pat(ctx, xs.last()),
        );
    } else {
        lemma_has_found_nothing(st, st);
    }
}

proof fn lemma_pat_props_find(path: Seq<char>, ctx: Context, st: StateV, xs: Seq<ObjectPatPropV>)
    ensures
        has_found(st, visited_pat_props(path, ctx, st, xs).1, actions_in_pat_props(ctx, xs)),
    decreases xs,
{
    if xs.len() > 0 {
        lemma_pat_props_find(path, ctx, st, xs.drop_last());
        let before = visited_pat_props(path, ctx, st, xs.drop_last()).1;
        lemma_pat_prop_finds(path, ctx, before, xs.last());
        let last = visited_pat_prop(path, ctx, before, xs.last()).1;
        lemma_has_found_chain(
            st,
            before,
            last,
            actions_in_pat_props(ctx, xs.drop_last()),
            actions_in_pat_prop(ctx, xs.last()),
        );
    } else {
        lemma_has_found_nothing(st, st);
    }
}

proof fn lemma_params_find(path: Seq<char>, ctx: Context, st: StateV, xs: Seq<PatV>)
    ensures
        has_found(st, visited_params(path, ctx, st, xs).1, actions_in_params(ctx, xs)),
    decreases xs,
{
    if xs.len() > 0 {
        lemma_params_find(path, ctx, st, xs.drop_last());
        let before = visited_params(path, ctx, st, xs.drop_last()).1;
        lemma_param_finds(path, ctx, before, xs.last());
        let last = visited_param(path, ctx, before, xs.last()).1;
        lemma_has_found_chain(
            st,
            before,
            last,
            actions_in_params(ctx, xs.drop_last()),
            actions_in_param(ctx, xs.last()),
        );
    } else {
        lemma_has_found_nothing(st, st);
    }
}

proof fn lemma_declarators_find(path: Seq<char>, ctx: Context, st: StateV, xs: Seq<VarDeclaratorV>)
    ensures
        has_found(st, visited_declarators(path, ctx, st, xs).1, actions_in_declarators(ctx, xs)),
    decreases xs,
{
    if xs.len() > 0 {
        lemma_declarators_find(path, ctx, st, xs.drop_last());
        let before = visited_declarators(path, ctx, st, xs.drop_last()).1;
        lemma_declarator_finds(path, ctx, before, xs.last());
        let last = visited_declarator(path, ctx, before, xs.last()).1;
        lemma_has_found_chain(
            st,
            before,
            last,
            actions_in_declarators(ctx, xs.drop_last()),
            actions_in_declarator(ctx, xs.last()),
        );
    } else {
        lemma_has_found_nothing(st, st);
    }
}

proof fn lemma_stmts_find(path: Seq<char>, ctx: Context, st: StateV, xs: Seq<StmtV>)
    ensures
        has_found(st, visited_stmts(path, ctx, st, xs).1, actions_in_stmts(ctx, xs)),
    decreases xs,
{
    if xs.len() > 0 {
        lemma_stmts_find(path, ctx, st, xs.drop_last());
        let before = visited_stmts(path, ctx, st, xs.drop_last()).1;
        lemma_stmt_finds(
            path,
            Context { top_level: false, ..ctx },
            before,
            xs.last(),
        );
        let last = visited_stmt(path, Context { top_level: false, ..ctx }, before, xs.last()).2;
        lemma_has_found_chain(
            st,
            before,
            last,
            actions_in_stmts(ctx, xs.drop_last()),
            actions_in_stmt(Context { top_level: false, ..ctx }, xs.last()),
        );
    } else {
        lemma_has_found_nothing(st, st);
    }
}

#[verifier::rlimit(40)]
proof fn lemma_fn_finds(path: Seq<char>, ctx: Context, st: StateV, f: FnDeclV)
    ensures
        has_found(st, visited_fn_decl(path, ctx, st, f).2, actions_in_fn(ctx, f)),
    decreases f,
{
    let inner = inner_context(ctx, f);
    let st1 = note_idents(inner, StateV { action_idents: seq![], ..st }, seq![f.ident]);
    lemma_params_find(path, inner, st1, f.function.params);
    let p = visited_params(path, inner, st1, f.function.params).1;
    let in_params = actions_in_params(inner, f.function.params);
    let in_body = match body_to_visit(ctx, f) {
        Some(ss) => actions_in_stmts(inner, ss),
        None => seq![],
    };
    match body_to_visit(ctx, f) {
        Some(ss) => {
            lemma_stmts_find(path, inner, p, ss);
        },
        None => {
            lemma_has_found_nothing(p, p);
        },
    }
    let w = walked_fn(path, ctx, st, f);
    lemma_has_found_chain(st1, p, w.1, in_params, in_body);
    let inside = in_params + in_body;
    assert(has_found(st, w.1, inside));
    let r = visited_fn_decl(path, ctx, st, f);
    if is_action(ctx, f) {
        let one = seq![
            ActionRecord {
                ident: f.ident,
                name: action_name(covered(ctx), f.ident.sym),
                is_async: f.function.is_async,
            },
        ];
        assert(inside.push(one[0]) =~= inside + one);
        assert(names_of(one) =~= seq![one[0].name]);
        assert(one.drop_last() =~= Seq::<ActionRecord>::empty());
        assert(reports_of(Seq::<ActionRecord>::empty()) =~= Seq::<IdentV>::empty());
        assert(one.last() == one[0]);
        assert(reports_of(one) =~= if f.function.is_async {
            Seq::<IdentV>::empty()
        } else {
            seq![f.ident]
        });
        lemma_reports_of_add(inside, one);
        assert(r.2.export_actions =~= st.export_actions + names_of(inside + one));
        assert(r.2.diagnostics =~= st.diagnostics + reports_of(inside + one));
    }
}

pub open spec fn actions_in_item(ctx: Context, item: ModuleItemV) -> Seq<ActionRecord> {
    match item {
        ModuleItemV::Stmt(s) => actions_in_stmt(ctx, s),
        ModuleItemV::ExportFn(f) => actions_in_fn(Context { in_export_decl: true, ..ctx }, f),
        ModuleItemV::ExportVar(d) => actions_in_declarators(
            Context { in_export_decl: true, ..ctx },
            d.decls,
        ),
        ModuleItemV::Opaque(_) => seq![],
    }
}

pub open spec fn actions_in_items(ctx: Context, items: Seq<ModuleItemV>) -> Seq<ActionRecord>
    decreases items.len(),
{
    if items.len() == 0 {
        seq![]
    } else {
        actions_in_items(ctx, items.drop_last()) + actions_in_item(
            Context { top_level: true, ..ctx },
            items.last(),
        )
    }
}

/// The actions of a module, in the order of discovery.
pub open spec fn actions_in_module(m: ModuleV) -> Seq<ActionRecord> {
    actions_in_items(module_context(m.body), items_without_directive(m.body))
}

proof fn lemma_item_finds(path: Seq<char>, ctx: Context, st: StateV, item: ModuleItemV)
    ensures
        has_found(st, visited_item(path, ctx, st, item).2, actions_in_item(ctx, item)),
{
    let exported = Context { in_export_decl: true, ..ctx };
    match item {
        ModuleItemV::Stmt(s) => {
            lemma_stmt_finds(path, ctx, st, s);
        },
        ModuleItemV::ExportFn(f) => {
            lemma_fn_finds(path, exported, st, f);
        },
        ModuleItemV::ExportVar(d) => {
            lemma_declarators_find(path, exported, st, d.decls);
        },
        ModuleItemV::Opaque(_) => {
            lemma_has_found_nothing(st, st);
        },
    }
}

proof fn lemma_items_find(path: Seq<char>, ctx: Context, st: StateV, items: Seq<ModuleItemV>)
    ensures
        has_found(st, visited_items(path, ctx, st, items).1, actions_in_items(ctx, items)),
    decreases items.len(),
{
    if items.len() > 0 {
        let at = Context { top_level: true, ..ctx };
        lemma_items_find(path, ctx, st, items.drop_last());
        let before = visited_items(path, ctx, st, items.drop_last());
        let last = visited_item(path, at, before.1, items.last());
        lemma_item_finds(path, at, before.1, items.last());
        lemma_has_found_chain(
            st,
            before.1,
            last.2,
            actions_in_items(ctx, items.drop_last()),
            actions_in_item(at, items.last()),
        );
    } else {
        lemma_has_found_nothing(st, st);
    }
}

/// The names that the marker comment of a module lists.
pub open spec fn action_names(path: Seq<char>, m: ModuleV) -> Seq<Seq<char>> {
    visited_module_items(path, initial_state(), m.body).1.export_actions
}

/// Over a whole module, the names that the marker comment lists are the stable names
/// of the functions that are actions, in the order of discovery, and the reports are
/// those among them that are not declared `async`: one report for each, and none for
/// an action that is declared `async` or for a function that is no action.
pub proof fn lemma_module_record(path: Seq<char>, m: ModuleV)
    ensures
        action_names(path, m) == names_of(actions_in_module(m)),
        transformed(path, m).diagnostics == reports_of(actions_in_module(m)),
        transformed(path, m).diagnostics.len() <= actions_in_module(m).len(),
{
    let st = StateV { has_action: items_start_with_directive(m.body), ..initial_state() };
    lemma_items_find(path, module_context(m.body), st, items_without_directive(m.body));
    let actions = actions_in_module(m);
    assert(Seq::<Seq<char>>::empty() + names_of(actions) =~= names_of(actions));
    assert(Seq::<IdentV>::empty() + reports_of(actions) =~= reports_of(actions));
    lemma_reports_len(actions);
}

/// A file that starts with the directive gets one marker comment, at its start, that
/// lists the stable names of its actions in the order of discovery.
pub proof fn lemma_action_file_has_marker(path: Seq<char>, m: ModuleV)
    requires
        items_start_with_directive(m.body),
    ensures
        transformed(path, m).comment == Some(
            CommentV { pos: m.start, text: marker_text(names_of(actions_in_module(m))) },
        ),
{
    let start = StateV { has_action: true, ..initial_state() };
    lemma_items_find(path, module_context(m.body), start, items_without_directive(m.body));
    lemma_module_record(path, m);
}

/// The place of an item's own record among the actions of the module: behind those
/// of the items before it and of what is inside it.
proof fn lemma_actions_of_item(ctx: Context, items: Seq<ModuleItemV>, k: int)
    requires
        0 <= k < items.len(),
    ensures
        actions_in_items(ctx, items.take(k + 1)) == actions_in_items(ctx, items.take(k))
            + actions_in_item(Context { top_level: true, ..ctx }, items[k]),
        actions_in_items(ctx, items.take(k + 1)).len() <= actions_in_items(ctx, items).len(),
        forall|i: int|
            0 <= i < actions_in_items(ctx, items.take(k + 1)).len() ==> actions_in_items(
                ctx,
                items,
            )[i] == actions_in_items(ctx, items.take(k + 1))[i],
    decreases items.len() - k,
{
    assert(items.take(k + 1).drop_last() =~= items.take(k));
    assert(items.take(k + 1).last() == items[k]);
    if k + 1 < items.len() {
        lemma_actions_of_item(ctx, items, k + 1);
        assert(items.take(k + 2).drop_last() =~= items.take(k + 1));
    } else {
        assert(items.take(k + 1) =~= items);
    }
}

/// In a file that starts with the directive, a function that is exported as it stands
/// is an action under its own declared name: its record, with that name, is among the
/// actions of the module, so the marker comment lists the name and the function is
/// reported exactly if it is not declared `async`.
pub proof fn lemma_exported_action_keeps_name(m: ModuleV, k: int, f: FnDeclV)
    requires
        items_start_with_directive(m.body),
        0 <= k < items_without_directive(m.body).len(),
        items_without_directive(m.body)[k] == ModuleItemV::ExportFn(f),
    ensures
        actions_in_module(m).contains(
            ActionRecord { ident: f.ident, name: f.ident.sym, is_async: f.function.is_async },
        ),
        names_of(actions_in_module(m)).contains(f.ident.sym),
{
    let items = items_without_directive(m.body);
    let ctx = module_context(m.body);
    let at = Context { in_export_decl: true, ..Context { top_level: true, ..ctx } };
    lemma_actions_of_item(ctx, items, k);
    let upto = actions_in_items(ctx, items.take(k + 1));
    let own = actions_in_fn(at, f);
    assert(covered(at));
    assert(is_action(at, f));
    let record = ActionRecord {
        ident: f.ident,
        name: f.ident.sym,
        is_async: f.function.is_async,
    };
    assert(own.last() == record);
    let place = upto.len() - 1;
    assert(upto[place] == record);
    assert(actions_in_module(m)[place] == record);
    assert(names_of(actions_in_module(m))[place] == f.ident.sym);
}

} // verus!
