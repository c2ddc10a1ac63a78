//! The traversal: one descent through a module that finds the actions, names them,
//! computes what each nested one captures, hoists it, and attaches the annotations.
use crate::annotate::{
    action_name, base_annotations, closure_annotation, export_alias, forwarding_body, hoisted_fn,
    make_action_name, make_base_annotations, make_closure_annotation, make_export_alias,
    make_forwarding_body, make_hoisted_fn,
};
use crate::ast::{
    declarators_view, exprs_view, fn_decl_view, function_view, idents_view, items_view,
    lemma_idents_view_add, lemma_idents_view_push, opt_expr_view, opt_ident_view, opt_pat_view,
    opt_pats_view, pat_props_view, pats_view, props_view, stmts_view, strings_view, Expr, ExprV,
    FnDecl, FnDeclV, Function, FunctionV, Ident, IdentV, Module, ModuleItem, ModuleItemV,
    ModuleV, ObjectPatProp, ObjectPatPropV, Pat, PatV, Prop, PropName, PropNameV, PropV, Scope,
    Stmt, StmtV, VarDecl, VarDeclV, VarDeclarator, VarDeclaratorV,
};
use crate::binders::{
    collect_idents_in_param, collect_idents_in_stmt, pat_binders_with_rest, stmt_binders,
};
use crate::capture::{capture_list, captures};
use crate::directive::{
    is_directive_stmt, items_start_with_directive, items_without_directive,
    starts_with_directive, strip_file_directive,
};
use crate::marker::{marker_comment, marker_text};
use crate::rewrite::{replace_body, ClosureReplacer};
use vstd::prelude::*;

verus! {

/// Where the traversal stands. It is handed down by value: what a scope changes in it
/// is gone when the scope is left.
#[derive(Clone, Copy, PartialEq, Eq, Structural, Debug)]
pub struct Context {
    /// The file starts with the directive.
    pub in_action_file: bool,
    /// Inside an export declaration.
    pub in_export_decl: bool,
    /// Directly in the module's own body, not inside any function.
    pub in_module: bool,
    /// Inside a function that is an action.
    pub in_action_fn: bool,
    /// The statement at hand is an item of the module itself.
    pub top_level: bool,
}

/// What the caller decides about a file.
#[derive(Clone, Copy, PartialEq, Eq, Structural, Debug)]
pub struct Config {
    /// Whether the file is compiled for the server side. The caller runs the pass only
    /// where this holds; the pass itself does not look at it.
    pub is_server: bool,
}

/// What the traversal has gathered so far in one file.
pub struct ServerActions {
    pub config: Config,
    /// The path written into the `$$filepath` annotations.
    pub file_name: String,
    /// A file directive or an action has been seen.
    pub has_action: bool,
    /// Bindings declared so far by scopes that are not actions: what a nested action
    /// may capture.
    pub closure_idents: Vec<Ident>,
    /// Identifiers that occurred in the action functions visited so far within the
    /// function at hand.
    pub action_idents: Vec<Ident>,
    /// The stable names of the actions found, in discovery order.
    pub export_actions: Vec<String>,
    /// Synthesized items that wait to be placed after the module item at hand.
    pub extra_items: Vec<ModuleItem>,
    /// The names of the actions that are not declared `async`.
    pub diagnostics: Vec<Ident>,
}

#[verifier::ext_equal]
pub struct StateV {
    pub has_action: bool,
    pub closure_idents: Seq<IdentV>,
    pub action_idents: Seq<IdentV>,
    pub export_actions: Seq<Seq<char>>,
    pub extra_items: Seq<ModuleItemV>,
    pub diagnostics: Seq<IdentV>,
}

impl View for ServerActions {
    type V = StateV;

    open spec fn view(&self) -> StateV {
        StateV {
            has_action: self.has_action,
            closure_idents: idents_view(self.closure_idents@),
            action_idents: idents_view(self.action_idents@),
            export_actions: strings_view(self.export_actions@),
            extra_items: items_view(self.extra_items@),
            diagnostics: idents_view(self.diagnostics@),
        }
    }
}

/// The state before anything has been visited.
pub open spec fn initial_state() -> StateV {
    StateV {
        has_action: false,
        closure_idents: seq![],
        action_idents: seq![],
        export_actions: seq![],
        extra_items: seq![],
        diagnostics: seq![],
    }
}

/// Identifiers are recorded only inside an action function.
pub open spec fn note_idents(ctx: Context, st: StateV, ids: Seq<IdentV>) -> StateV {
    if ctx.in_action_fn {
        StateV { action_idents: st.action_idents + ids, ..st }
    } else {
        st
    }
}

/// Whether what is declared here is a candidate for capture: only inside a function
/// body, and only outside actions.
pub open spec fn feeds_candidates(ctx: Context) -> bool {
    !ctx.in_module && !ctx.in_action_fn && !ctx.in_action_file
}

/// What is declared becomes a candidate, where the traversal stands in such a place.
pub open spec fn note_binders(ctx: Context, st: StateV, ids: Seq<IdentV>) -> StateV {
    if feeds_candidates(ctx) {
        StateV { closure_idents: st.closure_idents + ids, ..st }
    } else {
        st
    }
}

/// Whether a function is exported as it stands from an action file, so that it is an
/// action under its own name and its body is not searched for a directive.
pub open spec fn covered(ctx: Context) -> bool {
    ctx.in_action_file && ctx.in_export_decl
}

/// Whether a function declared here is an action.
pub open spec fn is_action(ctx: Context, f: FnDeclV) -> bool {
    ctx.in_action_file || has_own_directive(ctx, f)
}

/// Whether the function's body starts with a directive that is consulted.
pub open spec fn has_own_directive(ctx: Context, f: FnDeclV) -> bool {
    !covered(ctx) && f.function.body is Some && starts_with_directive(f.function.body->0)
}

/// The context in which the children of a function declared here are visited.
pub open spec fn inner_context(ctx: Context, f: FnDeclV) -> Context {
    Context { in_action_fn: is_action(ctx, f), in_module: false, ..ctx }
}

/// The identifier that the hoisted function or the exported alias of the action with
/// discovery index `index` is declared under.
pub open spec fn action_ident(name: Seq<char>, index: nat) -> IdentV {
    IdentV { sym: name, scope: Scope::Action(index as usize) }
}

/// The capture parameter of the function hoisted for the action with discovery index
/// `index`.
pub open spec fn closure_arg(index: nat) -> IdentV {
    IdentV { sym: "closure"@, scope: Scope::Closure(index as usize) }
}

/// An identifier that may be missing.
pub open spec fn note_opt_ident(ctx: Context, st: StateV, i: Option<IdentV>) -> StateV {
    match i {
        Some(i) => note_idents(ctx, st, seq![i]),
        None => st,
    }
}

/// The key of a property, where it is an identifier.
pub open spec fn note_key(ctx: Context, st: StateV, key: PropNameV) -> StateV {
    match key {
        PropNameV::Ident(i) => note_idents(ctx, st, seq![i]),
        PropNameV::Str(_) => st,
    }
}

/// The context inside a function that is an expression: no longer in the module's
/// own body, and an action exactly where the expression stands in one.
pub open spec fn function_context(ctx: Context) -> Context {
    Context { in_module: false, ..ctx }
}

/// An expression after the visit, and the state. Every identifier in it is recorded,
/// in source order; a function in it is visited as a function is.
pub open spec fn visited_expr(path: Seq<char>, ctx: Context, st: StateV, e: ExprV) -> (
    ExprV,
    StateV,
)
    decreases e,
{
    match e {
        ExprV::Ident(i) => (e, note_idents(ctx, st, seq![i])),
        ExprV::Str(_) => (e, st),
        ExprV::Num(_) => (e, st),
        ExprV::Opaque(_) => (e, st),
        ExprV::Array(elems) => {
            let r = visited_exprs(path, ctx, st, elems);
            (ExprV::Array(r.0), r.1)
        },
        ExprV::Object(props) => {
            let r = visited_props(path, ctx, st, props);
            (ExprV::Object(r.0), r.1)
        },
        ExprV::Call { callee, args } => {
            let c = visited_expr(path, ctx, st, *callee);
            let a = visited_exprs(path, ctx, c.1, args);
            (ExprV::Call { callee: Box::new(c.0), args: a.0 }, a.1)
        },
        ExprV::Member { obj, prop } => {
            let o = visited_expr(path, ctx, st, *obj);
            (ExprV::Member { obj: Box::new(o.0), prop }, note_idents(ctx, o.1, seq![prop]))
        },
        ExprV::Index { obj, index } => {
            let o = visited_expr(path, ctx, st, *obj);
            let i = visited_expr(path, ctx, o.1, *index);
            (ExprV::Index { obj: Box::new(o.0), index: Box::new(i.0) }, i.1)
        },
        ExprV::Assign { left, right } => {
            let l = visited_expr(path, ctx, st, *left);
            let r = visited_expr(path, ctx, l.1, *right);
            (ExprV::Assign { left: Box::new(l.0), right: Box::new(r.0) }, r.1)
        },
        ExprV::Other { shape, parts } => {
            let r = visited_exprs(path, ctx, st, parts);
            (ExprV::Other { shape, parts: r.0 }, r.1)
        },
        ExprV::Function { shape, ident, function } => {
            let r = visited_function(
                path,
                function_context(ctx),
                note_opt_ident(ctx, st, ident),
                *function,
            );
            (ExprV::Function { shape, ident, function: Box::new(r.0) }, r.1)
        },
    }
}

pub open spec fn visited_exprs(path: Seq<char>, ctx: Context, st: StateV, es: Seq<ExprV>) -> (
    Seq<ExprV>,
    StateV,
)
    decreases es,
{
    if es.len() == 0 {
        (seq![], st)
    } else {
        let before = visited_exprs(path, ctx, st, es.drop_last());
        let last = visited_expr(path, ctx, before.1, es.last());
        (before.0.push(last.0), last.1)
    }
}

pub open spec fn visited_opt_expr(path: Seq<char>, ctx: Context, st: StateV, e: Option<ExprV>)
    -> (Option<ExprV>, StateV)
    decreases e,
{
    match e {
        Some(e) => {
            let r = visited_expr(path, ctx, st, e);
            (Some(r.0), r.1)
        },
        None => (None, st),
    }
}

pub open spec fn visited_prop(path: Seq<char>, ctx: Context, st: StateV, p: PropV) -> (
    PropV,
    StateV,
)
    decreases p,
{
    match p {
        PropV::Shorthand(i) => (p, note_idents(ctx, st, seq![i])),
        PropV::KeyValue { key, value } => {
            let r = visited_expr(path, ctx, note_key(ctx, st, key), value);
            (PropV::KeyValue { key, value: r.0 }, r.1)
        },
        PropV::Opaque(_) => (p, st),
    }
}

pub open spec fn visited_props(path: Seq<char>, ctx: Context, st: StateV, ps: Seq<PropV>) -> (
    Seq<PropV>,
    StateV,
)
    decreases ps,
{
    if ps.len() == 0 {
        (seq![], st)
    } else {
        let before = visited_props(path, ctx, st, ps.drop_last());
        let last = visited_prop(path, ctx, before.1, ps.last());
        (before.0.push(last.0), last.1)
    }
}

/// A pattern after the visit, and the state: its identifiers are recorded, and the
/// expressions in it are visited.
pub open spec fn visited_pat(path: Seq<char>, ctx: Context, st: StateV, p: PatV) -> (PatV, StateV)
    decreases p, 0int,
{
    match p {
        PatV::Ident(i) => (p, note_idents(ctx, st, seq![i])),
        PatV::Opaque(_) => (p, st),
        PatV::Array(elems) => {
            let r = visited_opt_pats(path, ctx, st, elems);
            (PatV::Array(r.0), r.1)
        },
        PatV::Object(props) => {
            let r = visited_pat_props(path, ctx, st, props);
            (PatV::Object(r.0), r.1)
        },
        PatV::Rest(inner) => {
            let r = visited_pat(path, ctx, st, *inner);
            (PatV::Rest(Box::new(r.0)), r.1)
        },
        PatV::Assign { left, right } => {
            let l = visited_pat(path, ctx, st, *left);
            let r = visited_expr(path, ctx, l.1, right);
            (PatV::Assign { left: Box::new(l.0), right: r.0 }, r.1)
        },
    }
}

pub open spec fn visited_opt_pat(path: Seq<char>, ctx: Context, st: StateV, p: Option<PatV>) -> (
    Option<PatV>,
    StateV,
)
    decreases p,
{
    match p {
        Some(p) => {
            let r = visited_pat(path, ctx, st, p);
            (Some(r.0), r.1)
        },
        None => (None, st),
    }
}

pub open spec fn visited_opt_pats(
    path: Seq<char>,
    ctx: Context,
    st: StateV,
    ps: Seq<Option<PatV>>,
) -> (Seq<Option<PatV>>, StateV)
    decreases ps,
{
    if ps.len() == 0 {
        (seq![], st)
    } else {
        let before = visited_opt_pats(path, ctx, st, ps.drop_last());
        let last = visited_opt_pat(path, ctx, before.1, ps.last());
        (before.0.push(last.0), last.1)
    }
}

pub open spec fn visited_pat_prop(path: Seq<char>, ctx: Context, st: StateV, p: ObjectPatPropV)
    -> (ObjectPatPropV, StateV)
    decreases p,
{
    match p {
        ObjectPatPropV::KeyValue { key, value } => {
            let r = visited_pat(path, ctx, note_key(ctx, st, key), value);
            (ObjectPatPropV::KeyValue { key, value: r.0 }, r.1)
        },
        ObjectPatPropV::Assign { key, value } => {
            let r = visited_opt_expr(path, ctx, note_idents(ctx, st, seq![key]), value);
            (ObjectPatPropV::Assign { key, value: r.0 }, r.1)
        },
        ObjectPatPropV::Rest(inner) => {
            let r = visited_pat(path, ctx, st, inner);
            (ObjectPatPropV::Rest(r.0), r.1)
        },
    }
}

pub open spec fn visited_pat_props(
    path: Seq<char>,
    ctx: Context,
    st: StateV,
    ps: Seq<ObjectPatPropV>,
) -> (Seq<ObjectPatPropV>, StateV)
    decreases ps,
{
    if ps.len() == 0 {
        (seq![], st)
    } else {
        let before = visited_pat_props(path, ctx, st, ps.drop_last());
        let last = visited_pat_prop(path, ctx, before.1, ps.last());
        (before.0.push(last.0), last.1)
    }
}

/// A parameter after the visit, and the state: it is visited as a pattern is, then
/// what it binds becomes a candidate.
pub open spec fn visited_param(path: Seq<char>, ctx: Context, st: StateV, p: PatV) -> (
    PatV,
    StateV,
)
    decreases p, 1int,
{
    let r = visited_pat(path, ctx, st, p);
    (r.0, note_binders(ctx, r.1, pat_binders_with_rest(p)))
}

pub open spec fn visited_params(path: Seq<char>, ctx: Context, st: StateV, ps: Seq<PatV>) -> (
    Seq<PatV>,
    StateV,
)
    decreases ps,
{
    if ps.len() == 0 {
        (seq![], st)
    } else {
        let before = visited_params(path, ctx, st, ps.drop_last());
        let last = visited_param(path, ctx, before.1, ps.last());
        (before.0.push(last.0), last.1)
    }
}

pub open spec fn visited_declarator(
    path: Seq<char>,
    ctx: Context,
    st: StateV,
    d: VarDeclaratorV,
) -> (VarDeclaratorV, StateV)
    decreases d,
{
    let n = visited_pat(path, ctx, st, d.name);
    let i = visited_opt_expr(path, ctx, n.1, d.init);
    (VarDeclaratorV { name: n.0, init: i.0 }, i.1)
}

pub open spec fn visited_declarators(
    path: Seq<char>,
    ctx: Context,
    st: StateV,
    ds: Seq<VarDeclaratorV>,
) -> (Seq<VarDeclaratorV>, StateV)
    decreases ds,
{
    if ds.len() == 0 {
        (seq![], st)
    } else {
        let before = visited_declarators(path, ctx, st, ds.drop_last());
        let last = visited_declarator(path, ctx, before.1, ds.last());
        (before.0.push(last.0), last.1)
    }
}

pub open spec fn visited_body(path: Seq<char>, ctx: Context, st: StateV, b: Option<Seq<StmtV>>)
    -> (Option<Seq<StmtV>>, StateV)
    decreases b,
{
    match b {
        Some(ss) => {
            let r = visited_stmts(path, ctx, st, ss);
            (Some(r.0), r.1)
        },
        None => (None, st),
    }
}

/// A function after the visit of its parameters and then of its body, and the state.
pub open spec fn visited_function(path: Seq<char>, ctx: Context, st: StateV, f: FunctionV) -> (
    FunctionV,
    StateV,
)
    decreases f,
{
    let p = visited_params(path, ctx, st, f.params);
    let b = visited_body(path, ctx, p.1, f.body);
    (FunctionV { params: p.0, body: b.0, is_async: f.is_async, is_generator: f.is_generator }, b.1)
}

/// A statement after the visit, the annotations to be placed behind it, and the state.
pub open spec fn visited_stmt(path: Seq<char>, ctx: Context, st: StateV, s: StmtV) -> (
    StmtV,
    Seq<StmtV>,
    StateV,
)
    decreases s,
{
    let r: (StmtV, Seq<StmtV>, StateV) = match s {
        StmtV::Expr(e) => {
            let r = visited_expr(path, ctx, st, e);
            (StmtV::Expr(r.0), seq![], r.1)
        },
        StmtV::Return(e) => {
            let r = visited_opt_expr(path, ctx, st, e);
            (StmtV::Return(r.0), seq![], r.1)
        },
        StmtV::Var(d) => {
            let r = visited_declarators(path, ctx, st, d.decls);
            (StmtV::Var(VarDeclV { kind: d.kind, decls: r.0 }), seq![], r.1)
        },
        StmtV::Fn(f) => {
            let r = visited_fn_decl(path, ctx, st, f);
            (StmtV::Fn(r.0), r.1, r.2)
        },
        StmtV::Block(b) => {
            let r = visited_stmts(path, ctx, st, b);
            (StmtV::Block(r.0), seq![], r.1)
        },
        StmtV::Other { shape, exprs, body } => {
            let x = visited_exprs(path, ctx, st, exprs);
            let r = visited_stmts(path, ctx, x.1, body);
            (StmtV::Other { shape, exprs: x.0, body: r.0 }, seq![], r.1)
        },
        StmtV::Opaque(_) => (s, seq![], st),
    };
    (r.0, r.1, note_binders(ctx, r.2, stmt_binders(s)))
}

/// A statement list after the visit: each statement, followed by its annotations.
pub open spec fn visited_stmts(path: Seq<char>, ctx: Context, st: StateV, ss: Seq<StmtV>) -> (
    Seq<StmtV>,
    StateV,
)
    decreases ss,
{
    if ss.len() == 0 {
        (seq![], st)
    } else {
        let before = visited_stmts(path, ctx, st, ss.drop_last());
        let last = visited_stmt(path, Context { top_level: false, ..ctx }, before.1, ss.last());
        (before.0.push(last.0) + last.1, last.2)
    }
}

/// The body that is visited: the function's own, without a directive that is consulted.
pub open spec fn body_to_visit(ctx: Context, f: FnDeclV) -> Option<Seq<StmtV>> {
    if has_own_directive(ctx, f) {
        Some(f.function.body->0.drop_first())
    } else {
        f.function.body
    }
}

/// The children of a function declaration after the visit: the function with its
/// parameters and its body visited, and the state, in which the identifiers recorded
/// are those that occurred inside this function alone.
pub open spec fn walked_fn(path: Seq<char>, ctx: Context, st: StateV, f: FnDeclV) -> (
    FunctionV,
    StateV,
)
    decreases f, 0int,
{
    let inner = inner_context(ctx, f);
    let st1 = note_idents(inner, StateV { action_idents: seq![], ..st }, seq![f.ident]);
    let p = visited_params(path, inner, st1, f.function.params);
    let b: (Option<Seq<StmtV>>, StateV) = match body_to_visit(ctx, f) {
        Some(ss) => {
            let r = visited_stmts(path, inner, p.1, ss);
            (Some(r.0), r.1)
        },
        None => (None, p.1),
    };
    (
        FunctionV {
            params: p.0,
            body: b.0,
            is_async: f.function.is_async,
            is_generator: f.function.is_generator,
        },
        b.1,
    )
}

/// The state once an action is on record: its diagnostic, if it is not asynchronous,
/// and its stable name.
pub open spec fn registered(ctx: Context, st: StateV, ident: IdentV, is_async: bool) -> StateV {
    StateV {
        has_action: true,
        export_actions: st.export_actions.push(action_name(covered(ctx), ident.sym)),
        diagnostics: if is_async {
            st.diagnostics
        } else {
            st.diagnostics.push(ident)
        },
        ..st
    }
}

/// What a nested action captures: the bindings among the candidates that occur in it.
pub open spec fn captured(st: StateV) -> Seq<IdentV> {
    captures(st.action_idents, st.closure_idents)
}

/// The function hoisted for a nested action that was walked to `body` and has the
/// discovery index `index`.
pub open spec fn hoisted_item(
    ctx: Context,
    st: StateV,
    ident: IdentV,
    body: Option<Seq<StmtV>>,
    is_async: bool,
    is_generator: bool,
    index: nat,
) -> ModuleItemV {
    hoisted_fn(
        action_ident(action_name(covered(ctx), ident.sym), index),
        closure_arg(index),
        replace_body(body, captured(st), closure_arg(index)),
        is_async,
        is_generator,
    )
}

/// The annotations of an action with the given stable name.
pub open spec fn annotations_of(
    path: Seq<char>,
    ctx: Context,
    st: StateV,
    ident: IdentV,
) -> Seq<StmtV> {
    let base = base_annotations(ident, path, action_name(covered(ctx), ident.sym));
    if ctx.top_level {
        base
    } else {
        base.push(closure_annotation(ident, captured(st)))
    }
}

/// An action after its children were walked: the declaration that stays in its place,
/// its annotations, and the state. `f` is the declaration and `st` the state after the
/// walk.
pub open spec fn settled_action(path: Seq<char>, ctx: Context, st: StateV, f: FnDeclV) -> (
    FnDeclV,
    Seq<StmtV>,
    StateV,
) {
    let name = action_name(covered(ctx), f.ident.sym);
    let index = st.export_actions.len();
    let on_record = registered(ctx, st, f.ident, f.function.is_async);
    let queued = if ctx.top_level {
        if covered(ctx) {
            seq![]
        } else {
            seq![export_alias(action_ident(name, index), f.ident)]
        }
    } else {
        seq![
            hoisted_item(
                ctx,
                st,
                f.ident,
                f.function.body,
                f.function.is_async,
                f.function.is_generator,
                index,
            ),
        ]
    };
    let kept = if ctx.top_level {
        f.function.body
    } else {
        Some(forwarding_body(action_ident(name, index), f.ident))
    };
    (
        FnDeclV { ident: f.ident, function: FunctionV { body: kept, ..f.function } },
        annotations_of(path, ctx, st, f.ident),
        StateV { extra_items: st.extra_items + queued, ..on_record },
    )
}

/// A function declaration after the visit, the annotations to be placed behind its
/// statement, and the state.
pub open spec fn visited_fn_decl(path: Seq<char>, ctx: Context, st: StateV, f: FnDeclV) -> (
    FnDeclV,
    Seq<StmtV>,
    StateV,
)
    decreases f, 1int,
{
    let w = walked_fn(path, ctx, st, f);
    let walked = FnDeclV { ident: f.ident, function: w.0 };
    let r = if is_action(ctx, f) {
        settled_action(path, ctx, w.1, walked)
    } else {
        (walked, seq![], w.1)
    };
    // What occurred inside joins what the enclosing function has gathered.
    (r.0, r.1, StateV { action_idents: st.action_idents + w.1.action_idents, ..r.2 })
}

/// A module item after the visit, the annotations to be placed behind it, and the state.
pub open spec fn visited_item(path: Seq<char>, ctx: Context, st: StateV, item: ModuleItemV) -> (
    ModuleItemV,
    Seq<StmtV>,
    StateV,
) {
    let exported = Context { in_export_decl: true, ..ctx };
    match item {
        ModuleItemV::Stmt(s) => {
            let r = visited_stmt(path, ctx, st, s);
            (ModuleItemV::Stmt(r.0), r.1, r.2)
        },
        ModuleItemV::ExportFn(f) => {
            let r = visited_fn_decl(path, exported, st, f);
            (ModuleItemV::ExportFn(r.0), r.1, r.2)
        },
        ModuleItemV::ExportVar(d) => {
            let r = visited_declarators(path, exported, st, d.decls);
            (ModuleItemV::ExportVar(VarDeclV { kind: d.kind, decls: r.0 }), seq![], r.1)
        },
        ModuleItemV::Opaque(_) => (item, seq![], st),
    }
}

pub open spec fn stmts_as_items(ss: Seq<StmtV>) -> Seq<ModuleItemV> {
    Seq::new(ss.len(), |i: int| ModuleItemV::Stmt(ss[i]))
}

/// The module's items after the visit: each item, followed by its annotations and then
/// by the items synthesized for the actions in it. Nothing stays queued.
pub open spec fn visited_items(
    path: Seq<char>,
    ctx: Context,
    st: StateV,
    items: Seq<ModuleItemV>,
) -> (Seq<ModuleItemV>, StateV)
    decreases items.len(),
{
    if items.len() == 0 {
        (seq![], st)
    } else {
        let before = visited_items(path, ctx, st, items.drop_last());
        let last = visited_item(path, Context { top_level: true, ..ctx }, before.1, items.last());
        (
            before.0.push(last.0) + stmts_as_items(last.1) + last.2.extra_items,
            StateV { extra_items: seq![], ..last.2 },
        )
    }
}

/// The context in which the items of a module are visited.
pub open spec fn module_context(items: Seq<ModuleItemV>) -> Context {
    Context {
        in_action_file: items_start_with_directive(items),
        in_export_decl: false,
        in_module: true,
        in_action_fn: false,
        top_level: true,
    }
}

/// The items of a module after the pass, and the state. A file directive is taken
/// from the head first; it alone makes the file one that has actions.
pub open spec fn visited_module_items(path: Seq<char>, st: StateV, items: Seq<ModuleItemV>) -> (
    Seq<ModuleItemV>,
    StateV,
) {
    visited_items(
        path,
        module_context(items),
        StateV { has_action: st.has_action || items_start_with_directive(items), ..st },
        items_without_directive(items),
    )
}

/// A block comment in front of whatever stands at `pos`.
#[derive(PartialEq, Eq, Debug)]
pub struct Comment {
    pub pos: u32,
    pub text: String,
}

pub struct CommentV {
    pub pos: u32,
    pub text: Seq<char>,
}

impl View for Comment {
    type V = CommentV;

    open spec fn view(&self) -> CommentV {
        CommentV { pos: self.pos, text: self.text@ }
    }
}

/// What the pass hands back for a file.
#[derive(PartialEq, Eq, Debug)]
pub struct Transformed {
    /// The module after the pass.
    pub module: Module,
    /// The marker comment, where the file has actions.
    pub comment: Option<Comment>,
    /// The names of the actions that are not declared `async`, one entry for each.
    pub diagnostics: Vec<Ident>,
}

pub struct TransformedV {
    pub module: ModuleV,
    pub comment: Option<CommentV>,
    pub diagnostics: Seq<IdentV>,
}

impl View for Transformed {
    type V = TransformedV;

    open spec fn view(&self) -> TransformedV {
        TransformedV {
            module: self.module@,
            comment: match self.comment {
                Some(c) => Some(c@),
                None => None,
            },
            diagnostics: idents_view(self.diagnostics@),
        }
    }
}

/// The marker comment of a file in the given final state.
pub open spec fn marker_of(start: u32, st: StateV) -> Option<CommentV> {
    if st.has_action {
        Some(CommentV { pos: start, text: marker_text(st.export_actions) })
    } else {
        None
    }
}

/// What the pass makes of a module that lives at `path`.
pub open spec fn transformed(path: Seq<char>, m: ModuleV) -> TransformedV {
    let r = visited_module_items(path, initial_state(), m.body);
    TransformedV {
        module: ModuleV { start: m.start, body: r.0 },
        comment: marker_of(m.start, r.1),
        diagnostics: r.1.diagnostics,
    }
}

fn no_annotations() -> (r: Vec<Stmt>)
    ensures
        stmts_view(r@) == Seq::<StmtV>::empty(),
{
    let r: Vec<Stmt> = Vec::new();
    assert(stmts_view(r@) =~= Seq::<StmtV>::empty());
    r
}

impl ServerActions {
    /// The state with which the traversal of a file starts.
    pub fn new(file_name: &str, config: Config) -> (r: ServerActions)
        ensures
            r@ == initial_state(),
            r.file_name@ == file_name@,
            r.config == config,
    {
        let r = ServerActions {
            config,
            file_name: file_name.to_owned(),
            has_action: false,
            closure_idents: Vec::new(),
            action_idents: Vec::new(),
            export_actions: Vec::new(),
            extra_items: Vec::new(),
            diagnostics: Vec::new(),
        };
        assert(r@ =~= initial_state());
        r
    }

    /// Records an identifier, where the traversal stands inside an action.
    pub fn visit_ident(&mut self, ctx: Context, n: &Ident)
        ensures
            final(self)@ == note_idents(ctx, old(self)@, seq![n@]),
            final(self).config == old(self).config,
            final(self).file_name == old(self).file_name,
    {
        if ctx.in_action_fn {
            let c = n.copy();
            proof {
                lemma_idents_view_push(self.action_idents@, c);
            }
            self.action_idents.push(c);
            assert(self@ =~= note_idents(ctx, old(self)@, seq![n@]));
        }
    }

    fn visit_key(&mut self, ctx: Context, key: &PropName)
        ensures
            final(self)@ == note_key(ctx, old(self)@, key@),
            final(self).config == old(self).config,
            final(self).file_name == old(self).file_name,
    {
        match key {
            PropName::Ident(i) => self.visit_ident(ctx, i),
            PropName::Str(_) => {},
        }
    }

    /// Makes the given bindings candidates for capture, where the traversal stands
    /// inside a function body and outside actions.
    fn feed(&mut self, ctx: Context, ids: Vec<Ident>)
        ensures
            final(self)@ == note_binders(ctx, old(self)@, idents_view(ids@)),
            final(self).config == old(self).config,
            final(self).file_name == old(self).file_name,
    {
        if !ctx.in_module && !ctx.in_action_fn && !ctx.in_action_file {
            let ghost given = idents_view(ids@);
            let mut ids = ids;
            proof {
                lemma_idents_view_add(self.closure_idents@, ids@);
            }
            self.closure_idents.append(&mut ids);
            assert(self@ =~= note_binders(ctx, old(self)@, given));
        }
    }

    /// Visits an expression: records its identifiers and visits the functions in it.
    pub fn visit_expr(&mut self, ctx: Context, e: Expr) -> (r: Expr)
        ensures
            (r@, final(self)@) == visited_expr(old(self).file_name@, ctx, old(self)@, e@),
            final(self).config == old(self).config,
            final(self).file_name == old(self).file_name,
        decreases e,
    {
        match e {
            Expr::Ident(i) => {
                self.visit_ident(ctx, &i);
                Expr::Ident(i)
            },
            Expr::Str(s) => Expr::Str(s),
            Expr::Num(n) => Expr::Num(n),
            Expr::Opaque(h) => Expr::Opaque(h),
            Expr::Array(elems) => Expr::Array(self.visit_exprs(ctx, elems)),
            Expr::Object(props) => Expr::Object(self.visit_props(ctx, props)),
            Expr::Call { callee, args } => {
                let c = self.visit_expr(ctx, *callee);
                let a = self.visit_exprs(ctx, args);
                Expr::Call { callee: Box::new(c), args: a }
            },
            Expr::Member { obj, prop } => {
                let o = self.visit_expr(ctx, *obj);
                self.visit_ident(ctx, &prop);
                Expr::Member { obj: Box::new(o), prop }
            },
            Expr::Index { obj, index } => {
                let o = self.visit_expr(ctx, *obj);
                let i = self.visit_expr(ctx, *index);
                Expr::Index { obj: Box::new(o), index: Box::new(i) }
            },
            Expr::Assign { left, right } => {
                let l = self.visit_expr(ctx, *left);
                let r = self.visit_expr(ctx, *right);
                Expr::Assign { left: Box::new(l), right: Box::new(r) }
            },
            Expr::Other { shape, parts } => Expr::Other {
                shape,
                parts: self.visit_exprs(ctx, parts),
            },
            Expr::Function { shape, ident, function } => {
                match &ident {
                    Some(i) => self.visit_ident(ctx, i),
                    None => {},
                }
                assert(self@ == note_opt_ident(ctx, old(self)@, opt_ident_view(ident)));
                let inner = Context { in_module: false, ..ctx };
                let f = self.visit_function(inner, *function);
                Expr::Function { shape, ident, function: Box::new(f) }
            },
        }
    }

    pub fn visit_exprs(&mut self, ctx: Context, es: Vec<Expr>) -> (r: Vec<Expr>)
        ensures
            (exprs_view(r@), final(self)@) == visited_exprs(
                old(self).file_name@,
                ctx,
                old(self)@,
                exprs_view(es@),
            ),
            final(self).config == old(self).config,
            final(self).file_name == old(self).file_name,
        decreases es,
    {
        let ghost start = self@;
        let ghost path = self.file_name@;
        let ghost raw = es@;
        let ghost all = exprs_view(raw);
        let mut out: Vec<Expr> = Vec::new();
        assert(all.take(0) =~= Seq::<ExprV>::empty());
        assert(exprs_view(out@) =~= Seq::<ExprV>::empty());
        for e in it: es
            invariant
                it.seq() == raw,
                all == exprs_view(raw),
                forall|j: int| 0 <= j < raw.len() ==> decreases_to!(raw => raw[j]),
                path == self.file_name@,
                (exprs_view(out@), self@) == visited_exprs(
                    path,
                    ctx,
                    start,
                    all.take(it.index() as int),
                ),
                self.config == old(self).config,
                self.file_name == old(self).file_name,
        {
            let ghost i = it.index() as int;
            let ghost prev = exprs_view(out@);
            proof {
                let next = all.take(i + 1);
                assert(next.drop_last() =~= all.take(i));
                assert(next.last() == e@);
            }
            let x = self.visit_expr(ctx, e);
            out.push(x);
            assert(exprs_view(out@) =~= prev.push(x@));
        }
        assert(all.take(raw.len() as int) =~= all);
        out
    }

    pub fn visit_opt_expr(&mut self, ctx: Context, e: Option<Expr>) -> (r: Option<Expr>)
        ensures
            (opt_expr_view(r), final(self)@) == visited_opt_expr(
                old(self).file_name@,
                ctx,
                old(self)@,
                opt_expr_view(e),
            ),
            final(self).config == old(self).config,
            final(self).file_name == old(self).file_name,
        decreases e,
    {
        match e {
            Some(e) => Some(self.visit_expr(ctx, e)),
            None => None,
        }
    }

    fn visit_prop(&mut self, ctx: Context, p: Prop) -> (r: Prop)
        ensures
            (r@, final(self)@) == visited_prop(old(self).file_name@, ctx, old(self)@, p@),
            final(self).config == old(self).config,
            final(self).file_name == old(self).file_name,
        decreases p,
    {
        match p {
            Prop::Shorthand(i) => {
                self.visit_ident(ctx, &i);
                Prop::Shorthand(i)
            },
            Prop::KeyValue { key, value } => {
                self.visit_key(ctx, &key);
                let v = self.visit_expr(ctx, value);
                Prop::KeyValue { key, value: v }
            },
            Prop::Opaque(h) => Prop::Opaque(h),
        }
    }

    fn visit_props(&mut self, ctx: Context, ps: Vec<Prop>) -> (r: Vec<Prop>)
        ensures
            (props_view(r@), final(self)@) == visited_props(
                old(self).file_name@,
                ctx,
                old(self)@,
                props_view(ps@),
            ),
            final(self).config == old(self).config,
            final(self).file_name == old(self).file_name,
        decreases ps,
    {
        let ghost start = self@;
        let ghost path = self.file_name@;
        let ghost raw = ps@;
        let ghost all = props_view(raw);
        let mut out: Vec<Prop> = Vec::new();
        assert(all.take(0) =~= Seq::<PropV>::empty());
        assert(props_view(out@) =~= Seq::<PropV>::empty());
        for p in it: ps
            invariant
                it.seq() == raw,
                all == props_view(raw),
                forall|j: int| 0 <= j < raw.len() ==> decreases_to!(raw => raw[j]),
                path == self.file_name@,
                (props_view(out@), self@) == visited_props(
                    path,
                    ctx,
                    start,
                    all.take(it.index() as int),
                ),
                self.config == old(self).config,
                self.file_name == old(self).file_name,
        {
            let ghost i = it.index() as int;
            let ghost prev = props_view(out@);
            proof {
                let next = all.take(i + 1);
                assert(next.drop_last() =~= all.take(i));
                assert(next.last() == p@);
            }
            let x = self.visit_prop(ctx, p);
            out.push(x);
            assert(props_view(out@) =~= prev.push(x@));
        }
        assert(all.take(raw.len() as int) =~= all);
        out
    }

    /// Visits a pattern: records its identifiers and visits the expressions in it.
    pub fn visit_pat(&mut self, ctx: Context, p: Pat) -> (r: Pat)
        ensures
            (r@, final(self)@) == visited_pat(old(self).file_name@, ctx, old(self)@, p@),
            final(self).config == old(self).config,
            final(self).file_name == old(self).file_name,
        decreases p, 0int,
    {
        match p {
            Pat::Ident(i) => {
                self.visit_ident(ctx, &i);
                Pat::Ident(i)
            },
            Pat::Opaque(h) => Pat::Opaque(h),
            Pat::Array(elems) => Pat::Array(self.visit_opt_pats(ctx, elems)),
            Pat::Object(props) => Pat::Object(self.visit_pat_props(ctx, props)),
            Pat::Rest(inner) => {
                let x = self.visit_pat(ctx, *inner);
                Pat::Rest(Box::new(x))
            },
            Pat::Assign { left, right } => {
                let l = self.visit_pat(ctx, *left);
                let r = self.visit_expr(ctx, right);
                Pat::Assign { left: Box::new(l), right: r }
            },
        }
    }

    fn visit_opt_pat(&mut self, ctx: Context, p: Option<Pat>) -> (r: Option<Pat>)
        ensures
            (opt_pat_view(r), final(self)@) == visited_opt_pat(
                old(self).file_name@,
                ctx,
                old(self)@,
                opt_pat_view(p),
            ),
            final(self).config == old(self).config,
            final(self).file_name == old(self).file_name,
        decreases p,
    {
        match p {
            Some(p) => Some(self.visit_pat(ctx, p)),
            None => None,
        }
    }

    fn visit_opt_pats(&mut self, ctx: Context, ps: Vec<Option<Pat>>) -> (r: Vec<Option<Pat>>)
        ensures
            (opt_pats_view(r@), final(self)@) == visited_opt_pats(
                old(self).file_name@,
                ctx,
                old(self)@,
                opt_pats_view(ps@),
            ),
            final(self).config == old(self).config,
            final(self).file_name == old(self).file_name,
        decreases ps,
    {
        let ghost start = self@;
        let ghost path = self.file_name@;
        let ghost raw = ps@;
        let ghost all = opt_pats_view(raw);
        let mut out: Vec<Option<Pat>> = Vec::new();
        assert(all.take(0) =~= Seq::<Option<PatV>>::empty());
        assert(opt_pats_view(out@) =~= Seq::<Option<PatV>>::empty());
        for p in it: ps
            invariant
                it.seq() == raw,
                all == opt_pats_view(raw),
                forall|j: int| 0 <= j < raw.len() ==> decreases_to!(raw => raw[j]),
                path == self.file_name@,
                (opt_pats_view(out@), self@) == visited_opt_pats(
                    path,
                    ctx,
                    start,
                    all.take(it.index() as int),
                ),
                self.config == old(self).config,
                self.file_name == old(self).file_name,
        {
            let ghost i = it.index() as int;
            let ghost prev = opt_pats_view(out@);
            proof {
                let next = all.take(i + 1);
                assert(next.drop_last() =~= all.take(i));
                assert(next.last() == opt_pat_view(p));
            }
            let x = self.visit_opt_pat(ctx, p);
            out.push(x);
            assert(opt_pats_view(out@) =~= prev.push(opt_pat_view(x)));
        }
        assert(all.take(raw.len() as int) =~= all);
        out
    }

    fn visit_pat_prop(&mut self, ctx: Context, p: ObjectPatProp) -> (r: ObjectPatProp)
        ensures
            (r@, final(self)@) == visited_pat_prop(old(self).file_name@, ctx, old(self)@, p@),
            final(self).config == old(self).config,
            final(self).file_name == old(self).file_name,
        decreases p,
    {
        match p {
            ObjectPatProp::KeyValue { key, value } => {
                self.visit_key(ctx, &key);
                let v = self.visit_pat(ctx, value);
                ObjectPatProp::KeyValue { key, value: v }
            },
            ObjectPatProp::Assign { key, value } => {
                self.visit_ident(ctx, &key);
                let v = self.visit_opt_expr(ctx, value);
                ObjectPatProp::Assign { key, value: v }
            },
            ObjectPatProp::Rest(inner) => ObjectPatProp::Rest(self.visit_pat(ctx, inner)),
        }
    }

    fn visit_pat_props(&mut self, ctx: Context, ps: Vec<ObjectPatProp>) -> (r: Vec<ObjectPatProp>)
        ensures
            (pat_props_view(r@), final(self)@) == visited_pat_props(
                old(self).file_name@,
                ctx,
                old(self)@,
                pat_props_view(ps@),
            ),
            final(self).config == old(self).config,
            final(self).file_name == old(self).file_name,
        decreases ps,
    {
        let ghost start = self@;
        let ghost path = self.file_name@;
        let ghost raw = ps@;
        let ghost all = pat_props_view(raw);
        let mut out: Vec<ObjectPatProp> = Vec::new();
        assert(all.take(0) =~= Seq::<ObjectPatPropV>::empty());
        assert(pat_props_view(out@) =~= Seq::<ObjectPatPropV>::empty());
        for p in it: ps
            invariant
                it.seq() == raw,
                all == pat_props_view(raw),
                forall|j: int| 0 <= j < raw.len() ==> decreases_to!(raw => raw[j]),
                path == self.file_name@,
                (pat_props_view(out@), self@) == visited_pat_props(
                    path,
                    ctx,
                    start,
                    all.take(it.index() as int),
                ),
                self.config == old(self).config,
                self.file_name == old(self).file_name,
        {
            let ghost i = it.index() as int;
            let ghost prev = pat_props_view(out@);
            proof {
                let next = all.take(i + 1);
                assert(next.drop_last() =~= all.take(i));
                assert(next.last() == p@);
            }
            let x = self.visit_pat_prop(ctx, p);
            out.push(x);
            assert(pat_props_view(out@) =~= prev.push(x@));
        }
        assert(all.take(raw.len() as int) =~= all);
        out
    }

    /// Visits a parameter: visits it as a pattern and, inside a function body and
    /// outside actions, makes what it binds a candidate for capture.
    pub fn visit_param(&mut self, ctx: Context, n: Pat) -> (r: Pat)
        ensures
            (r@, final(self)@) == visited_param(old(self).file_name@, ctx, old(self)@, n@),
            final(self).config == old(self).config,
            final(self).file_name == old(self).file_name,
        decreases n, 1int,
    {
        let ids = collect_idents_in_param(&n);
        let r = self.visit_pat(ctx, n);
        self.feed(ctx, ids);
        r
    }

    fn visit_params(&mut self, ctx: Context, ps: Vec<Pat>) -> (r: Vec<Pat>)
        ensures
            (pats_view(r@), final(self)@) == visited_params(
                old(self).file_name@,
                ctx,
                old(self)@,
                pats_view(ps@),
            ),
            final(self).config == old(self).config,
            final(self).file_name == old(self).file_name,
        decreases ps,
    {
        let ghost start = self@;
        let ghost path = self.file_name@;
        let ghost raw = ps@;
        let ghost all = pats_view(raw);
        let mut out: Vec<Pat> = Vec::new();
        assert(all.take(0) =~= Seq::<PatV>::empty());
        assert(pats_view(out@) =~= Seq::<PatV>::empty());
        for p in it: ps
            invariant
                it.seq() == raw,
                all == pats_view(raw),
                forall|j: int| 0 <= j < raw.len() ==> decreases_to!(raw => raw[j]),
                path == self.file_name@,
                (pats_view(out@), self@) == visited_params(
                    path,
                    ctx,
                    start,
                    all.take(it.index() as int),
                ),
                self.config == old(self).config,
                self.file_name == old(self).file_name,
        {
            let ghost i = it.index() as int;
            let ghost prev = pats_view(out@);
            proof {
                let next = all.take(i + 1);
                assert(next.drop_last() =~= all.take(i));
                assert(next.last() == p@);
            }
            let x = self.visit_param(ctx, p);
            out.push(x);
            assert(pats_view(out@) =~= prev.push(x@));
        }
        assert(all.take(raw.len() as int) =~= all);
        out
    }

    fn visit_declarator(&mut self, ctx: Context, d: VarDeclarator) -> (r: VarDeclarator)
        ensures
            (r@, final(self)@) == visited_declarator(old(self).file_name@, ctx, old(self)@, d@),
            final(self).config == old(self).config,
            final(self).file_name == old(self).file_name,
        decreases d,
    {
        let name = self.visit_pat(ctx, d.name);
        let init = self.visit_opt_expr(ctx, d.init);
        VarDeclarator { name, init }
    }

    fn visit_declarators(&mut self, ctx: Context, ds: Vec<VarDeclarator>) -> (r: Vec<
        VarDeclarator,
    >)
        ensures
            (declarators_view(r@), final(self)@) == visited_declarators(
                old(self).file_name@,
                ctx,
                old(self)@,
                declarators_view(ds@),
            ),
            final(self).config == old(self).config,
            final(self).file_name == old(self).file_name,
        decreases ds,
    {
        let ghost start = self@;
        let ghost path = self.file_name@;
        let ghost raw = ds@;
        let ghost all = declarators_view(raw);
        let mut out: Vec<VarDeclarator> = Vec::new();
        assert(all.take(0) =~= Seq::<VarDeclaratorV>::empty());
        assert(declarators_view(out@) =~= Seq::<VarDeclaratorV>::empty());
        for d in it: ds
            invariant
                it.seq() == raw,
                all == declarators_view(raw),
                forall|j: int| 0 <= j < raw.len() ==> decreases_to!(raw => raw[j]),
                path == self.file_name@,
                (declarators_view(out@), self@) == visited_declarators(
                    path,
                    ctx,
                    start,
                    all.take(it.index() as int),
                ),
                self.config == old(self).config,
                self.file_name == old(self).file_name,
        {
            let ghost i = it.index() as int;
            let ghost prev = declarators_view(out@);
            proof {
                let next = all.take(i + 1);
                assert(next.drop_last() =~= all.take(i));
                assert(next.last() == d@);
            }
            let x = self.visit_declarator(ctx, d);
            out.push(x);
            assert(declarators_view(out@) =~= prev.push(x@));
        }
        assert(all.take(raw.len() as int) =~= all);
        out
    }

    /// Visits a function that is not a declaration: its parameters, then its body.
    pub fn visit_function(&mut self, ctx: Context, f: Function) -> (r: Function)
        ensures
            (r@, final(self)@) == visited_function(old(self).file_name@, ctx, old(self)@, f@),
            final(self).config == old(self).config,
            final(self).file_name == old(self).file_name,
        decreases f,
    {
        let params = self.visit_params(ctx, f.params);
        let body = match f.body {
            Some(stmts) => Some(self.visit_stmts(ctx, stmts)),
            None => None,
        };
        Function { params, body, is_async: f.is_async, is_generator: f.is_generator }
    }

    /// Visits a statement. Returns it as it is afterwards, and the annotations that
    /// belong behind it.
    pub fn visit_stmt(&mut self, ctx: Context, n: Stmt) -> (r: (Stmt, Vec<Stmt>))
        ensures
            (r.0@, stmts_view(r.1@), final(self)@) == visited_stmt(
                old(self).file_name@,
                ctx,
                old(self)@,
                n@,
            ),
            final(self).config == old(self).config,
            final(self).file_name == old(self).file_name,
        decreases n,
    {
        let ids = collect_idents_in_stmt(&n);
        let (out, annotations) = match n {
            Stmt::Expr(e) => {
                let e = self.visit_expr(ctx, e);
                (Stmt::Expr(e), no_annotations())
            },
            Stmt::Return(e) => {
                let e = self.visit_opt_expr(ctx, e);
                (Stmt::Return(e), no_annotations())
            },
            Stmt::Var(d) => {
                let kind = d.kind;
                let decls = self.visit_declarators(ctx, d.decls);
                (Stmt::Var(VarDecl { kind, decls }), no_annotations())
            },
            Stmt::Fn(f) => {
                let (f, annotations) = self.visit_fn_decl(ctx, f);
                (Stmt::Fn(f), annotations)
            },
            Stmt::Block(stmts) => {
                let stmts = self.visit_stmts(ctx, stmts);
                (Stmt::Block(stmts), no_annotations())
            },
            Stmt::Other { shape, exprs, body } => {
                let exprs = self.visit_exprs(ctx, exprs);
                let body = self.visit_stmts(ctx, body);
                (Stmt::Other { shape, exprs, body }, no_annotations())
            },
            Stmt::Opaque(h) => (Stmt::Opaque(h), no_annotations()),
        };
        self.feed(ctx, ids);
        (out, annotations)
    }

    /// Visits the statements of a function body or a block. Each statement is followed
    /// in the result by its annotations.
    pub fn visit_stmts(&mut self, ctx: Context, stmts: Vec<Stmt>) -> (r: Vec<Stmt>)
        ensures
            (stmts_view(r@), final(self)@) == visited_stmts(
                old(self).file_name@,
                ctx,
                old(self)@,
                stmts_view(stmts@),
            ),
            final(self).config == old(self).config,
            final(self).file_name == old(self).file_name,
        decreases stmts, 1int,
    {
        self.visit_stmts_behind(ctx, stmts, false)
    }

    /// Visits the statements of a function body, all of them or all but the first.
    #[verifier::rlimit(40)]
    fn visit_stmts_behind(&mut self, ctx: Context, stmts: Vec<Stmt>, skip: bool) -> (r: Vec<Stmt>)
        requires
            skip ==> stmts.len() > 0,
        ensures
            (stmts_view(r@), final(self)@) == visited_stmts(
                old(self).file_name@,
                ctx,
                old(self)@,
                if skip {
                    stmts_view(stmts@).drop_first()
                } else {
                    stmts_view(stmts@)
                },
            ),
            final(self).config == old(self).config,
            final(self).file_name == old(self).file_name,
        decreases stmts, 0int,
    {
        let ghost start = self@;
        let ghost path = self.file_name@;
        let ghost raw = stmts@;
        let ghost k: int = if skip { 1 } else { 0 };
        let ghost all = stmts_view(raw).subrange(k, raw.len() as int);
        let inner = Context { top_level: false, ..ctx };
        let mut out: Vec<Stmt> = Vec::new();
        let mut pending = skip;
        assert(all.take(0) =~= Seq::<StmtV>::empty());
        assert(stmts_view(out@) =~= Seq::<StmtV>::empty());
        for stmt in it: stmts
            invariant
                it.seq() == raw,
                k == (if skip { 1int } else { 0int }),
                k <= raw.len(),
                all == stmts_view(raw).subrange(k, raw.len() as int),
                forall|j: int| 0 <= j < raw.len() ==> decreases_to!(raw => raw[j]),
                path == self.file_name@,
                inner == (Context { top_level: false, ..ctx }),
                pending == (skip && it.index() == 0),
                (stmts_view(out@), self@) == visited_stmts(
                    path,
                    ctx,
                    start,
                    all.take(if pending { 0 } else { it.index() - k }),
                ),
                self.config == old(self).config,
                self.file_name == old(self).file_name,
        {
            let ghost i = it.index() as int;
            if pending {
                pending = false;
            } else {
                let ghost prev = stmts_view(out@);
                proof {
                    let next = all.take(i - k + 1);
                    assert(next.drop_last() =~= all.take(i - k));
                    assert(next.last() == stmt@);
                }
                let (stmt, mut annotations) = self.visit_stmt(inner, stmt);
                let ghost behind = stmts_view(annotations@);
                out.push(stmt);
                out.append(&mut annotations);
                assert(stmts_view(out@) =~= prev.push(stmt@) + behind);
            }
        }
        assert(all.take(raw.len() - k) =~= all);
        assert(skip ==> all =~= stmts_view(raw).drop_first());
        assert(!skip ==> all =~= stmts_view(raw));
        out
    }

    /// Visits the children of a function declaration: its name, its parameters and its
    /// body, without a directive that is consulted. The identifiers recorded so far
    /// are handed back apart; the state holds those of this function.
    #[verifier::rlimit(40)]
    fn walk_fn(&mut self, ctx: Context, f: FnDecl) -> (r: (FnDecl, bool, Vec<Ident>))
        ensures
            r.0@ == (FnDeclV {
                ident: f@.ident,
                function: walked_fn(old(self).file_name@, ctx, old(self)@, f@).0,
            }),
            r.1 == is_action(ctx, f@),
            idents_view(r.2@) == old(self)@.action_idents,
            final(self)@ == walked_fn(old(self).file_name@, ctx, old(self)@, f@).1,
            final(self).config == old(self).config,
            final(self).file_name == old(self).file_name,
        decreases f, 0int,
    {
        let ghost fv = f@;
        let ghost st = self@;
        let FnDecl { ident, function } = f;
        let Function { params, body, is_async, is_generator } = function;
        assert(fv.function == function_view(function));
        let covered = ctx.in_action_file && ctx.in_export_decl;
        let directive = match &body {
            Some(stmts) => !covered && stmts.len() > 0 && is_directive_stmt(&stmts[0]),
            None => false,
        };
        assert(directive == has_own_directive(ctx, fv));
        let in_action_fn = ctx.in_action_file || directive;
        let inner = Context { in_action_fn, in_module: false, ..ctx };
        assert(inner == inner_context(ctx, fv));

        let mut outer: Vec<Ident> = Vec::new();
        core::mem::swap(&mut self.action_idents, &mut outer);
        assert(self@ =~= StateV { action_idents: seq![], ..st });
        self.visit_ident(inner, &ident);
        let params = self.visit_params(inner, params);
        let body = match body {
            Some(stmts) => Some(self.visit_stmts_behind(inner, stmts, directive)),
            None => None,
        };
        let function = Function { params, body, is_async, is_generator };
        let decl = FnDecl { ident, function };
        assert(fn_decl_view(decl).function == function_view(function));
        (decl, in_action_fn, outer)
    }

    /// Puts an action on record: reports it if it is not asynchronous, and gives it its
    /// stable name and its discovery index.
    fn register(&mut self, ctx: Context, ident: &Ident, is_async: bool) -> (r: (String, usize))
        ensures
            r.0@ == action_name(covered(ctx), ident@.sym),
            r.1 == old(self)@.export_actions.len(),
            final(self)@ == registered(ctx, old(self)@, ident@, is_async),
            final(self).config == old(self).config,
            final(self).file_name == old(self).file_name,
    {
        if !is_async {
            let c = ident.copy();
            proof {
                lemma_idents_view_push(self.diagnostics@, c);
            }
            self.diagnostics.push(c);
        }
        let covered = ctx.in_action_file && ctx.in_export_decl;
        let name = make_action_name(covered, ident.sym.as_str());
        let index = self.export_actions.len();
        self.has_action = true;
        self.export_actions.push(name.clone());
        assert(self@ =~= registered(ctx, old(self)@, ident@, is_async));
        (name, index)
    }

    /// Settles an action whose children were walked: hoists it, or queues its alias,
    /// and makes its annotations.
    #[verifier::rlimit(40)]
    fn settle_action(&mut self, ctx: Context, f: FnDecl) -> (r: (FnDecl, Vec<Stmt>))
        ensures
            (r.0@, stmts_view(r.1@), final(self)@) == settled_action(
                old(self).file_name@,
                ctx,
                old(self)@,
                f@,
            ),
            final(self).config == old(self).config,
            final(self).file_name == old(self).file_name,
    {
        let ghost fv = f@;
        let ghost st = self@;
        let ghost path = self.file_name@;
        let FnDecl { ident, function } = f;
        let Function { params, body, is_async, is_generator } = function;
        assert(fv.function == function_view(function));
        let covered = ctx.in_action_file && ctx.in_export_decl;
        let (name, index) = self.register(ctx, &ident, is_async);
        let mut annotations = make_base_annotations(
            &ident,
            self.file_name.as_str(),
            name.as_str(),
        );
        let action_ident = Ident { sym: name, scope: Scope::Action(index) };
        assert(action_ident@ == self::action_ident(name@, index as nat));
        let ghost items_before = self.extra_items@;
        let kept = if ctx.top_level {
            if !covered {
                let alias = make_export_alias(action_ident, &ident);
                self.extra_items.push(alias);
                assert(items_view(self.extra_items@) =~= items_view(items_before) + seq![alias@]);
            } else {
                assert(items_view(self.extra_items@) =~= items_view(items_before)
                    + Seq::<ModuleItemV>::empty());
            }
            body
        } else {
            let caps = capture_list(&self.action_idents, &self.closure_idents);
            assert(idents_view(caps@) == captured(st));
            let closure_arg = Ident::new("closure", Scope::Closure(index));
            assert(closure_arg@ == self::closure_arg(index as nat));
            let replacer = ClosureReplacer { closure_arg: &closure_arg, used_ids: &caps };
            let hoisted_body = replacer.visit_body(body);
            let ghost base = stmts_view(annotations@);
            let note = make_closure_annotation(&ident, &caps);
            annotations.push(note);
            assert(stmts_view(annotations@) =~= base.push(note@));
            let forwarding = make_forwarding_body(&action_ident, &ident);
            let hoisted = make_hoisted_fn(
                action_ident,
                closure_arg,
                hoisted_body,
                is_async,
                is_generator,
            );
            self.extra_items.push(hoisted);
            assert(items_view(self.extra_items@) =~= items_view(items_before) + seq![hoisted@]);
            Some(forwarding)
        };
        let function = Function { params, body: kept, is_async, is_generator };
        let decl = FnDecl { ident, function };
        assert(fn_decl_view(decl).function == function_view(function));
        assert(self@ =~= settled_action(path, ctx, st, fv).2);
        (decl, annotations)
    }

    /// Visits a function declaration. Where it is an action, the result carries the
    /// annotations for it, and the state the items synthesized for it.
    pub fn visit_fn_decl(&mut self, ctx: Context, f: FnDecl) -> (r: (FnDecl, Vec<Stmt>))
        ensures
            (r.0@, stmts_view(r.1@), final(self)@) == visited_fn_decl(
                old(self).file_name@,
                ctx,
                old(self)@,
                f@,
            ),
            final(self).config == old(self).config,
            final(self).file_name == old(self).file_name,
        decreases f, 1int,
    {
        let ghost fv = f@;
        let ghost st = self@;
        let ghost path = self.file_name@;
        let (walked, in_action_fn, mut outer) = self.walk_fn(ctx, f);
        let ghost w = walked_fn(path, ctx, st, fv);
        let (decl, annotations) = if in_action_fn {
            self.settle_action(ctx, walked)
        } else {
            (walked, no_annotations())
        };
        let ghost settled = self@;
        proof {
            lemma_idents_view_add(outer@, self.action_idents@);
        }
        outer.append(&mut self.action_idents);
        core::mem::swap(&mut self.action_idents, &mut outer);
        assert(self@ =~= StateV {
            action_idents: st.action_idents + w.1.action_idents,
            ..settled
        });
        (decl, annotations)
    }

    /// Visits what an export declaration declares.
    fn visit_export_decl(&mut self, ctx: Context, item: ModuleItem) -> (r: (
        ModuleItem,
        Vec<Stmt>,
    ))
        requires
            item is ExportFn || item is ExportVar,
        ensures
            (r.0@, stmts_view(r.1@), final(self)@) == visited_item(
                old(self).file_name@,
                ctx,
                old(self)@,
                item@,
            ),
            final(self).config == old(self).config,
            final(self).file_name == old(self).file_name,
    {
        let exported = Context { in_export_decl: true, ..ctx };
        match item {
            ModuleItem::ExportFn(f) => {
                let (f, annotations) = self.visit_fn_decl(exported, f);
                (ModuleItem::ExportFn(f), annotations)
            },
            ModuleItem::ExportVar(d) => {
                let kind = d.kind;
                let decls = self.visit_declarators(exported, d.decls);
                (ModuleItem::ExportVar(VarDecl { kind, decls }), no_annotations())
            },
            other => (other, no_annotations()),
        }
    }

    /// Visits one item of the module.
    pub fn visit_module_item(&mut self, ctx: Context, item: ModuleItem) -> (r: (
        ModuleItem,
        Vec<Stmt>,
    ))
        ensures
            (r.0@, stmts_view(r.1@), final(self)@) == visited_item(
                old(self).file_name@,
                ctx,
                old(self)@,
                item@,
            ),
            final(self).config == old(self).config,
            final(self).file_name == old(self).file_name,
    {
        match item {
            ModuleItem::Stmt(s) => {
                let (s, annotations) = self.visit_stmt(ctx, s);
                (ModuleItem::Stmt(s), annotations)
            },
            ModuleItem::Opaque(h) => (ModuleItem::Opaque(h), no_annotations()),
            other => self.visit_export_decl(ctx, other),
        }
    }

    /// Visits the items of the module: takes the file directive from the head, visits
    /// each item, and places behind it its annotations and then the items synthesized
    /// for the actions in it.
    #[verifier::rlimit(40)]
    pub fn visit_module_items(&mut self, items: Vec<ModuleItem>) -> (r: Vec<ModuleItem>)
        ensures
            (items_view(r@), final(self)@) == visited_module_items(
                old(self).file_name@,
                old(self)@,
                items_view(items@),
            ),
            final(self).config == old(self).config,
            final(self).file_name == old(self).file_name,
    {
        let ghost path = self.file_name@;
        let ghost given = items_view(items@);
        let mut items = items;
        let in_action_file = strip_file_directive(&mut items);
        if in_action_file {
            self.has_action = true;
        }
        let ctx = Context {
            in_action_file,
            in_export_decl: false,
            in_module: true,
            in_action_fn: false,
            top_level: true,
        };
        assert(ctx == module_context(given));
        let ghost start = self@;
        assert(start =~= StateV {
            has_action: old(self)@.has_action || items_start_with_directive(given),
            ..old(self)@
        });
        let ghost all = items_view(items@);
        let ghost raw = items@;
        let mut out: Vec<ModuleItem> = Vec::new();
        assert(all.take(0) =~= Seq::<ModuleItemV>::empty());
        assert(items_view(out@) =~= Seq::<ModuleItemV>::empty());
        for item in it: items
            invariant
                it.seq() == raw,
                all == items_view(raw),
                path == self.file_name@,
                ctx.top_level,
                (items_view(out@), self@) == visited_items(
                    path,
                    ctx,
                    start,
                    all.take(it.index() as int),
                ),
                self.config == old(self).config,
                self.file_name == old(self).file_name,
        {
            let ghost i = it.index() as int;
            let ghost prev = items_view(out@);
            proof {
                let next = all.take(i + 1);
                assert(next.drop_last() =~= all.take(i));
                assert(next.last() == item@);
                assert(ctx == Context { top_level: true, ..ctx });
            }
            let (item, annotations) = self.visit_module_item(ctx, item);
            let ghost visited = self@;
            out.push(item);
            let ghost behind = stmts_view(annotations@);
            let ghost raw_behind = annotations@;
            for stmt in at: annotations
                invariant
                    at.seq() == raw_behind,
                    behind == stmts_view(raw_behind),
                    items_view(out@) == prev.push(item@) + stmts_as_items(
                        behind.take(at.index() as int),
                    ),
            {
                let ghost before = items_view(out@);
                let ghost k = at.index() as int;
                assert(stmt@ == behind[k]);
                out.push(ModuleItem::Stmt(stmt));
                assert(behind.take(k + 1) =~= behind.take(k).push(behind[k]));
                assert(stmts_as_items(behind.take(k + 1)) =~= stmts_as_items(behind.take(k)).push(
                    ModuleItemV::Stmt(behind[k]),
                ));
                assert(items_view(out@) =~= before.push(ModuleItemV::Stmt(behind[k])));
                assert(items_view(out@) =~= prev.push(item@) + stmts_as_items(behind.take(k + 1)));
            }
            assert(behind.take(raw_behind.len() as int) =~= behind);
            let ghost queued = items_view(self.extra_items@);
            let ghost placed = items_view(out@);
            out.append(&mut self.extra_items);
            assert(items_view(out@) =~= placed + queued);
            assert(self@ =~= StateV { extra_items: seq![], ..visited });
        }
        assert(all.take(raw.len() as int) =~= all);
        out
    }

    /// Visits a module. Hands back the module after the pass and, where the file has
    /// actions, the marker comment that belongs at its start.
    pub fn visit_module(&mut self, m: Module) -> (r: (Module, Option<Comment>))
        ensures
            items_view(r.0.body@) == visited_module_items(
                old(self).file_name@,
                old(self)@,
                m@.body,
            ).0,
            r.0.start == m.start,
            final(self)@ == visited_module_items(old(self).file_name@, old(self)@, m@.body).1,
            match r.1 {
                Some(c) => Some(c@),
                None => None,
            } == marker_of(m.start, final(self)@),
            final(self).config == old(self).config,
            final(self).file_name == old(self).file_name,
    {
        let start = m.start;
        let body = self.visit_module_items(m.body);
        let comment = if self.has_action {
            Some(Comment { pos: start, text: marker_comment(&self.export_actions) })
        } else {
            None
        };
        (Module { start, body }, comment)
    }
}

/// Runs the pass over one module: finds the functions that are server actions,
/// hoists the nested ones, annotates all of them, and makes the marker comment.
pub fn server_actions(file_name: &str, config: Config, module: Module) -> (r: Transformed)
    ensures
        r@ == transformed(file_name@, module@),
{
    let mut pass = ServerActions::new(file_name, config);
    let (module, comment) = pass.visit_module(module);
    Transformed { module, comment, diagnostics: pass.diagnostics }
}

/// The text of the report for an action that is not declared `async`.
pub fn diagnostic_message() -> (r: String)
    ensures
        r@ == "Server actions must be async"@,
{
    "Server actions must be async".to_owned()
}

} // verus!
