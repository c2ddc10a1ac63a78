//! The statements and items that the pass synthesizes for an action: the property
//! assignments on its binding, the exported alias, the hoisted function and the
//! forwarding body.
use crate::ast::{
    body_view, declarators_view, exprs_view, fn_decl_view, function_view, idents_view,
    opt_expr_view, pats_view, plain_ident, stmts_view, Expr, ExprV, FnDecl, FnDeclV, Function,
    FunctionV, Ident, IdentV, ModuleItem, ModuleItemV, Pat, PatV, Stmt, StmtV, VarDecl, VarDeclV,
    VarDeclarator, VarDeclaratorV, VarKind,
};
use vstd::prelude::*;
use vstd::string::StringExecFns;

verus! {

/// `target.field = value;`
pub open spec fn annotation(target: IdentV, field: Seq<char>, value: ExprV) -> StmtV {
    StmtV::Expr(
        ExprV::Assign {
            left: Box::new(
                ExprV::Member { obj: Box::new(ExprV::Ident(target)), prop: plain_ident(field) },
            ),
            right: Box::new(value),
        },
    )
}

/// `Symbol.for("react.server.reference")`
pub open spec fn type_marker() -> ExprV {
    ExprV::Call {
        callee: Box::new(
            ExprV::Member {
                obj: Box::new(ExprV::Ident(plain_ident("Symbol"@))),
                prop: plain_ident("for"@),
            },
        ),
        args: seq![ExprV::Str("react.server.reference"@)],
    }
}

/// The array literal that lists the captured bindings.
pub open spec fn capture_array(caps: Seq<IdentV>) -> ExprV {
    ExprV::Array(Seq::new(caps.len(), |i: int| ExprV::Ident(caps[i])))
}

/// The name under which an action is reachable from outside: its own where the file is
/// an action file and the function is exported as it stands, a derived one otherwise.
pub open spec fn action_name(covered: bool, sym: Seq<char>) -> Seq<char> {
    if covered {
        sym
    } else {
        "$ACTION_"@ + sym
    }
}

/// The assignments that every action gets, in their fixed order.
pub open spec fn base_annotations(target: IdentV, path: Seq<char>, name: Seq<char>) -> Seq<StmtV> {
    seq![
        annotation(target, "$$typeof"@, type_marker()),
        annotation(target, "$$filepath"@, ExprV::Str(path)),
        annotation(target, "$$name"@, ExprV::Str(name)),
    ]
}

/// The assignment that a hoisted action gets on top: its capture list.
pub open spec fn closure_annotation(target: IdentV, caps: Seq<IdentV>) -> StmtV {
    annotation(target, "$$closure"@, capture_array(caps))
}

/// `export const <alias> = <binding>;`
pub open spec fn export_alias(alias: IdentV, binding: IdentV) -> ModuleItemV {
    ModuleItemV::ExportVar(
        VarDeclV {
            kind: VarKind::Const,
            decls: seq![
                VarDeclaratorV { name: PatV::Ident(alias), init: Some(ExprV::Ident(binding)) },
            ],
        },
    )
}

/// `return <hoisted>(<binding>.$$closure);`
pub open spec fn forwarding_body(hoisted: IdentV, binding: IdentV) -> Seq<StmtV> {
    seq![
        StmtV::Return(
            Some(
                ExprV::Call {
                    callee: Box::new(ExprV::Ident(hoisted)),
                    args: seq![
                        ExprV::Member {
                            obj: Box::new(ExprV::Ident(binding)),
                            prop: plain_ident("$$closure"@),
                        },
                    ],
                },
            ),
        ),
    ]
}

/// `export function <name>(<closure_arg>) <body>`, asynchronous and a generator as the
/// action was.
pub open spec fn hoisted_fn(
    name: IdentV,
    closure_arg: IdentV,
    body: Option<Seq<StmtV>>,
    is_async: bool,
    is_generator: bool,
) -> ModuleItemV {
    ModuleItemV::ExportFn(
        FnDeclV {
            ident: name,
            function: FunctionV {
                params: seq![PatV::Ident(closure_arg)],
                body,
                is_async,
                is_generator,
            },
        },
    )
}

fn member(obj: &Ident, prop: &str) -> (r: Expr)
    ensures
        r@ == (ExprV::Member { obj: Box::new(ExprV::Ident(obj@)), prop: plain_ident(prop@) }),
{
    let o = Expr::Ident(obj.copy());
    assert(o@ == ExprV::Ident(obj@));
    Expr::Member { obj: Box::new(o), prop: Ident::plain(prop) }
}

/// The statement that assigns `value` to the property `field_name` of `fn_name`.
pub fn annotate(fn_name: &Ident, field_name: &str, value: Box<Expr>) -> (s: Stmt)
    ensures
        s@ == annotation(fn_name@, field_name@, (*value)@),
{
    let left = member(fn_name, field_name);
    let e = Expr::Assign { left: Box::new(left), right: value };
    assert(e@ == ExprV::Assign { left: Box::new(left@), right: Box::new((*value)@) });
    Stmt::Expr(e)
}

pub fn make_type_marker() -> (r: Expr)
    ensures
        r@ == type_marker(),
{
    let symbol = Ident::plain("Symbol");
    let callee = member(&symbol, "for");
    let arg = Expr::Str("react.server.reference".to_owned());
    assert(arg@ == ExprV::Str("react.server.reference"@));
    let mut args: Vec<Expr> = Vec::new();
    args.push(arg);
    assert(exprs_view(args@) =~= seq![ExprV::Str("react.server.reference"@)]);
    let r = Expr::Call { callee: Box::new(callee), args };
    assert(r@ == ExprV::Call { callee: Box::new(callee@), args: exprs_view(args@) });
    r
}

pub fn make_string(s: &str) -> (r: Expr)
    ensures
        r@ == ExprV::Str(s@),
{
    Expr::Str(s.to_owned())
}

pub fn make_capture_array(caps: &Vec<Ident>) -> (r: Expr)
    ensures
        r@ == capture_array(idents_view(caps@)),
{
    let mut elems: Vec<Expr> = Vec::new();
    let mut i: usize = 0;
    while i < caps.len()
        invariant
            i <= caps.len(),
            elems@.len() == i,
            forall|j: int| 0 <= j < i ==> elems@[j]@ == ExprV::Ident(caps@[j]@),
        decreases caps.len() - i,
    {
        let e = Expr::Ident(caps[i].copy());
        assert(e@ == ExprV::Ident(caps@[i as int]@));
        elems.push(e);
        i += 1;
    }
    assert(exprs_view(elems@) =~= Seq::new(
        idents_view(caps@).len(),
        |i: int| ExprV::Ident(idents_view(caps@)[i]),
    ));
    let r = Expr::Array(elems);
    assert(r@ == ExprV::Array(exprs_view(elems@)));
    r
}

/// The stable name of an action with the given declared name.
pub fn make_action_name(covered: bool, sym: &str) -> (r: String)
    ensures
        r@ == action_name(covered, sym@),
{
    if covered {
        sym.to_owned()
    } else {
        String::from_str("$ACTION_").concat(sym)
    }
}

pub fn make_base_annotations(target: &Ident, path: &str, name: &str) -> (r: Vec<Stmt>)
    ensures
        stmts_view(r@) == base_annotations(target@, path@, name@),
{
    let mut out: Vec<Stmt> = Vec::new();
    out.push(annotate(target, "$$typeof", Box::new(make_type_marker())));
    out.push(annotate(target, "$$filepath", Box::new(make_string(path))));
    out.push(annotate(target, "$$name", Box::new(make_string(name))));
    assert(stmts_view(out@) =~= base_annotations(target@, path@, name@));
    out
}

pub fn make_closure_annotation(target: &Ident, caps: &Vec<Ident>) -> (r: Stmt)
    ensures
        r@ == closure_annotation(target@, idents_view(caps@)),
{
    annotate(target, "$$closure", Box::new(make_capture_array(caps)))
}

pub fn make_export_alias(alias: Ident, binding: &Ident) -> (r: ModuleItem)
    ensures
        r@ == export_alias(alias@, binding@),
{
    let init = Expr::Ident(binding.copy());
    assert(init@ == ExprV::Ident(binding@));
    let name = Pat::Ident(alias);
    assert(name@ == PatV::Ident(alias@));
    let value = Some(init);
    assert(opt_expr_view(value) == Some(init@));
    let declarator = VarDeclarator { name, init: value };
    assert(declarator@ == VarDeclaratorV {
        name: PatV::Ident(alias@),
        init: Some(ExprV::Ident(binding@)),
    });
    let mut decls: Vec<VarDeclarator> = Vec::new();
    decls.push(declarator);
    assert(declarators_view(decls@) =~= seq![declarator@]);
    let decl = VarDecl { kind: VarKind::Const, decls };
    assert(decl@.decls == declarators_view(decls@));
    ModuleItem::ExportVar(decl)
}

pub fn make_forwarding_body(hoisted: &Ident, binding: &Ident) -> (r: Vec<Stmt>)
    ensures
        stmts_view(r@) == forwarding_body(hoisted@, binding@),
{
    let callee = Expr::Ident(hoisted.copy());
    assert(callee@ == ExprV::Ident(hoisted@));
    let arg = member(binding, "$$closure");
    let mut args: Vec<Expr> = Vec::new();
    args.push(arg);
    assert(exprs_view(args@) =~= seq![arg@]);
    let call = Expr::Call { callee: Box::new(callee), args };
    assert(call@ == ExprV::Call { callee: Box::new(callee@), args: exprs_view(args@) });
    let result = Some(call);
    assert(opt_expr_view(result) == Some(call@));
    let forward = Stmt::Return(result);
    assert(forward@ == StmtV::Return(Some(call@)));
    let mut out: Vec<Stmt> = Vec::new();
    out.push(forward);
    assert(stmts_view(out@) =~= forwarding_body(hoisted@, binding@));
    out
}

pub fn make_hoisted_fn(
    name: Ident,
    closure_arg: Ident,
    body: Option<Vec<Stmt>>,
    is_async: bool,
    is_generator: bool,
) -> (r: ModuleItem)
    ensures
        r@ == hoisted_fn(name@, closure_arg@, body_view(body), is_async, is_generator),
{
    let p = Pat::Ident(closure_arg);
    assert(p@ == PatV::Ident(closure_arg@));
    let mut params: Vec<Pat> = Vec::new();
    params.push(p);
    assert(pats_view(params@) =~= seq![PatV::Ident(closure_arg@)]);
    let function = Function { params, body, is_async, is_generator };
    assert(function_view(function).params == pats_view(params@));
    let decl = FnDecl { ident: name, function };
    assert(fn_decl_view(decl).function == function_view(function));
    ModuleItem::ExportFn(decl)
}

} // verus!
