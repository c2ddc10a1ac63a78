//! The syntax tree the pass works on, and its mathematical model.
//!
//! Every tree type has a model type with the same shape whose collections are
//! `Seq`s and whose strings are `Seq<char>`; the model is what contracts speak of.
use vstd::prelude::*;

verus! {

/// The defining scope of a binding. Together with the spelling it identifies a binding:
/// two identifiers denote the same binding exactly when spelling and scope agree.
#[derive(Clone, Copy, PartialEq, Eq, Structural, Debug, Hash)]
pub enum Scope {
    /// A scope numbered by the resolver that ran before this pass; `Source(0)` is the
    /// scope of names that were never resolved, such as property names.
    Source(u32),
    /// The scope of the exported name synthesized for the action with this discovery index.
    Action(usize),
    /// The scope of the capture parameter of the function hoisted for the action with
    /// this discovery index.
    Closure(usize),
}

#[derive(Clone, PartialEq, Eq, Debug, Hash)]
pub struct Ident {
    pub sym: String,
    pub scope: Scope,
}

pub struct IdentV {
    pub sym: Seq<char>,
    pub scope: Scope,
}

impl View for Ident {
    type V = IdentV;

    open spec fn view(&self) -> IdentV {
        IdentV { sym: self.sym@, scope: self.scope }
    }
}

pub open spec fn idents_view(s: Seq<Ident>) -> Seq<IdentV> {
    Seq::new(s.len(), |i: int| s[i]@)
}

/// The model of a list with one more identifier.
pub proof fn lemma_idents_view_push(s: Seq<Ident>, x: Ident)
    ensures
        idents_view(s.push(x)) == idents_view(s).push(x@),
{
    assert(idents_view(s.push(x)) =~= idents_view(s).push(x@));
}

/// The model of two lists joined.
pub proof fn lemma_idents_view_add(a: Seq<Ident>, b: Seq<Ident>)
    ensures
        idents_view(a + b) == idents_view(a) + idents_view(b),
{
    assert(idents_view(a + b) =~= idents_view(a) + idents_view(b));
}

pub open spec fn strings_view(s: Seq<String>) -> Seq<Seq<char>> {
    Seq::new(s.len(), |i: int| s[i]@)
}

#[derive(PartialEq, Eq, Debug)]
pub enum PropName {
    Ident(Ident),
    Str(String),
}

pub enum PropNameV {
    Ident(IdentV),
    Str(Seq<char>),
}

impl View for PropName {
    type V = PropNameV;

    open spec fn view(&self) -> PropNameV {
        match self {
            PropName::Ident(i) => PropNameV::Ident(i@),
            PropName::Str(s) => PropNameV::Str(s@),
        }
    }
}

#[derive(PartialEq, Eq, Debug)]
pub enum Expr {
    Ident(Ident),
    Str(String),
    Num(u64),
    Array(Vec<Expr>),
    Object(Vec<Prop>),
    Call { callee: Box<Expr>, args: Vec<Expr> },
    /// `obj.prop`
    Member { obj: Box<Expr>, prop: Ident },
    /// `obj[index]`
    Index { obj: Box<Expr>, index: Box<Expr> },
    Assign { left: Box<Expr>, right: Box<Expr> },
    /// Any other form that is made of expressions alone, such as an operator with its
    /// operands. `shape` says which; it is the host's business and the pass hands it on.
    Other { shape: u32, parts: Vec<Expr> },
    /// A function that is an expression: a function expression with or without a name,
    /// or an arrow function. `shape` says which; it is the host's business and the pass
    /// hands it on.
    Function { shape: u32, ident: Option<Ident>, function: Box<Function> },
    /// Syntax that the pass does not look into; the number is the host's handle for it.
    Opaque(u32),
}

/// A property of an object literal.
#[derive(PartialEq, Eq, Debug)]
pub enum Prop {
    /// `{ a }`
    Shorthand(Ident),
    /// `{ key: value }`
    KeyValue { key: PropName, value: Expr },
    /// Syntax that the pass does not look into; the number is the host's handle for it.
    Opaque(u32),
}

pub enum ExprV {
    Ident(IdentV),
    Str(Seq<char>),
    Num(u64),
    Array(Seq<ExprV>),
    Object(Seq<PropV>),
    Call { callee: Box<ExprV>, args: Seq<ExprV> },
    Member { obj: Box<ExprV>, prop: IdentV },
    Index { obj: Box<ExprV>, index: Box<ExprV> },
    Assign { left: Box<ExprV>, right: Box<ExprV> },
    Other { shape: u32, parts: Seq<ExprV> },
    Function { shape: u32, ident: Option<IdentV>, function: Box<FunctionV> },
    Opaque(u32),
}

pub enum PropV {
    Shorthand(IdentV),
    KeyValue { key: PropNameV, value: ExprV },
    Opaque(u32),
}

pub open spec fn expr_view(e: Expr) -> ExprV
    decreases e,
{
    match e {
        Expr::Ident(i) => ExprV::Ident(i@),
        Expr::Str(s) => ExprV::Str(s@),
        Expr::Num(n) => ExprV::Num(n),
        Expr::Array(elems) => ExprV::Array(exprs_view(elems@)),
        Expr::Object(props) => ExprV::Object(props_view(props@)),
        Expr::Call { callee, args } => ExprV::Call {
            callee: Box::new(expr_view(*callee)),
            args: exprs_view(args@),
        },
        Expr::Member { obj, prop } => ExprV::Member { obj: Box::new(expr_view(*obj)), prop: prop@ },
        Expr::Index { obj, index } => ExprV::Index {
            obj: Box::new(expr_view(*obj)),
            index: Box::new(expr_view(*index)),
        },
        Expr::Assign { left, right } => ExprV::Assign {
            left: Box::new(expr_view(*left)),
            right: Box::new(expr_view(*right)),
        },
        Expr::Other { shape, parts } => ExprV::Other { shape, parts: exprs_view(parts@) },
        Expr::Function { shape, ident, function } => ExprV::Function {
            shape,
            ident: opt_ident_view(ident),
            function: Box::new(function_view(*function)),
        },
        Expr::Opaque(h) => ExprV::Opaque(h),
    }
}

pub open spec fn exprs_view(s: Seq<Expr>) -> Seq<ExprV>
    decreases s,
{
    Seq::new(
        s.len(),
        |i: int|
            if 0 <= i < s.len() {
                expr_view(s[i])
            } else {
                arbitrary()
            },
    )
}

pub open spec fn prop_view(p: Prop) -> PropV
    decreases p,
{
    match p {
        Prop::Shorthand(i) => PropV::Shorthand(i@),
        Prop::KeyValue { key, value } => PropV::KeyValue { key: key@, value: expr_view(value) },
        Prop::Opaque(h) => PropV::Opaque(h),
    }
}

pub open spec fn props_view(s: Seq<Prop>) -> Seq<PropV>
    decreases s,
{
    Seq::new(
        s.len(),
        |i: int|
            if 0 <= i < s.len() {
                prop_view(s[i])
            } else {
                arbitrary()
            },
    )
}

impl View for Expr {
    type V = ExprV;

    open spec fn view(&self) -> ExprV {
        expr_view(*self)
    }
}

impl View for Prop {
    type V = PropV;

    open spec fn view(&self) -> PropV {
        prop_view(*self)
    }
}

pub open spec fn opt_expr_view(e: Option<Expr>) -> Option<ExprV>
    decreases e,
{
    match e {
        Some(e) => Some(expr_view(e)),
        None => None,
    }
}

pub open spec fn opt_ident_view(i: Option<Ident>) -> Option<IdentV> {
    match i {
        Some(i) => Some(i@),
        None => None,
    }
}

/// A binding pattern.
#[derive(PartialEq, Eq, Debug)]
pub enum Pat {
    Ident(Ident),
    /// `[a, , b]`; a hole is `None`.
    Array(Vec<Option<Pat>>),
    Object(Vec<ObjectPatProp>),
    /// `...arg`
    Rest(Box<Pat>),
    /// `left = right`, a pattern with a default value.
    Assign { left: Box<Pat>, right: Expr },
    /// Syntax that the pass does not look into; the number is the host's handle for it.
    Opaque(u32),
}

#[derive(PartialEq, Eq, Debug)]
pub enum ObjectPatProp {
    /// `{ key: value }`
    KeyValue { key: PropName, value: Pat },
    /// `{ key }` or `{ key = value }`
    Assign { key: Ident, value: Option<Expr> },
    /// `{ ...arg }`
    Rest(Pat),
}

pub enum PatV {
    Ident(IdentV),
    Array(Seq<Option<PatV>>),
    Object(Seq<ObjectPatPropV>),
    Rest(Box<PatV>),
    Assign { left: Box<PatV>, right: ExprV },
    Opaque(u32),
}

pub enum ObjectPatPropV {
    KeyValue { key: PropNameV, value: PatV },
    Assign { key: IdentV, value: Option<ExprV> },
    Rest(PatV),
}

pub open spec fn pat_view(p: Pat) -> PatV
    decreases p,
{
    match p {
        Pat::Ident(i) => PatV::Ident(i@),
        Pat::Array(elems) => PatV::Array(opt_pats_view(elems@)),
        Pat::Object(props) => PatV::Object(pat_props_view(props@)),
        Pat::Rest(arg) => PatV::Rest(Box::new(pat_view(*arg))),
        Pat::Assign { left, right } => PatV::Assign {
            left: Box::new(pat_view(*left)),
            right: expr_view(right),
        },
        Pat::Opaque(h) => PatV::Opaque(h),
    }
}

pub open spec fn opt_pat_view(p: Option<Pat>) -> Option<PatV>
    decreases p,
{
    match p {
        Some(p) => Some(pat_view(p)),
        None => None,
    }
}

pub open spec fn opt_pats_view(s: Seq<Option<Pat>>) -> Seq<Option<PatV>>
    decreases s,
{
    Seq::new(
        s.len(),
        |i: int|
            if 0 <= i < s.len() {
                opt_pat_view(s[i])
            } else {
                arbitrary()
            },
    )
}

pub open spec fn pat_prop_view(p: ObjectPatProp) -> ObjectPatPropV
    decreases p,
{
    match p {
        ObjectPatProp::KeyValue { key, value } => ObjectPatPropV::KeyValue {
            key: key@,
            value: pat_view(value),
        },
        ObjectPatProp::Assign { key, value } => ObjectPatPropV::Assign {
            key: key@,
            value: opt_expr_view(value),
        },
        ObjectPatProp::Rest(arg) => ObjectPatPropV::Rest(pat_view(arg)),
    }
}

pub open spec fn pat_props_view(s: Seq<ObjectPatProp>) -> Seq<ObjectPatPropV>
    decreases s,
{
    Seq::new(
        s.len(),
        |i: int|
            if 0 <= i < s.len() {
                pat_prop_view(s[i])
            } else {
                arbitrary()
            },
    )
}

impl View for Pat {
    type V = PatV;

    open spec fn view(&self) -> PatV {
        pat_view(*self)
    }
}

impl View for ObjectPatProp {
    type V = ObjectPatPropV;

    open spec fn view(&self) -> ObjectPatPropV {
        pat_prop_view(*self)
    }
}

pub open spec fn pats_view(s: Seq<Pat>) -> Seq<PatV>
    decreases s,
{
    Seq::new(
        s.len(),
        |i: int|
            if 0 <= i < s.len() {
                pat_view(s[i])
            } else {
                arbitrary()
            },
    )
}

#[derive(Clone, Copy, PartialEq, Eq, Structural, Debug)]
pub enum VarKind {
    Var,
    Let,
    Const,
}

#[derive(PartialEq, Eq, Debug)]
pub struct VarDeclarator {
    pub name: Pat,
    pub init: Option<Expr>,
}

pub struct VarDeclaratorV {
    pub name: PatV,
    pub init: Option<ExprV>,
}

pub open spec fn declarator_view(d: VarDeclarator) -> VarDeclaratorV
    decreases d,
{
    VarDeclaratorV { name: pat_view(d.name), init: opt_expr_view(d.init) }
}

impl View for VarDeclarator {
    type V = VarDeclaratorV;

    open spec fn view(&self) -> VarDeclaratorV {
        declarator_view(*self)
    }
}

pub open spec fn declarators_view(s: Seq<VarDeclarator>) -> Seq<VarDeclaratorV>
    decreases s,
{
    Seq::new(
        s.len(),
        |i: int|
            if 0 <= i < s.len() {
                declarator_view(s[i])
            } else {
                arbitrary()
            },
    )
}

#[derive(PartialEq, Eq, Debug)]
pub struct VarDecl {
    pub kind: VarKind,
    pub decls: Vec<VarDeclarator>,
}

pub struct VarDeclV {
    pub kind: VarKind,
    pub decls: Seq<VarDeclaratorV>,
}

pub open spec fn var_decl_view(d: VarDecl) -> VarDeclV
    decreases d,
{
    VarDeclV { kind: d.kind, decls: declarators_view(d.decls@) }
}

impl View for VarDecl {
    type V = VarDeclV;

    open spec fn view(&self) -> VarDeclV {
        var_decl_view(*self)
    }
}

#[derive(PartialEq, Eq, Debug)]
pub struct Function {
    pub params: Vec<Pat>,
    /// `None` for a declaration without a body.
    pub body: Option<Vec<Stmt>>,
    pub is_async: bool,
    pub is_generator: bool,
}

#[derive(PartialEq, Eq, Debug)]
pub struct FnDecl {
    pub ident: Ident,
    pub function: Function,
}

#[derive(PartialEq, Eq, Debug)]
pub enum Stmt {
    Expr(Expr),
    Return(Option<Expr>),
    Var(VarDecl),
    Fn(FnDecl),
    Block(Vec<Stmt>),
    /// Any other statement that is made of expressions and statements alone, such as a
    /// conditional: the expressions of its head, then the statements under it. `shape`
    /// says which; it is the host's business and the pass hands it on.
    Other { shape: u32, exprs: Vec<Expr>, body: Vec<Stmt> },
    /// Syntax that the pass does not look into; the number is the host's handle for it.
    Opaque(u32),
}

pub struct FunctionV {
    pub params: Seq<PatV>,
    pub body: Option<Seq<StmtV>>,
    pub is_async: bool,
    pub is_generator: bool,
}

pub struct FnDeclV {
    pub ident: IdentV,
    pub function: FunctionV,
}

pub enum StmtV {
    Expr(ExprV),
    Return(Option<ExprV>),
    Var(VarDeclV),
    Fn(FnDeclV),
    Block(Seq<StmtV>),
    Other { shape: u32, exprs: Seq<ExprV>, body: Seq<StmtV> },
    Opaque(u32),
}

pub open spec fn stmt_view(s: Stmt) -> StmtV
    decreases s,
{
    match s {
        Stmt::Expr(e) => StmtV::Expr(expr_view(e)),
        Stmt::Return(e) => StmtV::Return(opt_expr_view(e)),
        Stmt::Var(d) => StmtV::Var(var_decl_view(d)),
        Stmt::Fn(f) => StmtV::Fn(fn_decl_view(f)),
        Stmt::Block(stmts) => StmtV::Block(stmts_view(stmts@)),
        Stmt::Other { shape, exprs, body } => StmtV::Other {
            shape,
            exprs: exprs_view(exprs@),
            body: stmts_view(body@),
        },
        Stmt::Opaque(h) => StmtV::Opaque(h),
    }
}

pub open spec fn stmts_view(s: Seq<Stmt>) -> Seq<StmtV>
    decreases s,
{
    Seq::new(
        s.len(),
        |i: int|
            if 0 <= i < s.len() {
                stmt_view(s[i])
            } else {
                arbitrary()
            },
    )
}

pub open spec fn body_view(b: Option<Vec<Stmt>>) -> Option<Seq<StmtV>>
    decreases b,
{
    match b {
        Some(stmts) => Some(stmts_view(stmts@)),
        None => None,
    }
}

pub open spec fn function_view(f: Function) -> FunctionV
    decreases f,
{
    FunctionV {
        params: pats_view(f.params@),
        body: body_view(f.body),
        is_async: f.is_async,
        is_generator: f.is_generator,
    }
}

pub open spec fn fn_decl_view(f: FnDecl) -> FnDeclV
    decreases f,
{
    FnDeclV { ident: f.ident@, function: function_view(f.function) }
}

impl View for Stmt {
    type V = StmtV;

    open spec fn view(&self) -> StmtV {
        stmt_view(*self)
    }
}

impl View for Function {
    type V = FunctionV;

    open spec fn view(&self) -> FunctionV {
        function_view(*self)
    }
}

impl View for FnDecl {
    type V = FnDeclV;

    open spec fn view(&self) -> FnDeclV {
        fn_decl_view(*self)
    }
}

#[derive(PartialEq, Eq, Debug)]
pub enum ModuleItem {
    Stmt(Stmt),
    /// `export function ...`
    ExportFn(FnDecl),
    /// `export const ...` and its `let` and `var` forms
    ExportVar(VarDecl),
    /// Any other item, such as an import; the number is the host's handle for it.
    Opaque(u32),
}

pub enum ModuleItemV {
    Stmt(StmtV),
    ExportFn(FnDeclV),
    ExportVar(VarDeclV),
    Opaque(u32),
}

impl View for ModuleItem {
    type V = ModuleItemV;

    open spec fn view(&self) -> ModuleItemV {
        match self {
            ModuleItem::Stmt(s) => ModuleItemV::Stmt(s@),
            ModuleItem::ExportFn(f) => ModuleItemV::ExportFn(f@),
            ModuleItem::ExportVar(d) => ModuleItemV::ExportVar(d@),
            ModuleItem::Opaque(h) => ModuleItemV::Opaque(*h),
        }
    }
}

pub open spec fn items_view(s: Seq<ModuleItem>) -> Seq<ModuleItemV> {
    Seq::new(s.len(), |i: int| s[i]@)
}

#[derive(PartialEq, Eq, Debug)]
pub struct Module {
    /// Byte offset at which the file starts.
    pub start: u32,
    pub body: Vec<ModuleItem>,
}

pub struct ModuleV {
    pub start: u32,
    pub body: Seq<ModuleItemV>,
}

impl View for Module {
    type V = ModuleV;

    open spec fn view(&self) -> ModuleV {
        ModuleV { start: self.start, body: items_view(self.body@) }
    }
}

impl Ident {
    /// An identifier in the given scope.
    pub fn new(sym: &str, scope: Scope) -> (r: Ident)
        ensures
            r@ == (IdentV { sym: sym@, scope }),
    {
        Ident { sym: sym.to_owned(), scope }
    }

    /// A name that no resolver has seen, as property names and globals are.
    pub fn plain(sym: &str) -> (r: Ident)
        ensures
            r@ == plain_ident(sym@),
    {
        Ident { sym: sym.to_owned(), scope: Scope::Source(0) }
    }

    pub fn copy(&self) -> (r: Ident)
        ensures
            r@ == self@,
    {
        Ident { sym: self.sym.clone(), scope: self.scope }
    }

    /// Whether both identifiers denote the same binding.
    pub fn same_binding(&self, other: &Ident) -> (r: bool)
        ensures
            r == (self@ == other@),
    {
        let r = self.sym == other.sym && self.scope == other.scope;
        proof {
            if self.sym@ == other.sym@ && self.scope == other.scope {
                assert(self@ == other@);
            }
        }
        r
    }
}

pub open spec fn plain_ident(sym: Seq<char>) -> IdentV {
    IdentV { sym, scope: Scope::Source(0) }
}

} // verus!
