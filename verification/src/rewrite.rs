//! Rewriting the body of a hoisted action: every read of a captured binding becomes a
//! read of the capture array at the binding's place in the capture list.
use crate::ast::{
    body_view, declarators_view, exprs_view, fn_decl_view, function_view, idents_view,
    opt_expr_view, opt_pat_view, opt_pats_view, pat_props_view, pats_view, props_view,
    stmts_view, Expr, ExprV, FnDecl, FnDeclV, Function, FunctionV, Ident, IdentV, ObjectPatProp,
    ObjectPatPropV, Pat, PatV, Prop, PropName, PropNameV, PropV, Stmt, StmtV, VarDecl, VarDeclV,
    VarDeclarator, VarDeclaratorV,
};
use crate::capture::{first_index, is_first_index, lemma_first_index, position};
use vstd::prelude::*;

verus! {

/// `arg[k]`: the read of the capture array at place `k`.
pub open spec fn capture_read(arg: IdentV, k: int) -> ExprV {
    ExprV::Index { obj: Box::new(ExprV::Ident(arg)), index: Box::new(ExprV::Num(k as u64)) }
}

pub open spec fn replace_expr(e: ExprV, used: Seq<IdentV>, arg: IdentV) -> ExprV
    decreases e,
{
    match e {
        ExprV::Ident(i) => if used.contains(i) {
            capture_read(arg, first_index(used, i))
        } else {
            e
        },
        ExprV::Str(_) => e,
        ExprV::Num(_) => e,
        ExprV::Array(elems) => ExprV::Array(replace_exprs(elems, used, arg)),
        ExprV::Object(props) => ExprV::Object(replace_props(props, used, arg)),
        ExprV::Call { callee, args } => ExprV::Call {
            callee: Box::new(replace_expr(*callee, used, arg)),
            args: replace_exprs(args, used, arg),
        },
        ExprV::Member { obj, prop } => ExprV::Member {
            obj: Box::new(replace_expr(*obj, used, arg)),
            prop,
        },
        ExprV::Index { obj, index } => ExprV::Index {
            obj: Box::new(replace_expr(*obj, used, arg)),
            index: Box::new(replace_expr(*index, used, arg)),
        },
        ExprV::Assign { left, right } => ExprV::Assign {
            left: Box::new(replace_expr(*left, used, arg)),
            right: Box::new(replace_expr(*right, used, arg)),
        },
        ExprV::Other { shape, parts } => ExprV::Other {
            shape,
            parts: replace_exprs(parts, used, arg),
        },
        ExprV::Function { shape, ident, function } => ExprV::Function {
            shape,
            ident,
            function: Box::new(replace_function(*function, used, arg)),
        },
        ExprV::Opaque(_) => e,
    }
}

pub open spec fn replace_exprs(es: Seq<ExprV>, used: Seq<IdentV>, arg: IdentV) -> Seq<ExprV>
    decreases es,
{
    Seq::new(
        es.len(),
        |i: int|
            if 0 <= i < es.len() {
                replace_expr(es[i], used, arg)
            } else {
                arbitrary()
            },
    )
}

/// A shorthand property that names a captured binding keeps its name as the key and
/// takes the read of the capture array as its value.
pub open spec fn replace_prop(p: PropV, used: Seq<IdentV>, arg: IdentV) -> PropV
    decreases p,
{
    match p {
        PropV::Shorthand(i) => if used.contains(i) {
            PropV::KeyValue {
                key: PropNameV::Ident(i),
                value: capture_read(arg, first_index(used, i)),
            }
        } else {
            p
        },
        PropV::KeyValue { key, value } => PropV::KeyValue {
            key,
            value: replace_expr(value, used, arg),
        },
        PropV::Opaque(_) => p,
    }
}

pub open spec fn replace_props(ps: Seq<PropV>, used: Seq<IdentV>, arg: IdentV) -> Seq<PropV>
    decreases ps,
{
    Seq::new(
        ps.len(),
        |i: int|
            if 0 <= i < ps.len() {
                replace_prop(ps[i], used, arg)
            } else {
                arbitrary()
            },
    )
}

pub open spec fn replace_opt_expr(e: Option<ExprV>, used: Seq<IdentV>, arg: IdentV) -> Option<
    ExprV,
>
    decreases e,
{
    match e {
        Some(e) => Some(replace_expr(e, used, arg)),
        None => None,
    }
}

/// Patterns keep what they bind; only the expressions inside them are rewritten.
pub open spec fn replace_pat(p: PatV, used: Seq<IdentV>, arg: IdentV) -> PatV
    decreases p,
{
    match p {
        PatV::Ident(_) => p,
        PatV::Opaque(_) => p,
        PatV::Array(elems) => PatV::Array(replace_opt_pats(elems, used, arg)),
        PatV::Object(props) => PatV::Object(replace_pat_props(props, used, arg)),
        PatV::Rest(inner) => PatV::Rest(Box::new(replace_pat(*inner, used, arg))),
        PatV::Assign { left, right } => PatV::Assign {
            left: Box::new(replace_pat(*left, used, arg)),
            right: replace_expr(right, used, arg),
        },
    }
}

pub open spec fn replace_opt_pat(p: Option<PatV>, used: Seq<IdentV>, arg: IdentV) -> Option<PatV>
    decreases p,
{
    match p {
        Some(p) => Some(replace_pat(p, used, arg)),
        None => None,
    }
}

pub open spec fn replace_opt_pats(ps: Seq<Option<PatV>>, used: Seq<IdentV>, arg: IdentV) -> Seq<
    Option<PatV>,
>
    decreases ps,
{
    Seq::new(
        ps.len(),
        |i: int|
            if 0 <= i < ps.len() {
                replace_opt_pat(ps[i], used, arg)
            } else {
                arbitrary()
            },
    )
}

pub open spec fn replace_pat_prop(p: ObjectPatPropV, used: Seq<IdentV>, arg: IdentV)
    -> ObjectPatPropV
    decreases p,
{
    match p {
        ObjectPatPropV::KeyValue { key, value } => ObjectPatPropV::KeyValue {
            key,
            value: replace_pat(value, used, arg),
        },
        ObjectPatPropV::Assign { key, value } => ObjectPatPropV::Assign {
            key,
            value: replace_opt_expr(value, used, arg),
        },
        ObjectPatPropV::Rest(inner) => ObjectPatPropV::Rest(replace_pat(inner, used, arg)),
    }
}

pub open spec fn replace_pat_props(ps: Seq<ObjectPatPropV>, used: Seq<IdentV>, arg: IdentV) -> Seq<
    ObjectPatPropV,
>
    decreases ps,
{
    Seq::new(
        ps.len(),
        |i: int|
            if 0 <= i < ps.len() {
                replace_pat_prop(ps[i], used, arg)
            } else {
                arbitrary()
            },
    )
}

pub open spec fn replace_pats(ps: Seq<PatV>, used: Seq<IdentV>, arg: IdentV) -> Seq<PatV>
    decreases ps,
{
    Seq::new(
        ps.len(),
        |i: int|
            if 0 <= i < ps.len() {
                replace_pat(ps[i], used, arg)
            } else {
                arbitrary()
            },
    )
}

pub open spec fn replace_declarator(d: VarDeclaratorV, used: Seq<IdentV>, arg: IdentV)
    -> VarDeclaratorV
    decreases d,
{
    VarDeclaratorV {
        name: replace_pat(d.name, used, arg),
        init: replace_opt_expr(d.init, used, arg),
    }
}

pub open spec fn replace_declarators(ds: Seq<VarDeclaratorV>, used: Seq<IdentV>, arg: IdentV)
    -> Seq<VarDeclaratorV>
    decreases ds,
{
    Seq::new(
        ds.len(),
        |i: int|
            if 0 <= i < ds.len() {
                replace_declarator(ds[i], used, arg)
            } else {
                arbitrary()
            },
    )
}

pub open spec fn replace_var_decl(d: VarDeclV, used: Seq<IdentV>, arg: IdentV) -> VarDeclV
    decreases d,
{
    VarDeclV { kind: d.kind, decls: replace_declarators(d.decls, used, arg) }
}

/// A function inside the body is rewritten like the body: in the default values of its
/// parameters and in its own body.
pub open spec fn replace_function(f: FunctionV, used: Seq<IdentV>, arg: IdentV) -> FunctionV
    decreases f,
{
    FunctionV {
        params: replace_pats(f.params, used, arg),
        body: replace_body(f.body, used, arg),
        is_async: f.is_async,
        is_generator: f.is_generator,
    }
}

pub open spec fn replace_stmt(s: StmtV, used: Seq<IdentV>, arg: IdentV) -> StmtV
    decreases s,
{
    match s {
        StmtV::Expr(e) => StmtV::Expr(replace_expr(e, used, arg)),
        StmtV::Return(e) => StmtV::Return(replace_opt_expr(e, used, arg)),
        StmtV::Var(d) => StmtV::Var(replace_var_decl(d, used, arg)),
        StmtV::Fn(f) => StmtV::Fn(
            FnDeclV { ident: f.ident, function: replace_function(f.function, used, arg) },
        ),
        StmtV::Block(stmts) => StmtV::Block(replace_stmts(stmts, used, arg)),
        StmtV::Other { shape, exprs, body } => StmtV::Other {
            shape,
            exprs: replace_exprs(exprs, used, arg),
            body: replace_stmts(body, used, arg),
        },
        StmtV::Opaque(_) => s,
    }
}

pub open spec fn replace_stmts(ss: Seq<StmtV>, used: Seq<IdentV>, arg: IdentV) -> Seq<StmtV>
    decreases ss,
{
    Seq::new(
        ss.len(),
        |i: int|
            if 0 <= i < ss.len() {
                replace_stmt(ss[i], used, arg)
            } else {
                arbitrary()
            },
    )
}

pub open spec fn replace_body(b: Option<Seq<StmtV>>, used: Seq<IdentV>, arg: IdentV) -> Option<
    Seq<StmtV>,
>
    decreases b,
{
    match b {
        Some(stmts) => Some(replace_stmts(stmts, used, arg)),
        None => None,
    }
}

/// Replaces reads of captured bindings by reads of the capture array.
pub struct ClosureReplacer<'a> {
    /// The parameter that holds the capture array.
    pub closure_arg: &'a Ident,
    /// The capture list.
    pub used_ids: &'a Vec<Ident>,
}

impl<'a> ClosureReplacer<'a> {
    pub open spec fn used(&self) -> Seq<IdentV> {
        idents_view(self.used_ids@)
    }

    pub open spec fn arg(&self) -> IdentV {
        self.closure_arg@
    }

    /// The place of `i` in the capture list, if it is captured.
    pub fn index(&self, i: &Ident) -> (r: Option<usize>)
        ensures
            match r {
                Some(k) => is_first_index(self.used(), i@, k as int),
                None => !self.used().contains(i@),
            },
    {
        position(self.used_ids, i)
    }

    fn read(&self, k: usize) -> (r: Expr)
        ensures
            r@ == capture_read(self.arg(), k as int),
    {
        let obj = Expr::Ident(self.closure_arg.copy());
        let index = Expr::Num(k as u64);
        assert(obj@ == ExprV::Ident(self.arg()));
        assert(index@ == ExprV::Num(k as u64));
        Expr::Index { obj: Box::new(obj), index: Box::new(index) }
    }

    pub fn visit_expr(&self, e: Expr) -> (r: Expr)
        ensures
            r@ == replace_expr(e@, self.used(), self.arg()),
        decreases e,
    {
        match e {
            Expr::Ident(i) => {
                match self.index(&i) {
                    Some(k) => {
                        proof {
                            lemma_first_index(self.used(), i@, k as int);
                        }
                        self.read(k)
                    },
                    None => Expr::Ident(i),
                }
            },
            Expr::Str(s) => Expr::Str(s),
            Expr::Num(n) => Expr::Num(n),
            Expr::Array(elems) => Expr::Array(self.visit_exprs(elems)),
            Expr::Object(props) => Expr::Object(self.visit_props(props)),
            Expr::Call { callee, args } => {
                let c = self.visit_expr(*callee);
                let a = self.visit_exprs(args);
                Expr::Call { callee: Box::new(c), args: a }
            },
            Expr::Member { obj, prop } => {
                let o = self.visit_expr(*obj);
                Expr::Member { obj: Box::new(o), prop }
            },
            Expr::Index { obj, index } => {
                let o = self.visit_expr(*obj);
                let x = self.visit_expr(*index);
                Expr::Index { obj: Box::new(o), index: Box::new(x) }
            },
            Expr::Assign { left, right } => {
                let l = self.visit_expr(*left);
                let r = self.visit_expr(*right);
                Expr::Assign { left: Box::new(l), right: Box::new(r) }
            },
            Expr::Other { shape, parts } => Expr::Other { shape, parts: self.visit_exprs(parts) },
            Expr::Function { shape, ident, function } => {
                let f = self.visit_function(*function);
                Expr::Function { shape, ident, function: Box::new(f) }
            },
            Expr::Opaque(h) => Expr::Opaque(h),
        }
    }

    pub fn visit_exprs(&self, es: Vec<Expr>) -> (r: Vec<Expr>)
        ensures
            exprs_view(r@) == replace_exprs(exprs_view(es@), self.used(), self.arg()),
        decreases es,
    {
        let mut out: Vec<Expr> = Vec::new();
        let ghost all = es@;
        for e in it: es
            invariant
                it.seq() == all,
                forall|j: int| 0 <= j < all.len() ==> decreases_to!(all => all[j]),
                out@.len() == it.index(),
                forall|j: int|
                    0 <= j < out@.len() ==> out@[j]@ == replace_expr(
                        all[j]@,
                        self.used(),
                        self.arg(),
                    ),
        {
            let x = self.visit_expr(e);
            out.push(x);
        }
        assert(exprs_view(out@) =~= replace_exprs(exprs_view(all), self.used(), self.arg()));
        out
    }

    pub fn visit_prop(&self, p: Prop) -> (r: Prop)
        ensures
            r@ == replace_prop(p@, self.used(), self.arg()),
        decreases p,
    {
        match p {
            Prop::Shorthand(i) => {
                match self.index(&i) {
                    Some(k) => {
                        proof {
                            lemma_first_index(self.used(), i@, k as int);
                        }
                        Prop::KeyValue { key: PropName::Ident(i), value: self.read(k) }
                    },
                    None => Prop::Shorthand(i),
                }
            },
            Prop::KeyValue { key, value } => {
                let v = self.visit_expr(value);
                Prop::KeyValue { key, value: v }
            },
            Prop::Opaque(h) => Prop::Opaque(h),
        }
    }

    pub fn visit_props(&self, ps: Vec<Prop>) -> (r: Vec<Prop>)
        ensures
            props_view(r@) == replace_props(props_view(ps@), self.used(), self.arg()),
        decreases ps,
    {
        let mut out: Vec<Prop> = Vec::new();
        let ghost all = ps@;
        for p in it: ps
            invariant
                it.seq() == all,
                forall|j: int| 0 <= j < all.len() ==> decreases_to!(all => all[j]),
                out@.len() == it.index(),
                forall|j: int|
                    0 <= j < out@.len() ==> out@[j]@ == replace_prop(
                        all[j]@,
                        self.used(),
                        self.arg(),
                    ),
        {
            let x = self.visit_prop(p);
            out.push(x);
        }
        assert(props_view(out@) =~= replace_props(props_view(all), self.used(), self.arg()));
        out
    }

    pub fn visit_opt_expr(&self, e: Option<Expr>) -> (r: Option<Expr>)
        ensures
            opt_expr_view(r) == replace_opt_expr(opt_expr_view(e), self.used(), self.arg()),
        decreases e,
    {
        match e {
            Some(e) => Some(self.visit_expr(e)),
            None => None,
        }
    }

    pub fn visit_pat(&self, p: Pat) -> (r: Pat)
        ensures
            r@ == replace_pat(p@, self.used(), self.arg()),
        decreases p,
    {
        match p {
            Pat::Ident(i) => Pat::Ident(i),
            Pat::Opaque(h) => Pat::Opaque(h),
            Pat::Array(elems) => Pat::Array(self.visit_opt_pats(elems)),
            Pat::Object(props) => Pat::Object(self.visit_pat_props(props)),
            Pat::Rest(inner) => {
                let x = self.visit_pat(*inner);
                Pat::Rest(Box::new(x))
            },
            Pat::Assign { left, right } => {
                let l = self.visit_pat(*left);
                let r = self.visit_expr(right);
                Pat::Assign { left: Box::new(l), right: r }
            },
        }
    }

    fn visit_opt_pats(&self, ps: Vec<Option<Pat>>) -> (r: Vec<Option<Pat>>)
        ensures
            opt_pats_view(r@) == replace_opt_pats(opt_pats_view(ps@), self.used(), self.arg()),
        decreases ps,
    {
        let mut out: Vec<Option<Pat>> = Vec::new();
        let ghost all = ps@;
        for p in it: ps
            invariant
                it.seq() == all,
                forall|j: int| 0 <= j < all.len() ==> decreases_to!(all => all[j]),
                out@.len() == it.index(),
                forall|j: int|
                    0 <= j < out@.len() ==> opt_pat_view(out@[j]) == replace_opt_pat(
                        opt_pat_view(all[j]),
                        self.used(),
                        self.arg(),
                    ),
        {
            let x = match p {
                Some(p) => Some(self.visit_pat(p)),
                None => None,
            };
            out.push(x);
        }
        assert(opt_pats_view(out@) =~= replace_opt_pats(
            opt_pats_view(all),
            self.used(),
            self.arg(),
        ));
        out
    }

    fn visit_pat_prop(&self, p: ObjectPatProp) -> (r: ObjectPatProp)
        ensures
            r@ == replace_pat_prop(p@, self.used(), self.arg()),
        decreases p,
    {
        match p {
            ObjectPatProp::KeyValue { key, value } => {
                let v = self.visit_pat(value);
                ObjectPatProp::KeyValue { key, value: v }
            },
            ObjectPatProp::Assign { key, value } => {
                let v = self.visit_opt_expr(value);
                ObjectPatProp::Assign { key, value: v }
            },
            ObjectPatProp::Rest(inner) => ObjectPatProp::Rest(self.visit_pat(inner)),
        }
    }

    fn visit_pat_props(&self, ps: Vec<ObjectPatProp>) -> (r: Vec<ObjectPatProp>)
        ensures
            pat_props_view(r@) == replace_pat_props(pat_props_view(ps@), self.used(), self.arg()),
        decreases ps,
    {
        let mut out: Vec<ObjectPatProp> = Vec::new();
        let ghost all = ps@;
        for p in it: ps
            invariant
                it.seq() == all,
                forall|j: int| 0 <= j < all.len() ==> decreases_to!(all => all[j]),
                out@.len() == it.index(),
                forall|j: int|
                    0 <= j < out@.len() ==> out@[j]@ == replace_pat_prop(
                        all[j]@,
                        self.used(),
                        self.arg(),
                    ),
        {
            let x = self.visit_pat_prop(p);
            out.push(x);
        }
        assert(pat_props_view(out@) =~= replace_pat_props(
            pat_props_view(all),
            self.used(),
            self.arg(),
        ));
        out
    }

    fn visit_pats(&self, ps: Vec<Pat>) -> (r: Vec<Pat>)
        ensures
            pats_view(r@) == replace_pats(pats_view(ps@), self.used(), self.arg()),
        decreases ps,
    {
        let mut out: Vec<Pat> = Vec::new();
        let ghost all = ps@;
        for p in it: ps
            invariant
                it.seq() == all,
                forall|j: int| 0 <= j < all.len() ==> decreases_to!(all => all[j]),
                out@.len() == it.index(),
                forall|j: int|
                    0 <= j < out@.len() ==> out@[j]@ == replace_pat(
                        all[j]@,
                        self.used(),
                        self.arg(),
                    ),
        {
            let x = self.visit_pat(p);
            out.push(x);
        }
        assert(pats_view(out@) =~= replace_pats(pats_view(all), self.used(), self.arg()));
        out
    }

    fn visit_declarators(&self, ds: Vec<VarDeclarator>) -> (r: Vec<VarDeclarator>)
        ensures
            declarators_view(r@) == replace_declarators(
                declarators_view(ds@),
                self.used(),
                self.arg(),
            ),
        decreases ds,
    {
        let mut out: Vec<VarDeclarator> = Vec::new();
        let ghost all = ds@;
        for x in it: ds
            invariant
                it.seq() == all,
                forall|j: int| 0 <= j < all.len() ==> decreases_to!(all => all[j]),
                out@.len() == it.index(),
                forall|j: int|
                    0 <= j < out@.len() ==> out@[j]@ == replace_declarator(
                        all[j]@,
                        self.used(),
                        self.arg(),
                    ),
        {
            let name = self.visit_pat(x.name);
            let init = self.visit_opt_expr(x.init);
            out.push(VarDeclarator { name, init });
        }
        assert(declarators_view(out@) =~= replace_declarators(
            declarators_view(all),
            self.used(),
            self.arg(),
        ));
        out
    }

    fn visit_var_decl(&self, d: VarDecl) -> (r: VarDecl)
        ensures
            r@ == replace_var_decl(d@, self.used(), self.arg()),
        decreases d,
    {
        let kind = d.kind;
        let decls = self.visit_declarators(d.decls);
        VarDecl { kind, decls }
    }

    /// Rewrites a function that stands inside the body.
    pub fn visit_function(&self, f: Function) -> (r: Function)
        ensures
            r@ == replace_function(f@, self.used(), self.arg()),
        decreases f,
    {
        let params = self.visit_pats(f.params);
        let body = self.visit_body(f.body);
        Function { params, body, is_async: f.is_async, is_generator: f.is_generator }
    }

    pub fn visit_stmt(&self, s: Stmt) -> (r: Stmt)
        ensures
            r@ == replace_stmt(s@, self.used(), self.arg()),
        decreases s,
    {
        match s {
            Stmt::Expr(e) => Stmt::Expr(self.visit_expr(e)),
            Stmt::Return(e) => Stmt::Return(self.visit_opt_expr(e)),
            Stmt::Var(d) => Stmt::Var(self.visit_var_decl(d)),
            Stmt::Fn(f) => {
                let ghost before = fn_decl_view(f);
                assert(before.function == function_view(f.function));
                let function = self.visit_function(f.function);
                let decl = FnDecl { ident: f.ident, function };
                assert(fn_decl_view(decl).function == function_view(function));
                Stmt::Fn(decl)
            },
            Stmt::Block(stmts) => Stmt::Block(self.visit_stmts(stmts)),
            Stmt::Other { shape, exprs, body } => {
                let exprs = self.visit_exprs(exprs);
                let body = self.visit_stmts(body);
                Stmt::Other { shape, exprs, body }
            },
            Stmt::Opaque(h) => Stmt::Opaque(h),
        }
    }

    pub fn visit_stmts(&self, ss: Vec<Stmt>) -> (r: Vec<Stmt>)
        ensures
            stmts_view(r@) == replace_stmts(stmts_view(ss@), self.used(), self.arg()),
        decreases ss,
    {
        let mut out: Vec<Stmt> = Vec::new();
        let ghost all = ss@;
        for s in it: ss
            invariant
                it.seq() == all,
                forall|j: int| 0 <= j < all.len() ==> decreases_to!(all => all[j]),
                out@.len() == it.index(),
                forall|j: int|
                    0 <= j < out@.len() ==> out@[j]@ == replace_stmt(
                        all[j]@,
                        self.used(),
                        self.arg(),
                    ),
        {
            let x = self.visit_stmt(s);
            out.push(x);
        }
        assert(stmts_view(out@) =~= replace_stmts(stmts_view(all), self.used(), self.arg()));
        out
    }

    /// Rewrites the body of a function, where it has one.
    pub fn visit_body(&self, b: Option<Vec<Stmt>>) -> (r: Option<Vec<Stmt>>)
        ensures
            body_view(r) == replace_body(body_view(b), self.used(), self.arg()),
        decreases b,
    {
        match b {
            Some(stmts) => Some(self.visit_stmts(stmts)),
            None => None,
        }
    }
}

} // verus!
