//! Which identifiers a declaration pattern binds.
//!
//! Only the shapes listed here contribute: a pattern with a default value, and a rest
//! pattern over anything but a plain identifier, bind nothing as far as this pass is
//! concerned. That under-counts for such patterns; it is a known limit of the pass.
use crate::ast::{
    declarators_view, idents_view, lemma_idents_view_add, lemma_idents_view_push, opt_pat_view,
    opt_pats_view, pat_prop_view, pat_props_view, Ident, IdentV, ObjectPatProp, ObjectPatPropV,
    Pat, PatV, Stmt, StmtV, VarDeclarator, VarDeclaratorV,
};
use vstd::prelude::*;

verus! {

/// The bindings of a pattern in the place of a variable declarator's name or of the value
/// of a `key: value` entry: an identifier, or whatever an array or object pattern binds.
pub open spec fn pat_binders(p: PatV) -> Seq<IdentV>
    decreases p, 0int,
{
    match p {
        PatV::Ident(i) => seq![i],
        PatV::Array(elems) => array_binders(elems),
        PatV::Object(props) => object_binders(props),
        _ => seq![],
    }
}

/// The identifier under a rest pattern, if it is one.
pub open spec fn rest_binders(arg: PatV) -> Seq<IdentV> {
    match arg {
        PatV::Ident(i) => seq![i],
        _ => seq![],
    }
}

/// The bindings of a pattern in the place of a parameter or of an array element:
/// as `pat_binders`, and also the identifier under a rest pattern.
pub open spec fn pat_binders_with_rest(p: PatV) -> Seq<IdentV>
    decreases p, 1int,
{
    match p {
        PatV::Rest(arg) => rest_binders(*arg),
        _ => pat_binders(p),
    }
}

pub open spec fn elem_binders(e: Option<PatV>) -> Seq<IdentV>
    decreases e,
{
    match e {
        Some(p) => pat_binders_with_rest(p),
        None => seq![],
    }
}

/// The bindings of an array pattern's elements, left to right; holes bind nothing.
pub open spec fn array_binders(elems: Seq<Option<PatV>>) -> Seq<IdentV>
    decreases elems,
{
    if elems.len() == 0 {
        seq![]
    } else {
        array_binders(elems.drop_last()) + elem_binders(elems.last())
    }
}

/// The bindings of one entry of an object pattern. The key of a `key: value` entry
/// names a property and binds nothing: the entry binds what its value binds.
pub open spec fn pat_prop_binders(p: ObjectPatPropV) -> Seq<IdentV>
    decreases p,
{
    match p {
        ObjectPatPropV::KeyValue { key, value } => pat_binders(value),
        ObjectPatPropV::Assign { key, value } => seq![key],
        ObjectPatPropV::Rest(arg) => rest_binders(arg),
    }
}

/// The bindings of an object pattern's entries, in order.
pub open spec fn object_binders(props: Seq<ObjectPatPropV>) -> Seq<IdentV>
    decreases props,
{
    if props.len() == 0 {
        seq![]
    } else {
        object_binders(props.drop_last()) + pat_prop_binders(props.last())
    }
}

/// The bindings of a list of variable declarators, in order.
pub open spec fn var_decl_binders(decls: Seq<VarDeclaratorV>) -> Seq<IdentV>
    decreases decls.len(),
{
    if decls.len() == 0 {
        seq![]
    } else {
        var_decl_binders(decls.drop_last()) + pat_binders(decls.last().name)
    }
}

/// The bindings that a statement declares: those of a variable declaration, none otherwise.
pub open spec fn stmt_binders(s: StmtV) -> Seq<IdentV> {
    match s {
        StmtV::Var(d) => var_decl_binders(d.decls),
        _ => seq![],
    }
}

fn collect_rest(arg: &Pat, ids: &mut Vec<Ident>)
    ensures
        idents_view(final(ids)@) == idents_view(old(ids)@) + rest_binders(arg@),
{
    match arg {
        Pat::Ident(i) => {
            let c = i.copy();
            proof {
                lemma_idents_view_push(ids@, c);
            }
            ids.push(c);
        },
        _ => {
            assert(idents_view(ids@) + Seq::<IdentV>::empty() =~= idents_view(ids@));
        },
    }
}

fn collect_pat(p: &Pat, ids: &mut Vec<Ident>)
    ensures
        idents_view(final(ids)@) == idents_view(old(ids)@) + pat_binders(p@),
    decreases p, 0int,
{
    match p {
        Pat::Ident(i) => {
            let c = i.copy();
            proof {
                lemma_idents_view_push(ids@, c);
            }
            ids.push(c);
        },
        Pat::Array(elems) => {
            let mut inner = collect_idents_in_array_pat(elems);
            proof {
                lemma_idents_view_add(ids@, inner@);
            }
            ids.append(&mut inner);
        },
        Pat::Object(props) => {
            let mut inner = collect_idents_in_object_pat(props);
            proof {
                lemma_idents_view_add(ids@, inner@);
            }
            ids.append(&mut inner);
        },
        _ => {
            assert(idents_view(ids@) + Seq::<IdentV>::empty() =~= idents_view(ids@));
        },
    }
}

fn collect_pat_with_rest(p: &Pat, ids: &mut Vec<Ident>)
    ensures
        idents_view(final(ids)@) == idents_view(old(ids)@) + pat_binders_with_rest(p@),
    decreases p, 1int,
{
    match p {
        Pat::Rest(arg) => collect_rest(arg, ids),
        _ => collect_pat(p, ids),
    }
}

/// The identifiers that the elements of an array pattern bind, left to right.
pub fn collect_idents_in_array_pat(elems: &Vec<Option<Pat>>) -> (ids: Vec<Ident>)
    ensures
        idents_view(ids@) == array_binders(opt_pats_view(elems@)),
    decreases elems,
{
    let mut ids: Vec<Ident> = Vec::new();
    let mut i: usize = 0;
    assert(idents_view(ids@) =~= Seq::<IdentV>::empty());
    assert(opt_pats_view(elems@).take(0) =~= Seq::<Option<PatV>>::empty());
    while i < elems.len()
        invariant
            i <= elems.len(),
            idents_view(ids@) == array_binders(opt_pats_view(elems@).take(i as int)),
        decreases elems.len() - i,
    {
        let ghost before = idents_view(ids@);
        match &elems[i] {
            Some(p) => collect_pat_with_rest(p, &mut ids),
            None => {
                assert(before + Seq::<IdentV>::empty() =~= before);
            },
        }
        proof {
            let all = opt_pats_view(elems@);
            let next = all.take(i + 1);
            assert(next.drop_last() =~= all.take(i as int));
            assert(next.last() == opt_pat_view(elems@[i as int]));
            assert(array_binders(next) == array_binders(next.drop_last()) + elem_binders(
                next.last(),
            ));
            assert(idents_view(ids@) == before + elem_binders(next.last()));
        }
        i += 1;
    }
    assert(opt_pats_view(elems@).take(i as int) =~= opt_pats_view(elems@));
    ids
}

/// The identifiers that the entries of an object pattern bind, in order.
pub fn collect_idents_in_object_pat(props: &Vec<ObjectPatProp>) -> (ids: Vec<Ident>)
    ensures
        idents_view(ids@) == object_binders(pat_props_view(props@)),
    decreases props,
{
    let mut ids: Vec<Ident> = Vec::new();
    let mut i: usize = 0;
    assert(idents_view(ids@) =~= Seq::<IdentV>::empty());
    assert(pat_props_view(props@).take(0) =~= Seq::<ObjectPatPropV>::empty());
    while i < props.len()
        invariant
            i <= props.len(),
            idents_view(ids@) == object_binders(pat_props_view(props@).take(i as int)),
        decreases props.len() - i,
    {
        let ghost before = idents_view(ids@);
        match &props[i] {
            ObjectPatProp::KeyValue { key: _, value } => {
                collect_pat(value, &mut ids);
            },
            ObjectPatProp::Assign { key, value } => {
                let c = key.copy();
                proof {
                    lemma_idents_view_push(ids@, c);
                }
                ids.push(c);
                assert(idents_view(ids@) =~= before + seq![key@]);
            },
            ObjectPatProp::Rest(arg) => collect_rest(arg, &mut ids),
        }
        proof {
            let all = pat_props_view(props@);
            let next = all.take(i + 1);
            assert(next.drop_last() =~= all.take(i as int));
            assert(next.last() == pat_prop_view(props@[i as int]));
            assert(object_binders(next) == object_binders(next.drop_last()) + pat_prop_binders(
                next.last(),
            ));
            assert(idents_view(ids@) == before + pat_prop_binders(next.last()));
        }
        i += 1;
    }
    assert(pat_props_view(props@).take(i as int) =~= pat_props_view(props@));
    ids
}

/// The identifiers that a list of variable declarators binds, in order.
pub fn collect_idents_in_var_decls(decls: &Vec<VarDeclarator>) -> (ids: Vec<Ident>)
    ensures
        idents_view(ids@) == var_decl_binders(declarators_view(decls@)),
{
    let mut ids: Vec<Ident> = Vec::new();
    let mut i: usize = 0;
    assert(idents_view(ids@) =~= Seq::<IdentV>::empty());
    assert(declarators_view(decls@).take(0) =~= Seq::<VarDeclaratorV>::empty());
    while i < decls.len()
        invariant
            i <= decls.len(),
            idents_view(ids@) == var_decl_binders(declarators_view(decls@).take(i as int)),
        decreases decls.len() - i,
    {
        collect_pat(&decls[i].name, &mut ids);
        proof {
            let all = declarators_view(decls@);
            assert(all.take(i + 1).drop_last() =~= all.take(i as int));
            assert(all.take(i + 1).last() == decls@[i as int]@);
        }
        i += 1;
    }
    assert(declarators_view(decls@).take(i as int) =~= declarators_view(decls@));
    ids
}

/// The identifiers that a statement declares.
pub fn collect_idents_in_stmt(stmt: &Stmt) -> (ids: Vec<Ident>)
    ensures
        idents_view(ids@) == stmt_binders(stmt@),
{
    match stmt {
        Stmt::Var(var) => collect_idents_in_var_decls(&var.decls),
        _ => {
            let ids: Vec<Ident> = Vec::new();
            assert(idents_view(ids@) =~= Seq::<IdentV>::empty());
            ids
        },
    }
}

/// The identifiers that a parameter binds.
pub fn collect_idents_in_param(param: &Pat) -> (ids: Vec<Ident>)
    ensures
        idents_view(ids@) == pat_binders_with_rest(param@),
{
    let mut ids: Vec<Ident> = Vec::new();
    assert(idents_view(ids@) =~= Seq::<IdentV>::empty());
    collect_pat_with_rest(param, &mut ids);
    assert(Seq::<IdentV>::empty() + pat_binders_with_rest(param@) =~= pat_binders_with_rest(
        param@,
    ));
    ids
}

} // verus!
