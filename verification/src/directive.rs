//! Recognizing the directive that marks a file or a function as a server action.
use crate::ast::{items_view, stmts_view, Expr, ExprV, ModuleItem, ModuleItemV, Stmt, StmtV};
use vstd::prelude::*;

verus! {

/// The text of the directive.
pub open spec fn directive_text() -> Seq<char> {
    "use server"@
}

/// A statement that is nothing but the directive's string literal.
pub open spec fn is_directive(s: StmtV) -> bool {
    s == StmtV::Expr(ExprV::Str(directive_text()))
}

pub open spec fn starts_with_directive(stmts: Seq<StmtV>) -> bool {
    stmts.len() > 0 && is_directive(stmts[0])
}

pub open spec fn without_directive(stmts: Seq<StmtV>) -> Seq<StmtV> {
    if starts_with_directive(stmts) {
        stmts.drop_first()
    } else {
        stmts
    }
}

pub open spec fn items_start_with_directive(items: Seq<ModuleItemV>) -> bool {
    items.len() > 0 && items[0] == ModuleItemV::Stmt(StmtV::Expr(ExprV::Str(directive_text())))
}

pub open spec fn items_without_directive(items: Seq<ModuleItemV>) -> Seq<ModuleItemV> {
    if items_start_with_directive(items) {
        items.drop_first()
    } else {
        items
    }
}

/// Whether a statement is the directive.
pub fn is_directive_stmt(s: &Stmt) -> (r: bool)
    ensures
        r == is_directive(s@),
{
    match s {
        Stmt::Expr(Expr::Str(value)) => {
            let expected = "use server".to_owned();
            *value == expected
        },
        _ => false,
    }
}

/// Removes the directive from the head of a function body and says whether it was there.
pub fn strip_directive(stmts: &mut Vec<Stmt>) -> (found: bool)
    ensures
        found == starts_with_directive(stmts_view(old(stmts)@)),
        stmts_view(final(stmts)@) == without_directive(stmts_view(old(stmts)@)),
{
    if stmts.len() > 0 && is_directive_stmt(&stmts[0]) {
        let ghost before = stmts@;
        stmts.remove(0);
        assert(stmts_view(stmts@) =~= stmts_view(before).drop_first());
        true
    } else {
        false
    }
}

/// Removes the directive from the head of a module and says whether it was there.
pub fn strip_file_directive(items: &mut Vec<ModuleItem>) -> (found: bool)
    ensures
        found == items_start_with_directive(items_view(old(items)@)),
        items_view(final(items)@) == items_without_directive(items_view(old(items)@)),
{
    let found = items.len() > 0 && match &items[0] {
        ModuleItem::Stmt(s) => is_directive_stmt(s),
        _ => false,
    };
    if found {
        let ghost before = items@;
        items.remove(0);
        assert(items_view(items@) =~= items_view(before).drop_first());
    }
    found
}

} // verus!
