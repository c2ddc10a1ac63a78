use server_actions::annotate::{annotate, make_action_name};
use server_actions::ast::{
    Expr, Function, Ident, ModuleItem, ObjectPatProp, Pat, Prop, PropName, Scope, Stmt, VarDecl,
    VarDeclarator, VarKind,
};
use server_actions::binders::{
    collect_idents_in_array_pat, collect_idents_in_object_pat, collect_idents_in_param,
    collect_idents_in_stmt, collect_idents_in_var_decls,
};
use server_actions::capture::{capture_list, contains_binding, position};
use server_actions::directive::{is_directive_stmt, strip_directive, strip_file_directive};
use server_actions::marker::{join_names, marker_comment};
use server_actions::rewrite::ClosureReplacer;
use server_actions::transform::{Config, Context, ServerActions};

fn id(sym: &str, scope: u32) -> Ident {
    Ident { sym: sym.to_string(), scope: Scope::Source(scope) }
}

fn pat(sym: &str) -> Pat {
    Pat::Ident(id(sym, 1))
}

fn name(sym: &str) -> Expr {
    Expr::Ident(id(sym, 1))
}

fn ids(names: &[&str]) -> Vec<Ident> {
    names.iter().map(|n| id(n, 1)).collect()
}

#[test]
fn array_pattern_binds_left_to_right_and_skips_holes() {
    // [a, , [b, ...c], { d }, ...e, f = 1, ...[g]]
    let elems = vec![
        Some(pat("a")),
        None,
        Some(Pat::Array(vec![Some(pat("b")), Some(Pat::Rest(Box::new(pat("c"))))])),
        Some(Pat::Object(vec![ObjectPatProp::Assign { key: id("d", 1), value: None }])),
        Some(Pat::Rest(Box::new(pat("e")))),
        Some(Pat::Assign { left: Box::new(pat("f")), right: Expr::Num(1) }),
        Some(Pat::Rest(Box::new(Pat::Array(vec![Some(pat("g"))])))),
    ];
    assert_eq!(collect_idents_in_array_pat(&elems), ids(&["a", "b", "c", "d", "e"]));
    assert_eq!(collect_idents_in_array_pat(&vec![]), vec![]);
}

#[test]
fn object_pattern_keys_bind_nothing() {
    // { k: v, "s": [w], x = 1, y, ...z, q: ...r, p: u = 2, ...{ t } }
    let props = vec![
        ObjectPatProp::KeyValue { key: PropName::Ident(id("k", 0)), value: pat("v") },
        ObjectPatProp::KeyValue {
            key: PropName::Str("s".to_string()),
            value: Pat::Array(vec![Some(pat("w"))]),
        },
        ObjectPatProp::Assign { key: id("x", 1), value: Some(Expr::Num(1)) },
        ObjectPatProp::Assign { key: id("y", 1), value: None },
        ObjectPatProp::Rest(pat("z")),
        ObjectPatProp::KeyValue {
            key: PropName::Ident(id("q", 0)),
            value: Pat::Rest(Box::new(pat("r"))),
        },
        ObjectPatProp::KeyValue {
            key: PropName::Ident(id("p", 0)),
            value: Pat::Assign { left: Box::new(pat("u")), right: Expr::Num(2) },
        },
        ObjectPatProp::Rest(Pat::Object(vec![ObjectPatProp::Assign {
            key: id("t", 1),
            value: None,
        }])),
    ];
    assert_eq!(collect_idents_in_object_pat(&props), ids(&["v", "w", "x", "y", "z"]));

    // { x: y, z: [w] }
    let props = vec![
        ObjectPatProp::KeyValue { key: PropName::Ident(id("x", 0)), value: pat("y") },
        ObjectPatProp::KeyValue {
            key: PropName::Ident(id("z", 0)),
            value: Pat::Array(vec![Some(pat("w"))]),
        },
    ];
    assert_eq!(collect_idents_in_object_pat(&props), ids(&["y", "w"]));
}

#[test]
fn declarators_bind_identifiers_arrays_and_objects_only() {
    let decls = vec![
        VarDeclarator { name: pat("a"), init: Some(name("ignored")) },
        VarDeclarator { name: Pat::Array(vec![Some(pat("b"))]), init: None },
        VarDeclarator {
            name: Pat::Object(vec![ObjectPatProp::Rest(pat("c"))]),
            init: None,
        },
        VarDeclarator { name: Pat::Rest(Box::new(pat("d"))), init: None },
        VarDeclarator {
            name: Pat::Assign { left: Box::new(pat("e")), right: Expr::Num(0) },
            init: None,
        },
        VarDeclarator { name: Pat::Opaque(3), init: None },
    ];
    assert_eq!(collect_idents_in_var_decls(&decls), ids(&["a", "b", "c"]));
}

#[test]
fn only_variable_declarations_declare() {
    let declaration = Stmt::Var(VarDecl {
        kind: VarKind::Let,
        decls: vec![VarDeclarator { name: pat("a"), init: None }],
    });
    assert_eq!(collect_idents_in_stmt(&declaration), ids(&["a"]));
    assert_eq!(collect_idents_in_stmt(&Stmt::Expr(name("a"))), vec![]);
    assert_eq!(collect_idents_in_stmt(&Stmt::Return(None)), vec![]);
    assert_eq!(collect_idents_in_stmt(&Stmt::Block(vec![declaration])), vec![]);
}

#[test]
fn parameter_binds_the_identifier_under_a_rest() {
    assert_eq!(collect_idents_in_param(&pat("a")), ids(&["a"]));
    assert_eq!(collect_idents_in_param(&Pat::Rest(Box::new(pat("a")))), ids(&["a"]));
    assert_eq!(
        collect_idents_in_param(&Pat::Rest(Box::new(Pat::Array(vec![Some(pat("a"))])))),
        vec![]
    );
    assert_eq!(
        collect_idents_in_param(&Pat::Assign { left: Box::new(pat("a")), right: Expr::Num(1) }),
        vec![]
    );
}

fn in_action() -> Context {
    Context {
        in_action_file: false,
        in_export_decl: false,
        in_module: false,
        in_action_fn: true,
        top_level: false,
    }
}

// f(a.b, { c, d: e, "s": g }, [h][i], j = k, op(l), function n(o) { return q; })
fn call_with_everything() -> Expr {
    Expr::Call {
        callee: Box::new(name("f")),
        args: vec![
            Expr::Member { obj: Box::new(name("a")), prop: id("b", 0) },
            Expr::Object(vec![
                Prop::Shorthand(id("c", 1)),
                Prop::KeyValue { key: PropName::Ident(id("d", 0)), value: name("e") },
                Prop::KeyValue { key: PropName::Str("s".to_string()), value: name("g") },
                Prop::Opaque(1),
            ]),
            Expr::Index { obj: Box::new(Expr::Array(vec![name("h")])), index: Box::new(name("i")) },
            Expr::Assign { left: Box::new(name("j")), right: Box::new(name("k")) },
            Expr::Other { shape: 7, parts: vec![name("l"), Expr::Opaque(2), Expr::Num(3)] },
            Expr::Str("m".to_string()),
            Expr::Function {
                shape: 8,
                ident: Some(id("n", 1)),
                function: Box::new(Function {
                    params: vec![pat("o")],
                    body: Some(vec![Stmt::Return(Some(name("q")))]),
                    is_async: false,
                    is_generator: false,
                }),
            },
        ],
    }
}

#[test]
fn identifiers_of_an_expression_in_source_order() {
    let mut pass = ServerActions::new("/p.js", Config { is_server: true });
    pass.visit_ident(in_action(), &id("first", 9));
    let visited = pass.visit_expr(in_action(), call_with_everything());
    assert_eq!(visited, call_with_everything());
    let expected = vec![
        id("first", 9),
        id("f", 1),
        id("a", 1),
        id("b", 0),
        id("c", 1),
        id("d", 0),
        id("e", 1),
        id("g", 1),
        id("h", 1),
        id("i", 1),
        id("j", 1),
        id("k", 1),
        id("l", 1),
        id("n", 1),
        id("o", 1),
        id("q", 1),
    ];
    assert_eq!(pass.action_idents, expected);
    // Inside an action nothing becomes a candidate, not even a parameter of a
    // function that is an expression.
    assert!(pass.closure_idents.is_empty());

    // Outside an action nothing is recorded, and that parameter is a candidate.
    let outside = Context { in_action_fn: false, ..in_action() };
    let mut pass = ServerActions::new("/p.js", Config { is_server: true });
    let _ = pass.visit_expr(outside, call_with_everything());
    assert!(pass.action_idents.is_empty());
    assert_eq!(pass.closure_idents, ids(&["o"]));
}

#[test]
fn identifiers_of_patterns_include_defaults_and_keys() {
    // { k: [a = x], b = y, ...c }
    let pattern = || {
        Pat::Object(vec![
            ObjectPatProp::KeyValue {
                key: PropName::Ident(id("k", 0)),
                value: Pat::Array(vec![
                    Some(Pat::Assign { left: Box::new(pat("a")), right: name("x") }),
                    None,
                ]),
            },
            ObjectPatProp::Assign { key: id("b", 1), value: Some(name("y")) },
            ObjectPatProp::Rest(pat("c")),
        ])
    };
    let mut pass = ServerActions::new("/p.js", Config { is_server: true });
    assert_eq!(pass.visit_pat(in_action(), pattern()), pattern());
    let mut expected = vec![id("k", 0)];
    expected.extend(ids(&["a", "x", "b", "y", "c"]));
    assert_eq!(pass.action_idents, expected);

    let declaration = || {
        Stmt::Var(VarDecl {
            kind: VarKind::Let,
            decls: vec![
                VarDeclarator { name: pat("n"), init: Some(name("v")) },
                VarDeclarator { name: Pat::Rest(Box::new(pat("m"))), init: None },
            ],
        })
    };
    let mut pass = ServerActions::new("/p.js", Config { is_server: true });
    let (stmt, annotations) = pass.visit_stmt(in_action(), declaration());
    assert_eq!(stmt, declaration());
    assert!(annotations.is_empty());
    assert_eq!(pass.action_idents, ids(&["n", "v", "m"]));
}

#[test]
fn capture_list_keeps_candidates_once_in_order_of_first_occurrence() {
    let refs = ids(&["x", "b", "a", "b", "y", "a", "c"]);
    let candidates = ids(&["a", "b", "c", "d"]);
    assert_eq!(capture_list(&refs, &candidates), ids(&["b", "a", "c"]));
    assert_eq!(capture_list(&refs, &vec![]), vec![]);
    assert_eq!(capture_list(&vec![], &candidates), vec![]);
}

#[test]
fn bindings_are_told_apart_by_scope() {
    let refs = vec![id("a", 2), id("a", 1)];
    let candidates = vec![id("a", 1)];
    assert_eq!(capture_list(&refs, &candidates), vec![id("a", 1)]);
    assert!(contains_binding(&candidates, &id("a", 1)));
    assert!(!contains_binding(&candidates, &id("a", 2)));
    assert!(!contains_binding(
        &candidates,
        &Ident { sym: "a".to_string(), scope: Scope::Action(1) }
    ));
    assert!(id("a", 1).same_binding(&id("a", 1)));
    assert!(!id("a", 1).same_binding(&id("b", 1)));
}

#[test]
fn position_is_the_first_place() {
    let list = vec![id("a", 1), id("b", 1), id("a", 1)];
    assert_eq!(position(&list, &id("a", 1)), Some(0));
    assert_eq!(position(&list, &id("b", 1)), Some(1));
    assert_eq!(position(&list, &id("c", 1)), None);
}

#[test]
fn replacer_rewrites_reads_and_shorthands_only() {
    let arg = Ident { sym: "closure".to_string(), scope: Scope::Closure(0) };
    let used = ids(&["a", "b"]);
    let replacer = ClosureReplacer { closure_arg: &arg, used_ids: &used };
    let read = |k: u64| Expr::Index {
        obj: Box::new(Expr::Ident(arg.clone())),
        index: Box::new(Expr::Num(k)),
    };
    assert_eq!(replacer.index(&id("b", 1)), Some(1));
    assert_eq!(replacer.index(&id("b", 2)), None);
    assert_eq!(replacer.visit_expr(name("b")), read(1));
    assert_eq!(replacer.visit_expr(name("c")), name("c"));
    assert_eq!(replacer.visit_expr(Expr::Ident(id("a", 2))), Expr::Ident(id("a", 2)));
    assert_eq!(
        replacer.visit_prop(Prop::Shorthand(id("a", 1))),
        Prop::KeyValue { key: PropName::Ident(id("a", 1)), value: read(0) }
    );
    assert_eq!(replacer.visit_prop(Prop::Shorthand(id("c", 1))), Prop::Shorthand(id("c", 1)));
    // A pattern keeps what it binds; its default value is an expression like any other.
    assert_eq!(
        replacer.visit_pat(Pat::Assign { left: Box::new(pat("a")), right: name("b") }),
        Pat::Assign { left: Box::new(pat("a")), right: read(1) }
    );
    assert_eq!(
        replacer.visit_stmt(Stmt::Var(VarDecl {
            kind: VarKind::Const,
            decls: vec![VarDeclarator {
                name: Pat::Object(vec![ObjectPatProp::Assign {
                    key: id("a", 1),
                    value: Some(name("a")),
                }]),
                init: Some(Expr::Member { obj: Box::new(name("a")), prop: id("b", 1) }),
            }],
        })),
        Stmt::Var(VarDecl {
            kind: VarKind::Const,
            decls: vec![VarDeclarator {
                name: Pat::Object(vec![ObjectPatProp::Assign {
                    key: id("a", 1),
                    value: Some(read(0)),
                }]),
                init: Some(Expr::Member { obj: Box::new(read(0)), prop: id("b", 1) }),
            }],
        })
    );
    assert_eq!(replacer.visit_body(None), None);
    // A function inside the body is rewritten too: default values and body.
    let inner = |default: Expr, result: Expr| Function {
        params: vec![Pat::Assign { left: Box::new(pat("p")), right: default }],
        body: Some(vec![Stmt::Return(Some(result))]),
        is_async: false,
        is_generator: false,
    };
    assert_eq!(
        replacer.visit_expr(Expr::Function {
            shape: 3,
            ident: Some(id("a", 1)),
            function: Box::new(inner(name("a"), name("b"))),
        }),
        Expr::Function {
            shape: 3,
            ident: Some(id("a", 1)),
            function: Box::new(inner(read(0), read(1))),
        }
    );
}

#[test]
fn marker_text_is_exact() {
    let names = vec!["a".to_string(), "$ACTION_b".to_string(), "c".to_string()];
    assert_eq!(join_names(&names), "a,$ACTION_b,c");
    assert_eq!(join_names(&vec![]), "");
    assert_eq!(join_names(&vec!["one".to_string()]), "one");
    assert_eq!(
        marker_comment(&names),
        " __next_internal_action_entry_do_not_use__ a,$ACTION_b,c "
    );
    assert_eq!(marker_comment(&vec![]), " __next_internal_action_entry_do_not_use__  ");
}

#[test]
fn stable_names() {
    assert_eq!(make_action_name(true, "save"), "save");
    assert_eq!(make_action_name(false, "save"), "$ACTION_save");
    assert_eq!(make_action_name(false, ""), "$ACTION_");
}

#[test]
fn annotation_is_an_assignment_to_a_property() {
    let target = id("act", 1);
    assert_eq!(
        annotate(&target, "$$name", Box::new(Expr::Str("x".to_string()))),
        Stmt::Expr(Expr::Assign {
            left: Box::new(Expr::Member {
                obj: Box::new(Expr::Ident(id("act", 1))),
                prop: id("$$name", 0),
            }),
            right: Box::new(Expr::Str("x".to_string())),
        })
    );
}

#[test]
fn directive_is_recognized_verbatim() {
    let directive = || Stmt::Expr(Expr::Str("use server".to_string()));
    assert!(is_directive_stmt(&directive()));
    assert!(!is_directive_stmt(&Stmt::Expr(Expr::Str("use client".to_string()))));
    assert!(!is_directive_stmt(&Stmt::Expr(Expr::Str("use server ".to_string()))));
    assert!(!is_directive_stmt(&Stmt::Expr(name("use server"))));
    assert!(!is_directive_stmt(&Stmt::Return(Some(Expr::Str("use server".to_string())))));

    let mut body = vec![directive(), directive(), Stmt::Return(None)];
    assert!(strip_directive(&mut body));
    assert_eq!(body, vec![directive(), Stmt::Return(None)]);

    let mut body = vec![Stmt::Return(None), directive()];
    assert!(!strip_directive(&mut body));
    assert_eq!(body, vec![Stmt::Return(None), directive()]);

    let mut body: Vec<Stmt> = vec![];
    assert!(!strip_directive(&mut body));

    let mut items = vec![ModuleItem::Stmt(directive()), ModuleItem::Opaque(1)];
    assert!(strip_file_directive(&mut items));
    assert_eq!(items, vec![ModuleItem::Opaque(1)]);
    let mut items = vec![ModuleItem::Opaque(1), ModuleItem::Stmt(directive())];
    assert!(!strip_file_directive(&mut items));
    assert_eq!(items.len(), 2);
}

#[test]
fn identifiers_are_recorded_only_inside_actions() {
    let outside = Context {
        in_action_file: false,
        in_export_decl: false,
        in_module: false,
        in_action_fn: false,
        top_level: false,
    };
    let inside = Context { in_action_fn: true, ..outside };
    let mut pass = ServerActions::new("/p.js", Config { is_server: true });
    pass.visit_ident(outside, &id("a", 1));
    assert!(pass.action_idents.is_empty());
    pass.visit_ident(inside, &id("a", 1));
    assert_eq!(pass.action_idents, ids(&["a"]));

    // A parameter outside an action becomes a candidate; inside one it is recorded.
    assert_eq!(pass.visit_param(outside, pat("p")), pat("p"));
    assert_eq!(pass.closure_idents, ids(&["p"]));
    assert_eq!(pass.action_idents, ids(&["a"]));
    let _ = pass.visit_param(inside, pat("q"));
    assert_eq!(pass.closure_idents, ids(&["p"]));
    assert_eq!(pass.action_idents, ids(&["a", "q"]));

    // In an action file nothing becomes a candidate.
    let in_file = Context { in_action_file: true, ..outside };
    let _ = pass.visit_param(in_file, pat("r"));
    assert_eq!(pass.closure_idents, ids(&["p"]));

    // Nor does a parameter met outside every function body.
    let at_module_level = Context { in_module: true, ..outside };
    let _ = pass.visit_param(at_module_level, pat("s"));
    assert_eq!(pass.closure_idents, ids(&["p"]));
    assert_eq!(pass.action_idents, ids(&["a", "q"]));
}

#[test]
fn declarations_at_module_level_are_no_candidates() {
    let declaration = || {
        Stmt::Var(VarDecl {
            kind: VarKind::Const,
            decls: vec![VarDeclarator { name: pat("a"), init: None }],
        })
    };
    let in_module = Context {
        in_action_file: false,
        in_export_decl: false,
        in_module: true,
        in_action_fn: false,
        top_level: true,
    };
    let mut pass = ServerActions::new("/p.js", Config { is_server: true });
    let (stmt, annotations) = pass.visit_stmt(in_module, declaration());
    assert_eq!(stmt, declaration());
    assert!(annotations.is_empty());
    assert!(pass.closure_idents.is_empty());

    let in_function = Context { in_module: false, top_level: false, ..in_module };
    let _ = pass.visit_stmt(in_function, declaration());
    assert_eq!(pass.closure_idents, ids(&["a"]));
    assert!(!pass.has_action);
}
