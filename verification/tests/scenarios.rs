use server_actions::ast::{
    Expr, FnDecl, Function, Ident, Module, ModuleItem, Pat, Prop, PropName, Scope, Stmt, VarDecl,
    VarDeclarator, VarKind,
};
use server_actions::transform::{diagnostic_message, server_actions, Config, Transformed};

const PATH: &str = "/app/item.js";

fn id(sym: &str, scope: u32) -> Ident {
    Ident { sym: sym.to_string(), scope: Scope::Source(scope) }
}

fn plain(sym: &str) -> Ident {
    id(sym, 0)
}

fn name(sym: &str, scope: u32) -> Expr {
    Expr::Ident(id(sym, scope))
}

fn string(s: &str) -> Expr {
    Expr::Str(s.to_string())
}

fn call(callee: Expr, args: Vec<Expr>) -> Expr {
    Expr::Call { callee: Box::new(callee), args }
}

fn member(obj: Expr, prop: &str) -> Expr {
    Expr::Member { obj: Box::new(obj), prop: plain(prop) }
}

fn assign(left: Expr, right: Expr) -> Stmt {
    Stmt::Expr(Expr::Assign { left: Box::new(left), right: Box::new(right) })
}

fn directive() -> Stmt {
    Stmt::Expr(string("use server"))
}

fn constant(binding: Ident, init: Expr) -> Stmt {
    Stmt::Var(VarDecl {
        kind: VarKind::Const,
        decls: vec![VarDeclarator { name: Pat::Ident(binding), init: Some(init) }],
    })
}

fn function(ident: Ident, params: Vec<Pat>, body: Vec<Stmt>, is_async: bool) -> FnDecl {
    FnDecl { ident, function: Function { params, body: Some(body), is_async, is_generator: false } }
}

fn base_annotations(target: &Ident, stable: &str) -> Vec<Stmt> {
    let on = |field: &str| member(Expr::Ident(target.clone()), field);
    vec![
        assign(
            on("$$typeof"),
            call(
                member(Expr::Ident(plain("Symbol")), "for"),
                vec![string("react.server.reference")],
            ),
        ),
        assign(on("$$filepath"), string(PATH)),
        assign(on("$$name"), string(stable)),
    ]
}

fn closure_annotation(target: &Ident, captured: Vec<Ident>) -> Stmt {
    assign(
        member(Expr::Ident(target.clone()), "$$closure"),
        Expr::Array(captured.into_iter().map(Expr::Ident).collect()),
    )
}

fn closure_read(action: usize, place: u64) -> Expr {
    Expr::Index {
        obj: Box::new(Expr::Ident(Ident {
            sym: "closure".to_string(),
            scope: Scope::Closure(action),
        })),
        index: Box::new(Expr::Num(place)),
    }
}

fn hoisted_name(sym: &str, action: usize) -> Ident {
    Ident { sym: sym.to_string(), scope: Scope::Action(action) }
}

fn forwarding(hoisted: Ident, binding: &Ident) -> Vec<Stmt> {
    vec![Stmt::Return(Some(call(
        Expr::Ident(hoisted),
        vec![member(Expr::Ident(binding.clone()), "$$closure")],
    )))]
}

fn hoisted(sym: &str, action: usize, body: Vec<Stmt>, is_async: bool) -> ModuleItem {
    ModuleItem::ExportFn(function(
        hoisted_name(sym, action),
        vec![Pat::Ident(Ident { sym: "closure".to_string(), scope: Scope::Closure(action) })],
        body,
        is_async,
    ))
}

fn export_alias(alias: Ident, binding: &Ident) -> ModuleItem {
    ModuleItem::ExportVar(VarDecl {
        kind: VarKind::Const,
        decls: vec![VarDeclarator {
            name: Pat::Ident(alias),
            init: Some(Expr::Ident(binding.clone())),
        }],
    })
}

fn run(body: Vec<ModuleItem>) -> Transformed {
    server_actions(PATH, Config { is_server: true }, Module { start: 0, body })
}

fn as_items(stmts: Vec<Stmt>) -> Vec<ModuleItem> {
    stmts.into_iter().map(ModuleItem::Stmt).collect()
}

fn create_fn() -> FnDecl {
    function(
        id("create", 1),
        vec![Pat::Ident(id("data", 2))],
        vec![Stmt::Return(Some(call(name("save", 1), vec![name("data", 2)])))],
        true,
    )
}

fn remove_fn() -> FnDecl {
    function(
        id("remove", 1),
        vec![Pat::Ident(id("key", 3))],
        vec![Stmt::Return(Some(call(name("drop", 1), vec![name("key", 3)])))],
        true,
    )
}

#[test]
fn exported_action_in_action_file() {
    let module = Module {
        start: 7,
        body: vec![ModuleItem::Stmt(directive()), ModuleItem::ExportFn(create_fn())],
    };
    let out = server_actions(PATH, Config { is_server: true }, module);

    let mut expected = vec![ModuleItem::ExportFn(create_fn())];
    expected.extend(as_items(base_annotations(&id("create", 1), "create")));
    assert_eq!(out.module.body, expected);
    assert_eq!(out.module.start, 7);
    let comment = out.comment.expect("an action file has a marker comment");
    assert_eq!(comment.pos, 7);
    assert_eq!(comment.text, " __next_internal_action_entry_do_not_use__ create ");
    assert!(out.diagnostics.is_empty());
}

#[test]
fn action_file_lists_every_exported_function() {
    let out = run(vec![
        ModuleItem::Stmt(directive()),
        ModuleItem::ExportFn(create_fn()),
        ModuleItem::ExportFn(remove_fn()),
    ]);

    let mut expected = vec![ModuleItem::ExportFn(create_fn())];
    expected.extend(as_items(base_annotations(&id("create", 1), "create")));
    expected.push(ModuleItem::ExportFn(remove_fn()));
    expected.extend(as_items(base_annotations(&id("remove", 1), "remove")));
    assert_eq!(out.module.body, expected);
    assert_eq!(
        out.comment.map(|c| c.text),
        Some(" __next_internal_action_entry_do_not_use__ create,remove ".to_string())
    );
}

#[test]
fn action_file_without_functions_has_empty_marker() {
    let out = run(vec![
        ModuleItem::Stmt(directive()),
        ModuleItem::Stmt(constant(id("x", 1), Expr::Num(1))),
    ]);
    assert_eq!(out.module.body, vec![ModuleItem::Stmt(constant(id("x", 1), Expr::Num(1)))]);
    assert_eq!(
        out.comment.map(|c| c.text),
        Some(" __next_internal_action_entry_do_not_use__  ".to_string())
    );
}

#[test]
fn file_without_directive_is_left_alone() {
    let out = run(vec![ModuleItem::ExportFn(create_fn()), ModuleItem::Opaque(4)]);
    assert_eq!(out.module.body, vec![ModuleItem::ExportFn(create_fn()), ModuleItem::Opaque(4)]);
    assert_eq!(out.comment, None);
    assert!(out.diagnostics.is_empty());
}

#[test]
fn unexported_function_in_action_file_gets_an_alias() {
    let out = run(vec![ModuleItem::Stmt(directive()), ModuleItem::Stmt(Stmt::Fn(create_fn()))]);

    let mut expected = vec![ModuleItem::Stmt(Stmt::Fn(create_fn()))];
    expected.extend(as_items(base_annotations(&id("create", 1), "$ACTION_create")));
    expected.push(export_alias(hoisted_name("$ACTION_create", 0), &id("create", 1)));
    assert_eq!(out.module.body, expected);
    assert_eq!(
        out.comment.map(|c| c.text),
        Some(" __next_internal_action_entry_do_not_use__ $ACTION_create ".to_string())
    );
}

#[test]
fn top_level_function_with_own_directive() {
    let mut marked = create_fn();
    marked.function.body.as_mut().unwrap().insert(0, directive());
    let out = run(vec![ModuleItem::ExportFn(marked)]);

    let mut expected = vec![ModuleItem::ExportFn(create_fn())];
    expected.extend(as_items(base_annotations(&id("create", 1), "$ACTION_create")));
    expected.push(export_alias(hoisted_name("$ACTION_create", 0), &id("create", 1)));
    assert_eq!(out.module.body, expected);
    assert_eq!(
        out.comment.map(|c| c.text),
        Some(" __next_internal_action_entry_do_not_use__ $ACTION_create ".to_string())
    );
}

/// `function page(props) { const a = ..; const b = ..; async function act(data) { .. } }`
fn page_with_action(action_body: Vec<Stmt>, is_async: bool) -> FnDecl {
    let mut body = vec![directive()];
    body.extend(action_body);
    function(
        id("page", 1),
        vec![Pat::Ident(id("props", 2))],
        vec![
            constant(id("a", 2), Expr::Num(1)),
            constant(id("b", 2), Expr::Num(2)),
            Stmt::Fn(function(id("act", 2), vec![Pat::Ident(id("data", 3))], body, is_async)),
        ],
        false,
    )
}

fn page_after(annotated: Vec<Stmt>, is_async: bool) -> FnDecl {
    let act = id("act", 2);
    let mut body = vec![
        constant(id("a", 2), Expr::Num(1)),
        constant(id("b", 2), Expr::Num(2)),
        Stmt::Fn(function(
            act.clone(),
            vec![Pat::Ident(id("data", 3))],
            forwarding(hoisted_name("$ACTION_act", 0), &act),
            is_async,
        )),
    ];
    body.extend(annotated);
    function(id("page", 1), vec![Pat::Ident(id("props", 2))], body, false)
}

#[test]
fn nested_action_is_hoisted() {
    let out = run(vec![ModuleItem::Stmt(Stmt::Fn(page_with_action(
        vec![Stmt::Return(Some(call(
            name("save", 1),
            vec![name("a", 2), name("data", 3), name("props", 2), name("a", 2)],
        )))],
        true,
    )))]);

    let act = id("act", 2);
    let mut annotated = base_annotations(&act, "$ACTION_act");
    annotated.push(closure_annotation(&act, vec![id("a", 2), id("props", 2)]));
    let expected = vec![
        ModuleItem::Stmt(Stmt::Fn(page_after(annotated, true))),
        hoisted(
            "$ACTION_act",
            0,
            vec![Stmt::Return(Some(call(
                name("save", 1),
                vec![closure_read(0, 0), name("data", 3), closure_read(0, 1), closure_read(0, 0)],
            )))],
            true,
        ),
    ];
    assert_eq!(out.module.body, expected);
    assert_eq!(
        out.comment.map(|c| c.text),
        Some(" __next_internal_action_entry_do_not_use__ $ACTION_act ".to_string())
    );
    assert!(out.diagnostics.is_empty());
}

#[test]
fn capture_order_is_order_of_first_occurrence() {
    let out = run(vec![ModuleItem::Stmt(Stmt::Fn(page_with_action(
        vec![Stmt::Return(Some(call(name("save", 1), vec![name("b", 2), name("a", 2)])))],
        true,
    )))]);

    let act = id("act", 2);
    let mut annotated = base_annotations(&act, "$ACTION_act");
    annotated.push(closure_annotation(&act, vec![id("b", 2), id("a", 2)]));
    let expected = vec![
        ModuleItem::Stmt(Stmt::Fn(page_after(annotated, true))),
        hoisted(
            "$ACTION_act",
            0,
            vec![Stmt::Return(Some(call(
                name("save", 1),
                vec![closure_read(0, 0), closure_read(0, 1)],
            )))],
            true,
        ),
    ];
    assert_eq!(out.module.body, expected);
}

#[test]
fn own_binding_with_the_spelling_of_an_outer_one_is_not_captured() {
    // The action declares its own `a` and takes a parameter spelled like the outer
    // `props`; both live in the action's scope.
    let action = function(
        id("act", 2),
        vec![Pat::Ident(id("props", 3))],
        vec![
            directive(),
            constant(id("a", 3), Expr::Num(5)),
            Stmt::Return(Some(call(name("save", 1), vec![name("a", 3), name("props", 3)]))),
        ],
        true,
    );
    let page = function(
        id("page", 1),
        vec![Pat::Ident(id("props", 2))],
        vec![constant(id("a", 2), Expr::Num(1)), Stmt::Fn(action)],
        false,
    );
    let out = run(vec![ModuleItem::Stmt(Stmt::Fn(page))]);

    let act = id("act", 2);
    let mut annotated = base_annotations(&act, "$ACTION_act");
    annotated.push(closure_annotation(&act, vec![]));
    let mut body = vec![
        constant(id("a", 2), Expr::Num(1)),
        Stmt::Fn(function(
            act.clone(),
            vec![Pat::Ident(id("props", 3))],
            forwarding(hoisted_name("$ACTION_act", 0), &act),
            true,
        )),
    ];
    body.extend(annotated);
    let expected = vec![
        ModuleItem::Stmt(Stmt::Fn(function(
            id("page", 1),
            vec![Pat::Ident(id("props", 2))],
            body,
            false,
        ))),
        hoisted(
            "$ACTION_act",
            0,
            vec![
                constant(id("a", 3), Expr::Num(5)),
                Stmt::Return(Some(call(name("save", 1), vec![name("a", 3), name("props", 3)]))),
            ],
            true,
        ),
    ];
    assert_eq!(out.module.body, expected);
}

#[test]
fn binding_declared_after_the_action_is_not_captured() {
    let action = function(
        id("act", 2),
        vec![],
        vec![directive(), Stmt::Return(Some(name("late", 2)))],
        true,
    );
    let page = function(
        id("page", 1),
        vec![],
        vec![Stmt::Fn(action), constant(id("late", 2), Expr::Num(1))],
        false,
    );
    let out = run(vec![ModuleItem::Stmt(Stmt::Fn(page))]);
    let act = id("act", 2);
    match &out.module.body[0] {
        ModuleItem::Stmt(Stmt::Fn(page)) => {
            let body = page.function.body.as_ref().unwrap();
            assert_eq!(body[4], closure_annotation(&act, vec![]));
            assert_eq!(body[5], constant(id("late", 2), Expr::Num(1)));
        }
        other => panic!("unexpected item {:?}", other),
    }
    assert_eq!(
        out.module.body[1],
        hoisted("$ACTION_act", 0, vec![Stmt::Return(Some(name("late", 2)))], true)
    );
}

#[test]
fn action_that_is_not_async_is_reported_and_still_hoisted() {
    let body = || vec![Stmt::Return(Some(call(name("save", 1), vec![name("a", 2)])))];
    let out = run(vec![
        ModuleItem::Stmt(Stmt::Fn(page_with_action(body(), false))),
        ModuleItem::Stmt(Stmt::Fn({
            let mut f = create_fn();
            f.function.body.as_mut().unwrap().insert(0, directive());
            f
        })),
    ]);

    let act = id("act", 2);
    let mut annotated = base_annotations(&act, "$ACTION_act");
    annotated.push(closure_annotation(&act, vec![id("a", 2)]));
    let mut expected = vec![
        ModuleItem::Stmt(Stmt::Fn(page_after(annotated, false))),
        hoisted(
            "$ACTION_act",
            0,
            vec![Stmt::Return(Some(call(name("save", 1), vec![closure_read(0, 0)])))],
            false,
        ),
        ModuleItem::Stmt(Stmt::Fn(create_fn())),
    ];
    expected.extend(as_items(base_annotations(&id("create", 1), "$ACTION_create")));
    expected.push(export_alias(hoisted_name("$ACTION_create", 1), &id("create", 1)));
    assert_eq!(out.module.body, expected);
    assert_eq!(out.diagnostics, vec![id("act", 2)]);
    assert_eq!(
        out.comment.map(|c| c.text),
        Some(" __next_internal_action_entry_do_not_use__ $ACTION_act,$ACTION_create ".to_string())
    );
    assert_eq!(diagnostic_message(), "Server actions must be async");
}

#[test]
fn top_level_action_that_is_not_async_is_reported_once() {
    let mut f = create_fn();
    f.function.is_async = false;
    let out = run(vec![ModuleItem::Stmt(directive()), ModuleItem::ExportFn(f)]);
    assert_eq!(out.diagnostics, vec![id("create", 1)]);
    assert_eq!(out.module.body.len(), 4);
    assert_eq!(
        out.comment.map(|c| c.text),
        Some(" __next_internal_action_entry_do_not_use__ create ".to_string())
    );
}

#[test]
fn second_application_changes_nothing() {
    let input = || {
        vec![ModuleItem::Stmt(Stmt::Fn(page_with_action(
            vec![Stmt::Return(Some(call(name("save", 1), vec![name("b", 2), name("a", 2)])))],
            true,
        )))]
    };
    let once = run(input());
    let twice = run(run(input()).module.body);
    assert_eq!(twice.module, once.module);
    assert_eq!(twice.comment, None);
    assert!(twice.diagnostics.is_empty());
}

#[test]
fn second_application_to_an_action_file_changes_nothing() {
    let input = || vec![ModuleItem::Stmt(directive()), ModuleItem::ExportFn(create_fn())];
    let once = run(input());
    let twice = run(run(input()).module.body);
    assert_eq!(twice.module, once.module);
    assert_eq!(twice.comment, None);
}

#[test]
fn a_second_directive_survives_the_first_application() {
    let mut f = create_fn();
    let body = f.function.body.as_mut().unwrap();
    body.insert(0, directive());
    body.insert(0, directive());
    let once = run(vec![ModuleItem::ExportFn(f)]);
    match &once.module.body[0] {
        ModuleItem::ExportFn(f) => assert_eq!(f.function.body.as_ref().unwrap()[0], directive()),
        other => panic!("unexpected item {:?}", other),
    }
}

#[test]
fn shorthand_property_of_a_captured_binding_keeps_its_name() {
    let out = run(vec![ModuleItem::Stmt(Stmt::Fn(page_with_action(
        vec![Stmt::Return(Some(Expr::Object(vec![
            Prop::Shorthand(id("b", 2)),
            Prop::Shorthand(id("data", 3)),
            Prop::KeyValue { key: PropName::Ident(plain("a")), value: name("a", 2) },
        ])))],
        true,
    )))]);
    assert_eq!(
        out.module.body[1],
        hoisted(
            "$ACTION_act",
            0,
            vec![Stmt::Return(Some(Expr::Object(vec![
                Prop::KeyValue { key: PropName::Ident(id("b", 2)), value: closure_read(0, 0) },
                Prop::Shorthand(id("data", 3)),
                Prop::KeyValue { key: PropName::Ident(plain("a")), value: closure_read(0, 1) },
            ])))],
            true,
        )
    );
}

#[test]
fn property_name_after_a_dot_is_not_rewritten() {
    // `a.b` reads the captured `a`; the `b` behind the dot is a name, not a binding.
    let out = run(vec![ModuleItem::Stmt(Stmt::Fn(page_with_action(
        vec![Stmt::Return(Some(member(name("a", 2), "b")))],
        true,
    )))]);
    assert_eq!(
        out.module.body[1],
        hoisted(
            "$ACTION_act",
            0,
            vec![Stmt::Return(Some(member(closure_read(0, 0), "b")))],
            true,
        )
    );
}

#[test]
fn actions_in_one_function_keep_their_own_captures() {
    let action = |sym: &str, read: &str| {
        Stmt::Fn(function(
            id(sym, 2),
            vec![],
            vec![directive(), Stmt::Return(Some(name(read, 2)))],
            true,
        ))
    };
    let page = function(
        id("page", 1),
        vec![],
        vec![
            constant(id("a", 2), Expr::Num(1)),
            constant(id("b", 2), Expr::Num(2)),
            action("first", "a"),
            action("second", "b"),
        ],
        false,
    );
    let out = run(vec![ModuleItem::Stmt(Stmt::Fn(page))]);
    match &out.module.body[0] {
        ModuleItem::Stmt(Stmt::Fn(page)) => {
            let body = page.function.body.as_ref().unwrap();
            assert_eq!(body.len(), 12);
            assert_eq!(body[6], closure_annotation(&id("first", 2), vec![id("a", 2)]));
            assert_eq!(body[11], closure_annotation(&id("second", 2), vec![id("b", 2)]));
        }
        other => panic!("unexpected item {:?}", other),
    }
    assert_eq!(
        out.module.body[1],
        hoisted("$ACTION_first", 0, vec![Stmt::Return(Some(closure_read(0, 0)))], true)
    );
    assert_eq!(
        out.module.body[2],
        hoisted("$ACTION_second", 1, vec![Stmt::Return(Some(closure_read(1, 0)))], true)
    );
    assert_eq!(
        out.comment.map(|c| c.text),
        Some(" __next_internal_action_entry_do_not_use__ $ACTION_first,$ACTION_second ".to_string())
    );
}

#[test]
fn action_inside_a_block_is_hoisted_behind_its_top_level_item() {
    let action = function(
        id("act", 2),
        vec![],
        vec![directive(), Stmt::Return(Some(Expr::Num(1)))],
        true,
    );
    let out = run(vec![
        ModuleItem::Stmt(Stmt::Block(vec![Stmt::Fn(action)])),
        ModuleItem::Opaque(9),
    ]);
    let act = id("act", 2);
    let mut block = vec![Stmt::Fn(function(
        act.clone(),
        vec![],
        forwarding(hoisted_name("$ACTION_act", 0), &act),
        true,
    ))];
    block.extend(base_annotations(&act, "$ACTION_act"));
    block.push(closure_annotation(&act, vec![]));
    assert_eq!(
        out.module.body,
        vec![
            ModuleItem::Stmt(Stmt::Block(block)),
            hoisted("$ACTION_act", 0, vec![Stmt::Return(Some(Expr::Num(1)))], true),
            ModuleItem::Opaque(9),
        ]
    );
}

#[test]
fn identifiers_under_other_forms_are_captured() {
    // `if (a) { return b + data; }` with the host's shapes 1 and 2.
    let out = run(vec![ModuleItem::Stmt(Stmt::Fn(page_with_action(
        vec![Stmt::Other {
            shape: 1,
            exprs: vec![name("a", 2)],
            body: vec![Stmt::Return(Some(Expr::Other {
                shape: 2,
                parts: vec![name("b", 2), name("data", 3)],
            }))],
        }],
        true,
    )))]);
    assert_eq!(
        out.module.body[1],
        hoisted(
            "$ACTION_act",
            0,
            vec![Stmt::Other {
                shape: 1,
                exprs: vec![closure_read(0, 0)],
                body: vec![Stmt::Return(Some(Expr::Other {
                    shape: 2,
                    parts: vec![closure_read(0, 1), name("data", 3)],
                }))],
            }],
            true,
        )
    );
}

#[test]
fn function_without_body_in_action_file() {
    let declared = || FnDecl {
        ident: id("later", 1),
        function: Function { params: vec![], body: None, is_async: true, is_generator: false },
    };
    let out = run(vec![ModuleItem::Stmt(directive()), ModuleItem::ExportFn(declared())]);
    let mut expected = vec![ModuleItem::ExportFn(declared())];
    expected.extend(as_items(base_annotations(&id("later", 1), "later")));
    assert_eq!(out.module.body, expected);
}

#[test]
fn parameter_with_default_value_is_no_candidate() {
    // `function page(a = 1, ...rest) { async function act() { "use server"; return [a, rest]; } }`
    let action = function(
        id("act", 2),
        vec![],
        vec![
            directive(),
            Stmt::Return(Some(Expr::Array(vec![name("a", 2), name("rest", 2)]))),
        ],
        true,
    );
    let page = function(
        id("page", 1),
        vec![
            Pat::Assign { left: Box::new(Pat::Ident(id("a", 2))), right: Expr::Num(1) },
            Pat::Rest(Box::new(Pat::Ident(id("rest", 2)))),
        ],
        vec![Stmt::Fn(action)],
        false,
    );
    let out = run(vec![ModuleItem::Stmt(Stmt::Fn(page))]);
    assert_eq!(
        out.module.body[1],
        hoisted(
            "$ACTION_act",
            0,
            vec![Stmt::Return(Some(Expr::Array(vec![name("a", 2), closure_read(0, 0)])))],
            true,
        )
    );
}

fn arrow(shape: u32, params: Vec<Pat>, body: Vec<Stmt>) -> Expr {
    Expr::Function {
        shape,
        ident: None,
        function: Box::new(Function {
            params,
            body: Some(body),
            is_async: false,
            is_generator: false,
        }),
    }
}

#[test]
fn identifiers_inside_an_arrow_function_are_captured() {
    // return items.map((x) => { return [x, a, props]; });
    let body = |a: Expr, props: Expr| {
        vec![Stmt::Return(Some(call(
            member(name("items", 1), "map"),
            vec![arrow(
                5,
                vec![Pat::Ident(id("x", 4))],
                vec![Stmt::Return(Some(Expr::Array(vec![name("x", 4), a, props])))],
            )],
        )))]
    };
    let out = run(vec![ModuleItem::Stmt(Stmt::Fn(page_with_action(
        body(name("a", 2), name("props", 2)),
        true,
    )))]);

    let act = id("act", 2);
    let mut annotated = base_annotations(&act, "$ACTION_act");
    annotated.push(closure_annotation(&act, vec![id("a", 2), id("props", 2)]));
    assert_eq!(
        out.module.body,
        vec![
            ModuleItem::Stmt(Stmt::Fn(page_after(annotated, true))),
            hoisted("$ACTION_act", 0, body(closure_read(0, 0), closure_read(0, 1)), true),
        ]
    );
}

#[test]
fn action_declared_inside_a_function_expression_is_found() {
    // const make = function (p) {
    //     const v = 1;
    //     async function act() { "use server"; return [v, p]; }
    // };
    let action = |body: Vec<Stmt>| Stmt::Fn(function(id("act", 3), vec![], body, true));
    let holder = |inside: Vec<Stmt>| {
        ModuleItem::Stmt(constant(
            id("make", 1),
            Expr::Function {
                shape: 6,
                ident: None,
                function: Box::new(Function {
                    params: vec![Pat::Ident(id("p", 3))],
                    body: Some(inside),
                    is_async: false,
                    is_generator: false,
                }),
            },
        ))
    };
    let out = run(vec![holder(vec![
        constant(id("v", 3), Expr::Num(1)),
        action(vec![
            directive(),
            Stmt::Return(Some(Expr::Array(vec![name("v", 3), name("p", 3)]))),
        ]),
    ])]);

    let act = id("act", 3);
    let mut inside = vec![
        constant(id("v", 3), Expr::Num(1)),
        action(forwarding(hoisted_name("$ACTION_act", 0), &act)),
    ];
    inside.extend(base_annotations(&act, "$ACTION_act"));
    inside.push(closure_annotation(&act, vec![id("v", 3), id("p", 3)]));
    assert_eq!(
        out.module.body,
        vec![
            holder(inside),
            hoisted(
                "$ACTION_act",
                0,
                vec![Stmt::Return(Some(Expr::Array(vec![
                    closure_read(0, 0),
                    closure_read(0, 1)
                ])))],
                true,
            ),
        ]
    );
    assert_eq!(
        out.comment.map(|c| c.text),
        Some(" __next_internal_action_entry_do_not_use__ $ACTION_act ".to_string())
    );
}

#[test]
fn parameter_of_a_module_level_function_expression_is_a_candidate() {
    // const f = (q) => { async function act() { "use server"; return q; } };
    let out = run(vec![ModuleItem::Stmt(constant(
        id("f", 1),
        arrow(
            5,
            vec![Pat::Ident(id("q", 2))],
            vec![Stmt::Fn(function(
                id("act", 2),
                vec![],
                vec![directive(), Stmt::Return(Some(name("q", 2)))],
                true,
            ))],
        ),
    ))]);
    assert_eq!(
        out.module.body[1],
        hoisted("$ACTION_act", 0, vec![Stmt::Return(Some(closure_read(0, 0)))], true)
    );
}

#[test]
fn every_action_that_is_not_async_is_reported_once() {
    let action = |sym: &str, is_async: bool| {
        Stmt::Fn(function(
            id(sym, 2),
            vec![],
            vec![directive(), Stmt::Return(None)],
            is_async,
        ))
    };
    let plain = Stmt::Fn(function(id("helper", 2), vec![], vec![Stmt::Return(None)], false));
    let out = run(vec![
        ModuleItem::Stmt(Stmt::Fn(function(
            id("page", 1),
            vec![],
            vec![action("one", false), plain, action("two", true), action("three", false)],
            false,
        ))),
        ModuleItem::Stmt(action("four", false)),
    ]);
    assert_eq!(
        out.diagnostics,
        vec![id("one", 2), id("three", 2), id("four", 2)]
    );
    assert_eq!(
        out.comment.map(|c| c.text),
        Some(
            " __next_internal_action_entry_do_not_use__ \
             $ACTION_one,$ACTION_two,$ACTION_three,$ACTION_four "
                .to_string()
        )
    );
}
