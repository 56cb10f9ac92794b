use diagram_model::cpp_model::{
    BodyItem, BranchCase, FunctionDef, FunctionId, FunctionKind, GuardExpression, LoopKind,
    ResolvedType, Scope,
};
use diagram_model::cursor::{
    expression_text,
    is_excluded_entity, parse_source_location, Cursor, CursorKind, CursorLocation, EntityFacts,
    FilePosition, SourceRange, Token,
};
use diagram_model::function_visitor::{FunctionVisitor, LogicalOperator};
use diagram_model::source_location::SourceLocation;
use diagram_model::context::{ParsedClassInfo, VisitContext};
use diagram_model::visitor::{AstVisitor, Visitor};

const FILE: &str = "src/service.cpp";

fn ns(path: &[&str]) -> Scope {
    Scope::Namespace(path.iter().map(|s| s.to_string()).collect())
}

fn ty(namespace: &[&str], types: &[&str]) -> Scope {
    Scope::Type {
        namespace: namespace.iter().map(|s| s.to_string()).collect(),
        type_path: types.iter().map(|s| s.to_string()).collect(),
    }
}

fn facts(kind: CursorKind) -> EntityFacts {
    EntityFacts {
        kind,
        name: None,
        scope: None,
        is_static_method: false,
    }
}

fn callable(kind: CursorKind, name: &str, scope: Scope) -> EntityFacts {
    EntityFacts {
        kind,
        name: Some(name.to_string()),
        scope: Some(scope),
        is_static_method: false,
    }
}

fn at(line: u32) -> Option<CursorLocation> {
    Some(CursorLocation {
        presumed_file: FILE.to_string(),
        file: Some(FILE.to_string()),
        line,
        offset: line * 100,
    })
}

fn cursor(kind: CursorKind, line: u32, children: Vec<Cursor>) -> Cursor {
    Cursor {
        facts: facts(kind),
        namespace: None,
        in_main_file: true,
        location: at(line),
        result_type: None,
        reference: None,
        range: None,
        tokens: vec![],
        text: String::new(),
        children,
    }
}

fn pos(offset: u32) -> FilePosition {
    FilePosition {
        file: Some(FILE.to_string()),
        offset,
    }
}

fn with_range(mut c: Cursor, start: u32, end: u32) -> Cursor {
    c.range = Some(SourceRange {
        start: pos(start),
        end: pos(end),
    });
    c
}

fn token(spelling: &str, offset: u32) -> Token {
    Token {
        spelling: spelling.to_string(),
        position: pos(offset),
    }
}

fn call(line: u32, callee: EntityFacts, text: &str, args: Vec<Cursor>) -> Cursor {
    let mut c = cursor(CursorKind::CallExpr, line, args);
    c.reference = Some(callee);
    c.text = text.to_string();
    c
}

fn opaque(line: u32, text: &str) -> Cursor {
    let mut c = cursor(CursorKind::Other, line, vec![]);
    c.text = text.to_string();
    c
}

fn compound(line: u32, children: Vec<Cursor>) -> Cursor {
    cursor(CursorKind::CompoundStmt, line, children)
}

fn function(name: &str, scope: Scope, body: Option<Cursor>) -> Cursor {
    let mut f = cursor(CursorKind::Method, 1, vec![cursor(CursorKind::Other, 1, vec![])]);
    f.facts = callable(CursorKind::Method, name, scope);
    f.result_type = Some(ResolvedType {
        spelling: "void".to_string(),
    });
    if let Some(b) = body {
        f.children.push(b);
    }
    f
}

fn caller_scope() -> Scope {
    ty(&["app"], &["Car"])
}

fn engine_start() -> EntityFacts {
    callable(CursorKind::Method, "start", ty(&["app"], &["Engine"]))
}

fn own_helper() -> EntityFacts {
    callable(CursorKind::Method, "helper", caller_scope())
}

fn loc(line: u32) -> SourceLocation {
    SourceLocation::new(FILE, line)
}

fn call_item(target: &str, line: u32) -> BodyItem {
    BodyItem::Call {
        target: target.to_string(),
        source_location: loc(line),
    }
}

#[test]
fn extracts_cross_owner_calls_in_nesting_order() {
    // engine.start(helper(log::write()))
    let inner = call(
        3,
        callable(CursorKind::FunctionDecl, "write", ns(&["log"])),
        "log::write()",
        vec![],
    );
    let middle = call(3, own_helper(), "helper(...)", vec![inner]);
    let outer = call(3, engine_start(), "engine.start(...)", vec![middle]);
    let f = function("drive", caller_scope(), Some(compound(2, vec![outer])));
    let def = FunctionVisitor::extract_function_def(&f).expect("definition");
    assert_eq!(
        def,
        FunctionDef {
            id: FunctionId {
                scope: caller_scope(),
                name: "drive".to_string()
            },
            kind: FunctionKind::Method,
            return_type: Some(ResolvedType {
                spelling: "void".to_string()
            }),
            body: vec![call_item("log::write", 3), call_item("app::Engine::start", 3)],
        }
    );
}

#[test]
fn declaration_only_function_yields_no_definition() {
    let f = function("drive", caller_scope(), None);
    assert_eq!(FunctionVisitor::extract_function_def(&f), None);
    let mut header = function("drive", caller_scope(), Some(compound(2, vec![])));
    header.in_main_file = false;
    assert_eq!(FunctionVisitor::extract_function_def(&header), None);
    let mut no_scope = function("drive", caller_scope(), Some(compound(2, vec![])));
    no_scope.facts.scope = None;
    assert_eq!(FunctionVisitor::extract_function_def(&no_scope), None);
    let empty = function("drive", caller_scope(), Some(compound(2, vec![])));
    assert_eq!(
        FunctionVisitor::extract_function_def(&empty).map(|d| d.body.len()),
        Some(0)
    );
}

#[test]
fn constructors_have_no_return_type() {
    let mut f = function("Car", caller_scope(), Some(compound(2, vec![])));
    f.facts.kind = CursorKind::Constructor;
    let def = FunctionVisitor::extract_function_def(&f).unwrap();
    assert_eq!(def.kind, FunctionKind::Constructor);
    assert_eq!(def.return_type, None);
}

#[test]
fn function_kinds() {
    let mut t = callable(CursorKind::FunctionTemplate, "f", ns(&["app"]));
    assert_eq!(
        FunctionVisitor::extract_function_kind(&t),
        Some(FunctionKind::Free)
    );
    t.scope = Some(caller_scope());
    t.is_static_method = true;
    assert_eq!(
        FunctionVisitor::extract_function_kind(&t),
        Some(FunctionKind::StaticMethod)
    );
    t.scope = None;
    assert_eq!(FunctionVisitor::extract_function_kind(&t), None);
    assert_eq!(
        FunctionVisitor::extract_function_kind(&facts(CursorKind::ConversionFunction)),
        Some(FunctionKind::Conversion)
    );
    assert_eq!(
        FunctionVisitor::extract_function_kind(&facts(CursorKind::CallExpr)),
        None
    );
}

#[test]
fn if_else_if_else_chain_becomes_one_branch() {
    let inner_if = cursor(
        CursorKind::IfStmt,
        5,
        vec![
            opaque(5, "b"),
            compound(5, vec![call(6, engine_start(), "s()", vec![])]),
            compound(7, vec![]),
        ],
    );
    let outer_if = cursor(
        CursorKind::IfStmt,
        3,
        vec![opaque(3, "a"), compound(3, vec![]), inner_if],
    );
    let f = function("drive", caller_scope(), Some(compound(2, vec![outer_if])));
    let def = FunctionVisitor::extract_function_def(&f).unwrap();
    assert_eq!(
        def.body,
        vec![BodyItem::Branch {
            cases: vec![
                BranchCase {
                    guard: Some(GuardExpression::Opaque {
                        text: "a".to_string(),
                        source_location: loc(3)
                    }),
                    body: vec![],
                    source_location: loc(3),
                },
                BranchCase {
                    guard: Some(GuardExpression::Opaque {
                        text: "b".to_string(),
                        source_location: loc(5)
                    }),
                    body: vec![call_item("app::Engine::start", 6)],
                    source_location: loc(5),
                },
                BranchCase {
                    guard: None,
                    body: vec![],
                    source_location: loc(7),
                },
            ]
        }]
    );
}

#[test]
fn unsupported_if_layout_keeps_reachable_calls() {
    // `if (init; cond) ...` has four children in libclang.
    let if_stmt = cursor(
        CursorKind::IfStmt,
        3,
        vec![
            call(3, engine_start(), "s()", vec![]),
            opaque(3, "cond"),
            compound(4, vec![call(4, engine_start(), "s()", vec![])]),
            compound(5, vec![]),
        ],
    );
    let f = function("drive", caller_scope(), Some(compound(2, vec![if_stmt])));
    let def = FunctionVisitor::extract_function_def(&f).unwrap();
    assert_eq!(
        def.body,
        vec![
            call_item("app::Engine::start", 3),
            call_item("app::Engine::start", 4)
        ]
    );
}

#[test]
fn loops_have_a_kind_and_a_body() {
    let for_loop = cursor(
        CursorKind::ForStmt,
        3,
        vec![
            opaque(3, "i = 0"),
            call(3, engine_start(), "cond()", vec![]),
            compound(3, vec![call(4, engine_start(), "s()", vec![])]),
        ],
    );
    let do_loop = cursor(
        CursorKind::DoStmt,
        6,
        vec![
            compound(6, vec![call(7, engine_start(), "s()", vec![])]),
            opaque(8, "again"),
        ],
    );
    let empty_while = cursor(CursorKind::WhileStmt, 9, vec![]);
    let f = function(
        "drive",
        caller_scope(),
        Some(compound(2, vec![for_loop, do_loop, empty_while])),
    );
    let def = FunctionVisitor::extract_function_def(&f).unwrap();
    assert_eq!(
        def.body,
        vec![
            BodyItem::Loop {
                kind: LoopKind::For,
                body: vec![call_item("app::Engine::start", 4)],
                source_location: loc(3)
            },
            BodyItem::Loop {
                kind: LoopKind::DoWhile,
                body: vec![call_item("app::Engine::start", 7)],
                source_location: loc(6)
            },
            BodyItem::Loop {
                kind: LoopKind::While,
                body: vec![],
                source_location: loc(9)
            },
        ]
    );
}

fn binary(line: u32, op: &str, left: Cursor, right: Cursor, op_offset: u32) -> Cursor {
    let mut c = cursor(CursorKind::BinaryOperator, line, vec![left, right]);
    c = with_range(c, 0, 1000);
    c.tokens = vec![token("x", 0), token(op, op_offset), token("y", 900)];
    c
}

#[test]
fn guards_keep_logical_structure_flattened() {
    let call_a = with_range(call(3, engine_start(), "a()", vec![]), 0, 10);
    let leaf_b = with_range(opaque(3, "b"), 20, 30);
    let leaf_c = with_range(opaque(3, "c"), 40, 50);
    // (a() && b) && c  ->  And[a(), b, c]
    let left = with_range(binary(3, "&&", call_a, leaf_b, 15), 0, 30);
    let both = binary(3, "and", left, leaf_c, 35);
    let caller = FunctionId {
        scope: caller_scope(),
        name: "drive".to_string(),
    };
    let g = FunctionVisitor::extract_guard_expression(&both, &caller);
    assert_eq!(
        g,
        GuardExpression::And {
            expressions: vec![
                GuardExpression::Call {
                    target: "app::Engine::start".to_string(),
                    text: "a()".to_string(),
                    source_location: loc(3)
                },
                GuardExpression::Opaque {
                    text: "b".to_string(),
                    source_location: loc(3)
                },
                GuardExpression::Opaque {
                    text: "c".to_string(),
                    source_location: loc(3)
                },
            ]
        }
    );
}

#[test]
fn negation_and_mixed_operators() {
    let leaf_a = with_range(opaque(3, "a"), 0, 10);
    let leaf_b = with_range(opaque(3, "b"), 20, 30);
    let or = with_range(binary(3, "||", leaf_a, leaf_b, 15), 0, 30);
    let mut not = with_range(cursor(CursorKind::UnaryOperator, 3, vec![or]), 0, 30);
    not.tokens = vec![token("not", 0)];
    let leaf_c = with_range(opaque(3, "c"), 40, 50);
    let and = binary(3, "&&", not, leaf_c, 35);
    let caller = FunctionId {
        scope: caller_scope(),
        name: "drive".to_string(),
    };
    let g = FunctionVisitor::extract_guard_expression(&and, &caller);
    assert_eq!(
        g,
        GuardExpression::And {
            expressions: vec![
                GuardExpression::Not {
                    expression: Box::new(GuardExpression::Or {
                        expressions: vec![
                            GuardExpression::Opaque {
                                text: "a".to_string(),
                                source_location: loc(3)
                            },
                            GuardExpression::Opaque {
                                text: "b".to_string(),
                                source_location: loc(3)
                            },
                        ]
                    })
                },
                GuardExpression::Opaque {
                    text: "c".to_string(),
                    source_location: loc(3)
                },
            ]
        }
    );
}

#[test]
fn operator_inside_an_operand_is_not_the_cursors_operator() {
    let leaf_a = with_range(opaque(3, "a"), 0, 10);
    let leaf_b = with_range(opaque(3, "b"), 20, 30);
    // The only `&&` token lies inside the left operand.
    let mut e = binary(3, "+", leaf_a, leaf_b, 15);
    e.tokens = vec![token("&&", 5), token("+", 15)];
    assert_eq!(
        FunctionVisitor::logical_operator(&e, &e.children[0], &e.children[1]),
        None
    );
    let mut e2 = binary(3, "||", with_range(opaque(3, "a"), 0, 10), with_range(opaque(3, "b"), 20, 30), 15);
    e2.tokens.insert(0, token("&&", 5));
    assert_eq!(
        FunctionVisitor::logical_operator(&e2, &e2.children[0], &e2.children[1]),
        Some(LogicalOperator::Or)
    );
    let e3 = binary(3, "&&", opaque(3, "a"), with_range(opaque(3, "b"), 20, 30), 15);
    assert_eq!(
        FunctionVisitor::logical_operator(&e3, &e3.children[0], &e3.children[1]),
        None
    );
}

#[test]
fn same_owner_call_in_guard_stays_opaque() {
    let c = call(3, own_helper(), "helper()", vec![]);
    let caller = FunctionId {
        scope: caller_scope(),
        name: "drive".to_string(),
    };
    assert_eq!(
        FunctionVisitor::extract_guard_expression(&c, &caller),
        GuardExpression::Opaque {
            text: "helper()".to_string(),
            source_location: loc(3)
        }
    );
}

#[test]
fn member_reference_child_resolves_virtual_calls() {
    let mut member = cursor(CursorKind::MemberRefExpr, 3, vec![]);
    member.reference = Some(engine_start());
    let c = cursor(CursorKind::CallExpr, 3, vec![opaque(3, "p"), member]);
    assert_eq!(
        FunctionVisitor::extract_call_target(&c),
        Some(FunctionId {
            scope: ty(&["app"], &["Engine"]),
            name: "start".to_string()
        })
    );
    let bare = cursor(CursorKind::CallExpr, 3, vec![]);
    assert_eq!(FunctionVisitor::extract_call_target(&bare), None);
}

#[test]
fn qualified_names() {
    let id = FunctionId {
        scope: ty(&["app"], &["Outer", "Inner"]),
        name: "run".to_string(),
    };
    assert_eq!(id.qualified_name(), "app::Outer::Inner::run");
    let global = FunctionId {
        scope: Scope::Global,
        name: "main".to_string(),
    };
    assert_eq!(global.qualified_name(), "main");
    assert!(FunctionVisitor::is_cross_owner_call(&id, &global));
    assert!(!FunctionVisitor::is_cross_owner_call(&id, &id));
    // a namespace and a type with the same spelling are different owners
    let a = FunctionId {
        scope: ns(&["app", "Car"]),
        name: "f".to_string(),
    };
    let b = FunctionId {
        scope: ty(&["app"], &["Car"]),
        name: "f".to_string(),
    };
    assert!(FunctionVisitor::is_cross_owner_call(&a, &b));
}

#[test]
fn visitor_collects_definitions_in_preorder_and_skips_excluded_subtrees() {
    let body = || compound(2, vec![call(3, engine_start(), "s()", vec![])]);
    let mut std_fn = function("sort", ns(&["std"]), Some(body()));
    std_fn.namespace = Some("std::__1".to_string());
    let mut system = function("x", ns(&["sys"]), Some(body()));
    if let Some(l) = system.location.as_mut() {
        l.presumed_file = "/usr/include/x.h".to_string();
    }
    let mut class = cursor(CursorKind::ClassDecl, 1, vec![function("run", caller_scope(), Some(body()))]);
    class.namespace = Some("app".to_string());
    let mut free = function("main", Scope::Global, Some(body()));
    free.facts.kind = CursorKind::FunctionDecl;
    let mut ctor = function("Car", caller_scope(), Some(body()));
    ctor.facts.kind = CursorKind::Constructor;
    let tu = cursor(CursorKind::Other, 0, vec![std_fn, system, class, free, ctor]);

    let mut ctx = VisitContext::new();
    let mut visitor = Visitor::new(&mut ctx);
    visitor.visit(&tu);
    let names: Vec<String> = ctx
        .functions
        .iter()
        .map(|f| f.definition.id.qualified_name())
        .collect();
    assert_eq!(names, vec!["app::Car::run".to_string(), "main".to_string()]);
    assert_eq!(ctx.functions[0].key.source_file, FILE);
    assert_eq!(ctx.functions[0].key.source_offset, 100);
}

#[test]
fn function_visitor_adds_one_definition() {
    let mut ctx = VisitContext::new();
    let f = function("drive", caller_scope(), Some(compound(2, vec![])));
    <FunctionVisitor as AstVisitor>::visit(&mut ctx, &f);
    let g = function("decl", caller_scope(), None);
    <FunctionVisitor as AstVisitor>::visit(&mut ctx, &g);
    assert_eq!(ctx.functions.len(), 1);
    assert_eq!(ctx.functions[0].definition.id.name, "drive");
}

#[test]
fn excluded_entities_and_locations() {
    let mut c = cursor(CursorKind::Other, 4, vec![]);
    assert!(!is_excluded_entity(&c));
    c.namespace = Some("__gnu_cxx::detail".to_string());
    assert!(is_excluded_entity(&c));
    c.location = None;
    assert!(!is_excluded_entity(&c));
    assert_eq!(parse_source_location(&c), SourceLocation::new("", 0));
    let mut d = cursor(CursorKind::Other, 4, vec![]);
    assert_eq!(parse_source_location(&d), loc(4));
    if let Some(l) = d.location.as_mut() {
        l.file = None;
    }
    assert_eq!(parse_source_location(&d), SourceLocation::new("", 4));
}

#[test]
fn leading_operator_spellings() {
    let mut e = with_range(cursor(CursorKind::UnaryOperator, 3, vec![]), 0, 10);
    e.tokens = vec![token("not", 0), token("x", 4)];
    assert!(FunctionVisitor::has_leading_operator(&e, "!"));
    assert!(!FunctionVisitor::has_leading_operator(&e, "-"));
    e.tokens = vec![token("-", 0), token("x", 1)];
    assert!(FunctionVisitor::has_leading_operator(&e, "-"));
    assert!(!FunctionVisitor::has_leading_operator(&e, "!"));
    e.range = None;
    assert!(!FunctionVisitor::has_leading_operator(&e, "-"));
}

#[test]
fn calls_are_not_collected_across_control_flow() {
    // A call statement whose argument holds a lambda with an if: the if's
    // calls are not part of the statement's calls.
    let nested_if = cursor(
        CursorKind::IfStmt,
        4,
        vec![opaque(4, "c"), call(4, engine_start(), "s()", vec![])],
    );
    let stmt = call(3, engine_start(), "run(...)", vec![nested_if]);
    let caller = FunctionId {
        scope: caller_scope(),
        name: "drive".to_string(),
    };
    assert_eq!(
        FunctionVisitor::collect_nested_calls(&stmt, &caller),
        vec![call_item("app::Engine::start", 3)]
    );
}

#[test]
fn ignored_entity_leaves_the_context_unchanged() {
    let mut ctx = VisitContext::new();
    ctx.parsed_class_info.push(ParsedClassInfo {
        id: "app::Car".to_string(),
        base_classes: vec![],
        variable_types: vec![],
        method_types: vec![],
    });
    let mut inside = function("run", caller_scope(), Some(compound(2, vec![])));
    inside.facts.kind = CursorKind::Method;
    let mut std_ns = cursor(CursorKind::Other, 1, vec![inside]);
    std_ns.namespace = Some("std".to_string());
    let mut visitor = Visitor::new(&mut ctx);
    visitor.visit(&std_ns);
    assert!(ctx.functions.is_empty());
    assert_eq!(ctx.parsed_class_info.len(), 1);
    assert_eq!(ctx.parsed_class_info[0].id, "app::Car");

    let kept = function("drive", caller_scope(), Some(compound(2, vec![])));
    let mut visitor = Visitor::new(&mut ctx);
    visitor.visit(&kept);
    assert_eq!(ctx.functions.len(), 1);
    assert_eq!(ctx.parsed_class_info.len(), 1);
    assert_eq!(ctx.parsed_class_info[0].id, "app::Car");
}

#[test]
fn definition_keys_compare_file_paths_by_component() {
    let mut ctx = VisitContext::new();
    let mut f = function("drive", caller_scope(), Some(compound(2, vec![])));
    if let Some(l) = f.location.as_mut() {
        l.file = Some("src//./service.cpp".to_string());
    }
    let mut visitor = Visitor::new(&mut ctx);
    visitor.visit(&f);
    assert_eq!(ctx.functions.len(), 1);
    assert_eq!(ctx.functions[0].key.source_file, FILE);
}

#[test]
fn expression_text_is_the_spanned_source_as_written() {
    let source = "if (a  &&  !b) {}".as_bytes();
    assert_eq!(expression_text(source, 4, 13), "a  &&  !b");
    assert_eq!(expression_text(source, 0, 0), "");
    assert_eq!(expression_text(source, 5, 4), "");
    assert_eq!(expression_text(source, 4, 100), "");
    let accented = "f(\u{e9}t\u{e9})".as_bytes();
    assert_eq!(expression_text(accented, 2, 7), "\u{e9}t\u{e9}");
    let invalid: &[u8] = &[b'x', 0xff, b'y'];
    assert_eq!(expression_text(invalid, 0, 3), "x\u{fffd}y");
}
