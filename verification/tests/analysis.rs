use does_it_throw::analyze_code;
use does_it_throw::ast::{
    ArrowBody, ArrowExpr, CallExpr, Callee, ClassDecl, ClassMember, ClassMethod, Constructor,
    Decl, Expr, FnDecl, Function, ImportDecl, ImportSpecifier, MemberExpr, Module, ModuleItem,
    NewExpr, ObjectLit, Prop, Stmt, TryStmt, VarDeclarator,
};
use does_it_throw::span::Span;
use does_it_throw::UserSettings;

fn sp(lo: u32, hi: u32) -> Span {
    Span::new(lo, hi)
}

fn settings(include_try: bool, markers: &[&str]) -> UserSettings {
    UserSettings {
        include_try_statement_throws: include_try,
        ignore_statements: markers.iter().map(|m| m.to_string()).collect(),
    }
}

fn throw_stmt(lo: u32, hi: u32) -> Stmt {
    Stmt::Throw { span: sp(lo, hi) }
}

fn function(body: Vec<Stmt>, lo: u32, hi: u32) -> Function {
    Function { body, span: sp(lo, hi), leading_comments: vec![] }
}

fn fn_decl(name: &str, body: Vec<Stmt>, lo: u32, hi: u32) -> Stmt {
    Stmt::Decl(Decl::Fn(FnDecl { name: name.to_string(), function: function(body, lo, hi) }))
}

fn ident(name: &str) -> Expr {
    Expr::Ident(name.to_string())
}

fn direct_call(name: &str, lo: u32, hi: u32) -> Expr {
    Expr::Call(CallExpr {
        callee: Callee::Expr(Box::new(ident(name))),
        args: vec![],
        span: sp(lo, hi),
    })
}

fn method_call(obj: Expr, method: &str, lo: u32, hi: u32) -> Expr {
    Expr::Call(CallExpr {
        callee: Callee::Expr(Box::new(Expr::Member(MemberExpr {
            obj: Box::new(obj),
            prop: Some(method.to_string()),
            span: sp(lo, hi),
        }))),
        args: vec![],
        span: sp(lo, hi),
    })
}

fn expr_stmt(e: Expr) -> Stmt {
    Stmt::Expr(e)
}

#[test]
fn test_try_statement_throws_suppressed_when_caught() {
    // function f(){ try { throw new Error() } catch(e) {} }
    let body = vec![Stmt::Try(TryStmt {
        block: vec![throw_stmt(20, 37)],
        handler: Some(vec![]),
        finalizer: None,
        span: sp(14, 50),
    })];
    let m = Module { items: vec![ModuleItem::Stmt(fn_decl("f", body, 0, 52))] };

    let off = analyze_code(&m, &settings(false, &[]));
    assert_eq!(off.functions_with_throws.len(), 0);

    let on = analyze_code(&m, &settings(true, &[]));
    assert_eq!(on.functions_with_throws.len(), 1);
    assert_eq!(on.functions_with_throws[0].throw_spans.len(), 1);
    assert_eq!(on.functions_with_throws[0].throw_spans[0], sp(20, 37));
    assert_eq!(on.functions_with_throws[0].id, "NOT_SET-f");
}

#[test]
fn test_throw_in_catch_block_always_counts() {
    // function f(){ try { } catch(e) { throw e } }
    let body = vec![Stmt::Try(TryStmt {
        block: vec![],
        handler: Some(vec![throw_stmt(30, 37)]),
        finalizer: None,
        span: sp(14, 44),
    })];
    let m = Module { items: vec![ModuleItem::Stmt(fn_decl("f", body, 0, 46))] };

    let off = analyze_code(&m, &settings(false, &[]));
    assert_eq!(off.functions_with_throws.len(), 1);
    assert_eq!(off.functions_with_throws[0].throw_spans.len(), 1);
}

#[test]
fn test_rethrowing_catch_keeps_try_throws() {
    // function f(){ try { throw a } catch(e) { throw e } }
    let body = vec![Stmt::Try(TryStmt {
        block: vec![throw_stmt(20, 27)],
        handler: Some(vec![throw_stmt(40, 47)]),
        finalizer: None,
        span: sp(14, 50),
    })];
    let m = Module { items: vec![ModuleItem::Stmt(fn_decl("f", body, 0, 52))] };

    let off = analyze_code(&m, &settings(false, &[]));
    assert_eq!(off.functions_with_throws.len(), 1);
    assert_eq!(off.functions_with_throws[0].throw_spans, vec![sp(20, 27), sp(40, 47)]);
}

#[test]
fn test_uncaught_try_throw_counts() {
    // function f(){ try { throw a } finally {} }
    let body = vec![Stmt::Try(TryStmt {
        block: vec![throw_stmt(20, 27)],
        handler: None,
        finalizer: Some(vec![]),
        span: sp(14, 42),
    })];
    let m = Module { items: vec![ModuleItem::Stmt(fn_decl("f", body, 0, 44))] };

    let off = analyze_code(&m, &settings(false, &[]));
    assert_eq!(off.functions_with_throws.len(), 1);
}

#[test]
fn test_direct_call_resolution() {
    // function foo(){ throw new Error() } foo();
    let m = Module {
        items: vec![
            ModuleItem::Stmt(fn_decl("foo", vec![throw_stmt(16, 33)], 0, 35)),
            ModuleItem::Stmt(expr_stmt(direct_call("foo", 36, 41))),
        ],
    };
    let r = analyze_code(&m, &settings(false, &[]));
    assert_eq!(r.functions_with_throws.len(), 1);
    assert_eq!(r.functions_with_throws[0].id, "NOT_SET-foo");
    assert_eq!(r.calls_to_throws.len(), 1);
    assert_eq!(r.calls_to_throws[0].throw_map.id, "NOT_SET-foo");
    assert_eq!(r.calls_to_throws[0].call_span, sp(36, 41));
    assert_eq!(r.calls_to_throws[0].id, "NOT_SET-<anonymous>");
}

#[test]
fn test_import_usages_recorded_per_call_site() {
    // import {foo} from 'm'; foo(); foo();
    let m = Module {
        items: vec![
            ModuleItem::Import(ImportDecl {
                src: "m".to_string(),
                specifiers: vec![ImportSpecifier::Named { local: "foo".to_string() }],
                span: sp(0, 22),
            }),
            ModuleItem::Stmt(expr_stmt(direct_call("foo", 23, 28))),
            ModuleItem::Stmt(expr_stmt(direct_call("foo", 30, 35))),
        ],
    };
    let r = analyze_code(&m, &settings(false, &[]));
    assert_eq!(r.functions_with_throws.len(), 0);
    assert_eq!(r.import_sources, vec!["m".to_string()]);
    assert_eq!(r.imported_identifiers, vec!["foo".to_string()]);
    assert_eq!(r.imported_identifier_usages.len(), 2);
    assert_eq!(r.imported_identifier_usages[0].id, "NOT_SET-foo");
    assert_eq!(r.imported_identifier_usages[1].id, "NOT_SET-foo");
    assert_eq!(r.imported_identifier_usages[0].usage_span, sp(23, 28));
    assert_eq!(r.imported_identifier_usages[1].usage_span, sp(30, 35));
}

#[test]
fn test_import_sources_deduplicated() {
    let import = |span: Span| {
        ModuleItem::Import(ImportDecl {
            src: "./a".to_string(),
            specifiers: vec![ImportSpecifier::Default { local: "a".to_string() }],
            span,
        })
    };
    let m = Module { items: vec![import(sp(0, 10)), import(sp(11, 21))] };
    let r = analyze_code(&m, &settings(false, &[]));
    assert_eq!(r.import_sources, vec!["./a".to_string()]);
    assert_eq!(r.imported_identifiers, vec!["a".to_string(), "a".to_string()]);
}

fn class_with_throwing_method() -> ModuleItem {
    // class Something {
    //   _somethingCall() { this.someMethodThatThrows() }
    //   someMethodThatThrows() { throw new Error() }
    // }
    ModuleItem::Stmt(Stmt::Decl(Decl::Class(ClassDecl {
        name: "Something".to_string(),
        members: vec![
            ClassMember::Method(ClassMethod {
                name: Some("_somethingCall".to_string()),
                function: function(
                    vec![expr_stmt(method_call(Expr::This, "someMethodThatThrows", 40, 68))],
                    20,
                    70,
                ),
                span: sp(20, 70),
            }),
            ClassMember::Method(ClassMethod {
                name: Some("someMethodThatThrows".to_string()),
                function: function(vec![throw_stmt(100, 117)], 75, 120),
                span: sp(75, 120),
            }),
        ],
    })))
}

#[test]
fn test_this_method_call_resolves_to_class() {
    let m = Module { items: vec![class_with_throwing_method()] };
    let r = analyze_code(&m, &settings(false, &[]));
    assert_eq!(r.functions_with_throws.len(), 1);
    assert_eq!(r.functions_with_throws[0].id, "Something-someMethodThatThrows");
    assert_eq!(r.functions_with_throws[0].class_name, Some("Something".to_string()));
    assert_eq!(r.calls_to_throws.len(), 1);
    assert_eq!(r.calls_to_throws[0].class_name, Some("Something".to_string()));
    assert_eq!(r.calls_to_throws[0].id, "Something-_somethingCall");
}

#[test]
fn test_instantiation_map_resolves_variable_receiver() {
    // class C { m(){ throw x } }  const c = new C();  function f(){ c.m() }
    let class = ModuleItem::Stmt(Stmt::Decl(Decl::Class(ClassDecl {
        name: "C".to_string(),
        members: vec![ClassMember::Method(ClassMethod {
            name: Some("m".to_string()),
            function: function(vec![throw_stmt(15, 22)], 10, 25),
            span: sp(10, 25),
        })],
    })));
    let decl = ModuleItem::Stmt(Stmt::Decl(Decl::Var(vec![VarDeclarator {
        name: Some("c".to_string()),
        init: Some(Box::new(Expr::New(NewExpr {
            callee: Box::new(ident("C")),
            args: vec![],
            span: sp(40, 47),
        }))),
        span: sp(30, 47),
    }])));
    let caller = ModuleItem::Stmt(fn_decl(
        "f",
        vec![expr_stmt(method_call(ident("c"), "m", 65, 70))],
        50,
        75,
    ));
    let m = Module { items: vec![class, decl, caller] };
    let r = analyze_code(&m, &settings(false, &[]));
    assert_eq!(r.calls_to_throws.len(), 1);
    assert_eq!(r.calls_to_throws[0].class_name, Some("C".to_string()));
    assert_eq!(r.calls_to_throws[0].id, "C-f");
}

#[test]
fn test_ignore_marker_suppresses_function() {
    // /* @it-throws-ignore */ function foo(){ throw new Error() } foo();
    let mut f = function(vec![throw_stmt(40, 57)], 24, 59);
    f.leading_comments = vec!["@it-throws-ignore".to_string()];
    let m = Module {
        items: vec![
            ModuleItem::Stmt(Stmt::Decl(Decl::Fn(FnDecl {
                name: "foo".to_string(),
                function: f,
            }))),
            ModuleItem::Stmt(expr_stmt(direct_call("foo", 60, 65))),
        ],
    };
    let r = analyze_code(&m, &settings(true, &["@it-throws-ignore"]));
    assert_eq!(r.functions_with_throws.len(), 0);
    assert_eq!(r.calls_to_throws.len(), 0);

    let unmarked = analyze_code(&m, &settings(true, &["@some-other-marker"]));
    assert_eq!(unmarked.functions_with_throws.len(), 1);
    assert_eq!(unmarked.calls_to_throws.len(), 1);
}

#[test]
fn test_ignore_marker_matches_as_substring() {
    let mut f = function(vec![throw_stmt(40, 57)], 24, 59);
    f.leading_comments = vec!["some text @it-throws-ignore more text".to_string()];
    let m = Module {
        items: vec![ModuleItem::Stmt(Stmt::Decl(Decl::Fn(FnDecl {
            name: "foo".to_string(),
            function: f,
        })))],
    };
    let r = analyze_code(&m, &settings(true, &["@it-throws-ignore"]));
    assert_eq!(r.functions_with_throws.len(), 0);
}

fn sample_module() -> Module {
    Module {
        items: vec![
            ModuleItem::Import(ImportDecl {
                src: "./dep".to_string(),
                specifiers: vec![ImportSpecifier::Namespace { local: "dep".to_string() }],
                span: sp(0, 20),
            }),
            ModuleItem::Stmt(fn_decl("thrower", vec![throw_stmt(40, 47)], 21, 50)),
            ModuleItem::Stmt(expr_stmt(direct_call("thrower", 51, 60))),
            ModuleItem::Stmt(expr_stmt(direct_call("dep", 61, 66))),
        ],
    }
}

#[test]
fn test_analysis_is_deterministic_across_calls() {
    let s = settings(false, &["@it-throws"]);
    let a = analyze_code(&sample_module(), &s);
    let b = analyze_code(&sample_module(), &s);
    assert_eq!(a.functions_with_throws.len(), b.functions_with_throws.len());
    for (x, y) in a.functions_with_throws.iter().zip(b.functions_with_throws.iter()) {
        assert_eq!(x.id, y.id);
        assert_eq!(x.throw_statement, y.throw_statement);
        assert_eq!(x.throw_spans, y.throw_spans);
        assert_eq!(x.function_or_method_name, y.function_or_method_name);
        assert_eq!(x.class_name, y.class_name);
    }
    assert_eq!(a.calls_to_throws.len(), b.calls_to_throws.len());
    for (x, y) in a.calls_to_throws.iter().zip(b.calls_to_throws.iter()) {
        assert_eq!(x.id, y.id);
        assert_eq!(x.call_span, y.call_span);
        assert_eq!(x.call_class_name, y.call_class_name);
        assert_eq!(x.class_name, y.class_name);
        assert_eq!(x.throw_map.id, y.throw_map.id);
    }
    assert_eq!(a.import_sources, b.import_sources);
    assert_eq!(a.imported_identifiers, b.imported_identifiers);
    assert_eq!(a.imported_identifier_usages.len(), b.imported_identifier_usages.len());
    for (x, y) in a
        .imported_identifier_usages
        .iter()
        .zip(b.imported_identifier_usages.iter())
    {
        assert_eq!(x.id, y.id);
        assert_eq!(x.usage_span, y.usage_span);
        assert_eq!(x.usage_context, y.usage_context);
    }
}

#[test]
fn test_throw_records_have_contained_nonempty_spans() {
    let r = analyze_code(&sample_module(), &settings(true, &[]));
    assert!(!r.functions_with_throws.is_empty());
    for t in &r.functions_with_throws {
        assert!(!t.throw_spans.is_empty());
        for s in &t.throw_spans {
            assert!(t.throw_statement.lo <= s.lo && s.hi <= t.throw_statement.hi);
        }
    }
}

#[test]
fn test_empty_module_yields_empty_result() {
    let m = Module { items: vec![] };
    let r = analyze_code(&m, &settings(false, &[]));
    assert!(r.functions_with_throws.is_empty());
    assert!(r.calls_to_throws.is_empty());
    assert!(r.import_sources.is_empty());
    assert!(r.imported_identifiers.is_empty());
    assert!(r.imported_identifier_usages.is_empty());
}

#[test]
fn test_function_without_throws_not_recorded() {
    let m = Module {
        items: vec![ModuleItem::Stmt(fn_decl(
            "quiet",
            vec![expr_stmt(ident("x"))],
            0,
            20,
        ))],
    };
    let r = analyze_code(&m, &settings(true, &[]));
    assert!(r.functions_with_throws.is_empty());
}

#[test]
fn test_nested_function_attributed_to_both_units() {
    // function outer(){ function inner(){ throw new Error() } }
    let inner = fn_decl("inner", vec![throw_stmt(36, 53)], 18, 56);
    let m = Module { items: vec![ModuleItem::Stmt(fn_decl("outer", vec![inner], 0, 58))] };
    let r = analyze_code(&m, &settings(false, &[]));
    let ids: Vec<&str> = r.functions_with_throws.iter().map(|t| t.id.as_str()).collect();
    assert!(ids.contains(&"NOT_SET-outer"));
    assert!(ids.contains(&"NOT_SET-inner"));
    assert_eq!(r.functions_with_throws.len(), 2);
}

#[test]
fn test_var_bound_arrow_named_after_variable() {
    // const someConstThatThrows = () => { throw new Error() }
    let decl = ModuleItem::Stmt(Stmt::Decl(Decl::Var(vec![VarDeclarator {
        name: Some("someConstThatThrows".to_string()),
        init: Some(Box::new(Expr::Arrow(ArrowExpr {
            body: ArrowBody::Block(vec![throw_stmt(36, 53)]),
            span: sp(28, 55),
            leading_comments: vec![],
        }))),
        span: sp(6, 55),
    }])));
    let call = ModuleItem::Stmt(expr_stmt(direct_call("someConstThatThrows", 56, 77)));
    let m = Module { items: vec![decl, call] };
    let r = analyze_code(&m, &settings(false, &[]));
    assert_eq!(r.functions_with_throws.len(), 1);
    assert_eq!(r.functions_with_throws[0].id, "NOT_SET-someConstThatThrows");
    assert_eq!(r.functions_with_throws[0].throw_statement, sp(6, 55));
    assert_eq!(r.calls_to_throws.len(), 1);
}

#[test]
fn test_object_literal_method_gets_object_class_context() {
    // const someObjectLiteral = { objectLiteralThrow(){ throw new Error() } }
    let decl = ModuleItem::Stmt(Stmt::Decl(Decl::Var(vec![VarDeclarator {
        name: Some("someObjectLiteral".to_string()),
        init: Some(Box::new(Expr::Object(ObjectLit {
            props: vec![Prop::Method {
                name: Some("objectLiteralThrow".to_string()),
                function: function(vec![throw_stmt(50, 67)], 28, 70),
            }],
            span: sp(26, 72),
        }))),
        span: sp(6, 72),
    }])));
    let m = Module { items: vec![decl] };
    let r = analyze_code(&m, &settings(false, &[]));
    assert_eq!(r.functions_with_throws.len(), 1);
    assert_eq!(r.functions_with_throws[0].id, "someObjectLiteral-objectLiteralThrow");
    assert_eq!(
        r.functions_with_throws[0].class_name,
        Some("someObjectLiteral".to_string())
    );
}

#[test]
fn test_constructor_recorded_under_constructor_name() {
    let class = ModuleItem::Stmt(Stmt::Decl(Decl::Class(ClassDecl {
        name: "Something".to_string(),
        members: vec![ClassMember::Ctor(Constructor {
            body: vec![throw_stmt(30, 47)],
            span: sp(20, 50),
            leading_comments: vec![],
        })],
    })));
    let m = Module { items: vec![class] };
    let r = analyze_code(&m, &settings(false, &[]));
    assert_eq!(r.functions_with_throws.len(), 1);
    assert_eq!(r.functions_with_throws[0].function_or_method_name, "<constructor>");
    assert_eq!(r.functions_with_throws[0].id, "Something-<constructor>");
}

#[test]
fn test_callback_argument_named_after_called_function() {
    // registerHandler(() => { throw new Error() });
    let callback = Expr::Arrow(ArrowExpr {
        body: ArrowBody::Block(vec![throw_stmt(22, 39)]),
        span: sp(16, 42),
        leading_comments: vec![],
    });
    let call = Expr::Call(CallExpr {
        callee: Callee::Expr(Box::new(ident("registerHandler"))),
        args: vec![callback],
        span: sp(0, 44),
    });
    let m = Module { items: vec![ModuleItem::Stmt(expr_stmt(call))] };
    let r = analyze_code(&m, &settings(false, &[]));
    assert_eq!(r.functions_with_throws.len(), 1);
    assert_eq!(r.functions_with_throws[0].id, "NOT_SET-registerHandler");
    assert_eq!(r.functions_with_throws[0].function_or_method_name, "registerHandler");
}

#[test]
fn test_duplicate_unit_spans_collapse_to_one_record() {
    // The same function registered twice by span keeps a single record.
    let m = Module {
        items: vec![
            ModuleItem::Stmt(fn_decl("foo", vec![throw_stmt(16, 33)], 0, 35)),
            ModuleItem::Stmt(fn_decl("foo", vec![throw_stmt(16, 33)], 0, 35)),
        ],
    };
    let r = analyze_code(&m, &settings(false, &[]));
    assert_eq!(r.functions_with_throws.len(), 1);
}

#[test]
fn test_first_matching_throw_record_wins_for_method_calls() {
    // Two classes with a method of the same name; a member call through an
    // untracked receiver matches the record registered first.
    let class = |cname: &str, base: u32| {
        ModuleItem::Stmt(Stmt::Decl(Decl::Class(ClassDecl {
            name: cname.to_string(),
            members: vec![ClassMember::Method(ClassMethod {
                name: Some("boom".to_string()),
                function: function(vec![throw_stmt(base + 10, base + 17)], base, base + 20),
                span: sp(base, base + 20),
            })],
        })))
    };
    let call = ModuleItem::Stmt(expr_stmt(method_call(ident("thing"), "boom", 100, 112)));
    let m = Module { items: vec![class("A", 0), class("B", 40), call] };
    let r = analyze_code(&m, &settings(false, &[]));
    assert_eq!(r.functions_with_throws.len(), 2);
    assert_eq!(r.calls_to_throws.len(), 1);
    assert_eq!(r.calls_to_throws[0].throw_map.id, "A-boom");
    assert_eq!(r.calls_to_throws[0].class_name, Some("thing".to_string()));
}

#[test]
fn test_assignment_names_function_after_target() {
    // handler = function(){ throw new Error() };
    let assign = Expr::Assign(does_it_throw::ast::AssignExpr {
        target: Some("handler".to_string()),
        right: Box::new(Expr::Fn(does_it_throw::ast::FnExpr {
            function: function(vec![throw_stmt(22, 39)], 10, 41),
        })),
        span: sp(0, 41),
    });
    let m = Module { items: vec![ModuleItem::Stmt(expr_stmt(assign))] };
    let r = analyze_code(&m, &settings(false, &[]));
    assert_eq!(r.functions_with_throws.len(), 1);
    assert_eq!(r.functions_with_throws[0].id, "NOT_SET-handler");
}

#[test]
fn test_awaited_call_still_resolves() {
    // function boom(){ throw x }  async wrapper: await boom();
    let awaited = Expr::Await(Box::new(direct_call("boom", 40, 46)));
    let m = Module {
        items: vec![
            ModuleItem::Stmt(fn_decl("boom", vec![throw_stmt(16, 23)], 0, 25)),
            ModuleItem::Stmt(expr_stmt(awaited)),
        ],
    };
    let r = analyze_code(&m, &settings(false, &[]));
    assert_eq!(r.calls_to_throws.len(), 1);
    assert_eq!(r.calls_to_throws[0].call_span, sp(40, 46));
}

#[test]
fn test_directly_called_arrow_recorded_under_enclosing_name() {
    // function outer(){ (() => { throw new Error() })() }
    let arrow = Expr::Arrow(ArrowExpr {
        body: ArrowBody::Block(vec![throw_stmt(27, 44)]),
        span: sp(19, 46),
        leading_comments: vec![],
    });
    let call = Expr::Call(CallExpr {
        callee: Callee::Expr(Box::new(arrow)),
        args: vec![],
        span: sp(18, 49),
    });
    let m = Module {
        items: vec![ModuleItem::Stmt(fn_decl("outer", vec![expr_stmt(call)], 0, 51))],
    };
    let r = analyze_code(&m, &settings(false, &[]));
    let ids: Vec<&str> = r.functions_with_throws.iter().map(|t| t.id.as_str()).collect();
    assert!(ids.contains(&"NOT_SET-outer"));
    // the arrow itself is registered under the enclosing function's name
    assert_eq!(
        r.functions_with_throws.iter().filter(|t| t.throw_statement == sp(19, 46)).count(),
        1
    );
    assert_eq!(
        r.functions_with_throws
            .iter()
            .find(|t| t.throw_statement == sp(19, 46))
            .unwrap()
            .function_or_method_name,
        "outer"
    );
}

#[test]
fn test_export_declaration_is_transparent() {
    // export function ex(){ throw new Error() }
    let m = Module {
        items: vec![ModuleItem::Export(Decl::Fn(FnDecl {
            name: "ex".to_string(),
            function: function(vec![throw_stmt(22, 39)], 7, 41),
        }))],
    };
    let r = analyze_code(&m, &settings(false, &[]));
    assert_eq!(r.functions_with_throws.len(), 1);
    assert_eq!(r.functions_with_throws[0].id, "NOT_SET-ex");
}

#[test]
fn test_member_call_on_imported_receiver_records_usage() {
    // import * as fs from 'fs'; fs.readFile();
    let m = Module {
        items: vec![
            ModuleItem::Import(ImportDecl {
                src: "fs".to_string(),
                specifiers: vec![ImportSpecifier::Namespace { local: "fs".to_string() }],
                span: sp(0, 25),
            }),
            ModuleItem::Stmt(expr_stmt(method_call(ident("fs"), "readFile", 26, 39))),
        ],
    };
    let r = analyze_code(&m, &settings(false, &[]));
    assert_eq!(r.imported_identifier_usages.len(), 1);
    assert_eq!(r.imported_identifier_usages[0].id, "fs-readFile");
    assert_eq!(r.imported_identifier_usages[0].identifier_name, "fs");
    assert_eq!(r.imported_identifier_usages[0].usage_context, "readFile");
}
