use lokalise_key_usage::analysis::{
    collect_translation, get_anonymous_default_export_id, get_labels_usage,
};
use lokalise_key_usage::builder::{collect_labels_from_object_literal, ConstructionError};
use lokalise_key_usage::key_set::KeySet;
use lokalise_key_usage::label_visitor::{
    labels_translate_args, AnalysisError, ConventionMismatch, LabelVisitor,
};
use lokalise_key_usage::resolve::LookupFailure;
use lokalise_key_usage::string_map::StringMap;
use lokalise_key_usage::syntax::{
    CallExpr, Callee, Class, ClassDecl, ClassExpr, Decl, DefaultDecl, FnDecl, FnExpr, Function,
    Ident, KeyValueProp, MemberExpr, MemberProp, Module, ModuleItem, Node, ObjectLit, Pat, Prop,
    PropName, PropOrSpread, VarDecl, VarDeclarator,
};
use lokalise_key_usage::usage::{record_usage, TranslationUsage};
use lokalise_key_usage::usage_visitor::LabelUsageVisitor;

const TOP: u32 = 2;

fn ident(name: &str) -> Ident {
    Ident { sym: name.to_string(), ctxt: TOP }
}

fn string(text: &str) -> Node {
    Node::Str(text.to_string())
}

fn nested(props: Vec<PropOrSpread>) -> Node {
    Node::Object(ObjectLit { props })
}

fn plain(key: &str, value: Node) -> PropOrSpread {
    PropOrSpread::Prop(Prop::KeyValue(KeyValueProp {
        key: PropName::Ident(key.to_string()),
        value: Box::new(value),
    }))
}

fn computed(key: Node, value: Node) -> PropOrSpread {
    PropOrSpread::Prop(Prop::KeyValue(KeyValueProp {
        key: PropName::Computed(Box::new(key)),
        value: Box::new(value),
    }))
}

/// `callee(args)`
fn call(callee: &str, args: Vec<Node>) -> Node {
    Node::Call(CallExpr { callee: Callee::Expr(Box::new(Node::Ident(ident(callee)))), args })
}

/// `name = init`
fn declarator(name: &str, init: Node) -> VarDeclarator {
    VarDeclarator { name: Pat::Ident(ident(name)), init: Some(init) }
}

/// `const name = init;`
fn constant(name: &str, init: Node) -> ModuleItem {
    ModuleItem::Decl(Decl::Var(VarDecl { decls: vec![declarator(name, init)] }))
}

/// `const LABELS = translate({...});`
fn labels_decl(props: Vec<PropOrSpread>) -> ModuleItem {
    constant("LABELS", call("translate", vec![nested(props)]))
}

/// `LABELS.a.b...`
fn read(names: &[&str]) -> Node {
    let mut node = Node::Ident(ident("LABELS"));
    for name in names {
        node = Node::Member(MemberExpr {
            obj: Box::new(node),
            prop: MemberProp::Ident(name.to_string()),
        });
    }
    node
}

/// `return value;`
fn statement(value: Node) -> Node {
    Node::Other(vec![value])
}

/// `function name() { body }`
fn function(name: &str, body: Vec<Node>) -> ModuleItem {
    ModuleItem::Decl(Decl::Fn(FnDecl { ident: ident(name), function: Function { body } }))
}

fn module(body: Vec<ModuleItem>) -> Module {
    Module { body }
}

fn pets() -> Vec<PropOrSpread> {
    vec![
        plain("fly", nested(vec![plain("bird", string("i18n.bird"))])),
        plain(
            "walk",
            nested(vec![plain("cat", string("i18n.cat")), plain("dog", string("i18n.dog"))]),
        ),
    ]
}

fn sorted(keys: &KeySet) -> Vec<String> {
    let mut all = Vec::new();
    let mut i = 0;
    while let Some(key) = keys.key(i) {
        all.push(key.clone());
        i += 1;
    }
    all.sort();
    all
}

fn listed(usage: &StringMap<KeySet>) -> Vec<(String, Vec<String>)> {
    let mut all = Vec::new();
    let mut i = 0;
    while let Some((owner, keys)) = usage.entry(i) {
        all.push((owner.clone(), sorted(keys)));
        i += 1;
    }
    all.sort();
    all
}

fn expect(entries: &[(&str, &[&str])]) -> Vec<(String, Vec<String>)> {
    entries
        .iter()
        .map(|(owner, keys)| (owner.to_string(), keys.iter().map(|k| k.to_string()).collect()))
        .collect()
}

fn usage_of(body: Vec<ModuleItem>) -> Vec<(String, Vec<String>)> {
    let usage = collect_translation(&module(body), get_anonymous_default_export_id()).unwrap();
    listed(&usage)
}

fn usage_map(entries: &[(&str, &[&str])]) -> StringMap<KeySet> {
    let mut usage = StringMap::new();
    for (owner, keys) in entries {
        let mut set = KeySet::new();
        for key in keys.iter() {
            set.insert(key.to_string());
        }
        usage.insert(owner.to_string(), set);
    }
    usage
}

fn merged(target: &[(&str, &[&str])], incoming: StringMap<KeySet>) -> TranslationUsage {
    let mut usage = TranslationUsage { data: usage_map(target) };
    usage.extend(incoming);
    usage
}

#[test]
fn named_function_owns_the_key_it_reads() {
    let usage = usage_of(vec![
        labels_decl(pets()),
        function("Foo", vec![statement(read(&["walk", "cat"]))]),
    ]);
    assert_eq!(usage, expect(&[("Foo", &["i18n.cat"])]));
}

#[test]
fn unnamed_default_function_is_owned_by_the_anonymous_default_export() {
    let anonymous = get_anonymous_default_export_id();
    assert_eq!(anonymous.sym, "default");
    let body = vec![
        labels_decl(vec![plain("bird", string("x"))]),
        ModuleItem::ExportDefaultDecl(DefaultDecl::Fn(FnExpr {
            ident: None,
            function: Function { body: vec![statement(read(&["bird"]))] },
        })),
    ];
    let usage = collect_translation(&module(body), anonymous).unwrap();
    assert_eq!(usage.len(), 1);
    assert_eq!(sorted(usage.get("default").unwrap()), vec!["x"]);
}

#[test]
fn anonymous_owner_is_the_one_that_is_passed_in() {
    let body = vec![
        labels_decl(vec![plain("bird", string("x"))]),
        ModuleItem::ExportDefaultDecl(DefaultDecl::Class(ClassExpr {
            ident: None,
            class: Class { body: vec![read(&["bird"])] },
        })),
    ];
    let usage = collect_translation(&module(body), ident("<anonymous>")).unwrap();
    assert_eq!(listed(&usage), expect(&[("<anonymous>", &["x"])]));
}

#[test]
fn every_declaration_form_is_an_owner() {
    let usage = usage_of(vec![
        labels_decl(vec![
            plain("a", string("key.a")),
            plain("b", string("key.b")),
            plain("c", string("key.c")),
            plain("d", string("key.d")),
            plain("e", string("key.e")),
            plain("f", string("key.f")),
        ]),
        ModuleItem::Decl(Decl::Class(ClassDecl {
            ident: ident("Plain"),
            class: Class { body: vec![read(&["a"])] },
        })),
        ModuleItem::ExportDecl(Decl::Class(ClassDecl {
            ident: ident("Exported"),
            class: Class { body: vec![read(&["b"])] },
        })),
        ModuleItem::ExportDecl(Decl::Fn(FnDecl {
            ident: ident("exported"),
            function: Function { body: vec![read(&["c"])] },
        })),
        ModuleItem::ExportDecl(Decl::Var(VarDecl {
            decls: vec![declarator("first", read(&["d"])), declarator("second", read(&["e"]))],
        })),
        constant("local", call("use", vec![read(&["f"])])),
    ]);
    assert_eq!(
        usage,
        expect(&[
            ("Exported", &["key.b"]),
            ("Plain", &["key.a"]),
            ("exported", &["key.c"]),
            ("first", &["key.d"]),
            ("local", &["key.f"]),
            ("second", &["key.e"]),
        ])
    );
}

#[test]
fn named_default_exports_are_owned_by_their_name() {
    let usage = usage_of(vec![
        labels_decl(vec![plain("a", string("key.a")), plain("b", string("key.b"))]),
        ModuleItem::ExportDefaultDecl(DefaultDecl::Class(ClassExpr {
            ident: Some(ident("Named")),
            class: Class { body: vec![read(&["a"])] },
        })),
        ModuleItem::ExportDefaultDecl(DefaultDecl::Fn(FnExpr {
            ident: Some(ident("named")),
            function: Function { body: vec![read(&["b"])] },
        })),
        ModuleItem::ExportDefaultDecl(DefaultDecl::TsInterfaceDecl),
    ]);
    assert_eq!(usage, expect(&[("Named", &["key.a"]), ("named", &["key.b"])]));
}

#[test]
fn default_exported_literals_are_owned_by_the_anonymous_default_export() {
    let labels = vec![plain("a", string("key.a")), plain("b", string("key.b"))];
    let usage = usage_of(vec![
        labels_decl(labels),
        ModuleItem::ExportDefaultExpr(Node::Array(vec![read(&["a"])])),
        ModuleItem::ExportDefaultExpr(nested(vec![plain("b", read(&["b"]))])),
    ]);
    assert_eq!(usage, expect(&[("default", &["key.a", "key.b"])]));
}

#[test]
fn default_exported_identifier_and_other_expressions_own_nothing() {
    let usage = usage_of(vec![
        labels_decl(vec![plain("a", string("key.a"))]),
        ModuleItem::ExportDefaultExpr(Node::Ident(ident("LABELS"))),
        ModuleItem::ExportDefaultExpr(read(&["a"])),
        ModuleItem::ExportDefaultExpr(call("use", vec![read(&["a"])])),
    ]);
    assert_eq!(usage, expect(&[]));
}

#[test]
fn reads_outside_an_owner_are_not_recorded() {
    let usage = usage_of(vec![
        labels_decl(vec![plain("a", string("key.a"))]),
        ModuleItem::Other(vec![call("use", vec![read(&["a"])])]),
        ModuleItem::Decl(Decl::Other(vec![read(&["a"])])),
        ModuleItem::Decl(Decl::Var(VarDecl {
            decls: vec![VarDeclarator {
                name: Pat::Other(vec![read(&["a"])]),
                init: Some(read(&["a"])),
            }],
        })),
    ]);
    assert_eq!(usage, expect(&[]));
}

#[test]
fn owner_without_a_read_has_no_entry() {
    let usage = usage_of(vec![
        labels_decl(pets()),
        function("Quiet", vec![statement(string("nothing"))]),
        constant("other", Node::Ident(ident("LABELS"))),
    ]);
    assert_eq!(usage, expect(&[]));
}

#[test]
fn reads_are_found_at_any_depth_of_the_body() {
    let body = vec![
        Node::Var(VarDecl {
            decls: vec![
                declarator("inner", read(&["fly", "bird"])),
                VarDeclarator { name: Pat::Other(vec![read(&["walk", "dog"])]), init: None },
            ],
        }),
        Node::Other(vec![Node::Other(vec![Node::Array(vec![nested(vec![
            computed(read(&["walk", "cat"]), string("value")),
            PropOrSpread::Spread(Box::new(Node::Other(vec![]))),
            PropOrSpread::Prop(Prop::Other(vec![])),
        ])])])]),
    ];
    let usage = usage_of(vec![labels_decl(pets()), function("Deep", body)]);
    assert_eq!(usage, expect(&[("Deep", &["i18n.bird", "i18n.cat", "i18n.dog"])]));
}

#[test]
fn nested_declarations_do_not_become_owners() {
    let inner = Node::Other(vec![Node::Var(VarDecl {
        decls: vec![declarator("inner", read(&["walk", "cat"]))],
    })]);
    let usage = usage_of(vec![labels_decl(pets()), function("Outer", vec![inner])]);
    assert_eq!(usage, expect(&[("Outer", &["i18n.cat"])]));
}

#[test]
fn what_stands_inside_a_member_expression_is_not_looked_at() {
    // use(LABELS.fly.bird).length and other[LABELS.walk.cat]
    let through_call = Node::Member(MemberExpr {
        obj: Box::new(call("use", vec![read(&["fly", "bird"])])),
        prop: MemberProp::Ident("length".to_string()),
    });
    let through_index = Node::Member(MemberExpr {
        obj: Box::new(Node::Ident(ident("other"))),
        prop: MemberProp::Computed(Box::new(read(&["walk", "cat"]))),
    });
    let usage = usage_of(vec![
        labels_decl(pets()),
        function("Foo", vec![through_call, through_index, read(&["walk", "dog"])]),
    ]);
    assert_eq!(usage, expect(&[("Foo", &["i18n.dog"])]));
}

#[test]
fn partial_read_records_every_key_beneath() {
    let usage = usage_of(vec![labels_decl(pets()), function("Foo", vec![read(&["walk"])])]);
    assert_eq!(usage, expect(&[("Foo", &["i18n.cat", "i18n.dog"])]));
}

#[test]
fn reads_of_one_owner_are_united() {
    let usage = usage_of(vec![
        labels_decl(pets()),
        function("Foo", vec![read(&["walk", "cat"]), read(&["fly", "bird"])]),
        function("Bar", vec![read(&["walk", "cat"])]),
        function("Foo", vec![read(&["walk", "dog"])]),
    ]);
    assert_eq!(
        usage,
        expect(&[("Bar", &["i18n.cat"]), ("Foo", &["i18n.bird", "i18n.cat", "i18n.dog"])])
    );
}

#[test]
fn another_binding_of_the_same_name_is_not_the_labels() {
    let shadow = Node::Member(MemberExpr {
        obj: Box::new(Node::Ident(Ident { sym: "LABELS".to_string(), ctxt: TOP + 1 })),
        prop: MemberProp::Ident("fly".to_string()),
    });
    let usage = usage_of(vec![
        labels_decl(pets()),
        function("Foo", vec![shadow, read(&["walk", "cat"])]),
    ]);
    assert_eq!(usage, expect(&[("Foo", &["i18n.cat"])]));
}

#[test]
fn failed_lookup_is_reported_and_adds_no_key() {
    let body = vec![
        labels_decl(pets()),
        function("Foo", vec![read(&["swim", "fish"]), read(&["walk", "cat"]), read(&["walk", "x"])]),
        function("Bar", vec![read(&["run"])]),
    ];
    let found = get_labels_usage(&module(body), get_anonymous_default_export_id())
        .unwrap()
        .unwrap();
    assert_eq!(listed(&found.usage), expect(&[("Foo", &["i18n.cat"])]));
    assert_eq!(
        found.failures,
        vec![
            LookupFailure { property: "swim".to_string() },
            LookupFailure { property: "x".to_string() },
            LookupFailure { property: "run".to_string() },
        ]
    );
}

#[test]
fn module_without_labels_has_no_usage() {
    let body = vec![function("Foo", vec![read(&["walk", "cat"])])];
    assert!(get_labels_usage(&module(body), get_anonymous_default_export_id()).unwrap().is_none());
    let body = vec![function("Foo", vec![read(&["walk", "cat"])])];
    assert_eq!(usage_of(body), expect(&[]));
    assert_eq!(usage_of(vec![]), expect(&[]));
}

#[test]
fn translate_without_argument_fails() {
    let body = vec![constant("LABELS", call("translate", vec![]))];
    let error = collect_translation(&module(body), get_anonymous_default_export_id()).unwrap_err();
    assert_eq!(error, AnalysisError::ConventionMismatch(ConventionMismatch::NoArguments));
    assert_eq!(error.message(), "translate should have at least 1 argument");
}

#[test]
fn translate_of_something_else_than_a_literal_fails() {
    let body = vec![constant("LABELS", call("translate", vec![string("i18n.bird")]))];
    let error = get_labels_usage(&module(body), get_anonymous_default_export_id()).unwrap_err();
    assert_eq!(error, AnalysisError::ConventionMismatch(ConventionMismatch::NotObjectLiteral));
    assert_eq!(
        error.message(),
        "const LABELS = translate() should take an object as its first argument"
    );
}

#[test]
fn literal_without_a_tree_fails_the_module() {
    let body = vec![
        function("Foo", vec![read(&["bird"])]),
        labels_decl(vec![
            plain("bird", string("i18n.bird")),
            computed(Node::Other(vec![]), string("i18n.cat")),
        ]),
    ];
    let error = collect_translation(&module(body), get_anonymous_default_export_id()).unwrap_err();
    assert_eq!(error, AnalysisError::Construction(ConstructionError::MixedKeys));
    assert_eq!(error.message(), "mixing string and computed keys is not allowed");
}

#[test]
fn only_the_convention_is_recognised() {
    let args = vec![nested(vec![])];
    assert!(labels_translate_args(&declarator("LABELS", call("translate", args))).is_some());
    let args = vec![nested(vec![])];
    assert!(labels_translate_args(&declarator("labels", call("translate", args))).is_none());
    let args = vec![nested(vec![])];
    assert!(labels_translate_args(&declarator("LABELS", call("t", args))).is_none());
    assert!(labels_translate_args(&declarator("LABELS", nested(vec![]))).is_none());
    let no_init = VarDeclarator { name: Pat::Ident(ident("LABELS")), init: None };
    assert!(labels_translate_args(&no_init).is_none());
    let pattern = VarDeclarator {
        name: Pat::Other(vec![]),
        init: Some(call("translate", vec![nested(vec![])])),
    };
    assert!(labels_translate_args(&pattern).is_none());
    let not_a_name = Node::Call(CallExpr { callee: Callee::Other, args: vec![nested(vec![])] });
    assert!(labels_translate_args(&declarator("LABELS", not_a_name)).is_none());
    let empty = declarator("LABELS", call("translate", vec![]));
    assert_eq!(labels_translate_args(&empty).map(|args| args.len()), Some(0));
    let two = declarator("LABELS", call("translate", vec![string("a"), nested(vec![])]));
    assert_eq!(labels_translate_args(&two).map(|args| args.len()), Some(2));
}

#[test]
fn the_last_declaration_of_labels_is_the_one_that_counts() {
    let usage = usage_of(vec![
        labels_decl(vec![plain("bird", string("old"))]),
        function("Foo", vec![read(&["bird"])]),
        labels_decl(vec![plain("bird", string("new"))]),
    ]);
    assert_eq!(usage, expect(&[("Foo", &["new"])]));
}

#[test]
fn labels_are_found_at_any_depth_but_not_inside_a_declaration() {
    let inside_function = vec![function(
        "setup",
        vec![Node::Other(vec![Node::Var(VarDecl {
            decls: vec![declarator(
                "LABELS",
                call("translate", vec![nested(vec![plain("a", string("key.a"))])]),
            )],
        })])],
    )];
    let mut visitor = LabelVisitor::new();
    visitor.visit_module(&module(inside_function)).unwrap();
    let located = visitor.labels.unwrap();
    assert_eq!(located.id.sym, "LABELS");
    assert_eq!(located.id.ctxt, TOP);
    assert_eq!(
        located.labels,
        collect_labels_from_object_literal(&ObjectLit { props: vec![plain("a", string("key.a"))] })
            .unwrap()
    );

    let inside_declaration = vec![constant(
        "wrapper",
        Node::Other(vec![Node::Var(VarDecl {
            decls: vec![declarator("LABELS", call("translate", vec![]))],
        })]),
    )];
    let mut visitor = LabelVisitor::new();
    visitor.visit_module(&module(inside_declaration)).unwrap();
    assert!(visitor.labels.is_none());
}

#[test]
fn label_visitor_keeps_what_it_found_and_drops_it_on_error() {
    let mut visitor = LabelVisitor::new();
    assert!(visitor.labels.is_none());
    let good = VarDecl {
        decls: vec![declarator(
            "LABELS",
            call("translate", vec![nested(vec![plain("a", string("key.a"))])]),
        )],
    };
    visitor.visit_var_decl(&good).unwrap();
    assert!(visitor.labels.is_some());
    let unrelated = VarDecl { decls: vec![declarator("other", string("x"))] };
    visitor.visit_var_decl(&unrelated).unwrap();
    assert!(visitor.labels.is_some());
    let bad = VarDecl { decls: vec![declarator("LABELS", call("translate", vec![]))] };
    assert_eq!(
        visitor.visit_var_decl(&bad).unwrap_err(),
        AnalysisError::ConventionMismatch(ConventionMismatch::NoArguments)
    );
    assert!(visitor.labels.is_none());
}

#[test]
fn visitor_without_owner_records_nothing() {
    let labels =
        collect_labels_from_object_literal(&ObjectLit { props: pets() }).unwrap();
    let mut visitor =
        LabelUsageVisitor::new(labels, ident("LABELS"), get_anonymous_default_export_id());
    let expression = match read(&["walk", "cat"]) {
        Node::Member(expression) => expression,
        _ => unreachable!(),
    };
    visitor.visit_member_expr(None, &expression);
    visitor.visit_node(None, &read(&["swim"]));
    assert_eq!(visitor.usage.len(), 0);
    assert!(visitor.failures.is_empty());
    let owner = ident("Foo");
    visitor.visit_member_expr(Some(&owner), &expression);
    assert_eq!(listed(&visitor.usage), expect(&[("Foo", &["i18n.cat"])]));
}

#[test]
fn record_adds_keys_to_one_owner() {
    let mut usage = usage_map(&[("Foo", &["a"])]);
    let mut keys = KeySet::new();
    keys.insert("b".to_string());
    record_usage(&mut usage, "Foo", &keys);
    record_usage(&mut usage, "Bar", &keys);
    record_usage(&mut usage, "Baz", &KeySet::new());
    assert_eq!(listed(&usage), expect(&[("Bar", &["b"]), ("Baz", &[]), ("Foo", &["a", "b"])]));
}

#[test]
fn extend_unites_the_keys_of_each_owner() {
    let mut usage = TranslationUsage::new();
    assert_eq!(usage.data.len(), 0);
    usage.extend(usage_map(&[("Foo", &["a", "b"]), ("Bar", &["c"])]));
    usage.extend(usage_map(&[("Foo", &["b", "d"]), ("Baz", &[])]));
    assert_eq!(
        listed(&usage.data),
        expect(&[("Bar", &["c"]), ("Baz", &[]), ("Foo", &["a", "b", "d"])])
    );
}

#[test]
fn extend_never_removes_an_owner_or_a_key() {
    let usage = merged(&[("Foo", &["a"]), ("Bar", &["b"])], StringMap::new());
    assert_eq!(listed(&usage.data), expect(&[("Bar", &["b"]), ("Foo", &["a"])]));
    let usage = merged(&[("Foo", &["a"]), ("Bar", &["b"])], usage_map(&[("Foo", &[])]));
    assert_eq!(listed(&usage.data), expect(&[("Bar", &["b"]), ("Foo", &["a"])]));
}

#[test]
fn merge_is_commutative_associative_and_idempotent() {
    let a: &[(&str, &[&str])] = &[("Foo", &["a", "b"]), ("Bar", &["c"])];
    let b: &[(&str, &[&str])] = &[("Foo", &["b", "d"]), ("Baz", &["e"])];
    let c: &[(&str, &[&str])] = &[("Bar", &["f"]), ("Baz", &["e", "g"]), ("Qux", &[])];

    let a_b = merged(a, usage_map(b));
    let b_a = merged(b, usage_map(a));
    assert_eq!(listed(&a_b.data), listed(&b_a.data));

    let mut left = merged(a, usage_map(b));
    left.extend(usage_map(c));
    let b_c = merged(b, usage_map(c));
    let right = merged(a, b_c.data);
    assert_eq!(listed(&left.data), listed(&right.data));
    assert_eq!(
        listed(&left.data),
        expect(&[
            ("Bar", &["c", "f"]),
            ("Baz", &["e", "g"]),
            ("Foo", &["a", "b", "d"]),
            ("Qux", &[]),
        ])
    );

    let a_a = merged(a, usage_map(a));
    assert_eq!(listed(&a_a.data), listed(&usage_map(a)));
}
