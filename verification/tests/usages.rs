//! The usage collector, rule by rule.

use unused_imports::ast::{
    ImportDecl, ImportSpecifier, MemberExpr, MemberProp, Module, NewExpr, Node, TaggedTpl,
    TsEntityName, TsExprWithTypeArgs, TsInterfaceDecl, TsPropertySignature, TsQualifiedName,
    TsTypeAnn, TsTypeElement, TsTypeRef,
};
use unused_imports::usages::{collect_usages, IdentifierCollector, UsageSet};

fn id(name: &str) -> Node {
    Node::Ident(name.to_string())
}

fn member(obj: Node, prop: &str) -> Node {
    Node::Member(MemberExpr { obj: Box::new(obj), prop: MemberProp::Ident(prop.to_string()) })
}

fn simple_type(name: &str) -> TsTypeRef {
    TsTypeRef { name: TsEntityName::Ident(name.to_string()), type_params: vec![] }
}

fn qualified(left: TsEntityName, right: &str) -> TsEntityName {
    TsEntityName::TsQualifiedName(Box::new(TsQualifiedName { left, right: right.to_string() }))
}

fn annotation(ty: Node) -> TsTypeAnn {
    TsTypeAnn { type_ann: Box::new(ty) }
}

fn heritage(expr: Node) -> TsExprWithTypeArgs {
    TsExprWithTypeArgs { expr: Box::new(expr), type_args: vec![] }
}

fn property(key: &str, type_ann: Option<TsTypeAnn>) -> TsTypeElement {
    TsTypeElement::TsPropertySignature(TsPropertySignature { key: Box::new(id(key)), type_ann })
}

/// Checks that `usages` holds exactly `expected`.
fn assert_names(usages: &UsageSet, expected: &[&str]) {
    for name in expected {
        assert!(usages.contains(name), "missing {}", name);
    }
    assert_eq!(usages.len(), expected.len());
}

fn usages_of(node: Node) -> UsageSet {
    let mut collector = IdentifierCollector::new();
    collector.visit_node(&node);
    collector.used_identifiers
}

#[test]
fn new_identifier_collector_is_empty() {
    let collector = IdentifierCollector::new();
    assert_eq!(collector.used_identifiers.len(), 0);
    assert!(!collector.used_identifiers.contains("A"));
}

#[test]
fn usage_set_insert_tells_whether_the_name_is_new() {
    let mut usages = UsageSet::new();
    assert!(usages.insert("a".to_string()));
    assert!(!usages.insert("a".to_string()));
    assert!(usages.insert("A".to_string()));
    assert_names(&usages, &["a", "A"]);
}

#[test]
fn identifier_is_recorded() {
    assert_names(&usages_of(id("a")), &["a"]);
}

#[test]
fn visit_ident_keeps_earlier_names() {
    let mut collector = IdentifierCollector::new();
    collector.visit_ident("a");
    collector.visit_ident("b");
    collector.visit_ident("a");
    assert_names(&collector.used_identifiers, &["a", "b"]);
}

/// `new A(B)`
#[test]
fn new_records_the_callee_and_walks_the_arguments() {
    let node = Node::New(NewExpr { callee: Box::new(id("A")), args: vec![id("B")] });
    assert_names(&usages_of(node), &["A", "B"]);
}

/// `new A(b.c, new D(e), f(g))`
#[test]
fn new_walks_its_arguments_in_depth() {
    let node = Node::New(NewExpr {
        callee: Box::new(id("A")),
        args: vec![
            member(id("b"), "c"),
            Node::New(NewExpr { callee: Box::new(id("D")), args: vec![id("e")] }),
            Node::Other(vec![id("f"), id("g")]),
        ],
    });
    let usages = usages_of(node);
    assert_names(&usages, &["A", "b", "D", "e", "f", "g"]);
    assert!(!usages.contains("c"));
}

/// `new ns.Cls()`
#[test]
fn new_with_member_callee_records_nothing() {
    let node = Node::New(NewExpr { callee: Box::new(member(id("ns"), "Cls")), args: vec![] });
    assert_names(&usages_of(node), &[]);
}

/// `new ns.Cls(B)`
#[test]
fn new_with_member_callee_still_walks_the_arguments() {
    let node = Node::New(NewExpr {
        callee: Box::new(member(id("ns"), "Cls")),
        args: vec![id("B")],
    });
    let usages = usages_of(node);
    assert_names(&usages, &["B"]);
    assert!(!usages.contains("ns"));
    assert!(!usages.contains("Cls"));
}

#[test]
fn visit_new_expr_keeps_earlier_names() {
    let mut collector = IdentifierCollector::new();
    collector.visit_ident("z");
    collector.visit_new_expr(&NewExpr { callee: Box::new(id("A")), args: vec![id("B")] });
    assert_names(&collector.used_identifiers, &["z", "A", "B"]);
}

#[test]
fn import_declaration_is_no_usage() {
    for type_only in [false, true] {
        let node = Node::Import(ImportDecl {
            specifiers: vec![
                ImportSpecifier::Named { local: "a".to_string(), imported: Some("b".to_string()) },
                ImportSpecifier::Default { local: "d".to_string() },
                ImportSpecifier::Namespace { local: "ns".to_string() },
            ],
            src: "m".to_string(),
            type_only,
        });
        assert_names(&usages_of(node), &[]);
    }
}

/// `Theme`
#[test]
fn type_reference_records_its_name() {
    assert_names(&usages_of(Node::TsTypeRef(simple_type("Theme"))), &["Theme"]);
}

/// `Partial<Theme>`
#[test]
fn type_reference_does_not_record_its_arguments() {
    let node = Node::TsTypeRef(TsTypeRef {
        name: TsEntityName::Ident("Partial".to_string()),
        type_params: vec![Node::TsTypeRef(simple_type("Theme"))],
    });
    assert_names(&usages_of(node), &["Partial"]);
}

/// `Namespace.Member`
#[test]
fn qualified_type_reference_records_both_ends() {
    let node = Node::TsTypeRef(TsTypeRef {
        name: qualified(TsEntityName::Ident("Namespace".to_string()), "Member"),
        type_params: vec![],
    });
    assert_names(&usages_of(node), &["Namespace", "Member"]);
}

/// `A.B.C`
#[test]
fn deeper_qualified_name_records_leftmost_and_rightmost() {
    let node = Node::TsTypeRef(TsTypeRef {
        name: qualified(qualified(TsEntityName::Ident("A".to_string()), "B"), "C"),
        type_params: vec![],
    });
    let usages = usages_of(node);
    assert_names(&usages, &["A", "C"]);
    assert!(!usages.contains("B"));
}

/// `: User`
#[test]
fn type_annotation_with_reference() {
    let node = Node::TsTypeAnn(annotation(Node::TsTypeRef(simple_type("User"))));
    assert_names(&usages_of(node), &["User"]);
}

/// `: A | B`
#[test]
fn type_annotation_with_other_type_records_nothing() {
    let union = Node::Other(vec![
        Node::TsTypeRef(simple_type("A")),
        Node::TsTypeRef(simple_type("B")),
    ]);
    assert_names(&usages_of(Node::TsTypeAnn(annotation(union))), &[]);
}

/// `type T = A | B`: outside an annotation the union is walked.
#[test]
fn union_outside_an_annotation_is_walked() {
    let union = Node::Other(vec![
        Node::TsTypeRef(simple_type("A")),
        Node::TsTypeRef(simple_type("B")),
    ]);
    assert_names(&usages_of(union), &["A", "B"]);
}

/// `interface Props extends BaseProps, ns.Other { user: User; plain; colors?: Colors; m(): R }`
#[test]
fn interface_records_extends_and_property_types() {
    let node = Node::TsInterfaceDecl(TsInterfaceDecl {
        id: "Props".to_string(),
        extends: vec![heritage(id("BaseProps")), heritage(member(id("ns"), "Other"))],
        body: vec![
            property("user", Some(annotation(Node::TsTypeRef(simple_type("User"))))),
            property("plain", None),
            property("colors", Some(annotation(Node::TsTypeRef(simple_type("Colors"))))),
            TsTypeElement::Other(vec![Node::TsTypeAnn(annotation(Node::TsTypeRef(
                simple_type("R"),
            )))]),
        ],
    });
    let usages = usages_of(node);
    assert_names(&usages, &["BaseProps", "User", "Colors"]);
    assert!(!usages.contains("Props"));
    assert!(!usages.contains("ns"));
    assert!(!usages.contains("R"));
    assert!(!usages.contains("user"));
}

#[test]
fn empty_interface_records_nothing() {
    let node = Node::TsInterfaceDecl(TsInterfaceDecl {
        id: "Empty".to_string(),
        extends: vec![],
        body: vec![],
    });
    assert_names(&usages_of(node), &[]);
}

/// `class C implements Base<Arg>`
#[test]
fn heritage_entry_records_identifier_only() {
    let node = Node::TsExprWithTypeArgs(TsExprWithTypeArgs {
        expr: Box::new(id("Base")),
        type_args: vec![Node::TsTypeRef(simple_type("Arg"))],
    });
    assert_names(&usages_of(node), &["Base"]);
}

/// ``css`a ${X} b` ``
#[test]
fn tagged_template_with_identifier_tag() {
    let node = Node::TaggedTpl(TaggedTpl { tag: Box::new(id("css")), exprs: vec![id("X")] });
    assert_names(&usages_of(node), &["css", "X"]);
}

/// ``css`...` `` without substitutions
#[test]
fn tagged_template_without_substitutions() {
    let node = Node::TaggedTpl(TaggedTpl { tag: Box::new(id("css")), exprs: vec![] });
    assert_names(&usages_of(node), &["css"]);
}

/// ``styled.div`${a.b} ${css`${c}`}` ``
#[test]
fn tagged_template_walks_its_substitutions_in_depth() {
    let inner = Node::TaggedTpl(TaggedTpl { tag: Box::new(id("css")), exprs: vec![id("c")] });
    let node = Node::TaggedTpl(TaggedTpl {
        tag: Box::new(member(id("styled"), "div")),
        exprs: vec![member(id("a"), "b"), inner],
    });
    let usages = usages_of(node);
    assert_names(&usages, &["styled", "a", "css", "c"]);
    assert!(!usages.contains("div"));
    assert!(!usages.contains("b"));
}

/// ``f()`${x}` ``
#[test]
fn tagged_template_with_other_tag_still_walks_the_substitutions() {
    let node = Node::TaggedTpl(TaggedTpl {
        tag: Box::new(Node::Other(vec![id("f")])),
        exprs: vec![id("x")],
    });
    let usages = usages_of(node);
    assert_names(&usages, &["x"]);
    assert!(!usages.contains("f"));
}

/// ``styled.div`...` ``
#[test]
fn tagged_template_with_member_tag() {
    let node = Node::TaggedTpl(TaggedTpl {
        tag: Box::new(member(id("styled"), "div")),
        exprs: vec![],
    });
    let usages = usages_of(node);
    assert_names(&usages, &["styled"]);
    assert!(!usages.contains("div"));
}

/// ``a.b.c`...` `` and ``f()`...` ``
#[test]
fn tagged_template_with_other_tag_records_nothing() {
    let nested = Node::TaggedTpl(TaggedTpl {
        tag: Box::new(member(member(id("a"), "b"), "c")),
        exprs: vec![],
    });
    assert_names(&usages_of(nested), &[]);
    let call = Node::TaggedTpl(TaggedTpl {
        tag: Box::new(Node::Other(vec![id("f")])),
        exprs: vec![],
    });
    assert_names(&usages_of(call), &[]);
}

/// `a.b`, `a.#p` and `a[k]`
#[test]
fn member_expression_walks_object_and_computed_property() {
    assert_names(&usages_of(member(id("a"), "b")), &["a"]);
    let private = Node::Member(MemberExpr {
        obj: Box::new(id("a")),
        prop: MemberProp::PrivateName("p".to_string()),
    });
    assert_names(&usages_of(private), &["a"]);
    let computed = Node::Member(MemberExpr {
        obj: Box::new(id("a")),
        prop: MemberProp::Computed(Box::new(id("k"))),
    });
    assert_names(&usages_of(computed), &["a", "k"]);
}

#[test]
fn other_nodes_are_walked_in_depth() {
    let node = Node::Other(vec![
        Node::Other(vec![id("a"), Node::Other(vec![id("b")])]),
        Node::Other(vec![]),
        member(Node::Other(vec![id("c")]), "d"),
    ]);
    assert_names(&usages_of(node), &["a", "b", "c"]);
}

#[test]
fn usage_set_len_counts_each_name_once() {
    let mut usages = UsageSet::new();
    assert_eq!(usages.len(), 0);
    usages.insert("a".to_string());
    usages.insert("b".to_string());
    usages.insert("a".to_string());
    assert_eq!(usages.len(), 2);
}

#[test]
fn usages_are_case_sensitive() {
    let usages = usages_of(id("Foo"));
    assert!(usages.contains("Foo"));
    assert!(!usages.contains("foo"));
    assert!(!usages.contains("Fo"));
}

#[test]
fn empty_module_uses_nothing() {
    assert_names(&collect_usages(&Module::new(vec![])), &[]);
}

#[test]
fn collecting_usages_twice_gives_the_same_set() {
    let module = Module::new(vec![
        Node::Other(vec![id("a"), Node::New(NewExpr { callee: Box::new(id("B")), args: vec![] })]),
        Node::TsTypeRef(simple_type("T")),
        id("a"),
    ]);
    let first = collect_usages(&module);
    let second = collect_usages(&module);
    assert_names(&first, &["a", "B", "T"]);
    assert_names(&second, &["a", "B", "T"]);
}

#[test]
fn second_walk_leaves_the_usages_alone() {
    let module = Module::new(vec![id("a"), Node::TsTypeRef(simple_type("T"))]);
    let mut collector = IdentifierCollector::new();
    collector.visit_module(&module);
    collector.visit_module(&module);
    assert_names(&collector.used_identifiers, &["a", "T"]);
}

#[test]
fn order_of_items_does_not_change_the_usages() {
    let forward = Module::new(vec![id("a"), Node::TsTypeRef(simple_type("T")), id("b")]);
    let backward = Module::new(vec![id("b"), Node::TsTypeRef(simple_type("T")), id("a")]);
    assert_names(&collect_usages(&forward), &["a", "b", "T"]);
    assert_names(&collect_usages(&backward), &["a", "b", "T"]);
}
