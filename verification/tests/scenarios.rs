//! Whole modules, written as trees, and the reports they give.

use unused_imports::ast::{
    ImportDecl, ImportSpecifier, MemberExpr, MemberProp, Module, NewExpr, Node, TaggedTpl,
    TsEntityName, TsQualifiedName, TsTypeRef,
};
use unused_imports::reconcile::find_unused_imports;

fn named_import(local: &str, src: &str) -> Node {
    Node::Import(ImportDecl {
        specifiers: vec![ImportSpecifier::Named { local: local.to_string(), imported: None }],
        src: src.to_string(),
        type_only: false,
    })
}

fn namespace_import(local: &str, src: &str) -> Node {
    Node::Import(ImportDecl {
        specifiers: vec![ImportSpecifier::Namespace { local: local.to_string() }],
        src: src.to_string(),
        type_only: false,
    })
}

fn ident(name: &str) -> Node {
    Node::Ident(name.to_string())
}

fn type_ref(name: &str, type_params: Vec<Node>) -> Node {
    Node::TsTypeRef(TsTypeRef { name: TsEntityName::Ident(name.to_string()), type_params })
}

fn sorted(mut names: Vec<String>) -> Vec<String> {
    names.sort();
    names
}

/// `import { A } from 'm'; const x = new A();`
#[test]
fn new_expression_uses_its_callee() {
    let module = Module::new(vec![
        named_import("A", "m"),
        Node::Other(vec![Node::New(NewExpr { callee: Box::new(ident("A")), args: vec![] })]),
    ]);
    assert_eq!(find_unused_imports(&module), Vec::<String>::new());
}

/// `import { A } from 'm'; import { B } from 'n';`
#[test]
fn imports_without_other_code_are_all_unused() {
    let module = Module::new(vec![named_import("A", "m"), named_import("B", "n")]);
    assert_eq!(
        sorted(find_unused_imports(&module)),
        vec!["A".to_string(), "B".to_string()]
    );
}

/// `import * as NS from 'm'; type T = NS.Thing;`
#[test]
fn qualified_type_reference_uses_its_namespace() {
    let qualified = TsEntityName::TsQualifiedName(Box::new(TsQualifiedName {
        left: TsEntityName::Ident("NS".to_string()),
        right: "Thing".to_string(),
    }));
    let module = Module::new(vec![
        namespace_import("NS", "m"),
        Node::Other(vec![Node::TsTypeRef(TsTypeRef { name: qualified, type_params: vec![] })]),
    ]);
    assert_eq!(find_unused_imports(&module), Vec::<String>::new());
}

/// `import { Theme } from 'm'; type P = Partial<Theme>;`
#[test]
fn type_argument_is_not_a_use() {
    let module = Module::new(vec![
        named_import("Theme", "m"),
        Node::Other(vec![type_ref("Partial", vec![type_ref("Theme", vec![])])]),
    ]);
    assert_eq!(find_unused_imports(&module), vec!["Theme".to_string()]);
}

/// ``import { styled } from 'm'; const D = styled.div`color:red;`;``
#[test]
fn tagged_template_uses_the_object_of_its_tag() {
    let tag = Node::Member(MemberExpr {
        obj: Box::new(ident("styled")),
        prop: MemberProp::Ident("div".to_string()),
    });
    let module = Module::new(vec![
        named_import("styled", "m"),
        Node::Other(vec![Node::TaggedTpl(TaggedTpl { tag: Box::new(tag), exprs: vec![] })]),
    ]);
    assert_eq!(find_unused_imports(&module), Vec::<String>::new());
}

/// `import { B } from 'm'; new A(B);`
#[test]
fn argument_of_new_is_a_use() {
    let module = Module::new(vec![
        named_import("B", "m"),
        Node::Other(vec![Node::New(NewExpr { callee: Box::new(ident("A")), args: vec![ident("B")] })]),
    ]);
    assert_eq!(find_unused_imports(&module), Vec::<String>::new());
}

/// ``import { X } from 'm'; css`a ${X} b`;``
#[test]
fn substitution_of_a_tagged_template_is_a_use() {
    let module = Module::new(vec![
        named_import("X", "m"),
        Node::Other(vec![Node::TaggedTpl(TaggedTpl {
            tag: Box::new(ident("css")),
            exprs: vec![ident("X")],
        })]),
    ]);
    assert_eq!(find_unused_imports(&module), Vec::<String>::new());
}

/// `import { Cls, ns } from 'm'; new ns.Cls();`
#[test]
fn member_callee_of_new_is_no_use() {
    let callee = Node::Member(MemberExpr {
        obj: Box::new(ident("ns")),
        prop: MemberProp::Ident("Cls".to_string()),
    });
    let module = Module::new(vec![
        Node::Import(ImportDecl {
            specifiers: vec![
                ImportSpecifier::Named { local: "Cls".to_string(), imported: None },
                ImportSpecifier::Named { local: "ns".to_string(), imported: None },
            ],
            src: "m".to_string(),
            type_only: false,
        }),
        Node::Other(vec![Node::New(NewExpr { callee: Box::new(callee), args: vec![] })]),
    ]);
    assert_eq!(sorted(find_unused_imports(&module)), vec!["Cls".to_string(), "ns".to_string()]);
}
