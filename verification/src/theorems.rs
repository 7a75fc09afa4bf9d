//! What holds of the analysis as a whole.
//!
//! The statements speak of any sequence of names that is a report in the
//! sense of [`is_report`], which is what [`reconcile`] and
//! [`find_unused_imports`] return.
//!
//! [`reconcile`]: crate::reconcile::reconcile
//! [`find_unused_imports`]: crate::reconcile::find_unused_imports

use vstd::prelude::*;
use vstd::seq_lib::to_multiset_contains;
use crate::ast::{Module, Node};
use crate::bindings::{
    bind_items,
    item_binds,
    items_bind,
    lemma_bind_items_domain,
    lemma_items_decide_alone,
    lemma_unbound_names_keep_binding,
    module_bindings,
    BindingView,
};
use crate::reconcile::{is_module_report, is_report, module_unused_names, unused_names};
use crate::usages::{module_usages, node_uses};

verus! {

/// A report holds a name once if the name is bound and not used, and not at
/// all otherwise.
pub proof fn lemma_report_counts(
    report: Seq<Seq<char>>,
    bindings: Map<Seq<char>, BindingView>,
    usages: Set<Seq<char>>,
    name: Seq<char>,
)
    requires
        is_report(report, bindings, usages),
    ensures
        report.to_multiset().count(name) == if bindings.contains_key(name) && !usages.contains(
            name,
        ) {
            1nat
        } else {
            0nat
        },
{
    to_multiset_contains(report, name);
    report.lemma_multiset_has_no_duplicates();
    assert(report.contains(name) <==> report.to_set().contains(name));
}

/// A module without a top-level import declaration binds no name, and its
/// report is empty.
pub proof fn lemma_no_imports_empty_report(module: Module, report: Seq<Seq<char>>)
    requires
        forall|i: int| 0 <= i < module.body.len() ==> !(#[trigger] module.body[i] is Import),
        is_module_report(report, module),
    ensures
        module_bindings(module) == Map::<Seq<char>, BindingView>::empty(),
        report == Seq::<Seq<char>>::empty(),
{
    assert forall|name: Seq<char>| !module_bindings(module).contains_key(name) by {
        lemma_bind_items_domain(Map::empty(), module.body@, name);
    }
    assert(module_bindings(module) =~= Map::<Seq<char>, BindingView>::empty());
    if report.len() > 0 {
        assert(report.to_set().contains(report[0]));
    }
    assert(report =~= Seq::<Seq<char>>::empty());
}

/// A name that a top-level import declaration binds and that the module
/// uses in no position stands in the report exactly once, however often it
/// is imported.
pub proof fn lemma_unused_import_reported_once(
    module: Module,
    report: Seq<Seq<char>>,
    name: Seq<char>,
)
    requires
        is_module_report(report, module),
        items_bind(module.body@, name),
        !module_usages(module).contains(name),
    ensures
        report.to_multiset().count(name) == 1,
{
    lemma_bind_items_domain(Map::empty(), module.body@, name);
    lemma_report_counts(report, module_bindings(module), module_usages(module), name);
}

/// A name that no top-level import declaration binds, or that the module
/// uses, does not stand in the report.
pub proof fn lemma_other_names_not_reported(
    module: Module,
    report: Seq<Seq<char>>,
    name: Seq<char>,
)
    requires
        is_module_report(report, module),
        !items_bind(module.body@, name) || module_usages(module).contains(name),
    ensures
        !report.contains(name),
{
    lemma_bind_items_domain(Map::empty(), module.body@, name);
    assert(report.contains(name) <==> report.to_set().contains(name));
}

/// The report is determined by the bindings and the usages up to the order
/// of its names: two reports of the same bindings and usages hold the same
/// names, each of them as often.  Only the bound names count, not what is
/// bound to them.
pub proof fn lemma_reports_agree(
    first: Seq<Seq<char>>,
    second: Seq<Seq<char>>,
    first_bindings: Map<Seq<char>, BindingView>,
    second_bindings: Map<Seq<char>, BindingView>,
    usages: Set<Seq<char>>,
)
    requires
        is_report(first, first_bindings, usages),
        is_report(second, second_bindings, usages),
        first_bindings.dom() == second_bindings.dom(),
    ensures
        first.to_set() == second.to_set(),
        first.to_multiset() == second.to_multiset(),
        first.len() == second.len(),
{
    assert(unused_names(first_bindings, usages) =~= unused_names(second_bindings, usages));
    assert forall|name: Seq<char>|
        first.to_multiset().count(name) == second.to_multiset().count(name) by {
        lemma_report_counts(first, first_bindings, usages, name);
        lemma_report_counts(second, second_bindings, usages, name);
        assert(first_bindings.contains_key(name) <==> second_bindings.contains_key(name));
    }
    assert(first.to_multiset() =~= second.to_multiset());
    first.to_multiset_ensures();
    second.to_multiset_ensures();
}

/// The order of the top-level items of a module changes neither the names
/// it uses, nor the names it binds, nor the names that are unused.
pub proof fn lemma_item_order_is_irrelevant(first: Module, second: Module)
    requires
        first.body@.to_multiset() == second.body@.to_multiset(),
    ensures
        module_usages(first) == module_usages(second),
        module_bindings(first).dom() == module_bindings(second).dom(),
        module_unused_names(first) == module_unused_names(second),
{
    let a = first.body@;
    let b = second.body@;
    assert forall|node: Node| a.contains(node) <==> b.contains(node) by {
        to_multiset_contains(a, node);
        to_multiset_contains(b, node);
    }
    assert forall|name: Seq<char>|
        module_usages(first).contains(name) <==> module_usages(second).contains(name) by {
        lemma_same_nodes_same_usages(a, b, name);
        lemma_same_nodes_same_usages(b, a, name);
    }
    assert(module_usages(first) =~= module_usages(second));
    assert forall|name: Seq<char>|
        module_bindings(first).contains_key(name) <==> module_bindings(second).contains_key(
            name,
        ) by {
        lemma_bind_items_domain(Map::empty(), a, name);
        lemma_bind_items_domain(Map::empty(), b, name);
        lemma_same_nodes_same_names(a, b, name);
        lemma_same_nodes_same_names(b, a, name);
    }
    assert(module_bindings(first).dom() =~= module_bindings(second).dom());
    assert(module_unused_names(first) =~= module_unused_names(second));
}

/// Two walks over one module give the same bindings and the same usages:
/// what a collector returns is a function of the tree, which no walk
/// changes.
pub proof fn lemma_walks_are_repeatable(
    module: Module,
    first_bindings: Map<Seq<char>, BindingView>,
    first_usages: Set<Seq<char>>,
    second_bindings: Map<Seq<char>, BindingView>,
    second_usages: Set<Seq<char>>,
)
    requires
        first_bindings == module_bindings(module),
        first_usages == module_usages(module),
        second_bindings == module_bindings(module),
        second_usages == module_usages(module),
    ensures
        first_bindings == second_bindings,
        first_usages == second_usages,
{
}

/// A collector that walks a module a second time ends where it was after
/// the first walk.
pub proof fn lemma_second_walk_changes_nothing(
    bindings: Map<Seq<char>, BindingView>,
    usages: Set<Seq<char>>,
    module: Module,
)
    ensures
        bind_items(bind_items(bindings, module.body@), module.body@) == bind_items(
            bindings,
            module.body@,
        ),
        (usages + module_usages(module)) + module_usages(module) == usages + module_usages(
            module,
        ),
{
    let items = module.body@;
    let once = bind_items(bindings, items);
    let twice = bind_items(once, items);
    assert forall|name: Seq<char>| #[trigger]
        twice.contains_key(name) == once.contains_key(name) && (once.contains_key(name)
            ==> twice[name] == once[name]) by {
        lemma_bind_items_domain(bindings, items, name);
        lemma_bind_items_domain(once, items, name);
        if items_bind(items, name) {
            lemma_items_decide_alone(once, bindings, items, name);
        } else {
            lemma_unbound_names_keep_binding(once, items, name);
        }
    }
    assert(twice =~= once);
}

/// A name that a node of `a` uses is used by a node of `b`, where `b` holds
/// every node of `a`.
proof fn lemma_same_nodes_same_usages(a: Seq<Node>, b: Seq<Node>, name: Seq<char>)
    requires
        forall|node: Node| a.contains(node) ==> b.contains(node),
    ensures
        (exists|i: int| 0 <= i < a.len() && node_uses(#[trigger] a[i], name)) ==> (exists|i: int|
            0 <= i < b.len() && node_uses(#[trigger] b[i], name)),
{
    if exists|i: int| 0 <= i < a.len() && node_uses(#[trigger] a[i], name) {
        let i = choose|i: int| 0 <= i < a.len() && node_uses(#[trigger] a[i], name);
        assert(a.contains(a[i]));
        let j = choose|j: int| 0 <= j < b.len() && b[j] == a[i];
        assert(node_uses(b[j], name));
    }
}

/// A name that an import declaration of `a` binds is bound by an import
/// declaration of `b`, where `b` holds every node of `a`.
proof fn lemma_same_nodes_same_names(a: Seq<Node>, b: Seq<Node>, name: Seq<char>)
    requires
        forall|node: Node| a.contains(node) ==> b.contains(node),
    ensures
        items_bind(a, name) ==> items_bind(b, name),
{
    if items_bind(a, name) {
        let i = choose|i: int| 0 <= i < a.len() && item_binds(#[trigger] a[i], name);
        assert(a.contains(a[i]));
        let j = choose|j: int| 0 <= j < b.len() && b[j] == a[i];
        assert(item_binds(b[j], name));
    }
}

} // verus!
