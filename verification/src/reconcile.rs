//! The report of unused imports.
//!
//! A bound name is unused when the usage set does not hold that exact
//! string.  The comparison is case-sensitive; nothing is normalised.

use vstd::prelude::*;
use crate::ast::Module;
use crate::bindings::{
    collect_bindings,
    distinct_names,
    has_name,
    module_bindings,
    BindingMap,
    BindingView,
};
use crate::usages::{collect_usages, module_usages, UsageSet};

verus! {

/// The bound names that are not used.
pub open spec fn unused_names(
    bindings: Map<Seq<char>, BindingView>,
    usages: Set<Seq<char>>,
) -> Set<Seq<char>> {
    Set::new(|name: Seq<char>| bindings.contains_key(name) && !usages.contains(name))
}

/// The names that the top-level imports of `module` bind and that `module`
/// does not use.
pub open spec fn module_unused_names(module: Module) -> Set<Seq<char>> {
    unused_names(module_bindings(module), module_usages(module))
}

/// Whether `report` lists every unused name, each of them once, and nothing
/// else.  The order of the names is left open.
pub open spec fn is_report(
    report: Seq<Seq<char>>,
    bindings: Map<Seq<char>, BindingView>,
    usages: Set<Seq<char>>,
) -> bool {
    &&& report.no_duplicates()
    &&& report.to_set() == unused_names(bindings, usages)
}

/// Whether `report` is a report of the unused imports of `module`.
pub open spec fn is_module_report(report: Seq<Seq<char>>, module: Module) -> bool {
    is_report(report, module_bindings(module), module_usages(module))
}

/// The local names of `bindings` that `usages` does not hold, each of them
/// once.
///
/// The report holds names only.  What a reported name is bound to (the form
/// of the import and the module it comes from) stays in `bindings`, where
/// [`BindingMap::get`] finds it.
pub fn reconcile(bindings: &BindingMap, usages: &UsageSet) -> (unused: Vec<String>)
    ensures
        is_report(unused.deep_view(), bindings@, usages@),
{
    let entries = bindings.entries();
    let mut unused: Vec<String> = Vec::new();
    let n = entries.len();
    let mut i: usize = 0;
    assert(unused.deep_view() =~= Seq::<Seq<char>>::empty());
    while i < n
        invariant
            i <= n,
            n == entries.len(),
            distinct_names(entries@),
            unused.deep_view().no_duplicates(),
            forall|name: Seq<char>|
                unused.deep_view().contains(name) <==> has_name(entries@.take(i as int), name)
                    && !usages@.contains(name),
        decreases n - i,
    {
        let ghost reported = unused.deep_view();
        let ghost seen = entries@.take(i as int);
        let ghost local = entries[i as int].local_name@;
        let binding = &entries[i];
        let is_unused = !usages.contains(binding.local_name.as_str());
        if is_unused {
            unused.push(binding.local_name.clone());
        }
        proof {
            let next = entries@.take(i + 1);
            assert forall|name: Seq<char>| has_name(next, name) <==> has_name(seen, name) || name
                == local by {
                if has_name(next, name) {
                    let j = choose|j: int|
                        0 <= j < next.len() && #[trigger] next[j].local_name@ == name;
                    if j < i {
                        assert(seen[j].local_name@ == name);
                    }
                }
                if has_name(seen, name) {
                    let j = choose|j: int|
                        0 <= j < seen.len() && #[trigger] seen[j].local_name@ == name;
                    assert(next[j].local_name@ == name);
                }
                if name == local {
                    assert(next[i as int].local_name@ == name);
                }
            }
            if has_name(seen, local) {
                let j = choose|j: int|
                    0 <= j < seen.len() && #[trigger] seen[j].local_name@ == local;
                assert(entries[j].local_name@ == entries[i as int].local_name@);
            }
            if is_unused {
                assert(unused.deep_view() =~= reported.push(local));
                assert(!reported.contains(local));
                assert forall|name: Seq<char>|
                    reported.push(local).contains(name) <==> reported.contains(name) || name
                        == local by {
                    if reported.contains(name) {
                        let j = choose|j: int| 0 <= j < reported.len() && reported[j] == name;
                        assert(reported.push(local)[j] == name);
                    }
                    if name == local {
                        assert(reported.push(local)[reported.len() as int] == name);
                    }
                }
            } else {
                assert(unused.deep_view() =~= reported);
            }
            assert forall|name: Seq<char>|
                unused.deep_view().contains(name) <==> has_name(next, name) && !usages@.contains(
                    name,
                ) by {
                if name == local {
                    assert(has_name(next, name));
                    assert(is_unused == !usages@.contains(name));
                    assert(!reported.contains(name));
                } else {
                    assert(has_name(next, name) <==> has_name(seen, name));
                    assert(unused.deep_view().contains(name) <==> reported.contains(name));
                }
            }
        }
        i += 1;
    }
    proof {
        assert(entries@.take(n as int) =~= entries@);
        assert(unused.deep_view().to_set() =~= unused_names(bindings@, usages@));
    }
    unused
}

/// The names that the top-level imports of `module` bind and that `module`
/// does not use, each of them once.
pub fn find_unused_imports(module: &Module) -> (unused: Vec<String>)
    ensures
        is_module_report(unused.deep_view(), *module),
{
    let bindings = collect_bindings(module);
    let usages = collect_usages(module);
    reconcile(&bindings, &usages)
}

} // verus!
