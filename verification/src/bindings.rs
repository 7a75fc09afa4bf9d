//! The import bindings of a module.
//!
//! An import declaration introduces one local name per specifier.  The
//! collector walks the top-level import declarations of a module in source
//! order and keeps, for every local name, the binding that was declared
//! last.

use vstd::prelude::*;
use crate::ast::{ImportDecl, ImportSpecifier, Module, Node};

verus! {

/// The form of an import.
///
/// `Named` carries the name under which the other module exports the value;
/// `Default` and `Namespace` carry the local name itself.
#[derive(Debug, Clone, PartialEq, Eq)]
pub enum ImportSpecifierType {
    /// `import { foo } from 'module'`
    Named(String),
    /// `import foo from 'module'`
    Default(String),
    /// `import * as foo from 'module'`
    Namespace(String),
}

/// The mathematical value of an [`ImportSpecifierType`].
pub enum ShapeView {
    Named(Seq<char>),
    Default(Seq<char>),
    Namespace(Seq<char>),
}

impl View for ImportSpecifierType {
    type V = ShapeView;

    open spec fn view(&self) -> ShapeView {
        match self {
            ImportSpecifierType::Named(name) => ShapeView::Named(name@),
            ImportSpecifierType::Default(name) => ShapeView::Default(name@),
            ImportSpecifierType::Namespace(name) => ShapeView::Namespace(name@),
        }
    }
}

/// A local name introduced by an import declaration.
#[derive(Debug, Clone, PartialEq, Eq)]
pub struct ImportBinding {
    /// The name that the module body uses.
    pub local_name: String,
    pub shape: ImportSpecifierType,
    /// The module specifier string of the declaration.
    pub source_module: String,
}

/// The mathematical value of an [`ImportBinding`].
pub struct BindingView {
    pub local_name: Seq<char>,
    pub shape: ShapeView,
    pub source_module: Seq<char>,
}

impl View for ImportBinding {
    type V = BindingView;

    open spec fn view(&self) -> BindingView {
        BindingView {
            local_name: self.local_name@,
            shape: self.shape@,
            source_module: self.source_module@,
        }
    }
}

/// No two entries have the same local name.
pub open spec fn distinct_names(entries: Seq<ImportBinding>) -> bool {
    forall|i: int, j: int|
        0 <= i < j < entries.len() ==> entries[i].local_name@ != entries[j].local_name@
}

/// Whether some entry has the local name `name`.
pub open spec fn has_name(entries: Seq<ImportBinding>, name: Seq<char>) -> bool {
    exists|i: int| 0 <= i < entries.len() && #[trigger] entries[i].local_name@ == name
}

/// The map from local name to binding that a list of entries stands for.
pub open spec fn entries_map(entries: Seq<ImportBinding>) -> Map<Seq<char>, BindingView> {
    Map::new(
        |name: Seq<char>| has_name(entries, name),
        |name: Seq<char>|
            entries[choose|i: int|
                0 <= i < entries.len() && #[trigger] entries[i].local_name@ == name]@,
    )
}

/// The bindings of a module, keyed by local name.
#[derive(Debug)]
pub struct BindingMap {
    entries: Vec<ImportBinding>,
}

impl View for BindingMap {
    type V = Map<Seq<char>, BindingView>;

    closed spec fn view(&self) -> Map<Seq<char>, BindingView> {
        entries_map(self.entries@)
    }
}

impl BindingMap {
    #[verifier::type_invariant]
    spec fn well_formed(self) -> bool {
        distinct_names(self.entries@)
    }

    /// The empty map.
    pub fn new() -> (bindings: BindingMap)
        ensures
            bindings@ == Map::<Seq<char>, BindingView>::empty(),
    {
        let bindings = BindingMap { entries: Vec::new() };
        assert(bindings@ =~= Map::<Seq<char>, BindingView>::empty());
        bindings
    }

    /// Binds `binding.local_name`, replacing an earlier binding of that name.
    pub fn insert(&mut self, binding: ImportBinding)
        ensures
            final(self)@ == old(self)@.insert(binding.local_name@, binding@),
    {
        proof {
            use_type_invariant(&*self);
        }
        let ghost before = self.entries@;
        let ghost name = binding.local_name@;
        let ghost value = binding@;
        let mut entries: Vec<ImportBinding> = Vec::new();
        std::mem::swap(&mut self.entries, &mut entries);
        let n = entries.len();
        let mut i: usize = 0;
        while i < n && entries[i].local_name != binding.local_name
            invariant
                i <= n,
                n == entries.len(),
                entries@ == before,
                forall|j: int| 0 <= j < i ==> before[j].local_name@ != binding.local_name@,
            decreases n - i,
        {
            i += 1;
        }
        if i < n {
            entries.set(i, binding);
        } else {
            entries.push(binding);
        }
        proof {
            let after = entries@;
            assert(after[i as int].local_name@ == name);
            assert forall|k: Seq<char>| has_name(after, k) <==> has_name(before, k) || k
                == name by {
                if has_name(before, k) {
                    let j = choose|j: int|
                        0 <= j < before.len() && #[trigger] before[j].local_name@ == k;
                    assert(after[j].local_name@ == k);
                }
            }
            assert forall|k: Seq<char>| has_name(after, k) implies #[trigger] entries_map(after)[k]
                == entries_map(before).insert(name, value)[k] by {
                let j = choose|j: int| 0 <= j < after.len() && #[trigger] after[j].local_name@ == k;
                if k != name {
                    let j0 = choose|j: int|
                        0 <= j < before.len() && #[trigger] before[j].local_name@ == k;
                    assert(after[j0].local_name@ == k);
                    assert(j == j0);
                } else {
                    assert(j == i);
                }
            }
            assert(entries_map(after) =~= entries_map(before).insert(name, value));
        }
        self.entries = entries;
    }

    /// The binding of `name`, if the map has one.
    pub fn get(&self, name: &str) -> (found: Option<&ImportBinding>)
        ensures
            match found {
                Some(binding) => self@.contains_key(name@) && binding@ == self@[name@]
                    && binding.local_name@ == name@,
                None => !self@.contains_key(name@),
            },
    {
        proof {
            use_type_invariant(self);
        }
        let key = name.to_owned();
        let n = self.entries.len();
        let mut i: usize = 0;
        while i < n
            invariant
                i <= n,
                n == self.entries.len(),
                key@ == name@,
                distinct_names(self.entries@),
                forall|j: int| 0 <= j < i ==> self.entries[j].local_name@ != name@,
            decreases n - i,
        {
            if self.entries[i].local_name == key {
                proof {
                    let j = choose|j: int|
                        0 <= j < self.entries.len() && #[trigger] self.entries[j].local_name@
                            == name@;
                    assert(j == i);
                }
                return Some(&self.entries[i]);
            }
            i += 1;
        }
        None
    }

    /// Whether `name` is bound.
    pub fn contains_key(&self, name: &str) -> (found: bool)
        ensures
            found == self@.contains_key(name@),
    {
        self.get(name).is_some()
    }

    /// The entries of the map, one per local name.
    pub fn entries(&self) -> (entries: &Vec<ImportBinding>)
        ensures
            distinct_names(entries@),
            self@ == entries_map(entries@),
    {
        proof {
            use_type_invariant(self);
        }
        &self.entries
    }
}

/// The binding that one specifier of a declaration from `src` introduces.
pub open spec fn specifier_binding(specifier: ImportSpecifier, src: Seq<char>) -> BindingView {
    match specifier {
        ImportSpecifier::Named { local, imported } => BindingView {
            local_name: local@,
            shape: ShapeView::Named(
                match imported {
                    Some(exported) => exported@,
                    None => local@,
                },
            ),
            source_module: src,
        },
        ImportSpecifier::Default { local } => BindingView {
            local_name: local@,
            shape: ShapeView::Default(local@),
            source_module: src,
        },
        ImportSpecifier::Namespace { local } => BindingView {
            local_name: local@,
            shape: ShapeView::Namespace(local@),
            source_module: src,
        },
    }
}

/// `bindings` after the specifiers of one declaration from `src` have been
/// bound in source order: a later specifier replaces an earlier binding of
/// the same local name.
pub open spec fn bind_specifiers(
    bindings: Map<Seq<char>, BindingView>,
    specifiers: Seq<ImportSpecifier>,
    src: Seq<char>,
) -> Map<Seq<char>, BindingView>
    decreases specifiers.len(),
{
    if specifiers.len() == 0 {
        bindings
    } else {
        let binding = specifier_binding(specifiers.last(), src);
        bind_specifiers(bindings, specifiers.drop_last(), src).insert(binding.local_name, binding)
    }
}

/// `bindings` after the import declarations among `items` have been bound
/// in source order.  Items that are not import declarations bind nothing,
/// whatever they contain.
pub open spec fn bind_items(bindings: Map<Seq<char>, BindingView>, items: Seq<Node>) -> Map<
    Seq<char>,
    BindingView,
>
    decreases items.len(),
{
    if items.len() == 0 {
        bindings
    } else {
        let earlier = bind_items(bindings, items.drop_last());
        match items.last() {
            Node::Import(decl) => bind_specifiers(earlier, decl.specifiers@, decl.src@),
            _ => earlier,
        }
    }
}

/// The bindings that the top-level import declarations of `module`
/// introduce.
pub open spec fn module_bindings(module: Module) -> Map<Seq<char>, BindingView> {
    bind_items(Map::empty(), module.body@)
}

/// The local name that a specifier binds.
pub open spec fn specifier_local(specifier: ImportSpecifier) -> Seq<char> {
    match specifier {
        ImportSpecifier::Named { local, .. } => local@,
        ImportSpecifier::Default { local } => local@,
        ImportSpecifier::Namespace { local } => local@,
    }
}

/// Whether one of `specifiers` binds `name`.
pub open spec fn specifiers_bind(specifiers: Seq<ImportSpecifier>, name: Seq<char>) -> bool {
    exists|j: int| 0 <= j < specifiers.len() && specifier_local(#[trigger] specifiers[j]) == name
}

/// Whether `item` is an import declaration with a specifier that binds
/// `name`.
pub open spec fn item_binds(item: Node, name: Seq<char>) -> bool {
    match item {
        Node::Import(decl) => specifiers_bind(decl.specifiers@, name),
        _ => false,
    }
}

/// Whether one of `items` is an import declaration with a specifier that
/// binds `name`.
pub open spec fn items_bind(items: Seq<Node>, name: Seq<char>) -> bool {
    exists|i: int| 0 <= i < items.len() && item_binds(#[trigger] items[i], name)
}

/// After the specifiers of a declaration have been bound, a name is bound
/// exactly if it was bound before or one of the specifiers binds it.
pub proof fn lemma_bind_specifiers_domain(
    bindings: Map<Seq<char>, BindingView>,
    specifiers: Seq<ImportSpecifier>,
    src: Seq<char>,
    name: Seq<char>,
)
    ensures
        bind_specifiers(bindings, specifiers, src).contains_key(name) <==> bindings.contains_key(
            name,
        ) || specifiers_bind(specifiers, name),
    decreases specifiers.len(),
{
    if specifiers.len() > 0 {
        let earlier = specifiers.drop_last();
        lemma_bind_specifiers_domain(bindings, earlier, src, name);
        if specifiers_bind(earlier, name) {
            let j = choose|j: int|
                0 <= j < earlier.len() && specifier_local(#[trigger] earlier[j]) == name;
            assert(specifier_local(specifiers[j]) == name);
        }
        if specifiers_bind(specifiers, name) {
            let j = choose|j: int|
                0 <= j < specifiers.len() && specifier_local(#[trigger] specifiers[j]) == name;
            if j < earlier.len() {
                assert(specifier_local(earlier[j]) == name);
            }
        }
        if specifier_local(specifiers.last()) == name {
            assert(specifier_local(specifiers[specifiers.len() - 1]) == name);
        }
    }
}

/// After the import declarations among `items` have been bound, a name is
/// bound exactly if it was bound before or one of the declarations binds
/// it.
pub proof fn lemma_bind_items_domain(
    bindings: Map<Seq<char>, BindingView>,
    items: Seq<Node>,
    name: Seq<char>,
)
    ensures
        bind_items(bindings, items).contains_key(name) <==> bindings.contains_key(name)
            || items_bind(items, name),
    decreases items.len(),
{
    if items.len() > 0 {
        let earlier = items.drop_last();
        let last = items.len() - 1;
        lemma_bind_items_domain(bindings, earlier, name);
        if let Node::Import(decl) = items.last() {
            lemma_bind_specifiers_domain(
                bind_items(bindings, earlier),
                decl.specifiers@,
                decl.src@,
                name,
            );
        }
        if items_bind(earlier, name) {
            let i = choose|i: int| 0 <= i < earlier.len() && item_binds(#[trigger] earlier[i], name);
            assert(item_binds(items[i], name));
        }
        if items_bind(items, name) {
            let i = choose|i: int| 0 <= i < items.len() && item_binds(#[trigger] items[i], name);
            if i < last {
                assert(item_binds(earlier[i], name));
            }
        }
        if item_binds(items.last(), name) {
            assert(item_binds(items[last], name));
        }
    }
}

/// The last specifier of a declaration that binds a name decides what the
/// name is bound to.
pub proof fn lemma_last_specifier_wins(
    bindings: Map<Seq<char>, BindingView>,
    specifiers: Seq<ImportSpecifier>,
    src: Seq<char>,
    j: int,
)
    requires
        0 <= j < specifiers.len(),
        forall|k: int|
            j < k < specifiers.len() ==> specifier_local(#[trigger] specifiers[k])
                != specifier_local(specifiers[j]),
    ensures
        bind_specifiers(bindings, specifiers, src).contains_key(specifier_local(specifiers[j])),
        bind_specifiers(bindings, specifiers, src)[specifier_local(specifiers[j])]
            == specifier_binding(specifiers[j], src),
    decreases specifiers.len(),
{
    if j < specifiers.len() - 1 {
        let earlier = specifiers.drop_last();
        assert(earlier[j] == specifiers[j]);
        assert forall|k: int| j < k < earlier.len() implies specifier_local(#[trigger] earlier[k])
            != specifier_local(earlier[j]) by {
            assert(earlier[k] == specifiers[k]);
        }
        lemma_last_specifier_wins(bindings, earlier, src, j);
        assert(specifier_local(specifiers[specifiers.len() - 1]) != specifier_local(
            specifiers[j],
        ));
    }
}

/// A declaration leaves the binding of every name alone that none of its
/// specifiers binds.
pub proof fn lemma_other_names_keep_binding(
    bindings: Map<Seq<char>, BindingView>,
    specifiers: Seq<ImportSpecifier>,
    src: Seq<char>,
    name: Seq<char>,
)
    requires
        !specifiers_bind(specifiers, name),
    ensures
        bind_specifiers(bindings, specifiers, src).contains_key(name) == bindings.contains_key(
            name,
        ),
        bind_specifiers(bindings, specifiers, src)[name] == bindings[name],
    decreases specifiers.len(),
{
    if specifiers.len() > 0 {
        let earlier = specifiers.drop_last();
        assert forall|k: int| 0 <= k < earlier.len() implies specifier_local(#[trigger] earlier[k])
            != name by {
            assert(earlier[k] == specifiers[k]);
            assert(specifier_local(specifiers[k]) != name);
        }
        lemma_other_names_keep_binding(bindings, earlier, src, name);
        assert(specifier_local(specifiers[specifiers.len() - 1]) != name);
    }
}

/// Last declaration wins: where specifier `j` of the import declaration at
/// item `i` binds a name that no later specifier and no later item binds,
/// the name is bound to what that specifier says.
pub proof fn lemma_last_declaration_wins(
    bindings: Map<Seq<char>, BindingView>,
    items: Seq<Node>,
    i: int,
    j: int,
)
    requires
        0 <= i < items.len(),
        items[i] is Import,
        0 <= j < items[i]->Import_0.specifiers.len(),
        forall|k: int|
            j < k < items[i]->Import_0.specifiers.len() ==> specifier_local(
                #[trigger] items[i]->Import_0.specifiers[k],
            ) != specifier_local(items[i]->Import_0.specifiers[j]),
        forall|later: int|
            i < later < items.len() ==> !item_binds(
                #[trigger] items[later],
                specifier_local(items[i]->Import_0.specifiers[j]),
            ),
    ensures
        bind_items(bindings, items).contains_key(
            specifier_local(items[i]->Import_0.specifiers[j]),
        ),
        bind_items(bindings, items)[specifier_local(items[i]->Import_0.specifiers[j])]
            == specifier_binding(items[i]->Import_0.specifiers[j], items[i]->Import_0.src@),
    decreases items.len(),
{
    let decl = items[i]->Import_0;
    let name = specifier_local(decl.specifiers[j]);
    let earlier = items.drop_last();
    if i == items.len() - 1 {
        lemma_last_specifier_wins(bind_items(bindings, earlier), decl.specifiers@, decl.src@, j);
    } else {
        assert(earlier[i] == items[i]);
        assert forall|later: int| i < later < earlier.len() implies !item_binds(
            #[trigger] earlier[later],
            name,
        ) by {
            assert(earlier[later] == items[later]);
        }
        lemma_last_declaration_wins(bindings, earlier, i, j);
        assert(!item_binds(items[items.len() - 1], name));
        if let Node::Import(last_decl) = items.last() {
            lemma_other_names_keep_binding(
                bind_items(bindings, earlier),
                last_decl.specifiers@,
                last_decl.src@,
                name,
            );
        }
    }
}

/// The import declarations among `items` leave the binding of every name
/// alone that none of them binds.
pub proof fn lemma_unbound_names_keep_binding(
    bindings: Map<Seq<char>, BindingView>,
    items: Seq<Node>,
    name: Seq<char>,
)
    requires
        !items_bind(items, name),
    ensures
        bind_items(bindings, items).contains_key(name) == bindings.contains_key(name),
        bind_items(bindings, items)[name] == bindings[name],
    decreases items.len(),
{
    if items.len() > 0 {
        let earlier = items.drop_last();
        assert forall|i: int| 0 <= i < earlier.len() implies !item_binds(
            #[trigger] earlier[i],
            name,
        ) by {
            assert(!item_binds(items[i], name));
        }
        lemma_unbound_names_keep_binding(bindings, earlier, name);
        assert(!item_binds(items[items.len() - 1], name));
        if let Node::Import(decl) = items.last() {
            lemma_other_names_keep_binding(
                bind_items(bindings, earlier),
                decl.specifiers@,
                decl.src@,
                name,
            );
        }
    }
}

/// What a declaration binds a name to does not depend on what was bound
/// before.
pub proof fn lemma_specifiers_decide_alone(
    first: Map<Seq<char>, BindingView>,
    second: Map<Seq<char>, BindingView>,
    specifiers: Seq<ImportSpecifier>,
    src: Seq<char>,
    name: Seq<char>,
)
    requires
        specifiers_bind(specifiers, name),
    ensures
        bind_specifiers(first, specifiers, src)[name] == bind_specifiers(
            second,
            specifiers,
            src,
        )[name],
    decreases specifiers.len(),
{
    if specifier_local(specifiers.last()) != name {
        let earlier = specifiers.drop_last();
        let j = choose|j: int|
            0 <= j < specifiers.len() && specifier_local(#[trigger] specifiers[j]) == name;
        assert(specifier_local(earlier[j]) == name);
        lemma_specifiers_decide_alone(first, second, earlier, src, name);
    }
}

/// What the import declarations among `items` bind a name to does not
/// depend on what was bound before.
pub proof fn lemma_items_decide_alone(
    first: Map<Seq<char>, BindingView>,
    second: Map<Seq<char>, BindingView>,
    items: Seq<Node>,
    name: Seq<char>,
)
    requires
        items_bind(items, name),
    ensures
        bind_items(first, items)[name] == bind_items(second, items)[name],
    decreases items.len(),
{
    let earlier = items.drop_last();
    let first_earlier = bind_items(first, earlier);
    let second_earlier = bind_items(second, earlier);
    if item_binds(items.last(), name) {
        let decl = items.last()->Import_0;
        lemma_specifiers_decide_alone(
            first_earlier,
            second_earlier,
            decl.specifiers@,
            decl.src@,
            name,
        );
    } else {
        let i = choose|i: int| 0 <= i < items.len() && item_binds(#[trigger] items[i], name);
        assert(item_binds(earlier[i], name));
        lemma_items_decide_alone(first, second, earlier, name);
        if let Node::Import(decl) = items.last() {
            lemma_other_names_keep_binding(first_earlier, decl.specifiers@, decl.src@, name);
            lemma_other_names_keep_binding(second_earlier, decl.specifiers@, decl.src@, name);
        }
    }
}

/// Collects the import bindings of a module.
#[derive(Debug)]
pub struct ImportCollector {
    pub imports: BindingMap,
}

impl ImportCollector {
    /// A collector that has seen no declaration.
    pub fn new() -> (collector: ImportCollector)
        ensures
            collector.imports@ == Map::<Seq<char>, BindingView>::empty(),
    {
        ImportCollector { imports: BindingMap::new() }
    }

    /// Binds the local name of every specifier of `import_decl`, in source
    /// order.
    pub fn visit_import_decl(&mut self, import_decl: &ImportDecl)
        ensures
            final(self).imports@ == bind_specifiers(
                old(self).imports@,
                import_decl.specifiers@,
                import_decl.src@,
            ),
    {
        let n = import_decl.specifiers.len();
        let mut i: usize = 0;
        while i < n
            invariant
                i <= n,
                n == import_decl.specifiers.len(),
                self.imports@ == bind_specifiers(
                    old(self).imports@,
                    import_decl.specifiers@.take(i as int),
                    import_decl.src@,
                ),
            decreases n - i,
        {
            let source_module = import_decl.src.clone();
            let binding = match &import_decl.specifiers[i] {
                ImportSpecifier::Named { local, imported } => {
                    let exported = match imported {
                        Some(name) => name.clone(),
                        None => local.clone(),
                    };
                    ImportBinding {
                        local_name: local.clone(),
                        shape: ImportSpecifierType::Named(exported),
                        source_module,
                    }
                },
                ImportSpecifier::Default { local } => ImportBinding {
                    local_name: local.clone(),
                    shape: ImportSpecifierType::Default(local.clone()),
                    source_module,
                },
                ImportSpecifier::Namespace { local } => ImportBinding {
                    local_name: local.clone(),
                    shape: ImportSpecifierType::Namespace(local.clone()),
                    source_module,
                },
            };
            self.imports.insert(binding);
            proof {
                let specifiers = import_decl.specifiers@;
                assert(specifiers.take(i + 1).drop_last() =~= specifiers.take(i as int));
            }
            i += 1;
        }
        proof {
            assert(import_decl.specifiers@.take(n as int) =~= import_decl.specifiers@);
        }
    }

    /// Binds the local names of the top-level import declarations of
    /// `module`, in source order.
    pub fn visit_module(&mut self, module: &Module)
        ensures
            final(self).imports@ == bind_items(old(self).imports@, module.body@),
    {
        let n = module.body.len();
        let mut i: usize = 0;
        while i < n
            invariant
                i <= n,
                n == module.body.len(),
                self.imports@ == bind_items(old(self).imports@, module.body@.take(i as int)),
            decreases n - i,
        {
            match &module.body[i] {
                Node::Import(decl) => {
                    self.visit_import_decl(decl);
                },
                _ => {},
            }
            proof {
                let items = module.body@;
                assert(items.take(i + 1).drop_last() =~= items.take(i as int));
            }
            i += 1;
        }
        proof {
            assert(module.body@.take(n as int) =~= module.body@);
        }
    }
}

/// The import bindings of `module`.
pub fn collect_bindings(module: &Module) -> (bindings: BindingMap)
    ensures
        bindings@ == module_bindings(*module),
{
    let mut collector = ImportCollector::new();
    collector.visit_module(module);
    collector.imports
}

} // verus!
