//! The identifier names that a module refers to.
//!
//! The collector walks the whole tree.  A name counts as used where it
//! stands in one of these positions:
//!
//! * an identifier in value position;
//! * the callee of a `new` expression, where the callee is an identifier;
//! * the tag of a tagged template, where the tag is an identifier, or the
//!   object of the tag, where the tag is a member expression;
//! * the name of a type reference: for a qualified name, its left-most
//!   identifier and its right-most member;
//! * an entry of an `extends` or `implements` clause that is an identifier.
//!
//! The arguments of a `new` expression and the substitutions of a tagged
//! template are walked like any other node; a callee or a tag of another
//! form than those above records nothing.  Of a member expression the
//! object is walked, and the property where it is computed; the name of a
//! property is no use.
//!
//! Some nodes end the walk: of a type reference only the name is looked at,
//! of a type annotation only the annotated type where it is a type
//! reference, of an interface only the `extends` clause and the annotations
//! of its property signatures.  An import declaration is never a use of the
//! names it binds.

use vstd::prelude::*;
use vstd::hash_set::StringHashSet;
use crate::ast::{
    ImportDecl,
    MemberProp,
    Module,
    NewExpr,
    Node,
    TaggedTpl,
    TsEntityName,
    TsExprWithTypeArgs,
    TsInterfaceDecl,
    TsTypeAnn,
    TsTypeElement,
    TsTypeRef,
};

verus! {

/// A set of identifier names.
pub struct UsageSet {
    names: StringHashSet,
}

impl View for UsageSet {
    type V = Set<Seq<char>>;

    closed spec fn view(&self) -> Set<Seq<char>> {
        self.names@
    }
}

impl UsageSet {
    #[verifier::type_invariant]
    spec fn well_formed(self) -> bool {
        self.names@.finite()
    }

    /// The empty set.
    pub fn new() -> (usages: UsageSet)
        ensures
            usages@ == Set::<Seq<char>>::empty(),
    {
        UsageSet { names: StringHashSet::new() }
    }

    /// Adds `name` to the set; returns whether the name is new to it.
    pub fn insert(&mut self, name: String) -> (added: bool)
        ensures
            final(self)@ == old(self)@.insert(name@),
            added == !old(self)@.contains(name@),
    {
        proof {
            use_type_invariant(&*self);
        }
        let mut names = StringHashSet::new();
        std::mem::swap(&mut self.names, &mut names);
        let added = names.insert(name);
        self.names = names;
        added
    }

    /// The number of names in the set, which is finite.
    pub fn len(&self) -> (count: usize)
        ensures
            self@.finite(),
            count == self@.len(),
    {
        proof {
            use_type_invariant(self);
        }
        self.names.len()
    }

    /// Whether `name` is in the set.
    pub fn contains(&self, name: &str) -> (found: bool)
        ensures
            found == self@.contains(name@),
    {
        self.names.contains(name)
    }
}

/// The left-most identifier of a type name: `A` in `A`, in `A.B` and in
/// `A.B.C`.
pub open spec fn leftmost_name(name: TsEntityName) -> Seq<char>
    decreases name,
{
    match name {
        TsEntityName::Ident(id) => id@,
        TsEntityName::TsQualifiedName(qualified) => leftmost_name(qualified.left),
    }
}

/// The names that a type name uses: the name itself, or the left-most
/// identifier and the right-most member of a qualified name.
pub open spec fn entity_name_usages(name: TsEntityName) -> Set<Seq<char>> {
    match name {
        TsEntityName::Ident(id) => set![id@],
        TsEntityName::TsQualifiedName(qualified) => set![
            leftmost_name(qualified.left),
            qualified.right@,
        ],
    }
}

/// The names that a type reference uses: those of its name.  Its type
/// arguments use nothing.
pub open spec fn type_ref_usages(type_ref: TsTypeRef) -> Set<Seq<char>> {
    entity_name_usages(type_ref.name)
}

/// The names that a type annotation uses: those of the annotated type where
/// it is a type reference, nothing where it is any other type.
pub open spec fn type_ann_usages(type_ann: TsTypeAnn) -> Set<Seq<char>> {
    match *type_ann.type_ann {
        Node::TsTypeRef(type_ref) => type_ref_usages(type_ref),
        _ => Set::empty(),
    }
}

/// The names that an entry of an `extends` or `implements` clause uses: the
/// entry's expression where it is an identifier.
pub open spec fn expr_with_type_args_usages(entry: TsExprWithTypeArgs) -> Set<Seq<char>> {
    match *entry.expr {
        Node::Ident(id) => set![id@],
        _ => Set::empty(),
    }
}

/// The names that a member of an interface body uses: those of the type
/// annotation of a property signature.
pub open spec fn type_element_usages(element: TsTypeElement) -> Set<Seq<char>> {
    match element {
        TsTypeElement::TsPropertySignature(property) => match property.type_ann {
            Some(type_ann) => type_ann_usages(type_ann),
            None => Set::empty(),
        },
        TsTypeElement::Other(_) => Set::empty(),
    }
}

/// The names that the `extends` clause of an interface uses.
pub open spec fn extends_usages(extends: Seq<TsExprWithTypeArgs>) -> Set<Seq<char>> {
    Set::new(
        |name: Seq<char>|
            exists|i: int|
                0 <= i < extends.len() && #[trigger] expr_with_type_args_usages(
                    extends[i],
                ).contains(name),
    )
}

/// The names that the members of an interface body use.
pub open spec fn body_usages(body: Seq<TsTypeElement>) -> Set<Seq<char>> {
    Set::new(
        |name: Seq<char>|
            exists|i: int|
                0 <= i < body.len() && #[trigger] type_element_usages(body[i]).contains(name),
    )
}

/// The names that an interface declaration uses: those of its `extends`
/// clause and of its members.
pub open spec fn interface_usages(interface: TsInterfaceDecl) -> Set<Seq<char>> {
    extends_usages(interface.extends@) + body_usages(interface.body@)
}

/// The name that the callee of a `new` expression uses: the callee where it
/// is an identifier.  A callee of any other form uses nothing.
pub open spec fn callee_usages(new_expr: NewExpr) -> Set<Seq<char>> {
    match *new_expr.callee {
        Node::Ident(id) => set![id@],
        _ => Set::empty(),
    }
}

/// The name that the tag of a tagged template uses: the tag where it is an
/// identifier, the object of the tag where the tag is a member expression
/// and the object an identifier.  A tag of any other form uses nothing.
pub open spec fn tag_usages(tpl: TaggedTpl) -> Set<Seq<char>> {
    match *tpl.tag {
        Node::Ident(id) => set![id@],
        Node::Member(member) => match *member.obj {
            Node::Ident(obj) => set![obj@],
            _ => Set::empty(),
        },
        _ => Set::empty(),
    }
}

/// Whether `node`, or a node below it, uses `name`.
pub open spec fn node_uses(node: Node, name: Seq<char>) -> bool
    decreases node,
{
    match node {
        Node::Ident(id) => id@ == name,
        Node::Member(member) => node_uses(*member.obj, name) || (match member.prop {
            MemberProp::Computed(expr) => node_uses(*expr, name),
            _ => false,
        }),
        Node::New(new_expr) => callee_usages(new_expr).contains(name) || exists|i: int|
            0 <= i < new_expr.args.len() && node_uses(#[trigger] new_expr.args[i], name),
        Node::TaggedTpl(tpl) => tag_usages(tpl).contains(name) || exists|i: int|
            0 <= i < tpl.exprs.len() && node_uses(#[trigger] tpl.exprs[i], name),
        Node::Import(_) => false,
        Node::TsTypeRef(type_ref) => type_ref_usages(type_ref).contains(name),
        Node::TsTypeAnn(type_ann) => type_ann_usages(type_ann).contains(name),
        Node::TsInterfaceDecl(interface) => interface_usages(interface).contains(name),
        Node::TsExprWithTypeArgs(entry) => expr_with_type_args_usages(entry).contains(name),
        Node::Other(children) => exists|i: int|
            0 <= i < children.len() && node_uses(#[trigger] children[i], name),
    }
}

/// The names that a node and the nodes below it use.
pub open spec fn node_usages(node: Node) -> Set<Seq<char>> {
    Set::new(|name: Seq<char>| node_uses(node, name))
}

/// The names that the nodes of a sequence use.
pub open spec fn nodes_usages(nodes: Seq<Node>) -> Set<Seq<char>> {
    Set::new(
        |name: Seq<char>| exists|i: int| 0 <= i < nodes.len() && node_uses(#[trigger] nodes[i], name),
    )
}

/// The names that a `new` expression uses: that of its callee, and those of
/// its arguments.
pub open spec fn new_expr_usages(new_expr: NewExpr) -> Set<Seq<char>> {
    callee_usages(new_expr) + nodes_usages(new_expr.args@)
}

/// The names that a tagged template uses: that of its tag, and those of its
/// substitutions.
pub open spec fn tagged_tpl_usages(tpl: TaggedTpl) -> Set<Seq<char>> {
    tag_usages(tpl) + nodes_usages(tpl.exprs@)
}

/// The names that a module uses.
pub open spec fn module_usages(module: Module) -> Set<Seq<char>> {
    nodes_usages(module.body@)
}

/// The names used by the first `n + 1` entries of an `extends` clause are
/// those used by the first `n` entries and by entry `n`.
proof fn lemma_extends_usages_step(extends: Seq<TsExprWithTypeArgs>, n: int)
    requires
        0 <= n < extends.len(),
    ensures
        extends_usages(extends.take(n + 1)) == extends_usages(extends.take(n))
            + expr_with_type_args_usages(extends[n]),
{
    let longer = extends.take(n + 1);
    let shorter = extends.take(n);
    assert forall|name: Seq<char>|
        extends_usages(longer).contains(name) <==> extends_usages(shorter).contains(name)
            || expr_with_type_args_usages(extends[n]).contains(name) by {
        if extends_usages(longer).contains(name) {
            let i = choose|i: int|
                0 <= i < longer.len() && #[trigger] expr_with_type_args_usages(
                    longer[i],
                ).contains(name);
            if i < n {
                assert(expr_with_type_args_usages(shorter[i]).contains(name));
            }
        }
        if extends_usages(shorter).contains(name) {
            let i = choose|i: int|
                0 <= i < shorter.len() && #[trigger] expr_with_type_args_usages(
                    shorter[i],
                ).contains(name);
            assert(expr_with_type_args_usages(longer[i]).contains(name));
        }
        if expr_with_type_args_usages(extends[n]).contains(name) {
            assert(expr_with_type_args_usages(longer[n]).contains(name));
        }
    }
    assert(extends_usages(longer) =~= extends_usages(shorter) + expr_with_type_args_usages(
        extends[n],
    ));
}

/// The names used by the first `n + 1` members of an interface body are
/// those used by the first `n` members and by member `n`.
proof fn lemma_body_usages_step(body: Seq<TsTypeElement>, n: int)
    requires
        0 <= n < body.len(),
    ensures
        body_usages(body.take(n + 1)) == body_usages(body.take(n)) + type_element_usages(body[n]),
{
    let longer = body.take(n + 1);
    let shorter = body.take(n);
    assert forall|name: Seq<char>|
        body_usages(longer).contains(name) <==> body_usages(shorter).contains(name)
            || type_element_usages(body[n]).contains(name) by {
        if body_usages(longer).contains(name) {
            let i = choose|i: int|
                0 <= i < longer.len() && #[trigger] type_element_usages(longer[i]).contains(name);
            if i < n {
                assert(type_element_usages(shorter[i]).contains(name));
            }
        }
        if body_usages(shorter).contains(name) {
            let i = choose|i: int|
                0 <= i < shorter.len() && #[trigger] type_element_usages(shorter[i]).contains(
                    name,
                );
            assert(type_element_usages(longer[i]).contains(name));
        }
        if type_element_usages(body[n]).contains(name) {
            assert(type_element_usages(longer[n]).contains(name));
        }
    }
    assert(body_usages(longer) =~= body_usages(shorter) + type_element_usages(body[n]));
}

/// The names used by the first `n + 1` nodes of a sequence are those used
/// by the first `n` nodes and by node `n`.
proof fn lemma_nodes_usages_step(nodes: Seq<Node>, n: int)
    requires
        0 <= n < nodes.len(),
    ensures
        nodes_usages(nodes.take(n + 1)) == nodes_usages(nodes.take(n)) + node_usages(nodes[n]),
{
    let longer = nodes.take(n + 1);
    let shorter = nodes.take(n);
    assert forall|name: Seq<char>|
        nodes_usages(longer).contains(name) <==> nodes_usages(shorter).contains(name)
            || node_usages(nodes[n]).contains(name) by {
        if nodes_usages(longer).contains(name) {
            let i = choose|i: int| 0 <= i < longer.len() && node_uses(#[trigger] longer[i], name);
            if i < n {
                assert(node_uses(shorter[i], name));
            }
        }
        if nodes_usages(shorter).contains(name) {
            let i = choose|i: int| 0 <= i < shorter.len() && node_uses(#[trigger] shorter[i], name);
            assert(node_uses(longer[i], name));
        }
        if node_usages(nodes[n]).contains(name) {
            assert(node_uses(longer[n], name));
        }
    }
    assert(nodes_usages(longer) =~= nodes_usages(shorter) + node_usages(nodes[n]));
}

/// The left-most identifier of a type name.
fn leftmost(name: &TsEntityName) -> (id: &String)
    ensures
        id@ == leftmost_name(*name),
    decreases name,
{
    match name {
        TsEntityName::Ident(id) => id,
        TsEntityName::TsQualifiedName(qualified) => leftmost(&qualified.left),
    }
}

/// Collects the identifier names that a module uses.
pub struct IdentifierCollector {
    pub used_identifiers: UsageSet,
}

impl View for IdentifierCollector {
    type V = Set<Seq<char>>;

    open spec fn view(&self) -> Set<Seq<char>> {
        self.used_identifiers@
    }
}

impl IdentifierCollector {
    /// A collector that has seen no node.
    pub fn new() -> (collector: IdentifierCollector)
        ensures
            collector@ == Set::<Seq<char>>::empty(),
    {
        IdentifierCollector { used_identifiers: UsageSet::new() }
    }

    /// Records an identifier in value position.
    pub fn visit_ident(&mut self, ident: &str)
        ensures
            final(self)@ == old(self)@.insert(ident@),
    {
        self.used_identifiers.insert(ident.to_owned());
    }

    /// Records the callee of a `new` expression where it is an identifier,
    /// and walks the arguments.  A callee of any other form records nothing.
    pub fn visit_new_expr(&mut self, new_expr: &NewExpr)
        ensures
            final(self)@ == old(self)@ + new_expr_usages(*new_expr),
        decreases new_expr,
    {
        match &*new_expr.callee {
            Node::Ident(ident) => {
                self.visit_ident(ident);
            },
            _ => {},
        }
        assert(self@ =~= old(self)@ + callee_usages(*new_expr));
        self.visit_nodes(&new_expr.args);
    }

    /// Records nothing: an import declaration, type-only or not, is no use
    /// of the names it binds.
    pub fn visit_import_decl(&mut self, _import: &ImportDecl)
        ensures
            final(self)@ == old(self)@,
    {
    }

    /// Records the name of a type reference: the name itself, or the
    /// left-most identifier and the right-most member of a qualified name.
    /// The type arguments are not walked.
    pub fn visit_ts_type_ref(&mut self, type_ref: &TsTypeRef)
        ensures
            final(self)@ == old(self)@ + type_ref_usages(*type_ref),
    {
        match &type_ref.name {
            TsEntityName::Ident(ident) => {
                self.visit_ident(ident);
            },
            TsEntityName::TsQualifiedName(qualified) => {
                self.visit_ident(leftmost(&qualified.left));
                self.visit_ident(&qualified.right);
            },
        }
    }

    /// Records the annotated type where it is a type reference.  Any other
    /// type records nothing and is not walked.
    pub fn visit_ts_type_ann(&mut self, type_ann: &TsTypeAnn)
        ensures
            final(self)@ == old(self)@ + type_ann_usages(*type_ann),
    {
        match &*type_ann.type_ann {
            Node::TsTypeRef(type_ref) => {
                self.visit_ts_type_ref(type_ref);
            },
            _ => {},
        }
    }

    /// Records the entries of the `extends` clause and the type annotations
    /// of the property signatures.  The interface's own name, its type
    /// parameters and its other members are not walked.
    pub fn visit_ts_interface_decl(&mut self, interface: &TsInterfaceDecl)
        ensures
            final(self)@ == old(self)@ + interface_usages(*interface),
    {
        let extends_len = interface.extends.len();
        let mut i: usize = 0;
        while i < extends_len
            invariant
                i <= extends_len,
                extends_len == interface.extends.len(),
                self@ == old(self)@ + extends_usages(interface.extends@.take(i as int)),
            decreases extends_len - i,
        {
            self.visit_ts_expr_with_type_args(&interface.extends[i]);
            proof {
                lemma_extends_usages_step(interface.extends@, i as int);
            }
            i += 1;
        }
        assert(interface.extends@.take(extends_len as int) =~= interface.extends@);
        let ghost after_extends = self@;
        let body_len = interface.body.len();
        let mut j: usize = 0;
        while j < body_len
            invariant
                j <= body_len,
                body_len == interface.body.len(),
                self@ == after_extends + body_usages(interface.body@.take(j as int)),
            decreases body_len - j,
        {
            match &interface.body[j] {
                TsTypeElement::TsPropertySignature(property) => {
                    match &property.type_ann {
                        Some(type_ann) => {
                            self.visit_ts_type_ann(type_ann);
                        },
                        None => {},
                    }
                },
                TsTypeElement::Other(_) => {},
            }
            proof {
                lemma_body_usages_step(interface.body@, j as int);
            }
            j += 1;
        }
        assert(interface.body@.take(body_len as int) =~= interface.body@);
    }

    /// Records an entry of an `extends` or `implements` clause where its
    /// expression is an identifier.  The type arguments are not walked.
    pub fn visit_ts_expr_with_type_args(&mut self, type_args: &TsExprWithTypeArgs)
        ensures
            final(self)@ == old(self)@ + expr_with_type_args_usages(*type_args),
    {
        match &*type_args.expr {
            Node::Ident(ident) => {
                self.visit_ident(ident);
            },
            _ => {},
        }
    }

    /// Records the tag of a tagged template: the tag itself where it is an
    /// identifier (``css`...` ``), the object of the tag where the tag is a
    /// member expression and its object an identifier (`styled` in
    /// ``styled.div`...` ``), and walks the template's substitutions.  The
    /// property name is not recorded, and a tag of any other form records
    /// nothing.
    pub fn visit_tagged_tpl(&mut self, tpl: &TaggedTpl)
        ensures
            final(self)@ == old(self)@ + tagged_tpl_usages(*tpl),
        decreases tpl,
    {
        match &*tpl.tag {
            Node::Member(member) => {
                match &*member.obj {
                    Node::Ident(obj) => {
                        self.visit_ident(obj);
                    },
                    _ => {},
                }
            },
            Node::Ident(ident) => {
                self.visit_ident(ident);
            },
            _ => {},
        }
        assert(self@ =~= old(self)@ + tag_usages(*tpl));
        self.visit_nodes(&tpl.exprs);
    }

    /// Walks `node` and the nodes below it, and records the names they use.
    pub fn visit_node(&mut self, node: &Node)
        ensures
            final(self)@ == old(self)@ + node_usages(*node),
        decreases node,
    {
        match node {
            Node::Ident(ident) => {
                self.visit_ident(ident);
                assert(node_usages(*node) =~= set![ident@]);
            },
            Node::Member(member) => {
                self.visit_node(&member.obj);
                match &member.prop {
                    MemberProp::Computed(expr) => {
                        self.visit_node(expr);
                        assert(node_usages(*node) =~= node_usages(*member.obj) + node_usages(
                            **expr,
                        ));
                    },
                    _ => {
                        assert(node_usages(*node) =~= node_usages(*member.obj));
                    },
                }
            },
            Node::New(new_expr) => {
                self.visit_new_expr(new_expr);
                assert(node_usages(*node) =~= new_expr_usages(*new_expr));
            },
            Node::TaggedTpl(tpl) => {
                self.visit_tagged_tpl(tpl);
                assert(node_usages(*node) =~= tagged_tpl_usages(*tpl));
            },
            Node::Import(import) => {
                self.visit_import_decl(import);
                assert(node_usages(*node) =~= Set::empty());
            },
            Node::TsTypeRef(type_ref) => {
                self.visit_ts_type_ref(type_ref);
                assert(node_usages(*node) =~= type_ref_usages(*type_ref));
            },
            Node::TsTypeAnn(type_ann) => {
                self.visit_ts_type_ann(type_ann);
                assert(node_usages(*node) =~= type_ann_usages(*type_ann));
            },
            Node::TsInterfaceDecl(interface) => {
                self.visit_ts_interface_decl(interface);
                assert(node_usages(*node) =~= interface_usages(*interface));
            },
            Node::TsExprWithTypeArgs(entry) => {
                self.visit_ts_expr_with_type_args(entry);
                assert(node_usages(*node) =~= expr_with_type_args_usages(*entry));
            },
            Node::Other(children) => {
                self.visit_nodes(children);
                assert(node_usages(*node) =~= nodes_usages(children@));
            },
        }
    }

    /// Walks `nodes` in order, and records the names they use.
    pub fn visit_nodes(&mut self, nodes: &Vec<Node>)
        ensures
            final(self)@ == old(self)@ + nodes_usages(nodes@),
        decreases nodes,
    {
        let n = nodes.len();
        let mut i: usize = 0;
        while i < n
            invariant
                i <= n,
                n == nodes.len(),
                self@ == old(self)@ + nodes_usages(nodes@.take(i as int)),
            decreases n - i,
        {
            self.visit_node(&nodes[i]);
            proof {
                lemma_nodes_usages_step(nodes@, i as int);
            }
            i += 1;
        }
        assert(nodes@.take(n as int) =~= nodes@);
    }

    /// Walks the top-level items of `module` in source order.
    pub fn visit_module(&mut self, module: &Module)
        ensures
            final(self)@ == old(self)@ + module_usages(*module),
    {
        self.visit_nodes(&module.body);
    }
}

/// The identifier names that `module` uses.
pub fn collect_usages(module: &Module) -> (usages: UsageSet)
    ensures
        usages@ == module_usages(*module),
        usages@.finite(),
{
    let mut collector = IdentifierCollector::new();
    collector.visit_module(module);
    let usages = collector.used_identifiers;
    proof {
        use_type_invariant(&usages);
    }
    usages
}

} // verus!
