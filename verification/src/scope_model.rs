//! The mathematical model of the symbol tables: variables, scopes chained by
//! their parents, resolution along the chain, and the laws of visibility and
//! shadowing that follow.

use crate::type_model::TypeModel;
use vstd::prelude::*;

verus! {

/// A variable: its type once a use has fixed it, and its two flags.
pub struct VariableModel {
    pub typ: Option<TypeModel>,
    pub mutable: bool,
    pub initialized: bool,
}

impl VariableModel {
    /// Whether a use with the given type passes the check: always while the
    /// type is open, and afterwards only with the committed type.
    pub open spec fn accepts(self, observed: TypeModel) -> bool {
        match self.typ {
            Some(committed) => committed == observed,
            None => true,
        }
    }

    /// The variable after a check against the given type: the first check
    /// commits the type, and no later one changes anything.
    pub open spec fn observe(self, observed: TypeModel) -> VariableModel {
        match self.typ {
            Some(_) => self,
            None => VariableModel { typ: Some(observed), ..self },
        }
    }

    /// The variable with its initialized flag set.
    pub open spec fn initialize(self) -> VariableModel {
        VariableModel { initialized: true, ..self }
    }
}

/// The handle of a scope: its identifier and that of its parent.
pub struct ScopeRef {
    pub id: nat,
    pub parent: Option<nat>,
}

/// A scope: the identifier of its parent and its own bindings.
pub struct ScopeModel {
    pub parent: Option<nat>,
    pub bindings: Map<Seq<char>, VariableModel>,
}

/// The scopes of a table, each at the place of its identifier.
pub struct TableModel {
    pub scopes: Seq<ScopeModel>,
}

impl TableModel {
    /// The table without scopes.
    pub open spec fn empty() -> TableModel {
        TableModel { scopes: Seq::empty() }
    }

    /// Every parent was allocated before its child.
    pub open spec fn well_formed(self) -> bool {
        forall|i: int|
            0 <= i < self.scopes.len() ==> match (#[trigger] self.scopes[i]).parent {
                Some(p) => p < i,
                None => true,
            }
    }

    /// Whether the handle is one of this table's scopes.
    pub open spec fn has(self, scope: ScopeRef) -> bool {
        scope.id < self.scopes.len() && self.scopes[scope.id as int].parent == scope.parent
    }

    /// Whether the scope binds the name itself.
    pub open spec fn binds(self, scope: nat, name: Seq<char>) -> bool {
        scope < self.scopes.len() && self.scopes[scope as int].bindings.contains_key(name)
    }

    /// Whether `outer` is `inner` or one of its ancestors.
    pub open spec fn encloses(self, outer: nat, inner: nat) -> bool
        decreases inner,
    {
        inner < self.scopes.len() && (outer == inner || match self.scopes[inner as int].parent {
            Some(p) => p < inner && self.encloses(outer, p),
            None => false,
        })
    }

    /// The nearest scope that binds the name, going from `from` up the parents.
    pub open spec fn owner(self, name: Seq<char>, from: nat) -> Option<nat>
        decreases from,
    {
        if from >= self.scopes.len() {
            None
        } else if self.scopes[from as int].bindings.contains_key(name) {
            Some(from)
        } else {
            match self.scopes[from as int].parent {
                Some(p) => if p < from {
                    self.owner(name, p)
                } else {
                    None
                },
                None => None,
            }
        }
    }

    /// The variable that the name stands for when seen from `from`.
    pub open spec fn resolve(self, name: Seq<char>, from: nat) -> Option<VariableModel> {
        match self.owner(name, from) {
            Some(scope) => Some(self.scopes[scope as int].bindings[name]),
            None => None,
        }
    }

    /// The table with one more scope, which takes the next identifier.
    pub open spec fn with_scope(
        self,
        parent: Option<nat>,
        bindings: Map<Seq<char>, VariableModel>,
    ) -> TableModel {
        TableModel { scopes: self.scopes.push(ScopeModel { parent, bindings }) }
    }

    /// The table with the name bound to the variable in the given scope alone.
    pub open spec fn with_binding(
        self,
        scope: nat,
        name: Seq<char>,
        variable: VariableModel,
    ) -> TableModel {
        TableModel {
            scopes: self.scopes.update(
                scope as int,
                ScopeModel {
                    parent: self.scopes[scope as int].parent,
                    bindings: self.scopes[scope as int].bindings.insert(name, variable),
                },
            ),
        }
    }

    /// Whether the two tables have the same scopes under the same parents and
    /// differ at most in the bindings of `scope`.
    pub open spec fn differs_only_in(self, other: TableModel, scope: nat) -> bool {
        &&& self.scopes.len() == other.scopes.len()
        &&& forall|i: int|
            0 <= i < self.scopes.len() ==> (#[trigger] self.scopes[i]).parent
                == other.scopes[i].parent
        &&& forall|i: int|
            0 <= i < self.scopes.len() && i != scope ==> (#[trigger] self.scopes[i]).bindings
                == other.scopes[i].bindings
    }
}

/// A function's signature: its return type and the scope of its parameters.
pub struct FunctionModel {
    pub ret_typ: TypeModel,
    pub scope: ScopeRef,
}

/// What a failed operation of the tables reports.
pub enum SemanticErrorModel {
    /// No binding for the name anywhere on the chain.
    UnresolvedIdentifier { name: Seq<char> },
    /// A use observed a type other than the committed one.
    TypeMismatch { expected: TypeModel, found: TypeModel },
    /// The function was defined before.
    DuplicateFunction { name: Seq<char> },
    /// The scope holds a declaration of the name already.
    DuplicateDeclaration { name: Seq<char> },
}

/// An ancestor was allocated before its descendants: identifiers grow along
/// every chain from the root.
pub proof fn lemma_ancestors_come_first(t: TableModel, outer: nat, inner: nat)
    requires
        t.encloses(outer, inner),
    ensures
        outer <= inner,
        inner < t.scopes.len(),
    decreases inner,
{
    if outer != inner {
        lemma_ancestors_come_first(t, outer, t.scopes[inner as int].parent.unwrap());
    }
}

/// Resolution finds the nearest binding and nothing else: the owner encloses
/// the starting scope and binds the name, and no scope between the two does;
/// and where there is no owner, no enclosing scope binds the name.
pub proof fn lemma_owner_is_nearest(t: TableModel, name: Seq<char>, from: nat)
    requires
        from < t.scopes.len(),
    ensures
        match t.owner(name, from) {
            Some(o) => {
                &&& t.encloses(o, from)
                &&& t.binds(o, name)
                &&& forall|m: nat|
                    t.encloses(m, from) && #[trigger] t.encloses(o, m) && m != o ==> !t.binds(
                        m,
                        name,
                    )
            },
            None => forall|m: nat| #[trigger] t.encloses(m, from) ==> !t.binds(m, name),
        },
    decreases from,
{
    if t.scopes[from as int].bindings.contains_key(name) {
        assert forall|m: nat|
            t.encloses(m, from) && #[trigger] t.encloses(from, m) && m != from implies !t.binds(
            m,
            name,
        ) by {
            lemma_ancestors_come_first(t, m, from);
            lemma_ancestors_come_first(t, from, m);
        }
    } else {
        match t.scopes[from as int].parent {
            Some(p) => {
                if p < from {
                    lemma_owner_is_nearest(t, name, p);
                    match t.owner(name, from) {
                        Some(o) => {
                            assert forall|m: nat|
                                t.encloses(m, from) && #[trigger] t.encloses(o, m) && m
                                    != o implies !t.binds(m, name) by {
                                if m != from {
                                    assert(t.encloses(m, p));
                                }
                            }
                        },
                        None => {
                            assert forall|m: nat| #[trigger] t.encloses(m, from) implies !t.binds(
                                m,
                                name,
                            ) by {
                                if m != from {
                                    assert(t.encloses(m, p));
                                }
                            }
                        },
                    }
                }
            },
            None => {},
        }
    }
}

/// The scopes that enclose one scope form a chain: of any two, one encloses
/// the other.
pub proof fn lemma_enclosing_scopes_are_chained(t: TableModel, a: nat, b: nat, inner: nat)
    requires
        t.encloses(a, inner),
        t.encloses(b, inner),
    ensures
        t.encloses(a, b) || t.encloses(b, a),
    decreases inner,
{
    if a == inner {
        lemma_ancestors_come_first(t, b, inner);
    } else if b == inner {
        lemma_ancestors_come_first(t, a, inner);
    } else {
        lemma_enclosing_scopes_are_chained(t, a, b, t.scopes[inner as int].parent.unwrap());
    }
}

/// A name that a scope binds itself resolves, from that scope, to that binding,
/// whatever the scopes around it bind.
pub proof fn lemma_local_binding_wins(t: TableModel, name: Seq<char>, scope: nat)
    requires
        t.binds(scope, name),
    ensures
        t.resolve(name, scope) == Some(t.scopes[scope as int].bindings[name]),
{
}

/// A scope without a binding of its own for a name sees what its parent sees,
/// and nothing where it has no parent.
pub proof fn lemma_unbound_name_goes_to_parent(t: TableModel, name: Seq<char>, scope: nat)
    requires
        t.well_formed(),
        scope < t.scopes.len(),
        !t.binds(scope, name),
    ensures
        t.resolve(name, scope) == match t.scopes[scope as int].parent {
            Some(p) => t.resolve(name, p),
            None => None,
        },
{
}

/// Shadowing: where a scope and its parent both bind a name, the name resolves
/// from the child to the child's binding and from the parent to the parent's.
pub proof fn lemma_shadowing(t: TableModel, name: Seq<char>, parent: nat, child: nat)
    requires
        child < t.scopes.len(),
        t.scopes[child as int].parent == Some(parent),
        t.binds(parent, name),
        t.binds(child, name),
    ensures
        t.resolve(name, child) == Some(t.scopes[child as int].bindings[name]),
        t.resolve(name, parent) == Some(t.scopes[parent as int].bindings[name]),
{
}

/// Visibility: a binding is seen from its own scope and from every descendant,
/// up to the first scope on the way down that binds the name anew.
pub proof fn lemma_binding_is_visible_below(t: TableModel, name: Seq<char>, scope: nat, from: nat)
    requires
        t.binds(scope, name),
        t.encloses(scope, from),
        forall|m: nat|
            t.encloses(m, from) && #[trigger] t.encloses(scope, m) && m != scope ==> !t.binds(
                m,
                name,
            ),
    ensures
        t.owner(name, from) == Some(scope),
        t.resolve(name, from) == Some(t.scopes[scope as int].bindings[name]),
{
    lemma_ancestors_come_first(t, scope, from);
    lemma_owner_is_nearest(t, name, from);
    let o = t.owner(name, from).unwrap();
    lemma_enclosing_scopes_are_chained(t, o, scope, from);
    if o != scope {
        if t.encloses(o, scope) {
            assert(!t.binds(scope, name));
        } else {
            assert(t.encloses(scope, o));
            assert(!t.binds(o, name));
        }
    }
}

/// Invisibility: whatever a scope binds, no scope outside its subtree sees it.
/// Two tables that differ only in the bindings of one scope resolve every name
/// alike from each of its ancestors, its siblings and their descendants.
pub proof fn lemma_binding_is_invisible_elsewhere(
    t1: TableModel,
    t2: TableModel,
    scope: nat,
    name: Seq<char>,
    from: nat,
)
    requires
        t1.differs_only_in(t2, scope),
        !t1.encloses(scope, from),
    ensures
        t1.owner(name, from) == t2.owner(name, from),
        t1.resolve(name, from) == t2.resolve(name, from),
    decreases from,
{
    if from < t1.scopes.len() {
        if !t1.scopes[from as int].bindings.contains_key(name) {
            match t1.scopes[from as int].parent {
                Some(p) => {
                    if p < from {
                        lemma_binding_is_invisible_elsewhere(t1, t2, scope, name, p);
                    }
                },
                None => {},
            }
        }
    }
}

/// Tables with the same scopes under the same parents enclose alike.
pub proof fn lemma_same_shape_same_enclosure(
    t1: TableModel,
    t2: TableModel,
    scope: nat,
    outer: nat,
    inner: nat,
)
    requires
        t1.differs_only_in(t2, scope),
    ensures
        t1.encloses(outer, inner) == t2.encloses(outer, inner),
    decreases inner,
{
    if inner < t1.scopes.len() && outer != inner {
        match t1.scopes[inner as int].parent {
            Some(p) => {
                if p < inner {
                    lemma_same_shape_same_enclosure(t1, t2, scope, outer, p);
                }
            },
            None => {},
        }
    }
}

/// Installing a binding leaves the shape of the table alone: the same scopes
/// under the same parents, and other bindings as they were.
pub proof fn lemma_install_changes_one_scope(
    t: TableModel,
    scope: nat,
    name: Seq<char>,
    variable: VariableModel,
)
    requires
        scope < t.scopes.len(),
    ensures
        t.differs_only_in(t.with_binding(scope, name, variable), scope),
        t.with_binding(scope, name, variable).binds(scope, name),
        t.with_binding(scope, name, variable).scopes[scope as int].bindings[name] == variable,
        t.well_formed() ==> t.with_binding(scope, name, variable).well_formed(),
        forall|s: ScopeRef| t.has(s) ==> #[trigger] t.with_binding(scope, name, variable).has(s),
        forall|a: nat, b: nat|
            t.encloses(a, b) ==> #[trigger] t.with_binding(scope, name, variable).encloses(a, b),
        forall|m: nat, other: Seq<char>|
            m != scope || other != name ==> (#[trigger] t.with_binding(
                scope,
                name,
                variable,
            ).binds(m, other) <==> t.binds(m, other)),
{
    let t2 = t.with_binding(scope, name, variable);
    assert forall|a: nat, b: nat| t.encloses(a, b) implies #[trigger] t2.encloses(a, b) by {
        lemma_same_shape_same_enclosure(t, t2, scope, a, b);
    }
}

/// An installed binding is visible from its scope and from every descendant
/// that no scope in between hides it from.
pub proof fn lemma_installed_binding_is_visible(
    t: TableModel,
    scope: nat,
    name: Seq<char>,
    variable: VariableModel,
    from: nat,
)
    requires
        scope < t.scopes.len(),
        t.encloses(scope, from),
        forall|m: nat|
            t.encloses(m, from) && #[trigger] t.encloses(scope, m) && m != scope ==> !t.binds(
                m,
                name,
            ),
    ensures
        t.with_binding(scope, name, variable).resolve(name, from) == Some(variable),
{
    let t2 = t.with_binding(scope, name, variable);
    lemma_install_changes_one_scope(t, scope, name, variable);
    assert forall|m: nat|
        t2.encloses(m, from) && #[trigger] t2.encloses(scope, m) && m != scope implies !t2.binds(
        m,
        name,
    ) by {
        lemma_same_shape_same_enclosure(t, t2, scope, m, from);
        lemma_same_shape_same_enclosure(t, t2, scope, scope, m);
    }
    lemma_binding_is_visible_below(t2, name, scope, from);
}

/// An installed binding is invisible from every scope outside the subtree of
/// its scope: there each name resolves as before.
pub proof fn lemma_installed_binding_is_invisible(
    t: TableModel,
    scope: nat,
    name: Seq<char>,
    variable: VariableModel,
    any_name: Seq<char>,
    from: nat,
)
    requires
        scope < t.scopes.len(),
        !t.encloses(scope, from),
    ensures
        t.with_binding(scope, name, variable).resolve(any_name, from) == t.resolve(
            any_name,
            from,
        ),
{
    lemma_install_changes_one_scope(t, scope, name, variable);
    lemma_binding_is_invisible_elsewhere(
        t,
        t.with_binding(scope, name, variable),
        scope,
        any_name,
        from,
    );
}

/// Installing a binding for one name changes the resolution of no other name.
pub proof fn lemma_install_keeps_other_names(
    t: TableModel,
    scope: nat,
    name: Seq<char>,
    variable: VariableModel,
    other: Seq<char>,
    from: nat,
)
    requires
        scope < t.scopes.len(),
        other != name,
    ensures
        t.with_binding(scope, name, variable).owner(other, from) == t.owner(other, from),
        t.with_binding(scope, name, variable).resolve(other, from) == t.resolve(other, from),
    decreases from,
{
    let t2 = t.with_binding(scope, name, variable);
    if from < t.scopes.len() {
        if !t.scopes[from as int].bindings.contains_key(other) {
            match t.scopes[from as int].parent {
                Some(p) => {
                    if p < from {
                        lemma_install_keeps_other_names(t, scope, name, variable, other, p);
                    }
                },
                None => {},
            }
        }
    }
}

/// A new scope changes nothing for the scopes that were there: each name
/// resolves from each of them as before.
pub proof fn lemma_new_scope_changes_nothing(
    t: TableModel,
    parent: Option<nat>,
    bindings: Map<Seq<char>, VariableModel>,
    name: Seq<char>,
    from: nat,
)
    requires
        from < t.scopes.len(),
    ensures
        t.with_scope(parent, bindings).owner(name, from) == t.owner(name, from),
        t.with_scope(parent, bindings).resolve(name, from) == t.resolve(name, from),
    decreases from,
{
    if !t.scopes[from as int].bindings.contains_key(name) {
        match t.scopes[from as int].parent {
            Some(p) => {
                if p < from {
                    lemma_new_scope_changes_nothing(t, parent, bindings, name, p);
                }
            },
            None => {},
        }
    }
}

/// From a new scope a name resolves to the scope's own binding where it has
/// one, and otherwise as it does from the parent; without a parent it does not
/// resolve.
pub proof fn lemma_new_scope_resolves(
    t: TableModel,
    parent: Option<nat>,
    bindings: Map<Seq<char>, VariableModel>,
    name: Seq<char>,
)
    requires
        parent matches Some(p) ==> p < t.scopes.len(),
    ensures
        t.with_scope(parent, bindings).resolve(name, t.scopes.len()) == if bindings.contains_key(
            name,
        ) {
            Some(bindings[name])
        } else {
            match parent {
                Some(p) => t.resolve(name, p),
                None => None,
            }
        },
        t.well_formed() ==> t.with_scope(parent, bindings).well_formed(),
{
    if !bindings.contains_key(name) {
        match parent {
            Some(p) => {
                lemma_new_scope_changes_nothing(t, parent, bindings, name, p);
            },
            None => {},
        }
    }
}

/// A scope without a parent that holds a function's parameters resolves each
/// declared name to its declared variable, and no other name at all.
pub proof fn lemma_parameter_scope(
    t: TableModel,
    parameters: Map<Seq<char>, VariableModel>,
    name: Seq<char>,
)
    ensures
        t.with_scope(None, parameters).resolve(name, t.scopes.len()) == if parameters.contains_key(
            name,
        ) {
            Some(parameters[name])
        } else {
            None
        },
{
    lemma_new_scope_resolves(t, None, parameters, name);
}

/// Type commitment: the first check of a variable without a type passes and
/// commits the observed type; a later check passes exactly for that type, and
/// changes nothing either way.
pub proof fn lemma_type_commitment(v: VariableModel, first: TypeModel, later: TypeModel)
    requires
        v.typ is None,
    ensures
        v.accepts(first),
        v.observe(first).typ == Some(first),
        v.observe(first).accepts(later) <==> later == first,
        v.observe(first).observe(later) == v.observe(first),
{
}

} // verus!
