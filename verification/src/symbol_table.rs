//! The variable symbol table, a tree of lexical scopes kept in one arena, and
//! the function symbol table, a flat map from names to signatures.

use crate::ast::Type;
use crate::scope_model::{
    lemma_new_scope_resolves, FunctionModel, ScopeModel, ScopeRef, SemanticErrorModel,
    TableModel, VariableModel,
};
use crate::type_model::TypeModel;
use vstd::hash_map::StringHashMap;
use vstd::prelude::*;

verus! {

/// The model of a type that may not be there yet.
pub open spec fn model_of(typ: Option<Type>) -> Option<TypeModel> {
    match typ {
        Some(t) => Some(t@),
        None => None,
    }
}

/// The identifier that an index stands for.
pub open spec fn id_of(index: Option<usize>) -> Option<nat> {
    match index {
        Some(i) => Some(i as nat),
        None => None,
    }
}

/// The handle of a scope. A table hands one out for each scope it creates.
#[derive(Debug, Clone, Copy, PartialEq, Eq, Hash)]
pub struct Scope {
    id: usize,
    parent: Option<usize>,
}

impl View for Scope {
    type V = ScopeRef;

    closed spec fn view(&self) -> ScopeRef {
        ScopeRef { id: self.id as nat, parent: id_of(self.parent) }
    }
}

impl Scope {
    /// The identifier of the scope, unique within its table.
    pub fn id(&self) -> (id: usize)
        ensures
            id == self@.id,
    {
        self.id
    }

    /// The identifier of the parent scope, where there is one.
    pub fn parent(&self) -> (parent: Option<usize>)
        ensures
            id_of(parent) == self@.parent,
    {
        self.parent
    }
}

/// A variable: the type inferred for it so far and its two flags.
pub struct Variable<'a> {
    typ: Option<Type<'a>>,
    mutable: bool,
    initialized: bool,
}

impl<'a> View for Variable<'a> {
    type V = VariableModel;

    closed spec fn view(&self) -> VariableModel {
        VariableModel {
            typ: model_of(self.typ),
            mutable: self.mutable,
            initialized: self.initialized,
        }
    }
}

impl<'a> Variable<'a> {
    /// A variable that is not initialized yet, with its type left open where
    /// none is given.
    pub fn new(typ: Option<Type<'a>>, mutable: bool) -> (v: Self)
        ensures
            v@ == (VariableModel { typ: model_of(typ), mutable, initialized: false }),
    {
        Variable { typ, mutable, initialized: false }
    }

    /// Checks a use of the variable against the type observed there. The first
    /// check commits the variable to that type and passes; every later one
    /// passes exactly when the observed type equals the committed one, and
    /// changes nothing.
    pub fn check_type(&mut self, other: &Type<'a>) -> (passed: bool)
        ensures
            passed == old(self)@.accepts(other@),
            final(self)@ == old(self)@.observe(other@),
    {
        if let Some(ref t) = self.typ {
            return *t == *other;
        }
        self.typ = Some(other.clone());
        true
    }

    /// The committed type, where a use has fixed one.
    pub fn typ(&self) -> (typ: Option<&Type<'a>>)
        ensures
            match typ {
                Some(t) => self@.typ == Some(t@),
                None => self@.typ is None,
            },
    {
        self.typ.as_ref()
    }

    /// Whether the variable may be assigned to again.
    pub fn is_mutable(&self) -> (mutable: bool)
        ensures
            mutable == self@.mutable,
    {
        self.mutable
    }

    /// Whether the variable has been marked as holding a value.
    pub fn is_initialized(&self) -> (initialized: bool)
        ensures
            initialized == self@.initialized,
    {
        self.initialized
    }

    /// Marks the variable as holding a value.
    pub fn mark_initialized(&mut self)
        ensures
            final(self)@ == old(self)@.initialize(),
    {
        self.initialized = true;
    }
}

/// What a failed operation of the tables reports.
#[derive(Debug)]
pub enum SemanticError<'a> {
    /// No binding for the name in the scope or in any scope around it.
    UnresolvedIdentifier { name: String },
    /// A use observed a type other than the one the variable is committed to.
    TypeMismatch { expected: Type<'a>, found: Type<'a> },
    /// A function of that name was installed before.
    DuplicateFunction { name: String },
    /// The scope holds a declaration of that name already.
    DuplicateDeclaration { name: String },
}

impl<'a> View for SemanticError<'a> {
    type V = SemanticErrorModel;

    open spec fn view(&self) -> SemanticErrorModel {
        match *self {
            SemanticError::UnresolvedIdentifier { name } => {
                SemanticErrorModel::UnresolvedIdentifier { name: name@ }
            },
            SemanticError::TypeMismatch { expected, found } => SemanticErrorModel::TypeMismatch {
                expected: expected@,
                found: found@,
            },
            SemanticError::DuplicateFunction { name } => SemanticErrorModel::DuplicateFunction {
                name: name@,
            },
            SemanticError::DuplicateDeclaration { name } => {
                SemanticErrorModel::DuplicateDeclaration { name: name@ }
            },
        }
    }
}

/// The bindings of one scope: a map from names to variables.
pub struct InnerVST<'a> {
    variables: StringHashMap<Variable<'a>>,
}

impl<'a> View for InnerVST<'a> {
    type V = Map<Seq<char>, VariableModel>;

    closed spec fn view(&self) -> Map<Seq<char>, VariableModel> {
        Map::new(
            |name: Seq<char>| self.variables@.contains_key(name),
            |name: Seq<char>| self.variables@[name]@,
        )
    }
}

impl<'a> InnerVST<'a> {
    /// No bindings.
    pub fn new() -> (bindings: Self)
        ensures
            bindings@ == Map::<Seq<char>, VariableModel>::empty(),
    {
        InnerVST { variables: StringHashMap::new() }
    }

    /// Binds the name to the variable, in place of what it was bound to.
    pub fn insert(&mut self, name: &str, v: Variable<'a>)
        ensures
            final(self)@ == old(self)@.insert(name@, v@),
    {
        self.variables.insert(name.to_owned(), v);
    }

    /// The variable bound to the name, where there is one.
    pub fn get(&self, name: &str) -> (found: Option<&Variable<'a>>)
        ensures
            match found {
                Some(v) => self@.contains_key(name@) && self@[name@] == v@,
                None => !self@.contains_key(name@),
            },
    {
        self.variables.get(name)
    }

    /// Whether the name is bound.
    pub fn contains(&self, name: &str) -> (bound: bool)
        ensures
            bound == self@.contains_key(name@),
    {
        self.variables.contains_key(name)
    }
}

/// One scope in the arena: the place of its parent and its bindings.
struct ScopeEntry<'a> {
    parent: Option<usize>,
    table: InnerVST<'a>,
}

/// The variable symbol table: every scope of the analysis, each at the place
/// of its identifier, with its parent given by identifier.
pub struct VariableSymbolTable<'a> {
    tables: Vec<ScopeEntry<'a>>,
}

impl<'a> View for VariableSymbolTable<'a> {
    type V = TableModel;

    closed spec fn view(&self) -> TableModel {
        TableModel {
            scopes: Seq::new(
                self.tables@.len(),
                |i: int|
                    ScopeModel {
                        parent: id_of(self.tables@[i].parent),
                        bindings: self.tables@[i].table@,
                    },
            ),
        }
    }
}

impl<'a> VariableSymbolTable<'a> {
    /// A table without scopes.
    pub fn new() -> (table: Self)
        ensures
            table@ == TableModel::empty(),
            table@.well_formed(),
    {
        let table = VariableSymbolTable { tables: Vec::new() };
        assert(table@.scopes =~= Seq::empty());
        table
    }

    /// The number of scopes created so far.
    pub fn scope_count(&self) -> (count: usize)
        ensures
            count == self@.scopes.len(),
    {
        self.tables.len()
    }

    /// Whether the handle is one of this table's scopes.
    pub fn has_scope(&self, scope: &Scope) -> (present: bool)
        ensures
            present == self@.has(scope@),
    {
        if scope.id >= self.tables.len() {
            return false;
        }
        match (self.tables[scope.id].parent, scope.parent) {
            (Some(a), Some(b)) => a == b,
            (None, None) => true,
            _ => false,
        }
    }

    /// The handle of the scope's parent, where it has one.
    pub fn parent_of(&self, scope: &Scope) -> (parent: Option<Scope>)
        requires
            self@.well_formed(),
            self@.has(scope@),
        ensures
            match parent {
                Some(p) => self@.has(p@) && scope@.parent == Some(p@.id),
                None => scope@.parent is None,
            },
    {
        match scope.parent {
            Some(p) => {
                Some(Scope { id: p, parent: self.tables[p].parent })
            },
            None => None,
        }
    }

    /// The nearest scope that binds the name, going from `from` up the parents.
    fn find(&self, name: &str, from: usize) -> (found: Option<usize>)
        requires
            self@.well_formed(),
            from < self@.scopes.len(),
        ensures
            id_of(found) == self@.owner(name@, from as nat),
            found matches Some(holder) ==> self@.binds(holder as nat, name@),
    {
        let mut cur: usize = from;
        loop
            invariant
                self@.well_formed(),
                cur < self.tables@.len(),
                self@.owner(name@, cur as nat) == self@.owner(name@, from as nat),
            decreases cur,
        {
            if self.tables[cur].table.contains(name) {
                return Some(cur);
            }
            match self.tables[cur].parent {
                Some(p) => {
                    cur = p;
                },
                None => {
                    return None;
                },
            }
        }
    }

    /// Resolves the name as seen from the scope: the binding of the scope
    /// itself where it has one, else that of the nearest scope around it that
    /// has one. `None` says that the identifier is unresolved.
    pub fn get(&self, name: &str, scope: &Scope) -> (found: Option<&Variable<'a>>)
        requires
            self@.well_formed(),
            self@.has(scope@),
        ensures
            match found {
                Some(v) => self@.resolve(name@, scope@.id) == Some(v@),
                None => self@.resolve(name@, scope@.id) is None,
            },
    {
        let mut cur: usize = scope.id;
        loop
            invariant
                self@.well_formed(),
                cur < self.tables@.len(),
                self@.owner(name@, cur as nat) == self@.owner(name@, scope@.id),
            decreases cur,
        {
            let q = self.tables[cur].table.get(name);
            if q.is_some() {
                return q;
            }
            match self.tables[cur].parent {
                Some(p) => {
                    cur = p;
                },
                None => {
                    return None;
                },
            }
        }
    }

    /// Creates a scope under the given parent, or a root scope without one,
    /// and returns its handle. The scope starts with the given bindings, or
    /// with none. Its identifier is the number of scopes created before it, so
    /// no identifier is ever used twice.
    pub fn new_scope(&mut self, parent: Option<&Scope>, init: Option<InnerVST<'a>>) -> (scope:
        Scope)
        requires
            old(self)@.well_formed(),
            parent matches Some(p) ==> old(self)@.has(p@),
        ensures
            final(self)@.well_formed(),
            final(self)@ == old(self)@.with_scope(
                scope@.parent,
                match init {
                    Some(bindings) => bindings@,
                    None => Map::empty(),
                },
            ),
            scope@.id == old(self)@.scopes.len(),
            scope@.parent == match parent {
                Some(p) => Some(p@.id),
                None => None,
            },
            final(self)@.has(scope@),
            forall|s: ScopeRef| old(self)@.has(s) ==> final(self)@.has(s) && s.id != scope@.id,
    {
        let scope = Scope {
            id: self.tables.len(),
            parent: match parent {
                Some(p) => Some(p.id),
                None => None,
            },
        };
        let table = match init {
            Some(bindings) => bindings,
            None => InnerVST::new(),
        };
        self.tables.push(ScopeEntry { parent: scope.parent, table });
        assert(self@.scopes =~= old(self)@.with_scope(
            scope@.parent,
            match init {
                Some(bindings) => bindings@,
                None => Map::empty(),
            },
        ).scopes);
        scope
    }

    /// Binds the name to the variable in the given scope and in no other. A
    /// binding that the scope had for the name is replaced.
    pub fn install(&mut self, name: &str, scope: &Scope, v: Variable<'a>)
        requires
            old(self)@.well_formed(),
            old(self)@.has(scope@),
        ensures
            final(self)@.well_formed(),
            final(self)@ == old(self)@.with_binding(scope@.id, name@, v@),
    {
        self.tables[scope.id].table.insert(name, v);
        assert(self@.scopes =~= old(self)@.with_binding(scope@.id, name@, v@).scopes);
    }

    /// Declares the name in the given scope: binds it like `install`, unless
    /// the scope itself holds a binding for it already. Bindings of the same
    /// name in scopes around it do not count: those it shadows.
    pub fn declare(&mut self, name: &str, scope: &Scope, v: Variable<'a>) -> (declared: Result<
        (),
        SemanticError<'a>,
    >)
        requires
            old(self)@.well_formed(),
            old(self)@.has(scope@),
        ensures
            final(self)@.well_formed(),
            declared is Ok <==> !old(self)@.binds(scope@.id, name@),
            declared is Ok ==> final(self)@ == old(self)@.with_binding(scope@.id, name@, v@),
            declared matches Err(e) ==> final(self)@ == old(self)@ && e@ == (
            SemanticErrorModel::DuplicateDeclaration { name: name@ }),
    {
        if self.tables[scope.id].table.contains(name) {
            return Err(SemanticError::DuplicateDeclaration { name: name.to_owned() });
        }
        self.install(name, scope, v);
        Ok(())
    }

    /// Checks a use of the name, seen from the given scope, against the type
    /// observed there. The name is resolved as by `get` and the variable found
    /// is checked as by `Variable::check_type`: a first check commits it to the
    /// observed type, in the scope that holds it. No binding is added and no
    /// other scope is touched.
    pub fn check_type(&mut self, name: &str, scope: &Scope, observed: &Type<'a>) -> (checked:
        Result<(), SemanticError<'a>>)
        requires
            old(self)@.well_formed(),
            old(self)@.has(scope@),
        ensures
            final(self)@.well_formed(),
            match old(self)@.owner(name@, scope@.id) {
                None => {
                    &&& final(self)@ == old(self)@
                    &&& checked matches Err(e)
                    &&& e@ == (SemanticErrorModel::UnresolvedIdentifier { name: name@ })
                },
                Some(holder) => {
                    let v = old(self)@.scopes[holder as int].bindings[name@];
                    if v.accepts(observed@) {
                        &&& checked is Ok
                        &&& final(self)@ == old(self)@.with_binding(
                            holder,
                            name@,
                            v.observe(observed@),
                        )
                    } else {
                        &&& final(self)@ == old(self)@
                        &&& checked matches Err(e)
                        &&& e@ == (SemanticErrorModel::TypeMismatch {
                            expected: v.typ.unwrap(),
                            found: observed@,
                        })
                    }
                },
            },
    {
        let holder = match self.find(name, scope.id) {
            Some(holder) => holder,
            None => {
                return Err(SemanticError::UnresolvedIdentifier { name: name.to_owned() });
            },
        };
        let current = self.tables[holder].table.get(name).unwrap();
        match &current.typ {
            Some(committed) => {
                if *committed == *observed {
                    assert(self@.scopes =~= self@.with_binding(
                        holder as nat,
                        name@,
                        current@,
                    ).scopes) by {
                        assert(self@.scopes[holder as int].bindings =~= self@.scopes[holder as int].bindings.insert(
                            name@,
                            current@,
                        ));
                    }
                    Ok(())
                } else {
                    Err(
                        SemanticError::TypeMismatch {
                            expected: committed.clone(),
                            found: observed.clone(),
                        },
                    )
                }
            },
            None => {
                let committed = Variable {
                    typ: Some(observed.clone()),
                    mutable: current.mutable,
                    initialized: current.initialized,
                };
                self.tables[holder].table.insert(name, committed);
                assert(self@.scopes =~= old(self)@.with_binding(
                    holder as nat,
                    name@,
                    committed@,
                ).scopes);
                Ok(())
            },
        }
    }

    /// Marks the variable that the name resolves to, seen from the given
    /// scope, as holding a value. Nothing else about it changes.
    pub fn mark_initialized(&mut self, name: &str, scope: &Scope) -> (marked: Result<
        (),
        SemanticError<'a>,
    >)
        requires
            old(self)@.well_formed(),
            old(self)@.has(scope@),
        ensures
            final(self)@.well_formed(),
            match old(self)@.owner(name@, scope@.id) {
                None => {
                    &&& final(self)@ == old(self)@
                    &&& marked matches Err(e)
                    &&& e@ == (SemanticErrorModel::UnresolvedIdentifier { name: name@ })
                },
                Some(holder) => {
                    &&& marked is Ok
                    &&& final(self)@ == old(self)@.with_binding(
                        holder,
                        name@,
                        old(self)@.scopes[holder as int].bindings[name@].initialize(),
                    )
                },
            },
    {
        let holder = match self.find(name, scope.id) {
            Some(holder) => holder,
            None => {
                return Err(SemanticError::UnresolvedIdentifier { name: name.to_owned() });
            },
        };
        let current = self.tables[holder].table.get(name).unwrap();
        let marked = Variable {
            typ: match &current.typ {
                Some(t) => Some(t.clone()),
                None => None,
            },
            mutable: current.mutable,
            initialized: true,
        };
        self.tables[holder].table.insert(name, marked);
        assert(self@.scopes =~= old(self)@.with_binding(holder as nat, name@, marked@).scopes);
        Ok(())
    }
}

/// A function's signature: its return type and the scope of its parameters.
pub struct Function<'a> {
    ret_typ: Type<'a>,
    scope: Scope,
}

impl<'a> View for Function<'a> {
    type V = FunctionModel;

    closed spec fn view(&self) -> FunctionModel {
        FunctionModel { ret_typ: self.ret_typ@, scope: self.scope@ }
    }
}

impl<'a> Function<'a> {
    /// The signature with the given return type and parameter scope.
    pub fn new(ret_typ: Type<'a>, scope: Scope) -> (f: Self)
        ensures
            f@ == (FunctionModel { ret_typ: ret_typ@, scope: scope@ }),
    {
        Function { ret_typ, scope }
    }

    /// The return type.
    pub fn ret_typ(&self) -> (ret_typ: &Type<'a>)
        ensures
            ret_typ@ == self@.ret_typ,
    {
        &self.ret_typ
    }

    /// The scope that holds the parameters.
    pub fn scope(&self) -> (scope: Scope)
        ensures
            scope@ == self@.scope,
    {
        self.scope
    }
}

/// The function symbol table: one signature for each function name.
pub struct FunctionSymbolTable<'a> {
    tables: StringHashMap<Function<'a>>,
}

impl<'a> View for FunctionSymbolTable<'a> {
    type V = Map<Seq<char>, FunctionModel>;

    closed spec fn view(&self) -> Map<Seq<char>, FunctionModel> {
        Map::new(
            |name: Seq<char>| self.tables@.contains_key(name),
            |name: Seq<char>| self.tables@[name]@,
        )
    }
}

impl<'a> FunctionSymbolTable<'a> {
    /// A table without functions.
    pub fn new() -> (table: Self)
        ensures
            table@ == Map::<Seq<char>, FunctionModel>::empty(),
    {
        FunctionSymbolTable { tables: StringHashMap::new() }
    }

    /// The signature installed under the name. `None` says that the function
    /// is unresolved.
    pub fn get(&self, name: &str) -> (found: Option<&Function<'a>>)
        ensures
            match found {
                Some(f) => self@.contains_key(name@) && self@[name@] == f@,
                None => !self@.contains_key(name@),
            },
    {
        self.tables.get(name)
    }

    /// Installs a function: creates a root scope in the variable table that
    /// holds the parameters, records the signature under the name, and returns
    /// the scope, from which the function's body is analysed. A name that has
    /// a signature already is rejected, and then neither table changes.
    pub fn install(
        &mut self,
        name: &str,
        rtyp: Type<'a>,
        args: InnerVST<'a>,
        vst: &mut VariableSymbolTable<'a>,
    ) -> (installed: Result<Scope, SemanticError<'a>>)
        requires
            old(vst)@.well_formed(),
        ensures
            final(vst)@.well_formed(),
            installed is Ok <==> !old(self)@.contains_key(name@),
            installed matches Ok(scope) ==> {
                &&& scope@ == (ScopeRef { id: old(vst)@.scopes.len(), parent: None })
                &&& final(vst)@ == old(vst)@.with_scope(None, args@)
                &&& final(vst)@.has(scope@)
                &&& final(self)@ == old(self)@.insert(
                    name@,
                    FunctionModel { ret_typ: rtyp@, scope: scope@ },
                )
                &&& forall|parameter: Seq<char>| #[trigger]
                    final(vst)@.resolve(parameter, scope@.id) == if args@.contains_key(parameter) {
                        Some(args@[parameter])
                    } else {
                        None
                    }
            },
            installed matches Err(e) ==> {
                &&& e@ == (SemanticErrorModel::DuplicateFunction { name: name@ })
                &&& final(self)@ == old(self)@
                &&& final(vst)@ == old(vst)@
            },
    {
        if self.tables.contains_key(name) {
            return Err(SemanticError::DuplicateFunction { name: name.to_owned() });
        }
        let new_scope = vst.new_scope(None, Some(args));
        let f = Function::new(rtyp, new_scope);
        self.tables.insert(name.to_owned(), f);
        proof {
            assert(self@ =~= old(self)@.insert(
                name@,
                FunctionModel { ret_typ: rtyp@, scope: new_scope@ },
            ));
            assert forall|parameter: Seq<char>| #[trigger]
                vst@.resolve(parameter, new_scope@.id) == if args@.contains_key(parameter) {
                    Some(args@[parameter])
                } else {
                    None
                } by {
                lemma_new_scope_resolves(old(vst)@, None, args@, parameter);
            }
        }
        Ok(new_scope)
    }
}

} // verus!
