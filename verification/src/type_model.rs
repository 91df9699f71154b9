//! The mathematical model of types: a root tag over a sequence of child types,
//! the arity that each root asks for, and what equality of two types means.

use crate::ast::StructTypes;
use vstd::prelude::*;

verus! {

/// A root tag, with a struct's name as a sequence of characters.
pub enum InnerTypeModel {
    Int,
    Float,
    Bool,
    String,
    Vec,
    Tuple,
    Struct(StructTypes, Seq<char>),
    Enum,
    SelfRef,
    Dummy,
}

/// A type: its root and its children in order.
pub struct TypeModel {
    pub root: InnerTypeModel,
    pub children: Seq<TypeModel>,
}

impl InnerTypeModel {
    /// The most children a type with this root may hold; `None` where there is no limit.
    pub open spec fn child_limit(self) -> Option<nat> {
        match self {
            InnerTypeModel::Vec => Some(1),
            InnerTypeModel::Tuple => None,
            _ => Some(0),
        }
    }

    /// Whether a type with this root is complete with `count` children: a vector
    /// with exactly one, a tuple with any number, every other root with none.
    pub open spec fn admits(self, count: nat) -> bool {
        match self {
            InnerTypeModel::Vec => count == 1,
            InnerTypeModel::Tuple => true,
            _ => count == 0,
        }
    }
}

impl TypeModel {
    /// A type with the given root and no children.
    pub open spec fn leaf(root: InnerTypeModel) -> TypeModel {
        TypeModel { root, children: Seq::empty() }
    }

    /// Whether `extra` more children still fit under the root's limit.
    pub open spec fn has_room_for(self, extra: nat) -> bool {
        match self.root.child_limit() {
            Some(limit) => self.children.len() + extra <= limit,
            None => true,
        }
    }

    /// Whether the number of children is the one the root asks for.
    pub open spec fn arity_ok(self) -> bool {
        self.root.admits(self.children.len())
    }

    /// Whether the arity matches the root here and in every type below.
    pub open spec fn well_formed(self) -> bool
        decreases self,
    {
        &&& self.arity_ok()
        &&& forall|i: int|
            0 <= i < self.children.len() ==> (#[trigger] self.children[i]).well_formed()
    }
}

/// Two types are equal exactly when their roots are equal (for structs: the same
/// category and the same name) and their children are equal one by one.
pub proof fn lemma_equality_is_structural(a: TypeModel, b: TypeModel)
    ensures
        a == b <==> {
            &&& a.root == b.root
            &&& a.children.len() == b.children.len()
            &&& forall|i: int| 0 <= i < a.children.len() ==> a.children[i] == b.children[i]
        },
{
    if a.root == b.root && a.children.len() == b.children.len() && (forall|i: int|
        0 <= i < a.children.len() ==> a.children[i] == b.children[i]) {
        assert(a.children =~= b.children);
    }
}

/// Two struct roots are equal exactly when category and name both agree; a struct
/// root equals no other kind of root.
pub proof fn lemma_struct_roots(
    c1: StructTypes,
    n1: Seq<char>,
    c2: StructTypes,
    n2: Seq<char>,
)
    ensures
        InnerTypeModel::Struct(c1, n1) == InnerTypeModel::Struct(c2, n2) <==> c1 == c2 && n1
            == n2,
{
}

/// A complete type has the arity of its root: a vector exactly one child, a tuple
/// any number of them, and every other root none.
pub proof fn lemma_arity_by_root(t: TypeModel)
    requires
        t.arity_ok(),
    ensures
        t.root is Vec ==> t.children.len() == 1,
        !(t.root is Vec) && !(t.root is Tuple) ==> t.children.len() == 0,
{
}

/// A tuple is complete with any number of children, none included.
pub proof fn lemma_tuple_takes_any(children: Seq<TypeModel>)
    ensures
        (TypeModel { root: InnerTypeModel::Tuple, children }).arity_ok(),
{
}

/// A vector is complete with one child and with no other number of them.
pub proof fn lemma_vec_takes_one(children: Seq<TypeModel>)
    ensures
        (TypeModel { root: InnerTypeModel::Vec, children }).arity_ok() <==> children.len() == 1,
{
}

/// A type is well formed once its root admits the number of its children and
/// each child is well formed.
pub proof fn lemma_well_formed_from_children(root: InnerTypeModel, children: Seq<TypeModel>)
    requires
        root.admits(children.len()),
        forall|i: int| 0 <= i < children.len() ==> (#[trigger] children[i]).well_formed(),
    ensures
        (TypeModel { root, children }).well_formed(),
{
}

} // verus!
