//! The mathematical model of syntax trees: each node is a kind over a sequence
//! of child nodes, and every name in a kind is a sequence of characters.

use crate::ast::{
    ConditionalTypes, EventType, LoopTypes, SendAction, StatementTypes, StructTypes,
};
use crate::type_model::TypeModel;
use vstd::prelude::*;

verus! {

/// An operator, with its symbol where the kind has several.
pub enum OperatorModel {
    FieldAccess,
    EnumAccess,
    TupleAccess,
    TypeCast,
    Call,
    Index,
    Arithmetic(Seq<char>),
    Negate,
    Logical(Seq<char>),
    Eq(Seq<char>),
    Ord(Seq<char>),
    AssignOp(Seq<char>),
    NoOp,
}

/// One step of an import path.
pub enum ImportableModel {
    Item(Seq<char>),
    Wildcard,
}

/// The kind of a node.
pub enum ASTNodeTypeModel {
    Network,
    Node(Seq<char>),
    Init,
    Function,
    FunctionHeader(Seq<char>),
    FunctionCall(Seq<char>),
    MethodHeader,
    MethodCall,
    Type(TypeModel),
    Identifier(Seq<char>),
    SelfRef,
    Literal(Seq<char>),
    Variant(Seq<char>),
    Expression(OperatorModel, TypeModel),
    TypeVar,
    ExprVar,
    Loop(LoopTypes),
    LoopHeader(LoopTypes),
    Conditional(ConditionalTypes),
    ConditionalHeader(ConditionalTypes),
    Struct(StructTypes, Seq<char>),
    Fields,
    Constructor(Seq<char>),
    Send(SendAction),
    Enum(Seq<char>),
    EnumVariants(Seq<Seq<char>>),
    Event(EventType, Seq<char>),
    Handler(Seq<char>),
    Import(Seq<ImportableModel>),
    Statement(StatementTypes),
    Body,
}

/// A node: its kind and its children in order.
pub struct ASTNodeModel {
    pub typ: ASTNodeTypeModel,
    pub children: Seq<ASTNodeModel>,
}

impl ASTNodeModel {
    /// A node of the given kind without children.
    pub open spec fn leaf(typ: ASTNodeTypeModel) -> ASTNodeModel {
        ASTNodeModel { typ, children: Seq::empty() }
    }
}

/// Two nodes are equal exactly when their kinds are equal and their children
/// are equal one by one.
pub proof fn lemma_node_equality_is_structural(a: ASTNodeModel, b: ASTNodeModel)
    ensures
        a == b <==> {
            &&& a.typ == b.typ
            &&& a.children.len() == b.children.len()
            &&& forall|i: int| 0 <= i < a.children.len() ==> a.children[i] == b.children[i]
        },
{
    if a.typ == b.typ && a.children.len() == b.children.len() && (forall|i: int|
        0 <= i < a.children.len() ==> a.children[i] == b.children[i]) {
        assert(a.children =~= b.children);
    }
}

} // verus!
