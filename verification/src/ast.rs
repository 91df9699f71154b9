//! The type model and the syntax-tree vocabulary.

use crate::node_model::{ASTNodeModel, ASTNodeTypeModel, ImportableModel, OperatorModel};
use crate::text::{all_str_eq, str_eq, texts};
use crate::type_model::{lemma_well_formed_from_children, InnerTypeModel, TypeModel};
use vstd::prelude::*;
use vstd::std_specs::cmp::PartialEqSpecImpl;

verus! {

/// The role a struct plays.
#[derive(Debug, Clone, Copy, PartialEq, Eq, Structural)]
pub enum StructTypes {
    Message,
    Datum,
    Packet,
    /// Not yet known: the declaration may come later in the program.
    Unknown,
}

/// The root tag of a type.
#[derive(Debug, Clone, Copy, Eq)]
pub enum InnerType<'input> {
    Int,
    Float,
    Bool,
    String,
    Vec,
    Tuple,
    Struct(StructTypes, &'input str),
    Enum,
    SelfRef,
    Dummy,
}

impl<'input> View for InnerType<'input> {
    type V = InnerTypeModel;

    open spec fn view(&self) -> InnerTypeModel {
        match *self {
            InnerType::Int => InnerTypeModel::Int,
            InnerType::Float => InnerTypeModel::Float,
            InnerType::Bool => InnerTypeModel::Bool,
            InnerType::String => InnerTypeModel::String,
            InnerType::Vec => InnerTypeModel::Vec,
            InnerType::Tuple => InnerTypeModel::Tuple,
            InnerType::Struct(category, name) => InnerTypeModel::Struct(category, name@),
            InnerType::Enum => InnerTypeModel::Enum,
            InnerType::SelfRef => InnerTypeModel::SelfRef,
            InnerType::Dummy => InnerTypeModel::Dummy,
        }
    }
}

impl<'input> PartialEq for InnerType<'input> {
    fn eq(&self, other: &Self) -> (same: bool) {
        match (*self, *other) {
            (InnerType::Int, InnerType::Int) => true,
            (InnerType::Float, InnerType::Float) => true,
            (InnerType::Bool, InnerType::Bool) => true,
            (InnerType::String, InnerType::String) => true,
            (InnerType::Vec, InnerType::Vec) => true,
            (InnerType::Tuple, InnerType::Tuple) => true,
            (InnerType::Struct(c1, n1), InnerType::Struct(c2, n2)) => c1 == c2 && str_eq(n1, n2),
            (InnerType::Enum, InnerType::Enum) => true,
            (InnerType::SelfRef, InnerType::SelfRef) => true,
            (InnerType::Dummy, InnerType::Dummy) => true,
            _ => false,
        }
    }
}

impl<'input> PartialEqSpecImpl for InnerType<'input> {
    open spec fn obeys_eq_spec() -> bool {
        true
    }

    open spec fn eq_spec(&self, other: &Self) -> bool {
        self@ == other@
    }
}

/// A type: a root tag and the types it is made of, in order.
#[derive(Debug, Eq)]
pub struct Type<'input> {
    pub root: InnerType<'input>,
    /// Empty for primitives, one type for a vector, any number for a tuple.
    pub children: Vec<Box<Type<'input>>>,
}

impl<'input> Type<'input> {
    /// The model of the type: its root, and the models of its children in order.
    pub open spec fn model(&self) -> TypeModel
        decreases self,
    {
        TypeModel {
            root: self.root@,
            children: Seq::new(
                self.children@.len(),
                |i: int|
                    if 0 <= i < self.children@.len() {
                        (*self.children@[i]).model()
                    } else {
                        arbitrary()
                    },
            ),
        }
    }
}

impl<'input> View for Type<'input> {
    type V = TypeModel;

    open spec fn view(&self) -> TypeModel {
        self.model()
    }
}

impl<'input> Type<'input> {
    /// Whether the two types have the same root and, in order, the same children.
    fn same_as(&self, other: &Type<'input>) -> (same: bool)
        ensures
            same == (self@ == other@),
        decreases self,
    {
        assert(other@.children.len() == other.children@.len());
        if !(self.root == other.root) {
            return false;
        }
        let n: usize = self.children.len();
        if n != other.children.len() {
            return false;
        }
        let mut i: usize = 0;
        while i < n
            invariant
                i <= n,
                n == self.children@.len(),
                n == other.children@.len(),
                forall|j: int| 0 <= j < i ==> self.children@[j]@ == other.children@[j]@,
            decreases n - i,
        {
            if !self.children[i].same_as(&other.children[i]) {
                assert(other@.children[i as int] == other.children@[i as int]@);
                return false;
            }
            i += 1;
        }
        assert(self@.children =~= other@.children);
        true
    }

    /// A copy of the type and of everything below it.
    fn deep_copy(&self) -> (copy: Type<'input>)
        ensures
            copy@ == self@,
        decreases self,
    {
        let n: usize = self.children.len();
        let mut children: Vec<Box<Type<'input>>> = Vec::new();
        let mut i: usize = 0;
        while i < n
            invariant
                i <= n,
                n == self.children@.len(),
                children@.len() == i,
                forall|j: int| 0 <= j < i ==> children@[j]@ == self.children@[j]@,
            decreases n - i,
        {
            children.push(Box::new(self.children[i].deep_copy()));
            i += 1;
        }
        let copy = Type { root: self.root, children };
        assert(copy@.children =~= self@.children);
        copy
    }
}

impl<'input> PartialEq for Type<'input> {
    fn eq(&self, other: &Self) -> (same: bool) {
        self.same_as(other)
    }
}

impl<'input> PartialEqSpecImpl for Type<'input> {
    open spec fn obeys_eq_spec() -> bool {
        true
    }

    open spec fn eq_spec(&self, other: &Self) -> bool {
        self@ == other@
    }
}

impl<'input> Clone for Type<'input> {
    fn clone(&self) -> (copy: Self)
        ensures
            copy@ == self@,
    {
        self.deep_copy()
    }
}

/// Why a type could not be built or extended.
#[derive(Debug, Clone, Copy, PartialEq, Eq, Structural)]
pub enum TypeError {
    /// The root is neither a vector nor a tuple, so it takes no children.
    NoChildrenAllowed,
    /// A vector takes exactly one child.
    VecTakesOneChild,
}

/// The error that a root reports when the number of its children is wrong.
pub open spec fn arity_error(root: InnerTypeModel) -> TypeError {
    if root is Vec {
        TypeError::VecTakesOneChild
    } else {
        TypeError::NoChildrenAllowed
    }
}

/// The models of a vector of types, in order.
pub open spec fn models_of(types: Seq<Type>) -> Seq<TypeModel> {
    Seq::new(types.len(), |i: int| types[i]@)
}

impl<'input> Type<'input> {
    /// A type with the given root and no children yet.
    pub fn new(root: InnerType<'input>) -> (t: Self)
        ensures
            t@ == TypeModel::leaf(root@),
    {
        let t = Type { root, children: Vec::new() };
        assert(t@.children =~= Seq::empty());
        t
    }

    /// The placeholder type.
    pub fn dummy() -> (t: Self)
        ensures
            t@ == TypeModel::leaf(InnerTypeModel::Dummy),
            t@.well_formed(),
    {
        let t = Type { root: InnerType::Dummy, children: Vec::new() };
        assert(t@.children =~= Seq::empty());
        t
    }

    fn error_for(root: &InnerType<'input>) -> (e: TypeError)
        ensures
            e == arity_error(root@),
    {
        match root {
            InnerType::Vec => TypeError::VecTakesOneChild,
            _ => TypeError::NoChildrenAllowed,
        }
    }

    /// Whether `extra` more children fit under the root's limit.
    fn room_for(&self, extra: usize) -> (fits: bool)
        ensures
            fits == self@.has_room_for(extra as nat),
    {
        match self.root {
            InnerType::Vec => self.children.len() == 0 && extra <= 1 || self.children.len() == 1
                && extra == 0,
            InnerType::Tuple => true,
            _ => self.children.len() == 0 && extra == 0,
        }
    }

    /// Appends one child, unless the root has no room for it.
    pub fn add_child(&mut self, child: Type<'input>) -> (done: Result<(), TypeError>)
        ensures
            done is Ok <==> old(self)@.has_room_for(1),
            done is Ok ==> final(self)@ == (TypeModel {
                root: old(self)@.root,
                children: old(self)@.children.push(child@),
            }),
            done is Err ==> *final(self) == *old(self) && done == Err::<(), TypeError>(
                arity_error(old(self)@.root),
            ),
    {
        if !self.room_for(1) {
            return Err(Self::error_for(&self.root));
        }
        self.children.push(Box::new(child));
        assert(self@.children =~= old(self)@.children.push(child@));
        Ok(())
    }

    /// Appends the given children in order, unless the root has no room for all of them.
    pub fn add_children(&mut self, children: Vec<Type<'input>>) -> (done: Result<(), TypeError>)
        ensures
            done is Ok <==> old(self)@.has_room_for(children@.len()),
            done is Ok ==> final(self)@ == (TypeModel {
                root: old(self)@.root,
                children: old(self)@.children + models_of(children@),
            }),
            done is Err ==> *final(self) == *old(self) && done == Err::<(), TypeError>(
                arity_error(old(self)@.root),
            ),
    {
        if !self.room_for(children.len()) {
            return Err(Self::error_for(&self.root));
        }
        let ghost all = children@;
        for child in it: children
            invariant
                it.seq() == all,
                self.root == old(self).root,
                self@.children == old(self)@.children + models_of(all.take(it.index() as int)),
        {
            let ghost before = self@.children;
            self.children.push(Box::new(child));
            assert(self@.children =~= before.push(child@));
            assert(self@.children =~= old(self)@.children + models_of(
                all.take(it.index() + 1),
            ));
        }
        assert(all.take(all.len() as int) =~= all);
        Ok(())
    }

    /// A type with the given root and children, unless their number is not the one
    /// that the root asks for: a vector has exactly one child, a tuple any number,
    /// every other root none.
    pub fn with_children(root: InnerType<'input>, children: Vec<Type<'input>>) -> (built: Result<
        Type<'input>,
        TypeError,
    >)
        ensures
            built is Ok <==> root@.admits(children@.len()),
            built matches Ok(t) ==> t@ == (TypeModel {
                root: root@,
                children: models_of(children@),
            }) && t@.arity_ok(),
            built matches Ok(t) ==> ((forall|i: int|
                0 <= i < children@.len() ==> (#[trigger] children@[i])@.well_formed())
                ==> t@.well_formed()),
            built matches Err(e) ==> e == arity_error(root@),
    {
        let complete = match root {
            InnerType::Vec => children.len() == 1,
            InnerType::Tuple => true,
            _ => children.len() == 0,
        };
        if !complete {
            return Err(Self::error_for(&root));
        }
        let mut t = Type::new(root);
        t.add_children(children)?;
        proof {
            if forall|i: int|
                0 <= i < children@.len() ==> (#[trigger] children@[i])@.well_formed() {
                assert forall|i: int| 0 <= i < t@.children.len() implies (
                #[trigger] t@.children[i]).well_formed() by {
                    assert(t@.children[i] == children@[i]@);
                }
                lemma_well_formed_from_children(t@.root, t@.children);
            }
        }
        Ok(t)
    }

    /// Whether the number of children is the one the root asks for.
    pub fn is_complete(&self) -> (complete: bool)
        ensures
            complete == self@.arity_ok(),
    {
        match self.root {
            InnerType::Vec => self.children.len() == 1,
            InnerType::Tuple => true,
            _ => self.children.len() == 0,
        }
    }

    /// Whether the arity matches the root here and in every type below.
    pub fn is_well_formed(&self) -> (valid: bool)
        ensures
            valid == self@.well_formed(),
        decreases self,
    {
        if !self.is_complete() {
            return false;
        }
        let n: usize = self.children.len();
        let mut i: usize = 0;
        while i < n
            invariant
                i <= n,
                n == self.children@.len(),
                self@.arity_ok(),
                forall|j: int| 0 <= j < i ==> (#[trigger] self@.children[j]).well_formed(),
            decreases n - i,
        {
            assert(self@.children[i as int] == self.children@[i as int]@);
            if !self.children[i].is_well_formed() {
                return false;
            }
            i += 1;
        }
        true
    }
}

/// An operator of an expression.
#[derive(Debug, Clone, Copy, Eq)]
pub enum Operator<'input> {
    FieldAccess,
    EnumAccess,
    TupleAccess,
    TypeCast,
    Call,
    Index,
    /// `+`, `-`, `*`, `/`, `%`
    Arithmetic(&'input str),
    /// Unary minus
    Negate,
    /// `&&`, `||`, `!`
    Logical(&'input str),
    /// `==`, `!=`
    Eq(&'input str),
    /// `<`, `<=`, `>`, `>=`
    Ord(&'input str),
    /// An operator followed by `=`
    AssignOp(&'input str),
    /// No operator: the expression is a single operand.
    NoOp,
}

impl<'input> View for Operator<'input> {
    type V = OperatorModel;

    open spec fn view(&self) -> OperatorModel {
        match *self {
            Operator::FieldAccess => OperatorModel::FieldAccess,
            Operator::EnumAccess => OperatorModel::EnumAccess,
            Operator::TupleAccess => OperatorModel::TupleAccess,
            Operator::TypeCast => OperatorModel::TypeCast,
            Operator::Call => OperatorModel::Call,
            Operator::Index => OperatorModel::Index,
            Operator::Arithmetic(symbol) => OperatorModel::Arithmetic(symbol@),
            Operator::Negate => OperatorModel::Negate,
            Operator::Logical(symbol) => OperatorModel::Logical(symbol@),
            Operator::Eq(symbol) => OperatorModel::Eq(symbol@),
            Operator::Ord(symbol) => OperatorModel::Ord(symbol@),
            Operator::AssignOp(symbol) => OperatorModel::AssignOp(symbol@),
            Operator::NoOp => OperatorModel::NoOp,
        }
    }
}

impl<'input> PartialEq for Operator<'input> {
    fn eq(&self, other: &Self) -> (same: bool) {
        match (*self, *other) {
            (Operator::FieldAccess, Operator::FieldAccess) => true,
            (Operator::EnumAccess, Operator::EnumAccess) => true,
            (Operator::TupleAccess, Operator::TupleAccess) => true,
            (Operator::TypeCast, Operator::TypeCast) => true,
            (Operator::Call, Operator::Call) => true,
            (Operator::Index, Operator::Index) => true,
            (Operator::Arithmetic(a), Operator::Arithmetic(b)) => str_eq(a, b),
            (Operator::Negate, Operator::Negate) => true,
            (Operator::Logical(a), Operator::Logical(b)) => str_eq(a, b),
            (Operator::Eq(a), Operator::Eq(b)) => str_eq(a, b),
            (Operator::Ord(a), Operator::Ord(b)) => str_eq(a, b),
            (Operator::AssignOp(a), Operator::AssignOp(b)) => str_eq(a, b),
            (Operator::NoOp, Operator::NoOp) => true,
            _ => false,
        }
    }
}

impl<'input> PartialEqSpecImpl for Operator<'input> {
    open spec fn obeys_eq_spec() -> bool {
        true
    }

    open spec fn eq_spec(&self, other: &Self) -> bool {
        self@ == other@
    }
}

#[derive(Debug, Clone, Copy, PartialEq, Eq, Structural)]
pub enum LoopTypes {
    For,
    While,
}

#[derive(Debug, Clone, Copy, PartialEq, Eq, Structural)]
pub enum JumpTypes {
    Break,
    Continue,
    Return,
}

#[derive(Debug, Clone, Copy, PartialEq, Eq, Structural)]
pub enum ConditionalTypes {
    If,
    ElseIf,
    Else,
    IfLadder,
    Match,
    Case,
    CaseList,
}

#[derive(Debug, PartialEq, Eq, Structural)]
pub enum StatementTypes {
    Jump(JumpTypes),
    Declaration,
    Assignment,
    FunctionCall,
    Send,
    Dummy,
}

impl Clone for StatementTypes {
    fn clone(&self) -> (copy: Self)
        ensures
            copy == *self,
    {
        match self {
            StatementTypes::Jump(jump) => StatementTypes::Jump(*jump),
            StatementTypes::Declaration => StatementTypes::Declaration,
            StatementTypes::Assignment => StatementTypes::Assignment,
            StatementTypes::FunctionCall => StatementTypes::FunctionCall,
            StatementTypes::Send => StatementTypes::Send,
            StatementTypes::Dummy => StatementTypes::Dummy,
        }
    }
}

#[derive(Debug, Clone, Copy, PartialEq, Eq, Structural)]
pub enum EventType {
    Timer,
    Signal,
    Clock,
}

#[derive(Debug, Clone, Copy, PartialEq, Eq, Structural)]
pub enum SendAction {
    Send,
    Yeet,
    Reply,
}

/// One step of an import path.
#[derive(Debug, Clone, Copy, Eq)]
pub enum Importable<'input> {
    Item(&'input str),
    Wildcard,
}

impl<'input> View for Importable<'input> {
    type V = ImportableModel;

    open spec fn view(&self) -> ImportableModel {
        match *self {
            Importable::Item(name) => ImportableModel::Item(name@),
            Importable::Wildcard => ImportableModel::Wildcard,
        }
    }
}

impl<'input> PartialEq for Importable<'input> {
    fn eq(&self, other: &Self) -> (same: bool) {
        match (*self, *other) {
            (Importable::Item(a), Importable::Item(b)) => str_eq(a, b),
            (Importable::Wildcard, Importable::Wildcard) => true,
            _ => false,
        }
    }
}

impl<'input> PartialEqSpecImpl for Importable<'input> {
    open spec fn obeys_eq_spec() -> bool {
        true
    }

    open spec fn eq_spec(&self, other: &Self) -> bool {
        self@ == other@
    }
}

/// The path of an import, step by step.
#[derive(Debug, Eq)]
pub struct ImportPath<'input> {
    pub path: Vec<Importable<'input>>,
}

impl<'input> View for ImportPath<'input> {
    type V = Seq<ImportableModel>;

    open spec fn view(&self) -> Seq<ImportableModel> {
        Seq::new(self.path@.len(), |i: int| self.path@[i]@)
    }
}

impl<'input> PartialEq for ImportPath<'input> {
    fn eq(&self, other: &Self) -> (same: bool) {
        let n: usize = self.path.len();
        if n != other.path.len() {
            return false;
        }
        let mut i: usize = 0;
        while i < n
            invariant
                i <= n,
                n == self.path@.len(),
                n == other.path@.len(),
                forall|j: int| 0 <= j < i ==> self.path@[j]@ == other.path@[j]@,
            decreases n - i,
        {
            if !(self.path[i] == other.path[i]) {
                assert(self@[i as int] != other@[i as int]);
                return false;
            }
            i += 1;
        }
        assert(self@ =~= other@);
        true
    }
}

impl<'input> PartialEqSpecImpl for ImportPath<'input> {
    open spec fn obeys_eq_spec() -> bool {
        true
    }

    open spec fn eq_spec(&self, other: &Self) -> bool {
        self@ == other@
    }
}

impl<'input> Clone for ImportPath<'input> {
    fn clone(&self) -> (copy: Self)
        ensures
            copy@ == self@,
    {
        let n: usize = self.path.len();
        let mut path: Vec<Importable<'input>> = Vec::new();
        let mut i: usize = 0;
        while i < n
            invariant
                i <= n,
                n == self.path@.len(),
                path@.len() == i,
                forall|j: int| 0 <= j < i ==> path@[j] == self.path@[j],
            decreases n - i,
        {
            path.push(self.path[i]);
            i += 1;
        }
        ImportPath { path }
    }
}

/// The kind of a node. Each kind expects its children in a fixed shape, given
/// with the kind; the tree itself does not enforce it.
#[derive(Debug, Eq)]
pub enum ASTNodeType<'input> {
    /// The root. Children: nodes, messages, functions and the other top-level items.
    Network,
    /// Children: `Fields`, then any number of methods.
    Node(&'input str),
    /// Children: `Body`.
    Init,
    /// Children: `FunctionHeader`, `Body`.
    Function,
    /// Holds the function's name. Children: `Fields`, `Type`.
    FunctionHeader(&'input str),
    /// Holds the function's name. Children: any number of `Identifier`.
    FunctionCall(&'input str),
    /// Children: `FunctionHeader`, `Type`.
    MethodHeader,
    /// Children: an `Expression` of struct or enum type, `FunctionCall`.
    MethodCall,
    /// Holds a whole type. No children.
    Type(Type<'input>),
    Identifier(&'input str),
    SelfRef,
    Literal(&'input str),
    Variant(&'input str),
    Expression(Operator<'input>, Type<'input>),
    /// Children: `Identifier`, `Type`.
    TypeVar,
    /// Children: `Identifier`, `Expression`.
    ExprVar,
    Loop(LoopTypes),
    LoopHeader(LoopTypes),
    Conditional(ConditionalTypes),
    /// Children: the `Expression` to evaluate or to match; none for `Else`.
    ConditionalHeader(ConditionalTypes),
    Struct(StructTypes, &'input str),
    /// Children: any number of `TypeVar`.
    Fields,
    /// Children: any number of `Expression`.
    Constructor(&'input str),
    Send(SendAction),
    /// Children: `EnumVariants`, then any number of methods.
    Enum(&'input str),
    EnumVariants(Vec<&'input str>),
    /// Children: `Expression`.
    Event(EventType, &'input str),
    /// Children: `Body`.
    Handler(&'input str),
    Import(ImportPath<'input>),
    Statement(StatementTypes),
    Body,
}

impl<'input> View for ASTNodeType<'input> {
    type V = ASTNodeTypeModel;

    open spec fn view(&self) -> ASTNodeTypeModel {
        match *self {
            ASTNodeType::Network => ASTNodeTypeModel::Network,
            ASTNodeType::Node(name) => ASTNodeTypeModel::Node(name@),
            ASTNodeType::Init => ASTNodeTypeModel::Init,
            ASTNodeType::Function => ASTNodeTypeModel::Function,
            ASTNodeType::FunctionHeader(name) => ASTNodeTypeModel::FunctionHeader(name@),
            ASTNodeType::FunctionCall(name) => ASTNodeTypeModel::FunctionCall(name@),
            ASTNodeType::MethodHeader => ASTNodeTypeModel::MethodHeader,
            ASTNodeType::MethodCall => ASTNodeTypeModel::MethodCall,
            ASTNodeType::Type(t) => ASTNodeTypeModel::Type(t@),
            ASTNodeType::Identifier(name) => ASTNodeTypeModel::Identifier(name@),
            ASTNodeType::SelfRef => ASTNodeTypeModel::SelfRef,
            ASTNodeType::Literal(text) => ASTNodeTypeModel::Literal(text@),
            ASTNodeType::Variant(name) => ASTNodeTypeModel::Variant(name@),
            ASTNodeType::Expression(operator, t) => ASTNodeTypeModel::Expression(operator@, t@),
            ASTNodeType::TypeVar => ASTNodeTypeModel::TypeVar,
            ASTNodeType::ExprVar => ASTNodeTypeModel::ExprVar,
            ASTNodeType::Loop(kind) => ASTNodeTypeModel::Loop(kind),
            ASTNodeType::LoopHeader(kind) => ASTNodeTypeModel::LoopHeader(kind),
            ASTNodeType::Conditional(kind) => ASTNodeTypeModel::Conditional(kind),
            ASTNodeType::ConditionalHeader(kind) => ASTNodeTypeModel::ConditionalHeader(kind),
            ASTNodeType::Struct(category, name) => ASTNodeTypeModel::Struct(category, name@),
            ASTNodeType::Fields => ASTNodeTypeModel::Fields,
            ASTNodeType::Constructor(name) => ASTNodeTypeModel::Constructor(name@),
            ASTNodeType::Send(action) => ASTNodeTypeModel::Send(action),
            ASTNodeType::Enum(name) => ASTNodeTypeModel::Enum(name@),
            ASTNodeType::EnumVariants(names) => ASTNodeTypeModel::EnumVariants(texts(names@)),
            ASTNodeType::Event(kind, name) => ASTNodeTypeModel::Event(kind, name@),
            ASTNodeType::Handler(name) => ASTNodeTypeModel::Handler(name@),
            ASTNodeType::Import(path) => ASTNodeTypeModel::Import(path@),
            ASTNodeType::Statement(kind) => ASTNodeTypeModel::Statement(kind),
            ASTNodeType::Body => ASTNodeTypeModel::Body,
        }
    }
}

impl<'input> PartialEq for ASTNodeType<'input> {
    fn eq(&self, other: &Self) -> (same: bool) {
        match (self, other) {
            (ASTNodeType::Network, ASTNodeType::Network) => true,
            (ASTNodeType::Node(a), ASTNodeType::Node(b)) => str_eq(a, b),
            (ASTNodeType::Init, ASTNodeType::Init) => true,
            (ASTNodeType::Function, ASTNodeType::Function) => true,
            (ASTNodeType::FunctionHeader(a), ASTNodeType::FunctionHeader(b)) => str_eq(a, b),
            (ASTNodeType::FunctionCall(a), ASTNodeType::FunctionCall(b)) => str_eq(a, b),
            (ASTNodeType::MethodHeader, ASTNodeType::MethodHeader) => true,
            (ASTNodeType::MethodCall, ASTNodeType::MethodCall) => true,
            (ASTNodeType::Type(a), ASTNodeType::Type(b)) => a.same_as(b),
            (ASTNodeType::Identifier(a), ASTNodeType::Identifier(b)) => str_eq(a, b),
            (ASTNodeType::SelfRef, ASTNodeType::SelfRef) => true,
            (ASTNodeType::Literal(a), ASTNodeType::Literal(b)) => str_eq(a, b),
            (ASTNodeType::Variant(a), ASTNodeType::Variant(b)) => str_eq(a, b),
            (ASTNodeType::Expression(o1, t1), ASTNodeType::Expression(o2, t2)) => *o1 == *o2
                && t1.same_as(t2),
            (ASTNodeType::TypeVar, ASTNodeType::TypeVar) => true,
            (ASTNodeType::ExprVar, ASTNodeType::ExprVar) => true,
            (ASTNodeType::Loop(a), ASTNodeType::Loop(b)) => *a == *b,
            (ASTNodeType::LoopHeader(a), ASTNodeType::LoopHeader(b)) => *a == *b,
            (ASTNodeType::Conditional(a), ASTNodeType::Conditional(b)) => *a == *b,
            (ASTNodeType::ConditionalHeader(a), ASTNodeType::ConditionalHeader(b)) => *a == *b,
            (ASTNodeType::Struct(c1, n1), ASTNodeType::Struct(c2, n2)) => *c1 == *c2 && str_eq(
                n1,
                n2,
            ),
            (ASTNodeType::Fields, ASTNodeType::Fields) => true,
            (ASTNodeType::Constructor(a), ASTNodeType::Constructor(b)) => str_eq(a, b),
            (ASTNodeType::Send(a), ASTNodeType::Send(b)) => *a == *b,
            (ASTNodeType::Enum(a), ASTNodeType::Enum(b)) => str_eq(a, b),
            (ASTNodeType::EnumVariants(a), ASTNodeType::EnumVariants(b)) => all_str_eq(a, b),
            (ASTNodeType::Event(k1, n1), ASTNodeType::Event(k2, n2)) => *k1 == *k2 && str_eq(
                n1,
                n2,
            ),
            (ASTNodeType::Handler(a), ASTNodeType::Handler(b)) => str_eq(a, b),
            (ASTNodeType::Import(a), ASTNodeType::Import(b)) => *a == *b,
            (ASTNodeType::Statement(a), ASTNodeType::Statement(b)) => *a == *b,
            (ASTNodeType::Body, ASTNodeType::Body) => true,
            _ => false,
        }
    }
}

impl<'input> PartialEqSpecImpl for ASTNodeType<'input> {
    open spec fn obeys_eq_spec() -> bool {
        true
    }

    open spec fn eq_spec(&self, other: &Self) -> bool {
        self@ == other@
    }
}

impl<'input> Clone for ASTNodeType<'input> {
    fn clone(&self) -> (copy: Self)
        ensures
            copy@ == self@,
    {
        match self {
            ASTNodeType::Network => ASTNodeType::Network,
            ASTNodeType::Node(name) => ASTNodeType::Node(name),
            ASTNodeType::Init => ASTNodeType::Init,
            ASTNodeType::Function => ASTNodeType::Function,
            ASTNodeType::FunctionHeader(name) => ASTNodeType::FunctionHeader(name),
            ASTNodeType::FunctionCall(name) => ASTNodeType::FunctionCall(name),
            ASTNodeType::MethodHeader => ASTNodeType::MethodHeader,
            ASTNodeType::MethodCall => ASTNodeType::MethodCall,
            ASTNodeType::Type(t) => ASTNodeType::Type(t.deep_copy()),
            ASTNodeType::Identifier(name) => ASTNodeType::Identifier(name),
            ASTNodeType::SelfRef => ASTNodeType::SelfRef,
            ASTNodeType::Literal(text) => ASTNodeType::Literal(text),
            ASTNodeType::Variant(name) => ASTNodeType::Variant(name),
            ASTNodeType::Expression(operator, t) => ASTNodeType::Expression(
                *operator,
                t.deep_copy(),
            ),
            ASTNodeType::TypeVar => ASTNodeType::TypeVar,
            ASTNodeType::ExprVar => ASTNodeType::ExprVar,
            ASTNodeType::Loop(kind) => ASTNodeType::Loop(*kind),
            ASTNodeType::LoopHeader(kind) => ASTNodeType::LoopHeader(*kind),
            ASTNodeType::Conditional(kind) => ASTNodeType::Conditional(*kind),
            ASTNodeType::ConditionalHeader(kind) => ASTNodeType::ConditionalHeader(*kind),
            ASTNodeType::Struct(category, name) => ASTNodeType::Struct(*category, name),
            ASTNodeType::Fields => ASTNodeType::Fields,
            ASTNodeType::Constructor(name) => ASTNodeType::Constructor(name),
            ASTNodeType::Send(action) => ASTNodeType::Send(*action),
            ASTNodeType::Enum(name) => ASTNodeType::Enum(name),
            ASTNodeType::EnumVariants(names) => ASTNodeType::EnumVariants(copy_names(names)),
            ASTNodeType::Event(kind, name) => ASTNodeType::Event(*kind, name),
            ASTNodeType::Handler(name) => ASTNodeType::Handler(name),
            ASTNodeType::Import(path) => ASTNodeType::Import(path.clone()),
            ASTNodeType::Statement(kind) => ASTNodeType::Statement(kind.clone()),
            ASTNodeType::Body => ASTNodeType::Body,
        }
    }
}

/// A copy of a vector of names; the names themselves are shared.
fn copy_names<'input>(names: &Vec<&'input str>) -> (copy: Vec<&'input str>)
    ensures
        copy@ == names@,
{
    let n: usize = names.len();
    let mut copy: Vec<&'input str> = Vec::new();
    let mut i: usize = 0;
    while i < n
        invariant
            i <= n,
            n == names@.len(),
            copy@.len() == i,
            forall|j: int| 0 <= j < i ==> copy@[j] == names@[j],
        decreases n - i,
    {
        copy.push(names[i]);
        i += 1;
    }
    copy
}

/// A node of the syntax tree: a kind and the child nodes in order. Children are
/// only ever appended.
#[derive(Debug, Eq)]
pub struct ASTNode<'input> {
    typ: ASTNodeType<'input>,
    children: Vec<Box<ASTNode<'input>>>,
}

/// The models of a vector of nodes, in order.
pub open spec fn node_models_of(nodes: Seq<ASTNode>) -> Seq<ASTNodeModel> {
    Seq::new(nodes.len(), |i: int| nodes[i]@)
}

impl<'input> ASTNode<'input> {
    /// The model of the node: its kind, and the models of its children in order.
    pub closed spec fn model(&self) -> ASTNodeModel
        decreases self,
    {
        ASTNodeModel {
            typ: self.typ@,
            children: Seq::new(
                self.children@.len(),
                |i: int|
                    if 0 <= i < self.children@.len() {
                        (*self.children@[i]).model()
                    } else {
                        arbitrary()
                    },
            ),
        }
    }

    /// A node of the given kind without children.
    pub fn new(typ: ASTNodeType<'input>) -> (node: Self)
        ensures
            node@ == ASTNodeModel::leaf(typ@),
    {
        let node = ASTNode { typ, children: Vec::new() };
        assert(node@.children =~= Seq::empty());
        node
    }

    /// Appends one child after those already there.
    pub fn add_child(&mut self, child: ASTNode<'input>)
        ensures
            final(self)@ == (ASTNodeModel {
                typ: old(self)@.typ,
                children: old(self)@.children.push(child@),
            }),
    {
        self.children.push(Box::new(child));
        assert(self@.children =~= old(self)@.children.push(child@));
    }

    /// Appends the given children, in order, after those already there.
    pub fn add_children(&mut self, children: Vec<ASTNode<'input>>)
        ensures
            final(self)@ == (ASTNodeModel {
                typ: old(self)@.typ,
                children: old(self)@.children + node_models_of(children@),
            }),
    {
        let ghost all = children@;
        for child in it: children
            invariant
                it.seq() == all,
                self@.typ == old(self)@.typ,
                self@.children == old(self)@.children + node_models_of(
                    all.take(it.index() as int),
                ),
        {
            let ghost before = self@.children;
            self.children.push(Box::new(child));
            assert(self@.children =~= before.push(child@));
            assert(self@.children =~= old(self)@.children + node_models_of(
                all.take(it.index() + 1),
            ));
        }
        assert(all.take(all.len() as int) =~= all);
    }

    /// The kind of the node.
    pub fn typ(&self) -> (typ: &ASTNodeType<'input>)
        ensures
            typ@ == self@.typ,
    {
        &self.typ
    }

    /// The number of children.
    pub fn child_count(&self) -> (count: usize)
        ensures
            count == self@.children.len(),
    {
        self.children.len()
    }

    /// The child at the given place, counted from zero, where there is one.
    pub fn child(&self, index: usize) -> (child: Option<&ASTNode<'input>>)
        ensures
            child is Some <==> index < self@.children.len(),
            child matches Some(node) ==> node@ == self@.children[index as int],
    {
        if index < self.children.len() {
            Some(&*self.children[index])
        } else {
            None
        }
    }

    /// Whether the two trees have the same kinds and names in the same shape.
    fn same_as(&self, other: &ASTNode<'input>) -> (same: bool)
        ensures
            same == (self@ == other@),
        decreases self,
    {
        if !(self.typ == other.typ) {
            return false;
        }
        let n: usize = self.children.len();
        if n != other.children.len() {
            assert(self@.children.len() != other@.children.len());
            return false;
        }
        let mut i: usize = 0;
        while i < n
            invariant
                i <= n,
                n == self.children@.len(),
                n == other.children@.len(),
                forall|j: int| 0 <= j < i ==> self.children@[j]@ == other.children@[j]@,
            decreases n - i,
        {
            if !self.children[i].same_as(&other.children[i]) {
                assert(other@.children[i as int] == other.children@[i as int]@);
                return false;
            }
            i += 1;
        }
        assert(self@.children =~= other@.children);
        true
    }

    /// A copy of the node and of everything below it.
    fn deep_copy(&self) -> (copy: ASTNode<'input>)
        ensures
            copy@ == self@,
        decreases self,
    {
        let n: usize = self.children.len();
        let mut children: Vec<Box<ASTNode<'input>>> = Vec::new();
        let mut i: usize = 0;
        while i < n
            invariant
                i <= n,
                n == self.children@.len(),
                children@.len() == i,
                forall|j: int| 0 <= j < i ==> children@[j]@ == self.children@[j]@,
            decreases n - i,
        {
            children.push(Box::new(self.children[i].deep_copy()));
            i += 1;
        }
        let copy = ASTNode { typ: self.typ.clone(), children };
        assert(copy@.children =~= self@.children);
        copy
    }
}

impl<'input> View for ASTNode<'input> {
    type V = ASTNodeModel;

    open spec fn view(&self) -> ASTNodeModel {
        self.model()
    }
}

impl<'input> PartialEq for ASTNode<'input> {
    fn eq(&self, other: &Self) -> (same: bool) {
        self.same_as(other)
    }
}

impl<'input> PartialEqSpecImpl for ASTNode<'input> {
    open spec fn obeys_eq_spec() -> bool {
        true
    }

    open spec fn eq_spec(&self, other: &Self) -> bool {
        self@ == other@
    }
}

impl<'input> Clone for ASTNode<'input> {
    fn clone(&self) -> (copy: Self)
        ensures
            copy@ == self@,
    {
        self.deep_copy()
    }
}

/// A whole syntax tree.
#[derive(Debug, Eq)]
pub struct AST<'input> {
    pub root: ASTNode<'input>,
}

impl<'input> View for AST<'input> {
    type V = ASTNodeModel;

    open spec fn view(&self) -> ASTNodeModel {
        self.root@
    }
}

impl<'input> PartialEq for AST<'input> {
    fn eq(&self, other: &Self) -> (same: bool) {
        self.root.same_as(&other.root)
    }
}

impl<'input> PartialEqSpecImpl for AST<'input> {
    open spec fn obeys_eq_spec() -> bool {
        true
    }

    open spec fn eq_spec(&self, other: &Self) -> bool {
        self@ == other@
    }
}

impl<'input> Clone for AST<'input> {
    fn clone(&self) -> (copy: Self)
        ensures
            copy@ == self@,
    {
        AST { root: self.root.deep_copy() }
    }
}

} // verus!
