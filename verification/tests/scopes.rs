use sema_core::ast::{InnerType, StructTypes, Type};
use sema_core::symbol_table::{
    Function, FunctionSymbolTable, InnerVST, Scope, SemanticError, Variable, VariableSymbolTable,
};

fn integer() -> Type<'static> {
    Type::new(InnerType::Int)
}

fn boolean() -> Type<'static> {
    Type::new(InnerType::Bool)
}

fn float() -> Type<'static> {
    Type::new(InnerType::Float)
}

fn typed(t: Type<'static>) -> Variable<'static> {
    Variable::new(Some(t), false)
}

fn type_seen(vst: &VariableSymbolTable<'static>, name: &str, from: &Scope) -> Option<Type<'static>> {
    assert!(vst.has_scope(from));
    vst.get(name, from).map(|v| v.typ().expect("the variable has a type").clone())
}

/// root -> s1 -> s2 -> s3, and a sibling of s2 under s1 with a child of its own.
fn chain(vst: &mut VariableSymbolTable<'static>) -> (Scope, Scope, Scope, Scope, Scope, Scope) {
    let root = vst.new_scope(None, None);
    let s1 = vst.new_scope(Some(&root), None);
    let s2 = vst.new_scope(Some(&s1), None);
    let s3 = vst.new_scope(Some(&s2), None);
    let sibling = vst.new_scope(Some(&s1), None);
    let nephew = vst.new_scope(Some(&sibling), None);
    (root, s1, s2, s3, sibling, nephew)
}

#[test]
fn new_variable_is_uninitialized() {
    let v = Variable::new(None, true);
    assert!(v.typ().is_none());
    assert!(v.is_mutable());
    assert!(!v.is_initialized());
    let w = Variable::new(Some(integer()), false);
    assert!(*w.typ().unwrap() == integer());
    assert!(!w.is_mutable());
    assert!(!w.is_initialized());
}

#[test]
fn marking_initialized_changes_only_the_flag() {
    let mut v = Variable::new(Some(integer()), true);
    v.mark_initialized();
    assert!(v.is_initialized());
    assert!(v.is_mutable());
    assert!(*v.typ().unwrap() == integer());
    v.mark_initialized();
    assert!(v.is_initialized());
}

#[test]
fn first_check_commits_the_type() {
    let mut v = Variable::new(None, false);
    assert!(v.check_type(&integer()));
    assert!(*v.typ().unwrap() == integer());
    assert!(v.check_type(&integer()));
    assert!(!v.check_type(&boolean()));
    assert!(*v.typ().unwrap() == integer());
    assert!(v.check_type(&integer()));
}

#[test]
fn later_checks_compare_structurally() {
    let mut vec_int = Type::new(InnerType::Vec);
    vec_int.add_child(integer()).unwrap();
    let mut vec_float = Type::new(InnerType::Vec);
    vec_float.add_child(float()).unwrap();
    let mut v = Variable::new(None, false);
    assert!(v.check_type(&vec_int));
    assert!(v.check_type(&vec_int.clone()));
    assert!(!v.check_type(&vec_float));
    assert!(!v.check_type(&Type::new(InnerType::Vec)));
    let mut w = Variable::new(Some(Type::new(InnerType::Struct(StructTypes::Message, "Foo"))), false);
    assert!(w.check_type(&Type::new(InnerType::Struct(StructTypes::Message, "Foo"))));
    assert!(!w.check_type(&Type::new(InnerType::Struct(StructTypes::Datum, "Foo"))));
    assert!(!w.check_type(&Type::new(InnerType::Struct(StructTypes::Message, "Bar"))));
}

#[test]
fn a_declared_type_is_committed_from_the_start() {
    let mut v = Variable::new(Some(boolean()), false);
    assert!(!v.check_type(&integer()));
    assert!(v.check_type(&boolean()));
    assert!(*v.typ().unwrap() == boolean());
}

#[test]
fn a_check_keeps_the_flags() {
    let mut v = Variable::new(None, true);
    v.mark_initialized();
    assert!(v.check_type(&integer()));
    assert!(v.is_mutable());
    assert!(v.is_initialized());
}

#[test]
fn scope_identifiers_grow_and_are_never_reused() {
    let mut vst = VariableSymbolTable::new();
    assert_eq!(vst.scope_count(), 0);
    let a = vst.new_scope(None, None);
    let b = vst.new_scope(Some(&a), None);
    let c = vst.new_scope(None, Some(InnerVST::new()));
    let d = vst.new_scope(Some(&b), None);
    assert_eq!(a.id(), 0);
    assert_eq!(b.id(), 1);
    assert_eq!(c.id(), 2);
    assert_eq!(d.id(), 3);
    assert_eq!(a.parent(), None);
    assert_eq!(b.parent(), Some(0));
    assert_eq!(c.parent(), None);
    assert_eq!(d.parent(), Some(1));
    assert_eq!(vst.scope_count(), 4);
    assert!(d.parent().unwrap() < d.id());
}

#[test]
fn a_table_knows_its_own_scopes() {
    let mut vst = VariableSymbolTable::new();
    let mut other = VariableSymbolTable::new();
    let a = vst.new_scope(None, None);
    let b = vst.new_scope(Some(&a), None);
    assert!(vst.has_scope(&a));
    assert!(vst.has_scope(&b));
    assert!(!other.has_scope(&a));
    let x = other.new_scope(None, None);
    let y = other.new_scope(None, None);
    assert!(other.has_scope(&x));
    assert!(other.has_scope(&y));
    assert!(vst.has_scope(&x));
    assert!(!vst.has_scope(&y));
    assert!(!other.has_scope(&b));
}

#[test]
fn parent_of_gives_the_enclosing_scope() {
    let mut vst = VariableSymbolTable::new();
    let (root, s1, s2, _s3, sibling, nephew) = chain(&mut vst);
    assert!(vst.parent_of(&root).is_none());
    assert_eq!(vst.parent_of(&s1), Some(root));
    assert_eq!(vst.parent_of(&s2), Some(s1));
    assert_eq!(vst.parent_of(&sibling), Some(s1));
    assert_eq!(vst.parent_of(&nephew), Some(sibling));
}

#[test]
fn binding_is_visible_from_its_scope_and_below() {
    let mut vst = VariableSymbolTable::new();
    let (root, s1, s2, s3, sibling, nephew) = chain(&mut vst);
    vst.install("v", &s2, typed(integer()));
    assert!(type_seen(&vst, "v", &s2) == Some(integer()));
    assert!(type_seen(&vst, "v", &s3) == Some(integer()));
    assert!(type_seen(&vst, "v", &s1).is_none());
    assert!(type_seen(&vst, "v", &root).is_none());
    assert!(type_seen(&vst, "v", &sibling).is_none());
    assert!(type_seen(&vst, "v", &nephew).is_none());
}

#[test]
fn binding_in_the_root_is_visible_everywhere_below() {
    let mut vst = VariableSymbolTable::new();
    let (root, s1, s2, s3, sibling, nephew) = chain(&mut vst);
    let elsewhere = vst.new_scope(None, None);
    vst.install("g", &root, typed(boolean()));
    for scope in [root, s1, s2, s3, sibling, nephew] {
        assert!(type_seen(&vst, "g", &scope) == Some(boolean()));
    }
    assert!(type_seen(&vst, "g", &elsewhere).is_none());
}

#[test]
fn inner_binding_shadows_the_outer_one() {
    let mut vst = VariableSymbolTable::new();
    let (root, s1, s2, s3, sibling, nephew) = chain(&mut vst);
    vst.install("x", &s1, typed(integer()));
    vst.install("x", &s2, typed(boolean()));
    assert!(type_seen(&vst, "x", &s2) == Some(boolean()));
    assert!(type_seen(&vst, "x", &s3) == Some(boolean()));
    assert!(type_seen(&vst, "x", &s1) == Some(integer()));
    assert!(type_seen(&vst, "x", &sibling) == Some(integer()));
    assert!(type_seen(&vst, "x", &nephew) == Some(integer()));
    assert!(type_seen(&vst, "x", &root).is_none());
}

#[test]
fn child_without_bindings_resolves_through_its_parent() {
    let mut vst = VariableSymbolTable::new();
    let a = vst.new_scope(None, None);
    vst.install("n", &a, typed(integer()));
    let b = vst.new_scope(Some(&a), None);
    assert!(type_seen(&vst, "n", &b) == Some(integer()));
    assert!(type_seen(&vst, "m", &b).is_none());
}

#[test]
fn a_scope_created_later_sees_earlier_and_later_bindings() {
    let mut vst = VariableSymbolTable::new();
    let a = vst.new_scope(None, None);
    let b = vst.new_scope(Some(&a), None);
    vst.install("late", &a, typed(float()));
    assert!(type_seen(&vst, "late", &b) == Some(float()));
}

#[test]
fn install_overwrites_in_the_same_scope_only() {
    let mut vst = VariableSymbolTable::new();
    let a = vst.new_scope(None, None);
    let b = vst.new_scope(Some(&a), None);
    vst.install("x", &a, typed(integer()));
    vst.install("y", &a, typed(float()));
    vst.install("x", &a, typed(boolean()));
    assert!(type_seen(&vst, "x", &a) == Some(boolean()));
    assert!(type_seen(&vst, "x", &b) == Some(boolean()));
    assert!(type_seen(&vst, "y", &a) == Some(float()));
    vst.install("x", &b, typed(integer()));
    assert!(type_seen(&vst, "x", &a) == Some(boolean()));
    assert!(type_seen(&vst, "x", &b) == Some(integer()));
}

#[test]
fn names_are_told_apart_by_content() {
    let mut vst = VariableSymbolTable::new();
    let a = vst.new_scope(None, None);
    let name = String::from("coun") + "t";
    vst.install(&name, &a, typed(integer()));
    assert!(type_seen(&vst, "count", &a) == Some(integer()));
    assert!(type_seen(&vst, "Count", &a).is_none());
    assert!(type_seen(&vst, "coun", &a).is_none());
    assert!(type_seen(&vst, "", &a).is_none());
}

#[test]
fn initial_bindings_populate_the_new_scope() {
    let mut vst = VariableSymbolTable::new();
    let outer = vst.new_scope(None, None);
    vst.install("o", &outer, typed(float()));
    let mut init = InnerVST::new();
    init.insert("a", typed(integer()));
    init.insert("b", typed(boolean()));
    let inner = vst.new_scope(Some(&outer), Some(init));
    assert!(type_seen(&vst, "a", &inner) == Some(integer()));
    assert!(type_seen(&vst, "b", &inner) == Some(boolean()));
    assert!(type_seen(&vst, "o", &inner) == Some(float()));
    assert!(type_seen(&vst, "a", &outer).is_none());
}

#[test]
fn bindings_map_keeps_the_last_insert() {
    let mut init = InnerVST::new();
    assert!(!init.contains("a"));
    assert!(init.get("a").is_none());
    init.insert("a", typed(integer()));
    init.insert("a", typed(boolean()));
    assert!(init.contains("a"));
    assert!(*init.get("a").unwrap().typ().unwrap() == boolean());
    assert!(!init.contains("b"));
}

#[test]
fn declare_rejects_a_second_declaration_in_one_scope() {
    let mut vst = VariableSymbolTable::new();
    let a = vst.new_scope(None, None);
    let b = vst.new_scope(Some(&a), None);
    assert!(vst.declare("x", &a, typed(integer())).is_ok());
    let again = vst.declare("x", &a, typed(boolean()));
    assert!(matches!(again, Err(SemanticError::DuplicateDeclaration { ref name }) if name == "x"));
    assert!(type_seen(&vst, "x", &a) == Some(integer()));
    assert!(vst.declare("x", &b, typed(boolean())).is_ok());
    assert!(type_seen(&vst, "x", &b) == Some(boolean()));
    assert!(type_seen(&vst, "x", &a) == Some(integer()));
}

#[test]
fn table_check_commits_in_the_scope_that_holds_the_variable() {
    let mut vst = VariableSymbolTable::new();
    let a = vst.new_scope(None, None);
    let b = vst.new_scope(Some(&a), None);
    vst.install("v", &a, Variable::new(None, true));
    assert!(vst.get("v", &b).unwrap().typ().is_none());
    assert!(vst.check_type("v", &b, &integer()).is_ok());
    assert!(type_seen(&vst, "v", &a) == Some(integer()));
    assert!(type_seen(&vst, "v", &b) == Some(integer()));
    assert!(vst.get("v", &a).unwrap().is_mutable());
    assert!(!vst.get("v", &a).unwrap().is_initialized());
    assert!(vst.check_type("v", &a, &integer()).is_ok());
}

#[test]
fn table_check_reports_both_types_on_a_mismatch() {
    let mut vst = VariableSymbolTable::new();
    let a = vst.new_scope(None, None);
    vst.install("v", &a, typed(integer()));
    let checked = vst.check_type("v", &a, &boolean());
    match checked {
        Err(SemanticError::TypeMismatch { expected, found }) => {
            assert!(expected == integer());
            assert!(found == boolean());
        }
        _ => panic!("a mismatch was expected"),
    }
    assert!(type_seen(&vst, "v", &a) == Some(integer()));
}

#[test]
fn table_check_reports_an_unresolved_identifier() {
    let mut vst = VariableSymbolTable::new();
    let a = vst.new_scope(None, None);
    let b = vst.new_scope(Some(&a), None);
    vst.install("inner", &b, typed(integer()));
    let checked = vst.check_type("inner", &a, &integer());
    assert!(matches!(checked, Err(SemanticError::UnresolvedIdentifier { ref name }) if name == "inner"));
    let missing = vst.check_type("nothing", &b, &integer());
    assert!(matches!(missing, Err(SemanticError::UnresolvedIdentifier { ref name }) if name == "nothing"));
}

#[test]
fn table_check_goes_to_the_nearest_binding() {
    let mut vst = VariableSymbolTable::new();
    let a = vst.new_scope(None, None);
    let b = vst.new_scope(Some(&a), None);
    vst.install("x", &a, Variable::new(None, false));
    vst.install("x", &b, Variable::new(None, false));
    assert!(vst.check_type("x", &b, &boolean()).is_ok());
    assert!(vst.get("x", &a).unwrap().typ().is_none());
    assert!(type_seen(&vst, "x", &b) == Some(boolean()));
    assert!(vst.check_type("x", &a, &integer()).is_ok());
    assert!(type_seen(&vst, "x", &a) == Some(integer()));
    assert!(type_seen(&vst, "x", &b) == Some(boolean()));
}

#[test]
fn table_marks_the_resolved_variable_initialized() {
    let mut vst = VariableSymbolTable::new();
    let a = vst.new_scope(None, None);
    let b = vst.new_scope(Some(&a), None);
    vst.install("v", &a, Variable::new(Some(integer()), true));
    vst.install("w", &a, Variable::new(None, false));
    assert!(vst.mark_initialized("v", &b).is_ok());
    assert!(vst.get("v", &a).unwrap().is_initialized());
    assert!(vst.get("v", &a).unwrap().is_mutable());
    assert!(type_seen(&vst, "v", &a) == Some(integer()));
    assert!(!vst.get("w", &a).unwrap().is_initialized());
    assert!(vst.mark_initialized("w", &a).is_ok());
    assert!(vst.get("w", &a).unwrap().is_initialized());
    assert!(vst.get("w", &a).unwrap().typ().is_none());
    let missing = vst.mark_initialized("u", &b);
    assert!(matches!(missing, Err(SemanticError::UnresolvedIdentifier { ref name }) if name == "u"));
}

#[test]
fn function_parameters_resolve_inside_the_body() {
    let mut vst = VariableSymbolTable::new();
    let mut fst = FunctionSymbolTable::new();
    let mut args = InnerVST::new();
    args.insert("x", typed(integer()));
    let scope = fst.install("f", boolean(), args, &mut vst).unwrap();
    let body = vst.new_scope(Some(&scope), None);
    assert!(type_seen(&vst, "x", &body) == Some(integer()));
    assert!(type_seen(&vst, "x", &scope) == Some(integer()));
    assert!(vst.get("y", &body).is_none());
    assert!(vst.get("y", &scope).is_none());
    let y = vst.check_type("y", &body, &integer());
    assert!(matches!(y, Err(SemanticError::UnresolvedIdentifier { ref name }) if name == "y"));
}

#[test]
fn every_parameter_resolves_and_nothing_else() {
    let mut vst = VariableSymbolTable::new();
    let outer = vst.new_scope(None, None);
    vst.install("global", &outer, typed(integer()));
    let mut fst = FunctionSymbolTable::new();
    let mut args = InnerVST::new();
    args.insert("a", typed(integer()));
    args.insert("b", typed(float()));
    args.insert("c", typed(boolean()));
    let scope = fst.install("h", integer(), args, &mut vst).unwrap();
    assert!(scope.parent().is_none());
    assert!(vst.has_scope(&scope));
    assert!(type_seen(&vst, "a", &scope) == Some(integer()));
    assert!(type_seen(&vst, "b", &scope) == Some(float()));
    assert!(type_seen(&vst, "c", &scope) == Some(boolean()));
    assert!(vst.get("d", &scope).is_none());
    assert!(vst.get("global", &scope).is_none());
    assert!(vst.get("h", &scope).is_none());
}

#[test]
fn a_function_without_parameters_resolves_nothing() {
    let mut vst = VariableSymbolTable::new();
    let mut fst = FunctionSymbolTable::new();
    let scope = fst.install("unit", Type::dummy(), InnerVST::new(), &mut vst).unwrap();
    assert!(vst.get("x", &scope).is_none());
    assert!(*fst.get("unit").unwrap().ret_typ() == Type::dummy());
}

#[test]
fn installed_function_is_found_with_its_signature() {
    let mut vst = VariableSymbolTable::new();
    let mut fst = FunctionSymbolTable::new();
    assert!(fst.get("f").is_none());
    let mut args = InnerVST::new();
    args.insert("x", typed(integer()));
    let scope = fst.install("f", boolean(), args, &mut vst).unwrap();
    let f = fst.get("f").unwrap();
    assert!(*f.ret_typ() == boolean());
    assert_eq!(f.scope(), scope);
    assert!(fst.get("g").is_none());
    assert!(fst.get("F").is_none());
}

#[test]
fn each_function_gets_a_scope_of_its_own() {
    let mut vst = VariableSymbolTable::new();
    let mut fst = FunctionSymbolTable::new();
    let mut first = InnerVST::new();
    first.insert("x", typed(integer()));
    let mut second = InnerVST::new();
    second.insert("x", typed(boolean()));
    let f = fst.install("f", integer(), first, &mut vst).unwrap();
    let g = fst.install("g", integer(), second, &mut vst).unwrap();
    assert!(f.id() != g.id());
    assert!(type_seen(&vst, "x", &f) == Some(integer()));
    assert!(type_seen(&vst, "x", &g) == Some(boolean()));
    assert_eq!(fst.get("f").unwrap().scope(), f);
    assert_eq!(fst.get("g").unwrap().scope(), g);
}

#[test]
fn second_installation_of_a_function_is_rejected() {
    let mut vst = VariableSymbolTable::new();
    let mut fst = FunctionSymbolTable::new();
    let mut first = InnerVST::new();
    first.insert("x", typed(integer()));
    let scope = fst.install("g", boolean(), first, &mut vst).unwrap();
    let scopes_before = vst.scope_count();
    let mut second = InnerVST::new();
    second.insert("y", typed(float()));
    second.insert("z", typed(float()));
    let again = fst.install("g", integer(), second, &mut vst);
    assert!(matches!(again, Err(SemanticError::DuplicateFunction { ref name }) if name == "g"));
    assert_eq!(vst.scope_count(), scopes_before);
    let g = fst.get("g").unwrap();
    assert!(*g.ret_typ() == boolean());
    assert_eq!(g.scope(), scope);
    assert!(type_seen(&vst, "x", &scope) == Some(integer()));
    assert!(vst.get("y", &scope).is_none());
}

#[test]
fn function_record_keeps_what_it_was_given() {
    let mut vst = VariableSymbolTable::new();
    let scope = vst.new_scope(None, None);
    let f = Function::new(float(), scope);
    assert!(*f.ret_typ() == float());
    assert_eq!(f.scope(), scope);
    assert_eq!(f.scope().id(), 0);
}
