use sema_core::ast::{InnerType, StructTypes, Type, TypeError};
use sema_core::text::{all_str_eq, str_eq};

fn leaf(root: InnerType<'static>) -> Type<'static> {
    Type::new(root)
}

fn vec_of(child: Type<'static>) -> Type<'static> {
    let mut t = Type::new(InnerType::Vec);
    t.add_child(child).unwrap();
    t
}

fn tuple_of(children: Vec<Type<'static>>) -> Type<'static> {
    let mut t = Type::new(InnerType::Tuple);
    t.add_children(children).unwrap();
    t
}

#[test]
fn new_type_has_root_and_no_children() {
    let t = Type::new(InnerType::Bool);
    assert!(t.root == InnerType::Bool);
    assert!(t.children.is_empty());
}

#[test]
fn dummy_is_a_placeholder_without_children() {
    let t = Type::dummy();
    assert!(t.root == InnerType::Dummy);
    assert!(t.children.is_empty());
    assert!(t.is_well_formed());
    assert!(t == Type::new(InnerType::Dummy));
}

#[test]
fn vector_types_differ_by_their_child() {
    let a = vec_of(leaf(InnerType::Int));
    let b = vec_of(leaf(InnerType::Float));
    assert!(a != b);
    assert!(!(a == b));
    assert!(a == vec_of(leaf(InnerType::Int)));
}

#[test]
fn tuples_with_the_same_children_are_equal() {
    let a = tuple_of(vec![leaf(InnerType::Int), leaf(InnerType::Bool)]);
    let b = tuple_of(vec![leaf(InnerType::Int), leaf(InnerType::Bool)]);
    assert!(a == b);
    assert_eq!(a, b);
}

#[test]
fn tuples_differ_by_order_and_by_length() {
    let a = tuple_of(vec![leaf(InnerType::Int), leaf(InnerType::Bool)]);
    let swapped = tuple_of(vec![leaf(InnerType::Bool), leaf(InnerType::Int)]);
    let shorter = tuple_of(vec![leaf(InnerType::Int)]);
    let longer = tuple_of(vec![leaf(InnerType::Int), leaf(InnerType::Bool), leaf(InnerType::Bool)]);
    assert!(a != swapped);
    assert!(a != shorter);
    assert!(a != longer);
    assert!(shorter != a);
}

#[test]
fn structs_differ_by_category_and_by_name() {
    let message = leaf(InnerType::Struct(StructTypes::Message, "Foo"));
    let datum = leaf(InnerType::Struct(StructTypes::Datum, "Foo"));
    let other = leaf(InnerType::Struct(StructTypes::Message, "Bar"));
    let again = leaf(InnerType::Struct(StructTypes::Message, "Foo"));
    assert!(message != datum);
    assert!(message != other);
    assert!(message == again);
}

#[test]
fn struct_names_are_compared_by_content() {
    let built = String::from("Fo") + "o";
    let a = InnerType::Struct(StructTypes::Packet, built.as_str());
    let b = InnerType::Struct(StructTypes::Packet, "Foo");
    assert!(a == b);
    assert!(a != InnerType::Struct(StructTypes::Packet, "Fo"));
    assert!(a != InnerType::Struct(StructTypes::Unknown, "Foo"));
}

#[test]
fn roots_of_different_kinds_differ() {
    let roots = [
        InnerType::Int,
        InnerType::Float,
        InnerType::Bool,
        InnerType::String,
        InnerType::Vec,
        InnerType::Tuple,
        InnerType::Struct(StructTypes::Datum, "S"),
        InnerType::Enum,
        InnerType::SelfRef,
        InnerType::Dummy,
    ];
    for (i, a) in roots.iter().enumerate() {
        for (j, b) in roots.iter().enumerate() {
            assert_eq!(a == b, i == j);
        }
    }
}

#[test]
fn nested_types_are_compared_all_the_way_down() {
    let a = vec_of(tuple_of(vec![leaf(InnerType::Int), vec_of(leaf(InnerType::String))]));
    let b = vec_of(tuple_of(vec![leaf(InnerType::Int), vec_of(leaf(InnerType::String))]));
    let c = vec_of(tuple_of(vec![leaf(InnerType::Int), vec_of(leaf(InnerType::Bool))]));
    assert!(a == b);
    assert!(a != c);
}

#[test]
fn clone_is_equal_and_independent() {
    let a = vec_of(tuple_of(vec![leaf(InnerType::Int), leaf(InnerType::Bool)]));
    let mut b = tuple_of(vec![leaf(InnerType::Int)]);
    let copy = a.clone();
    assert!(copy == a);
    let before = b.clone();
    b.add_child(leaf(InnerType::Bool)).unwrap();
    assert!(before != b);
    assert_eq!(before.children.len(), 1);
    assert_eq!(b.children.len(), 2);
}

#[test]
fn add_child_appends_in_order() {
    let mut t = Type::new(InnerType::Tuple);
    t.add_child(leaf(InnerType::Int)).unwrap();
    t.add_child(leaf(InnerType::Bool)).unwrap();
    t.add_child(leaf(InnerType::String)).unwrap();
    assert_eq!(t.children.len(), 3);
    assert!(*t.children[0] == leaf(InnerType::Int));
    assert!(*t.children[1] == leaf(InnerType::Bool));
    assert!(*t.children[2] == leaf(InnerType::String));
}

#[test]
fn add_children_appends_after_those_there() {
    let mut t = Type::new(InnerType::Tuple);
    t.add_child(leaf(InnerType::Int)).unwrap();
    t.add_children(vec![leaf(InnerType::Bool), leaf(InnerType::Float)]).unwrap();
    assert_eq!(t.children.len(), 3);
    assert!(*t.children[0] == leaf(InnerType::Int));
    assert!(*t.children[1] == leaf(InnerType::Bool));
    assert!(*t.children[2] == leaf(InnerType::Float));
}

#[test]
fn a_vector_takes_exactly_one_child() {
    let mut v = Type::new(InnerType::Vec);
    assert!(!v.is_complete());
    assert_eq!(v.add_child(leaf(InnerType::Int)), Ok(()));
    assert!(v.is_complete());
    assert_eq!(v.add_child(leaf(InnerType::Int)), Err(TypeError::VecTakesOneChild));
    assert_eq!(v.children.len(), 1);
    assert!(v == vec_of(leaf(InnerType::Int)));
}

#[test]
fn a_vector_rejects_two_children_at_once() {
    let mut v = Type::new(InnerType::Vec);
    let two = vec![leaf(InnerType::Int), leaf(InnerType::Bool)];
    assert_eq!(v.add_children(two), Err(TypeError::VecTakesOneChild));
    assert!(v.children.is_empty());
    assert_eq!(v.add_children(vec![]), Ok(()));
    assert_eq!(v.add_children(vec![leaf(InnerType::Int)]), Ok(()));
    assert_eq!(v.add_children(vec![]), Ok(()));
    assert_eq!(v.add_children(vec![leaf(InnerType::Int)]), Err(TypeError::VecTakesOneChild));
}

#[test]
fn a_leaf_takes_no_children() {
    let roots = [
        InnerType::Int,
        InnerType::Float,
        InnerType::Bool,
        InnerType::String,
        InnerType::Struct(StructTypes::Message, "M"),
        InnerType::Enum,
        InnerType::SelfRef,
        InnerType::Dummy,
    ];
    for root in roots {
        let mut t = Type::new(root);
        assert!(t.is_complete());
        assert_eq!(t.add_child(leaf(InnerType::Int)), Err(TypeError::NoChildrenAllowed));
        assert_eq!(
            t.add_children(vec![leaf(InnerType::Int)]),
            Err(TypeError::NoChildrenAllowed)
        );
        assert_eq!(t.add_children(vec![]), Ok(()));
        assert!(t.children.is_empty());
    }
}

#[test]
fn a_tuple_takes_any_number_of_children() {
    let empty = Type::with_children(InnerType::Tuple, vec![]).unwrap();
    assert!(empty.is_complete());
    assert!(empty.children.is_empty());
    let mut many = Type::new(InnerType::Tuple);
    for _ in 0..10 {
        many.add_child(leaf(InnerType::Int)).unwrap();
    }
    assert_eq!(many.children.len(), 10);
    assert!(many.is_complete());
    assert!(many.is_well_formed());
}

#[test]
fn with_children_rejects_a_vector_without_exactly_one_child() {
    assert_eq!(
        Type::with_children(InnerType::Vec, vec![]),
        Err(TypeError::VecTakesOneChild)
    );
    assert_eq!(
        Type::with_children(InnerType::Vec, vec![leaf(InnerType::Int), leaf(InnerType::Int)]),
        Err(TypeError::VecTakesOneChild)
    );
    let v = Type::with_children(InnerType::Vec, vec![leaf(InnerType::Int)]).unwrap();
    assert!(v == vec_of(leaf(InnerType::Int)));
}

#[test]
fn with_children_rejects_children_of_a_leaf() {
    assert_eq!(
        Type::with_children(InnerType::Int, vec![leaf(InnerType::Int)]),
        Err(TypeError::NoChildrenAllowed)
    );
    assert_eq!(
        Type::with_children(InnerType::Struct(StructTypes::Datum, "S"), vec![leaf(InnerType::Int)]),
        Err(TypeError::NoChildrenAllowed)
    );
    let t = Type::with_children(InnerType::Enum, vec![]).unwrap();
    assert!(t == leaf(InnerType::Enum));
}

#[test]
fn with_children_keeps_the_order() {
    let t = Type::with_children(
        InnerType::Tuple,
        vec![leaf(InnerType::Int), leaf(InnerType::Bool)],
    )
    .unwrap();
    assert!(t == tuple_of(vec![leaf(InnerType::Int), leaf(InnerType::Bool)]));
    assert!(t != tuple_of(vec![leaf(InnerType::Bool), leaf(InnerType::Int)]));
}

#[test]
fn well_formedness_looks_below_the_root() {
    let unfinished = Type::new(InnerType::Vec);
    assert!(!unfinished.is_well_formed());
    let mut outer = Type::new(InnerType::Tuple);
    outer.add_child(leaf(InnerType::Int)).unwrap();
    assert!(outer.is_well_formed());
    outer.add_child(Type::new(InnerType::Vec)).unwrap();
    assert!(outer.is_complete());
    assert!(!outer.is_well_formed());
    let by_hand = Type {
        root: InnerType::Int,
        children: vec![Box::new(leaf(InnerType::Bool))],
    };
    assert!(!by_hand.is_complete());
    assert!(!by_hand.is_well_formed());
}

#[test]
fn strings_are_equal_by_their_characters() {
    assert!(str_eq("", ""));
    assert!(str_eq("node", "node"));
    assert!(!str_eq("node", "nodes"));
    assert!(!str_eq("nodes", "node"));
    assert!(!str_eq("node", "nodE"));
    assert!(str_eq("na\u{ef}ve", "na\u{ef}ve"));
    assert!(!str_eq("na\u{ef}ve", "naive"));
    assert!(!str_eq("", "a"));
}

#[test]
fn string_lists_are_equal_in_order() {
    assert!(all_str_eq(&vec![], &vec![]));
    assert!(all_str_eq(&vec!["a", "b"], &vec!["a", "b"]));
    assert!(!all_str_eq(&vec!["a", "b"], &vec!["b", "a"]));
    assert!(!all_str_eq(&vec!["a"], &vec!["a", "b"]));
    assert!(!all_str_eq(&vec!["a", "b"], &vec!["a"]));
}
