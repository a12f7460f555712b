use schema_compiler::data::{TypeData, WeakTypeContainer};
use schema_compiler::errors::CompileError;
use schema_compiler::graph::{TargetType, TypeGraph};
use schema_compiler::name::TypePath;
use schema_compiler::type_spec::{
    ArraySize, ArraySpec, ContainerFieldSpec, ContainerSpec, IntegerSize, IntegerSpec,
    TypeSpecArena, TypeSpecContainer, TypeSpecLiteral, TypeSpecVariant, WeakTypeSpecContainer,
};
use schema_compiler::variant::{
    ContainerVariant, NativeKind, NativeScalarVariant, SizedBufferVariant, Variant, VariantType,
};
use schema_compiler::reference::FieldReference;

fn integer_variant() -> TypeSpecVariant {
    TypeSpecVariant::Integer(IntegerSpec { size: IntegerSize::AtLeast(8), signed: false })
}

#[test]
fn referenced_indirection_is_transparent() {
    // a chain of two indirections lands on the concrete integer, and the
    // outer handle answers structural questions exactly as the target does
    let mut arena = TypeSpecArena::new();
    let concrete = arena.add(integer_variant());
    let middle = arena.add(TypeSpecVariant::Referenced(Some(concrete.downgrade())));
    let outer = arena.add(TypeSpecVariant::Referenced(Some(WeakTypeSpecContainer(middle.0))));
    assert!(concrete.is_integer_resolved(&arena));
    assert!(middle.is_integer_resolved(&arena));
    assert!(outer.is_integer_resolved(&arena));
    let landed = outer.follow_concrete(&arena).unwrap();
    assert_eq!(landed.0, concrete.0);
    // one unassigned placeholder is invalid and answers nothing
    let unassigned = arena.add(TypeSpecVariant::Referenced(None));
    assert!(!unassigned.is_integer_resolved(&arena));
    assert!(unassigned.follow_concrete(&arena).is_none());
    assert!(!arena.get(unassigned).variant.is_valid());
}

#[test]
fn child_lookup_follows_indirection() {
    let mut arena = TypeSpecArena::new();
    let woo_spec = arena.add(integer_variant());
    let container = arena.add(TypeSpecVariant::Container(ContainerSpec {
        name: "test".to_string(),
        fields: vec![ContainerFieldSpec { name: "woo".to_string(), type_spec: woo_spec }],
    }));
    let outer = arena.add(TypeSpecVariant::Referenced(Some(container.downgrade())));
    let direct = arena.get(container).variant.get_child_name(&"woo".to_string()).unwrap();
    let through = outer.get_child_resolved(&arena, &"woo".to_string()).unwrap();
    assert_eq!(direct.0, through.0);
    assert!(arena.get(container).variant.get_child_name(&"missing".to_string()).is_none());
    assert!(outer.get_child_resolved(&arena, &"missing".to_string()).is_none());
}

#[test]
fn follow_takes_one_step() {
    let mut arena = TypeSpecArena::new();
    let concrete = arena.add(integer_variant());
    let outer = arena.add(TypeSpecVariant::Referenced(Some(concrete.downgrade())));
    assert_eq!(outer.follow(&arena).0, concrete.0);
    assert_eq!(concrete.follow(&arena).0, concrete.0);
    assert!(TypeSpecContainer::new_not_assigned().is_none());
}

#[test]
fn array_spec_holds_its_element() {
    let mut arena = TypeSpecArena::new();
    let elem = arena.add(integer_variant());
    let arr = arena.add(TypeSpecVariant::Array(ArraySpec {
        size: ArraySize::Dynamic,
        child: elem,
    }));
    match &arena.get(arr).variant {
        TypeSpecVariant::Array(a) => {
            assert!(matches!(a.size, ArraySize::Dynamic));
            assert_eq!(a.child.0, elem.0);
        }
        other => panic!("expected an array shape, got {:?}", other),
    }
}

#[test]
fn type_data_tracks_children_and_references() {
    let mut data = TypeData::default();
    assert!(data.parent.is_none());
    assert!(data.ident.is_none());
    assert!(data.type_spec.is_none());
    let h1 = data.add_child(schema_compiler::data::TypeContainer(1));
    let h2 = data.add_child(schema_compiler::data::TypeContainer(2));
    assert_eq!(h1.0, 0);
    assert_eq!(h2.0, 1);
    assert_eq!(data.get_children().len(), 2);
    assert_eq!(data.get_owned_children().len(), 2);
    assert_eq!(data.get_children()[1].0, 2);
    let r = data.add_reference(schema_compiler::reference::Reference::Node(FieldReference {
        up: 0,
        down: vec!["x".to_string()],
    }));
    assert_eq!(r.0, 0);
    match data.get_reference(r) {
        schema_compiler::reference::Reference::Node(fr) => assert_eq!(fr.down[0], "x"),
        other => panic!("expected a node reference, got {:?}", other),
    }
}

#[test]
fn handles_survive_weakening() {
    let n = schema_compiler::data::TypeContainer(7);
    assert_eq!(n.downgrade().upgrade().0, 7);
    let w = WeakTypeContainer(9);
    assert_eq!(w.upgrade().0, 9);
}

#[test]
fn scalar_kinds_are_not_composite() {
    let mut g = TypeGraph::new();
    let n = g.new_node(
        TypePath::with_no_ns("u8".to_string()),
        Variant::NativeScalar(NativeScalarVariant {
            kind: NativeKind::Integer(IntegerSpec { size: IntegerSize::AtLeast(8), signed: false }),
        }),
    );
    g.add_root(n);
    match g.resolve_child_name(n, &"woo".to_string()) {
        Err(CompileError::NotComposite) => {}
        other => panic!("expected a not-composite error, got {:?}", other),
    }
    assert_eq!(g.get_result_type(n), Some(TargetType::Integer));
    assert!(g.has_property(n, &"length".to_string()).is_none());
}

#[test]
fn container_children_resolve_by_name() {
    let mut g = TypeGraph::new();
    let c = g.new_node(
        TypePath::with_no_ns("test".to_string()),
        Variant::Container(ContainerVariant { virtual_container: false }),
    );
    g.add_root(c);
    let f = g.new_node(
        TypePath::with_no_ns("woo".to_string()),
        Variant::ContainerField(schema_compiler::variant::ContainerFieldVariant {
            is_virtual: false,
            value_handle: None,
        }),
    );
    g.add_child(c, f);
    let found = g.resolve_child_name(c, &"woo".to_string()).unwrap();
    assert_eq!(found.0, f.0);
    match g.resolve_child_name(c, &"missing".to_string()) {
        Err(CompileError::UnresolvedReference { name }) => assert_eq!(name, "missing"),
        other => panic!("expected an unresolved reference, got {:?}", other),
    }
}

#[test]
fn sized_buffer_reports_its_kind() {
    let v = SizedBufferVariant { count_ref: FieldReference { up: 1, down: vec!["len".to_string()] } };
    assert!(matches!(v.get_type(), VariantType::SizedBuffer));
    assert!(v.do_compile_pass().is_ok());
    let as_variant = Variant::SizedBuffer(v);
    assert_eq!(as_variant.get_type(), VariantType::SizedBuffer);
}

#[test]
fn a_shape_wraps_into_its_own_container() {
    let mut arena = TypeSpecArena::new();
    let handle = integer_variant().into_container(&mut arena);
    assert_eq!(handle.0, 0);
    assert!(arena.get(handle).variant.is_integer());
    assert_eq!(handle.downgrade().upgrade().0, handle.0);
}

#[test]
fn literals_parse_against_their_shape() {
    let mut arena = TypeSpecArena::new();
    let unsigned = arena.add(integer_variant());
    let signed = arena.add(TypeSpecVariant::Integer(IntegerSpec {
        size: IntegerSize::AtLeast(8),
        signed: true,
    }));
    let boolean = arena.add(TypeSpecVariant::Boolean);
    let indirect = arena.add(TypeSpecVariant::Referenced(Some(unsigned.downgrade())));

    assert_eq!(
        unsigned.parse_literal(&arena, "37").unwrap(),
        TypeSpecLiteral::Integer { negative: false, magnitude: 37 }
    );
    assert_eq!(
        indirect.parse_literal(&arena, "255").unwrap(),
        TypeSpecLiteral::Integer { negative: false, magnitude: 255 }
    );
    assert_eq!(
        signed.parse_literal(&arena, "-5").unwrap(),
        TypeSpecLiteral::Integer { negative: true, magnitude: 5 }
    );
    // an unsigned shape refuses a sign, and digits are required
    assert!(unsigned.parse_literal(&arena, "-5").is_err());
    assert!(unsigned.parse_literal(&arena, "").is_err());
    assert!(unsigned.parse_literal(&arena, "12x").is_err());
    match unsigned.parse_literal(&arena, "woo") {
        Err(CompileError::TypeMismatch { name }) => assert_eq!(name, "woo"),
        other => panic!("expected a type mismatch, got {:?}", other),
    }

    assert_eq!(boolean.parse_literal(&arena, "true").unwrap(), TypeSpecLiteral::Boolean(true));
    assert_eq!(boolean.parse_literal(&arena, "false").unwrap(), TypeSpecLiteral::Boolean(false));
    assert!(boolean.parse_literal(&arena, "maybe").is_err());
    // a boolean never parses against an integer shape and vice versa
    assert!(unsigned.parse_literal(&arena, "true").is_err());
    assert!(boolean.parse_literal(&arena, "37").is_err());
}

#[test]
fn well_formedness_is_decidable_at_run_time() {
    let mut g = TypeGraph::new();
    assert!(g.check_well_formed());
    let n = g.new_node(
        TypePath::with_no_ns("u8".to_string()),
        Variant::NativeScalar(NativeScalarVariant {
            kind: NativeKind::Integer(IntegerSpec { size: IntegerSize::AtLeast(8), signed: false }),
        }),
    );
    g.add_root(n);
    assert!(g.check_well_formed());
    // an out-of-range root breaks it
    g.roots.push(schema_compiler::data::TypeContainer(7));
    assert!(!g.check_well_formed());
}
