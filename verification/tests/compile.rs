use schema_compiler::data::TypeContainer;
use schema_compiler::errors::CompileError;
use schema_compiler::graph::{TypeGraph, Type};
use schema_compiler::ir::{
    generate_deserialize, generate_serialize, generate_size_of, CallType, MapOperation, Operation,
};
use schema_compiler::name::TypePath;
use schema_compiler::pipeline::compile_unit;
use schema_compiler::reference::{FieldPropertyReference, FieldReference, Reference};
use schema_compiler::type_spec::{IntegerSize, IntegerSpec, TypeSpecVariant, BinaryEncoding};
use schema_compiler::variant::{
    ContainerFieldVariant, ContainerVariant, NativeKind, NativeScalarVariant, TypeRefVariant,
    Variant,
};

fn path(name: &str) -> TypePath {
    TypePath::with_no_ns(name.to_string())
}

fn def_native_integer(g: &mut TypeGraph, name: &str) -> TypeContainer {
    let spec = IntegerSpec { size: IntegerSize::AtLeast(8), signed: false };
    let n = g.new_node(
        path(name),
        Variant::NativeScalar(NativeScalarVariant { kind: NativeKind::Integer(spec) }),
    );
    g.add_root(n);
    n
}

fn def_native_binary(g: &mut TypeGraph, name: &str) -> TypeContainer {
    let n = g.new_node(
        path(name),
        Variant::NativeScalar(NativeScalarVariant { kind: NativeKind::Binary(BinaryEncoding::Raw) }),
    );
    g.add_root(n);
    n
}

fn def_container(g: &mut TypeGraph, name: &str, virtual_container: bool) -> TypeContainer {
    let n = g.new_node(path(name), Variant::Container(ContainerVariant { virtual_container }));
    g.add_root(n);
    n
}

fn add_field(g: &mut TypeGraph, parent: TypeContainer, name: &str, tref_name: &str) -> TypeContainer {
    let f = g.new_node(
        path(name),
        Variant::ContainerField(ContainerFieldVariant { is_virtual: false, value_handle: None }),
    );
    g.add_child(parent, f);
    let t = g.new_node(path(tref_name), Variant::TypeRef(TypeRefVariant { target: None }));
    g.add_child(f, t);
    f
}

fn add_virtual_field(
    g: &mut TypeGraph,
    parent: TypeContainer,
    name: &str,
    source: &str,
    property: &str,
    tref_name: &str,
) -> TypeContainer {
    let f = g.new_virtual_field_node(
        path(name),
        Reference::Property(FieldPropertyReference {
            reference: FieldReference { up: 0, down: vec![source.to_string()] },
            property: property.to_string(),
        }),
    );
    g.add_child(parent, f);
    let t = g.new_node(path(tref_name), Variant::TypeRef(TypeRefVariant { target: None }));
    g.add_child(f, t);
    f
}

fn add_array_field(
    g: &mut TypeGraph,
    parent: TypeContainer,
    name: &str,
    count_ref: FieldReference,
    elem_type: &str,
) -> (TypeContainer, TypeContainer) {
    let f = g.new_node(
        path(name),
        Variant::ContainerField(ContainerFieldVariant { is_virtual: false, value_handle: None }),
    );
    g.add_child(parent, f);
    let a = g.new_array_node(path(name), Reference::Node(count_ref));
    g.add_child(f, a);
    let e = g.new_node(path(elem_type), Variant::TypeRef(TypeRefVariant { target: None }));
    g.add_child(a, e);
    (f, a)
}

fn node(g: &TypeGraph, n: TypeContainer) -> &Type {
    g.get_node(n)
}

#[test]
fn simple_scalar() {
    // @type "integer" def_native("u8");  def("test") => u8;
    let mut g = TypeGraph::new();
    def_native_integer(&mut g, "u8");
    let test = g.new_node(
        path("test"),
        Variant::ContainerField(ContainerFieldVariant { is_virtual: false, value_handle: None }),
    );
    g.add_root(test);
    let t = g.new_node(path("u8"), Variant::TypeRef(TypeRefVariant { target: None }));
    g.add_child(test, t);
    assert!(compile_unit(&mut g).is_ok());
}

#[test]
fn container() {
    // def("test") => container { field("woo") => u8; };
    let mut g = TypeGraph::new();
    def_native_integer(&mut g, "u8");
    let test = def_container(&mut g, "test", false);
    add_field(&mut g, test, "woo", "u8");
    assert!(compile_unit(&mut g).is_ok());

    // def("test") => container(virtual: "true") { field("woo") => u8; };
    let mut g2 = TypeGraph::new();
    def_native_integer(&mut g2, "u8");
    let test2 = def_container(&mut g2, "test", true);
    add_field(&mut g2, test2, "woo", "u8");
    assert!(compile_unit(&mut g2).is_ok());

    // container { virtual_field("len", ref: "arr", prop: "length") => u8;
    //             field("arr") => array(ref: "../len") => u8; };
    let mut g3 = TypeGraph::new();
    def_native_integer(&mut g3, "u8");
    let test3 = def_container(&mut g3, "test", false);
    add_virtual_field(&mut g3, test3, "len", "arr", "length", "u8");
    add_array_field(
        &mut g3,
        test3,
        "arr",
        FieldReference { up: 1, down: vec!["len".to_string()] },
        "u8",
    );
    assert!(compile_unit(&mut g3).is_ok());
}

#[test]
fn native_scalar_size_of_is_one_delegating_call() {
    let mut g = TypeGraph::new();
    let u8_node = def_native_integer(&mut g, "u8");
    assert!(compile_unit(&mut g).is_ok());
    let block = generate_size_of(&g, u8_node).unwrap();
    assert_eq!(block.0.len(), 2);
    match &block.0[0] {
        Operation::TypeCall { typ, callee, .. } => {
            assert!(matches!(typ, CallType::SizeOf));
            assert_eq!(callee.name, "u8");
        }
        other => panic!("expected a type call, got {:?}", other),
    }
    assert!(matches!(&block.0[1], Operation::AddCount(_)));
    // no container or array operation anywhere
    for op in &block.0 {
        assert!(!matches!(op, Operation::Block(_)));
        assert!(!matches!(op, Operation::ForEachArray { .. }));
        assert!(!matches!(op, Operation::ConstructContainer { .. }));
        assert!(!matches!(op, Operation::ConstructArray { .. }));
    }
}

#[test]
fn container_spec_and_serialize_shape() {
    // def("test") => container { field("woo") => u8; } compiles to a
    // container shape with one integer-shaped field, and its serialize
    // logic is one field block delegating to u8.
    let mut g = TypeGraph::new();
    def_native_integer(&mut g, "u8");
    let test = def_container(&mut g, "test", false);
    add_field(&mut g, test, "woo", "u8");
    assert!(compile_unit(&mut g).is_ok());

    let slot = node(&g, test).data.type_spec.unwrap();
    match &g.specs.get(slot).variant {
        TypeSpecVariant::Container(c) => {
            assert_eq!(c.name, "test");
            assert_eq!(c.fields.len(), 1);
            assert_eq!(c.fields[0].name, "woo");
            assert!(c.fields[0].type_spec.is_integer_resolved(&g.specs));
        }
        other => panic!("expected a container shape, got {:?}", other),
    }

    let ser = generate_serialize(&g, test).unwrap();
    assert_eq!(ser.0.len(), 1);
    match &ser.0[0] {
        Operation::Block(fb) => {
            assert_eq!(fb.0.len(), 2);
            assert!(matches!(&fb.0[0], Operation::Assign { .. }));
            match &fb.0[1] {
                Operation::TypeCall { typ, callee, .. } => {
                    assert!(matches!(typ, CallType::Serialize));
                    assert_eq!(callee.name, "u8");
                }
                other => panic!("expected a type call, got {:?}", other),
            }
        }
        other => panic!("expected a nested field block, got {:?}", other),
    }
}

#[test]
fn mutual_length_reference_resolves() {
    // The virtual length field and the array refer to each other; the
    // resolver must not treat the pair as a cycle.
    let mut g = TypeGraph::new();
    def_native_integer(&mut g, "u8");
    let test = def_container(&mut g, "test", false);
    let len_field = add_virtual_field(&mut g, test, "len", "arr", "length", "u8");
    let (arr_field, arr_node) = add_array_field(
        &mut g,
        test,
        "arr",
        FieldReference { up: 1, down: vec!["len".to_string()] },
        "u8",
    );
    assert!(compile_unit(&mut g).is_ok());

    // the array's length reference resolved to the `len` virtual field
    let count_path = node(&g, arr_node).data.references[0].path.as_ref().unwrap();
    assert_eq!(count_path.len(), 1);
    assert_eq!(count_path[0].node.unwrap().0, len_field.0);
    let count_handle = match &node(&g, arr_node).variant {
        Variant::Array(a) => a.count_handle,
        other => panic!("expected an array, got {:?}", other),
    };
    assert_eq!(node(&g, arr_node).data.get_reference_root(count_handle).0, len_field.0);

    // the virtual field's reference resolved back to `arr`'s length
    let value_path = node(&g, len_field).data.references[0].path.as_ref().unwrap();
    assert_eq!(value_path.len(), 2);
    assert_eq!(value_path[0].node.unwrap().0, arr_field.0);
    assert_eq!(value_path[1].node.unwrap().0, arr_field.0);
    match &value_path[1].operation {
        schema_compiler::data::ReferencePathEntryOperation::TypeProperty(p) => {
            assert_eq!(p, "length")
        }
        other => panic!("expected a type property step, got {:?}", other),
    }
}

#[test]
fn virtual_field_is_absent_from_stored_fields() {
    let mut g = TypeGraph::new();
    def_native_integer(&mut g, "u8");
    let test = def_container(&mut g, "test", false);
    add_virtual_field(&mut g, test, "len", "arr", "length", "u8");
    add_array_field(
        &mut g,
        test,
        "arr",
        FieldReference { up: 1, down: vec!["len".to_string()] },
        "u8",
    );
    assert!(compile_unit(&mut g).is_ok());

    // serialize: the virtual field's block derives its value from the
    // array's runtime length instead of reading a stored field
    let ser = generate_serialize(&g, test).unwrap();
    assert_eq!(ser.0.len(), 2);
    match &ser.0[0] {
        Operation::Block(fb) => {
            assert_eq!(fb.0.len(), 3);
            match &fb.0[0] {
                Operation::Assign { name, .. } => assert_eq!(name.0, "field_arr"),
                other => panic!("expected the source read, got {:?}", other),
            }
            match &fb.0[1] {
                Operation::MapValue { input, output, operation } => {
                    assert!(matches!(operation, MapOperation::ArrayLength));
                    assert_eq!(input.0, "field_arr");
                    assert_eq!(output.0, "field_len");
                }
                other => panic!("expected the length map, got {:?}", other),
            }
        }
        other => panic!("expected a nested field block, got {:?}", other),
    }

    // deserialize: the rebuilt value carries the array alone, and the
    // array's count is driven by the decoded length
    let de = generate_deserialize(&g, test).unwrap();
    assert_eq!(de.0.len(), 3);
    match &de.0[2] {
        Operation::ConstructContainer { fields, .. } => {
            assert_eq!(fields.len(), 1);
            assert_eq!(fields[0].0, "arr");
        }
        other => panic!("expected the container construction, got {:?}", other),
    }
    match &de.0[1] {
        Operation::Block(fb) => match &fb.0[0] {
            Operation::ConstructArray { count, .. } => assert_eq!(count.0, "field_len"),
            other => panic!("expected the array construction, got {:?}", other),
        },
        other => panic!("expected a nested field block, got {:?}", other),
    }
}

#[test]
fn field_emission_order_matches_declaration() {
    // three fields declared a, b, c: every generated block lowers them in
    // that order, and the rebuilt value lists them in that order too
    let mut g = TypeGraph::new();
    def_native_integer(&mut g, "u8");
    let test = def_container(&mut g, "test", false);
    add_field(&mut g, test, "a", "u8");
    add_field(&mut g, test, "b", "u8");
    add_field(&mut g, test, "c", "u8");
    assert!(compile_unit(&mut g).is_ok());

    let declared = ["a", "b", "c"];
    let size = generate_size_of(&g, test).unwrap();
    let ser = generate_serialize(&g, test).unwrap();
    assert_eq!(size.0.len(), 3);
    assert_eq!(ser.0.len(), 3);
    for (k, expected) in declared.iter().enumerate() {
        for block in [&size, &ser] {
            match &block.0[k] {
                Operation::Block(fb) => match &fb.0[0] {
                    Operation::Assign { name, .. } => {
                        assert_eq!(name.0, format!("field_{}", expected))
                    }
                    other => panic!("expected the field read, got {:?}", other),
                },
                other => panic!("expected a nested field block, got {:?}", other),
            }
        }
    }
    let de = generate_deserialize(&g, test).unwrap();
    assert_eq!(de.0.len(), 4);
    match &de.0[3] {
        Operation::ConstructContainer { fields, .. } => {
            assert_eq!(fields.len(), 3);
            for (k, expected) in declared.iter().enumerate() {
                assert_eq!(&fields[k].0, expected);
            }
        }
        other => panic!("expected the container construction, got {:?}", other),
    }
}

#[test]
fn unresolved_sibling_reference_names_the_segment() {
    let mut g = TypeGraph::new();
    def_native_integer(&mut g, "u8");
    let test = def_container(&mut g, "test", false);
    add_array_field(
        &mut g,
        test,
        "arr",
        FieldReference { up: 1, down: vec!["bogus".to_string()] },
        "u8",
    );
    match compile_unit(&mut g) {
        Err(CompileError::UnresolvedReference { name }) => assert_eq!(name, "bogus"),
        other => panic!("expected an unresolved reference, got {:?}", other),
    }
}

#[test]
fn non_integer_length_reference_is_a_type_mismatch() {
    let mut g = TypeGraph::new();
    def_native_integer(&mut g, "u8");
    def_native_binary(&mut g, "blob");
    let test = def_container(&mut g, "test", false);
    add_field(&mut g, test, "payload", "blob");
    add_array_field(
        &mut g,
        test,
        "arr",
        FieldReference { up: 1, down: vec!["payload".to_string()] },
        "u8",
    );
    match compile_unit(&mut g) {
        Err(CompileError::TypeMismatch { name }) => assert_eq!(name, "payload"),
        other => panic!("expected a type mismatch, got {:?}", other),
    }
}

#[test]
fn every_attached_reference_is_resolved() {
    // a reference attached to a node outside any kind's own use is still
    // walked and cached by a successful pass, and a broken one fails it
    let mut g = TypeGraph::new();
    def_native_integer(&mut g, "u8");
    let test = def_container(&mut g, "test", false);
    let woo = add_field(&mut g, test, "woo", "u8");
    let h = g.add_reference(
        test,
        Reference::Node(FieldReference { up: 0, down: vec!["woo".to_string()] }),
    );
    assert!(compile_unit(&mut g).is_ok());
    let cached = node(&g, test).data.references[h.0].path.as_ref().unwrap();
    assert_eq!(cached.len(), 1);
    assert_eq!(cached[0].node.unwrap().0, woo.0);

    let mut g2 = TypeGraph::new();
    def_native_integer(&mut g2, "u8");
    let test2 = def_container(&mut g2, "test", false);
    add_field(&mut g2, test2, "woo", "u8");
    g2.add_reference(
        test2,
        Reference::Node(FieldReference { up: 0, down: vec!["nope".to_string()] }),
    );
    match compile_unit(&mut g2) {
        Err(CompileError::UnresolvedReference { name }) => assert_eq!(name, "nope"),
        other => panic!("expected an unresolved reference, got {:?}", other),
    }
}
