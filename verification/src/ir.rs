use vstd::prelude::*;

use crate::data::TypeContainer;
use crate::errors::CompileError;
use crate::graph::{Type, TypeGraph};
use crate::name::{path_eq_spec, TypePath};
use crate::reference::Reference;
use crate::variant::Variant;

verus! {

/// A named slot of the imperative representation.
#[derive(Debug, Clone)]
pub struct Var(pub String);

#[derive(Debug, Clone, Copy, PartialEq, Eq, Structural)]
pub enum CallType {
    SizeOf,
    Serialize,
    Deserialize,
}

#[derive(Debug, Clone)]
pub enum Literal {
    Number(String),
}

#[derive(Debug)]
pub enum Expr {
    InputData,
    Var(Var),
    Literal(Literal),
    ContainerField { value: Box<Expr>, field: String },
}

/// An ordered sequence of operations; generated fresh per compiled root
/// type and operation kind, never mutated after generation.
#[derive(Debug)]
pub struct Block(pub Vec<Operation>);

#[derive(Debug)]
pub struct UnionTagCase {
    pub variant_name: String,
    pub variant_var: Option<Var>,
    pub block: Block,
}

#[derive(Debug)]
pub struct LiteralCase {
    pub value: Literal,
    pub block: Block,
}

/// A value mapped through a described operation: an array's length, a union
/// tag dispatch, or a literal dispatch.
#[derive(Debug)]
pub enum MapOperation {
    ArrayLength,
    UnionTagToExpr(Vec<UnionTagCase>),
    LiteralToExpr(Vec<LiteralCase>),
}

/// The closed set of operations of the imperative representation. The
/// generators below emit the delegation, container and array forms; the
/// union, literal-dispatch and tag-construction forms complete the set for
/// renderers serving richer kinds.
#[derive(Debug)]
pub enum Operation {
    Assign { name: Var, value: Expr },
    AddCount(Expr),
    Block(Block),
    ForEachArray { array: Var, index: Var, typ: Var, block: Block },
    MapValue { input: Var, output: Var, operation: MapOperation },
    ConstructContainer { output: Var, fields: Vec<(String, Var)> },
    ConstructArray { count: Var, ident: u64, item_var: Var, block: Block, output: Var },
    ConstructUnion { union_tag: String, output: Var, input: Var },
    TypeCall { typ: CallType, callee: TypePath, input: Var, output: Var },
}

pub open spec fn field_var_name(f: Seq<char>) -> Seq<char> {
    "field_"@ + f
}

pub open spec fn size_var_name(f: Seq<char>) -> Seq<char> {
    "size_"@ + f
}

pub open spec fn index_var_name(f: Seq<char>) -> Seq<char> {
    "idx_"@ + f
}

pub open spec fn item_var_name(f: Seq<char>) -> Seq<char> {
    "item_"@ + f
}

pub open spec fn field_is_virtual(nodes: Seq<Type>, c: int) -> bool {
    nodes[c].variant matches Variant::ContainerField(f) && f.is_virtual
}

/// The sibling field a virtual field derives its value from: the last down
/// segment of its value reference.
pub open spec fn virtual_source_name(nodes: Seq<Type>, c: int) -> Seq<char> {
    match nodes[c].variant {
        Variant::ContainerField(f) => match f.value_handle {
            Some(h) => match nodes[c].data.references@[h.0 as int].reference {
                Reference::Property(fpr) => fpr.reference.down@.last()@,
                _ => Seq::empty(),
            },
            None => Seq::empty(),
        },
        _ => Seq::empty(),
    }
}

/// The field whose decoded value drives an array's element count: the last
/// down segment of the array's count reference.
pub open spec fn array_count_name(nodes: Seq<Type>, tc: int) -> Seq<char> {
    match nodes[tc].variant {
        Variant::Array(a) => match nodes[tc].data.references@[a.count_handle.0 as int].reference {
            Reference::Node(fr) => fr.down@.last()@,
            _ => Seq::empty(),
        },
        _ => Seq::empty(),
    }
}

/// A container field the generator can lower: exactly one type child; a
/// virtual field names its source; an inline array names its count and has
/// a non-array element.
pub open spec fn field_lowerable(nodes: Seq<Type>, c: int) -> bool {
    &&& 0 <= c < nodes.len()
    &&& nodes[c].variant matches Variant::ContainerField(f) && {
        let ch = nodes[c].data.children@;
        &&& ch.len() == 1
        &&& 0 <= ch[0].0 < nodes.len()
        &&& (f.is_virtual ==> (f.value_handle matches Some(h) && h.0
            < nodes[c].data.references@.len() && (nodes[c].data.references@[h.0 as int].reference
            matches Reference::Property(fpr) && fpr.reference.down@.len() > 0)))
        &&& match nodes[ch[0].0 as int].variant {
            Variant::Array(a) => {
                let tc = ch[0].0 as int;
                &&& !f.is_virtual
                &&& a.count_handle.0 < nodes[tc].data.references@.len()
                &&& (nodes[tc].data.references@[a.count_handle.0 as int].reference
                    matches Reference::Node(fr) && fr.down@.len() > 0)
                &&& nodes[tc].data.children@.len() == 1
                &&& 0 <= nodes[tc].data.children@[0].0 < nodes.len()
                &&& !(nodes[nodes[tc].data.children@[0].0 as int].variant matches Variant::Array(
                    _,
                ))
            },
            _ => true,
        }
    }
}

/// Every field of the container at `i` can be lowered.
pub open spec fn container_lowerable(nodes: Seq<Type>, i: int) -> bool {
    forall|k: int|
        0 <= k < nodes[i].data.children@.len() ==> field_lowerable(
            nodes,
            (#[trigger] nodes[i].data.children@[k]).0 as int,
        )
}

/// The names of the stored fields, in declared order: every field except the
/// virtual ones.
pub open spec fn stored_field_names(nodes: Seq<Type>, children: Seq<TypeContainer>) -> Seq<
    Seq<char>,
>
    decreases children.len(),
{
    if children.len() == 0 {
        Seq::empty()
    } else {
        let prefix = stored_field_names(nodes, children.drop_last());
        let c = children.last();
        if 0 <= c.0 < nodes.len() && !field_is_virtual(nodes, c.0 as int) {
            prefix.push(nodes[c.0 as int].data.name.name@)
        } else {
            prefix
        }
    }
}

/// A delegation block: the root's whole operation is one type call against
/// its own name.
pub open spec fn scalar_call_block(nodes: Seq<Type>, i: int, b: Block, ct: CallType) -> bool {
    &&& (b.0@[0] matches Operation::TypeCall { typ, callee, input, output } && typ == ct
        && path_eq_spec(callee, nodes[i].data.name) && match ct {
        CallType::SizeOf => input.0@ == "input"@ && output.0@ == "size"@,
        CallType::Serialize => input.0@ == "input"@ && output.0@ == "offset"@,
        CallType::Deserialize => input.0@ == "buffer"@ && output.0@ == "result"@,
    })
    &&& match ct {
        CallType::SizeOf => b.0@.len() == 2 && (b.0@[1] matches Operation::AddCount(e) && e
            matches Expr::Var(v) && v.0@ == "size"@),
        _ => b.0@.len() == 1,
    }
}

/// Read one stored field out of the input value.
pub open spec fn is_field_read(op: Operation, fname: Seq<char>) -> bool {
    op matches Operation::Assign { name, value } && name.0@ == field_var_name(fname) && (value
        matches Expr::ContainerField { value: base, field } && *base matches Expr::InputData
        && field@ == fname)
}

/// One type call on a field's own slot.
pub open spec fn is_field_call(op: Operation, ct: CallType, tname: TypePath, fname: Seq<char>)
    -> bool {
    op matches Operation::TypeCall { typ, callee, input, output } && typ == ct && path_eq_spec(
        callee,
        tname,
    ) && match ct {
        CallType::SizeOf => input.0@ == field_var_name(fname) && output.0@ == size_var_name(fname),
        CallType::Serialize => input.0@ == field_var_name(fname) && output.0@ == "offset"@,
        CallType::Deserialize => input.0@ == "buffer"@ && output.0@ == field_var_name(fname),
    }
}

pub open spec fn is_add_count(op: Operation, fname: Seq<char>) -> bool {
    op matches Operation::AddCount(e) && e matches Expr::Var(v) && v.0@ == size_var_name(fname)
}

/// Derive a virtual field's value from its source's runtime length.
pub open spec fn is_length_map(op: Operation, src: Seq<char>, fname: Seq<char>) -> bool {
    op matches Operation::MapValue { input, output, operation } && operation
        matches MapOperation::ArrayLength && input.0@ == field_var_name(src) && output.0@
        == field_var_name(fname)
}

/// Walk an array field's elements, performing `ct` on each.
pub open spec fn is_array_walk(
    op: Operation,
    ct: CallType,
    ename: TypePath,
    fname: Seq<char>,
) -> bool {
    op matches Operation::ForEachArray { array, index, typ, block } && array.0@ == field_var_name(
        fname,
    ) && index.0@ == index_var_name(fname) && typ.0@ == item_var_name(fname) && match ct {
        CallType::SizeOf => block.0@.len() == 2 && (block.0@[0]
            matches Operation::TypeCall { typ: t2, callee, input, output } && t2 == ct
            && path_eq_spec(callee, ename) && input.0@ == item_var_name(fname) && output.0@
            == size_var_name(fname)) && is_add_count(block.0@[1], fname),
        _ => block.0@.len() == 1 && (block.0@[0]
            matches Operation::TypeCall { typ: t2, callee, input, output } && t2 == ct
            && path_eq_spec(callee, ename) && input.0@ == item_var_name(fname) && output.0@
            == "offset"@),
    }
}

/// Rebuild an array field by repeated construction, driven by the decoded
/// count.
pub open spec fn is_array_construct(
    op: Operation,
    ename: TypePath,
    fname: Seq<char>,
    count_src: Seq<char>,
) -> bool {
    op matches Operation::ConstructArray { count, ident: _, item_var, block, output } && count.0@
        == field_var_name(count_src) && item_var.0@ == item_var_name(fname) && output.0@
        == field_var_name(fname) && block.0@.len() == 1 && (block.0@[0]
        matches Operation::TypeCall { typ, callee, input, output: out2 } && typ
        == CallType::Deserialize && path_eq_spec(callee, ename) && input.0@ == "buffer"@
        && out2.0@ == item_var_name(fname))
}

/// The per-field block of the size operation.
pub open spec fn size_field_block(nodes: Seq<Type>, c: int, op: Operation) -> bool {
    op matches Operation::Block(b) && {
        let fname = nodes[c].data.name.name@;
        let tc = nodes[c].data.children@[0].0 as int;
        if field_is_virtual(nodes, c) {
            let src = virtual_source_name(nodes, c);
            &&& b.0@.len() == 4
            &&& is_field_read(b.0@[0], src)
            &&& is_length_map(b.0@[1], src, fname)
            &&& is_field_call(b.0@[2], CallType::SizeOf, nodes[tc].data.name, fname)
            &&& is_add_count(b.0@[3], fname)
        } else if nodes[tc].variant matches Variant::Array(_) {
            let ec = nodes[tc].data.children@[0].0 as int;
            &&& b.0@.len() == 2
            &&& is_field_read(b.0@[0], fname)
            &&& is_array_walk(b.0@[1], CallType::SizeOf, nodes[ec].data.name, fname)
        } else {
            &&& b.0@.len() == 3
            &&& is_field_read(b.0@[0], fname)
            &&& is_field_call(b.0@[1], CallType::SizeOf, nodes[tc].data.name, fname)
            &&& is_add_count(b.0@[2], fname)
        }
    }
}

/// The per-field block of the serialize operation. A virtual field is never
/// read out of the stored value: its bytes are derived from its source's
/// length.
pub open spec fn serialize_field_block(nodes: Seq<Type>, c: int, op: Operation) -> bool {
    op matches Operation::Block(b) && {
        let fname = nodes[c].data.name.name@;
        let tc = nodes[c].data.children@[0].0 as int;
        if field_is_virtual(nodes, c) {
            let src = virtual_source_name(nodes, c);
            &&& b.0@.len() == 3
            &&& is_field_read(b.0@[0], src)
            &&& is_length_map(b.0@[1], src, fname)
            &&& is_field_call(b.0@[2], CallType::Serialize, nodes[tc].data.name, fname)
        } else if nodes[tc].variant matches Variant::Array(_) {
            let ec = nodes[tc].data.children@[0].0 as int;
            &&& b.0@.len() == 2
            &&& is_field_read(b.0@[0], fname)
            &&& is_array_walk(b.0@[1], CallType::Serialize, nodes[ec].data.name, fname)
        } else {
            &&& b.0@.len() == 2
            &&& is_field_read(b.0@[0], fname)
            &&& is_field_call(b.0@[1], CallType::Serialize, nodes[tc].data.name, fname)
        }
    }
}

/// The per-field block of the deserialize operation. The discriminating
/// count of a dynamic array is decoded before the array itself.
pub open spec fn deserialize_field_block(nodes: Seq<Type>, c: int, op: Operation) -> bool {
    op matches Operation::Block(b) && {
        let fname = nodes[c].data.name.name@;
        let tc = nodes[c].data.children@[0].0 as int;
        if nodes[tc].variant matches Variant::Array(_) {
            let ec = nodes[tc].data.children@[0].0 as int;
            &&& b.0@.len() == 1
            &&& is_array_construct(
                b.0@[0],
                nodes[ec].data.name,
                fname,
                array_count_name(nodes, tc),
            )
        } else {
            &&& b.0@.len() == 1
            &&& is_field_call(b.0@[0], CallType::Deserialize, nodes[tc].data.name, fname)
        }
    }
}

/// The fields handed to the final container construction: exactly the
/// stored field names, in declared order, each taken from its own slot.
pub open spec fn construct_fields_match(fields: Seq<(String, Var)>, names: Seq<Seq<char>>)
    -> bool {
    &&& fields.len() == names.len()
    &&& forall|j: int|
        0 <= j < names.len() ==> ((#[trigger] fields[j]).0@ == names[j] && fields[j].1.0@
            == field_var_name(names[j]))
}

/// The whole generated block for a container: one nested block per field,
/// in declared order; deserialization ends by constructing the value from
/// the stored fields alone.
pub open spec fn container_block(nodes: Seq<Type>, i: int, b: Block, ct: CallType) -> bool {
    let children = nodes[i].data.children@;
    match ct {
        CallType::SizeOf => b.0@.len() == children.len() && forall|k: int|
            0 <= k < children.len() ==> size_field_block(
                nodes,
                (#[trigger] children[k]).0 as int,
                b.0@[k],
            ),
        CallType::Serialize => b.0@.len() == children.len() && forall|k: int|
            0 <= k < children.len() ==> serialize_field_block(
                nodes,
                (#[trigger] children[k]).0 as int,
                b.0@[k],
            ),
        CallType::Deserialize => b.0@.len() == children.len() + 1 && (forall|k: int|
            0 <= k < children.len() ==> deserialize_field_block(
                nodes,
                (#[trigger] children[k]).0 as int,
                b.0@[k],
            )) && (b.0@.last() matches Operation::ConstructContainer { output, fields }
            && output.0@ == "result"@ && construct_fields_match(
            fields@,
            stored_field_names(nodes, children),
        )),
    }
}

/// What each generator guarantees: a container lowers field by field, and
/// every other kind delegates to the logic generated for its own name.
pub open spec fn generated_ok(nodes: Seq<Type>, i: int, r: Result<Block, CompileError>, ct: CallType) -> bool {
    match r {
        Ok(b) => match nodes[i].variant {
            Variant::Container(_) => container_block(nodes, i, b, ct),
            _ => scalar_call_block(nodes, i, b, ct),
        },
        Err(_) => nodes[i].variant matches Variant::Container(_) && !container_lowerable(
            nodes,
            i,
        ),
    }
}

fn prefixed_var(prefix: &str, name: &String) -> (r: Var)
    ensures
        r.0@ == prefix@ + name@,
{
    let mut s = String::from_str(prefix);
    s.append(name.as_str());
    Var(s)
}

fn plain_var(name: &str) -> (r: Var)
    ensures
        r.0@ == name@,
{
    Var(String::from_str(name))
}

/// The data the generators need about one container field.
struct FieldInfo {
    field: TypeContainer,
    type_node: TypeContainer,
    is_virtual: bool,
    source: Option<String>,
    element: Option<TypeContainer>,
    count_src: Option<String>,
}

/// Gather and check everything about the field at `c` that lowering needs.
fn examine_field(graph: &TypeGraph, c: TypeContainer) -> (r: Result<FieldInfo, CompileError>)
    requires
        graph.wf(),
        c.0 < graph.nodes@.len(),
    ensures
        match r {
            Ok(info) => {
                &&& field_lowerable(graph.nodes@, c.0 as int)
                &&& info.field == c
                &&& info.type_node.0 == graph.nodes@[c.0 as int].data.children@[0].0
                &&& info.is_virtual == field_is_virtual(graph.nodes@, c.0 as int)
                &&& (info.is_virtual ==> (info.source matches Some(s) && s@
                    == virtual_source_name(graph.nodes@, c.0 as int)))
                &&& ((graph.nodes@[info.type_node.0 as int].variant matches Variant::Array(_))
                    <==> info.element is Some)
                &&& ((graph.nodes@[info.type_node.0 as int].variant matches Variant::Array(_))
                    ==> ((info.element matches Some(e) && e.0
                    == graph.nodes@[info.type_node.0 as int].data.children@[0].0)
                    && (info.count_src matches Some(cs) && cs@ == array_count_name(
                    graph.nodes@,
                    info.type_node.0 as int,
                ))))
            },
            Err(_) => !field_lowerable(graph.nodes@, c.0 as int),
        },
{
    let (is_virtual, value_handle) = match &graph.nodes[c.0].variant {
        Variant::ContainerField(f) => (f.is_virtual, f.value_handle),
        _ => {
            return Err(CompileError::NotComposite);
        },
    };
    if graph.nodes[c.0].data.children.len() != 1 {
        return Err(CompileError::NotComposite);
    }
    let tc = graph.nodes[c.0].data.children[0];
    proof {
        assert(graph.node_wf(c.0 as int));
    }
    let source: Option<String> = if is_virtual {
        match value_handle {
            Some(h) => {
                if h.0 >= graph.nodes[c.0].data.references.len() {
                    return Err(CompileError::NotComposite);
                }
                match graph.nodes[c.0].data.get_reference(h) {
                    Reference::Property(fpr) => {
                        if fpr.reference.down.len() == 0 {
                            return Err(CompileError::NotComposite);
                        }
                        Some(fpr.reference.down[fpr.reference.down.len() - 1].clone())
                    },
                    _ => {
                        return Err(CompileError::NotComposite);
                    },
                }
            },
            None => {
                return Err(CompileError::NotComposite);
            },
        }
    } else {
        None
    };
    let mut element: Option<TypeContainer> = None;
    let mut count_src: Option<String> = None;
    match &graph.nodes[tc.0].variant {
        Variant::Array(a) => {
            if is_virtual {
                return Err(CompileError::NotComposite);
            }
            if a.count_handle.0 >= graph.nodes[tc.0].data.references.len() {
                return Err(CompileError::NotComposite);
            }
            match graph.nodes[tc.0].data.get_reference(a.count_handle) {
                Reference::Node(fr) => {
                    if fr.down.len() == 0 {
                        return Err(CompileError::NotComposite);
                    }
                    count_src = Some(fr.down[fr.down.len() - 1].clone());
                },
                _ => {
                    return Err(CompileError::NotComposite);
                },
            }
            if graph.nodes[tc.0].data.children.len() != 1 {
                return Err(CompileError::NotComposite);
            }
            let ec = graph.nodes[tc.0].data.children[0];
            proof {
                assert(graph.node_wf(tc.0 as int));
            }
            match &graph.nodes[ec.0].variant {
                Variant::Array(_) => {
                    return Err(CompileError::NotComposite);
                },
                _ => {},
            }
            element = Some(ec);
        },
        _ => {},
    }
    Ok(FieldInfo { field: c, type_node: tc, is_virtual, source, element, count_src })
}

/// Generate the block computing the encoded size of a value of the
/// definition at `typ`.
pub fn generate_size_of(graph: &TypeGraph, typ: TypeContainer) -> (r: Result<
    Block,
    CompileError,
>)
    requires
        graph.wf(),
        typ.0 < graph.nodes@.len(),
    ensures
        generated_ok(graph.nodes@, typ.0 as int, r, CallType::SizeOf),
{
    let is_container = match &graph.nodes[typ.0].variant {
        Variant::Container(_) => true,
        _ => false,
    };
    if !is_container {
        let mut ops: Vec<Operation> = Vec::new();
        ops.push(
            Operation::TypeCall {
                typ: CallType::SizeOf,
                callee: graph.nodes[typ.0].data.name.clone_path(),
                input: plain_var("input"),
                output: plain_var("size"),
            },
        );
        ops.push(Operation::AddCount(Expr::Var(plain_var("size"))));
        return Ok(Block(ops));
    }
    let mut ops: Vec<Operation> = Vec::new();
    let n = graph.nodes[typ.0].data.children.len();
    let mut k: usize = 0;
    while k < n
        invariant
            graph.wf(),
            typ.0 < graph.nodes@.len(),
            graph.nodes@[typ.0 as int].variant matches Variant::Container(_),
            n == graph.nodes@[typ.0 as int].data.children@.len(),
            k <= n,
            ops@.len() == k as int,
            forall|j: int|
                0 <= j < k as int ==> size_field_block(
                    graph.nodes@,
                    (#[trigger] graph.nodes@[typ.0 as int].data.children@[j]).0 as int,
                    ops@[j],
                ),
        decreases n - k,
    {
        proof {
            assert(graph.node_wf(typ.0 as int));
        }
        let c = graph.nodes[typ.0].data.children[k];
        let info = match examine_field(graph, c) {
            Ok(info) => info,
            Err(e) => {
                return Err(e);
            },
        };
        let fname = &graph.nodes[c.0].data.name.name;
        let mut fops: Vec<Operation> = Vec::new();
        if info.is_virtual {
            let src = info.source.unwrap();
            fops.push(
                Operation::Assign {
                    name: prefixed_var("field_", &src),
                    value: Expr::ContainerField {
                        value: Box::new(Expr::InputData),
                        field: src.clone(),
                    },
                },
            );
            fops.push(
                Operation::MapValue {
                    input: prefixed_var("field_", &src),
                    output: prefixed_var("field_", fname),
                    operation: MapOperation::ArrayLength,
                },
            );
            fops.push(
                Operation::TypeCall {
                    typ: CallType::SizeOf,
                    callee: graph.nodes[info.type_node.0].data.name.clone_path(),
                    input: prefixed_var("field_", fname),
                    output: prefixed_var("size_", fname),
                },
            );
            fops.push(Operation::AddCount(Expr::Var(prefixed_var("size_", fname))));
        } else {
            match info.element {
                Some(ec) => {
                    let mut inner: Vec<Operation> = Vec::new();
                    inner.push(
                        Operation::TypeCall {
                            typ: CallType::SizeOf,
                            callee: graph.nodes[ec.0].data.name.clone_path(),
                            input: prefixed_var("item_", fname),
                            output: prefixed_var("size_", fname),
                        },
                    );
                    inner.push(Operation::AddCount(Expr::Var(prefixed_var("size_", fname))));
                    fops.push(
                        Operation::Assign {
                            name: prefixed_var("field_", fname),
                            value: Expr::ContainerField {
                                value: Box::new(Expr::InputData),
                                field: fname.clone(),
                            },
                        },
                    );
                    fops.push(
                        Operation::ForEachArray {
                            array: prefixed_var("field_", fname),
                            index: prefixed_var("idx_", fname),
                            typ: prefixed_var("item_", fname),
                            block: Block(inner),
                        },
                    );
                },
                None => {
                    fops.push(
                        Operation::Assign {
                            name: prefixed_var("field_", fname),
                            value: Expr::ContainerField {
                                value: Box::new(Expr::InputData),
                                field: fname.clone(),
                            },
                        },
                    );
                    fops.push(
                        Operation::TypeCall {
                            typ: CallType::SizeOf,
                            callee: graph.nodes[info.type_node.0].data.name.clone_path(),
                            input: prefixed_var("field_", fname),
                            output: prefixed_var("size_", fname),
                        },
                    );
                    fops.push(Operation::AddCount(Expr::Var(prefixed_var("size_", fname))));
                },
            }
        }
        ops.push(Operation::Block(Block(fops)));
        proof {
            assert(size_field_block(graph.nodes@, c.0 as int, ops@[k as int]));
        }
        k = k + 1;
    }
    Ok(Block(ops))
}

/// Generate the block serializing a value of the definition at `typ`.
pub fn generate_serialize(graph: &TypeGraph, typ: TypeContainer) -> (r: Result<
    Block,
    CompileError,
>)
    requires
        graph.wf(),
        typ.0 < graph.nodes@.len(),
    ensures
        generated_ok(graph.nodes@, typ.0 as int, r, CallType::Serialize),
{
    let is_container = match &graph.nodes[typ.0].variant {
        Variant::Container(_) => true,
        _ => false,
    };
    if !is_container {
        let mut ops: Vec<Operation> = Vec::new();
        ops.push(
            Operation::TypeCall {
                typ: CallType::Serialize,
                callee: graph.nodes[typ.0].data.name.clone_path(),
                input: plain_var("input"),
                output: plain_var("offset"),
            },
        );
        return Ok(Block(ops));
    }
    let mut ops: Vec<Operation> = Vec::new();
    let n = graph.nodes[typ.0].data.children.len();
    let mut k: usize = 0;
    while k < n
        invariant
            graph.wf(),
            typ.0 < graph.nodes@.len(),
            graph.nodes@[typ.0 as int].variant matches Variant::Container(_),
            n == graph.nodes@[typ.0 as int].data.children@.len(),
            k <= n,
            ops@.len() == k as int,
            forall|j: int|
                0 <= j < k as int ==> serialize_field_block(
                    graph.nodes@,
                    (#[trigger] graph.nodes@[typ.0 as int].data.children@[j]).0 as int,
                    ops@[j],
                ),
        decreases n - k,
    {
        proof {
            assert(graph.node_wf(typ.0 as int));
        }
        let c = graph.nodes[typ.0].data.children[k];
        let info = match examine_field(graph, c) {
            Ok(info) => info,
            Err(e) => {
                return Err(e);
            },
        };
        let fname = &graph.nodes[c.0].data.name.name;
        let mut fops: Vec<Operation> = Vec::new();
        if info.is_virtual {
            let src = info.source.unwrap();
            fops.push(
                Operation::Assign {
                    name: prefixed_var("field_", &src),
                    value: Expr::ContainerField {
                        value: Box::new(Expr::InputData),
                        field: src.clone(),
                    },
                },
            );
            fops.push(
                Operation::MapValue {
                    input: prefixed_var("field_", &src),
                    output: prefixed_var("field_", fname),
                    operation: MapOperation::ArrayLength,
                },
            );
            fops.push(
                Operation::TypeCall {
                    typ: CallType::Serialize,
                    callee: graph.nodes[info.type_node.0].data.name.clone_path(),
                    input: prefixed_var("field_", fname),
                    output: plain_var("offset"),
                },
            );
        } else {
            match info.element {
                Some(ec) => {
                    let mut inner: Vec<Operation> = Vec::new();
                    inner.push(
                        Operation::TypeCall {
                            typ: CallType::Serialize,
                            callee: graph.nodes[ec.0].data.name.clone_path(),
                            input: prefixed_var("item_", fname),
                            output: plain_var("offset"),
                        },
                    );
                    fops.push(
                        Operation::Assign {
                            name: prefixed_var("field_", fname),
                            value: Expr::ContainerField {
                                value: Box::new(Expr::InputData),
                                field: fname.clone(),
                            },
                        },
                    );
                    fops.push(
                        Operation::ForEachArray {
                            array: prefixed_var("field_", fname),
                            index: prefixed_var("idx_", fname),
                            typ: prefixed_var("item_", fname),
                            block: Block(inner),
                        },
                    );
                },
                None => {
                    fops.push(
                        Operation::Assign {
                            name: prefixed_var("field_", fname),
                            value: Expr::ContainerField {
                                value: Box::new(Expr::InputData),
                                field: fname.clone(),
                            },
                        },
                    );
                    fops.push(
                        Operation::TypeCall {
                            typ: CallType::Serialize,
                            callee: graph.nodes[info.type_node.0].data.name.clone_path(),
                            input: prefixed_var("field_", fname),
                            output: plain_var("offset"),
                        },
                    );
                },
            }
        }
        ops.push(Operation::Block(Block(fops)));
        proof {
            assert(serialize_field_block(graph.nodes@, c.0 as int, ops@[k as int]));
        }
        k = k + 1;
    }
    Ok(Block(ops))
}

/// Generate the block deserializing a value of the definition at `typ`. The
/// constructed value carries the stored fields only.
pub fn generate_deserialize(graph: &TypeGraph, typ: TypeContainer) -> (r: Result<
    Block,
    CompileError,
>)
    requires
        graph.wf(),
        typ.0 < graph.nodes@.len(),
    ensures
        generated_ok(graph.nodes@, typ.0 as int, r, CallType::Deserialize),
{
    let is_container = match &graph.nodes[typ.0].variant {
        Variant::Container(_) => true,
        _ => false,
    };
    if !is_container {
        let mut ops: Vec<Operation> = Vec::new();
        ops.push(
            Operation::TypeCall {
                typ: CallType::Deserialize,
                callee: graph.nodes[typ.0].data.name.clone_path(),
                input: plain_var("buffer"),
                output: plain_var("result"),
            },
        );
        return Ok(Block(ops));
    }
    let mut ops: Vec<Operation> = Vec::new();
    let mut cfields: Vec<(String, Var)> = Vec::new();
    let n = graph.nodes[typ.0].data.children.len();
    let mut k: usize = 0;
    proof {
        assert(graph.nodes@[typ.0 as int].data.children@.take(0)
            =~= Seq::<TypeContainer>::empty());
    }
    while k < n
        invariant
            graph.wf(),
            typ.0 < graph.nodes@.len(),
            graph.nodes@[typ.0 as int].variant matches Variant::Container(_),
            n == graph.nodes@[typ.0 as int].data.children@.len(),
            k <= n,
            ops@.len() == k as int,
            forall|j: int|
                0 <= j < k as int ==> deserialize_field_block(
                    graph.nodes@,
                    (#[trigger] graph.nodes@[typ.0 as int].data.children@[j]).0 as int,
                    ops@[j],
                ),
            construct_fields_match(
                cfields@,
                stored_field_names(
                    graph.nodes@,
                    graph.nodes@[typ.0 as int].data.children@.take(k as int),
                ),
            ),
        decreases n - k,
    {
        proof {
            assert(graph.node_wf(typ.0 as int));
        }
        let c = graph.nodes[typ.0].data.children[k];
        let info = match examine_field(graph, c) {
            Ok(info) => info,
            Err(e) => {
                return Err(e);
            },
        };
        let fname = &graph.nodes[c.0].data.name.name;
        let mut fops: Vec<Operation> = Vec::new();
        match info.element {
            Some(ec) => {
                let count_src = info.count_src.unwrap();
                let mut inner: Vec<Operation> = Vec::new();
                inner.push(
                    Operation::TypeCall {
                        typ: CallType::Deserialize,
                        callee: graph.nodes[ec.0].data.name.clone_path(),
                        input: plain_var("buffer"),
                        output: prefixed_var("item_", fname),
                    },
                );
                let ident: u64 = match graph.nodes[info.type_node.0].data.ident {
                    Some(id) => id,
                    None => 0,
                };
                fops.push(
                    Operation::ConstructArray {
                        count: prefixed_var("field_", &count_src),
                        ident,
                        item_var: prefixed_var("item_", fname),
                        block: Block(inner),
                        output: prefixed_var("field_", fname),
                    },
                );
            },
            None => {
                fops.push(
                    Operation::TypeCall {
                        typ: CallType::Deserialize,
                        callee: graph.nodes[info.type_node.0].data.name.clone_path(),
                        input: plain_var("buffer"),
                        output: prefixed_var("field_", fname),
                    },
                );
            },
        }
        ops.push(Operation::Block(Block(fops)));
        if !info.is_virtual {
            cfields.push((fname.clone(), prefixed_var("field_", fname)));
        }
        proof {
            let children = graph.nodes@[typ.0 as int].data.children@;
            assert(children.take(k as int + 1).drop_last() =~= children.take(k as int));
            assert(children.take(k as int + 1).last() == children[k as int]);
        }
        k = k + 1;
    }
    proof {
        assert(graph.nodes@[typ.0 as int].data.children@.take(n as int)
            =~= graph.nodes@[typ.0 as int].data.children@);
    }
    ops.push(
        Operation::ConstructContainer { output: plain_var("result"), fields: cfields },
    );
    Ok(Block(ops))
}

} // verus!
