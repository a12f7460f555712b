use vstd::prelude::*;

use crate::data::TypeContainer;
use crate::errors::CompileError;
use crate::graph::Type;
use crate::ir::{
    container_block, construct_fields_match, field_is_virtual, field_var_name, generated_ok,
    is_field_read, is_length_map, stored_field_names, virtual_source_name, Block, CallType,
    Operation,
};
use crate::name::path_eq_spec;
use crate::variant::Variant;

verus! {

/// For a native scalar definition the generated size logic is exactly one
/// type call, delegating to the scalar's own name, with no container or
/// array operations present; generation never fails for such a definition.
pub proof fn lemma_scalar_size_shape(
    nodes: Seq<Type>,
    i: int,
    r: Result<Block, CompileError>,
)
    requires
        0 <= i < nodes.len(),
        nodes[i].variant matches Variant::NativeScalar(_),
        generated_ok(nodes, i, r, CallType::SizeOf),
    ensures
        r is Ok,
        r matches Ok(b) ==> (b.0@[0] matches Operation::TypeCall { typ, callee, .. } && typ
            == CallType::SizeOf && path_eq_spec(callee, nodes[i].data.name)),
        r matches Ok(b) ==> forall|k: int|
            0 <= k < b.0@.len() ==> (!((#[trigger] b.0@[k]) matches Operation::Block(_)) && !(
            b.0@[k] matches Operation::ForEachArray { .. }) && !(b.0@[k]
                matches Operation::ConstructContainer { .. }) && !(b.0@[k]
                matches Operation::ConstructArray { .. })),
        r matches Ok(b) ==> forall|k: int|
            1 <= k < b.0@.len() ==> !((#[trigger] b.0@[k]) matches Operation::TypeCall { .. }),
{
}

/// For every container, each generated block lowers the fields in declared
/// order, one nested block per declared field, and the value rebuilt by
/// deserialization carries exactly the stored fields, in that same order:
/// serializing and then deserializing neither adds nor loses a field.
pub proof fn lemma_container_round_trip(
    nodes: Seq<Type>,
    i: int,
    bs: Block,
    bd: Block,
)
    requires
        0 <= i < nodes.len(),
        nodes[i].variant matches Variant::Container(_),
        container_block(nodes, i, bs, CallType::Serialize),
        container_block(nodes, i, bd, CallType::Deserialize),
    ensures
        bs.0@.len() == nodes[i].data.children@.len(),
        bd.0@.len() == nodes[i].data.children@.len() + 1,
        bd.0@.last() matches Operation::ConstructContainer { output, fields }
            && construct_fields_match(
            fields@,
            stored_field_names(nodes, nodes[i].data.children@),
        ),
        forall|k: int|
            0 <= k < nodes[i].data.children@.len() && !field_is_virtual(
                nodes,
                (#[trigger] nodes[i].data.children@[k]).0 as int,
            ) ==> (bs.0@[k] matches Operation::Block(fb) && is_field_read(
                fb.0@[0],
                nodes[nodes[i].data.children@[k].0 as int].data.name.name@,
            )),
{
    let children = nodes[i].data.children@;
    assert forall|k: int|
        0 <= k < children.len() && !field_is_virtual(
            nodes,
            (#[trigger] children[k]).0 as int,
        ) implies (bs.0@[k] matches Operation::Block(fb) && is_field_read(
        fb.0@[0],
        nodes[children[k].0 as int].data.name.name@,
    )) by {
        assert(crate::ir::serialize_field_block(nodes, children[k].0 as int, bs.0@[k]));
    }
}

/// No name outside the stored ones: where every field carrying `x` is
/// virtual, `x` is absent from the stored field list.
proof fn lemma_stored_excludes(nodes: Seq<Type>, children: Seq<TypeContainer>, x: Seq<char>)
    requires
        forall|j: int|
            0 <= j < children.len() && 0 <= (#[trigger] children[j]).0 < nodes.len()
                && nodes[children[j].0 as int].data.name.name@ == x ==> field_is_virtual(
                nodes,
                children[j].0 as int,
            ),
    ensures
        forall|m: int|
            0 <= m < stored_field_names(nodes, children).len()
                ==> (#[trigger] stored_field_names(nodes, children)[m]) != x,
    decreases children.len(),
{
    if children.len() > 0 {
        assert forall|j: int|
            0 <= j < children.drop_last().len() && 0 <= (#[trigger] children.drop_last()[j]).0
                < nodes.len() && nodes[children.drop_last()[j].0 as int].data.name.name@ == x
            implies field_is_virtual(nodes, children.drop_last()[j].0 as int) by {
            assert(children.drop_last()[j] == children[j]);
        }
        lemma_stored_excludes(nodes, children.drop_last(), x);
        let c = children.last();
        assert(children[children.len() - 1] == c);
        if 0 <= c.0 < nodes.len() && !field_is_virtual(nodes, c.0 as int) {
            assert(nodes[c.0 as int].data.name.name@ != x);
            assert(stored_field_names(nodes, children) == stored_field_names(
                nodes,
                children.drop_last(),
            ).push(nodes[c.0 as int].data.name.name@));
        } else {
            assert(stored_field_names(nodes, children) == stored_field_names(
                nodes,
                children.drop_last(),
            ));
        }
    }
}

/// A virtual field has no stored representation. In the serialize block its
/// bytes are derived from its source's runtime length: its own nested block
/// maps the source's length instead of reading a field of the value. In the
/// deserialize block the rebuilt value carries no field of its name, as
/// long as only virtual fields carry it.
pub proof fn lemma_virtual_field_not_stored(
    nodes: Seq<Type>,
    i: int,
    k: int,
    bs: Block,
    bd: Block,
)
    requires
        0 <= i < nodes.len(),
        nodes[i].variant matches Variant::Container(_),
        container_block(nodes, i, bs, CallType::Serialize),
        container_block(nodes, i, bd, CallType::Deserialize),
        0 <= k < nodes[i].data.children@.len(),
        0 <= nodes[i].data.children@[k].0 < nodes.len(),
        field_is_virtual(nodes, nodes[i].data.children@[k].0 as int),
        virtual_source_name(nodes, nodes[i].data.children@[k].0 as int)
            != nodes[nodes[i].data.children@[k].0 as int].data.name.name@,
        forall|j: int|
            0 <= j < nodes[i].data.children@.len() && 0 <= (
            #[trigger] nodes[i].data.children@[j]).0 < nodes.len()
                && nodes[nodes[i].data.children@[j].0 as int].data.name.name@
                == nodes[nodes[i].data.children@[k].0 as int].data.name.name@
                ==> field_is_virtual(nodes, nodes[i].data.children@[j].0 as int),
    ensures
        // its serialize block derives the value from the source's length and
        // never reads a field of its own name
        bs.0@[k] matches Operation::Block(fb) && is_length_map(
            fb.0@[1],
            virtual_source_name(nodes, nodes[i].data.children@[k].0 as int),
            nodes[nodes[i].data.children@[k].0 as int].data.name.name@,
        ) && forall|m: int|
            0 <= m < fb.0@.len() ==> !is_field_read(
                #[trigger] fb.0@[m],
                nodes[nodes[i].data.children@[k].0 as int].data.name.name@,
            ),
        // the rebuilt value carries no field of its name
        bd.0@.last() matches Operation::ConstructContainer { output, fields } && forall|m: int|
            0 <= m < fields@.len() ==> ((#[trigger] fields@[m]).0@
                != nodes[nodes[i].data.children@[k].0 as int].data.name.name@),
{
    let children = nodes[i].data.children@;
    let c = children[k].0 as int;
    let fname = nodes[c].data.name.name@;
    assert(crate::ir::serialize_field_block(nodes, c, bs.0@[k]));
    lemma_stored_excludes(nodes, children, fname);
    match bd.0@.last() {
        Operation::ConstructContainer { output, fields } => {
            let stored = stored_field_names(nodes, children);
            assert(construct_fields_match(fields@, stored));
            assert forall|m: int| 0 <= m < fields@.len() implies ((#[trigger] fields@[m]).0@
                != fname) by {
                assert(fields@[m].0@ == stored[m]);
            }
        },
        _ => {
            assert(false);
        },
    }
}

} // verus!
