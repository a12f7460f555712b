use vstd::prelude::*;

use crate::data::{SpecReferenceHandle, WeakTypeContainer};
use crate::errors::CompileError;
use crate::reference::FieldReference;
use crate::type_spec::{BinaryEncoding, IntegerSpec};

verus! {

/// The semantic kind a native definition is annotated with; it fixes the
/// shape the definition reports when referenced.
#[derive(Debug)]
pub enum NativeKind {
    Integer(IntegerSpec),
    Binary(BinaryEncoding),
    Boolean,
    Opaque,
}

/// An opaque primitive declared by the source, such as a wire integer.
#[derive(Debug)]
pub struct NativeScalarVariant {
    pub kind: NativeKind,
}

/// A record of named fields.
#[derive(Debug)]
pub struct ContainerVariant {
    /// A virtual container is never stored itself.
    pub virtual_container: bool,
}

/// One field of a container. A virtual field has no stored representation:
/// its value is derived from another node's property through the reference
/// at `value_handle`.
#[derive(Debug)]
pub struct ContainerFieldVariant {
    pub is_virtual: bool,
    pub value_handle: Option<SpecReferenceHandle>,
}

/// An array whose element count is described by the reference at
/// `count_handle`.
#[derive(Debug)]
pub struct ArrayVariant {
    pub count_handle: SpecReferenceHandle,
}

/// A buffer whose byte length is described by `count_ref`.
#[derive(Debug)]
pub struct SizedBufferVariant {
    pub count_ref: FieldReference,
}

/// A use of another definition by name; `target` is set by the resolve pass.
#[derive(Debug)]
pub struct TypeRefVariant {
    pub target: Option<WeakTypeContainer>,
}

/// The closed set of node kinds. Every kind answers the same capability set
/// (property lookup, child resolution, result-shape inference, reference
/// resolution), dispatched by an exhaustive match, so the passes never need
/// to know concrete kinds. These are the kinds the lowering supports; the
/// structural-shape model and the operation set also carry enum, marker
/// enum, option and dispatch forms, ready for a frontend that produces
/// richer kinds.
#[derive(Debug)]
pub enum Variant {
    NativeScalar(NativeScalarVariant),
    Container(ContainerVariant),
    ContainerField(ContainerFieldVariant),
    Array(ArrayVariant),
    SizedBuffer(SizedBufferVariant),
    TypeRef(TypeRefVariant),
}

/// The tag of a node kind.
#[derive(Debug, Clone, Copy, PartialEq, Eq, Structural)]
pub enum VariantType {
    NativeScalar,
    Container,
    ContainerField,
    Array,
    SizedBuffer,
    TypeRef,
}

pub open spec fn variant_type_spec(v: Variant) -> VariantType {
    match v {
        Variant::NativeScalar(_) => VariantType::NativeScalar,
        Variant::Container(_) => VariantType::Container,
        Variant::ContainerField(_) => VariantType::ContainerField,
        Variant::Array(_) => VariantType::Array,
        Variant::SizedBuffer(_) => VariantType::SizedBuffer,
        Variant::TypeRef(_) => VariantType::TypeRef,
    }
}

impl Variant {
    pub fn get_type(&self) -> (r: VariantType)
        ensures
            r == variant_type_spec(*self),
    {
        match self {
            Variant::NativeScalar(_) => VariantType::NativeScalar,
            Variant::Container(_) => VariantType::Container,
            Variant::ContainerField(_) => VariantType::ContainerField,
            Variant::Array(_) => VariantType::Array,
            Variant::SizedBuffer(_) => VariantType::SizedBuffer,
            Variant::TypeRef(_) => VariantType::TypeRef,
        }
    }
}

impl SizedBufferVariant {
    pub fn get_type(&self) -> (r: VariantType)
        ensures
            r == VariantType::SizedBuffer,
    {
        VariantType::SizedBuffer
    }

    /// A sized buffer takes no per-kind work in the structural passes beyond
    /// the resolution of its count reference.
    pub fn do_compile_pass(&self) -> (r: Result<(), CompileError>)
        ensures
            r is Ok,
    {
        Ok(())
    }
}

} // verus!
