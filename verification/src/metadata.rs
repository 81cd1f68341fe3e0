//! Type metadata: descriptors with their indirection depth and category, the
//! definitions that they stand for, and structural comparison of types.

use crate::arena::{FunctionKey, MetadataKey, MetadataObjs, ARENA_LIMIT};
use crate::gc::{GcCell, GcoVec};
use crate::instruction::{OpIndex, ValueType};
use crate::names::NameTable;
use crate::objects::{ArrayObj, SliceObj, StructObj, VMObjects};
use crate::value::{
    lemma_copy_semantic_extends, spec_cells_extend, spec_copy_semantic, spec_fresh, GosValue, F32,
    F64,
};
use vstd::prelude::*;

verus! {

/// Largest indirection depth of a descriptor.
pub const MAX_PTR_DEPTH: u8 = 7;

/// The direction of a channel type.
#[derive(PartialEq, Eq, Clone, Copy, Debug, Structural)]
pub enum ChannelType {
    Send,
    Recv,
    SendRecv,
}

/// What a descriptor describes: an ordinary instance, an array instance, or
/// a type used as a value (of an ordinary type or of an array type).
#[derive(Debug, Clone, Copy, PartialEq, Eq, Structural)]
pub enum MetaCategory {
    Default,
    Array,
    Type,
    ArrayType,
}

/// A type descriptor: the handle of a definition, the category, and the
/// number of pointer indirections in front of it, from none (`NonPtr`) to
/// seven. `Untyped` describes nothing.
#[derive(Debug, Clone, Copy, PartialEq, Eq, Structural)]
pub enum GosMetadata {
    Untyped,
    NonPtr(MetadataKey, MetaCategory),
    Ptr1(MetadataKey, MetaCategory),
    Ptr2(MetadataKey, MetaCategory),
    Ptr3(MetadataKey, MetaCategory),
    Ptr4(MetadataKey, MetaCategory),
    Ptr5(MetadataKey, MetaCategory),
    Ptr6(MetadataKey, MetaCategory),
    Ptr7(MetadataKey, MetaCategory),
}

/// The category of a type used as a value, for the category of its
/// instances.
pub open spec fn spec_type_category(c: MetaCategory) -> MetaCategory {
    match c {
        MetaCategory::Default => MetaCategory::Type,
        MetaCategory::Array => MetaCategory::ArrayType,
        _ => c,
    }
}

impl GosMetadata {
    /// The indirection depth; `Untyped` has none.
    pub open spec fn spec_depth(self) -> Option<nat> {
        match self {
            GosMetadata::Untyped => None,
            GosMetadata::NonPtr(_, _) => Some(0nat),
            GosMetadata::Ptr1(_, _) => Some(1nat),
            GosMetadata::Ptr2(_, _) => Some(2nat),
            GosMetadata::Ptr3(_, _) => Some(3nat),
            GosMetadata::Ptr4(_, _) => Some(4nat),
            GosMetadata::Ptr5(_, _) => Some(5nat),
            GosMetadata::Ptr6(_, _) => Some(6nat),
            GosMetadata::Ptr7(_, _) => Some(7nat),
        }
    }

    /// The handle of the definition.
    pub open spec fn spec_key(self) -> MetadataKey
        recommends
            self !is Untyped,
    {
        match self {
            GosMetadata::Untyped => arbitrary(),
            GosMetadata::NonPtr(k, _) => k,
            GosMetadata::Ptr1(k, _) => k,
            GosMetadata::Ptr2(k, _) => k,
            GosMetadata::Ptr3(k, _) => k,
            GosMetadata::Ptr4(k, _) => k,
            GosMetadata::Ptr5(k, _) => k,
            GosMetadata::Ptr6(k, _) => k,
            GosMetadata::Ptr7(k, _) => k,
        }
    }

    /// The category.
    pub open spec fn spec_category(self) -> MetaCategory
        recommends
            self !is Untyped,
    {
        match self {
            GosMetadata::Untyped => arbitrary(),
            GosMetadata::NonPtr(_, c) => c,
            GosMetadata::Ptr1(_, c) => c,
            GosMetadata::Ptr2(_, c) => c,
            GosMetadata::Ptr3(_, c) => c,
            GosMetadata::Ptr4(_, c) => c,
            GosMetadata::Ptr5(_, c) => c,
            GosMetadata::Ptr6(_, c) => c,
            GosMetadata::Ptr7(_, c) => c,
        }
    }

    /// The descriptor of a definition at a depth of at most seven.
    pub open spec fn spec_at_depth(k: MetadataKey, c: MetaCategory, depth: nat) -> GosMetadata
        recommends
            depth <= MAX_PTR_DEPTH,
    {
        if depth == 0 {
            GosMetadata::NonPtr(k, c)
        } else if depth == 1 {
            GosMetadata::Ptr1(k, c)
        } else if depth == 2 {
            GosMetadata::Ptr2(k, c)
        } else if depth == 3 {
            GosMetadata::Ptr3(k, c)
        } else if depth == 4 {
            GosMetadata::Ptr4(k, c)
        } else if depth == 5 {
            GosMetadata::Ptr5(k, c)
        } else if depth == 6 {
            GosMetadata::Ptr6(k, c)
        } else {
            GosMetadata::Ptr7(k, c)
        }
    }

    /// The descriptor of a pointer to what this one describes.
    pub open spec fn spec_ptr_to(self) -> GosMetadata
        recommends
            self.spec_depth() is Some,
            self.spec_depth().unwrap() < MAX_PTR_DEPTH,
    {
        Self::spec_at_depth(
            self.spec_key(),
            self.spec_category(),
            self.spec_depth().unwrap() + 1,
        )
    }

    /// The descriptor of what a pointer of this type points to.
    pub open spec fn spec_unptr_to(self) -> GosMetadata
        recommends
            self.spec_depth() is Some,
            self.spec_depth().unwrap() > 0,
    {
        Self::spec_at_depth(
            self.spec_key(),
            self.spec_category(),
            (self.spec_depth().unwrap() - 1) as nat,
        )
    }

    /// The same type one indirection deeper. There is no descriptor of a
    /// pointer to nothing, nor one deeper than seven.
    pub fn ptr_to(&self) -> (r: GosMetadata)
        requires
            self.spec_depth() is Some,
            self.spec_depth().unwrap() < MAX_PTR_DEPTH,
        ensures
            r == self.spec_ptr_to(),
            r.spec_depth() == Some(self.spec_depth().unwrap() + 1),
            r.spec_key() == self.spec_key(),
            r.spec_category() == self.spec_category(),
    {
        match self {
            GosMetadata::Untyped => vstd::pervasive::unreached(),
            GosMetadata::NonPtr(k, t) => GosMetadata::Ptr1(*k, *t),
            GosMetadata::Ptr1(k, t) => GosMetadata::Ptr2(*k, *t),
            GosMetadata::Ptr2(k, t) => GosMetadata::Ptr3(*k, *t),
            GosMetadata::Ptr3(k, t) => GosMetadata::Ptr4(*k, *t),
            GosMetadata::Ptr4(k, t) => GosMetadata::Ptr5(*k, *t),
            GosMetadata::Ptr5(k, t) => GosMetadata::Ptr6(*k, *t),
            GosMetadata::Ptr6(k, t) => GosMetadata::Ptr7(*k, *t),
            GosMetadata::Ptr7(_, _) => vstd::pervasive::unreached(),
        }
    }

    /// The same type one indirection less deep; only a pointer has one.
    pub fn unptr_to(&self) -> (r: GosMetadata)
        requires
            self.spec_depth() is Some,
            self.spec_depth().unwrap() > 0,
        ensures
            r == self.spec_unptr_to(),
            r.spec_depth() == Some((self.spec_depth().unwrap() - 1) as nat),
            r.spec_key() == self.spec_key(),
            r.spec_category() == self.spec_category(),
    {
        match self {
            GosMetadata::Untyped => vstd::pervasive::unreached(),
            GosMetadata::NonPtr(_, _) => vstd::pervasive::unreached(),
            GosMetadata::Ptr1(k, t) => GosMetadata::NonPtr(*k, *t),
            GosMetadata::Ptr2(k, t) => GosMetadata::Ptr1(*k, *t),
            GosMetadata::Ptr3(k, t) => GosMetadata::Ptr2(*k, *t),
            GosMetadata::Ptr4(k, t) => GosMetadata::Ptr3(*k, *t),
            GosMetadata::Ptr5(k, t) => GosMetadata::Ptr4(*k, *t),
            GosMetadata::Ptr6(k, t) => GosMetadata::Ptr5(*k, *t),
            GosMetadata::Ptr7(k, t) => GosMetadata::Ptr6(*k, *t),
        }
    }

    /// Raising the indirection of a descriptor of depth at most six and
    /// lowering it again gives the descriptor back; so does lowering a
    /// pointer's and raising it again.
    pub proof fn lemma_ptr_round_trip(self)
        requires
            self.spec_depth() is Some,
        ensures
            self.spec_depth().unwrap() < MAX_PTR_DEPTH ==> self.spec_ptr_to().spec_unptr_to()
                == self,
            self.spec_depth().unwrap() > 0 ==> self.spec_unptr_to().spec_ptr_to() == self,
    {
    }

    /// The handle of a descriptor without indirection.
    pub fn as_non_ptr(&self) -> (k: MetadataKey)
        requires
            self is NonPtr,
        ensures
            k == self.spec_key(),
    {
        match self {
            GosMetadata::NonPtr(k, _) => *k,
            _ => vstd::pervasive::unreached(),
        }
    }

    /// The handle and the category of a descriptor without indirection.
    pub fn unwrap_non_ptr(&self) -> (r: (MetadataKey, MetaCategory))
        requires
            self is NonPtr,
        ensures
            r == (self.spec_key(), self.spec_category()),
    {
        match self {
            GosMetadata::NonPtr(k, mc) => (*k, *mc),
            _ => vstd::pervasive::unreached(),
        }
    }

    /// The handle and the category of a descriptor with at most one
    /// indirection.
    pub fn unwrap_non_ptr_or_prt1(&self) -> (r: (MetadataKey, MetaCategory))
        requires
            self is NonPtr || self is Ptr1,
        ensures
            r == (self.spec_key(), self.spec_category()),
    {
        match self {
            GosMetadata::NonPtr(k, mc) => (*k, *mc),
            GosMetadata::Ptr1(k, mc) => (*k, *mc),
            _ => vstd::pervasive::unreached(),
        }
    }

    /// The handle of a method's receiver type, which is a named type or a
    /// pointer to one.
    pub fn recv_meta_key(&self) -> (k: MetadataKey)
        requires
            self is NonPtr || self is Ptr1,
        ensures
            k == self.spec_key(),
    {
        match self {
            GosMetadata::NonPtr(k, _) => *k,
            GosMetadata::Ptr1(k, _) => *k,
            _ => vstd::pervasive::unreached(),
        }
    }

    /// The descriptor of the type itself, used as a value: same handle and
    /// depth, and the category of a type in place of that of an instance.
    pub fn into_type_category(self) -> (r: GosMetadata)
        requires
            self !is Untyped,
        ensures
            r == Self::spec_at_depth(
                self.spec_key(),
                spec_type_category(self.spec_category()),
                self.spec_depth().unwrap(),
            ),
    {
        match self {
            GosMetadata::NonPtr(k, c) => GosMetadata::NonPtr(k, type_category(c)),
            GosMetadata::Ptr1(k, c) => GosMetadata::Ptr1(k, type_category(c)),
            GosMetadata::Ptr2(k, c) => GosMetadata::Ptr2(k, type_category(c)),
            GosMetadata::Ptr3(k, c) => GosMetadata::Ptr3(k, type_category(c)),
            GosMetadata::Ptr4(k, c) => GosMetadata::Ptr4(k, type_category(c)),
            GosMetadata::Ptr5(k, c) => GosMetadata::Ptr5(k, type_category(c)),
            GosMetadata::Ptr6(k, c) => GosMetadata::Ptr6(k, type_category(c)),
            GosMetadata::Ptr7(k, c) => GosMetadata::Ptr7(k, type_category(c)),
            GosMetadata::Untyped => vstd::pervasive::unreached(),
        }
    }

    /// The descriptor of a slice over an array: the array's definition with
    /// the category of an ordinary instance.
    pub fn new_slice_from_array(array: GosMetadata) -> (r: GosMetadata)
        requires
            array is NonPtr,
        ensures
            r == GosMetadata::NonPtr(array.spec_key(), MetaCategory::Default),
    {
        GosMetadata::NonPtr(array.as_non_ptr(), MetaCategory::Default)
    }
}

/// The category of a type used as a value, for the category of its
/// instances.
#[verifier::when_used_as_spec(spec_type_category)]
pub fn type_category(c: MetaCategory) -> (r: MetaCategory)
    ensures
        r == spec_type_category(c),
{
    match c {
        MetaCategory::Default => MetaCategory::Type,
        MetaCategory::Array => MetaCategory::ArrayType,
        _ => c,
    }
}

/// The fields of a struct type, or the methods of an interface type: the
/// type of each, in order, and the position of each name.
#[derive(Debug)]
pub struct Fields {
    pub fields: Vec<GosMetadata>,
    pub mapping: NameTable,
}

/// One method of a named type: whether its receiver is a pointer, and its
/// code once that is compiled.
#[derive(Debug, Clone, Copy, PartialEq, Eq, Structural)]
pub struct MethodDesc {
    pub pointer_recv: bool,
    pub func: Option<FunctionKey>,
}

/// The method table of a named type.
#[derive(Debug)]
pub struct Methods {
    pub members: Vec<MethodDesc>,
    pub mapping: NameTable,
}

/// A function signature.
#[derive(Debug)]
pub struct SigMetadata {
    pub recv: Option<GosMetadata>,
    pub params: Vec<GosMetadata>,
    pub results: Vec<GosMetadata>,
    pub variadic: Option<(GosMetadata, GosMetadata)>,
    /// The kind of each parameter, for calls into foreign code.
    pub params_type: Vec<ValueType>,
}

/// A type definition. A slice is an array type of size zero. A struct type
/// and the string type hold the zero value of their instances.
#[derive(Debug)]
pub enum MetadataType {
    Bool,
    Int,
    Int8,
    Int16,
    Int32,
    Int64,
    Uint,
    Uint8,
    Uint16,
    Uint32,
    Uint64,
    Float32,
    Float64,
    Complex64,
    Complex128,
    Str(GosValue),
    SliceOrArray(GosMetadata, usize),
    Struct(Fields, GosValue),
    Signature(SigMetadata),
    GosMap(GosMetadata, GosMetadata),
    Interface(Fields),
    Channel(ChannelType, GosMetadata),
    Named(Methods, GosMetadata),
}

/// The descriptors of the predeclared types.
#[derive(Debug)]
pub struct Metadata {
    pub mbool: GosMetadata,
    pub mint: GosMetadata,
    pub mint8: GosMetadata,
    pub mint16: GosMetadata,
    pub mint32: GosMetadata,
    pub mint64: GosMetadata,
    pub muint: GosMetadata,
    pub muint8: GosMetadata,
    pub muint16: GosMetadata,
    pub muint32: GosMetadata,
    pub muint64: GosMetadata,
    pub mfloat32: GosMetadata,
    pub mfloat64: GosMetadata,
    pub mcomplex64: GosMetadata,
    pub mcomplex128: GosMetadata,
    pub mstr: GosMetadata,
    pub unsafe_ptr: GosMetadata,
    pub default_sig: GosMetadata,
    pub empty_iface: GosMetadata,
}

impl Fields {
    /// The fields with the given types and name positions.
    pub fn new(fields: Vec<GosMetadata>, mapping: NameTable) -> (f: Fields)
        ensures
            f.fields == fields,
            f.mapping == mapping,
    {
        Fields { fields, mapping }
    }
}

impl Methods {
    /// A method table without methods.
    pub fn new() -> (m: Methods)
        ensures
            m.members@.len() == 0,
            m.mapping@ == Map::<Seq<char>, OpIndex>::empty(),
    {
        Methods { members: Vec::new(), mapping: NameTable::new() }
    }
}

impl Default for SigMetadata {
    /// The signature without receiver, parameters and results.
    fn default() -> (s: SigMetadata)
        ensures
            s.recv is None,
            s.params@.len() == 0,
            s.results@.len() == 0,
            s.variadic is None,
            s.params_type@.len() == 0,
    {
        SigMetadata {
            recv: None,
            params: Vec::new(),
            results: Vec::new(),
            variadic: None,
            params_type: Vec::new(),
        }
    }
}

impl SigMetadata {
    /// Whether the receiver is a pointer.
    pub open spec fn spec_pointer_recv(&self) -> bool {
        match self.recv {
            Some(r) => !(r is NonPtr),
            None => false,
        }
    }

    #[verifier::when_used_as_spec(spec_pointer_recv)]
    pub fn pointer_recv(&self) -> (b: bool)
        ensures
            b == self.spec_pointer_recv(),
    {
        match &self.recv {
            Some(r) => match r {
                GosMetadata::NonPtr(_, _) => false,
                _ => true,
            },
            None => false,
        }
    }
}

impl MetadataType {
    /// The signature of a function type.
    pub fn as_signature(&self) -> (s: &SigMetadata)
        requires
            self is Signature,
        ensures
            *s == self->Signature_0,
    {
        match self {
            Self::Signature(s) => s,
            _ => vstd::pervasive::unreached(),
        }
    }

    /// The methods of an interface type.
    pub fn as_interface(&self) -> (f: &Fields)
        requires
            self is Interface,
        ensures
            *f == self->Interface_0,
    {
        match self {
            Self::Interface(fields) => fields,
            _ => vstd::pervasive::unreached(),
        }
    }

    /// The direction and the element type of a channel type.
    pub fn as_channel(&self) -> (r: (&ChannelType, &GosMetadata))
        requires
            self is Channel,
        ensures
            *r.0 == self->Channel_0,
            *r.1 == self->Channel_1,
    {
        match self {
            Self::Channel(t, m) => (t, m),
            _ => vstd::pervasive::unreached(),
        }
    }

    /// The fields of a struct type and the zero value of its instances.
    pub fn as_struct(&self) -> (r: (&Fields, &GosValue))
        requires
            self is Struct,
        ensures
            *r.0 == self->Struct_0,
            *r.1 == self->Struct_1,
    {
        match self {
            Self::Struct(f, v) => (f, v),
            _ => vstd::pervasive::unreached(),
        }
    }
}

/// Whether two lists of descriptors have the same length and hold, place
/// by place, types that are semantically equal.
pub open spec fn spec_list_semantic_eq(
    a: Seq<GosMetadata>,
    b: Seq<GosMetadata>,
    metas: Map<u64, MetadataType>,
    depth: nat,
) -> bool
    decreases depth, 1nat,
{
    &&& a.len() == b.len()
    &&& forall|i: int| 0 <= i < a.len() ==> (#[trigger] a[i]).spec_semantic_eq(b[i], metas, depth)
}

impl GosMetadata {
    /// Whether two descriptors describe the same type: both describe
    /// nothing, or they have the same depth and category and either the same
    /// handle or definitions that match. `depth` bounds how many handles the
    /// comparison follows.
    pub open spec fn spec_semantic_eq(
        self,
        other: GosMetadata,
        metas: Map<u64, MetadataType>,
        depth: nat,
    ) -> bool
        decreases depth, 0nat,
    {
        if self is Untyped || other is Untyped {
            self is Untyped && other is Untyped
        } else {
            &&& self.spec_depth() == other.spec_depth()
            &&& self.spec_category() == other.spec_category()
            &&& (self.spec_key() == other.spec_key() || (depth > 0 && metas.contains_key(
                self.spec_key()@,
            ) && metas.contains_key(other.spec_key()@) && metas[self.spec_key()@].spec_semantic_eq(
                &metas[other.spec_key()@],
                self.spec_category(),
                metas,
                (depth - 1) as nat,
            )))
        }
    }
}

impl Fields {
    /// Whether the fields have, place by place, types that are semantically
    /// equal; names do not count.
    pub open spec fn spec_semantic_eq(
        &self,
        other: &Fields,
        metas: Map<u64, MetadataType>,
        depth: nat,
    ) -> bool {
        spec_list_semantic_eq(self.fields@, other.fields@, metas, depth)
    }
}

impl SigMetadata {
    /// Whether two signatures have semantically equal receivers, parameters,
    /// results and variadic element types.
    pub open spec fn spec_semantic_eq(
        &self,
        other: &SigMetadata,
        metas: Map<u64, MetadataType>,
        depth: nat,
    ) -> bool {
        &&& match (self.recv, other.recv) {
            (None, None) => true,
            (Some(a), Some(b)) => a.spec_semantic_eq(b, metas, depth),
            _ => false,
        }
        &&& spec_list_semantic_eq(self.params@, other.params@, metas, depth)
        &&& spec_list_semantic_eq(self.results@, other.results@, metas, depth)
        &&& match (self.variadic, other.variadic) {
            (None, None) => true,
            (Some((a, _)), Some((b, _))) => a.spec_semantic_eq(b, metas, depth),
            _ => false,
        }
    }
}

impl MetadataType {
    /// Whether two definitions match: the same primitive, or the same kind of
    /// composite over semantically equal parts. Sizes count for arrays only;
    /// named types match by their underlying types.
    pub open spec fn spec_semantic_eq(
        &self,
        other: &MetadataType,
        mc: MetaCategory,
        metas: Map<u64, MetadataType>,
        depth: nat,
    ) -> bool
        decreases depth, 2nat,
    {
        match (self, other) {
            (MetadataType::Bool, MetadataType::Bool) => true,
            (MetadataType::Int, MetadataType::Int) => true,
            (MetadataType::Int8, MetadataType::Int8) => true,
            (MetadataType::Int16, MetadataType::Int16) => true,
            (MetadataType::Int32, MetadataType::Int32) => true,
            (MetadataType::Int64, MetadataType::Int64) => true,
            (MetadataType::Uint, MetadataType::Uint) => true,
            (MetadataType::Uint8, MetadataType::Uint8) => true,
            (MetadataType::Uint16, MetadataType::Uint16) => true,
            (MetadataType::Uint32, MetadataType::Uint32) => true,
            (MetadataType::Uint64, MetadataType::Uint64) => true,
            (MetadataType::Float32, MetadataType::Float32) => true,
            (MetadataType::Float64, MetadataType::Float64) => true,
            (MetadataType::Complex64, MetadataType::Complex64) => true,
            (MetadataType::Complex128, MetadataType::Complex128) => true,
            (MetadataType::Str(_), MetadataType::Str(_)) => true,
            (MetadataType::Struct(a, _), MetadataType::Struct(b, _)) => spec_list_semantic_eq(
                a.fields@,
                b.fields@,
                metas,
                depth,
            ),
            (MetadataType::Signature(a), MetadataType::Signature(b)) => {
                &&& match (a.recv, b.recv) {
                    (None, None) => true,
                    (Some(x), Some(y)) => x.spec_semantic_eq(y, metas, depth),
                    _ => false,
                }
                &&& spec_list_semantic_eq(a.params@, b.params@, metas, depth)
                &&& spec_list_semantic_eq(a.results@, b.results@, metas, depth)
                &&& match (a.variadic, b.variadic) {
                    (None, None) => true,
                    (Some((x, _)), Some((y, _))) => x.spec_semantic_eq(y, metas, depth),
                    _ => false,
                }
            },
            (MetadataType::SliceOrArray(a, size_a), MetadataType::SliceOrArray(b, size_b)) => {
                &&& (mc == MetaCategory::Array || mc == MetaCategory::ArrayType) ==> size_a
                    == size_b
                &&& a.spec_semantic_eq(*b, metas, depth)
            },
            (MetadataType::GosMap(ak, av), MetadataType::GosMap(bk, bv)) => ak.spec_semantic_eq(
                *bk,
                metas,
                depth,
            ) && av.spec_semantic_eq(*bv, metas, depth),
            (MetadataType::Interface(a), MetadataType::Interface(b)) => spec_list_semantic_eq(
                a.fields@,
                b.fields@,
                metas,
                depth,
            ),
            (MetadataType::Channel(at, avt), MetadataType::Channel(bt, bvt)) => at == bt
                && avt.spec_semantic_eq(*bvt, metas, depth),
            (MetadataType::Named(_, a), MetadataType::Named(_, b)) => a.spec_semantic_eq(
                *b,
                metas,
                depth,
            ),
            _ => false,
        }
    }
}

/// Every descriptor is semantically equal to itself, whatever the arena
/// holds.
pub proof fn lemma_semantic_eq_reflexive(a: GosMetadata, metas: Map<u64, MetadataType>, depth: nat)
    ensures
        a.spec_semantic_eq(a, metas, depth),
{
}

/// Semantic equality of descriptors does not depend on the side.
pub proof fn lemma_semantic_eq_symmetric(
    a: GosMetadata,
    b: GosMetadata,
    metas: Map<u64, MetadataType>,
    depth: nat,
)
    ensures
        a.spec_semantic_eq(b, metas, depth) == b.spec_semantic_eq(a, metas, depth),
    decreases depth, 0nat,
{
    if !(a is Untyped) && !(b is Untyped) && depth > 0 && metas.contains_key(a.spec_key()@)
        && metas.contains_key(b.spec_key()@) {
        lemma_type_semantic_eq_symmetric(
            metas[a.spec_key()@],
            metas[b.spec_key()@],
            a.spec_category(),
            metas,
            (depth - 1) as nat,
        );
    }
}

/// Semantic equality of lists of descriptors does not depend on the side.
pub proof fn lemma_list_semantic_eq_symmetric(
    a: Seq<GosMetadata>,
    b: Seq<GosMetadata>,
    metas: Map<u64, MetadataType>,
    depth: nat,
)
    ensures
        spec_list_semantic_eq(a, b, metas, depth) == spec_list_semantic_eq(b, a, metas, depth),
    decreases depth, 1nat,
{
    if a.len() == b.len() {
        assert forall|i: int| 0 <= i < a.len() implies (#[trigger] a[i]).spec_semantic_eq(
            b[i],
            metas,
            depth,
        ) == b[i].spec_semantic_eq(a[i], metas, depth) by {
            lemma_semantic_eq_symmetric(a[i], b[i], metas, depth);
        }
        if spec_list_semantic_eq(a, b, metas, depth) {
            assert forall|i: int| 0 <= i < b.len() implies (#[trigger] b[i]).spec_semantic_eq(
                a[i],
                metas,
                depth,
            ) by {
                assert(a[i].spec_semantic_eq(b[i], metas, depth));
            }
        }
        if spec_list_semantic_eq(b, a, metas, depth) {
            assert forall|i: int| 0 <= i < a.len() implies (#[trigger] a[i]).spec_semantic_eq(
                b[i],
                metas,
                depth,
            ) by {
                assert(b[i].spec_semantic_eq(a[i], metas, depth));
            }
        }
    }
}

/// Matching of definitions does not depend on the side.
pub proof fn lemma_type_semantic_eq_symmetric(
    a: MetadataType,
    b: MetadataType,
    mc: MetaCategory,
    metas: Map<u64, MetadataType>,
    depth: nat,
)
    ensures
        a.spec_semantic_eq(&b, mc, metas, depth) == b.spec_semantic_eq(&a, mc, metas, depth),
    decreases depth, 2nat,
{
    match (a, b) {
        (MetadataType::Struct(x, _), MetadataType::Struct(y, _)) => {
            lemma_list_semantic_eq_symmetric(x.fields@, y.fields@, metas, depth);
        },
        (MetadataType::Signature(x), MetadataType::Signature(y)) => {
            lemma_list_semantic_eq_symmetric(x.params@, y.params@, metas, depth);
            lemma_list_semantic_eq_symmetric(x.results@, y.results@, metas, depth);
            match (x.recv, y.recv) {
                (Some(p), Some(q)) => {
                    lemma_semantic_eq_symmetric(p, q, metas, depth);
                },
                _ => {},
            }
            match (x.variadic, y.variadic) {
                (Some((p, _)), Some((q, _))) => {
                    lemma_semantic_eq_symmetric(p, q, metas, depth);
                },
                _ => {},
            }
        },
        (MetadataType::SliceOrArray(x, _), MetadataType::SliceOrArray(y, _)) => {
            lemma_semantic_eq_symmetric(x, y, metas, depth);
        },
        (MetadataType::GosMap(xk, xv), MetadataType::GosMap(yk, yv)) => {
            lemma_semantic_eq_symmetric(xk, yk, metas, depth);
            lemma_semantic_eq_symmetric(xv, yv, metas, depth);
        },
        (MetadataType::Interface(x), MetadataType::Interface(y)) => {
            lemma_list_semantic_eq_symmetric(x.fields@, y.fields@, metas, depth);
        },
        (MetadataType::Channel(_, x), MetadataType::Channel(_, y)) => {
            lemma_semantic_eq_symmetric(x, y, metas, depth);
        },
        (MetadataType::Named(_, x), MetadataType::Named(_, y)) => {
            lemma_semantic_eq_symmetric(x, y, metas, depth);
        },
        _ => {},
    }
}

/// Two struct types with the same field types in the same order are
/// semantically equal, though their definitions stand under different
/// handles of the arena.
pub proof fn lemma_struct_semantic_eq(
    a: MetadataKey,
    b: MetadataKey,
    mc: MetaCategory,
    metas: Map<u64, MetadataType>,
    depth: nat,
)
    requires
        depth > 0,
        metas.contains_key(a@),
        metas.contains_key(b@),
        metas[a@] is Struct,
        metas[b@] is Struct,
        metas[a@]->Struct_0.fields@ == metas[b@]->Struct_0.fields@,
    ensures
        GosMetadata::NonPtr(a, mc).spec_semantic_eq(GosMetadata::NonPtr(b, mc), metas, depth),
{
    let fa = metas[a@]->Struct_0.fields@;
    assert forall|i: int| 0 <= i < fa.len() implies (#[trigger] fa[i]).spec_semantic_eq(
        fa[i],
        metas,
        (depth - 1) as nat,
    ) by {
        lemma_semantic_eq_reflexive(fa[i], metas, (depth - 1) as nat);
    }
    assert(spec_list_semantic_eq(fa, fa, metas, (depth - 1) as nat));
    assert(metas[a@].spec_semantic_eq(&metas[b@], mc, metas, (depth - 1) as nat));
}

/// Whether two lists of descriptors are semantically equal, following at
/// most `depth` handles.
fn list_semantic_eq(
    a: &Vec<GosMetadata>,
    b: &Vec<GosMetadata>,
    metas: &MetadataObjs,
    depth: usize,
) -> (r: bool)
    ensures
        r == spec_list_semantic_eq(a@, b@, metas@, depth as nat),
    decreases depth, 3nat,
{
    if a.len() != b.len() {
        return false;
    }
    let mut i: usize = 0;
    while i < a.len()
        invariant
            i <= a@.len(),
            a@.len() == b@.len(),
            forall|j: int|
                0 <= j < i ==> (#[trigger] a@[j]).spec_semantic_eq(b@[j], metas@, depth as nat),
        decreases a@.len() - i,
    {
        if !a[i].semantic_eq_bounded(&b[i], metas, depth) {
            return false;
        }
        i += 1;
    }
    true
}

impl GosMetadata {
    /// Whether two descriptors describe the same type, following at most
    /// `depth` handles into the arena.
    pub fn semantic_eq_bounded(&self, other: &Self, metas: &MetadataObjs, depth: usize) -> (r:
        bool)
        ensures
            r == self.spec_semantic_eq(*other, metas@, depth as nat),
        decreases depth, 1nat,
    {
        match (self, other) {
            (Self::NonPtr(ak, ac), Self::NonPtr(bk, bc)) => Self::semantic_eq_impl(
                ak,
                ac,
                bk,
                bc,
                metas,
                depth,
            ),
            (Self::Ptr1(ak, ac), Self::Ptr1(bk, bc)) => Self::semantic_eq_impl(
                ak,
                ac,
                bk,
                bc,
                metas,
                depth,
            ),
            (Self::Ptr2(ak, ac), Self::Ptr2(bk, bc)) => Self::semantic_eq_impl(
                ak,
                ac,
                bk,
                bc,
                metas,
                depth,
            ),
            (Self::Ptr3(ak, ac), Self::Ptr3(bk, bc)) => Self::semantic_eq_impl(
                ak,
                ac,
                bk,
                bc,
                metas,
                depth,
            ),
            (Self::Ptr4(ak, ac), Self::Ptr4(bk, bc)) => Self::semantic_eq_impl(
                ak,
                ac,
                bk,
                bc,
                metas,
                depth,
            ),
            (Self::Ptr5(ak, ac), Self::Ptr5(bk, bc)) => Self::semantic_eq_impl(
                ak,
                ac,
                bk,
                bc,
                metas,
                depth,
            ),
            (Self::Ptr6(ak, ac), Self::Ptr6(bk, bc)) => Self::semantic_eq_impl(
                ak,
                ac,
                bk,
                bc,
                metas,
                depth,
            ),
            (Self::Ptr7(ak, ac), Self::Ptr7(bk, bc)) => Self::semantic_eq_impl(
                ak,
                ac,
                bk,
                bc,
                metas,
                depth,
            ),
            (Self::Untyped, Self::Untyped) => true,
            _ => false,
        }
    }

    /// Whether two descriptors describe the same type. The comparison
    /// follows one handle more than the arena has definitions, so it ends
    /// on types that refer to themselves too.
    pub fn semantic_eq(&self, other: &Self, metas: &MetadataObjs) -> (r: bool)
        ensures
            r == self.spec_semantic_eq(*other, metas@, metas.spec_len() + 1),
    {
        let depth = metas.len() + 1;
        self.semantic_eq_bounded(other, metas, depth)
    }

    fn semantic_eq_impl(
        ak: &MetadataKey,
        ac: &MetaCategory,
        bk: &MetadataKey,
        bc: &MetaCategory,
        metas: &MetadataObjs,
        depth: usize,
    ) -> (r: bool)
        ensures
            r == (*ac == *bc && (*ak == *bk || (depth > 0 && metas@.contains_key(ak@)
                && metas@.contains_key(bk@) && metas@[ak@].spec_semantic_eq(
                &metas@[bk@],
                *ac,
                metas@,
                (depth - 1) as nat,
            )))),
        decreases depth, 0nat,
    {
        if *ac != *bc {
            return false;
        }
        if *ak == *bk {
            return true;
        }
        if depth == 0 {
            return false;
        }
        match (metas.get(*ak), metas.get(*bk)) {
            (Some(a), Some(b)) => a.semantic_eq(b, *ac, metas, depth - 1),
            _ => false,
        }
    }
}

impl Fields {
    /// Whether the fields have, place by place, semantically equal types,
    /// following at most `depth` handles.
    pub fn semantic_eq(&self, other: &Self, metas: &MetadataObjs, depth: usize) -> (r: bool)
        ensures
            r == self.spec_semantic_eq(other, metas@, depth as nat),
        decreases depth, 4nat,
    {
        list_semantic_eq(&self.fields, &other.fields, metas, depth)
    }
}

impl SigMetadata {
    /// Whether two signatures are semantically equal, following at most
    /// `depth` handles.
    pub fn semantic_eq(&self, other: &Self, metas: &MetadataObjs, depth: usize) -> (r: bool)
        ensures
            r == self.spec_semantic_eq(other, metas@, depth as nat),
        decreases depth, 4nat,
    {
        let recv_eq = match (&self.recv, &other.recv) {
            (None, None) => true,
            (Some(a), Some(b)) => a.semantic_eq_bounded(b, metas, depth),
            _ => false,
        };
        if !recv_eq {
            return false;
        }
        if !list_semantic_eq(&self.params, &other.params, metas, depth) {
            return false;
        }
        if !list_semantic_eq(&self.results, &other.results, metas, depth) {
            return false;
        }
        match (&self.variadic, &other.variadic) {
            (None, None) => true,
            (Some((a, _)), Some((b, _))) => a.semantic_eq_bounded(b, metas, depth),
            _ => false,
        }
    }
}

impl MetadataType {
    /// Whether two definitions match, following at most `depth` handles.
    pub fn semantic_eq(&self, other: &Self, mc: MetaCategory, metas: &MetadataObjs, depth: usize)
        -> (r: bool)
        ensures
            r == self.spec_semantic_eq(other, mc, metas@, depth as nat),
        decreases depth, 5nat,
    {
        match (self, other) {
            (Self::Bool, Self::Bool) => true,
            (Self::Int, Self::Int) => true,
            (Self::Int8, Self::Int8) => true,
            (Self::Int16, Self::Int16) => true,
            (Self::Int32, Self::Int32) => true,
            (Self::Int64, Self::Int64) => true,
            (Self::Uint, Self::Uint) => true,
            (Self::Uint8, Self::Uint8) => true,
            (Self::Uint16, Self::Uint16) => true,
            (Self::Uint32, Self::Uint32) => true,
            (Self::Uint64, Self::Uint64) => true,
            (Self::Float32, Self::Float32) => true,
            (Self::Float64, Self::Float64) => true,
            (Self::Complex64, Self::Complex64) => true,
            (Self::Complex128, Self::Complex128) => true,
            (Self::Str(_), Self::Str(_)) => true,
            (Self::Struct(a, _), Self::Struct(b, _)) => a.semantic_eq(b, metas, depth),
            (Self::Signature(a), Self::Signature(b)) => a.semantic_eq(b, metas, depth),
            (Self::SliceOrArray(a, size_a), Self::SliceOrArray(b, size_b)) => {
                match mc {
                    MetaCategory::Array | MetaCategory::ArrayType => {
                        if *size_a != *size_b {
                            return false;
                        }
                    },
                    _ => {},
                }
                a.semantic_eq_bounded(b, metas, depth)
            },
            (Self::GosMap(ak, av), Self::GosMap(bk, bv)) => {
                ak.semantic_eq_bounded(bk, metas, depth) && av.semantic_eq_bounded(
                    bv,
                    metas,
                    depth,
                )
            },
            (Self::Interface(a), Self::Interface(b)) => a.semantic_eq(b, metas, depth),
            (Self::Channel(at, avt), Self::Channel(bt, bvt)) => {
                *at == *bt && avt.semantic_eq_bounded(bvt, metas, depth)
            },
            (Self::Named(_, a), Self::Named(_, b)) => a.semantic_eq_bounded(b, metas, depth),
            _ => false,
        }
    }
}

/// Nothing but the definition under `k` differs between two arenas.
pub open spec fn spec_same_but(
    after: Map<u64, MetadataType>,
    before: Map<u64, MetadataType>,
    k: MetadataKey,
) -> bool {
    &&& after.dom() == before.dom()
    &&& forall|j: u64| before.contains_key(j) && j != k@ ==> after[j] == #[trigger] before[j]
}

impl GosMetadata {
    /// The kind of the values of a type: a pointer for any indirection, the
    /// kind of a type value or of an array by the category, else the kind
    /// that the definition gives.
    pub open spec fn spec_value_type(self, metas: Map<u64, MetadataType>) -> ValueType
        recommends
            self !is Untyped,
    {
        match self {
            GosMetadata::NonPtr(k, mc) => match mc {
                MetaCategory::Default => match metas[k@] {
                    MetadataType::Bool => ValueType::Bool,
                    MetadataType::Int => ValueType::Int,
                    MetadataType::Int8 => ValueType::Int8,
                    MetadataType::Int16 => ValueType::Int16,
                    MetadataType::Int32 => ValueType::Int32,
                    MetadataType::Int64 => ValueType::Int64,
                    MetadataType::Uint => ValueType::Uint,
                    MetadataType::Uint8 => ValueType::Uint8,
                    MetadataType::Uint16 => ValueType::Uint16,
                    MetadataType::Uint32 => ValueType::Uint32,
                    MetadataType::Uint64 => ValueType::Uint64,
                    MetadataType::Float32 => ValueType::Float32,
                    MetadataType::Float64 => ValueType::Float64,
                    MetadataType::Complex64 => ValueType::Complex64,
                    MetadataType::Complex128 => ValueType::Complex128,
                    MetadataType::Str(_) => ValueType::Str,
                    MetadataType::Struct(_, _) => ValueType::Struct,
                    MetadataType::Signature(_) => ValueType::Closure,
                    MetadataType::SliceOrArray(_, _) => ValueType::Slice,
                    MetadataType::GosMap(_, _) => ValueType::GosMap,
                    MetadataType::Interface(_) => ValueType::Interface,
                    MetadataType::Channel(_, _) => ValueType::Channel,
                    MetadataType::Named(_, _) => ValueType::Named,
                },
                MetaCategory::Type => ValueType::Metadata,
                MetaCategory::ArrayType => ValueType::Metadata,
                MetaCategory::Array => ValueType::Array,
            },
            GosMetadata::Untyped => ValueType::Zero,
            _ => ValueType::Pointer,
        }
    }

    /// Whether the arena has what the kind of the type's values depends on.
    pub open spec fn spec_typed_in(self, metas: Map<u64, MetadataType>) -> bool {
        match self {
            GosMetadata::Untyped => false,
            GosMetadata::NonPtr(k, mc) => mc == MetaCategory::Default ==> metas.contains_key(k@),
            _ => true,
        }
    }

    /// The type that a named type stands for; any other type is itself.
    pub open spec fn spec_underlying(self, metas: Map<u64, MetadataType>) -> GosMetadata {
        match self {
            GosMetadata::NonPtr(k, _) => if metas.contains_key(k@) && metas[k@] is Named {
                metas[k@]->Named_1
            } else {
                self
            },
            _ => self,
        }
    }

    /// Stores a definition and returns the descriptor of the type, without
    /// indirection and with the category of an ordinary instance.
    pub fn new(v: MetadataType, metas: &mut MetadataObjs) -> (r: GosMetadata)
        requires
            old(metas).spec_len() < ARENA_LIMIT,
        ensures
            r is NonPtr,
            r.spec_category() == MetaCategory::Default,
            !old(metas).spec_contains(r.spec_key()),
            final(metas)@ == old(metas)@.insert(r.spec_key()@, v),
            final(metas).spec_len() == old(metas).spec_len() + 1,
            final(metas)@.dom().finite(),
    {
        GosMetadata::NonPtr(metas.insert(v), MetaCategory::Default)
    }

    /// The descriptor of a new array type of the given size.
    pub fn new_array(elem_meta: GosMetadata, size: usize, metas: &mut MetadataObjs) -> (r:
        GosMetadata)
        requires
            old(metas).spec_len() < ARENA_LIMIT,
        ensures
            r is NonPtr,
            r.spec_category() == MetaCategory::Array,
            !old(metas).spec_contains(r.spec_key()),
            final(metas)@ == old(metas)@.insert(
                r.spec_key()@,
                MetadataType::SliceOrArray(elem_meta, size),
            ),
            final(metas).spec_len() == old(metas).spec_len() + 1,
            final(metas)@.dom().finite(),
    {
        let t = MetadataType::SliceOrArray(elem_meta, size);
        GosMetadata::NonPtr(metas.insert(t), MetaCategory::Array)
    }

    /// The descriptor of a new slice type.
    pub fn new_slice(val_meta: GosMetadata, metas: &mut MetadataObjs) -> (r: GosMetadata)
        requires
            old(metas).spec_len() < ARENA_LIMIT,
        ensures
            r is NonPtr,
            r.spec_category() == MetaCategory::Default,
            !old(metas).spec_contains(r.spec_key()),
            final(metas)@ == old(metas)@.insert(
                r.spec_key()@,
                MetadataType::SliceOrArray(val_meta, 0),
            ),
            final(metas).spec_len() == old(metas).spec_len() + 1,
            final(metas)@.dom().finite(),
    {
        GosMetadata::new(MetadataType::SliceOrArray(val_meta, 0), metas)
    }

    /// The descriptor of a new map type.
    pub fn new_map(kmeta: GosMetadata, vmeta: GosMetadata, metas: &mut MetadataObjs) -> (r:
        GosMetadata)
        requires
            old(metas).spec_len() < ARENA_LIMIT,
        ensures
            r is NonPtr,
            r.spec_category() == MetaCategory::Default,
            !old(metas).spec_contains(r.spec_key()),
            final(metas)@ == old(metas)@.insert(r.spec_key()@, MetadataType::GosMap(kmeta, vmeta)),
            final(metas).spec_len() == old(metas).spec_len() + 1,
            final(metas)@.dom().finite(),
    {
        GosMetadata::new(MetadataType::GosMap(kmeta, vmeta), metas)
    }

    /// The descriptor of a new interface type.
    pub fn new_interface(fields: Fields, metas: &mut MetadataObjs) -> (r: GosMetadata)
        requires
            old(metas).spec_len() < ARENA_LIMIT,
        ensures
            r is NonPtr,
            r.spec_category() == MetaCategory::Default,
            !old(metas).spec_contains(r.spec_key()),
            final(metas)@ == old(metas)@.insert(r.spec_key()@, MetadataType::Interface(fields)),
            final(metas).spec_len() == old(metas).spec_len() + 1,
            final(metas)@.dom().finite(),
    {
        GosMetadata::new(MetadataType::Interface(fields), metas)
    }

    /// The descriptor of a new channel type.
    pub fn new_channel(typ: ChannelType, val_meta: GosMetadata, metas: &mut MetadataObjs) -> (r:
        GosMetadata)
        requires
            old(metas).spec_len() < ARENA_LIMIT,
        ensures
            r is NonPtr,
            r.spec_category() == MetaCategory::Default,
            !old(metas).spec_contains(r.spec_key()),
            final(metas)@ == old(metas)@.insert(
                r.spec_key()@,
                MetadataType::Channel(typ, val_meta),
            ),
            final(metas).spec_len() == old(metas).spec_len() + 1,
            final(metas)@.dom().finite(),
    {
        GosMetadata::new(MetadataType::Channel(typ, val_meta), metas)
    }

    /// The descriptor of a new function type; the kind of each parameter is
    /// kept with the signature.
    pub fn new_sig(
        recv: Option<GosMetadata>,
        params: Vec<GosMetadata>,
        results: Vec<GosMetadata>,
        variadic: Option<(GosMetadata, GosMetadata)>,
        metas: &mut MetadataObjs,
    ) -> (r: GosMetadata)
        requires
            old(metas).spec_len() < ARENA_LIMIT,
            forall|i: int| 0 <= i < params@.len() ==> (#[trigger] params@[i]).spec_typed_in(
                old(metas)@,
            ),
        ensures
            r is NonPtr,
            r.spec_category() == MetaCategory::Default,
            !old(metas).spec_contains(r.spec_key()),
            final(metas).spec_len() == old(metas).spec_len() + 1,
            final(metas)@.dom().finite(),
            final(metas)@.dom() == old(metas)@.dom().insert(r.spec_key()@),
            forall|j: u64| old(metas)@.contains_key(j) ==> final(metas)@[j] == old(metas)@[j],
            final(metas)@[r.spec_key()@] is Signature,
            ({
                let sig = final(metas)@[r.spec_key()@]->Signature_0;
                &&& sig.recv == recv
                &&& sig.params == params
                &&& sig.results == results
                &&& sig.variadic == variadic
                &&& sig.params_type@.len() == params@.len()
                &&& forall|i: int|
                    0 <= i < params@.len() ==> #[trigger] sig.params_type@[i]
                        == params@[i].spec_value_type(old(metas)@)
            }),
    {
        let mut ptypes: Vec<ValueType> = Vec::new();
        let mut i: usize = 0;
        while i < params.len()
            invariant
                i <= params@.len(),
                ptypes@.len() == i,
                *metas == *old(metas),
                forall|j: int| 0 <= j < params@.len() ==> (#[trigger] params@[j]).spec_typed_in(
                    metas@,
                ),
                forall|j: int|
                    0 <= j < i ==> #[trigger] ptypes@[j] == params@[j].spec_value_type(metas@),
            decreases params@.len() - i,
        {
            ptypes.push(params[i].get_value_type(metas));
            i += 1;
        }
        let t = MetadataType::Signature(
            SigMetadata { recv, params, results, variadic, params_type: ptypes },
        );
        GosMetadata::new(t, metas)
    }

    /// The descriptor of a new named type over a type that is not itself a
    /// named type; the method table starts empty.
    pub fn new_named(underlying: GosMetadata, metas: &mut MetadataObjs) -> (r: GosMetadata)
        requires
            old(metas).spec_len() < ARENA_LIMIT,
            underlying.spec_typed_in(old(metas)@),
            underlying.spec_value_type(old(metas)@) != ValueType::Named,
        ensures
            r is NonPtr,
            r.spec_category() == MetaCategory::Default,
            !old(metas).spec_contains(r.spec_key()),
            final(metas).spec_len() == old(metas).spec_len() + 1,
            final(metas)@.dom().finite(),
            final(metas)@.dom() == old(metas)@.dom().insert(r.spec_key()@),
            forall|j: u64| old(metas)@.contains_key(j) ==> final(metas)@[j] == old(metas)@[j],
            final(metas)@[r.spec_key()@] is Named,
            final(metas)@[r.spec_key()@]->Named_1 == underlying,
            final(metas)@[r.spec_key()@]->Named_0.members@.len() == 0,
            final(metas)@[r.spec_key()@]->Named_0.mapping@ == Map::<Seq<char>, OpIndex>::empty(),
    {
        GosMetadata::new(MetadataType::Named(Methods::new(), underlying), metas)
    }

    /// The kind of the values of the type.
    pub fn get_value_type(&self, metas: &MetadataObjs) -> (t: ValueType)
        requires
            self.spec_typed_in(metas@),
        ensures
            t == self.spec_value_type(metas@),
    {
        match self {
            GosMetadata::NonPtr(k, mc) => match mc {
                MetaCategory::Default => match metas.get(*k) {
                    Some(def) => match def {
                        MetadataType::Bool => ValueType::Bool,
                        MetadataType::Int => ValueType::Int,
                        MetadataType::Int8 => ValueType::Int8,
                        MetadataType::Int16 => ValueType::Int16,
                        MetadataType::Int32 => ValueType::Int32,
                        MetadataType::Int64 => ValueType::Int64,
                        MetadataType::Uint => ValueType::Uint,
                        MetadataType::Uint8 => ValueType::Uint8,
                        MetadataType::Uint16 => ValueType::Uint16,
                        MetadataType::Uint32 => ValueType::Uint32,
                        MetadataType::Uint64 => ValueType::Uint64,
                        MetadataType::Float32 => ValueType::Float32,
                        MetadataType::Float64 => ValueType::Float64,
                        MetadataType::Complex64 => ValueType::Complex64,
                        MetadataType::Complex128 => ValueType::Complex128,
                        MetadataType::Str(_) => ValueType::Str,
                        MetadataType::Struct(_, _) => ValueType::Struct,
                        MetadataType::Signature(_) => ValueType::Closure,
                        MetadataType::SliceOrArray(_, _) => ValueType::Slice,
                        MetadataType::GosMap(_, _) => ValueType::GosMap,
                        MetadataType::Interface(_) => ValueType::Interface,
                        MetadataType::Channel(_, _) => ValueType::Channel,
                        MetadataType::Named(_, _) => ValueType::Named,
                    },
                    None => vstd::pervasive::unreached(),
                },
                MetaCategory::Type => ValueType::Metadata,
                MetaCategory::ArrayType => ValueType::Metadata,
                MetaCategory::Array => ValueType::Array,
            },
            GosMetadata::Untyped => vstd::pervasive::unreached(),
            _ => ValueType::Pointer,
        }
    }

    /// The type that a named type stands for: one level is resolved; any
    /// other type is itself.
    pub fn get_underlying(&self, metas: &MetadataObjs) -> (r: GosMetadata)
        ensures
            r == self.spec_underlying(metas@),
    {
        match self {
            GosMetadata::NonPtr(k, _) => match metas.get(*k) {
                Some(def) => match def {
                    MetadataType::Named(_, u) => *u,
                    _ => *self,
                },
                None => *self,
            },
            _ => *self,
        }
    }

    /// Whether the descriptor is a struct type, or a named type over one,
    /// or a pointer to either, that has a field with the given name.
    pub open spec fn spec_has_field(self, name: Seq<char>, metas: Map<u64, MetadataType>) -> bool {
        &&& self is NonPtr || self is Ptr1
        &&& {
            let u = GosMetadata::NonPtr(self.spec_key(), MetaCategory::Default).spec_underlying(
                metas,
            );
            &&& u is NonPtr
            &&& metas.contains_key(u.spec_key()@)
            &&& metas[u.spec_key()@] is Struct
            &&& metas[u.spec_key()@]->Struct_0.mapping@.contains_key(name)
        }
    }

    /// The number of the field with the given name.
    pub fn field_index(&self, name: &str, metas: &MetadataObjs) -> (index: OpIndex)
        requires
            self.spec_has_field(name@, metas@),
        ensures
            index == metas@[GosMetadata::NonPtr(
                self.spec_key(),
                MetaCategory::Default,
            ).spec_underlying(metas@).spec_key()@]->Struct_0.mapping@[name@],
    {
        let key = self.recv_meta_key();
        let u = GosMetadata::NonPtr(key, MetaCategory::Default).get_underlying(metas);
        match metas.get(u.as_non_ptr()) {
            Some(def) => match def {
                MetadataType::Struct(m, _) => match m.mapping.get(name) {
                    Some(i) => i,
                    None => vstd::pervasive::unreached(),
                },
                _ => vstd::pervasive::unreached(),
            },
            None => vstd::pervasive::unreached(),
        }
    }

    /// Whether the descriptor is a named type of the arena, or a pointer to
    /// one.
    pub open spec fn spec_is_named_in(self, metas: Map<u64, MetadataType>) -> bool {
        &&& self is NonPtr || self is Ptr1
        &&& metas.contains_key(self.spec_key()@)
        &&& metas[self.spec_key()@] is Named
    }

    /// The method table of a named type.
    pub open spec fn spec_methods(self, metas: Map<u64, MetadataType>) -> Methods
        recommends
            self.spec_is_named_in(metas),
    {
        metas[self.spec_key()@]->Named_0
    }

    /// Adds a method without code to the method table of a named type: it
    /// gets the next slot, and its name is bound to that slot.
    pub fn add_method(&self, name: String, pointer_recv: bool, metas: &mut MetadataObjs)
        requires
            self.spec_is_named_in(old(metas)@),
            self.spec_methods(old(metas)@).members@.len() < i32::MAX,
        ensures
            spec_same_but(final(metas)@, old(metas)@, self.spec_key()),
            final(metas)@.dom().finite(),
            final(metas).spec_len() == old(metas).spec_len(),
            self.spec_is_named_in(final(metas)@),
            final(metas)@[self.spec_key()@]->Named_1 == old(metas)@[self.spec_key()@]->Named_1,
            self.spec_methods(final(metas)@).members@ == self.spec_methods(
                old(metas)@,
            ).members@.push(MethodDesc { pointer_recv, func: None }),
            self.spec_methods(final(metas)@).mapping@ == self.spec_methods(
                old(metas)@,
            ).mapping@.insert(name@, self.spec_methods(old(metas)@).members@.len() as OpIndex),
    {
        let k = self.recv_meta_key();
        match metas.get_mut(k) {
            MetadataType::Named(m, _) => {
                m.members.push(MethodDesc { pointer_recv, func: None });
                let index = (m.members.len() - 1) as OpIndex;
                m.mapping.insert(name, index);
            },
            _ => {},
        }
        proof {
            assert(metas@.dom() =~= old(metas)@.dom());
        }
    }

    /// Gives the method with the given name its code.
    pub fn set_method_code(&self, name: &String, func: FunctionKey, metas: &mut MetadataObjs)
        requires
            self.spec_is_named_in(old(metas)@),
            self.spec_methods(old(metas)@).mapping@.contains_key(name@),
            0 <= self.spec_methods(old(metas)@).mapping@[name@] < self.spec_methods(
                old(metas)@,
            ).members@.len(),
        ensures
            spec_same_but(final(metas)@, old(metas)@, self.spec_key()),
            final(metas)@.dom().finite(),
            final(metas).spec_len() == old(metas).spec_len(),
            self.spec_is_named_in(final(metas)@),
            final(metas)@[self.spec_key()@]->Named_1 == old(metas)@[self.spec_key()@]->Named_1,
            self.spec_methods(final(metas)@).mapping@ == self.spec_methods(old(metas)@).mapping@,
            ({
                let before = self.spec_methods(old(metas)@);
                let index = before.mapping@[name@] as int;
                self.spec_methods(final(metas)@).members@ == before.members@.update(
                    index,
                    MethodDesc { pointer_recv: before.members@[index].pointer_recv, func: Some(func) },
                )
            }),
    {
        let k = self.recv_meta_key();
        match metas.get_mut(k) {
            MetadataType::Named(m, _) => {
                let index = match m.mapping.get(name.as_str()) {
                    Some(i) => i as usize,
                    None => vstd::pervasive::unreached(),
                };
                let desc = m.members[index];
                m.members.set(index, MethodDesc { pointer_recv: desc.pointer_recv, func: Some(func) });
            },
            _ => {},
        }
        proof {
            assert(metas@.dom() =~= old(metas)@.dom());
        }
    }

    /// The method in a slot of the method table.
    pub fn get_method(&self, index: OpIndex, metas: &MetadataObjs) -> (m: MethodDesc)
        requires
            self.spec_is_named_in(metas@),
            0 <= index < self.spec_methods(metas@).members@.len(),
        ensures
            m == self.spec_methods(metas@).members@[index as int],
    {
        let k = self.recv_meta_key();
        match metas.get(k) {
            Some(def) => match def {
                MetadataType::Named(methods, _) => methods.members[index as usize],
                _ => vstd::pervasive::unreached(),
            },
            None => vstd::pervasive::unreached(),
        }
    }
}

/// For each slot of an interface, the slot of a named type's method with
/// the same name, after the first `n` names of the interface were looked
/// up; the slots of the other names hold nothing yet. The method itself is
/// read through the named type's table, so that it is the table's method at
/// the time of reading.
pub open spec fn spec_iface_mapping(
    count: nat,
    entries: Seq<(Seq<char>, OpIndex)>,
    n: int,
    named: Methods,
) -> Seq<Option<OpIndex>>
    decreases n,
{
    if n <= 0 || n > entries.len() {
        Seq::new(count, |i: int| None::<OpIndex>)
    } else {
        spec_iface_mapping(count, entries, n - 1, named).update(
            entries[n - 1].1 as int,
            Some(named.mapping@[entries[n - 1].0]),
        )
    }
}

/// The name and the type of each method of an interface, after the first
/// `n` names were filled in.
pub open spec fn spec_methods_info(
    fields: Seq<GosMetadata>,
    entries: Seq<(Seq<char>, OpIndex)>,
    n: int,
) -> Seq<(Seq<char>, GosMetadata)>
    decreases n,
{
    if n <= 0 || n > entries.len() {
        Seq::new(fields.len(), |i: int| (Seq::<char>::empty(), fields[i]))
    } else {
        let prev = spec_methods_info(fields, entries, n - 1);
        prev.update(entries[n - 1].1 as int, (entries[n - 1].0, prev[entries[n - 1].1 as int].1))
    }
}

impl Fields {
    /// Whether each name of the interface has a slot among its methods.
    pub open spec fn spec_slots_ok(&self) -> bool {
        forall|i: int|
            0 <= i < self.mapping.spec_entries().len() ==> 0 <= (
            #[trigger] self.mapping.spec_entries()[i]).1 < self.fields@.len()
    }

    /// For a value of a named type that is put into this interface: the
    /// slot of the named type's method for each of the interface's methods,
    /// by the interface's slots. A slot that no name of the interface stands
    /// for has no method. The slots point into the named type's table:
    /// `get_method` reads the method as the table has it then.
    pub fn iface_named_mapping(&self, named_obj: &Methods) -> (r: Vec<Option<OpIndex>>)
        requires
            self.spec_slots_ok(),
            forall|i: int|
                0 <= i < self.mapping.spec_entries().len() ==> {
                    let n = (#[trigger] self.mapping.spec_entries()[i]).0;
                    &&& named_obj.mapping@.contains_key(n)
                    &&& 0 <= named_obj.mapping@[n] < named_obj.members@.len()
                },
        ensures
            r@ == spec_iface_mapping(
                self.fields@.len(),
                self.mapping.spec_entries(),
                self.mapping.spec_entries().len() as int,
                *named_obj,
            ),
            r@.len() == self.fields@.len(),
            forall|i: int|
                0 <= i < r@.len() ==> (#[trigger] r@[i] matches Some(at) ==> 0 <= at
                    < named_obj.members@.len()),
    {
        let mut result: Vec<Option<OpIndex>> = Vec::new();
        let mut i: usize = 0;
        while i < self.fields.len()
            invariant
                i <= self.fields@.len(),
                result@ == Seq::new(i as nat, |j: int| None::<OpIndex>),
            decreases self.fields@.len() - i,
        {
            result.push(None);
            proof {
                assert(result@ =~= Seq::new((i + 1) as nat, |j: int| None::<OpIndex>));
            }
            i += 1;
        }
        let mut e: usize = 0;
        while e < self.mapping.len()
            invariant
                e <= self.mapping.spec_entries().len(),
                self.spec_slots_ok(),
                forall|i: int|
                    0 <= i < self.mapping.spec_entries().len() ==> {
                        let n = (#[trigger] self.mapping.spec_entries()[i]).0;
                        &&& named_obj.mapping@.contains_key(n)
                        &&& 0 <= named_obj.mapping@[n] < named_obj.members@.len()
                    },
                result@.len() == self.fields@.len(),
                result@ == spec_iface_mapping(
                    self.fields@.len(),
                    self.mapping.spec_entries(),
                    e as int,
                    *named_obj,
                ),
                forall|i: int|
                    0 <= i < result@.len() ==> (#[trigger] result@[i] matches Some(at) ==> 0 <= at
                        < named_obj.members@.len()),
            decreases self.mapping.spec_entries().len() - e,
        {
            let name = self.mapping.name_at(e);
            let slot = self.mapping.index_at(e);
            assert(self.mapping.spec_entries()[e as int].1 == slot);
            assert(self.mapping.spec_entries()[e as int].0 == name@);
            let at = match named_obj.mapping.get(name.as_str()) {
                Some(i) => i,
                None => vstd::pervasive::unreached(),
            };
            result.set(slot as usize, Some(at));
            e += 1;
        }
        result
    }

    /// The name and the type of each method of the interface, by slot.
    pub fn iface_methods_info(&self) -> (r: Vec<(String, GosMetadata)>)
        requires
            self.spec_slots_ok(),
        ensures
            r@.len() == self.fields@.len(),
            Seq::new(r@.len(), |i: int| (r@[i].0@, r@[i].1)) == spec_methods_info(
                self.fields@,
                self.mapping.spec_entries(),
                self.mapping.spec_entries().len() as int,
            ),
            forall|i: int| 0 <= i < r@.len() ==> (#[trigger] r@[i]).1 == self.fields@[i],
    {
        let mut ret: Vec<(String, GosMetadata)> = Vec::new();
        let mut i: usize = 0;
        while i < self.fields.len()
            invariant
                i <= self.fields@.len(),
                ret@.len() == i,
                forall|j: int|
                    0 <= j < i ==> (#[trigger] ret@[j]).0@ == Seq::<char>::empty() && ret@[j].1
                        == self.fields@[j],
            decreases self.fields@.len() - i,
        {
            ret.push((String::new(), self.fields[i]));
            i += 1;
        }
        proof {
            assert(Seq::new(ret@.len(), |i: int| (ret@[i].0@, ret@[i].1)) =~= spec_methods_info(
                self.fields@,
                self.mapping.spec_entries(),
                0,
            ));
        }
        let mut e: usize = 0;
        while e < self.mapping.len()
            invariant
                e <= self.mapping.spec_entries().len(),
                self.spec_slots_ok(),
                ret@.len() == self.fields@.len(),
                forall|j: int| 0 <= j < ret@.len() ==> (#[trigger] ret@[j]).1 == self.fields@[j],
                Seq::new(ret@.len(), |i: int| (ret@[i].0@, ret@[i].1)) == spec_methods_info(
                    self.fields@,
                    self.mapping.spec_entries(),
                    e as int,
                ),
            decreases self.mapping.spec_entries().len() - e,
        {
            let name = self.mapping.name_at(e);
            let slot = self.mapping.index_at(e);
            assert(self.mapping.spec_entries()[e as int].1 == slot);
            let ghost before = Seq::new(ret@.len(), |i: int| (ret@[i].0@, ret@[i].1));
            let typ = ret[slot as usize].1;
            ret.set(slot as usize, (name.clone(), typ));
            proof {
                assert(Seq::new(ret@.len(), |i: int| (ret@[i].0@, ret@[i].1)) =~= before.update(
                    slot as int,
                    (name@, before[slot as int].1),
                ));
            }
            e += 1;
        }
        ret
    }
}

impl GosMetadata {
    /// Whether `v` is a value as a variable of the type has it before
    /// anything is assigned to it: zero for numbers, the empty string, nil
    /// for pointers, functions, interfaces and channels; an array of such
    /// values; a struct that is a copy of the struct type's zero value; a
    /// named value over such a value. A slice and a map are nil where `nil`
    /// is on and empty where it is off; inside a composite they are empty.
    /// Every object of the value stands in a cell of `hb` that `ha` did not
    /// have. `fuel` bounds how many definitions the value goes through;
    /// where it runs out, and where the type has no definition, the value
    /// is nil.
    pub open spec fn spec_default_shape(
        self,
        v: GosValue,
        metas: Map<u64, MetadataType>,
        ha: Seq<GcCell>,
        hb: Seq<GcCell>,
        fuel: nat,
        nil: bool,
    ) -> bool
        decreases fuel, 0nat,
    {
        if fuel == 0 {
            v == GosValue::Nil(self)
        } else {
            let f = (fuel - 1) as nat;
            match self {
                GosMetadata::NonPtr(k, mc) => if !metas.contains_key(k@) {
                    v == GosValue::Nil(self)
                } else {
                    match metas[k@] {
                        MetadataType::Bool => v == GosValue::Bool(false),
                        MetadataType::Int => v == GosValue::Int(0),
                        MetadataType::Int8 => v == GosValue::Int8(0),
                        MetadataType::Int16 => v == GosValue::Int16(0),
                        MetadataType::Int32 => v == GosValue::Int32(0),
                        MetadataType::Int64 => v == GosValue::Int64(0),
                        MetadataType::Uint => v == GosValue::Uint(0),
                        MetadataType::Uint8 => v == GosValue::Uint8(0),
                        MetadataType::Uint16 => v == GosValue::Uint16(0),
                        MetadataType::Uint32 => v == GosValue::Uint32(0),
                        MetadataType::Uint64 => v == GosValue::Uint64(0),
                        MetadataType::Float32 => v == GosValue::Float32(F32 { bits: 0 }),
                        MetadataType::Float64 => v == GosValue::Float64(F64 { bits: 0 }),
                        MetadataType::Complex64 => v == GosValue::Complex64(F32 { bits: 0 }, F32 { bits: 0 }),
                        MetadataType::Complex128 => v == GosValue::Complex128(F64 { bits: 0 }, F64 { bits: 0 }),
                        MetadataType::Str(s) => v == s,
                        MetadataType::SliceOrArray(m, size) => match mc {
                            MetaCategory::Array => {
                                &&& v is Array
                                &&& spec_fresh(v->Array_0, ha, hb)
                                &&& hb[v->Array_0 as int].obj is Array
                                &&& hb[v->Array_0 as int].obj->Array_0.meta == self
                                &&& spec_fresh(hb[v->Array_0 as int].obj->Array_0.vec, ha, hb)
                                &&& hb[hb[v->Array_0 as int].obj->Array_0.vec as int].obj is Buffer
                                &&& spec_all_default(
                                    m,
                                    hb[hb[v->Array_0 as int].obj->Array_0.vec as int].obj->Buffer_0@,
                                    size as nat,
                                    metas,
                                    ha,
                                    hb,
                                    f,
                                )
                            },
                            MetaCategory::Default => {
                                &&& v is Slice
                                &&& spec_fresh(v->Slice_0, ha, hb)
                                &&& hb[v->Slice_0 as int].obj is Slice
                                &&& hb[v->Slice_0 as int].obj->Slice_0.spec_meta() == self
                                &&& hb[v->Slice_0 as int].obj->Slice_0.spec_begin() == 0
                                &&& hb[v->Slice_0 as int].obj->Slice_0.spec_end() == 0
                                &&& hb[v->Slice_0 as int].obj->Slice_0.spec_soft_cap() == 0
                                &&& if nil {
                                    hb[v->Slice_0 as int].obj->Slice_0.spec_vec() is None
                                } else {
                                    let vec = hb[v->Slice_0 as int].obj->Slice_0.spec_vec();
                                    &&& vec is Some
                                    &&& spec_fresh(vec.unwrap(), ha, hb)
                                    &&& hb[vec.unwrap() as int].obj is Buffer
                                    &&& hb[vec.unwrap() as int].obj->Buffer_0@.len() == 0
                                }
                            },
                            _ => v == GosValue::Nil(self),
                        },
                        MetadataType::Struct(_, tmpl) => spec_copy_semantic(
                            tmpl,
                            v,
                            ha,
                            hb,
                            ha.len(),
                        ),
                        MetadataType::Signature(_) => v == GosValue::Nil(self),
                        MetadataType::GosMap(_, vm) => {
                            &&& v is GosMap
                            &&& spec_fresh(v->GosMap_0, ha, hb)
                            &&& hb[v->GosMap_0 as int].obj is GosMap
                            &&& hb[v->GosMap_0 as int].obj->GosMap_0.spec_meta() == self
                            &&& vm.spec_default_shape(
                                hb[v->GosMap_0 as int].obj->GosMap_0.spec_default(),
                                metas,
                                ha,
                                hb,
                                f,
                                false,
                            )
                            &&& if nil {
                                hb[v->GosMap_0 as int].obj->GosMap_0.spec_map() is None
                            } else {
                                let t = hb[v->GosMap_0 as int].obj->GosMap_0.spec_map();
                                &&& t is Some
                                &&& spec_fresh(t.unwrap(), ha, hb)
                                &&& hb[t.unwrap() as int].obj is Table
                                &&& hb[t.unwrap() as int].obj->Table_0.entries@.len() == 0
                            }
                        },
                        MetadataType::Interface(_) => v == GosValue::Nil(self),
                        MetadataType::Channel(_, _) => v == GosValue::Nil(self),
                        MetadataType::Named(_, gm) => {
                            &&& v is Named
                            &&& v->Named_1 == gm
                            &&& gm.spec_default_shape(*v->Named_0, metas, ha, hb, f, false)
                        },
                    }
                },
                _ => v == GosValue::Nil(self),
            }
        }
    }
}

/// Whether a list holds `size` values, each one as a variable of the type
/// `m` has it before anything is assigned to it.
pub open spec fn spec_all_default(
    m: GosMetadata,
    items: Seq<GosValue>,
    size: nat,
    metas: Map<u64, MetadataType>,
    ha: Seq<GcCell>,
    hb: Seq<GcCell>,
    fuel: nat,
) -> bool
    decreases fuel, 1nat,
{
    &&& items.len() == size
    &&& forall|i: int|
        0 <= i < items.len() ==> m.spec_default_shape(#[trigger] items[i], metas, ha, hb, fuel, false)
}

/// A value stays what a variable of its type starts with when more cells
/// are added to the store.
pub proof fn lemma_default_shape_extends(
    meta: GosMetadata,
    v: GosValue,
    metas: Map<u64, MetadataType>,
    ha: Seq<GcCell>,
    hb: Seq<GcCell>,
    hc: Seq<GcCell>,
    fuel: nat,
    nil: bool,
)
    requires
        meta.spec_default_shape(v, metas, ha, hb, fuel, nil),
        spec_cells_extend(hc, hb),
    ensures
        meta.spec_default_shape(v, metas, ha, hc, fuel, nil),
    decreases fuel, 0nat,
{
    if fuel > 0 {
        let f = (fuel - 1) as nat;
        match meta {
            GosMetadata::NonPtr(k, mc) => {
                if metas.contains_key(k@) {
                    match metas[k@] {
                        MetadataType::SliceOrArray(m, size) => match mc {
                            MetaCategory::Array => {
                                let kv = v->Array_0;
                                assert(hc[kv as int] == hb[kv as int]);
                                let kb = hb[kv as int].obj->Array_0.vec;
                                assert(hc[kb as int] == hb[kb as int]);
                                lemma_all_default_extends(
                                    m,
                                    hb[kb as int].obj->Buffer_0@,
                                    size as nat,
                                    metas,
                                    ha,
                                    hb,
                                    hc,
                                    f,
                                );
                            },
                            MetaCategory::Default => {
                                let kv = v->Slice_0;
                                assert(hc[kv as int] == hb[kv as int]);
                                if !nil {
                                    let kb = hb[kv as int].obj->Slice_0.spec_vec().unwrap();
                                    assert(hc[kb as int] == hb[kb as int]);
                                }
                            },
                            _ => {},
                        },
                        MetadataType::Struct(_, tmpl) => {
                            lemma_copy_semantic_extends(tmpl, v, ha, hb, hc, ha.len());
                        },
                        MetadataType::GosMap(_, vm) => {
                            let kv = v->GosMap_0;
                            assert(hc[kv as int] == hb[kv as int]);
                            lemma_default_shape_extends(
                                vm,
                                hb[kv as int].obj->GosMap_0.spec_default(),
                                metas,
                                ha,
                                hb,
                                hc,
                                f,
                                false,
                            );
                            if !nil {
                                let kt = hb[kv as int].obj->GosMap_0.spec_map().unwrap();
                                assert(hc[kt as int] == hb[kt as int]);
                            }
                        },
                        MetadataType::Named(_, gm) => {
                            lemma_default_shape_extends(
                                gm,
                                *v->Named_0,
                                metas,
                                ha,
                                hb,
                                hc,
                                f,
                                false,
                            );
                        },
                        _ => {},
                    }
                }
            },
            _ => {},
        }
    }
}

/// A list of starting values stays one when more cells are added to the
/// store.
pub proof fn lemma_all_default_extends(
    m: GosMetadata,
    items: Seq<GosValue>,
    size: nat,
    metas: Map<u64, MetadataType>,
    ha: Seq<GcCell>,
    hb: Seq<GcCell>,
    hc: Seq<GcCell>,
    fuel: nat,
)
    requires
        spec_all_default(m, items, size, metas, ha, hb, fuel),
        spec_cells_extend(hc, hb),
    ensures
        spec_all_default(m, items, size, metas, ha, hc, fuel),
    decreases fuel, 1nat,
{
    assert forall|i: int| 0 <= i < items.len() implies m.spec_default_shape(
        #[trigger] items[i],
        metas,
        ha,
        hc,
        fuel,
        false,
    ) by {
        lemma_default_shape_extends(m, items[i], metas, ha, hb, hc, fuel, false);
    }
}

impl GosMetadata {
    /// The value that a variable of the type starts with, going through at
    /// most `fuel` definitions and copying objects below `base` only.
    pub fn zero_val_impl(
        &self,
        mobjs: &MetadataObjs,
        gcos: &mut GcoVec,
        fuel: usize,
        base: usize,
        nil: bool,
    ) -> (v: GosValue)
        requires
            base <= old(gcos)@.len(),
        ensures
            final(gcos).spec_extends(old(gcos)),
            self.spec_default_shape(
                v,
                mobjs@,
                old(gcos)@.take(base as int),
                final(gcos)@,
                fuel as nat,
                nil,
            ),
        decreases fuel,
    {
        if fuel == 0 {
            return GosValue::Nil(*self);
        }
        let ghost ha = gcos@.take(base as int);
        let ghost start = *gcos;
        let def = match self {
            GosMetadata::NonPtr(k, _) => mobjs.get(*k),
            _ => None,
        };
        let mc = match self {
            GosMetadata::NonPtr(_, mc) => *mc,
            _ => MetaCategory::Default,
        };
        match def {
            None => GosValue::Nil(*self),
            Some(def) => match def {
                MetadataType::Bool => GosValue::Bool(false),
                MetadataType::Int => GosValue::Int(0),
                MetadataType::Int8 => GosValue::Int8(0),
                MetadataType::Int16 => GosValue::Int16(0),
                MetadataType::Int32 => GosValue::Int32(0),
                MetadataType::Int64 => GosValue::Int64(0),
                MetadataType::Uint => GosValue::Uint(0),
                MetadataType::Uint8 => GosValue::Uint8(0),
                MetadataType::Uint16 => GosValue::Uint16(0),
                MetadataType::Uint32 => GosValue::Uint32(0),
                MetadataType::Uint64 => GosValue::Uint64(0),
                MetadataType::Float32 => GosValue::Float32(F32 { bits: 0 }),
                MetadataType::Float64 => GosValue::Float64(F64 { bits: 0 }),
                MetadataType::Complex64 => GosValue::Complex64(F32 { bits: 0 }, F32 { bits: 0 }),
                MetadataType::Complex128 => GosValue::Complex128(F64 { bits: 0 }, F64 { bits: 0 }),
                MetadataType::Str(s) => s.clone(),
                MetadataType::SliceOrArray(m, size) => match mc {
                    MetaCategory::Array => {
                        let mut items: Vec<GosValue> = Vec::new();
                        let mut i: usize = 0;
                        while i < *size
                            invariant
                                i <= *size,
                                fuel > 0,
                                base <= start@.len(),
                                ha == start@.take(base as int),
                                gcos.spec_extends(&start),
                                items@.len() == i,
                                forall|j: int|
                                    0 <= j < i ==> m.spec_default_shape(
                                        #[trigger] items@[j],
                                        mobjs@,
                                        ha,
                                        gcos@,
                                        (fuel - 1) as nat,
                                        false,
                                    ),
                            decreases *size - i,
                        {
                            let ghost mid = *gcos;
                            let ghost done = items@;
                            proof {
                                assert(mid@.take(base as int) =~= ha);
                            }
                            let d = m.zero_val_impl(mobjs, gcos, fuel - 1, base, false);
                            items.push(d);
                            proof {
                                gcos.lemma_extends_transitive(&mid, &start);
                                assert forall|j: int| 0 <= j < i + 1 implies m.spec_default_shape(
                                    #[trigger] items@[j],
                                    mobjs@,
                                    ha,
                                    gcos@,
                                    (fuel - 1) as nat,
                                    false,
                                ) by {
                                    if j < i {
                                        assert(items@[j] == done[j]);
                                        lemma_default_shape_extends(
                                            *m,
                                            done[j],
                                            mobjs@,
                                            ha,
                                            mid@,
                                            gcos@,
                                            (fuel - 1) as nat,
                                            false,
                                        );
                                    }
                                }
                            }
                            i += 1;
                        }
                        let ghost mid = *gcos;
                        let ghost elems = items@;
                        let arr = ArrayObj::with_data(items, *self, gcos);
                        let ghost mid2 = *gcos;
                        let v = GosValue::new_array(arr, gcos);
                        proof {
                            gcos.lemma_extends_transitive(&mid2, &mid);
                            gcos.lemma_extends_transitive(&mid, &start);
                            assert(gcos@[arr.vec as int] == mid2@[arr.vec as int]);
                            assert(spec_all_default(
                                *m,
                                elems,
                                *size as nat,
                                mobjs@,
                                ha,
                                mid@,
                                (fuel - 1) as nat,
                            ));
                            lemma_all_default_extends(
                                *m,
                                elems,
                                *size as nat,
                                mobjs@,
                                ha,
                                mid@,
                                gcos@,
                                (fuel - 1) as nat,
                            );
                        }
                        v
                    },
                    MetaCategory::Default => {
                        if nil {
                            let v = GosValue::new_slice_nil(*self, gcos);
                            proof {
                                SliceObj::lemma_of(*self, 0, 0, 0, None);
                            }
                            v
                        } else {
                            GosValue::new_slice(0, 0, *self, None, gcos)
                        }
                    },
                    _ => GosValue::Nil(*self),
                },
                MetadataType::Struct(_, s) => s.copy_semantic_bounded(gcos, base, base),
                MetadataType::Signature(_) => GosValue::Nil(*self),
                MetadataType::GosMap(_, vm) => {
                    let d = vm.zero_val_impl(mobjs, gcos, fuel - 1, base, false);
                    let ghost mid = *gcos;
                    let ghost dv = d;
                    let v = if nil {
                        GosValue::new_map_nil(*self, d, gcos)
                    } else {
                        GosValue::new_map(*self, d, gcos)
                    };
                    proof {
                        gcos.lemma_extends_transitive(&mid, &start);
                        lemma_default_shape_extends(
                            *vm,
                            dv,
                            mobjs@,
                            ha,
                            mid@,
                            gcos@,
                            (fuel - 1) as nat,
                            false,
                        );
                    }
                    v
                },
                MetadataType::Interface(_) => GosValue::Nil(*self),
                MetadataType::Channel(_, _) => GosValue::Nil(*self),
                MetadataType::Named(_, gm) => {
                    let val = gm.zero_val_impl(mobjs, gcos, fuel - 1, base, false);
                    GosValue::Named(Box::new(val), *gm)
                },
            },
        }
    }

    /// The zero value of the type: what a variable of the type holds before
    /// anything is assigned to it. The zero value of a slice type is the nil
    /// slice, that of a map type the nil map.
    pub fn zero_val(&self, mobjs: &MetadataObjs, gcos: &mut GcoVec) -> (v: GosValue)
        ensures
            final(gcos).spec_extends(old(gcos)),
            self.spec_default_shape(
                v,
                mobjs@,
                old(gcos)@,
                final(gcos)@,
                mobjs.spec_len() + 1,
                true,
            ),
    {
        let fuel = mobjs.len() + 1;
        let base = gcos.len();
        proof {
            assert(gcos@.take(base as int) =~= gcos@);
        }
        self.zero_val_impl(mobjs, gcos, fuel, base, true)
    }

    /// The value that a new element, field or map value of the type starts
    /// with: as the zero value, but a slice is empty and not nil, and so is
    /// a map.
    pub fn default_val(&self, mobjs: &MetadataObjs, gcos: &mut GcoVec) -> (v: GosValue)
        ensures
            final(gcos).spec_extends(old(gcos)),
            self.spec_default_shape(
                v,
                mobjs@,
                old(gcos)@,
                final(gcos)@,
                mobjs.spec_len() + 1,
                false,
            ),
    {
        let fuel = mobjs.len() + 1;
        let base = gcos.len();
        proof {
            assert(gcos@.take(base as int) =~= gcos@);
        }
        self.zero_val_impl(mobjs, gcos, fuel, base, false)
    }
}

impl Metadata {
    /// The handles of the predeclared types' definitions.
    pub open spec fn spec_keys(&self) -> Seq<u64> {
        seq![
            self.mbool.spec_key()@,
            self.mint.spec_key()@,
            self.mint8.spec_key()@,
            self.mint16.spec_key()@,
            self.mint32.spec_key()@,
            self.mint64.spec_key()@,
            self.muint.spec_key()@,
            self.muint8.spec_key()@,
            self.muint16.spec_key()@,
            self.muint32.spec_key()@,
            self.muint64.spec_key()@,
            self.mfloat32.spec_key()@,
            self.mfloat64.spec_key()@,
            self.mcomplex64.spec_key()@,
            self.mcomplex128.spec_key()@,
            self.mstr.spec_key()@,
            self.unsafe_ptr.spec_key()@,
            self.default_sig.spec_key()@,
            self.empty_iface.spec_key()@,
        ]
    }

    /// Whether the arena holds the definition of each predeclared type
    /// under the handle of its descriptor.
    pub open spec fn spec_predeclared(&self, metas: Map<u64, MetadataType>) -> bool {
        &&& self.mbool is NonPtr
        &&& self.mbool.spec_category() == MetaCategory::Default
        &&& metas.contains_key(self.mbool.spec_key()@)
        &&& metas[self.mbool.spec_key()@] is Bool
        &&& self.mint is NonPtr
        &&& self.mint.spec_category() == MetaCategory::Default
        &&& metas.contains_key(self.mint.spec_key()@)
        &&& metas[self.mint.spec_key()@] is Int
        &&& self.mint8 is NonPtr
        &&& self.mint8.spec_category() == MetaCategory::Default
        &&& metas.contains_key(self.mint8.spec_key()@)
        &&& metas[self.mint8.spec_key()@] is Int8
        &&& self.mint16 is NonPtr
        &&& self.mint16.spec_category() == MetaCategory::Default
        &&& metas.contains_key(self.mint16.spec_key()@)
        &&& metas[self.mint16.spec_key()@] is Int16
        &&& self.mint32 is NonPtr
        &&& self.mint32.spec_category() == MetaCategory::Default
        &&& metas.contains_key(self.mint32.spec_key()@)
        &&& metas[self.mint32.spec_key()@] is Int32
        &&& self.mint64 is NonPtr
        &&& self.mint64.spec_category() == MetaCategory::Default
        &&& metas.contains_key(self.mint64.spec_key()@)
        &&& metas[self.mint64.spec_key()@] is Int64
        &&& self.muint is NonPtr
        &&& self.muint.spec_category() == MetaCategory::Default
        &&& metas.contains_key(self.muint.spec_key()@)
        &&& metas[self.muint.spec_key()@] is Uint
        &&& self.muint8 is NonPtr
        &&& self.muint8.spec_category() == MetaCategory::Default
        &&& metas.contains_key(self.muint8.spec_key()@)
        &&& metas[self.muint8.spec_key()@] is Uint8
        &&& self.muint16 is NonPtr
        &&& self.muint16.spec_category() == MetaCategory::Default
        &&& metas.contains_key(self.muint16.spec_key()@)
        &&& metas[self.muint16.spec_key()@] is Uint16
        &&& self.muint32 is NonPtr
        &&& self.muint32.spec_category() == MetaCategory::Default
        &&& metas.contains_key(self.muint32.spec_key()@)
        &&& metas[self.muint32.spec_key()@] is Uint32
        &&& self.muint64 is NonPtr
        &&& self.muint64.spec_category() == MetaCategory::Default
        &&& metas.contains_key(self.muint64.spec_key()@)
        &&& metas[self.muint64.spec_key()@] is Uint64
        &&& self.mfloat32 is NonPtr
        &&& self.mfloat32.spec_category() == MetaCategory::Default
        &&& metas.contains_key(self.mfloat32.spec_key()@)
        &&& metas[self.mfloat32.spec_key()@] is Float32
        &&& self.mfloat64 is NonPtr
        &&& self.mfloat64.spec_category() == MetaCategory::Default
        &&& metas.contains_key(self.mfloat64.spec_key()@)
        &&& metas[self.mfloat64.spec_key()@] is Float64
        &&& self.mcomplex64 is NonPtr
        &&& self.mcomplex64.spec_category() == MetaCategory::Default
        &&& metas.contains_key(self.mcomplex64.spec_key()@)
        &&& metas[self.mcomplex64.spec_key()@] is Complex64
        &&& self.mcomplex128 is NonPtr
        &&& self.mcomplex128.spec_category() == MetaCategory::Default
        &&& metas.contains_key(self.mcomplex128.spec_key()@)
        &&& metas[self.mcomplex128.spec_key()@] is Complex128
        &&& self.mstr is NonPtr
        &&& self.mstr.spec_category() == MetaCategory::Default
        &&& metas.contains_key(self.mstr.spec_key()@)
        &&& metas[self.mstr.spec_key()@] is Str
        &&& self.unsafe_ptr is Ptr1
        &&& self.unsafe_ptr.spec_category() == MetaCategory::Default
        &&& metas.contains_key(self.unsafe_ptr.spec_key()@)
        &&& metas[self.unsafe_ptr.spec_key()@] is Uint
        &&& self.default_sig is NonPtr
        &&& self.default_sig.spec_category() == MetaCategory::Default
        &&& metas.contains_key(self.default_sig.spec_key()@)
        &&& metas[self.default_sig.spec_key()@] is Signature
        &&& self.empty_iface is NonPtr
        &&& self.empty_iface.spec_category() == MetaCategory::Default
        &&& metas.contains_key(self.empty_iface.spec_key()@)
        &&& metas[self.empty_iface.spec_key()@] is Interface
        &&& metas[self.mstr.spec_key()@]->Str_0 is Str
        &&& metas[self.mstr.spec_key()@]->Str_0->Str_0@.len() == 0
        &&& metas[self.default_sig.spec_key()@]->Signature_0.recv is None
        &&& metas[self.default_sig.spec_key()@]->Signature_0.params@.len() == 0
        &&& metas[self.default_sig.spec_key()@]->Signature_0.results@.len() == 0
        &&& metas[self.default_sig.spec_key()@]->Signature_0.variadic is None
        &&& metas[self.empty_iface.spec_key()@]->Interface_0.fields@.len() == 0
        &&& metas[self.empty_iface.spec_key()@]->Interface_0.mapping@ == Map::<
            Seq<char>,
            OpIndex,
        >::empty()
    }

    /// Stores the definitions of the predeclared types and returns their
    /// descriptors. What the arena held stays.
    pub fn new(objs: &mut MetadataObjs) -> (md: Metadata)
        requires
            old(objs).spec_len() + 19 <= ARENA_LIMIT,
        ensures
            md.spec_predeclared(final(objs)@),
            md.spec_keys().no_duplicates(),
            forall|i: int|
                0 <= i < 19 ==> !old(objs)@.contains_key(#[trigger] md.spec_keys()[i]),
            forall|j: u64| old(objs)@.contains_key(j) ==> final(objs)@[j] == old(objs)@[j],
            final(objs).spec_len() == old(objs).spec_len() + 19,
            final(objs)@.dom().finite(),
    {
        let k0 = objs.insert(MetadataType::Bool);
        let ghost a0 = objs@;
        let k1 = objs.insert(MetadataType::Int);
        let ghost a1 = objs@;
        let k2 = objs.insert(MetadataType::Int8);
        let ghost a2 = objs@;
        let k3 = objs.insert(MetadataType::Int16);
        let ghost a3 = objs@;
        let k4 = objs.insert(MetadataType::Int32);
        let ghost a4 = objs@;
        let k5 = objs.insert(MetadataType::Int64);
        let ghost a5 = objs@;
        let k6 = objs.insert(MetadataType::Uint);
        let ghost a6 = objs@;
        let k7 = objs.insert(MetadataType::Uint8);
        let ghost a7 = objs@;
        let k8 = objs.insert(MetadataType::Uint16);
        let ghost a8 = objs@;
        let k9 = objs.insert(MetadataType::Uint32);
        let ghost a9 = objs@;
        let k10 = objs.insert(MetadataType::Uint64);
        let ghost a10 = objs@;
        let k11 = objs.insert(MetadataType::Float32);
        let ghost a11 = objs@;
        let k12 = objs.insert(MetadataType::Float64);
        let ghost a12 = objs@;
        let k13 = objs.insert(MetadataType::Complex64);
        let ghost a13 = objs@;
        let k14 = objs.insert(MetadataType::Complex128);
        let ghost a14 = objs@;
        let k15 = objs.insert(MetadataType::Str(GosValue::new_str(String::new())));
        let ghost a15 = objs@;
        let k16 = objs.insert(MetadataType::Uint);
        let ghost a16 = objs@;
        let k17 = objs.insert(MetadataType::Signature(SigMetadata::default()));
        let ghost a17 = objs@;
        let k18 = objs.insert(MetadataType::Interface(Fields::new(Vec::new(), NameTable::new())));
        let ghost a18 = objs@;
        let md = Metadata {
            mbool: GosMetadata::NonPtr(k0, MetaCategory::Default),
            mint: GosMetadata::NonPtr(k1, MetaCategory::Default),
            mint8: GosMetadata::NonPtr(k2, MetaCategory::Default),
            mint16: GosMetadata::NonPtr(k3, MetaCategory::Default),
            mint32: GosMetadata::NonPtr(k4, MetaCategory::Default),
            mint64: GosMetadata::NonPtr(k5, MetaCategory::Default),
            muint: GosMetadata::NonPtr(k6, MetaCategory::Default),
            muint8: GosMetadata::NonPtr(k7, MetaCategory::Default),
            muint16: GosMetadata::NonPtr(k8, MetaCategory::Default),
            muint32: GosMetadata::NonPtr(k9, MetaCategory::Default),
            muint64: GosMetadata::NonPtr(k10, MetaCategory::Default),
            mfloat32: GosMetadata::NonPtr(k11, MetaCategory::Default),
            mfloat64: GosMetadata::NonPtr(k12, MetaCategory::Default),
            mcomplex64: GosMetadata::NonPtr(k13, MetaCategory::Default),
            mcomplex128: GosMetadata::NonPtr(k14, MetaCategory::Default),
            mstr: GosMetadata::NonPtr(k15, MetaCategory::Default),
            unsafe_ptr: GosMetadata::Ptr1(k16, MetaCategory::Default),
            default_sig: GosMetadata::NonPtr(k17, MetaCategory::Default),
            empty_iface: GosMetadata::NonPtr(k18, MetaCategory::Default),
        };
        proof {
            assert(objs@.contains_key(k0@) && objs@[k0@] == a0[k0@]);
            assert(objs@.contains_key(k1@) && objs@[k1@] == a1[k1@]);
            assert(objs@.contains_key(k2@) && objs@[k2@] == a2[k2@]);
            assert(objs@.contains_key(k3@) && objs@[k3@] == a3[k3@]);
            assert(objs@.contains_key(k4@) && objs@[k4@] == a4[k4@]);
            assert(objs@.contains_key(k5@) && objs@[k5@] == a5[k5@]);
            assert(objs@.contains_key(k6@) && objs@[k6@] == a6[k6@]);
            assert(objs@.contains_key(k7@) && objs@[k7@] == a7[k7@]);
            assert(objs@.contains_key(k8@) && objs@[k8@] == a8[k8@]);
            assert(objs@.contains_key(k9@) && objs@[k9@] == a9[k9@]);
            assert(objs@.contains_key(k10@) && objs@[k10@] == a10[k10@]);
            assert(objs@.contains_key(k11@) && objs@[k11@] == a11[k11@]);
            assert(objs@.contains_key(k12@) && objs@[k12@] == a12[k12@]);
            assert(objs@.contains_key(k13@) && objs@[k13@] == a13[k13@]);
            assert(objs@.contains_key(k14@) && objs@[k14@] == a14[k14@]);
            assert(objs@.contains_key(k15@) && objs@[k15@] == a15[k15@]);
            assert(objs@.contains_key(k16@) && objs@[k16@] == a16[k16@]);
            assert(objs@.contains_key(k17@) && objs@[k17@] == a17[k17@]);
            assert(objs@.contains_key(k18@) && objs@[k18@] == a18[k18@]);
            vstd::utf8::encode_utf8_valid_utf8(Seq::<char>::empty());
            assert(vstd::utf8::encode_utf8(Seq::<char>::empty()).len() == 0) by {
                reveal_with_fuel(vstd::utf8::encode_utf8, 1);
            }
        }
        md
    }
}

impl GosMetadata {
    /// The descriptor of a new struct type. The zero value of its instances
    /// is made of the zero values of the field types and kept with the
    /// definition.
    pub fn new_struct(f: Fields, objs: &mut VMObjects, gcv: &mut GcoVec) -> (r: GosMetadata)
        requires
            old(objs).metas.spec_len() < ARENA_LIMIT,
        ensures
            r is NonPtr,
            r.spec_category() == MetaCategory::Default,
            !old(objs).metas.spec_contains(r.spec_key()),
            final(objs).metas.spec_len() == old(objs).metas.spec_len() + 1,
            final(objs).metas@.dom().finite(),
            final(objs).metas@.dom() == old(objs).metas@.dom().insert(r.spec_key()@),
            forall|j: u64|
                old(objs).metas@.contains_key(j) ==> final(objs).metas@[j] == old(objs).metas@[j],
            final(objs).functions == old(objs).functions,
            final(objs).packages == old(objs).packages,
            final(objs).metadata == old(objs).metadata,
            final(gcv).spec_extends(old(gcv)),
            final(objs).metas@[r.spec_key()@] is Struct,
            final(objs).metas@[r.spec_key()@]->Struct_0 == f,
            ({
                let tmpl = final(objs).metas@[r.spec_key()@]->Struct_1;
                &&& tmpl is Struct
                &&& spec_fresh(tmpl->Struct_0, old(gcv)@, final(gcv)@)
                &&& final(gcv)@[tmpl->Struct_0 as int].obj is Struct
                &&& final(gcv)@[tmpl->Struct_0 as int].obj->Struct_0.meta == r
                &&& final(gcv)@[tmpl->Struct_0 as int].obj->Struct_0.fields@.len()
                    == f.fields@.len()
                &&& forall|i: int|
                    0 <= i < f.fields@.len() ==> (#[trigger] f.fields@[i]).spec_default_shape(
                        final(gcv)@[tmpl->Struct_0 as int].obj->Struct_0.fields@[i],
                        old(objs).metas@,
                        old(gcv)@,
                        final(gcv)@,
                        old(objs).metas.spec_len() + 1,
                        true,
                    )
            }),
    {
        let ghost start = *gcv;
        let ghost ha = gcv@;
        let fuel = objs.metas.len() + 1;
        let base = gcv.len();
        let mut field_zeros: Vec<GosValue> = Vec::new();
        let mut i: usize = 0;
        proof {
            assert(start@.take(base as int) =~= ha);
        }
        while i < f.fields.len()
            invariant
                i <= f.fields@.len(),
                *objs == *old(objs),
                fuel == objs.metas.spec_len() + 1,
                base == start@.len(),
                ha == start@,
                gcv.spec_extends(&start),
                field_zeros@.len() == i,
                forall|j: int|
                    0 <= j < i ==> (#[trigger] f.fields@[j]).spec_default_shape(
                        field_zeros@[j],
                        objs.metas@,
                        ha,
                        gcv@,
                        fuel as nat,
                        true,
                    ),
            decreases f.fields@.len() - i,
        {
            let ghost mid = *gcv;
            let ghost done = field_zeros@;
            proof {
                assert(mid@.take(base as int) =~= ha);
            }
            let z = f.fields[i].zero_val_impl(&objs.metas, gcv, fuel, base, true);
            field_zeros.push(z);
            proof {
                gcv.lemma_extends_transitive(&mid, &start);
                assert forall|j: int| 0 <= j < i + 1 implies (
                #[trigger] f.fields@[j]).spec_default_shape(
                    field_zeros@[j],
                    objs.metas@,
                    ha,
                    gcv@,
                    fuel as nat,
                    true,
                ) by {
                    if j < i {
                        assert(field_zeros@[j] == done[j]);
                        lemma_default_shape_extends(
                            f.fields@[j],
                            done[j],
                            objs.metas@,
                            ha,
                            mid@,
                            gcv@,
                            fuel as nat,
                            true,
                        );
                    }
                }
            }
            i += 1;
        }
        let ghost zeros = field_zeros@;
        let ghost mid = *gcv;
        let ghost field_types = f.fields@;
        let struct_val = StructObj { meta: GosMetadata::Untyped, fields: field_zeros };
        let gos_struct = GosValue::new_struct(struct_val, gcv);
        let ks = match gos_struct {
            GosValue::Struct(k) => k,
            _ => vstd::pervasive::unreached(),
        };
        let key = objs.metas.insert(MetadataType::Struct(f, gos_struct));
        let gosm = GosMetadata::NonPtr(key, MetaCategory::Default);
        let ghost mid2 = *gcv;
        let target = gcv.struct_obj_mut(ks);
        target.meta = gosm;
        proof {
            gcv.lemma_change_above(&mid2, &mid, ks);
            gcv.lemma_extends_transitive(&mid, &start);
            assert(gcv@[ks as int].obj->Struct_0.fields@ == zeros);
            assert forall|j: int| 0 <= j < field_types.len() implies (
            #[trigger] field_types[j]).spec_default_shape(
                zeros[j],
                old(objs).metas@,
                ha,
                gcv@,
                fuel as nat,
                true,
            ) by {
                lemma_default_shape_extends(
                    field_types[j],
                    zeros[j],
                    old(objs).metas@,
                    ha,
                    mid@,
                    gcv@,
                    fuel as nat,
                    true,
                );
            }
        }
        gosm
    }
}

} // verus!
