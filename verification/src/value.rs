//! The runtime value: primitives by value, strings with their window, and
//! composites by the handle of their object in the store.

use crate::arena::{FunctionKey, PackageKey};
use crate::instruction::ValueType;
use crate::gc::{
    spec_cells_mark, spec_cells_sub_one, spec_queue_mark, GcCell, GcKey, GcObj, GcoVec, RCQueue,
};
use crate::metadata::GosMetadata;
use crate::objects::{
    clone_range, clone_values, ArrayObj, ClosureObj, GosHashMap, IfaceUnderlying, InterfaceObj,
    MapObj, PointerObj, SliceObj, StringObj, StructObj, UpValue, UpValueState,
};
use vstd::prelude::*;

verus! {

/// A 32-bit float, held as its bits.
#[derive(Clone, Copy, Debug, PartialEq, Eq, Structural)]
pub struct F32 {
    pub bits: u32,
}

/// A 64-bit float, held as its bits.
#[derive(Clone, Copy, Debug, PartialEq, Eq, Structural)]
pub struct F64 {
    pub bits: u64,
}

/// A runtime value.
#[derive(Debug)]
pub enum GosValue {
    Nil(GosMetadata),
    Bool(bool),
    Int(isize),
    Int8(i8),
    Int16(i16),
    Int32(i32),
    Int64(i64),
    Uint(usize),
    Uint8(u8),
    Uint16(u16),
    Uint32(u32),
    Uint64(u64),
    Float32(F32),
    Float64(F64),
    Complex64(F32, F32),
    Complex128(F64, F64),
    Function(FunctionKey),
    Package(PackageKey),
    Metadata(GosMetadata),
    Str(StringObj),
    Array(GcKey),
    Pointer(Box<PointerObj>),
    Closure(GcKey),
    Slice(GcKey),
    GosMap(GcKey),
    Interface(GcKey),
    Struct(GcKey),
    Channel(GcKey),
    Named(Box<GosValue>, GosMetadata),
}

impl GosValue {
    /// The kind of the value.
    pub open spec fn spec_get_type(&self) -> ValueType {
        match self {
            GosValue::Nil(_) => ValueType::Zero,
            GosValue::Bool(_) => ValueType::Bool,
            GosValue::Int(_) => ValueType::Int,
            GosValue::Int8(_) => ValueType::Int8,
            GosValue::Int16(_) => ValueType::Int16,
            GosValue::Int32(_) => ValueType::Int32,
            GosValue::Int64(_) => ValueType::Int64,
            GosValue::Uint(_) => ValueType::Uint,
            GosValue::Uint8(_) => ValueType::Uint8,
            GosValue::Uint16(_) => ValueType::Uint16,
            GosValue::Uint32(_) => ValueType::Uint32,
            GosValue::Uint64(_) => ValueType::Uint64,
            GosValue::Float32(_) => ValueType::Float32,
            GosValue::Float64(_) => ValueType::Float64,
            GosValue::Complex64(_, _) => ValueType::Complex64,
            GosValue::Complex128(_, _) => ValueType::Complex128,
            GosValue::Function(_) => ValueType::Function,
            GosValue::Package(_) => ValueType::Package,
            GosValue::Metadata(_) => ValueType::Metadata,
            GosValue::Str(_) => ValueType::Str,
            GosValue::Array(_) => ValueType::Array,
            GosValue::Pointer(_) => ValueType::Pointer,
            GosValue::Closure(_) => ValueType::Closure,
            GosValue::Slice(_) => ValueType::Slice,
            GosValue::GosMap(_) => ValueType::GosMap,
            GosValue::Interface(_) => ValueType::Interface,
            GosValue::Struct(_) => ValueType::Struct,
            GosValue::Channel(_) => ValueType::Channel,
            GosValue::Named(_, _) => ValueType::Named,
        }
    }

    /// Whether two values are the same value: of the same kind, with the
    /// same bytes for strings, the same bits for floats, and the same object
    /// for composites.
    pub open spec fn spec_identical(&self, other: &GosValue) -> bool
        decreases self,
    {
        match (self, other) {
            (GosValue::Str(x), GosValue::Str(y)) => x@ == y@,
            (GosValue::Named(x, mx), GosValue::Named(y, my)) => mx == my && x.spec_identical(y),
            (GosValue::Str(_), _) => false,
            (_, GosValue::Str(_)) => false,
            (GosValue::Named(_, _), _) => false,
            (_, GosValue::Named(_, _)) => false,
            _ => self == other,
        }
    }

    /// Every value is the same value as itself.
    pub proof fn lemma_identical_reflexive(&self)
        ensures
            self.spec_identical(self),
        decreases self,
    {
        match self {
            GosValue::Named(x, _) => {
                x.lemma_identical_reflexive();
            },
            _ => {},
        }
    }

    /// Being the same value does not depend on the side.
    pub proof fn lemma_identical_symmetric(&self, other: &GosValue)
        ensures
            self.spec_identical(other) == other.spec_identical(self),
        decreases self,
    {
        match (self, other) {
            (GosValue::Named(x, _), GosValue::Named(y, _)) => {
                x.lemma_identical_symmetric(y);
            },
            _ => {},
        }
    }

    /// Two values that are the same value as a third are the same value.
    pub proof fn lemma_identical_transitive(&self, b: &GosValue, c: &GosValue)
        requires
            self.spec_identical(b),
            b.spec_identical(c),
        ensures
            self.spec_identical(c),
        decreases self,
    {
        match (self, b, c) {
            (GosValue::Named(x, _), GosValue::Named(y, _), GosValue::Named(z, _)) => {
                x.lemma_identical_transitive(y, z);
            },
            _ => {},
        }
    }

    #[verifier::when_used_as_spec(spec_get_type)]
    pub fn get_type(&self) -> (t: ValueType)
        ensures
            t == self.spec_get_type(),
    {
        match self {
            GosValue::Nil(_) => ValueType::Zero,
            GosValue::Bool(_) => ValueType::Bool,
            GosValue::Int(_) => ValueType::Int,
            GosValue::Int8(_) => ValueType::Int8,
            GosValue::Int16(_) => ValueType::Int16,
            GosValue::Int32(_) => ValueType::Int32,
            GosValue::Int64(_) => ValueType::Int64,
            GosValue::Uint(_) => ValueType::Uint,
            GosValue::Uint8(_) => ValueType::Uint8,
            GosValue::Uint16(_) => ValueType::Uint16,
            GosValue::Uint32(_) => ValueType::Uint32,
            GosValue::Uint64(_) => ValueType::Uint64,
            GosValue::Float32(_) => ValueType::Float32,
            GosValue::Float64(_) => ValueType::Float64,
            GosValue::Complex64(_, _) => ValueType::Complex64,
            GosValue::Complex128(_, _) => ValueType::Complex128,
            GosValue::Function(_) => ValueType::Function,
            GosValue::Package(_) => ValueType::Package,
            GosValue::Metadata(_) => ValueType::Metadata,
            GosValue::Str(_) => ValueType::Str,
            GosValue::Array(_) => ValueType::Array,
            GosValue::Pointer(_) => ValueType::Pointer,
            GosValue::Closure(_) => ValueType::Closure,
            GosValue::Slice(_) => ValueType::Slice,
            GosValue::GosMap(_) => ValueType::GosMap,
            GosValue::Interface(_) => ValueType::Interface,
            GosValue::Struct(_) => ValueType::Struct,
            GosValue::Channel(_) => ValueType::Channel,
            GosValue::Named(_, _) => ValueType::Named,
        }
    }

    #[verifier::when_used_as_spec(spec_identical)]
    pub fn identical(&self, other: &GosValue) -> (r: bool)
        ensures
            r == self.spec_identical(other),
        decreases self,
    {
        match (self, other) {
            (GosValue::Nil(x), GosValue::Nil(y)) => *x == *y,
            (GosValue::Bool(x), GosValue::Bool(y)) => *x == *y,
            (GosValue::Int(x), GosValue::Int(y)) => *x == *y,
            (GosValue::Int8(x), GosValue::Int8(y)) => *x == *y,
            (GosValue::Int16(x), GosValue::Int16(y)) => *x == *y,
            (GosValue::Int32(x), GosValue::Int32(y)) => *x == *y,
            (GosValue::Int64(x), GosValue::Int64(y)) => *x == *y,
            (GosValue::Uint(x), GosValue::Uint(y)) => *x == *y,
            (GosValue::Uint8(x), GosValue::Uint8(y)) => *x == *y,
            (GosValue::Uint16(x), GosValue::Uint16(y)) => *x == *y,
            (GosValue::Uint32(x), GosValue::Uint32(y)) => *x == *y,
            (GosValue::Uint64(x), GosValue::Uint64(y)) => *x == *y,
            (GosValue::Float32(x), GosValue::Float32(y)) => x.bits == y.bits,
            (GosValue::Float64(x), GosValue::Float64(y)) => x.bits == y.bits,
            (GosValue::Function(x), GosValue::Function(y)) => *x == *y,
            (GosValue::Package(x), GosValue::Package(y)) => *x == *y,
            (GosValue::Metadata(x), GosValue::Metadata(y)) => *x == *y,
            (GosValue::Array(x), GosValue::Array(y)) => *x == *y,
            (GosValue::Closure(x), GosValue::Closure(y)) => *x == *y,
            (GosValue::Slice(x), GosValue::Slice(y)) => *x == *y,
            (GosValue::GosMap(x), GosValue::GosMap(y)) => *x == *y,
            (GosValue::Interface(x), GosValue::Interface(y)) => *x == *y,
            (GosValue::Struct(x), GosValue::Struct(y)) => *x == *y,
            (GosValue::Channel(x), GosValue::Channel(y)) => *x == *y,
            (GosValue::Complex64(xr, xi), GosValue::Complex64(yr, yi)) => xr.bits == yr.bits
                && xi.bits == yi.bits,
            (GosValue::Complex128(xr, xi), GosValue::Complex128(yr, yi)) => xr.bits == yr.bits
                && xi.bits == yi.bits,
            (GosValue::Str(x), GosValue::Str(y)) => x.eq(y),
            (GosValue::Pointer(x), GosValue::Pointer(y)) => **x == **y,
            (GosValue::Named(x, mx), GosValue::Named(y, my)) => *mx == *my && x.identical(y),
            _ => false,
        }
    }

    /// The string value that holds `s`.
    pub fn new_str(s: String) -> (v: GosValue)
        ensures
            v == GosValue::Str(StringObj::spec_with_str(s)),
            v is Str,
            v->Str_0@ == vstd::utf8::encode_utf8(s@),
            v->Str_0.spec_buffer() == s@,
    {
        GosValue::Str(StringObj::with_str(s))
    }
}

impl Clone for GosValue {
    /// The same value; a composite's copy shares the object.
    fn clone(&self) -> (r: Self)
        ensures
            r == *self,
        decreases self,
    {
        match self {
            GosValue::Nil(x) => GosValue::Nil(*x),
            GosValue::Bool(x) => GosValue::Bool(*x),
            GosValue::Int(x) => GosValue::Int(*x),
            GosValue::Int8(x) => GosValue::Int8(*x),
            GosValue::Int16(x) => GosValue::Int16(*x),
            GosValue::Int32(x) => GosValue::Int32(*x),
            GosValue::Int64(x) => GosValue::Int64(*x),
            GosValue::Uint(x) => GosValue::Uint(*x),
            GosValue::Uint8(x) => GosValue::Uint8(*x),
            GosValue::Uint16(x) => GosValue::Uint16(*x),
            GosValue::Uint32(x) => GosValue::Uint32(*x),
            GosValue::Uint64(x) => GosValue::Uint64(*x),
            GosValue::Float32(x) => GosValue::Float32(*x),
            GosValue::Float64(x) => GosValue::Float64(*x),
            GosValue::Function(x) => GosValue::Function(*x),
            GosValue::Package(x) => GosValue::Package(*x),
            GosValue::Metadata(x) => GosValue::Metadata(*x),
            GosValue::Array(x) => GosValue::Array(*x),
            GosValue::Closure(x) => GosValue::Closure(*x),
            GosValue::Slice(x) => GosValue::Slice(*x),
            GosValue::GosMap(x) => GosValue::GosMap(*x),
            GosValue::Interface(x) => GosValue::Interface(*x),
            GosValue::Struct(x) => GosValue::Struct(*x),
            GosValue::Channel(x) => GosValue::Channel(*x),
            GosValue::Complex64(re, im) => GosValue::Complex64(*re, *im),
            GosValue::Complex128(re, im) => GosValue::Complex128(*re, *im),
            GosValue::Str(x) => GosValue::Str(x.clone()),
            GosValue::Pointer(x) => GosValue::Pointer(Box::new(**x)),
            GosValue::Named(x, m) => {
                let inner: &GosValue = &**x;
                GosValue::Named(Box::new(inner.clone()), *m)
            },
        }
    }
}

/// The elements in a cell; none where the cell holds something else.
pub open spec fn spec_cells_buffer(h: Seq<GcCell>, k: GcKey) -> Seq<GosValue> {
    if k < h.len() && h[k as int].obj is Buffer {
        h[k as int].obj->Buffer_0@
    } else {
        Seq::empty()
    }
}

/// The entries in a cell; none where the cell holds something else.
pub open spec fn spec_cells_entries(h: Seq<GcCell>, k: GcKey) -> Seq<(GosValue, GosValue)> {
    if k < h.len() && h[k as int].obj is Table {
        h[k as int].obj->Table_0.entries@
    } else {
        Seq::empty()
    }
}

/// Whether `hb` holds every cell of `h` unchanged.
pub open spec fn spec_cells_extend(hb: Seq<GcCell>, h: Seq<GcCell>) -> bool {
    &&& h.len() <= hb.len()
    &&& forall|k: int| 0 <= k < h.len() ==> hb[k] == #[trigger] h[k]
}

/// Whether a handle points to a cell of `hb` that `ha` did not have yet.
pub open spec fn spec_fresh(k: GcKey, ha: Seq<GcCell>, hb: Seq<GcCell>) -> bool {
    ha.len() <= k < hb.len()
}

/// The part of a window that lies inside `n` elements.
pub open spec fn spec_clip(begin: usize, end: usize, n: nat) -> (usize, usize) {
    let b = if begin <= n {
        begin
    } else {
        n as usize
    };
    let e = if end <= n {
        end
    } else {
        n as usize
    };
    (
        b,
        if e < b {
            b
        } else {
            e
        },
    )
}

/// The handle of the object of a struct, an array, a slice or a map, with
/// or without names around it; other values have none.
pub open spec fn spec_top_handle(v: GosValue) -> Option<GcKey>
    decreases v,
{
    match v {
        GosValue::Array(k) => Some(k),
        GosValue::Slice(k) => Some(k),
        GosValue::GosMap(k) => Some(k),
        GosValue::Struct(k) => Some(k),
        GosValue::Named(x, _) => spec_top_handle(*x),
        _ => None,
    }
}

/// Whether a value is a struct, an array, a slice or a map, with or without
/// names around it, whose object the store holds: a copy of such a value
/// has an object of its own.
pub open spec fn spec_has_object(v: GosValue, h: Seq<GcCell>) -> bool
    decreases v,
{
    match v {
        GosValue::Array(k) => k < h.len() && h[k as int].obj is Array,
        GosValue::Slice(k) => k < h.len() && h[k as int].obj is Slice,
        GosValue::GosMap(k) => k < h.len() && h[k as int].obj is GosMap,
        GosValue::Struct(k) => k < h.len() && h[k as int].obj is Struct,
        GosValue::Named(x, _) => spec_has_object(*x, h),
        _ => false,
    }
}

/// A value that has an object in the store has it under a handle of the
/// store.
pub proof fn lemma_has_object_below(v: GosValue, h: Seq<GcCell>)
    ensures
        spec_has_object(v, h) ==> h.len() > 0 && spec_top_handle(v) is Some && spec_top_handle(
            v,
        ).unwrap() < h.len(),
    decreases v,
{
    match v {
        GosValue::Named(x, _) => {
            lemma_has_object_below(*x, h);
        },
        _ => {},
    }
}

/// Whether the values of a list are composites with an object each, no two
/// of them the same object.
pub open spec fn spec_distinct_objects(items: Seq<GosValue>) -> bool {
    forall|i: int, j: int|
        0 <= i < j < items.len() ==> spec_top_handle(#[trigger] items[i]) is Some
            && spec_top_handle(#[trigger] items[j]) is Some && spec_top_handle(items[i])
            != spec_top_handle(items[j])
}

/// Whether `b` is a deep copy of `a`: a value that is no composite is the
/// same value; a composite is a new object of `hb`, in a cell that `ha` did
/// not have and with a count of zero, whose parts are deep copies of the
/// parts that `a`'s object has in `ha`. The copy goes `depth` objects deep;
/// a name around a value costs no depth. Below that depth, and where a
/// handle points to nothing, the copy shares what the copied value has.
pub open spec fn spec_deep_copy(
    a: GosValue,
    b: GosValue,
    ha: Seq<GcCell>,
    hb: Seq<GcCell>,
    depth: nat,
) -> bool
    decreases depth, 0nat, a,
{
    if depth == 0 {
        b == a
    } else {
        let d = (depth - 1) as nat;
        match a {
            GosValue::Array(k) => if k < ha.len() && ha[k as int].obj is Array {
                &&& b is Array
                &&& spec_fresh(b->Array_0, ha, hb)
                &&& hb[b->Array_0 as int].rc == 0
                &&& hb[b->Array_0 as int].obj is Array
                &&& spec_array_copy(
                    ha[k as int].obj->Array_0,
                    hb[b->Array_0 as int].obj->Array_0,
                    ha,
                    hb,
                    d,
                )
            } else {
                b == a
            },
            GosValue::Slice(k) => if k < ha.len() && ha[k as int].obj is Slice {
                &&& b is Slice
                &&& spec_fresh(b->Slice_0, ha, hb)
                &&& hb[b->Slice_0 as int].rc == 0
                &&& hb[b->Slice_0 as int].obj is Slice
                &&& spec_slice_copy(
                    ha[k as int].obj->Slice_0,
                    hb[b->Slice_0 as int].obj->Slice_0,
                    ha,
                    hb,
                    d,
                )
            } else {
                b == a
            },
            GosValue::GosMap(k) => if k < ha.len() && ha[k as int].obj is GosMap {
                &&& b is GosMap
                &&& spec_fresh(b->GosMap_0, ha, hb)
                &&& hb[b->GosMap_0 as int].rc == 0
                &&& hb[b->GosMap_0 as int].obj is GosMap
                &&& spec_map_copy(
                    ha[k as int].obj->GosMap_0,
                    hb[b->GosMap_0 as int].obj->GosMap_0,
                    ha,
                    hb,
                    d,
                )
            } else {
                b == a
            },
            GosValue::Struct(k) => if k < ha.len() && ha[k as int].obj is Struct {
                &&& b is Struct
                &&& spec_fresh(b->Struct_0, ha, hb)
                &&& hb[b->Struct_0 as int].rc == 0
                &&& hb[b->Struct_0 as int].obj is Struct
                &&& spec_struct_copy(
                    ha[k as int].obj->Struct_0,
                    hb[b->Struct_0 as int].obj->Struct_0,
                    ha,
                    hb,
                    d,
                )
            } else {
                b == a
            },
            GosValue::Named(x, m) => {
                &&& b is Named
                &&& b->Named_1 == m
                &&& spec_deep_copy(*x, *b->Named_0, ha, hb, depth)
            },
            _ => b == a,
        }
    }
}

/// Whether `ys` holds, place by place, deep copies of the values of `xs`.
pub open spec fn spec_seq_deep_copy(
    xs: Seq<GosValue>,
    ys: Seq<GosValue>,
    ha: Seq<GcCell>,
    hb: Seq<GcCell>,
    depth: nat,
) -> bool
    decreases depth, 1nat,
{
    &&& xs.len() == ys.len()
    &&& forall|i: int| 0 <= i < xs.len() ==> spec_deep_copy(#[trigger] xs[i], ys[i], ha, hb, depth)
}

/// Whether `ys` holds, place by place, deep copies of the keys and values of
/// `xs`.
pub open spec fn spec_entries_deep_copy(
    xs: Seq<(GosValue, GosValue)>,
    ys: Seq<(GosValue, GosValue)>,
    ha: Seq<GcCell>,
    hb: Seq<GcCell>,
    depth: nat,
) -> bool
    decreases depth, 1nat,
{
    &&& xs.len() == ys.len()
    &&& forall|i: int|
        0 <= i < xs.len() ==> spec_deep_copy((#[trigger] xs[i]).0, ys[i].0, ha, hb, depth)
            && spec_deep_copy(xs[i].1, ys[i].1, ha, hb, depth)
}

/// Whether the cell `ky` is a new cell of `hb` that holds deep copies of the
/// values of `src`.
pub open spec fn spec_buffer_copy(
    src: Seq<GosValue>,
    ky: GcKey,
    ha: Seq<GcCell>,
    hb: Seq<GcCell>,
    depth: nat,
) -> bool
    decreases depth, 2nat,
{
    &&& spec_fresh(ky, ha, hb)
    &&& hb[ky as int].obj is Buffer
    &&& spec_seq_deep_copy(src, hb[ky as int].obj->Buffer_0@, ha, hb, depth)
}

/// Whether `y` is a deep copy of the array `x`: the same type, over a new
/// cell with deep copies of the elements.
pub open spec fn spec_array_copy(
    x: ArrayObj,
    y: ArrayObj,
    ha: Seq<GcCell>,
    hb: Seq<GcCell>,
    depth: nat,
) -> bool
    decreases depth, 3nat,
{
    &&& y.meta == x.meta
    &&& spec_buffer_copy(spec_cells_buffer(ha, x.vec), y.vec, ha, hb, depth)
}

/// Whether `y` is a deep copy of the struct `x`: the same type, with deep
/// copies of the fields.
pub open spec fn spec_struct_copy(
    x: StructObj,
    y: StructObj,
    ha: Seq<GcCell>,
    hb: Seq<GcCell>,
    depth: nat,
) -> bool
    decreases depth, 3nat,
{
    &&& y.meta == x.meta
    &&& spec_seq_deep_copy(x.fields@, y.fields@, ha, hb, depth)
}

/// Whether `y` is a deep copy of the slice `x`: the same type, length and
/// capacity, over a new cell that holds deep copies of the items of `x`'s
/// window and nothing else, with the window at its begin. The copy of a nil
/// slice is nil.
pub open spec fn spec_slice_copy(
    x: SliceObj,
    y: SliceObj,
    ha: Seq<GcCell>,
    hb: Seq<GcCell>,
    depth: nat,
) -> bool
    decreases depth, 3nat,
{
    match x.spec_vec() {
        Some(kx) => {
            let buf = spec_cells_buffer(ha, kx);
            let (b, e) = spec_clip(x.spec_begin(), x.spec_end(), buf.len());
            &&& y.spec_vec() is Some
            &&& y == SliceObj::spec_of(
                x.spec_meta(),
                0,
                (e - b) as usize,
                (x.spec_soft_cap() - x.spec_begin()) as usize,
                y.spec_vec(),
            )
            &&& spec_buffer_copy(buf.subrange(b as int, e as int), y.spec_vec().unwrap(), ha, hb, depth)
        },
        None => y == SliceObj::spec_of(
            x.spec_meta(),
            0,
            0,
            (x.spec_soft_cap() - x.spec_begin()) as usize,
            None,
        ),
    }
}

/// Whether `y` is a deep copy of the map `x`: the same type and default,
/// over a new cell that holds deep copies of the keys and values, in the
/// same order. The copy of a nil map is nil.
pub open spec fn spec_map_copy(
    x: MapObj,
    y: MapObj,
    ha: Seq<GcCell>,
    hb: Seq<GcCell>,
    depth: nat,
) -> bool
    decreases depth, 3nat,
{
    &&& y.spec_meta() == x.spec_meta()
    &&& y.spec_default() == x.spec_default()
    &&& match x.spec_map() {
        Some(kx) => {
            &&& y.spec_map() is Some
            &&& spec_fresh(y.spec_map().unwrap(), ha, hb)
            &&& hb[y.spec_map().unwrap() as int].obj is Table
            &&& spec_entries_deep_copy(
                spec_cells_entries(ha, kx),
                hb[y.spec_map().unwrap() as int].obj->Table_0.entries@,
                ha,
                hb,
                depth,
            )
        },
        None => y.spec_map() is None,
    }
}

/// A deep copy stays one when more cells are added to the store.
pub proof fn lemma_deep_copy_extends(
    a: GosValue,
    b: GosValue,
    ha: Seq<GcCell>,
    hb: Seq<GcCell>,
    hc: Seq<GcCell>,
    depth: nat,
)
    requires
        spec_deep_copy(a, b, ha, hb, depth),
        spec_cells_extend(hc, hb),
    ensures
        spec_deep_copy(a, b, ha, hc, depth),
    decreases depth, 0nat, a,
{
    if depth > 0 {
        let d = (depth - 1) as nat;
        match a {
            GosValue::Array(k) => {
                if k < ha.len() && ha[k as int].obj is Array {
                    let kb = b->Array_0;
                    assert(hc[kb as int] == hb[kb as int]);
                    let x = ha[k as int].obj->Array_0;
                    let y = hb[kb as int].obj->Array_0;
                    assert(spec_array_copy(x, y, ha, hb, d));
                    lemma_buffer_copy_extends(spec_cells_buffer(ha, x.vec), y.vec, ha, hb, hc, d);
                    assert(spec_array_copy(x, y, ha, hc, d));
                }
            },
            GosValue::Slice(k) => {
                if k < ha.len() && ha[k as int].obj is Slice {
                    let kb = b->Slice_0;
                    assert(hc[kb as int] == hb[kb as int]);
                    let x = ha[k as int].obj->Slice_0;
                    let y = hb[kb as int].obj->Slice_0;
                    assert(spec_slice_copy(x, y, ha, hb, d));
                    match x.spec_vec() {
                        Some(kx) => {
                            let buf = spec_cells_buffer(ha, kx);
                            let (bb, ee) = spec_clip(x.spec_begin(), x.spec_end(), buf.len());
                            lemma_buffer_copy_extends(
                                buf.subrange(bb as int, ee as int),
                                y.spec_vec().unwrap(),
                                ha,
                                hb,
                                hc,
                                d,
                            );
                        },
                        None => {},
                    }
                    assert(spec_slice_copy(x, y, ha, hc, d));
                }
            },
            GosValue::GosMap(k) => {
                if k < ha.len() && ha[k as int].obj is GosMap {
                    let kb = b->GosMap_0;
                    assert(hc[kb as int] == hb[kb as int]);
                    let x = ha[k as int].obj->GosMap_0;
                    let y = hb[kb as int].obj->GosMap_0;
                    assert(spec_map_copy(x, y, ha, hb, d));
                    match x.spec_map() {
                        Some(kx) => {
                            let ky = y.spec_map().unwrap();
                            assert(hc[ky as int] == hb[ky as int]);
                            lemma_entries_deep_copy_extends(
                                spec_cells_entries(ha, kx),
                                hb[ky as int].obj->Table_0.entries@,
                                ha,
                                hb,
                                hc,
                                d,
                            );
                        },
                        None => {},
                    }
                    assert(spec_map_copy(x, y, ha, hc, d));
                }
            },
            GosValue::Struct(k) => {
                if k < ha.len() && ha[k as int].obj is Struct {
                    let kb = b->Struct_0;
                    assert(hc[kb as int] == hb[kb as int]);
                    let x = ha[k as int].obj->Struct_0;
                    let y = hb[kb as int].obj->Struct_0;
                    assert(spec_struct_copy(x, y, ha, hb, d));
                    lemma_seq_deep_copy_extends(x.fields@, y.fields@, ha, hb, hc, d);
                    assert(spec_struct_copy(x, y, ha, hc, d));
                }
            },
            GosValue::Named(x, _) => {
                lemma_deep_copy_extends(*x, *b->Named_0, ha, hb, hc, depth);
            },
            _ => {},
        }
    }
}

/// A list of deep copies stays one when more cells are added to the store.
pub proof fn lemma_seq_deep_copy_extends(
    xs: Seq<GosValue>,
    ys: Seq<GosValue>,
    ha: Seq<GcCell>,
    hb: Seq<GcCell>,
    hc: Seq<GcCell>,
    depth: nat,
)
    requires
        spec_seq_deep_copy(xs, ys, ha, hb, depth),
        spec_cells_extend(hc, hb),
    ensures
        spec_seq_deep_copy(xs, ys, ha, hc, depth),
    decreases depth, 1nat,
{
    assert forall|i: int| 0 <= i < xs.len() implies spec_deep_copy(
        #[trigger] xs[i],
        ys[i],
        ha,
        hc,
        depth,
    ) by {
        lemma_deep_copy_extends(xs[i], ys[i], ha, hb, hc, depth);
    }
}

/// A list of deep copies of entries stays one when more cells are added to
/// the store.
pub proof fn lemma_entries_deep_copy_extends(
    xs: Seq<(GosValue, GosValue)>,
    ys: Seq<(GosValue, GosValue)>,
    ha: Seq<GcCell>,
    hb: Seq<GcCell>,
    hc: Seq<GcCell>,
    depth: nat,
)
    requires
        spec_entries_deep_copy(xs, ys, ha, hb, depth),
        spec_cells_extend(hc, hb),
    ensures
        spec_entries_deep_copy(xs, ys, ha, hc, depth),
    decreases depth, 1nat,
{
    assert forall|i: int| 0 <= i < xs.len() implies spec_deep_copy(
        (#[trigger] xs[i]).0,
        ys[i].0,
        ha,
        hc,
        depth,
    ) && spec_deep_copy(xs[i].1, ys[i].1, ha, hc, depth) by {
        lemma_deep_copy_extends(xs[i].0, ys[i].0, ha, hb, hc, depth);
        lemma_deep_copy_extends(xs[i].1, ys[i].1, ha, hb, hc, depth);
    }
}

/// A buffer of deep copies stays one when more cells are added to the
/// store.
pub proof fn lemma_buffer_copy_extends(
    src: Seq<GosValue>,
    ky: GcKey,
    ha: Seq<GcCell>,
    hb: Seq<GcCell>,
    hc: Seq<GcCell>,
    depth: nat,
)
    requires
        spec_buffer_copy(src, ky, ha, hb, depth),
        spec_cells_extend(hc, hb),
    ensures
        spec_buffer_copy(src, ky, ha, hc, depth),
    decreases depth, 2nat,
{
    assert(hc[ky as int] == hb[ky as int]);
    lemma_seq_deep_copy_extends(src, hb[ky as int].obj->Buffer_0@, ha, hb, hc, depth);
}

/// Whether the objects of a value nest at most `depth` deep in the store:
/// a deep copy that goes `depth` objects deep reaches every one of them.
pub open spec fn spec_depth_fits(a: GosValue, h: Seq<GcCell>, depth: nat) -> bool
    decreases depth, 0nat, a,
{
    match a {
        GosValue::Array(k) => if k < h.len() && h[k as int].obj is Array {
            depth > 0 && spec_seq_fits(
                spec_cells_buffer(h, h[k as int].obj->Array_0.vec),
                h,
                (depth - 1) as nat,
            )
        } else {
            true
        },
        GosValue::Slice(k) => if k < h.len() && h[k as int].obj is Slice {
            depth > 0 && match h[k as int].obj->Slice_0.spec_vec() {
                Some(kx) => {
                    let x = h[k as int].obj->Slice_0;
                    let buf = spec_cells_buffer(h, kx);
                    let clip = spec_clip(x.spec_begin(), x.spec_end(), buf.len());
                    spec_seq_fits(buf.subrange(clip.0 as int, clip.1 as int), h, (depth - 1) as nat)
                },
                None => true,
            }
        } else {
            true
        },
        GosValue::GosMap(k) => if k < h.len() && h[k as int].obj is GosMap {
            depth > 0 && match h[k as int].obj->GosMap_0.spec_map() {
                Some(kx) => spec_entries_fit(spec_cells_entries(h, kx), h, (depth - 1) as nat),
                None => true,
            }
        } else {
            true
        },
        GosValue::Struct(k) => if k < h.len() && h[k as int].obj is Struct {
            depth > 0 && spec_seq_fits(h[k as int].obj->Struct_0.fields@, h, (depth - 1) as nat)
        } else {
            true
        },
        GosValue::Named(x, _) => spec_depth_fits(*x, h, depth),
        _ => true,
    }
}

/// Whether the objects of each value of a list nest at most `depth` deep.
pub open spec fn spec_seq_fits(xs: Seq<GosValue>, h: Seq<GcCell>, depth: nat) -> bool
    decreases depth, 1nat,
{
    forall|i: int| 0 <= i < xs.len() ==> spec_depth_fits(#[trigger] xs[i], h, depth)
}

/// Whether the objects of each key and value of a list of entries nest at
/// most `depth` deep.
pub open spec fn spec_entries_fit(xs: Seq<(GosValue, GosValue)>, h: Seq<GcCell>, depth: nat) -> bool
    decreases depth, 1nat,
{
    forall|i: int|
        0 <= i < xs.len() ==> spec_depth_fits((#[trigger] xs[i]).0, h, depth) && spec_depth_fits(
            xs[i].1,
            h,
            depth,
        )
}

/// Whether each value of a list that has an object has one of a rank below
/// `bound`.
pub open spec fn spec_seq_ranked(
    xs: Seq<GosValue>,
    h: Seq<GcCell>,
    rank: spec_fn(GcKey) -> nat,
    bound: nat,
) -> bool {
    forall|i: int|
        0 <= i < xs.len() && spec_has_object(#[trigger] xs[i], h) ==> rank(
            spec_top_handle(xs[i]).unwrap(),
        ) < bound
}

/// Whether each key and value of a list of entries that has an object has
/// one of a rank below `bound`.
pub open spec fn spec_entries_ranked(
    xs: Seq<(GosValue, GosValue)>,
    h: Seq<GcCell>,
    rank: spec_fn(GcKey) -> nat,
    bound: nat,
) -> bool {
    forall|i: int|
        0 <= i < xs.len() ==> (spec_has_object((#[trigger] xs[i]).0, h) ==> rank(
            spec_top_handle(xs[i].0).unwrap(),
        ) < bound) && (spec_has_object(xs[i].1, h) ==> rank(spec_top_handle(xs[i].1).unwrap())
            < bound)
}

/// Whether the objects that the object in cell `k` holds have ranks below
/// the rank of `k`.
pub open spec fn spec_cell_ranked(h: Seq<GcCell>, k: GcKey, rank: spec_fn(GcKey) -> nat) -> bool {
    match h[k as int].obj {
        GcObj::Array(x) => spec_seq_ranked(spec_cells_buffer(h, x.vec), h, rank, rank(k)),
        GcObj::Slice(x) => match x.spec_vec() {
            Some(kx) => {
                let buf = spec_cells_buffer(h, kx);
                let clip = spec_clip(x.spec_begin(), x.spec_end(), buf.len());
                spec_seq_ranked(buf.subrange(clip.0 as int, clip.1 as int), h, rank, rank(k))
            },
            None => true,
        },
        GcObj::GosMap(x) => match x.spec_map() {
            Some(kx) => spec_entries_ranked(spec_cells_entries(h, kx), h, rank, rank(k)),
            None => true,
        },
        GcObj::Struct(x) => spec_seq_ranked(x.fields@, h, rank, rank(k)),
        _ => true,
    }
}

/// Whether the objects of the store can be ranked so that every object
/// holds objects of lower rank only: no object holds itself, directly or
/// through others. A store whose objects hold only objects that were made
/// before them is ranked by the handles.
pub open spec fn spec_ranked(h: Seq<GcCell>, rank: spec_fn(GcKey) -> nat) -> bool {
    forall|k: GcKey| k < h.len() ==> #[trigger] spec_cell_ranked(h, k, rank)
}

/// In a ranked store the objects of a value nest no deeper than the rank
/// of its object says: a deep copy that goes deeper than that rank reaches
/// all of them. Where the ranks stay below the number of cells, as the
/// handles do, a deep copy that goes as deep as the store is large is
/// complete.
pub proof fn lemma_ranked_fits(
    a: GosValue,
    h: Seq<GcCell>,
    rank: spec_fn(GcKey) -> nat,
    depth: nat,
)
    requires
        spec_ranked(h, rank),
        spec_has_object(a, h) ==> rank(spec_top_handle(a).unwrap()) < depth,
    ensures
        spec_depth_fits(a, h, depth),
    decreases depth, 0nat, a,
{
    match a {
        GosValue::Array(k) => {
            if k < h.len() && h[k as int].obj is Array {
                assert(spec_cell_ranked(h, k, rank));
                assert(spec_has_object(a, h));
                assert(spec_top_handle(a) == Some(k));
                assert(rank(k) < depth);
                lemma_seq_ranked_fits(
                    spec_cells_buffer(h, h[k as int].obj->Array_0.vec),
                    h,
                    rank,
                    rank(k),
                    (depth - 1) as nat,
                );
            }
        },
        GosValue::Slice(k) => {
            if k < h.len() && h[k as int].obj is Slice {
                assert(spec_cell_ranked(h, k, rank));
                assert(spec_has_object(a, h));
                assert(spec_top_handle(a) == Some(k));
                assert(rank(k) < depth);
                let x = h[k as int].obj->Slice_0;
                match x.spec_vec() {
                    Some(kx) => {
                        let buf = spec_cells_buffer(h, kx);
                        let clip = spec_clip(x.spec_begin(), x.spec_end(), buf.len());
                        lemma_seq_ranked_fits(
                            buf.subrange(clip.0 as int, clip.1 as int),
                            h,
                            rank,
                            rank(k),
                            (depth - 1) as nat,
                        );
                    },
                    None => {},
                }
            }
        },
        GosValue::GosMap(k) => {
            if k < h.len() && h[k as int].obj is GosMap {
                assert(spec_cell_ranked(h, k, rank));
                assert(spec_has_object(a, h));
                assert(spec_top_handle(a) == Some(k));
                assert(rank(k) < depth);
                let x = h[k as int].obj->GosMap_0;
                match x.spec_map() {
                    Some(kx) => {
                        lemma_entries_ranked_fit(
                            spec_cells_entries(h, kx),
                            h,
                            rank,
                            rank(k),
                            (depth - 1) as nat,
                        );
                    },
                    None => {},
                }
            }
        },
        GosValue::Struct(k) => {
            if k < h.len() && h[k as int].obj is Struct {
                assert(spec_cell_ranked(h, k, rank));
                assert(spec_has_object(a, h));
                assert(spec_top_handle(a) == Some(k));
                assert(rank(k) < depth);
                lemma_seq_ranked_fits(
                    h[k as int].obj->Struct_0.fields@,
                    h,
                    rank,
                    rank(k),
                    (depth - 1) as nat,
                );
            }
        },
        GosValue::Named(x, _) => {
            lemma_ranked_fits(*x, h, rank, depth);
        },
        _ => {},
    }
}

/// In a ranked store the keys and values of entries whose objects have
/// ranks below a bound nest no deeper than the bound.
pub proof fn lemma_entries_ranked_fit(
    xs: Seq<(GosValue, GosValue)>,
    h: Seq<GcCell>,
    rank: spec_fn(GcKey) -> nat,
    bound: nat,
    depth: nat,
)
    requires
        spec_ranked(h, rank),
        spec_entries_ranked(xs, h, rank, bound),
        bound <= depth,
    ensures
        spec_entries_fit(xs, h, depth),
    decreases depth, 1nat,
{
    assert forall|i: int| 0 <= i < xs.len() implies spec_depth_fits(
        (#[trigger] xs[i]).0,
        h,
        depth,
    ) && spec_depth_fits(xs[i].1, h, depth) by {
        lemma_ranked_fits(xs[i].0, h, rank, depth);
        lemma_ranked_fits(xs[i].1, h, rank, depth);
    }
}

/// In a ranked store the values of a list whose objects have ranks below a
/// bound nest no deeper than the bound.
pub proof fn lemma_seq_ranked_fits(
    xs: Seq<GosValue>,
    h: Seq<GcCell>,
    rank: spec_fn(GcKey) -> nat,
    bound: nat,
    depth: nat,
)
    requires
        spec_ranked(h, rank),
        spec_seq_ranked(xs, h, rank, bound),
        bound <= depth,
    ensures
        spec_seq_fits(xs, h, depth),
    decreases depth, 1nat,
{
    assert forall|i: int| 0 <= i < xs.len() implies spec_depth_fits(#[trigger] xs[i], h, depth) by {
        lemma_ranked_fits(xs[i], h, rank, depth);
    }
}

/// The deep copy of a value whose objects nest no deeper than the copy went
/// is a deep copy at every greater depth: every object that the copy
/// reaches is its own, in a cell that the store did not have, and nothing
/// is shared because the depth ran out.
pub proof fn lemma_deep_copy_complete(
    a: GosValue,
    b: GosValue,
    ha: Seq<GcCell>,
    hb: Seq<GcCell>,
    depth: nat,
    deeper: nat,
)
    requires
        spec_deep_copy(a, b, ha, hb, depth),
        spec_depth_fits(a, ha, depth),
        depth <= deeper,
    ensures
        spec_deep_copy(a, b, ha, hb, deeper),
    decreases depth, 0nat, a,
{
    if depth == 0 {
        match a {
            GosValue::Named(x, _) => {
                lemma_deep_copy_complete(*x, *x, ha, hb, depth, deeper);
            },
            _ => {},
        }
    } else {
        let d = (depth - 1) as nat;
        let e = (deeper - 1) as nat;
        match a {
            GosValue::Array(k) => {
                if k < ha.len() && ha[k as int].obj is Array {
                    let x = ha[k as int].obj->Array_0;
                    let y = hb[b->Array_0 as int].obj->Array_0;
                    assert(spec_array_copy(x, y, ha, hb, d));
                    lemma_seq_deep_copy_complete(
                        spec_cells_buffer(ha, x.vec),
                        hb[y.vec as int].obj->Buffer_0@,
                        ha,
                        hb,
                        d,
                        e,
                    );
                    assert(spec_array_copy(x, y, ha, hb, e));
                }
            },
            GosValue::Slice(k) => {
                if k < ha.len() && ha[k as int].obj is Slice {
                    let x = ha[k as int].obj->Slice_0;
                    let y = hb[b->Slice_0 as int].obj->Slice_0;
                    assert(spec_slice_copy(x, y, ha, hb, d));
                    match x.spec_vec() {
                        Some(kx) => {
                            let buf = spec_cells_buffer(ha, kx);
                            let clip = spec_clip(x.spec_begin(), x.spec_end(), buf.len());
                            let ky = y.spec_vec().unwrap();
                            lemma_seq_deep_copy_complete(
                                buf.subrange(clip.0 as int, clip.1 as int),
                                hb[ky as int].obj->Buffer_0@,
                                ha,
                                hb,
                                d,
                                e,
                            );
                        },
                        None => {},
                    }
                    assert(spec_slice_copy(x, y, ha, hb, e));
                }
            },
            GosValue::GosMap(k) => {
                if k < ha.len() && ha[k as int].obj is GosMap {
                    let x = ha[k as int].obj->GosMap_0;
                    let y = hb[b->GosMap_0 as int].obj->GosMap_0;
                    assert(spec_map_copy(x, y, ha, hb, d));
                    match x.spec_map() {
                        Some(kx) => {
                            let ky = y.spec_map().unwrap();
                            lemma_entries_deep_copy_complete(
                                spec_cells_entries(ha, kx),
                                hb[ky as int].obj->Table_0.entries@,
                                ha,
                                hb,
                                d,
                                e,
                            );
                        },
                        None => {},
                    }
                    assert(spec_map_copy(x, y, ha, hb, e));
                }
            },
            GosValue::Struct(k) => {
                if k < ha.len() && ha[k as int].obj is Struct {
                    let x = ha[k as int].obj->Struct_0;
                    let y = hb[b->Struct_0 as int].obj->Struct_0;
                    assert(spec_struct_copy(x, y, ha, hb, d));
                    lemma_seq_deep_copy_complete(x.fields@, y.fields@, ha, hb, d, e);
                    assert(spec_struct_copy(x, y, ha, hb, e));
                }
            },
            GosValue::Named(x, _) => {
                lemma_deep_copy_complete(*x, *b->Named_0, ha, hb, depth, deeper);
            },
            _ => {},
        }
    }
}

/// A list of deep copies of values that fit the depth is a list of deep
/// copies at every greater depth.
pub proof fn lemma_seq_deep_copy_complete(
    xs: Seq<GosValue>,
    ys: Seq<GosValue>,
    ha: Seq<GcCell>,
    hb: Seq<GcCell>,
    depth: nat,
    deeper: nat,
)
    requires
        spec_seq_deep_copy(xs, ys, ha, hb, depth),
        spec_seq_fits(xs, ha, depth),
        depth <= deeper,
    ensures
        spec_seq_deep_copy(xs, ys, ha, hb, deeper),
    decreases depth, 1nat,
{
    assert forall|i: int| 0 <= i < xs.len() implies spec_deep_copy(
        #[trigger] xs[i],
        ys[i],
        ha,
        hb,
        deeper,
    ) by {
        lemma_deep_copy_complete(xs[i], ys[i], ha, hb, depth, deeper);
    }
}

/// A list of deep copies of entries that fit the depth is one at every
/// greater depth.
pub proof fn lemma_entries_deep_copy_complete(
    xs: Seq<(GosValue, GosValue)>,
    ys: Seq<(GosValue, GosValue)>,
    ha: Seq<GcCell>,
    hb: Seq<GcCell>,
    depth: nat,
    deeper: nat,
)
    requires
        spec_entries_deep_copy(xs, ys, ha, hb, depth),
        spec_entries_fit(xs, ha, depth),
        depth <= deeper,
    ensures
        spec_entries_deep_copy(xs, ys, ha, hb, deeper),
    decreases depth, 1nat,
{
    assert forall|i: int| 0 <= i < xs.len() implies spec_deep_copy(
        (#[trigger] xs[i]).0,
        ys[i].0,
        ha,
        hb,
        deeper,
    ) && spec_deep_copy(xs[i].1, ys[i].1, ha, hb, deeper) by {
        lemma_deep_copy_complete(xs[i].0, ys[i].0, ha, hb, depth, deeper);
        lemma_deep_copy_complete(xs[i].1, ys[i].1, ha, hb, depth, deeper);
    }
}

/// The deep copy of a value that is no struct, array, slice or map, with or
/// without a name, is the value itself.
pub proof fn lemma_deep_copy_plain(
    a: GosValue,
    b: GosValue,
    ha: Seq<GcCell>,
    hb: Seq<GcCell>,
    depth: nat,
)
    requires
        spec_deep_copy(a, b, ha, hb, depth),
        !(a is Array || a is Slice || a is GosMap || a is Struct || a is Named),
    ensures
        b == a,
{
}

/// Copies of a list of values, each one deep: see `deep_clone_bounded`.
pub fn deep_clone_values(src: &Vec<GosValue>, gcos: &mut GcoVec, depth: usize, base: usize) -> (r:
    Vec<GosValue>)
    requires
        base <= old(gcos)@.len(),
    ensures
        final(gcos).spec_extends(old(gcos)),
        spec_seq_deep_copy(src@, r@, old(gcos)@.take(base as int), final(gcos)@, depth as nat),
    decreases depth, 1nat,
{
    let ghost ha = gcos@.take(base as int);
    let ghost start = *gcos;
    let mut out: Vec<GosValue> = Vec::new();
    let mut i: usize = 0;
    while i < src.len()
        invariant
            i <= src@.len(),
            out@.len() == i,
            base <= start@.len(),
            ha == start@.take(base as int),
            gcos.spec_extends(&start),
            forall|j: int|
                0 <= j < i ==> spec_deep_copy(#[trigger] src@[j], out@[j], ha, gcos@, depth as nat),
        decreases src@.len() - i,
    {
        let ghost mid = *gcos;
        let ghost done = out@;
        proof {
            assert(mid@.take(base as int) =~= ha);
        }
        let c = src[i].deep_clone_bounded(gcos, depth, base);
        out.push(c);
        proof {
            gcos.lemma_extends_transitive(&mid, &start);
            assert forall|j: int| 0 <= j < i + 1 implies spec_deep_copy(
                #[trigger] src@[j],
                out@[j],
                ha,
                gcos@,
                depth as nat,
            ) by {
                if j < i {
                    assert(out@[j] == done[j]);
                    lemma_deep_copy_extends(src@[j], done[j], ha, mid@, gcos@, depth as nat);
                }
            }
        }
        i += 1;
    }
    out
}

/// Copies of a list of entries, each key and value deep.
pub fn deep_clone_entries(
    src: &Vec<(GosValue, GosValue)>,
    gcos: &mut GcoVec,
    depth: usize,
    base: usize,
) -> (r: Vec<(GosValue, GosValue)>)
    requires
        base <= old(gcos)@.len(),
    ensures
        final(gcos).spec_extends(old(gcos)),
        spec_entries_deep_copy(
            src@,
            r@,
            old(gcos)@.take(base as int),
            final(gcos)@,
            depth as nat,
        ),
    decreases depth, 1nat,
{
    let ghost ha = gcos@.take(base as int);
    let ghost start = *gcos;
    let mut out: Vec<(GosValue, GosValue)> = Vec::new();
    let mut i: usize = 0;
    while i < src.len()
        invariant
            i <= src@.len(),
            out@.len() == i,
            base <= start@.len(),
            ha == start@.take(base as int),
            gcos.spec_extends(&start),
            forall|j: int|
                0 <= j < i ==> spec_deep_copy(
                    (#[trigger] src@[j]).0,
                    out@[j].0,
                    ha,
                    gcos@,
                    depth as nat,
                ) && spec_deep_copy(src@[j].1, out@[j].1, ha, gcos@, depth as nat),
        decreases src@.len() - i,
    {
        let ghost mid = *gcos;
        let ghost done = out@;
        proof {
            assert(mid@.take(base as int) =~= ha);
        }
        let k = src[i].0.deep_clone_bounded(gcos, depth, base);
        let ghost mid2 = *gcos;
        proof {
            gcos.lemma_extends_transitive(&mid, &start);
            assert(mid2@.take(base as int) =~= ha);
        }
        let v = src[i].1.deep_clone_bounded(gcos, depth, base);
        out.push((k, v));
        proof {
            gcos.lemma_extends_transitive(&mid2, &start);
            gcos.lemma_extends_transitive(&mid2, &mid);
            lemma_deep_copy_extends(src@[i as int].0, k, ha, mid2@, gcos@, depth as nat);
            assert forall|j: int| 0 <= j < i + 1 implies spec_deep_copy(
                (#[trigger] src@[j]).0,
                out@[j].0,
                ha,
                gcos@,
                depth as nat,
            ) && spec_deep_copy(src@[j].1, out@[j].1, ha, gcos@, depth as nat) by {
                if j < i {
                    assert(out@[j] == done[j]);
                    lemma_deep_copy_extends(src@[j].0, done[j].0, ha, mid@, gcos@, depth as nat);
                    lemma_deep_copy_extends(src@[j].1, done[j].1, ha, mid@, gcos@, depth as nat);
                }
            }
        }
        i += 1;
    }
    out
}

/// A new cell with deep copies of a list of values.
pub fn deep_clone_buffer(src: &Vec<GosValue>, gcos: &mut GcoVec, depth: usize, base: usize) -> (k:
    GcKey)
    requires
        base <= old(gcos)@.len(),
    ensures
        final(gcos).spec_extends(old(gcos)),
        spec_buffer_copy(src@, k, old(gcos)@.take(base as int), final(gcos)@, depth as nat),
        final(gcos).spec_is_buffer(k),
        final(gcos).spec_buffer(k).len() == src@.len(),
    decreases depth, 2nat,
{
    let ghost ha = gcos@.take(base as int);
    let ghost start = *gcos;
    let copy = deep_clone_values(src, gcos, depth, base);
    let ghost mid = *gcos;
    let ghost items = copy@;
    let k = gcos.add(GcObj::Buffer(copy));
    proof {
        gcos.lemma_extends_transitive(&mid, &start);
        lemma_seq_deep_copy_extends(src@, items, ha, mid@, gcos@, depth as nat);
    }
    k
}

impl ArrayObj {
    /// A deep copy of the array that goes `depth` objects deep and follows
    /// handles below `base` only.
    pub fn deep_clone_bounded(&self, gcos: &mut GcoVec, depth: usize, base: usize) -> (r: ArrayObj)
        requires
            base <= old(gcos)@.len(),
        ensures
            final(gcos).spec_extends(old(gcos)),
            spec_array_copy(*self, r, old(gcos)@.take(base as int), final(gcos)@, depth as nat),
            r.spec_wf(final(gcos)),
        decreases depth, 3nat,
    {
        let elems: Vec<GosValue> = if self.vec < base {
            match gcos.buffer(self.vec) {
                Some(v) => clone_values(v),
                None => Vec::new(),
            }
        } else {
            Vec::new()
        };
        proof {
            assert(elems@ =~= spec_cells_buffer(gcos@.take(base as int), self.vec));
        }
        let k = deep_clone_buffer(&elems, gcos, depth, base);
        ArrayObj { meta: self.meta, vec: k }
    }

    /// A new array with deep copies of the elements. Changing the copy
    /// leaves this array as it is.
    pub fn deep_clone(&self, gcos: &mut GcoVec) -> (r: ArrayObj)
        ensures
            final(gcos).spec_extends(old(gcos)),
            spec_array_copy(*self, r, old(gcos)@, final(gcos)@, old(gcos)@.len()),
            r.spec_wf(final(gcos)),
            r.spec_data(final(gcos)).len() == self.spec_data(old(gcos)).len(),
    {
        let n = gcos.len();
        proof {
            assert(gcos@.take(n as int) =~= gcos@);
        }
        self.deep_clone_bounded(gcos, n, n)
    }
}

impl StructObj {
    /// A deep copy of the struct that goes `depth` objects deep and follows
    /// handles below `base` only.
    pub fn deep_clone_bounded(&self, gcos: &mut GcoVec, depth: usize, base: usize) -> (r:
        StructObj)
        requires
            base <= old(gcos)@.len(),
        ensures
            final(gcos).spec_extends(old(gcos)),
            spec_struct_copy(*self, r, old(gcos)@.take(base as int), final(gcos)@, depth as nat),
        decreases depth, 3nat,
    {
        let fields = deep_clone_values(&self.fields, gcos, depth, base);
        StructObj { meta: self.meta, fields }
    }

    /// A new struct with deep copies of the fields.
    pub fn deep_clone(&self, gcos: &mut GcoVec) -> (r: StructObj)
        ensures
            final(gcos).spec_extends(old(gcos)),
            spec_struct_copy(*self, r, old(gcos)@, final(gcos)@, old(gcos)@.len()),
    {
        let n = gcos.len();
        proof {
            assert(gcos@.take(n as int) =~= gcos@);
        }
        self.deep_clone_bounded(gcos, n, n)
    }
}

impl SliceObj {
    /// A deep copy of the slice that goes `depth` objects deep and follows
    /// handles below `base` only.
    pub fn deep_clone_bounded(&self, gcos: &mut GcoVec, depth: usize, base: usize) -> (r: SliceObj)
        requires
            base <= old(gcos)@.len(),
        ensures
            final(gcos).spec_extends(old(gcos)),
            spec_slice_copy(*self, r, old(gcos)@.take(base as int), final(gcos)@, depth as nat),
        decreases depth, 3nat,
    {
        let begin = self.begin();
        let end = self.end();
        let cap = self.cap();
        match self.vec() {
            Some(kx) => {
                let window: Vec<GosValue> = if kx < base {
                    match gcos.buffer(kx) {
                        Some(v) => {
                            let n = v.len();
                            let b = if begin <= n {
                                begin
                            } else {
                                n
                            };
                            let e0 = if end <= n {
                                end
                            } else {
                                n
                            };
                            let e = if e0 < b {
                                b
                            } else {
                                e0
                            };
                            clone_range(v, b, e)
                        },
                        None => Vec::new(),
                    }
                } else {
                    Vec::new()
                };
                let ghost buf = spec_cells_buffer(gcos@.take(base as int), kx);
                let ghost clip = spec_clip(begin, end, buf.len());
                proof {
                    assert(window@ =~= buf.subrange(clip.0 as int, clip.1 as int));
                }
                let n = window.len();
                let k = deep_clone_buffer(&window, gcos, depth, base);
                SliceObj::from_parts(self.meta(), 0, n, cap, Some(k))
            },
            None => SliceObj::from_parts(self.meta(), 0, 0, cap, None),
        }
    }

    /// A new slice over a new buffer that holds deep copies of the items in
    /// the window, with the same length and capacity. Changing the copy
    /// leaves this slice and its elements as they are.
    pub fn deep_clone(&self, gcos: &mut GcoVec) -> (r: SliceObj)
        ensures
            final(gcos).spec_extends(old(gcos)),
            spec_slice_copy(*self, r, old(gcos)@, final(gcos)@, old(gcos)@.len()),
    {
        let n = gcos.len();
        proof {
            assert(gcos@.take(n as int) =~= gcos@);
        }
        self.deep_clone_bounded(gcos, n, n)
    }
}

impl MapObj {
    /// A deep copy of the map that goes `depth` objects deep and follows
    /// handles below `base` only.
    pub fn deep_clone_bounded(&self, gcos: &mut GcoVec, depth: usize, base: usize) -> (r: MapObj)
        requires
            base <= old(gcos)@.len(),
        ensures
            final(gcos).spec_extends(old(gcos)),
            spec_map_copy(*self, r, old(gcos)@.take(base as int), final(gcos)@, depth as nat),
        decreases depth, 3nat,
    {
        let ghost ha = gcos@.take(base as int);
        let ghost start = *gcos;
        if self.is_nil() {
            return MapObj::from_parts(self.meta(), self.default_val().clone(), None);
        }
        let kx = self.clone_inner();
        let src: Vec<(GosValue, GosValue)> = if kx < base {
            match gcos.table(kx) {
                Some(t) => clone_entries(&t.entries),
                None => Vec::new(),
            }
        } else {
            Vec::new()
        };
        proof {
            assert(src@ =~= spec_cells_entries(ha, kx));
        }
        let copy = deep_clone_entries(&src, gcos, depth, base);
        let ghost mid = *gcos;
        let ghost items = copy@;
        let k = gcos.add(GcObj::Table(GosHashMap { entries: copy }));
        proof {
            gcos.lemma_extends_transitive(&mid, &start);
            lemma_entries_deep_copy_extends(src@, items, ha, mid@, gcos@, depth as nat);
        }
        MapObj::from_parts(self.meta(), self.default_val().clone(), Some(k))
    }

    /// A new map with deep copies of the keys and values, in the same
    /// order. Changing the copy leaves this map as it is.
    pub fn deep_clone(&self, gcos: &mut GcoVec) -> (r: MapObj)
        ensures
            final(gcos).spec_extends(old(gcos)),
            spec_map_copy(*self, r, old(gcos)@, final(gcos)@, old(gcos)@.len()),
    {
        let n = gcos.len();
        proof {
            assert(gcos@.take(n as int) =~= gcos@);
        }
        self.deep_clone_bounded(gcos, n, n)
    }
}

/// A copy of a list of entries; a composite's copy shares the object.
pub fn clone_entries(v: &Vec<(GosValue, GosValue)>) -> (r: Vec<(GosValue, GosValue)>)
    ensures
        r@ == v@,
{
    let mut out: Vec<(GosValue, GosValue)> = Vec::new();
    let mut i: usize = 0;
    while i < v.len()
        invariant
            i <= v@.len(),
            out@ == v@.subrange(0, i as int),
        decreases v@.len() - i,
    {
        out.push((v[i].0.clone(), v[i].1.clone()));
        proof {
            assert(out@ =~= v@.subrange(0, i + 1));
        }
        i += 1;
    }
    proof {
        assert(v@.subrange(0, v@.len() as int) =~= v@);
    }
    out
}

impl GosValue {
    /// A deep copy of the value that goes `depth` objects deep and follows
    /// handles below `base` only.
    pub fn deep_clone_bounded(&self, gcos: &mut GcoVec, depth: usize, base: usize) -> (r: GosValue)
        requires
            base <= old(gcos)@.len(),
        ensures
            final(gcos).spec_extends(old(gcos)),
            spec_deep_copy(*self, r, old(gcos)@.take(base as int), final(gcos)@, depth as nat),
            depth > 0 && spec_has_object(*self, old(gcos)@.take(base as int)) ==> spec_top_handle(
                r,
            ) is Some && old(gcos)@.len() <= spec_top_handle(r).unwrap() < final(gcos)@.len(),
        decreases depth, 0nat, self,
    {
        if depth == 0 {
            return self.clone();
        }
        let ghost ha = gcos@.take(base as int);
        let ghost start = *gcos;
        match self {
            GosValue::Array(k) => {
                let found: Option<ArrayObj> = if *k < base {
                    match gcos.array(*k) {
                        Some(x) => Some(*x),
                        None => None,
                    }
                } else {
                    None
                };
                match found {
                    Some(x) => {
                        let y = x.deep_clone_bounded(gcos, depth - 1, base);
                        let ghost mid = *gcos;
                        let kb = gcos.add(GcObj::Array(y));
                        proof {
                            gcos.lemma_extends_transitive(&mid, &start);
                            lemma_buffer_copy_extends(
                                spec_cells_buffer(ha, x.vec),
                                y.vec,
                                ha,
                                mid@,
                                gcos@,
                                (depth - 1) as nat,
                            );
                            assert(ha[*k as int].obj == GcObj::Array(x));
                            assert(gcos@[kb as int].obj == GcObj::Array(y));
                            assert(spec_array_copy(x, y, ha, gcos@, (depth - 1) as nat));
                        }
                        GosValue::Array(kb)
                    },
                    None => self.clone(),
                }
            },
            GosValue::Slice(k) => {
                let found: Option<SliceObj> = if *k < base {
                    match gcos.slice(*k) {
                        Some(x) => Some(*x),
                        None => None,
                    }
                } else {
                    None
                };
                match found {
                    Some(x) => {
                        let y = x.deep_clone_bounded(gcos, depth - 1, base);
                        let ghost mid = *gcos;
                        let kb = gcos.add(GcObj::Slice(y));
                        proof {
                            gcos.lemma_extends_transitive(&mid, &start);
                            match x.spec_vec() {
                                Some(kx) => {
                                    let buf = spec_cells_buffer(ha, kx);
                                    let clip = spec_clip(x.spec_begin(), x.spec_end(), buf.len());
                                    lemma_buffer_copy_extends(
                                        buf.subrange(clip.0 as int, clip.1 as int),
                                        y.spec_vec().unwrap(),
                                        ha,
                                        mid@,
                                        gcos@,
                                        (depth - 1) as nat,
                                    );
                                },
                                None => {},
                            }
                            assert(ha[*k as int].obj == GcObj::Slice(x));
                            assert(gcos@[kb as int].obj == GcObj::Slice(y));
                            assert(spec_slice_copy(x, y, ha, gcos@, (depth - 1) as nat));
                        }
                        GosValue::Slice(kb)
                    },
                    None => self.clone(),
                }
            },
            GosValue::GosMap(k) => {
                let found: Option<MapObj> = if *k < base {
                    match gcos.map(*k) {
                        Some(x) => Some(x.clone()),
                        None => None,
                    }
                } else {
                    None
                };
                match found {
                    Some(x) => {
                        let y = x.deep_clone_bounded(gcos, depth - 1, base);
                        let ghost mid = *gcos;
                        let kb = gcos.add(GcObj::GosMap(y));
                        proof {
                            gcos.lemma_extends_transitive(&mid, &start);
                            match x.spec_map() {
                                Some(kx) => {
                                    let ky = y.spec_map().unwrap();
                                    assert(gcos@[ky as int] == mid@[ky as int]);
                                    lemma_entries_deep_copy_extends(
                                        spec_cells_entries(ha, kx),
                                        mid@[ky as int].obj->Table_0.entries@,
                                        ha,
                                        mid@,
                                        gcos@,
                                        (depth - 1) as nat,
                                    );
                                },
                                None => {},
                            }
                            assert(ha[*k as int].obj == GcObj::GosMap(x));
                            assert(gcos@[kb as int].obj == GcObj::GosMap(y));
                            assert(spec_map_copy(x, y, ha, gcos@, (depth - 1) as nat));
                        }
                        GosValue::GosMap(kb)
                    },
                    None => self.clone(),
                }
            },
            GosValue::Struct(k) => {
                let found: Option<StructObj> = if *k < base {
                    match gcos.struct_obj(*k) {
                        Some(x) => Some(x.clone()),
                        None => None,
                    }
                } else {
                    None
                };
                match found {
                    Some(x) => {
                        let ghost orig = ha[*k as int].obj->Struct_0;
                        let y = x.deep_clone_bounded(gcos, depth - 1, base);
                        let ghost mid = *gcos;
                        let ghost fields = y.fields@;
                        let kb = gcos.add(GcObj::Struct(y));
                        proof {
                            gcos.lemma_extends_transitive(&mid, &start);
                            lemma_seq_deep_copy_extends(
                                orig.fields@,
                                fields,
                                ha,
                                mid@,
                                gcos@,
                                (depth - 1) as nat,
                            );
                            assert(gcos@[kb as int].obj->Struct_0.fields@ == fields);
                            assert(spec_struct_copy(
                                orig,
                                gcos@[kb as int].obj->Struct_0,
                                ha,
                                gcos@,
                                (depth - 1) as nat,
                            ));
                        }
                        GosValue::Struct(kb)
                    },
                    None => self.clone(),
                }
            },
            GosValue::Named(x, m) => {
                let inner: &GosValue = &**x;
                let y = inner.deep_clone_bounded(gcos, depth, base);
                GosValue::Named(Box::new(y), *m)
            },
            _ => self.clone(),
        }
    }

    /// A deep copy of the value: a struct, an array, a slice or a map is
    /// copied into new objects together with everything that it holds; any
    /// other value is itself. The store keeps every object that it had, so
    /// changing the copy leaves the copied value as it is. The copy goes as
    /// deep as the store has cells, which reaches every object of a value
    /// that does not hold itself (see `lemma_ranked_fits`).
    pub fn deep_clone(&self, gcos: &mut GcoVec) -> (r: GosValue)
        ensures
            final(gcos).spec_extends(old(gcos)),
            spec_deep_copy(*self, r, old(gcos)@, final(gcos)@, old(gcos)@.len()),
            spec_depth_fits(*self, old(gcos)@, old(gcos)@.len()) ==> forall|deeper: nat|
                deeper >= old(gcos)@.len() ==> #[trigger] spec_deep_copy(
                    *self,
                    r,
                    old(gcos)@,
                    final(gcos)@,
                    deeper,
                ),
    {
        let n = gcos.len();
        proof {
            assert(gcos@.take(n as int) =~= gcos@);
        }
        let r = self.deep_clone_bounded(gcos, n, n);
        proof {
            if spec_depth_fits(*self, old(gcos)@, n as nat) {
                assert forall|deeper: nat| deeper >= n implies #[trigger] spec_deep_copy(
                    *self,
                    r,
                    old(gcos)@,
                    gcos@,
                    deeper,
                ) by {
                    lemma_deep_copy_complete(*self, r, old(gcos)@, gcos@, n as nat, deeper);
                }
            }
        }
        r
    }
}

/// Whether `b` is a copy of `a` as an assignment makes it: a struct or an
/// array is copied deep, `depth` objects deep; a slice or a map gets a new
/// object that shares the elements or entries of the copied one; any other
/// value is itself.
pub open spec fn spec_copy_semantic(
    a: GosValue,
    b: GosValue,
    ha: Seq<GcCell>,
    hb: Seq<GcCell>,
    depth: nat,
) -> bool
    decreases a,
{
    match a {
        GosValue::Array(_) => spec_deep_copy(a, b, ha, hb, depth),
        GosValue::Struct(_) => spec_deep_copy(a, b, ha, hb, depth),
        GosValue::Slice(k) => if k < ha.len() && ha[k as int].obj is Slice {
            &&& b is Slice
            &&& spec_fresh(b->Slice_0, ha, hb)
            &&& hb[b->Slice_0 as int].rc == 0
            &&& hb[b->Slice_0 as int].obj == ha[k as int].obj
        } else {
            b == a
        },
        GosValue::GosMap(k) => if k < ha.len() && ha[k as int].obj is GosMap {
            &&& b is GosMap
            &&& spec_fresh(b->GosMap_0, ha, hb)
            &&& hb[b->GosMap_0 as int].rc == 0
            &&& hb[b->GosMap_0 as int].obj == ha[k as int].obj
        } else {
            b == a
        },
        GosValue::Named(x, m) => {
            &&& b is Named
            &&& b->Named_1 == m
            &&& spec_copy_semantic(*x, *b->Named_0, ha, hb, depth)
        },
        _ => b == a,
    }
}

/// A copy stays one when more cells are added to the store.
pub proof fn lemma_copy_semantic_extends(
    a: GosValue,
    b: GosValue,
    ha: Seq<GcCell>,
    hb: Seq<GcCell>,
    hc: Seq<GcCell>,
    depth: nat,
)
    requires
        spec_copy_semantic(a, b, ha, hb, depth),
        spec_cells_extend(hc, hb),
    ensures
        spec_copy_semantic(a, b, ha, hc, depth),
    decreases a,
{
    match a {
        GosValue::Array(_) => {
            lemma_deep_copy_extends(a, b, ha, hb, hc, depth);
        },
        GosValue::Struct(_) => {
            lemma_deep_copy_extends(a, b, ha, hb, hc, depth);
        },
        GosValue::Slice(k) => {
            if k < ha.len() && ha[k as int].obj is Slice {
                assert(hc[b->Slice_0 as int] == hb[b->Slice_0 as int]);
            }
        },
        GosValue::GosMap(k) => {
            if k < ha.len() && ha[k as int].obj is GosMap {
                assert(hc[b->GosMap_0 as int] == hb[b->GosMap_0 as int]);
            }
        },
        GosValue::Named(x, _) => {
            lemma_copy_semantic_extends(*x, *b->Named_0, ha, hb, hc, depth);
        },
        _ => {},
    }
}

/// Changing a cell that a copy added leaves every cell that the store had
/// before the copy as it was: what the copied value holds stays.
pub proof fn lemma_copy_isolated(before: &GcoVec, copied: &GcoVec, after: &GcoVec, k: GcKey)
    requires
        copied.spec_extends(before),
        after.spec_same_but(copied, k),
        spec_fresh(k, before@, copied@),
    ensures
        after.spec_extends(before),
        forall|j: GcKey| before.spec_has(j) ==> after.spec_obj(j) == before.spec_obj(j),
{
    after.lemma_change_above(copied, before, k);
}

/// Changing the elements of an array's deep copy leaves the elements of the
/// array as they are.
pub proof fn lemma_array_copy_isolated(
    a: ArrayObj,
    c: ArrayObj,
    before: &GcoVec,
    copied: &GcoVec,
    after: &GcoVec,
    depth: nat,
)
    requires
        a.spec_wf(before),
        spec_array_copy(a, c, before@, copied@, depth),
        copied.spec_extends(before),
        after.spec_same_but(copied, c.vec),
    ensures
        a.spec_data(after) == a.spec_data(before),
        a.vec != c.vec,
{
    lemma_copy_isolated(before, copied, after, c.vec);
}

impl GosValue {
    /// A copy of the value as an assignment makes it, with deep copies that
    /// go `depth` objects deep and follow handles below `base` only.
    pub fn copy_semantic_bounded(&self, gcos: &mut GcoVec, depth: usize, base: usize) -> (r:
        GosValue)
        requires
            base <= old(gcos)@.len(),
        ensures
            final(gcos).spec_extends(old(gcos)),
            spec_copy_semantic(*self, r, old(gcos)@.take(base as int), final(gcos)@, depth as nat),
            depth > 0 && spec_has_object(*self, old(gcos)@.take(base as int)) ==> spec_top_handle(
                r,
            ) is Some && old(gcos)@.len() <= spec_top_handle(r).unwrap() < final(gcos)@.len(),
        decreases self,
    {
        let ghost ha = gcos@.take(base as int);
        match self {
            GosValue::Array(_) => self.deep_clone_bounded(gcos, depth, base),
            GosValue::Struct(_) => self.deep_clone_bounded(gcos, depth, base),
            GosValue::Slice(k) => {
                let found: Option<SliceObj> = if *k < base {
                    match gcos.slice(*k) {
                        Some(x) => Some(*x),
                        None => None,
                    }
                } else {
                    None
                };
                match found {
                    Some(x) => {
                        let kb = gcos.add(GcObj::Slice(x));
                        GosValue::Slice(kb)
                    },
                    None => self.clone(),
                }
            },
            GosValue::GosMap(k) => {
                let found: Option<MapObj> = if *k < base {
                    match gcos.map(*k) {
                        Some(x) => Some(x.clone()),
                        None => None,
                    }
                } else {
                    None
                };
                match found {
                    Some(x) => {
                        let kb = gcos.add(GcObj::GosMap(x));
                        GosValue::GosMap(kb)
                    },
                    None => self.clone(),
                }
            },
            GosValue::Named(x, m) => {
                let inner: &GosValue = &**x;
                let y = inner.copy_semantic_bounded(gcos, depth, base);
                GosValue::Named(Box::new(y), *m)
            },
            _ => self.clone(),
        }
    }

    /// A copy of the value as an assignment makes it: a struct or an array
    /// is copied deep; a slice or a map gets a new object that shares the
    /// elements or entries; any other value is itself.
    pub fn copy_semantic(&self, gcos: &mut GcoVec) -> (r: GosValue)
        ensures
            final(gcos).spec_extends(old(gcos)),
            spec_copy_semantic(*self, r, old(gcos)@, final(gcos)@, old(gcos)@.len()),
    {
        let n = gcos.len();
        proof {
            assert(gcos@.take(n as int) =~= gcos@);
        }
        self.copy_semantic_bounded(gcos, n, n)
    }

    /// The struct value of a struct, which gets a new cell of the store.
    pub fn new_struct(obj: StructObj, gcos: &mut GcoVec) -> (v: GosValue)
        ensures
            v is Struct,
            v->Struct_0 == old(gcos)@.len(),
            final(gcos)@ == old(gcos)@.push(GcCell { obj: GcObj::Struct(obj), rc: 0 }),
            final(gcos).spec_extends(old(gcos)),
    {
        GosValue::Struct(gcos.add(GcObj::Struct(obj)))
    }

    /// The array value of an array, which gets a new cell of the store.
    pub fn new_array(obj: ArrayObj, gcos: &mut GcoVec) -> (v: GosValue)
        ensures
            v is Array,
            v->Array_0 == old(gcos)@.len(),
            final(gcos)@ == old(gcos)@.push(GcCell { obj: GcObj::Array(obj), rc: 0 }),
            final(gcos).spec_extends(old(gcos)),
    {
        GosValue::Array(gcos.add(GcObj::Array(obj)))
    }

    /// The slice value of a slice, which gets a new cell of the store.
    pub fn slice_with_obj(obj: SliceObj, gcos: &mut GcoVec) -> (v: GosValue)
        ensures
            v is Slice,
            v->Slice_0 == old(gcos)@.len(),
            final(gcos)@ == old(gcos)@.push(GcCell { obj: GcObj::Slice(obj), rc: 0 }),
            final(gcos).spec_extends(old(gcos)),
    {
        GosValue::Slice(gcos.add(GcObj::Slice(obj)))
    }

    /// The map value of a map, which gets a new cell of the store.
    pub fn map_with_obj(obj: MapObj, gcos: &mut GcoVec) -> (v: GosValue)
        ensures
            v is GosMap,
            v->GosMap_0 == old(gcos)@.len(),
            final(gcos)@ == old(gcos)@.push(GcCell { obj: GcObj::GosMap(obj), rc: 0 }),
            final(gcos).spec_extends(old(gcos)),
    {
        GosValue::GosMap(gcos.add(GcObj::GosMap(obj)))
    }

    /// The nil slice of a type, in a new cell of the store.
    pub fn new_slice_nil(meta: GosMetadata, gcos: &mut GcoVec) -> (v: GosValue)
        ensures
            v is Slice,
            v->Slice_0 == old(gcos)@.len(),
            final(gcos)@ == old(gcos)@.push(
                GcCell { obj: GcObj::Slice(SliceObj::spec_of(meta, 0, 0, 0, None)), rc: 0 },
            ),
            final(gcos).spec_extends(old(gcos)),
    {
        let s = SliceObj::new_nil(meta);
        Self::slice_with_obj(s, gcos)
    }

    /// A slice of `len` copies of a value with room for `cap` items: the
    /// elements and the slice get two new cells of the store.
    pub fn new_slice(
        len: usize,
        cap: usize,
        meta: GosMetadata,
        default_val: Option<&GosValue>,
        gcos: &mut GcoVec,
    ) -> (v: GosValue)
        requires
            cap >= len,
            len > 0 ==> default_val is Some,
        ensures
            v is Slice,
            v->Slice_0 == old(gcos)@.len() + 1,
            final(gcos).spec_extends(old(gcos)),
            final(gcos)@.len() == old(gcos)@.len() + 2,
            final(gcos).spec_is_slice(v->Slice_0),
            final(gcos).spec_slice(v->Slice_0).spec_meta() == meta,
            final(gcos).spec_slice(v->Slice_0).spec_begin() == 0,
            final(gcos).spec_slice(v->Slice_0).spec_end() == len,
            final(gcos).spec_slice(v->Slice_0).spec_soft_cap() == cap,
            final(gcos).spec_slice(v->Slice_0).spec_vec() is Some,
            final(gcos).spec_slice(v->Slice_0).spec_vec().unwrap() == old(gcos)@.len(),
            final(gcos).spec_slice(v->Slice_0).spec_wf(final(gcos)),
            final(gcos).spec_slice(v->Slice_0).spec_data(final(gcos)).len() == len,
            forall|i: int|
                0 <= i < len ==> #[trigger] final(gcos).spec_slice(v->Slice_0).spec_data(
                    final(gcos),
                )[i] == *default_val.unwrap(),
    {
        let ghost start = *gcos;
        let base = gcos.len();
        let s = SliceObj::new(len, cap, meta, default_val, gcos);
        let ghost mid = *gcos;
        proof {
            s.lemma_parts();
            SliceObj::lemma_of(meta, 0, len, cap, Some(base));
        }
        let v = Self::slice_with_obj(s, gcos);
        proof {
            gcos.lemma_extends_transitive(&mid, &start);
            assert(gcos@[base as int] == mid@[base as int]);
            assert(s.spec_data(gcos) == s.spec_data(&mid));
        }
        v
    }

    /// The nil map of a type, in a new cell of the store.
    pub fn new_map_nil(meta: GosMetadata, default_val: GosValue, gcos: &mut GcoVec) -> (v:
        GosValue)
        ensures
            v is GosMap,
            v->GosMap_0 == old(gcos)@.len(),
            final(gcos).spec_extends(old(gcos)),
            final(gcos)@.len() == old(gcos)@.len() + 1,
            final(gcos).spec_is_map(v->GosMap_0),
            final(gcos).spec_map(v->GosMap_0).spec_meta() == meta,
            final(gcos).spec_map(v->GosMap_0).spec_default() == default_val,
            final(gcos).spec_map(v->GosMap_0).spec_map() is None,
    {
        let m = MapObj::new_nil(meta, default_val);
        Self::map_with_obj(m, gcos)
    }

    /// An empty map of a type: the entries and the map get two new cells of
    /// the store.
    pub fn new_map(meta: GosMetadata, default_val: GosValue, gcos: &mut GcoVec) -> (v: GosValue)
        ensures
            v is GosMap,
            v->GosMap_0 == old(gcos)@.len() + 1,
            final(gcos).spec_extends(old(gcos)),
            final(gcos)@.len() == old(gcos)@.len() + 2,
            final(gcos).spec_is_map(v->GosMap_0),
            final(gcos).spec_map(v->GosMap_0).spec_meta() == meta,
            final(gcos).spec_map(v->GosMap_0).spec_default() == default_val,
            final(gcos).spec_map(v->GosMap_0).spec_map() is Some,
            final(gcos).spec_map(v->GosMap_0).spec_map().unwrap() == old(gcos)@.len(),
            final(gcos).spec_map(v->GosMap_0).spec_wf(final(gcos)),
            final(gcos).spec_map(v->GosMap_0).spec_table(final(gcos)).entries@.len() == 0,
    {
        let ghost start = *gcos;
        let base = gcos.len();
        let m = MapObj::new(meta, default_val, gcos);
        let ghost mid = *gcos;
        let v = Self::map_with_obj(m, gcos);
        proof {
            gcos.lemma_extends_transitive(&mid, &start);
            assert(gcos@[base as int] == mid@[base as int]);
        }
        v
    }

    /// An array of `size` copies of a value, each made as an assignment
    /// makes it: the elements and the array get new cells of the store.
    pub fn array_with_size(size: usize, val: &GosValue, meta: GosMetadata, gcos: &mut GcoVec) -> (v:
        GosValue)
        ensures
            final(gcos).spec_extends(old(gcos)),
            v is Array,
            spec_fresh(v->Array_0, old(gcos)@, final(gcos)@),
            final(gcos).spec_is_array(v->Array_0),
            final(gcos).spec_array(v->Array_0).meta == meta,
            spec_fresh(final(gcos).spec_array(v->Array_0).vec, old(gcos)@, final(gcos)@),
            final(gcos).spec_is_buffer(final(gcos).spec_array(v->Array_0).vec),
            final(gcos).spec_buffer(final(gcos).spec_array(v->Array_0).vec).len() == size,
            forall|i: int|
                0 <= i < size ==> spec_copy_semantic(
                    *val,
                    #[trigger] final(gcos).spec_buffer(final(gcos).spec_array(v->Array_0).vec)[i],
                    old(gcos)@,
                    final(gcos)@,
                    old(gcos)@.len(),
                ),
            spec_has_object(*val, old(gcos)@) ==> spec_distinct_objects(
                final(gcos).spec_buffer(final(gcos).spec_array(v->Array_0).vec),
            ),
    {
        let ghost start = *gcos;
        let arr = ArrayObj::with_size(size, val, meta, gcos);
        let ghost mid = *gcos;
        let v = Self::new_array(arr, gcos);
        proof {
            gcos.lemma_extends_transitive(&mid, &start);
            assert(gcos@[arr.vec as int] == mid@[arr.vec as int]);
            assert(gcos.spec_buffer(arr.vec) == mid.spec_buffer(arr.vec));
            assert forall|i: int| 0 <= i < size implies spec_copy_semantic(
                *val,
                #[trigger] gcos.spec_buffer(arr.vec)[i],
                start@,
                gcos@,
                start@.len(),
            ) by {
                lemma_copy_semantic_extends(
                    *val,
                    mid.spec_buffer(arr.vec)[i],
                    start@,
                    mid@,
                    gcos@,
                    start@.len(),
                );
            }
        }
        v
    }
}

impl ArrayObj {
    /// An array of `size` copies of a value, each made as an assignment
    /// makes it; the elements get a new cell of the store.
    pub fn with_size(size: usize, val: &GosValue, meta: GosMetadata, gcos: &mut GcoVec) -> (r:
        ArrayObj)
        ensures
            final(gcos).spec_extends(old(gcos)),
            r.meta == meta,
            r.spec_wf(final(gcos)),
            spec_fresh(r.vec, old(gcos)@, final(gcos)@),
            r.spec_data(final(gcos)).len() == size,
            forall|i: int|
                0 <= i < size ==> spec_copy_semantic(
                    *val,
                    #[trigger] r.spec_data(final(gcos))[i],
                    old(gcos)@,
                    final(gcos)@,
                    old(gcos)@.len(),
                ),
            spec_has_object(*val, old(gcos)@) ==> spec_distinct_objects(r.spec_data(final(gcos))),
    {
        let ghost start = *gcos;
        let base = gcos.len();
        let mut v: Vec<GosValue> = Vec::with_capacity(size);
        let mut i: usize = 0;
        proof {
            assert(start@.take(base as int) =~= start@);
            lemma_has_object_below(*val, start@);
        }
        while i < size
            invariant
                i <= size,
                v@.len() == i,
                base == start@.len(),
                gcos.spec_extends(&start),
                forall|j: int|
                    0 <= j < i ==> spec_copy_semantic(
                        *val,
                        #[trigger] v@[j],
                        start@,
                        gcos@,
                        base as nat,
                    ),
                spec_has_object(*val, start@) ==> base > 0 && spec_distinct_objects(v@) && forall|
                    j: int,
                |
                    0 <= j < i ==> spec_top_handle(#[trigger] v@[j]) is Some && spec_top_handle(
                        v@[j],
                    ).unwrap() < gcos@.len(),
            decreases size - i,
        {
            let ghost mid = *gcos;
            let ghost done = v@;
            proof {
                assert(mid@.take(base as int) =~= start@);
            }
            let c = val.copy_semantic_bounded(gcos, base, base);
            v.push(c);
            proof {
                gcos.lemma_extends_transitive(&mid, &start);
                if spec_has_object(*val, start@) {
                    assert(spec_top_handle(c) is Some);
                    assert(mid@.len() <= spec_top_handle(c).unwrap() < gcos@.len());
                    assert forall|j: int| 0 <= j < i + 1 implies spec_top_handle(
                        #[trigger] v@[j],
                    ) is Some && spec_top_handle(v@[j]).unwrap() < gcos@.len() by {
                        if j < i {
                            assert(v@[j] == done[j]);
                            assert(spec_top_handle(done[j]).unwrap() < mid@.len());
                        }
                    }
                    assert forall|x: int, y: int| 0 <= x < y < v@.len() implies spec_top_handle(
                        #[trigger] v@[x],
                    ) is Some && spec_top_handle(#[trigger] v@[y]) is Some && spec_top_handle(v@[x])
                        != spec_top_handle(v@[y]) by {
                        assert(v@[x] == done[x]);
                        assert(spec_top_handle(done[x]).unwrap() < mid@.len());
                        if y < i {
                            assert(v@[y] == done[y]);
                        }
                    }
                }
                assert forall|j: int| 0 <= j < i + 1 implies spec_copy_semantic(
                    *val,
                    #[trigger] v@[j],
                    start@,
                    gcos@,
                    base as nat,
                ) by {
                    if j < i {
                        assert(v@[j] == done[j]);
                        lemma_copy_semantic_extends(
                            *val,
                            done[j],
                            start@,
                            mid@,
                            gcos@,
                            base as nat,
                        );
                    }
                }
            }
            i += 1;
        }
        let ghost mid = *gcos;
        let ghost items = v@;
        proof {
            lemma_has_object_below(*val, start@);
        }
        let k = gcos.add(GcObj::Buffer(v));
        proof {
            gcos.lemma_extends_transitive(&mid, &start);
            assert forall|j: int| 0 <= j < size implies spec_copy_semantic(
                *val,
                #[trigger] gcos.spec_buffer(k)[j],
                start@,
                gcos@,
                base as nat,
            ) by {
                lemma_copy_semantic_extends(*val, items[j], start@, mid@, gcos@, base as nat);
            }
        }
        ArrayObj { meta, vec: k }
    }
}

impl PointerObj {
    /// Whether `q` is a deep copy of the pointer `p`: a pointer to a struct,
    /// a slice or a map points to a deep copy of the pointee, in a new cell;
    /// any other pointer is itself.
    pub open spec fn spec_deep_copy(
        p: PointerObj,
        q: PointerObj,
        ha: Seq<GcCell>,
        hb: Seq<GcCell>,
        depth: nat,
    ) -> bool {
        match p {
            PointerObj::Struct(k, m) => if k < ha.len() && ha[k as int].obj is Struct {
                &&& q is Struct
                &&& q->Struct_1 == m
                &&& spec_fresh(q->Struct_0, ha, hb)
                &&& hb[q->Struct_0 as int].rc == 0
                &&& hb[q->Struct_0 as int].obj is Struct
                &&& spec_struct_copy(
                    ha[k as int].obj->Struct_0,
                    hb[q->Struct_0 as int].obj->Struct_0,
                    ha,
                    hb,
                    depth,
                )
            } else {
                q == p
            },
            PointerObj::Slice(k, m) => if k < ha.len() && ha[k as int].obj is Slice {
                &&& q is Slice
                &&& q->Slice_1 == m
                &&& spec_fresh(q->Slice_0, ha, hb)
                &&& hb[q->Slice_0 as int].rc == 0
                &&& hb[q->Slice_0 as int].obj is Slice
                &&& spec_slice_copy(
                    ha[k as int].obj->Slice_0,
                    hb[q->Slice_0 as int].obj->Slice_0,
                    ha,
                    hb,
                    depth,
                )
            } else {
                q == p
            },
            PointerObj::GosMap(k, m) => if k < ha.len() && ha[k as int].obj is GosMap {
                &&& q is GosMap
                &&& q->GosMap_1 == m
                &&& spec_fresh(q->GosMap_0, ha, hb)
                &&& hb[q->GosMap_0 as int].rc == 0
                &&& hb[q->GosMap_0 as int].obj is GosMap
                &&& spec_map_copy(
                    ha[k as int].obj->GosMap_0,
                    hb[q->GosMap_0 as int].obj->GosMap_0,
                    ha,
                    hb,
                    depth,
                )
            } else {
                q == p
            },
            _ => q == p,
        }
    }

    /// A pointer to a deep copy of the pointee. Only a pointer to a struct,
    /// a slice or a map, or one whose pointee was released, is copied this
    /// way.
    pub fn deep_clone(&self, gcos: &mut GcoVec) -> (r: PointerObj)
        requires
            *self is Released || *self is Struct || *self is Slice || *self is GosMap,
        ensures
            final(gcos).spec_extends(old(gcos)),
            Self::spec_deep_copy(
                *self,
                r,
                old(gcos)@,
                final(gcos)@,
                (old(gcos)@.len() - 1) as nat,
            ),
    {
        let n = gcos.len();
        let ghost start = *gcos;
        proof {
            assert(gcos@.take(n as int) =~= gcos@);
        }
        let as_value: Option<GosValue> = match self {
            PointerObj::Struct(k, _) => Some(GosValue::Struct(*k)),
            PointerObj::Slice(k, _) => Some(GosValue::Slice(*k)),
            PointerObj::GosMap(k, _) => Some(GosValue::GosMap(*k)),
            _ => None,
        };
        match as_value {
            Some(v) => {
                let c = v.deep_clone_bounded(gcos, n, n);
                match (self, c) {
                    (PointerObj::Struct(_, m), GosValue::Struct(kb)) => PointerObj::Struct(kb, *m),
                    (PointerObj::Slice(_, m), GosValue::Slice(kb)) => PointerObj::Slice(kb, *m),
                    (PointerObj::GosMap(_, m), GosValue::GosMap(kb)) => PointerObj::GosMap(kb, *m),
                    _ => *self,
                }
            },
            None => *self,
        }
    }
}

/// The value that a chain of references goes on with from a cell: the value
/// that a closed captured variable holds, or the value of the language that
/// an interface value holds.
pub open spec fn spec_cells_inner(h: Seq<GcCell>, k: GcKey) -> Option<GosValue> {
    if k < h.len() {
        match h[k as int].obj {
            GcObj::UpValue(UpValueState::Closed(x)) => Some(x),
            GcObj::Interface(iface) => match iface.spec_underlying() {
                IfaceUnderlying::Gos(x, _) => Some(x),
                _ => None,
            },
            _ => None,
        }
    } else {
        None
    }
}

/// The cells after one reference to a value went away: the count of a
/// composite's object goes down by one; a pointer to a captured variable and
/// an interface pass the news on to the value that they hold, `depth`
/// objects deep; a name around a value costs no depth.
pub open spec fn spec_ref_sub_one(v: GosValue, h: Seq<GcCell>, depth: nat) -> Seq<GcCell>
    decreases depth, v,
{
    match v {
        GosValue::Array(k) => spec_cells_sub_one(h, k),
        GosValue::Closure(k) => spec_cells_sub_one(h, k),
        GosValue::Slice(k) => spec_cells_sub_one(h, k),
        GosValue::GosMap(k) => spec_cells_sub_one(h, k),
        GosValue::Struct(k) => spec_cells_sub_one(h, k),
        GosValue::Pointer(p) => match *p {
            PointerObj::UpVal(uv) => match spec_cells_inner(h, uv.inner) {
                Some(x) => if depth > 0 && h[uv.inner as int].obj is UpValue {
                    spec_ref_sub_one(x, h, (depth - 1) as nat)
                } else {
                    h
                },
                None => h,
            },
            PointerObj::Struct(k, _) => spec_cells_sub_one(h, k),
            PointerObj::Array(k, _) => spec_cells_sub_one(h, k),
            PointerObj::Slice(k, _) => spec_cells_sub_one(h, k),
            PointerObj::GosMap(k, _) => spec_cells_sub_one(h, k),
            PointerObj::SliceMember(k, _) => spec_cells_sub_one(h, k),
            PointerObj::StructField(k, _) => spec_cells_sub_one(h, k),
            _ => h,
        },
        GosValue::Interface(k) => match spec_cells_inner(h, k) {
            Some(x) => if depth > 0 && h[k as int].obj is Interface {
                spec_ref_sub_one(x, h, (depth - 1) as nat)
            } else {
                h
            },
            None => h,
        },
        GosValue::Named(x, _) => spec_ref_sub_one(*x, h, depth),
        _ => h,
    }
}

/// The cells and the queue after a mark pass reached a value: a composite's
/// object is marked and queued where its count is not positive; a pointer
/// to a captured variable and an interface pass the mark on to the value
/// that they hold, `depth` objects deep. Data of the embedding program may
/// add to the queue what it likes: the queue is `None` from there on.
pub open spec fn spec_mark_dirty(
    v: GosValue,
    h: Seq<GcCell>,
    q: Option<Seq<GcKey>>,
    depth: nat,
) -> (Seq<GcCell>, Option<Seq<GcKey>>)
    decreases depth, v,
{
    match v {
        GosValue::Array(k) => spec_mark_cell(h, q, k),
        GosValue::Closure(k) => spec_mark_cell(h, q, k),
        GosValue::Slice(k) => spec_mark_cell(h, q, k),
        GosValue::GosMap(k) => spec_mark_cell(h, q, k),
        GosValue::Struct(k) => spec_mark_cell(h, q, k),
        GosValue::Pointer(p) => match *p {
            PointerObj::UpVal(uv) => match spec_cells_inner(h, uv.inner) {
                Some(x) => if depth > 0 && h[uv.inner as int].obj is UpValue {
                    spec_mark_dirty(x, h, q, (depth - 1) as nat)
                } else {
                    (h, q)
                },
                None => (h, q),
            },
            PointerObj::Struct(k, _) => spec_mark_cell(h, q, k),
            PointerObj::Array(k, _) => spec_mark_cell(h, q, k),
            PointerObj::Slice(k, _) => spec_mark_cell(h, q, k),
            PointerObj::GosMap(k, _) => spec_mark_cell(h, q, k),
            PointerObj::SliceMember(k, _) => spec_mark_cell(h, q, k),
            PointerObj::StructField(k, _) => spec_mark_cell(h, q, k),
            PointerObj::UserData(k) => if k < h.len() && h[k as int].obj is UserData {
                (h, None)
            } else {
                (h, q)
            },
            _ => (h, q),
        },
        GosValue::Interface(k) => match spec_cells_inner(h, k) {
            Some(x) => if depth > 0 && h[k as int].obj is Interface {
                spec_mark_dirty(x, h, q, (depth - 1) as nat)
            } else {
                (h, q)
            },
            None => (h, q),
        },
        GosValue::Named(x, _) => spec_mark_dirty(*x, h, q, depth),
        _ => (h, q),
    }
}

/// The cells and the queue after a mark pass reached the object in cell `k`.
pub open spec fn spec_mark_cell(h: Seq<GcCell>, q: Option<Seq<GcKey>>, k: GcKey) -> (
    Seq<GcCell>,
    Option<Seq<GcKey>>,
) {
    (
        spec_cells_mark(h, k),
        match q {
            Some(qq) => Some(spec_queue_mark(h, qq, k)),
            None => None,
        },
    )
}

/// The cells after one reference to each of a closure's captured variables,
/// up to the `n`-th, went away.
pub open spec fn spec_uvs_sub_one(uvs: Seq<(usize, UpValue)>, n: int, h: Seq<GcCell>, depth: nat)
    -> Seq<GcCell>
    decreases n,
{
    if n <= 0 || n > uvs.len() {
        h
    } else {
        spec_ref_sub_one(
            GosValue::Pointer(Box::new(PointerObj::UpVal(uvs[n - 1].1))),
            spec_uvs_sub_one(uvs, n - 1, h, depth),
            depth,
        )
    }
}

/// The cells and the queue after a mark pass reached each of a closure's
/// captured variables, up to the `n`-th.
pub open spec fn spec_uvs_mark(
    uvs: Seq<(usize, UpValue)>,
    n: int,
    h: Seq<GcCell>,
    q: Option<Seq<GcKey>>,
    depth: nat,
) -> (Seq<GcCell>, Option<Seq<GcKey>>)
    decreases n,
{
    if n <= 0 || n > uvs.len() {
        (h, q)
    } else {
        let prev = spec_uvs_mark(uvs, n - 1, h, q, depth);
        spec_mark_dirty(
            GosValue::Pointer(Box::new(PointerObj::UpVal(uvs[n - 1].1))),
            prev.0,
            prev.1,
            depth,
        )
    }
}

impl GosValue {
    /// The value that a chain of references goes on with from a cell.
    fn chain_inner(gcos: &GcoVec, k: GcKey) -> (r: Option<GosValue>)
        ensures
            r == spec_cells_inner(gcos@, k),
    {
        match gcos.get(k) {
            Some(obj) => match obj {
                GcObj::UpValue(state) => match state {
                    UpValueState::Closed(x) => Some(x.clone()),
                    _ => None,
                },
                GcObj::Interface(iface) => match iface.underlying() {
                    IfaceUnderlying::Gos(x, _) => Some(x.clone()),
                    _ => None,
                },
                _ => None,
            },
            None => None,
        }
    }

    /// One reference to the value went away; the news is passed on at most
    /// `depth` objects deep.
    pub fn ref_sub_one_bounded(&self, gcos: &mut GcoVec, depth: usize)
        ensures
            final(gcos)@ == spec_ref_sub_one(*self, old(gcos)@, depth as nat),
        decreases depth, self,
    {
        match self {
            GosValue::Array(k) => gcos.ref_sub_one(*k),
            GosValue::Closure(k) => gcos.ref_sub_one(*k),
            GosValue::Slice(k) => gcos.ref_sub_one(*k),
            GosValue::GosMap(k) => gcos.ref_sub_one(*k),
            GosValue::Struct(k) => gcos.ref_sub_one(*k),
            GosValue::Pointer(p) => match **p {
                PointerObj::UpVal(uv) => {
                    if depth > 0 && gcos.upvalue(uv.inner).is_some() {
                        match Self::chain_inner(gcos, uv.inner) {
                            Some(x) => x.ref_sub_one_bounded(gcos, depth - 1),
                            None => {},
                        }
                    }
                },
                PointerObj::Struct(k, _) => gcos.ref_sub_one(k),
                PointerObj::Array(k, _) => gcos.ref_sub_one(k),
                PointerObj::Slice(k, _) => gcos.ref_sub_one(k),
                PointerObj::GosMap(k, _) => gcos.ref_sub_one(k),
                PointerObj::SliceMember(k, _) => gcos.ref_sub_one(k),
                PointerObj::StructField(k, _) => gcos.ref_sub_one(k),
                PointerObj::UserData(k) => gcos.user_data_sub_one(k),
                _ => {},
            },
            GosValue::Interface(k) => {
                if depth > 0 && gcos.interface(*k).is_some() {
                    match Self::chain_inner(gcos, *k) {
                        Some(x) => x.ref_sub_one_bounded(gcos, depth - 1),
                        None => {},
                    }
                }
            },
            GosValue::Named(x, _) => {
                let inner: &GosValue = &**x;
                inner.ref_sub_one_bounded(gcos, depth);
            },
            _ => {},
        }
    }

    /// One reference to the value went away: the count of a composite's
    /// object goes down by one; a pointer to a captured variable and an
    /// interface pass the news on to the value that they hold.
    pub fn ref_sub_one(&self, gcos: &mut GcoVec)
        ensures
            final(gcos)@ == spec_ref_sub_one(*self, old(gcos)@, old(gcos)@.len()),
            spec_chain_fits(*self, old(gcos)@, old(gcos)@.len()) ==> forall|deeper: nat|
                deeper >= old(gcos)@.len() ==> final(gcos)@ == #[trigger] spec_ref_sub_one(
                    *self,
                    old(gcos)@,
                    deeper,
                ),
    {
        let depth = gcos.len();
        self.ref_sub_one_bounded(gcos, depth);
        proof {
            if spec_chain_fits(*self, old(gcos)@, depth as nat) {
                assert forall|deeper: nat| deeper >= depth implies gcos@
                    == #[trigger] spec_ref_sub_one(*self, old(gcos)@, deeper) by {
                    lemma_chain_complete(*self, old(gcos)@, None, depth as nat, deeper);
                }
            }
        }
    }

    /// A mark pass reached the value; the mark is passed on at most `depth`
    /// objects deep.
    pub fn mark_dirty_bounded(&self, queue: &mut RCQueue, gcos: &mut GcoVec, depth: usize)
        ensures
            final(gcos)@ == spec_mark_dirty(
                *self,
                old(gcos)@,
                Some(old(queue)@),
                depth as nat,
            ).0,
            spec_mark_dirty(*self, old(gcos)@, Some(old(queue)@), depth as nat).1 matches Some(q)
                ==> final(queue)@ == q,
        decreases depth, self,
    {
        match self {
            GosValue::Array(k) => gcos.rcount_mark_and_queue(*k, queue),
            GosValue::Closure(k) => gcos.rcount_mark_and_queue(*k, queue),
            GosValue::Slice(k) => gcos.rcount_mark_and_queue(*k, queue),
            GosValue::GosMap(k) => gcos.rcount_mark_and_queue(*k, queue),
            GosValue::Struct(k) => gcos.rcount_mark_and_queue(*k, queue),
            GosValue::Pointer(p) => match **p {
                PointerObj::UpVal(uv) => {
                    if depth > 0 && gcos.upvalue(uv.inner).is_some() {
                        match Self::chain_inner(gcos, uv.inner) {
                            Some(x) => x.mark_dirty_bounded(queue, gcos, depth - 1),
                            None => {},
                        }
                    }
                },
                PointerObj::Struct(k, _) => gcos.rcount_mark_and_queue(k, queue),
                PointerObj::Array(k, _) => gcos.rcount_mark_and_queue(k, queue),
                PointerObj::Slice(k, _) => gcos.rcount_mark_and_queue(k, queue),
                PointerObj::GosMap(k, _) => gcos.rcount_mark_and_queue(k, queue),
                PointerObj::SliceMember(k, _) => gcos.rcount_mark_and_queue(k, queue),
                PointerObj::StructField(k, _) => gcos.rcount_mark_and_queue(k, queue),
                PointerObj::UserData(k) => gcos.user_data_mark(k, queue),
                _ => {},
            },
            GosValue::Interface(k) => {
                if depth > 0 && gcos.interface(*k).is_some() {
                    match Self::chain_inner(gcos, *k) {
                        Some(x) => x.mark_dirty_bounded(queue, gcos, depth - 1),
                        None => {},
                    }
                }
            },
            GosValue::Named(x, _) => {
                let inner: &GosValue = &**x;
                inner.mark_dirty_bounded(queue, gcos, depth);
            },
            _ => {},
        }
    }

    /// A mark pass reached the value: a composite's object is marked and
    /// queued for a second traversal where its count is not positive; a
    /// pointer to a captured variable and an interface pass the mark on to
    /// the value that they hold.
    pub fn mark_dirty(&self, queue: &mut RCQueue, gcos: &mut GcoVec)
        ensures
            final(gcos)@ == spec_mark_dirty(
                *self,
                old(gcos)@,
                Some(old(queue)@),
                old(gcos)@.len(),
            ).0,
            spec_mark_dirty(*self, old(gcos)@, Some(old(queue)@), old(gcos)@.len()).1 matches Some(
                q,
            ) ==> final(queue)@ == q,
    {
        let depth = gcos.len();
        self.mark_dirty_bounded(queue, gcos, depth);
    }
}

impl PointerObj {
    /// One reference through the pointer went away: the count of the
    /// pointee's object goes down by one; a pointer to a closed captured
    /// variable passes the news on to the value that the variable holds.
    pub fn ref_sub_one(&self, gcos: &mut GcoVec)
        ensures
            final(gcos)@ == spec_ref_sub_one(
                GosValue::Pointer(Box::new(*self)),
                old(gcos)@,
                old(gcos)@.len(),
            ),
    {
        GosValue::Pointer(Box::new(*self)).ref_sub_one(gcos);
    }

    /// A mark pass reached the pointer: the pointee's object is marked and
    /// queued where its count is not positive; a pointer to a closed
    /// captured variable passes the mark on.
    pub fn mark_dirty(&self, queue: &mut RCQueue, gcos: &mut GcoVec)
        ensures
            final(gcos)@ == spec_mark_dirty(
                GosValue::Pointer(Box::new(*self)),
                old(gcos)@,
                Some(old(queue)@),
                old(gcos)@.len(),
            ).0,
            spec_mark_dirty(
                GosValue::Pointer(Box::new(*self)),
                old(gcos)@,
                Some(old(queue)@),
                old(gcos)@.len(),
            ).1 matches Some(q) ==> final(queue)@ == q,
    {
        GosValue::Pointer(Box::new(*self)).mark_dirty(queue, gcos);
    }
}

impl UpValue {
    /// One reference to the captured variable went away: a closed one
    /// passes the news on to the value that it holds.
    pub fn ref_sub_one(&self, gcos: &mut GcoVec)
        ensures
            final(gcos)@ == spec_ref_sub_one(
                GosValue::Pointer(Box::new(PointerObj::UpVal(*self))),
                old(gcos)@,
                old(gcos)@.len(),
            ),
    {
        PointerObj::UpVal(*self).ref_sub_one(gcos);
    }

    /// A mark pass reached the captured variable: a closed one passes the
    /// mark on to the value that it holds.
    pub fn mark_dirty(&self, queue: &mut RCQueue, gcos: &mut GcoVec)
        ensures
            final(gcos)@ == spec_mark_dirty(
                GosValue::Pointer(Box::new(PointerObj::UpVal(*self))),
                old(gcos)@,
                Some(old(queue)@),
                old(gcos)@.len(),
            ).0,
            spec_mark_dirty(
                GosValue::Pointer(Box::new(PointerObj::UpVal(*self))),
                old(gcos)@,
                Some(old(queue)@),
                old(gcos)@.len(),
            ).1 matches Some(q) ==> final(queue)@ == q,
    {
        PointerObj::UpVal(*self).mark_dirty(queue, gcos);
    }
}

impl InterfaceObj {
    /// One reference to the interface value went away: the news is passed
    /// on to the value of the language that it holds.
    pub fn ref_sub_one(&self, gcos: &mut GcoVec)
        ensures
            final(gcos)@ == match self.spec_underlying() {
                IfaceUnderlying::Gos(v, _) => spec_ref_sub_one(v, old(gcos)@, old(gcos)@.len()),
                _ => old(gcos)@,
            },
    {
        match self.underlying() {
            IfaceUnderlying::Gos(v, _) => v.ref_sub_one(gcos),
            _ => {},
        }
    }

    /// A mark pass reached the interface value: the mark is passed on to
    /// the value of the language that it holds.
    pub fn mark_dirty(&self, queue: &mut RCQueue, gcos: &mut GcoVec)
        ensures
            match self.spec_underlying() {
                IfaceUnderlying::Gos(v, _) => final(gcos)@ == spec_mark_dirty(
                    v,
                    old(gcos)@,
                    Some(old(queue)@),
                    old(gcos)@.len(),
                ).0 && (spec_mark_dirty(v, old(gcos)@, Some(old(queue)@), old(gcos)@.len()).1
                    matches Some(q) ==> final(queue)@ == q),
                _ => final(gcos)@ == old(gcos)@ && final(queue)@ == old(queue)@,
            },
    {
        match self.underlying() {
            IfaceUnderlying::Gos(v, _) => v.mark_dirty(queue, gcos),
            _ => {},
        }
    }
}

impl ClosureObj {
    /// The cells after one reference to the closure went away.
    pub open spec fn spec_ref_sub_one(&self, h: Seq<GcCell>, depth: nat) -> Seq<GcCell> {
        if self.func is Some {
            let after = match self.uvs {
                Some(uvs) => spec_uvs_sub_one(uvs@, uvs@.len() as int, h, depth),
                None => h,
            };
            match self.recv {
                Some(recv) => spec_ref_sub_one(recv, after, depth),
                None => after,
            }
        } else {
            h
        }
    }

    /// The cells and the queue after a mark pass reached the closure.
    pub open spec fn spec_mark_dirty(&self, h: Seq<GcCell>, q: Seq<GcKey>, depth: nat) -> (
        Seq<GcCell>,
        Option<Seq<GcKey>>,
    ) {
        if self.func is Some {
            let after = match self.uvs {
                Some(uvs) => spec_uvs_mark(uvs@, uvs@.len() as int, h, Some(q), depth),
                None => (h, Some(q)),
            };
            match self.recv {
                Some(recv) => spec_mark_dirty(recv, after.0, after.1, depth),
                None => after,
            }
        } else {
            (h, Some(q))
        }
    }

    /// One reference to the closure went away: a closure over a compiled
    /// function passes the news on to its captured variables, in order, and
    /// then to its receiver.
    pub fn ref_sub_one(&self, gcos: &mut GcoVec)
        ensures
            final(gcos)@ == self.spec_ref_sub_one(old(gcos)@, old(gcos)@.len()),
    {
        let depth = gcos.len();
        if self.func.is_some() {
            if let Some(uvs) = &self.uvs {
                let mut i: usize = 0;
                while i < uvs.len()
                    invariant
                        i <= uvs@.len(),
                        gcos@ == spec_uvs_sub_one(uvs@, i as int, old(gcos)@, depth as nat),
                    decreases uvs@.len() - i,
                {
                    GosValue::Pointer(Box::new(PointerObj::UpVal(uvs[i].1))).ref_sub_one_bounded(
                        gcos,
                        depth,
                    );
                    i += 1;
                }
            }
            if let Some(recv) = &self.recv {
                recv.ref_sub_one_bounded(gcos, depth);
            }
        }
    }

    /// A mark pass reached the closure: a closure over a compiled function
    /// passes the mark on to its captured variables, in order, and then to
    /// its receiver.
    pub fn mark_dirty(&self, queue: &mut RCQueue, gcos: &mut GcoVec)
        ensures
            final(gcos)@ == self.spec_mark_dirty(old(gcos)@, old(queue)@, old(gcos)@.len()).0,
            self.spec_mark_dirty(old(gcos)@, old(queue)@, old(gcos)@.len()).1 matches Some(q)
                ==> final(queue)@ == q,
    {
        let depth = gcos.len();
        if self.func.is_some() {
            if let Some(uvs) = &self.uvs {
                let mut i: usize = 0;
                while i < uvs.len()
                    invariant
                        i <= uvs@.len(),
                        gcos@ == spec_uvs_mark(
                            uvs@,
                            i as int,
                            old(gcos)@,
                            Some(old(queue)@),
                            depth as nat,
                        ).0,
                        spec_uvs_mark(
                            uvs@,
                            i as int,
                            old(gcos)@,
                            Some(old(queue)@),
                            depth as nat,
                        ).1 matches Some(q) ==> queue@ == q,
                    decreases uvs@.len() - i,
                {
                    let ghost prev = spec_uvs_mark(
                        uvs@,
                        i as int,
                        old(gcos)@,
                        Some(old(queue)@),
                        depth as nat,
                    );
                    let p = GosValue::Pointer(Box::new(PointerObj::UpVal(uvs[i].1)));
                    proof {
                        lemma_mark_dirty_unknown(p, prev.0, queue@, depth as nat);
                    }
                    p.mark_dirty_bounded(queue, gcos, depth);
                    i += 1;
                }
            }
            if let Some(recv) = &self.recv {
                let ghost h = gcos@;
                proof {
                    lemma_mark_dirty_unknown(*recv, h, queue@, depth as nat);
                }
                recv.mark_dirty_bounded(queue, gcos, depth);
            }
        }
    }
}

/// Whether the chain of captured variables and interfaces that starts at a
/// value ends within `depth` objects: the news of a count or a mark that
/// goes `depth` objects deep reaches its end.
pub open spec fn spec_chain_fits(v: GosValue, h: Seq<GcCell>, depth: nat) -> bool
    decreases depth, v,
{
    match v {
        GosValue::Pointer(p) => match *p {
            PointerObj::UpVal(uv) => match spec_cells_inner(h, uv.inner) {
                Some(x) => if h[uv.inner as int].obj is UpValue {
                    depth > 0 && spec_chain_fits(x, h, (depth - 1) as nat)
                } else {
                    true
                },
                None => true,
            },
            _ => true,
        },
        GosValue::Interface(k) => match spec_cells_inner(h, k) {
            Some(x) => if h[k as int].obj is Interface {
                depth > 0 && spec_chain_fits(x, h, (depth - 1) as nat)
            } else {
                true
            },
            None => true,
        },
        GosValue::Named(x, _) => spec_chain_fits(*x, h, depth),
        _ => true,
    }
}

/// Where the chain that starts at a value ends within the depth, a count
/// and a mark do at every greater depth what they do at this one: nothing
/// is passed over because the depth ran out.
pub proof fn lemma_chain_complete(
    v: GosValue,
    h: Seq<GcCell>,
    q: Option<Seq<GcKey>>,
    depth: nat,
    deeper: nat,
)
    requires
        spec_chain_fits(v, h, depth),
        depth <= deeper,
    ensures
        spec_ref_sub_one(v, h, depth) == spec_ref_sub_one(v, h, deeper),
        spec_mark_dirty(v, h, q, depth) == spec_mark_dirty(v, h, q, deeper),
    decreases depth, v,
{
    match v {
        GosValue::Pointer(p) => match *p {
            PointerObj::UpVal(uv) => match spec_cells_inner(h, uv.inner) {
                Some(x) => {
                    if h[uv.inner as int].obj is UpValue {
                        lemma_chain_complete(x, h, q, (depth - 1) as nat, (deeper - 1) as nat);
                    }
                },
                None => {},
            },
            _ => {},
        },
        GosValue::Interface(k) => match spec_cells_inner(h, k) {
            Some(x) => {
                if h[k as int].obj is Interface {
                    lemma_chain_complete(x, h, q, (depth - 1) as nat, (deeper - 1) as nat);
                }
            },
            None => {},
        },
        GosValue::Named(x, _) => {
            lemma_chain_complete(*x, h, q, depth, deeper);
        },
        _ => {},
    }
}

/// What a mark does to the cells does not depend on the queue, and a queue
/// that is unknown stays unknown.
pub proof fn lemma_mark_dirty_unknown(v: GosValue, h: Seq<GcCell>, q: Seq<GcKey>, depth: nat)
    ensures
        spec_mark_dirty(v, h, None, depth).1 is None,
        spec_mark_dirty(v, h, Some(q), depth).0 == spec_mark_dirty(v, h, None, depth).0,
    decreases depth, v,
{
    match v {
        GosValue::Pointer(p) => match *p {
            PointerObj::UpVal(uv) => match spec_cells_inner(h, uv.inner) {
                Some(x) => {
                    if depth > 0 {
                        lemma_mark_dirty_unknown(x, h, q, (depth - 1) as nat);
                    }
                },
                None => {},
            },
            _ => {},
        },
        GosValue::Interface(k) => match spec_cells_inner(h, k) {
            Some(x) => {
                if depth > 0 {
                    lemma_mark_dirty_unknown(x, h, q, (depth - 1) as nat);
                }
            },
            None => {},
        },
        GosValue::Named(x, _) => {
            lemma_mark_dirty_unknown(*x, h, q, depth);
        },
        _ => {},
    }
}

} // verus!
