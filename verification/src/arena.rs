//! Handles of the arenas, and the arenas of type definitions, functions and
//! packages. An arena only grows: a handle that it gave out stays valid.

use crate::metadata::MetadataType;
use crate::objects::{FunctionVal, PackageVal};
use vstd::prelude::*;

verus! {

/// Weight of the version half of a handle's 64 bits.
pub const VERSION_UNIT: u64 = 0x1_0000_0000;

/// Initial capacity of each arena.
pub const DEFAULT_CAPACITY: usize = 128;

/// Largest number of values that an arena takes.
pub const ARENA_LIMIT: u32 = 0xffff_fffe;

/// Whether 64 bits are the form in which an arena hands out a handle: the
/// version half is odd.
pub open spec fn spec_canonical(bits: u64) -> bool {
    (bits / VERSION_UNIT) % 2 == 1
}

/// The handle that an arena reads out of any 64 bits: the version half is
/// made odd, the index half is kept.
pub open spec fn spec_canon(bits: u64) -> u64 {
    if spec_canonical(bits) {
        bits
    } else {
        (bits + VERSION_UNIT) as u64
    }
}

/// Reading a handle out of bits that are one changes nothing, and reading
/// twice gives what reading once gave.
pub proof fn lemma_canon_idempotent(bits: u64)
    ensures
        spec_canonical(spec_canon(bits)),
        spec_canon(spec_canon(bits)) == spec_canon(bits),
        spec_canonical(bits) ==> spec_canon(bits) == bits,
{
}

/// An arena that holds a value under some handle holds at least one value.
pub proof fn lemma_holder_not_empty<V>(held: Map<u64, V>, k: u64)
    requires
        held.dom().finite(),
        held.contains_key(k),
    ensures
        held.dom().len() >= 1,
{
    vstd::set_lib::lemma_set_empty_equivalency_len(held.dom());
}

/// A handle of one of the arenas, as 64 bits.
pub trait ArenaKey: Sized {
    /// The 64 bits of the handle.
    spec fn spec_bits(&self) -> u64;

    fn bits(&self) -> (r: u64)
        ensures
            r == self.spec_bits(),
            spec_canonical(r),
    ;

    fn from_canonical(bits: u64) -> (r: Self)
        requires
            spec_canonical(bits),
        ensures
            r.spec_bits() == bits,
    ;
}

/// Handle of a type definition.
#[derive(Clone, Copy, Debug, PartialEq, Eq, Structural, Hash)]
pub struct MetadataKey {
    bits: u64,
}

impl MetadataKey {
    #[verifier::type_invariant]
    spec fn inv(self) -> bool {
        spec_canonical(self.bits)
    }
}

impl View for MetadataKey {
    type V = u64;

    closed spec fn view(&self) -> u64 {
        self.bits
    }
}

impl ArenaKey for MetadataKey {
    open spec fn spec_bits(&self) -> u64 {
        self@
    }

    fn bits(&self) -> (r: u64) {
        proof {
            use_type_invariant(self);
        }
        self.bits
    }

    fn from_canonical(bits: u64) -> (r: Self) {
        MetadataKey { bits }
    }
}

/// Handle of a compiled function.
#[derive(Clone, Copy, Debug, PartialEq, Eq, Structural, Hash)]
pub struct FunctionKey {
    bits: u64,
}

impl FunctionKey {
    #[verifier::type_invariant]
    spec fn inv(self) -> bool {
        spec_canonical(self.bits)
    }
}

impl View for FunctionKey {
    type V = u64;

    closed spec fn view(&self) -> u64 {
        self.bits
    }
}

impl ArenaKey for FunctionKey {
    open spec fn spec_bits(&self) -> u64 {
        self@
    }

    fn bits(&self) -> (r: u64) {
        proof {
            use_type_invariant(self);
        }
        self.bits
    }

    fn from_canonical(bits: u64) -> (r: Self) {
        FunctionKey { bits }
    }
}

/// Handle of a package.
#[derive(Clone, Copy, Debug, PartialEq, Eq, Structural, Hash)]
pub struct PackageKey {
    bits: u64,
}

impl PackageKey {
    #[verifier::type_invariant]
    spec fn inv(self) -> bool {
        spec_canonical(self.bits)
    }
}

impl View for PackageKey {
    type V = u64;

    closed spec fn view(&self) -> u64 {
        self.bits
    }
}

impl ArenaKey for PackageKey {
    open spec fn spec_bits(&self) -> u64 {
        self@
    }

    fn bits(&self) -> (r: u64) {
        proof {
            use_type_invariant(self);
        }
        self.bits
    }

    fn from_canonical(bits: u64) -> (r: Self) {
        PackageKey { bits }
    }
}

/// Handle of an entity that an identifier was resolved to.
#[derive(Clone, Copy, Debug, PartialEq, Eq, Structural, Hash)]
pub struct EntityKey {
    bits: u64,
}

impl EntityKey {
    #[verifier::type_invariant]
    spec fn inv(self) -> bool {
        spec_canonical(self.bits)
    }
}

impl View for EntityKey {
    type V = u64;

    closed spec fn view(&self) -> u64 {
        self.bits
    }
}

impl ArenaKey for EntityKey {
    open spec fn spec_bits(&self) -> u64 {
        self@
    }

    fn bits(&self) -> (r: u64) {
        proof {
            use_type_invariant(self);
        }
        self.bits
    }

    fn from_canonical(bits: u64) -> (r: Self) {
        EntityKey { bits }
    }
}

/// Handle of an identifier of the syntax tree.
#[derive(Clone, Copy, Debug, PartialEq, Eq, Structural, Hash)]
pub struct IdentKey {
    bits: u64,
}

impl IdentKey {
    #[verifier::type_invariant]
    spec fn inv(self) -> bool {
        spec_canonical(self.bits)
    }
}

impl View for IdentKey {
    type V = u64;

    closed spec fn view(&self) -> u64 {
        self.bits
    }
}

impl ArenaKey for IdentKey {
    open spec fn spec_bits(&self) -> u64 {
        self@
    }

    fn bits(&self) -> (r: u64) {
        proof {
            use_type_invariant(self);
        }
        self.bits
    }

    fn from_canonical(bits: u64) -> (r: Self) {
        IdentKey { bits }
    }
}

/// `slotmap::KeyData::from_ffi` and then `as_ffi` on what it gave: the
/// handle that the arenas read out of 64 bits. `from_ffi` keeps the low 32
/// bits as the index and sets the lowest bit of the upper 32 as the version;
/// `as_ffi` puts the two halves together again.
#[verifier::external_body]
fn canon_bits(u: u64) -> (r: u64)
    ensures
        r == spec_canon(u),
{
    slotmap::KeyData::from_ffi(u).as_ffi()
}

/// The 64 bits of a handle.
pub fn key_to_u64<K: ArenaKey>(key: K) -> (u: u64)
    ensures
        u == key.spec_bits(),
        spec_canonical(u),
{
    key.bits()
}

/// The handle that 64 bits stand for. Bits that came from `key_to_u64` give
/// the same handle back.
pub fn u64_to_key<K: ArenaKey>(u: u64) -> (key: K)
    ensures
        key.spec_bits() == spec_canon(u),
{
    let bits = canon_bits(u);
    K::from_canonical(bits)
}

/// The arena of type definitions: a `slotmap::DenseSlotMap`. Verus does not look
/// inside; `metas_map` names what it holds.
#[verifier::external_body]
pub struct MetadataObjs {
    inner: slotmap::DenseSlotMap<slotmap::DefaultKey, MetadataType>,
}

/// What the arena of type definitions holds, by the 64 bits of each handle.
pub uninterp spec fn metas_map(m: MetadataObjs) -> Map<u64, MetadataType>;

impl View for MetadataObjs {
    type V = Map<u64, MetadataType>;

    open spec fn view(&self) -> Map<u64, MetadataType> {
        metas_map(*self)
    }
}

/// `DenseSlotMap::with_capacity_and_key`: an arena that holds nothing. What
/// an arena holds is finitely many values. What
/// an arena holds is finitely many values. What
/// an arena holds is finitely many values.
#[verifier::external_body]
fn metas_with_capacity(capacity: usize) -> (m: MetadataObjs)
    requires
        capacity < usize::MAX,
    ensures
        metas_map(m).dom().finite(),
        metas_map(m).dom() == Set::<u64>::empty(),
        metas_map(m).dom().len() == 0,
{
    MetadataObjs { inner: slotmap::DenseSlotMap::with_capacity_and_key(capacity) }
}

/// `DenseSlotMap::len`: the number of values held. It never exceeds
/// `u32::MAX - 1`, the number at which `insert` stops to take values.
#[verifier::external_body]
fn metas_len(m: &MetadataObjs) -> (n: usize)
    ensures
        n == metas_map(*m).dom().len(),
        n <= ARENA_LIMIT,
{
    m.inner.len()
}

/// `DenseSlotMap::insert`: stores the value under a handle that held nothing
/// before and returns the handle; what was held stays. It panics when the
/// arena holds `u32::MAX - 1` values.
#[verifier::external_body]
fn metas_insert(m: &mut MetadataObjs, v: MetadataType) -> (k: MetadataKey)
    requires
        metas_map(*old(m)).dom().len() < ARENA_LIMIT,
    ensures
        !metas_map(*old(m)).dom().contains(k@),
        metas_map(*final(m)) == metas_map(*old(m)).insert(k@, v),
        metas_map(*final(m)).dom().finite(),
        metas_map(*final(m)).dom().len() == metas_map(*old(m)).dom().len() + 1,
{
    let key = m.inner.insert(v);
    MetadataKey { bits: slotmap::KeyData::from(key).as_ffi() }
}

/// `DenseSlotMap::get`: the value under the handle, if it holds one.
#[verifier::external_body]
fn metas_get(m: &MetadataObjs, k: MetadataKey) -> (r: Option<&MetadataType>)
    ensures
        r == if metas_map(*m).dom().contains(k@) {
            Some(&metas_map(*m)[k@])
        } else {
            None
        },
{
    m.inner.get(slotmap::KeyData::from_ffi(k.bits).into())
}

/// `DenseSlotMap::index_mut`: the value under a handle that holds one, to be
/// changed in place; the other values stay.
#[verifier::external_body]
fn metas_index_mut(m: &mut MetadataObjs, k: MetadataKey) -> (r: &mut MetadataType)
    requires
        metas_map(*old(m)).dom().contains(k@),
    ensures
        *r == metas_map(*old(m))[k@],
        metas_map(*final(m)) == metas_map(*old(m)).insert(k@, *final(r)),
        metas_map(*final(m)).dom().finite(),
{
    &mut m.inner[slotmap::KeyData::from_ffi(k.bits).into()]
}

impl MetadataObjs {
    /// The number of values held.
    pub open spec fn spec_len(&self) -> nat {
        self@.dom().len()
    }

    /// Whether the handle holds a value.
    pub open spec fn spec_contains(&self, k: MetadataKey) -> bool {
        self@.dom().contains(k@)
    }

    /// The value under a handle.
    pub open spec fn spec_index(&self, k: MetadataKey) -> MetadataType
        recommends
            self.spec_contains(k),
    {
        self@[k@]
    }

    /// An arena that holds nothing, with room for `capacity` values.
    pub fn with_capacity(capacity: usize) -> (m: MetadataObjs)
        requires
            capacity < usize::MAX,
        ensures
            m@ == Map::<u64, MetadataType>::empty(),
            m@.dom().finite(),
            m.spec_len() == 0,
    {
        let m = metas_with_capacity(capacity);
        assert(m@ =~= Map::<u64, MetadataType>::empty());
        m
    }

    pub fn len(&self) -> (n: usize)
        ensures
            n == self.spec_len(),
            n <= ARENA_LIMIT,
    {
        metas_len(self)
    }

    /// Stores a value and returns its handle, which held nothing before.
    pub fn insert(&mut self, v: MetadataType) -> (k: MetadataKey)
        requires
            old(self).spec_len() < ARENA_LIMIT,
        ensures
            !old(self).spec_contains(k),
            final(self)@ == old(self)@.insert(k@, v),
            final(self).spec_len() == old(self).spec_len() + 1,
            final(self)@.dom().finite(),
    {
        metas_insert(self, v)
    }

    /// The value under a handle, if it holds one.
    pub fn get(&self, k: MetadataKey) -> (r: Option<&MetadataType>)
        ensures
            r is Some <==> self.spec_contains(k),
            r matches Some(v) ==> *v == self.spec_index(k),
    {
        metas_get(self, k)
    }

    #[verifier::when_used_as_spec(spec_contains)]
    pub fn contains_key(&self, k: MetadataKey) -> (b: bool)
        ensures
            b == self.spec_contains(k),
    {
        metas_get(self, k).is_some()
    }

    /// The value under a handle that holds one, to be changed in place.
    pub fn get_mut(&mut self, k: MetadataKey) -> (r: &mut MetadataType)
        requires
            old(self).spec_contains(k),
        ensures
            *r == old(self).spec_index(k),
            final(self)@ == old(self)@.insert(k@, *final(r)),
            final(self)@.dom().finite(),
            final(self).spec_len() == old(self).spec_len(),
    {
        proof {
            assert(old(self)@.dom().insert(k@) =~= old(self)@.dom());
        }
        metas_index_mut(self, k)
    }
}

/// The arena of compiled functions: a `slotmap::DenseSlotMap`. Verus does not look
/// inside; `functions_map` names what it holds.
#[verifier::external_body]
pub struct FunctionObjs {
    inner: slotmap::DenseSlotMap<slotmap::DefaultKey, FunctionVal>,
}

/// What the arena of compiled functions holds, by the 64 bits of each handle.
pub uninterp spec fn functions_map(m: FunctionObjs) -> Map<u64, FunctionVal>;

impl View for FunctionObjs {
    type V = Map<u64, FunctionVal>;

    open spec fn view(&self) -> Map<u64, FunctionVal> {
        functions_map(*self)
    }
}

/// `DenseSlotMap::with_capacity_and_key`: an arena that holds nothing. What
/// an arena holds is finitely many values. What
/// an arena holds is finitely many values. What
/// an arena holds is finitely many values.
#[verifier::external_body]
fn functions_with_capacity(capacity: usize) -> (m: FunctionObjs)
    requires
        capacity < usize::MAX,
    ensures
        functions_map(m).dom().finite(),
        functions_map(m).dom() == Set::<u64>::empty(),
        functions_map(m).dom().len() == 0,
{
    FunctionObjs { inner: slotmap::DenseSlotMap::with_capacity_and_key(capacity) }
}

/// `DenseSlotMap::len`: the number of values held. It never exceeds
/// `u32::MAX - 1`, the number at which `insert` stops to take values.
#[verifier::external_body]
fn functions_len(m: &FunctionObjs) -> (n: usize)
    ensures
        n == functions_map(*m).dom().len(),
        n <= ARENA_LIMIT,
{
    m.inner.len()
}

/// `DenseSlotMap::insert`: stores the value under a handle that held nothing
/// before and returns the handle; what was held stays. It panics when the
/// arena holds `u32::MAX - 1` values.
#[verifier::external_body]
fn functions_insert(m: &mut FunctionObjs, v: FunctionVal) -> (k: FunctionKey)
    requires
        functions_map(*old(m)).dom().len() < ARENA_LIMIT,
    ensures
        !functions_map(*old(m)).dom().contains(k@),
        functions_map(*final(m)) == functions_map(*old(m)).insert(k@, v),
        functions_map(*final(m)).dom().finite(),
        functions_map(*final(m)).dom().len() == functions_map(*old(m)).dom().len() + 1,
{
    let key = m.inner.insert(v);
    FunctionKey { bits: slotmap::KeyData::from(key).as_ffi() }
}

/// `DenseSlotMap::get`: the value under the handle, if it holds one.
#[verifier::external_body]
fn functions_get(m: &FunctionObjs, k: FunctionKey) -> (r: Option<&FunctionVal>)
    ensures
        r == if functions_map(*m).dom().contains(k@) {
            Some(&functions_map(*m)[k@])
        } else {
            None
        },
{
    m.inner.get(slotmap::KeyData::from_ffi(k.bits).into())
}

/// `DenseSlotMap::index_mut`: the value under a handle that holds one, to be
/// changed in place; the other values stay.
#[verifier::external_body]
fn functions_index_mut(m: &mut FunctionObjs, k: FunctionKey) -> (r: &mut FunctionVal)
    requires
        functions_map(*old(m)).dom().contains(k@),
    ensures
        *r == functions_map(*old(m))[k@],
        functions_map(*final(m)) == functions_map(*old(m)).insert(k@, *final(r)),
        functions_map(*final(m)).dom().finite(),
{
    &mut m.inner[slotmap::KeyData::from_ffi(k.bits).into()]
}

impl FunctionObjs {
    /// The number of values held.
    pub open spec fn spec_len(&self) -> nat {
        self@.dom().len()
    }

    /// Whether the handle holds a value.
    pub open spec fn spec_contains(&self, k: FunctionKey) -> bool {
        self@.dom().contains(k@)
    }

    /// The value under a handle.
    pub open spec fn spec_index(&self, k: FunctionKey) -> FunctionVal
        recommends
            self.spec_contains(k),
    {
        self@[k@]
    }

    /// An arena that holds nothing, with room for `capacity` values.
    pub fn with_capacity(capacity: usize) -> (m: FunctionObjs)
        requires
            capacity < usize::MAX,
        ensures
            m@ == Map::<u64, FunctionVal>::empty(),
            m@.dom().finite(),
            m.spec_len() == 0,
    {
        let m = functions_with_capacity(capacity);
        assert(m@ =~= Map::<u64, FunctionVal>::empty());
        m
    }

    pub fn len(&self) -> (n: usize)
        ensures
            n == self.spec_len(),
            n <= ARENA_LIMIT,
    {
        functions_len(self)
    }

    /// Stores a value and returns its handle, which held nothing before.
    pub fn insert(&mut self, v: FunctionVal) -> (k: FunctionKey)
        requires
            old(self).spec_len() < ARENA_LIMIT,
        ensures
            !old(self).spec_contains(k),
            final(self)@ == old(self)@.insert(k@, v),
            final(self).spec_len() == old(self).spec_len() + 1,
            final(self)@.dom().finite(),
    {
        functions_insert(self, v)
    }

    /// The value under a handle, if it holds one.
    pub fn get(&self, k: FunctionKey) -> (r: Option<&FunctionVal>)
        ensures
            r is Some <==> self.spec_contains(k),
            r matches Some(v) ==> *v == self.spec_index(k),
    {
        functions_get(self, k)
    }

    #[verifier::when_used_as_spec(spec_contains)]
    pub fn contains_key(&self, k: FunctionKey) -> (b: bool)
        ensures
            b == self.spec_contains(k),
    {
        functions_get(self, k).is_some()
    }

    /// The value under a handle that holds one, to be changed in place.
    pub fn get_mut(&mut self, k: FunctionKey) -> (r: &mut FunctionVal)
        requires
            old(self).spec_contains(k),
        ensures
            *r == old(self).spec_index(k),
            final(self)@ == old(self)@.insert(k@, *final(r)),
            final(self)@.dom().finite(),
            final(self).spec_len() == old(self).spec_len(),
    {
        proof {
            assert(old(self)@.dom().insert(k@) =~= old(self)@.dom());
        }
        functions_index_mut(self, k)
    }
}

/// The arena of packages: a `slotmap::DenseSlotMap`. Verus does not look
/// inside; `packages_map` names what it holds.
#[verifier::external_body]
pub struct PackageObjs {
    inner: slotmap::DenseSlotMap<slotmap::DefaultKey, PackageVal>,
}

/// What the arena of packages holds, by the 64 bits of each handle.
pub uninterp spec fn packages_map(m: PackageObjs) -> Map<u64, PackageVal>;

impl View for PackageObjs {
    type V = Map<u64, PackageVal>;

    open spec fn view(&self) -> Map<u64, PackageVal> {
        packages_map(*self)
    }
}

/// `DenseSlotMap::with_capacity_and_key`: an arena that holds nothing. What
/// an arena holds is finitely many values. What
/// an arena holds is finitely many values. What
/// an arena holds is finitely many values.
#[verifier::external_body]
fn packages_with_capacity(capacity: usize) -> (m: PackageObjs)
    requires
        capacity < usize::MAX,
    ensures
        packages_map(m).dom().finite(),
        packages_map(m).dom() == Set::<u64>::empty(),
        packages_map(m).dom().len() == 0,
{
    PackageObjs { inner: slotmap::DenseSlotMap::with_capacity_and_key(capacity) }
}

/// `DenseSlotMap::len`: the number of values held. It never exceeds
/// `u32::MAX - 1`, the number at which `insert` stops to take values.
#[verifier::external_body]
fn packages_len(m: &PackageObjs) -> (n: usize)
    ensures
        n == packages_map(*m).dom().len(),
        n <= ARENA_LIMIT,
{
    m.inner.len()
}

/// `DenseSlotMap::insert`: stores the value under a handle that held nothing
/// before and returns the handle; what was held stays. It panics when the
/// arena holds `u32::MAX - 1` values.
#[verifier::external_body]
fn packages_insert(m: &mut PackageObjs, v: PackageVal) -> (k: PackageKey)
    requires
        packages_map(*old(m)).dom().len() < ARENA_LIMIT,
    ensures
        !packages_map(*old(m)).dom().contains(k@),
        packages_map(*final(m)) == packages_map(*old(m)).insert(k@, v),
        packages_map(*final(m)).dom().finite(),
        packages_map(*final(m)).dom().len() == packages_map(*old(m)).dom().len() + 1,
{
    let key = m.inner.insert(v);
    PackageKey { bits: slotmap::KeyData::from(key).as_ffi() }
}

/// `DenseSlotMap::get`: the value under the handle, if it holds one.
#[verifier::external_body]
fn packages_get(m: &PackageObjs, k: PackageKey) -> (r: Option<&PackageVal>)
    ensures
        r == if packages_map(*m).dom().contains(k@) {
            Some(&packages_map(*m)[k@])
        } else {
            None
        },
{
    m.inner.get(slotmap::KeyData::from_ffi(k.bits).into())
}

/// `DenseSlotMap::index_mut`: the value under a handle that holds one, to be
/// changed in place; the other values stay.
#[verifier::external_body]
fn packages_index_mut(m: &mut PackageObjs, k: PackageKey) -> (r: &mut PackageVal)
    requires
        packages_map(*old(m)).dom().contains(k@),
    ensures
        *r == packages_map(*old(m))[k@],
        packages_map(*final(m)) == packages_map(*old(m)).insert(k@, *final(r)),
        packages_map(*final(m)).dom().finite(),
{
    &mut m.inner[slotmap::KeyData::from_ffi(k.bits).into()]
}

impl PackageObjs {
    /// The number of values held.
    pub open spec fn spec_len(&self) -> nat {
        self@.dom().len()
    }

    /// Whether the handle holds a value.
    pub open spec fn spec_contains(&self, k: PackageKey) -> bool {
        self@.dom().contains(k@)
    }

    /// The value under a handle.
    pub open spec fn spec_index(&self, k: PackageKey) -> PackageVal
        recommends
            self.spec_contains(k),
    {
        self@[k@]
    }

    /// An arena that holds nothing, with room for `capacity` values.
    pub fn with_capacity(capacity: usize) -> (m: PackageObjs)
        requires
            capacity < usize::MAX,
        ensures
            m@ == Map::<u64, PackageVal>::empty(),
            m@.dom().finite(),
            m.spec_len() == 0,
    {
        let m = packages_with_capacity(capacity);
        assert(m@ =~= Map::<u64, PackageVal>::empty());
        m
    }

    pub fn len(&self) -> (n: usize)
        ensures
            n == self.spec_len(),
            n <= ARENA_LIMIT,
    {
        packages_len(self)
    }

    /// Stores a value and returns its handle, which held nothing before.
    pub fn insert(&mut self, v: PackageVal) -> (k: PackageKey)
        requires
            old(self).spec_len() < ARENA_LIMIT,
        ensures
            !old(self).spec_contains(k),
            final(self)@ == old(self)@.insert(k@, v),
            final(self).spec_len() == old(self).spec_len() + 1,
            final(self)@.dom().finite(),
    {
        packages_insert(self, v)
    }

    /// The value under a handle, if it holds one.
    pub fn get(&self, k: PackageKey) -> (r: Option<&PackageVal>)
        ensures
            r is Some <==> self.spec_contains(k),
            r matches Some(v) ==> *v == self.spec_index(k),
    {
        packages_get(self, k)
    }

    #[verifier::when_used_as_spec(spec_contains)]
    pub fn contains_key(&self, k: PackageKey) -> (b: bool)
        ensures
            b == self.spec_contains(k),
    {
        packages_get(self, k).is_some()
    }

    /// The value under a handle that holds one, to be changed in place.
    pub fn get_mut(&mut self, k: PackageKey) -> (r: &mut PackageVal)
        requires
            old(self).spec_contains(k),
        ensures
            *r == old(self).spec_index(k),
            final(self)@ == old(self)@.insert(k@, *final(r)),
            final(self)@.dom().finite(),
            final(self).spec_len() == old(self).spec_len(),
    {
        proof {
            assert(old(self)@.dom().insert(k@) =~= old(self)@.dom());
        }
        packages_index_mut(self, k)
    }
}

} // verus!
