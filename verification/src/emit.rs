//! The bytecode emitter: loads and stores for each way of addressing a
//! variable, calls, returns, and the guarded call of a package constructor.

use crate::arena::{EntityKey, FunctionKey, IdentKey, PackageKey};
use crate::instruction::{
    fits_imm24, fits_imm8, spec_index_byte, spec_pack824, Instruction, OpIndex, Opcode, ValueType,
};
use crate::objects::{spec_const_index, EntIndex, FuncFlag, FunctionVal, FunctionView};
use crate::value::GosValue;
use vstd::prelude::*;

verus! {

/// How a call is made.
#[derive(Clone, Copy, Debug, PartialEq, Eq, Structural)]
pub enum CallStyle {
    Default,
    Async,
    Defer,
}

/// Whether an indexed target is an element or a struct field.
#[derive(Clone, Copy, Debug, PartialEq, Eq, Structural)]
pub enum IndexSelType {
    Indexing,
    StructField,
}

/// An indexed target: where the container stands on the stack, the index or
/// field number where it is known at compile time, and the kinds of the
/// container and of a computed index.
#[derive(Clone, Copy, Debug, PartialEq, Eq, Structural)]
pub struct IndexSelInfo {
    pub index: i8,
    pub imm_index: Option<OpIndex>,
    pub t1: ValueType,
    pub t2: Option<ValueType>,
    pub typ: IndexSelType,
}

impl IndexSelInfo {
    pub fn new(
        index: i8,
        imm_index: Option<OpIndex>,
        t1: ValueType,
        t2: Option<ValueType>,
        typ: IndexSelType,
    ) -> (r: IndexSelInfo)
        ensures
            r == (IndexSelInfo { index, imm_index, t1, t2, typ }),
    {
        IndexSelInfo { index, imm_index, t1, t2, typ }
    }

    /// The same target with the container at another place of the stack.
    pub fn with_index(&self, i: OpIndex) -> (r: IndexSelInfo)
        requires
            fits_imm8(i),
        ensures
            r == (IndexSelInfo { index: i as i8, ..*self }),
    {
        let mut v = *self;
        v.index = i as i8;
        v
    }

    /// The number of stack slots that the target takes: one for the
    /// container, and one more for a computed index.
    pub fn stack_space(&self) -> (n: OpIndex)
        ensures
            n == if self.t2 is Some {
                2i32
            } else {
                1i32
            },
    {
        if self.t2.is_some() {
            2
        } else {
            1
        }
    }
}

/// The left hand side of an assignment: a variable by its slot, an indexed
/// target, or the target of a pointer that stands on the stack.
#[derive(Clone, Copy, Debug, PartialEq, Eq, Structural)]
pub enum LeftHandSide {
    Primitive(EntIndex),
    IndexSelExpr(IndexSelInfo),
    Deref(OpIndex),
}

/// The right hand side of an assignment, over the expressions of a syntax
/// tree.
pub enum RightHandSide<'a, E> {
    Nothing,
    Values(&'a Vec<E>),
    Range(&'a E),
    SelectRecv(&'a E),
}

/// A reference to a package member whose slot is not known yet: the
/// instruction at `index` of the function's code gets the slot once every
/// package is compiled.
#[derive(Clone, Copy, Debug, PartialEq, Eq, Structural)]
pub struct PkgVarPair {
    pub pkg: PackageKey,
    pub ident: IdentKey,
    pub func: FunctionKey,
    pub index: usize,
    pub is_store: bool,
}

/// The references to package members that wait for their slots.
pub struct PkgVarPairs {
    pub data: Vec<PkgVarPair>,
}

impl PkgVarPairs {
    pub fn new() -> (p: PkgVarPairs)
        ensures
            p.data@.len() == 0,
    {
        PkgVarPairs { data: Vec::new() }
    }

    /// Records one reference.
    pub fn add_pair(
        &mut self,
        pkg: PackageKey,
        ident: IdentKey,
        func: FunctionKey,
        index: usize,
        is_store: bool,
    )
        ensures
            final(self).data@ == old(self).data@.push(
                PkgVarPair { pkg, ident, func, index, is_store },
            ),
    {
        self.data.push(PkgVarPair { pkg, ident, func, index, is_store });
    }
}

/// The instruction that loads a constant: booleans and integers that fit the
/// immediate are pushed without the pool.
pub open spec fn spec_const_load(v: GosValue, slot: OpIndex, typ: ValueType) -> Instruction {
    match v {
        GosValue::Bool(b) => if b {
            Instruction::spec_new(Opcode::PUSH_TRUE, None, None, None, None)
        } else {
            Instruction::spec_new(Opcode::PUSH_FALSE, None, None, None, None)
        },
        GosValue::Int(i) => if i32::MIN <= i <= i32::MAX {
            Instruction::spec_new(Opcode::PUSH_IMM, Some(typ), None, None, Some(i as OpIndex))
        } else {
            Instruction::spec_new(Opcode::PUSH_CONST, Some(typ), None, None, Some(slot))
        },
        _ => Instruction::spec_new(Opcode::PUSH_CONST, Some(typ), None, None, Some(slot)),
    }
}

/// The slot that a type used as a value has in the pool, or gets.
pub open spec fn spec_type_slot(consts: Seq<GosValue>, m: crate::metadata::GosMetadata) -> int {
    match spec_const_index(consts, GosValue::Metadata(m)) {
        Some(i) => i,
        None => consts.len() as int,
    }
}

/// The code of a load.
pub open spec fn spec_load_code(consts: Seq<GosValue>, index: EntIndex, typ: ValueType) -> Seq<
    Instruction,
> {
    match index {
        EntIndex::Const(i) => seq![spec_const_load(consts[i as int], i, typ)],
        EntIndex::LocalVar(i) => seq![
            Instruction::spec_new(Opcode::LOAD_LOCAL, Some(typ), None, None, Some(i)),
        ],
        EntIndex::UpValue(i) => seq![
            Instruction::spec_new(Opcode::LOAD_UPVALUE, Some(typ), None, None, Some(i)),
        ],
        EntIndex::PackageMember(pkg, _) => seq![
            Instruction::spec_new(Opcode::LOAD_PKG_FIELD, Some(typ), None, None, Some(0i32)),
            Instruction::spec_from_u64(pkg@),
        ],
        EntIndex::BuiltInVal(op) => seq![Instruction::spec_new(op, None, None, None, None)],
        EntIndex::BuiltInType(m) => seq![
            Instruction::spec_new(
                Opcode::PUSH_CONST,
                Some(ValueType::Metadata),
                None,
                None,
                Some(spec_type_slot(consts, m) as OpIndex),
            ),
        ],
        EntIndex::Blank => Seq::empty(),
    }
}

/// The pool after a load: a type used as a value is added unless it is
/// there.
pub open spec fn spec_load_consts(consts: Seq<GosValue>, index: EntIndex) -> Seq<GosValue> {
    match index {
        EntIndex::BuiltInType(m) => if spec_const_index(consts, GosValue::Metadata(m)) is Some {
            consts
        } else {
            consts.push(GosValue::Metadata(m))
        },
        _ => consts,
    }
}

/// The cast instruction.
pub open spec fn spec_cast_inst(
    t0: ValueType,
    t1: ValueType,
    t2: Option<ValueType>,
    rhs: OpIndex,
    m_index: OpIndex,
) -> Instruction {
    Instruction {
        imm: spec_pack824(rhs, m_index),
        ..Instruction::spec_new(Opcode::CAST, Some(t0), Some(t1), t2, None)
    }
}

/// Whether a left hand side can be stored to.
pub open spec fn spec_storable(lhs: LeftHandSide) -> bool {
    match lhs {
        LeftHandSide::Primitive(index) => index is LocalVar || index is UpValue
            || index is PackageMember || index is Blank,
        LeftHandSide::IndexSelExpr(info) => info.typ == IndexSelType::StructField
            ==> info.imm_index is Some,
        LeftHandSide::Deref(_) => true,
    }
}

/// The opcode of a store.
pub open spec fn spec_store_op(lhs: LeftHandSide) -> Opcode {
    match lhs {
        LeftHandSide::Primitive(index) => match index {
            EntIndex::UpValue(_) => Opcode::STORE_UPVALUE,
            EntIndex::PackageMember(_, _) => Opcode::STORE_PKG_FIELD,
            _ => Opcode::STORE_LOCAL,
        },
        LeftHandSide::IndexSelExpr(info) => match info.typ {
            IndexSelType::Indexing => if info.imm_index is Some {
                Opcode::STORE_INDEX_IMM
            } else {
                Opcode::STORE_INDEX
            },
            IndexSelType::StructField => Opcode::STORE_STRUCT_FIELD,
        },
        LeftHandSide::Deref(_) => Opcode::STORE_DEREF,
    }
}

/// The 24-bit half of a store's immediate: the slot, the index known at
/// compile time, or the place of the container on the stack.
pub open spec fn spec_store_imm24(lhs: LeftHandSide) -> OpIndex {
    match lhs {
        LeftHandSide::Primitive(index) => match index {
            EntIndex::LocalVar(i) => i,
            EntIndex::UpValue(i) => i,
            _ => 0i32,
        },
        LeftHandSide::IndexSelExpr(info) => match info.imm_index {
            Some(i) => i,
            None => info.index as OpIndex,
        },
        LeftHandSide::Deref(i) => i,
    }
}

/// The second type tag of a store.
pub open spec fn spec_store_t1(lhs: LeftHandSide) -> Option<ValueType> {
    match lhs {
        LeftHandSide::Primitive(index) => if index is PackageMember {
            Some(ValueType::Package)
        } else {
            None
        },
        LeftHandSide::IndexSelExpr(info) => Some(info.t1),
        LeftHandSide::Deref(_) => None,
    }
}

/// The byte in the third tag slot of a store: the kind of a computed index,
/// or the place of the container on the stack where the index is known.
pub open spec fn spec_store_t2(lhs: LeftHandSide) -> u8 {
    match lhs {
        LeftHandSide::IndexSelExpr(info) => if info.imm_index is Some {
            spec_index_byte(info.index)
        } else {
            crate::instruction::spec_tag(info.t2)
        },
        _ => 0u8,
    }
}

/// The 8-bit half of a store's immediate: the operator of a compound
/// assignment, else the place of the right hand side on the stack.
pub open spec fn spec_store_imm8(rhs_index: OpIndex, op: Option<(Opcode, Option<ValueType>)>)
    -> OpIndex {
    match op {
        Some((code, _)) => code.spec_index(),
        None => rhs_index,
    }
}

/// The store instruction.
pub open spec fn spec_store_inst(
    lhs: LeftHandSide,
    rhs_index: OpIndex,
    op: Option<(Opcode, Option<ValueType>)>,
    typ: ValueType,
) -> Instruction {
    Instruction {
        op: spec_store_op(lhs).spec_index() as u8,
        t0: typ.spec_code(),
        t1: crate::instruction::spec_tag(spec_store_t1(lhs)),
        t2: spec_store_t2(lhs),
        imm: spec_pack824(spec_store_imm8(rhs_index, op), spec_store_imm24(lhs)),
    }
}

/// The code of a store: nothing for the blank target; else the store
/// instruction, after a cast that carries the kind of a shift's right
/// operand, and before the raw word of the package's handle.
pub open spec fn spec_store_code(
    lhs: LeftHandSide,
    rhs_index: OpIndex,
    op: Option<(Opcode, Option<ValueType>)>,
    typ: ValueType,
) -> Seq<Instruction> {
    if lhs == LeftHandSide::Primitive(EntIndex::Blank) {
        Seq::empty()
    } else {
        let carry: Seq<Instruction> = match op {
            Some((_, Some(t))) => seq![spec_cast_inst(ValueType::Uint32, t, None, -1i32, 0i32)],
            _ => Seq::empty(),
        };
        let key: Seq<Instruction> = match lhs {
            LeftHandSide::Primitive(EntIndex::PackageMember(pkg, _)) => seq![
                Instruction::spec_from_u64(pkg@),
            ],
            _ => Seq::empty(),
        };
        carry + seq![spec_store_inst(lhs, rhs_index, op, typ)] + key
    }
}

/// The tag that stands for the kind of a function in a return.
pub open spec fn spec_return_flag(flag: FuncFlag) -> ValueType {
    match flag {
        FuncFlag::Default => ValueType::Zero,
        FuncFlag::PkgCtor => ValueType::FlagA,
        FuncFlag::HasDefer => ValueType::FlagB,
    }
}

/// The tag that stands for the style of a call.
pub open spec fn spec_call_flag(style: CallStyle) -> ValueType {
    match style {
        CallStyle::Default => ValueType::Zero,
        CallStyle::Async => ValueType::FlagA,
        CallStyle::Defer => ValueType::FlagB,
    }
}

/// The code of an import: the import instruction, a jump over the four
/// instructions that follow unless the package still has to be initialised,
/// and those four, which load the package's constructor and call it.
pub open spec fn spec_import_code(index: OpIndex, pkg: PackageKey) -> Seq<Instruction> {
    seq![
        Instruction::spec_new(Opcode::IMPORT, None, None, None, Some(index)),
        Instruction::spec_new(Opcode::JUMP_IF_NOT, None, None, None, Some(4i32)),
        Instruction::spec_new(Opcode::LOAD_PKG_FIELD, Some(ValueType::Int), None, None, Some(0i32)),
        Instruction::spec_from_u64(pkg@),
        Instruction::spec_new(Opcode::PRE_CALL, Some(ValueType::Closure), None, None, None),
        Instruction::spec_new(Opcode::CALL, None, None, None, None),
    ]
}

/// The source position table after `n` instructions at one position.
pub open spec fn spec_pos_after(old_pos: Seq<Option<usize>>, n: nat, pos: Option<usize>) -> Seq<
    Option<usize>,
> {
    old_pos + Seq::new(n, |i: int| pos)
}

/// The entity of each local slot that a parameter list takes: a field
/// without names takes one slot without an entity, a field with names one
/// slot for each name. The list starts at field `from`.
pub open spec fn spec_param_slots(fields: Seq<Vec<Option<EntityKey>>>, from: int) -> Seq<
    Option<EntityKey>,
>
    decreases fields.len() - from,
{
    if from < 0 || from >= fields.len() {
        Seq::empty()
    } else if fields[from]@.len() == 0 {
        seq![None::<EntityKey>] + spec_param_slots(fields, from + 1)
    } else {
        fields[from]@ + spec_param_slots(fields, from + 1)
    }
}

/// Unfolds `spec_param_slots` once.
pub proof fn lemma_param_slots_split(fields: Seq<Vec<Option<EntityKey>>>, from: int)
    ensures
        0 <= from < fields.len() ==> spec_param_slots(fields, from) == (if fields[from]@.len()
            == 0 {
            seq![None::<EntityKey>]
        } else {
            fields[from]@
        }) + spec_param_slots(fields, from + 1),
        from >= fields.len() ==> spec_param_slots(fields, from).len() == 0,
{
}

/// The function after one local slot was given out for each entry.
pub open spec fn spec_add_locals(f: FunctionView, slots: Seq<Option<EntityKey>>) -> FunctionView
    decreases slots.len(),
{
    if slots.len() == 0 {
        f
    } else {
        let prev = spec_add_locals(f, slots.drop_last());
        FunctionView {
            local_alloc: (prev.local_alloc + 1) as u16,
            entities: match slots.last() {
                Some(key) => prev.entities.insert(
                    key@,
                    EntIndex::LocalVar(prev.local_alloc as OpIndex),
                ),
                None => prev.entities,
            },
            ..prev
        }
    }
}

/// Whether a local slot can be given out for each entry: the slots do not
/// run out, and no entity is bound twice.
pub open spec fn spec_can_add_locals(f: FunctionView, slots: Seq<Option<EntityKey>>) -> bool {
    &&& f.local_alloc + slots.len() <= u16::MAX
    &&& forall|i: int|
        0 <= i < slots.len() ==> (#[trigger] slots[i] matches Some(key)
            ==> !f.entities.contains_key(key@))
    &&& forall|i: int, j: int|
        0 <= i < j < slots.len() ==> (slots[i] is Some && slots[j] is Some
            ==> slots[i].unwrap()@ != slots[j].unwrap()@)
}

/// After the first `n` slots were given out, the next one can be.
pub proof fn lemma_add_locals_step(f: FunctionView, slots: Seq<Option<EntityKey>>, n: int)
    requires
        spec_can_add_locals(f, slots),
        0 <= n < slots.len(),
    ensures
        spec_add_locals(f, slots.subrange(0, n)).local_alloc == f.local_alloc + n,
        spec_add_locals(f, slots.subrange(0, n)).local_alloc < u16::MAX,
        slots[n] matches Some(key) ==> !spec_add_locals(
            f,
            slots.subrange(0, n),
        ).entities.contains_key(key@),
        spec_add_locals(f, slots.subrange(0, n + 1)) == (FunctionView {
            local_alloc: (f.local_alloc + n + 1) as u16,
            entities: match slots[n] {
                Some(key) => spec_add_locals(f, slots.subrange(0, n)).entities.insert(
                    key@,
                    EntIndex::LocalVar((f.local_alloc + n) as OpIndex),
                ),
                None => spec_add_locals(f, slots.subrange(0, n)).entities,
            },
            ..spec_add_locals(f, slots.subrange(0, n))
        }),
{
    lemma_add_locals_prefix(f, slots, n);
    assert(slots.subrange(0, n + 1).drop_last() =~= slots.subrange(0, n));
    assert(slots.subrange(0, n + 1).last() == slots[n]);
}

/// What giving out the first `n` slots changed.
pub proof fn lemma_add_locals_prefix(f: FunctionView, slots: Seq<Option<EntityKey>>, n: int)
    requires
        spec_can_add_locals(f, slots),
        0 <= n <= slots.len(),
    ensures
        spec_add_locals(f, slots.subrange(0, n)).local_alloc == f.local_alloc + n,
        forall|k: u64| #[trigger]
            spec_add_locals(f, slots.subrange(0, n)).entities.contains_key(k)
                ==> f.entities.contains_key(k) || exists|i: int|
                0 <= i < n && slots[i] is Some && slots[i].unwrap()@ == k,
    decreases n,
{
    if n > 0 {
        lemma_add_locals_prefix(f, slots, n - 1);
        assert(slots.subrange(0, n).drop_last() =~= slots.subrange(0, n - 1));
        assert(slots.subrange(0, n).last() == slots[n - 1]);
    }
}

/// Emits code into one function.
pub struct Emitter<'a> {
    pub f: &'a mut FunctionVal,
}

impl<'a> Emitter<'a> {
    pub fn new(f: &'a mut FunctionVal) -> (e: Emitter<'a>)
        ensures
            *e.f == *old(f),
            *final(f) == *final(e.f),
    {
        Emitter { f }
    }

    /// The slot of a constant in the function's pool.
    pub fn add_const(&mut self, entity: Option<EntityKey>, cst: GosValue) -> (r: EntIndex)
        requires
            old(self).f@.consts.len() < i32::MAX,
            entity matches Some(key) ==> spec_const_index(old(self).f@.consts, cst) is Some
                || !old(self).f@.entities.contains_key(key@),
        ensures
            match spec_const_index(old(self).f@.consts, cst) {
                Some(i) => r == EntIndex::Const(i as OpIndex) && final(self).f@ == old(self).f@,
                None => r == EntIndex::Const(old(self).f@.consts.len() as OpIndex)
                    && final(self).f@ == (FunctionView {
                    consts: old(self).f@.consts.push(cst),
                    entities: match entity {
                        Some(key) => old(self).f@.entities.insert(key@, r),
                        None => old(self).f@.entities,
                    },
                    ..old(self).f@
                }),
            },
            r is Const,
            spec_const_index(final(self).f@.consts, cst) == Some(r->Const_0 as int),
            *final(final(self).f) == *final(old(self).f),
    {
        self.f.add_const(entity, cst)
    }

    /// Appends a cast. Both halves of the immediate must fit.
    pub fn emit_cast(
        &mut self,
        t0: ValueType,
        t1: ValueType,
        t2: Option<ValueType>,
        rhs: OpIndex,
        m_index: OpIndex,
        pos: Option<usize>,
    )
        requires
            fits_imm8(rhs),
            fits_imm24(m_index),
        ensures
            final(self).f@ == (FunctionView {
                code: old(self).f@.code.push(spec_cast_inst(t0, t1, t2, rhs, m_index)),
                pos: old(self).f@.pos.push(pos),
                ..old(self).f@
            }),
            *final(final(self).f) == *final(old(self).f),
    {
        let mut inst = Instruction::new(Opcode::CAST, Some(t0), Some(t1), t2, None);
        inst.set_imm824(rhs, m_index);
        self.f.push_inst_pos(inst, pos);
    }

    /// Appends the removal of `count` values from the stack.
    pub fn emit_pop(&mut self, count: OpIndex, pos: Option<usize>)
        ensures
            final(self).f@ == (FunctionView {
                code: old(self).f@.code.push(
                    Instruction::spec_new(Opcode::POP, None, None, None, Some(count)),
                ),
                pos: old(self).f@.pos.push(pos),
                ..old(self).f@
            }),
            *final(final(self).f) == *final(old(self).f),
    {
        self.f.emit_inst(Opcode::POP, [None, None, None], Some(count), pos);
    }

    /// Appends the load of a struct field by its number.
    pub fn emit_load_struct_field(&mut self, imm: OpIndex, typ: ValueType, pos: Option<usize>)
        ensures
            final(self).f@ == (FunctionView {
                code: old(self).f@.code.push(
                    Instruction::spec_new(
                        Opcode::LOAD_STRUCT_FIELD,
                        Some(typ),
                        None,
                        None,
                        Some(imm),
                    ),
                ),
                pos: old(self).f@.pos.push(pos),
                ..old(self).f@
            }),
            *final(final(self).f) == *final(old(self).f),
    {
        self.f.emit_inst(Opcode::LOAD_STRUCT_FIELD, [Some(typ), None, None], Some(imm), pos);
    }

    /// Appends the load of an element by a computed index; the third tag
    /// slot says whether the result comes with an ok flag.
    pub fn emit_load_index(
        &mut self,
        typ: ValueType,
        index_type: ValueType,
        comma_ok: bool,
        pos: Option<usize>,
    )
        ensures
            final(self).f@ == (FunctionView {
                code: old(self).f@.code.push(
                    Instruction {
                        t2: if comma_ok {
                            1u8
                        } else {
                            0u8
                        },
                        ..Instruction::spec_new(
                            Opcode::LOAD_INDEX,
                            Some(typ),
                            Some(index_type),
                            None,
                            None,
                        )
                    },
                ),
                pos: old(self).f@.pos.push(pos),
                ..old(self).f@
            }),
            *final(final(self).f) == *final(old(self).f),
    {
        let mut inst = Instruction::new(
            Opcode::LOAD_INDEX,
            Some(typ),
            Some(index_type),
            None,
            None,
        );
        inst.set_t2_with_index(
            if comma_ok {
                1
            } else {
                0
            },
        );
        self.f.push_inst_pos(inst, pos);
    }

    /// Appends the load of an element by an index known at compile time.
    pub fn emit_load_index_imm(
        &mut self,
        imm: OpIndex,
        typ: ValueType,
        comma_ok: bool,
        pos: Option<usize>,
    )
        ensures
            final(self).f@ == (FunctionView {
                code: old(self).f@.code.push(
                    Instruction {
                        t2: if comma_ok {
                            1u8
                        } else {
                            0u8
                        },
                        ..Instruction::spec_new(
                            Opcode::LOAD_INDEX_IMM,
                            Some(typ),
                            None,
                            None,
                            Some(imm),
                        )
                    },
                ),
                pos: old(self).f@.pos.push(pos),
                ..old(self).f@
            }),
            *final(final(self).f) == *final(old(self).f),
    {
        let mut inst = Instruction::new(Opcode::LOAD_INDEX_IMM, Some(typ), None, None, Some(imm));
        inst.set_t2_with_index(
            if comma_ok {
                1
            } else {
                0
            },
        );
        self.f.push_inst_pos(inst, pos);
    }

    /// Appends a return; the first tag slot carries the kind of the
    /// function.
    pub fn emit_return(&mut self, pkg_index: Option<OpIndex>, pos: Option<usize>)
        ensures
            final(self).f@ == (FunctionView {
                code: old(self).f@.code.push(
                    Instruction::spec_new(
                        Opcode::RETURN,
                        Some(spec_return_flag(old(self).f@.flag)),
                        None,
                        None,
                        pkg_index,
                    ),
                ),
                pos: old(self).f@.pos.push(pos),
                ..old(self).f@
            }),
            *final(final(self).f) == *final(old(self).f),
    {
        let inst_flag = match self.f.flag() {
            FuncFlag::Default => ValueType::Zero,
            FuncFlag::PkgCtor => ValueType::FlagA,
            FuncFlag::HasDefer => ValueType::FlagB,
        };
        self.f.emit_inst(Opcode::RETURN, [Some(inst_flag), None, None], pkg_index, pos);
    }

    /// Appends the preparation of a call.
    pub fn emit_pre_call(&mut self, pos: Option<usize>)
        ensures
            final(self).f@ == (FunctionView {
                code: old(self).f@.code.push(
                    Instruction::spec_new(Opcode::PRE_CALL, None, None, None, None),
                ),
                pos: old(self).f@.pos.push(pos),
                ..old(self).f@
            }),
            *final(final(self).f) == *final(old(self).f),
    {
        self.f.emit_inst(Opcode::PRE_CALL, [None, None, None], None, pos);
    }

    /// Appends a call; the first tag slot carries the style, the second one
    /// whether the arguments are packed.
    pub fn emit_call(&mut self, style: CallStyle, pack: bool, pos: Option<usize>)
        ensures
            final(self).f@ == (FunctionView {
                code: old(self).f@.code.push(
                    Instruction::spec_new(
                        Opcode::CALL,
                        Some(spec_call_flag(style)),
                        if pack {
                            Some(ValueType::FlagA)
                        } else {
                            None
                        },
                        None,
                        None,
                    ),
                ),
                pos: old(self).f@.pos.push(pos),
                ..old(self).f@
            }),
            *final(final(self).f) == *final(old(self).f),
    {
        let style_flag = match style {
            CallStyle::Default => ValueType::Zero,
            CallStyle::Async => ValueType::FlagA,
            CallStyle::Defer => ValueType::FlagB,
        };
        let pack_flag = if pack {
            Some(ValueType::FlagA)
        } else {
            None
        };
        self.f.emit_inst(Opcode::CALL, [Some(style_flag), pack_flag, None], None, pos);
    }

    /// Appends the making of a composite literal.
    pub fn emit_literal(&mut self, typ: ValueType, index: OpIndex, pos: Option<usize>)
        ensures
            final(self).f@ == (FunctionView {
                code: old(self).f@.code.push(
                    Instruction::spec_new(Opcode::LITERAL, Some(typ), None, None, Some(index)),
                ),
                pos: old(self).f@.pos.push(pos),
                ..old(self).f@
            }),
            *final(final(self).f) == *final(old(self).f),
    {
        self.f.emit_inst(Opcode::LITERAL, [Some(typ), None, None], Some(index), pos);
    }

    /// Appends the push of an immediate.
    pub fn emit_push_imm(&mut self, typ: ValueType, imm: OpIndex, pos: Option<usize>)
        ensures
            final(self).f@ == (FunctionView {
                code: old(self).f@.code.push(
                    Instruction::spec_new(Opcode::PUSH_IMM, Some(typ), None, None, Some(imm)),
                ),
                pos: old(self).f@.pos.push(pos),
                ..old(self).f@
            }),
            *final(final(self).f) == *final(old(self).f),
    {
        self.f.emit_inst(Opcode::PUSH_IMM, [Some(typ), None, None], Some(imm), pos);
    }

    /// Appends the code that loads a variable, a constant, a built-in value
    /// or a type. A load of a package member takes two words, and the
    /// position of the first one is recorded for patching.
    pub fn emit_load(
        &mut self,
        index: EntIndex,
        patch_info: Option<(&mut PkgVarPairs, FunctionKey)>,
        typ: ValueType,
        pos: Option<usize>,
    )
        requires
            index !is Blank,
            index matches EntIndex::Const(i) ==> 0 <= i < old(self).f@.consts.len(),
            index is PackageMember ==> patch_info is Some,
            index is BuiltInType ==> old(self).f@.consts.len() < i32::MAX,
        ensures
            final(self).f@ == (FunctionView {
                code: old(self).f@.code + spec_load_code(old(self).f@.consts, index, typ),
                pos: spec_pos_after(
                    old(self).f@.pos,
                    spec_load_code(old(self).f@.consts, index, typ).len(),
                    pos,
                ),
                consts: spec_load_consts(old(self).f@.consts, index),
                ..old(self).f@
            }),
            *final(final(self).f) == *final(old(self).f),
            patch_info matches Some((pairs, func)) ==> final(pairs).data@ == match index {
                EntIndex::PackageMember(pkg, ident) => pairs.data@.push(
                    PkgVarPair {
                        pkg,
                        ident,
                        func,
                        index: old(self).f@.code.len() as usize,
                        is_store: false,
                    },
                ),
                _ => pairs.data@,
            },
    {
        let ghost before = self.f@;
        match index {
            EntIndex::Const(i) => {
                self.emit_load_const(i, typ, pos);
            },
            EntIndex::LocalVar(i) => {
                self.f.emit_inst(Opcode::LOAD_LOCAL, [Some(typ), None, None], Some(i), pos);
            },
            EntIndex::UpValue(i) => {
                self.f.emit_inst(Opcode::LOAD_UPVALUE, [Some(typ), None, None], Some(i), pos);
            },
            EntIndex::PackageMember(pkg, ident) => {
                self.f.emit_inst(Opcode::LOAD_PKG_FIELD, [Some(typ), None, None], Some(0), pos);
                self.f.emit_raw_inst(crate::arena::key_to_u64(pkg), pos);
                match patch_info {
                    Some((pairs, func)) => {
                        pairs.add_pair(pkg, ident, func, self.f.code().len() - 2, false);
                    },
                    None => {},
                }
            },
            EntIndex::BuiltInVal(op) => {
                self.f.emit_code(op, pos);
            },
            EntIndex::BuiltInType(m) => {
                let slot = self.f.add_const(None, GosValue::Metadata(m));
                match slot {
                    EntIndex::Const(i) => {
                        self.emit_load_const(i, ValueType::Metadata, pos);
                    },
                    _ => {},
                }
            },
            EntIndex::Blank => {},
        }
        proof {
            let code = spec_load_code(before.consts, index, typ);
            assert(self.f@.code =~= before.code + code);
            assert(self.f@.pos =~= spec_pos_after(before.pos, code.len(), pos));
        }
    }

    /// Appends the load of the constant in a slot of the pool.
    fn emit_load_const(&mut self, i: OpIndex, typ: ValueType, pos: Option<usize>)
        requires
            0 <= i < old(self).f@.consts.len(),
        ensures
            final(self).f@ == (FunctionView {
                code: old(self).f@.code.push(
                    spec_const_load(old(self).f@.consts[i as int], i, typ),
                ),
                pos: old(self).f@.pos.push(pos),
                ..old(self).f@
            }),
            *final(final(self).f) == *final(old(self).f),
    {
        let imm: Option<OpIndex> = match self.f.const_val(i) {
            GosValue::Int(v) => if -0x8000_0000 <= *v && *v <= 0x7fff_ffff {
                Some(*v as OpIndex)
            } else {
                None
            },
            _ => None,
        };
        let flag: Option<bool> = match self.f.const_val(i) {
            GosValue::Bool(b) => Some(*b),
            _ => None,
        };
        match (flag, imm) {
            (Some(true), _) => self.f.emit_code(Opcode::PUSH_TRUE, pos),
            (Some(false), _) => self.f.emit_code(Opcode::PUSH_FALSE, pos),
            (None, Some(v)) => self.emit_push_imm(typ, v, pos),
            (None, None) => self.f.emit_inst(
                Opcode::PUSH_CONST,
                [Some(typ), None, None],
                Some(i),
                pos,
            ),
        }
    }

    /// Appends the code that stores the value at `rhs_index` of the stack to
    /// a left hand side, or that applies the operator of a compound
    /// assignment to it. Storing to the blank target emits nothing.
    pub fn emit_store(
        &mut self,
        lhs: &LeftHandSide,
        rhs_index: OpIndex,
        op: Option<(Opcode, Option<ValueType>)>,
        patch_info: Option<(&mut PkgVarPairs, FunctionKey)>,
        typ: ValueType,
        pos: Option<usize>,
    )
        requires
            spec_storable(*lhs),
            *lhs != LeftHandSide::Primitive(EntIndex::Blank) ==> {
                &&& rhs_index == -1 || op is None
                &&& fits_imm8(rhs_index)
                &&& fits_imm24(spec_store_imm24(*lhs))
                &&& *lhs matches LeftHandSide::Primitive(EntIndex::PackageMember(_, _))
                    ==> patch_info is Some
            },
        ensures
            final(self).f@ == (FunctionView {
                code: old(self).f@.code + spec_store_code(*lhs, rhs_index, op, typ),
                pos: spec_pos_after(
                    old(self).f@.pos,
                    spec_store_code(*lhs, rhs_index, op, typ).len(),
                    pos,
                ),
                ..old(self).f@
            }),
            *final(final(self).f) == *final(old(self).f),
            patch_info matches Some((pairs, func)) ==> final(pairs).data@ == match *lhs {
                LeftHandSide::Primitive(EntIndex::PackageMember(pkg, ident)) => pairs.data@.push(
                    PkgVarPair {
                        pkg,
                        ident,
                        func,
                        index: (old(self).f@.code.len() + spec_store_code(
                            *lhs,
                            rhs_index,
                            op,
                            typ,
                        ).len() - 2) as usize,
                        is_store: true,
                    },
                ),
                _ => pairs.data@,
            },
    {
        let ghost before = self.f@;
        if let LeftHandSide::Primitive(index) = lhs {
            if EntIndex::Blank == *index {
                proof {
                    assert(self.f@.code =~= before.code + spec_store_code(
                        *lhs,
                        rhs_index,
                        op,
                        typ,
                    ));
                    assert(self.f@.pos =~= spec_pos_after(before.pos, 0, pos));
                }
                return ;
            }
        }
        let mut pkg_info: Option<(PackageKey, IdentKey)> = None;
        let (code, int32, t1, t2, int8): (
            Opcode,
            OpIndex,
            Option<ValueType>,
            Option<ValueType>,
            Option<i8>,
        ) = match lhs {
            LeftHandSide::Primitive(index) => match index {
                EntIndex::LocalVar(i) => (Opcode::STORE_LOCAL, *i, None, None, None),
                EntIndex::UpValue(i) => (Opcode::STORE_UPVALUE, *i, None, None, None),
                EntIndex::PackageMember(pkg, ident) => {
                    pkg_info = Some((*pkg, *ident));
                    (Opcode::STORE_PKG_FIELD, 0, Some(ValueType::Package), None, None)
                },
                _ => vstd::pervasive::unreached(),
            },
            LeftHandSide::IndexSelExpr(info) => match info.typ {
                IndexSelType::Indexing => match info.imm_index {
                    Some(i) => (Opcode::STORE_INDEX_IMM, i, Some(info.t1), None, Some(info.index)),
                    None => (Opcode::STORE_INDEX, info.index as i32, Some(info.t1), info.t2, None),
                },
                IndexSelType::StructField => match info.imm_index {
                    Some(i) => (
                        Opcode::STORE_STRUCT_FIELD,
                        i,
                        Some(info.t1),
                        None,
                        Some(info.index),
                    ),
                    None => vstd::pervasive::unreached(),
                },
            },
            LeftHandSide::Deref(i) => (Opcode::STORE_DEREF, *i, None, None, None),
        };
        let mut inst = Instruction::new(code, Some(typ), t1, t2, None);
        if let Some(i) = int8 {
            inst.set_t2_with_index(i);
        }
        let imm0: OpIndex = match op {
            Some((code, shift_t)) => {
                if let Some(t) = shift_t {
                    // The store has no tag slot left for the kind of a
                    // shift's right operand: a cast in front carries it.
                    self.emit_cast(ValueType::Uint32, t, None, -1, 0, pos);
                }
                Instruction::code2index(code)
            },
            None => rhs_index,
        };
        inst.set_imm824(imm0, int32);
        assert(inst == spec_store_inst(*lhs, rhs_index, op, typ));
        self.f.push_inst_pos(inst, pos);
        if let Some((pkg, ident)) = pkg_info {
            self.f.emit_raw_inst(crate::arena::key_to_u64(pkg), pos);
            match patch_info {
                Some((pairs, func)) => {
                    pairs.add_pair(pkg, ident, func, self.f.code().len() - 2, true);
                },
                None => {},
            }
        }
        proof {
            let emitted = spec_store_code(*lhs, rhs_index, op, typ);
            assert(self.f@.code =~= before.code + emitted);
            assert(self.f@.pos =~= spec_pos_after(before.pos, emitted.len(), pos));
        }
    }

    /// Appends the code of an import: the package's constructor is called
    /// only where the import instruction leaves "still to be initialised" on
    /// the stack.
    pub fn emit_import(&mut self, index: OpIndex, pkg: PackageKey, pos: Option<usize>)
        ensures
            final(self).f@ == (FunctionView {
                code: old(self).f@.code + spec_import_code(index, pkg),
                pos: spec_pos_after(old(self).f@.pos, 6, pos),
                ..old(self).f@
            }),
            *final(final(self).f) == *final(old(self).f),
    {
        let ghost before = self.f@;
        self.f.emit_inst(Opcode::IMPORT, [None, None, None], Some(index), pos);
        let mut cd: Vec<Instruction> = Vec::new();
        cd.push(Instruction::new(Opcode::LOAD_PKG_FIELD, Some(ValueType::Int), None, None, Some(0)));
        cd.push(Instruction::from_u64(crate::arena::key_to_u64(pkg)));
        cd.push(Instruction::new(Opcode::PRE_CALL, Some(ValueType::Closure), None, None, None));
        cd.push(Instruction::new(Opcode::CALL, None, None, None, None));
        let offset = cd.len() as OpIndex;
        self.f.emit_inst(Opcode::JUMP_IF_NOT, [None, None, None], Some(offset), pos);
        let mut k: usize = 0;
        proof {
            assert(self.f@.code =~= before.code + spec_import_code(index, pkg).subrange(0, 2));
            assert(self.f@.pos =~= spec_pos_after(before.pos, 2, pos));
        }
        while k < cd.len()
            invariant
                k <= cd@.len(),
                cd@.len() == 4,
                self.f@ == (FunctionView {
                    code: before.code + spec_import_code(index, pkg).subrange(0, 2 + k as int),
                    pos: spec_pos_after(before.pos, (2 + k) as nat, pos),
                    ..before
                }),
                forall|j: int| 0 <= j < 4 ==> cd@[j] == spec_import_code(index, pkg)[j + 2],
                *final(self.f) == *final(old(self).f),
            decreases cd@.len() - k,
        {
            self.f.push_inst_pos(cd[k], pos);
            proof {
                assert(self.f@.code =~= before.code + spec_import_code(index, pkg).subrange(
                    0,
                    3 + k as int,
                ));
                assert(self.f@.pos =~= spec_pos_after(before.pos, (3 + k) as nat, pos));
            }
            k += 1;
        }
        proof {
            assert(spec_import_code(index, pkg).subrange(0, 6) =~= spec_import_code(index, pkg));
        }
    }

    /// Gives each parameter a local slot: one for a field without a name,
    /// one for each name of a field with names. Returns the number of slots.
    pub fn add_params(&mut self, fields: &Vec<Vec<Option<EntityKey>>>) -> (n: usize)
        requires
            spec_can_add_locals(old(self).f@, spec_param_slots(fields@, 0)),
        ensures
            n == spec_param_slots(fields@, 0).len(),
            final(self).f@ == spec_add_locals(old(self).f@, spec_param_slots(fields@, 0)),
            *final(final(self).f) == *final(old(self).f),
    {
        let ghost before = self.f@;
        let ghost all = spec_param_slots(fields@, 0);
        let mut count: usize = 0;
        let mut i: usize = 0;
        proof {
            assert(all.subrange(0, 0) =~= Seq::<Option<EntityKey>>::empty());
        }
        while i < fields.len()
            invariant
                i <= fields@.len(),
                all == spec_param_slots(fields@, 0),
                count + spec_param_slots(fields@, i as int).len() == all.len(),
                forall|k: int|
                    0 <= k < spec_param_slots(fields@, i as int).len() ==> all[count + k]
                        == #[trigger] spec_param_slots(fields@, i as int)[k],
                self.f@ == spec_add_locals(before, all.subrange(0, count as int)),
                spec_can_add_locals(before, all),
                *final(self.f) == *final(old(self).f),
            decreases fields@.len() - i,
        {
            let names = &fields[i];
            let ghost here = spec_param_slots(fields@, i as int);
            let ghost rest = spec_param_slots(fields@, i + 1);
            proof {
                lemma_param_slots_split(fields@, i as int);
            }
            if names.len() == 0 {
                proof {
                    lemma_add_locals_step(before, all, count as int);
                    assert(here[0] == None::<EntityKey>);
                    assert(all[count as int] == here[0]);
                    assert forall|k: int| 0 <= k < rest.len() implies all[count + 1 + k]
                        == #[trigger] rest[k] by {
                        assert(here[k + 1] == rest[k]);
                    }
                }
                self.f.add_local(None);
                count += 1;
            } else {
                let mut j: usize = 0;
                let ghost base = count;
                proof {
                    assert forall|k: int| 0 <= k < names@.len() implies all[base + k]
                        == #[trigger] names@[k] by {
                        assert(here[k] == names@[k]);
                    }
                    assert forall|k: int| 0 <= k < rest.len() implies all[base + names@.len() + k]
                        == #[trigger] rest[k] by {
                        assert(here[names@.len() + k] == rest[k]);
                    }
                }
                while j < names.len()
                    invariant
                        j <= names@.len(),
                        count == base + j,
                        base + names@.len() + rest.len() == all.len(),
                        forall|k: int|
                            0 <= k < names@.len() ==> all[base + k] == #[trigger] names@[k],
                        self.f@ == spec_add_locals(before, all.subrange(0, count as int)),
                        spec_can_add_locals(before, all),
                        *final(self.f) == *final(old(self).f),
                    decreases names@.len() - j,
                {
                    proof {
                        lemma_add_locals_step(before, all, count as int);
                        assert(all[base + j] == names@[j as int]);
                    }
                    self.f.add_local(names[j]);
                    count += 1;
                    j += 1;
                }
            }
            i += 1;
        }
        proof {
            lemma_param_slots_split(fields@, i as int);
            assert(all.subrange(0, count as int) =~= all);
        }
        count
    }
}

} // verus!
