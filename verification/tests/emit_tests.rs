use goscript::arena::{key_to_u64, u64_to_key, EntityKey, FunctionKey, IdentKey, PackageKey};
use goscript::emit::{
    CallStyle, Emitter, IndexSelInfo, IndexSelType, LeftHandSide, PkgVarPairs,
};
use goscript::instruction::{Instruction, Opcode, ValueType};
use goscript::metadata::GosMetadata;
use goscript::objects::{EntIndex, FuncFlag, FunctionVal};
use goscript::value::GosValue;

fn empty_function(flag: FuncFlag) -> FunctionVal {
    let pkg: PackageKey = u64_to_key(1);
    FunctionVal::with_signature(pkg, GosMetadata::Untyped, Vec::new(), 0, flag)
}

#[test]
fn instruction_word_round_trip() {
    let inst = Instruction::new(Opcode::PUSH_IMM, Some(ValueType::Int), None, None, Some(-5));
    let u = inst.to_u64();
    assert_eq!(Instruction::from_u64(u), inst);
    assert_eq!(inst.imm(), -5);
    assert_eq!(inst.op(), Some(Opcode::PUSH_IMM));
    assert_eq!(inst.t0(), Some(ValueType::Int));
    assert_eq!(inst.t1(), None);
    assert_eq!(u >> 56, Instruction::code2index(Opcode::PUSH_IMM) as u64);
    assert_eq!(u & 0xffff_ffff, 0xffff_fffb);
    for raw in [0u64, 1, 0x1_0000_0005, u64::MAX, 0x8000_0000, 0xdead_beef_0123_4567] {
        assert_eq!(Instruction::from_u64(raw).to_u64(), raw);
    }
}

#[test]
fn instruction_split_immediate() {
    let mut inst = Instruction::new(Opcode::STORE_LOCAL, None, None, None, None);
    inst.set_imm824(-1, 70000);
    assert_eq!(inst.imm824(), (-1, 70000));
    inst.set_imm824(127, -8388608);
    assert_eq!(inst.imm824(), (127, -8388608));
    inst.set_imm824(-128, 8388607);
    assert_eq!(inst.imm824(), (-128, 8388607));
    inst.set_imm824(0, 0);
    assert_eq!(inst.imm(), 0);
    inst.set_t2_with_index(-3);
    assert_eq!(inst.t2_as_index(), -3);
    inst.set_t2_with_index(100);
    assert_eq!(inst.t2_as_index(), 100);
    assert_eq!(Instruction::index2code(Instruction::code2index(Opcode::ZERO)), Some(Opcode::ZERO));
    assert_eq!(Instruction::index2code(-1), None);
    assert_eq!(Instruction::index2code(1000), None);
    assert_eq!(ValueType::from_code(ValueType::FlagE.code()), Some(ValueType::FlagE));
    assert_eq!(ValueType::from_code(0), None);
}

#[test]
fn literal_five_twice_shares_a_slot_and_is_pushed_as_immediate() {
    let mut f = empty_function(FuncFlag::Default);
    let mut e = Emitter::new(&mut f);
    let first = e.add_const(None, GosValue::Int(5));
    let second = e.add_const(None, GosValue::Int(5));
    assert_eq!(first, EntIndex::Const(0));
    assert_eq!(second, first);
    e.emit_load(first, None, ValueType::Int, Some(3));
    e.emit_load(second, None, ValueType::Int, Some(4));
    let push = Instruction::new(Opcode::PUSH_IMM, Some(ValueType::Int), None, None, Some(5));
    assert_eq!(f.code().as_slice(), &[push, push]);
    assert_eq!(f.pos().as_slice(), &[Some(3), Some(4)]);
    assert_eq!(f.consts().len(), 1);

    let mut g = empty_function(FuncFlag::Default);
    let mut e = Emitter::new(&mut g);
    e.emit_push_imm(ValueType::Int, 5, None);
    e.emit_push_imm(ValueType::Int, 5, None);
    assert_eq!(g.code().len(), 2);
    assert_eq!(g.consts().len(), 0);
}

#[test]
fn constants_are_shared_by_value() {
    let mut f = empty_function(FuncFlag::Default);
    let a = f.add_const(None, GosValue::new_str("go".to_string()));
    let b = f.add_const(None, GosValue::Int(1 << 40));
    let c = f.add_const(None, GosValue::new_str("go".to_string()));
    let d = f.add_const(None, GosValue::Int(1 << 40));
    let e = f.add_const(None, GosValue::Int64(1 << 40));
    assert_eq!((a, b, c, d, e), (
        EntIndex::Const(0),
        EntIndex::Const(1),
        EntIndex::Const(0),
        EntIndex::Const(1),
        EntIndex::Const(2),
    ));
    assert_eq!(f.get_const_index(&GosValue::Int(1 << 40)), Some(EntIndex::Const(1)));
    assert_eq!(f.get_const_index(&GosValue::Int(7)), None);
    let mut em = Emitter::new(&mut f);
    em.emit_load(b, None, ValueType::Int, None);
    em.emit_load(a, None, ValueType::Str, None);
    assert_eq!(f.code().as_slice(), &[
        Instruction::new(Opcode::PUSH_CONST, Some(ValueType::Int), None, None, Some(1)),
        Instruction::new(Opcode::PUSH_CONST, Some(ValueType::Str), None, None, Some(0)),
    ]);
}

#[test]
fn test_g2case0() {
    // Loads of each addressing mode.
    let mut f = empty_function(FuncFlag::Default);
    let t = f.add_const(None, GosValue::Bool(true));
    let fl = f.add_const(None, GosValue::Bool(false));
    let mut pairs = PkgVarPairs::new();
    let func: FunctionKey = u64_to_key(9);
    let pkg: PackageKey = u64_to_key(0x7_0000_0003);
    let ident: IdentKey = u64_to_key(4);
    let mut e = Emitter::new(&mut f);
    e.emit_load(t, None, ValueType::Bool, None);
    e.emit_load(fl, None, ValueType::Bool, None);
    e.emit_load(EntIndex::LocalVar(2), None, ValueType::Str, None);
    e.emit_load(EntIndex::UpValue(1), None, ValueType::Int, None);
    e.emit_load(EntIndex::BuiltInVal(Opcode::PUSH_NIL), None, ValueType::Zero, None);
    e.emit_load(EntIndex::PackageMember(pkg, ident), Some((&mut pairs, func)), ValueType::Int, Some(8));
    e.emit_load(EntIndex::BuiltInType(GosMetadata::Untyped), None, ValueType::Metadata, None);
    assert_eq!(f.code().as_slice(), &[
        Instruction::new(Opcode::PUSH_TRUE, None, None, None, None),
        Instruction::new(Opcode::PUSH_FALSE, None, None, None, None),
        Instruction::new(Opcode::LOAD_LOCAL, Some(ValueType::Str), None, None, Some(2)),
        Instruction::new(Opcode::LOAD_UPVALUE, Some(ValueType::Int), None, None, Some(1)),
        Instruction::new(Opcode::PUSH_NIL, None, None, None, None),
        Instruction::new(Opcode::LOAD_PKG_FIELD, Some(ValueType::Int), None, None, Some(0)),
        Instruction::from_u64(key_to_u64(pkg)),
        Instruction::new(Opcode::PUSH_CONST, Some(ValueType::Metadata), None, None, Some(2)),
    ]);
    assert_eq!(f.consts().len(), 3);
    assert_eq!(pairs.data.len(), 1);
    assert_eq!(pairs.data[0].index, 5);
    assert!(!pairs.data[0].is_store);
    assert_eq!(pairs.data[0].pkg, pkg);
    assert_eq!(pairs.data[0].ident, ident);
    assert_eq!(pairs.data[0].func, func);
    assert_eq!(f.code()[6].to_u64(), key_to_u64(pkg));
}

#[test]
fn slots_of_addressing_modes() {
    assert_eq!(EntIndex::Const(3).into_index(), 3);
    assert_eq!(EntIndex::LocalVar(-1).into_index(), -1);
    assert_eq!(EntIndex::UpValue(7).into_index(), 7);
}

#[test]
fn test_blankid() {
    let mut f = empty_function(FuncFlag::Default);
    let mut e = Emitter::new(&mut f);
    e.emit_push_imm(ValueType::Int, 1, None);
    e.emit_store(&LeftHandSide::Primitive(EntIndex::Blank), -1, None, None, ValueType::Int, None);
    e.emit_store(
        &LeftHandSide::Primitive(EntIndex::Blank),
        -1,
        Some((Opcode::ADD, None)),
        None,
        ValueType::Int,
        None,
    );
    assert_eq!(f.code().len(), 1);
    assert_eq!(f.pos().len(), 1);
}

fn store_inst(op: Opcode, t0: ValueType, t1: Option<ValueType>, t2: Option<ValueType>, imm0: i32, imm1: i32) -> Instruction {
    let mut inst = Instruction::new(op, Some(t0), t1, t2, None);
    inst.set_imm824(imm0, imm1);
    inst
}

#[test]
fn test_declare() {
    // Declaring locals binds entities to slots; stores go to the slots.
    let mut f = empty_function(FuncFlag::Default);
    let x: EntityKey = u64_to_key(11);
    let y: EntityKey = u64_to_key(12);
    assert_eq!(f.add_local(Some(x)), EntIndex::LocalVar(0));
    assert_eq!(f.add_local(None), EntIndex::LocalVar(1));
    assert_eq!(f.add_local(Some(y)), EntIndex::LocalVar(2));
    assert_eq!(f.entity_index(&x), Some(&EntIndex::LocalVar(0)));
    assert_eq!(f.entity_index(&y), Some(&EntIndex::LocalVar(2)));
    let unknown: EntityKey = u64_to_key(13);
    assert_eq!(f.entity_index(&unknown), None);
    assert_eq!(f.local_count(), 3);
    let mut e = Emitter::new(&mut f);
    e.emit_store(&LeftHandSide::Primitive(EntIndex::LocalVar(2)), -1, None, None, ValueType::Int, None);
    e.emit_store(&LeftHandSide::Primitive(EntIndex::UpValue(4)), -2, None, None, ValueType::Str, None);
    e.emit_store(&LeftHandSide::Deref(-3), -1, None, None, ValueType::Int, None);
    assert_eq!(f.code().as_slice(), &[
        store_inst(Opcode::STORE_LOCAL, ValueType::Int, None, None, -1, 2),
        store_inst(Opcode::STORE_UPVALUE, ValueType::Str, None, None, -2, 4),
        store_inst(Opcode::STORE_DEREF, ValueType::Int, None, None, -1, -3),
    ]);
}

#[test]
fn test_operations() {
    // Compound assignments fold the operator into the store; a shift needs a
    // cast in front that carries the kind of its right operand.
    let mut f = empty_function(FuncFlag::Default);
    let mut e = Emitter::new(&mut f);
    e.emit_store(
        &LeftHandSide::Primitive(EntIndex::LocalVar(1)),
        -1,
        Some((Opcode::ADD, None)),
        None,
        ValueType::Int,
        None,
    );
    e.emit_store(
        &LeftHandSide::Primitive(EntIndex::LocalVar(1)),
        -1,
        Some((Opcode::SHL, Some(ValueType::Uint8))),
        None,
        ValueType::Int,
        Some(7),
    );
    let mut cast = Instruction::new(
        Opcode::CAST,
        Some(ValueType::Uint32),
        Some(ValueType::Uint8),
        None,
        None,
    );
    cast.set_imm824(-1, 0);
    assert_eq!(f.code().as_slice(), &[
        store_inst(Opcode::STORE_LOCAL, ValueType::Int, None, None, Instruction::code2index(Opcode::ADD), 1),
        cast,
        store_inst(Opcode::STORE_LOCAL, ValueType::Int, None, None, Instruction::code2index(Opcode::SHL), 1),
    ]);
    assert_eq!(f.pos().as_slice(), &[None, Some(7), Some(7)]);
    assert_eq!(f.code()[0].imm824().0, Instruction::code2index(Opcode::ADD));
}

#[test]
fn test_composite() {
    // Stores to elements and fields.
    let mut f = empty_function(FuncFlag::Default);
    let mut e = Emitter::new(&mut f);
    let by_imm = IndexSelInfo::new(-2, Some(3), ValueType::Slice, None, IndexSelType::Indexing);
    let by_value = IndexSelInfo::new(-3, None, ValueType::GosMap, Some(ValueType::Str), IndexSelType::Indexing);
    let field = IndexSelInfo::new(-2, Some(1), ValueType::Struct, None, IndexSelType::StructField);
    assert_eq!(by_imm.stack_space(), 1);
    assert_eq!(by_value.stack_space(), 2);
    assert_eq!(by_value.with_index(-5).index, -5);
    e.emit_store(&LeftHandSide::IndexSelExpr(by_imm), -1, None, None, ValueType::Int, None);
    e.emit_store(&LeftHandSide::IndexSelExpr(by_value), -1, None, None, ValueType::Int, None);
    e.emit_store(&LeftHandSide::IndexSelExpr(field), -1, None, None, ValueType::Int, None);
    let mut a = Instruction::new(Opcode::STORE_INDEX_IMM, Some(ValueType::Int), Some(ValueType::Slice), None, None);
    a.set_t2_with_index(-2);
    a.set_imm824(-1, 3);
    let mut b = Instruction::new(
        Opcode::STORE_INDEX,
        Some(ValueType::Int),
        Some(ValueType::GosMap),
        Some(ValueType::Str),
        None,
    );
    b.set_imm824(-1, -3);
    let mut c = Instruction::new(Opcode::STORE_STRUCT_FIELD, Some(ValueType::Int), Some(ValueType::Struct), None, None);
    c.set_t2_with_index(-2);
    c.set_imm824(-1, 1);
    assert_eq!(f.code().as_slice(), &[a, b, c]);
    assert_eq!(f.code()[0].t2_as_index(), -2);
    assert_eq!(f.code()[1].t2(), Some(ValueType::Str));

    let mut e = Emitter::new(&mut f);
    e.emit_load_struct_field(1, ValueType::Int, None);
    e.emit_load_index(ValueType::Slice, ValueType::Int, true, None);
    e.emit_load_index_imm(4, ValueType::Slice, false, None);
    e.emit_literal(ValueType::Slice, 2, None);
    assert_eq!(f.code()[3], Instruction::new(Opcode::LOAD_STRUCT_FIELD, Some(ValueType::Int), None, None, Some(1)));
    assert_eq!(f.code()[4].t2_as_index(), 1);
    assert_eq!(f.code()[4].t1(), Some(ValueType::Int));
    assert_eq!(f.code()[5].t2_as_index(), 0);
    assert_eq!(f.code()[5].imm(), 4);
    assert_eq!(f.code()[6], Instruction::new(Opcode::LITERAL, Some(ValueType::Slice), None, None, Some(2)));
}

#[test]
fn test_pkg() {
    // A store to a package member takes two words and is recorded for
    // patching.
    let mut f = empty_function(FuncFlag::Default);
    let mut pairs = PkgVarPairs::new();
    let func: FunctionKey = u64_to_key(2);
    let pkg: PackageKey = u64_to_key(0x3_0000_0001);
    let ident: IdentKey = u64_to_key(6);
    let mut e = Emitter::new(&mut f);
    e.emit_pop(1, None);
    e.emit_store(
        &LeftHandSide::Primitive(EntIndex::PackageMember(pkg, ident)),
        -1,
        None,
        Some((&mut pairs, func)),
        ValueType::Int,
        None,
    );
    assert_eq!(f.code().as_slice(), &[
        Instruction::new(Opcode::POP, None, None, None, Some(1)),
        store_inst(Opcode::STORE_PKG_FIELD, ValueType::Int, Some(ValueType::Package), None, -1, 0),
        Instruction::from_u64(key_to_u64(pkg)),
    ]);
    assert_eq!(pairs.data.len(), 1);
    assert_eq!(pairs.data[0].index, 1);
    assert!(pairs.data[0].is_store);
    let back: PackageKey = u64_to_key(f.code()[2].to_u64());
    assert_eq!(back, pkg);
}

#[test]
fn test_initorder() {
    // An import calls the package's constructor behind a guard.
    let mut f = empty_function(FuncFlag::PkgCtor);
    let pkg: PackageKey = u64_to_key(0x5_0000_0002);
    let mut e = Emitter::new(&mut f);
    e.emit_import(3, pkg, Some(1));
    e.emit_return(Some(3), Some(2));
    assert_eq!(f.code().as_slice(), &[
        Instruction::new(Opcode::IMPORT, None, None, None, Some(3)),
        Instruction::new(Opcode::JUMP_IF_NOT, None, None, None, Some(4)),
        Instruction::new(Opcode::LOAD_PKG_FIELD, Some(ValueType::Int), None, None, Some(0)),
        Instruction::from_u64(key_to_u64(pkg)),
        Instruction::new(Opcode::PRE_CALL, Some(ValueType::Closure), None, None, None),
        Instruction::new(Opcode::CALL, None, None, None, None),
        Instruction::new(Opcode::RETURN, Some(ValueType::FlagA), None, None, Some(3)),
    ]);
    assert_eq!(f.pos().as_slice(), &[Some(1), Some(1), Some(1), Some(1), Some(1), Some(1), Some(2)]);
    // The jump skips exactly the constructor call.
    let skip = f.code()[1].imm() as usize;
    assert_eq!(f.code()[1 + skip].op(), Some(Opcode::CALL));
    assert!(f.is_ctor());
}

#[test]
fn test_func1() {
    let mut f = empty_function(FuncFlag::Default);
    let a: EntityKey = u64_to_key(1);
    let b: EntityKey = u64_to_key(2);
    let c: EntityKey = u64_to_key(3);
    let params = vec![vec![Some(a), Some(b)], vec![], vec![Some(c)], vec![None]];
    let mut e = Emitter::new(&mut f);
    assert_eq!(e.add_params(&params), 5);
    e.emit_pre_call(None);
    e.emit_call(CallStyle::Default, false, None);
    e.emit_call(CallStyle::Default, true, None);
    e.emit_return(None, None);
    assert_eq!(f.entity_index(&a), Some(&EntIndex::LocalVar(0)));
    assert_eq!(f.entity_index(&b), Some(&EntIndex::LocalVar(1)));
    assert_eq!(f.entity_index(&c), Some(&EntIndex::LocalVar(3)));
    assert_eq!(f.local_count(), 5);
    assert_eq!(f.code().as_slice(), &[
        Instruction::new(Opcode::PRE_CALL, None, None, None, None),
        Instruction::new(Opcode::CALL, Some(ValueType::Zero), None, None, None),
        Instruction::new(Opcode::CALL, Some(ValueType::Zero), Some(ValueType::FlagA), None, None),
        Instruction::new(Opcode::RETURN, Some(ValueType::Zero), None, None, None),
    ]);
    assert_eq!(f.next_code_index(), 4);
    assert_eq!(f.offset(1), 3);
    assert_eq!(f.param_count(), 0);
    assert_eq!(f.ret_count(), 0);
}

#[test]
fn test_async() {
    let mut f = empty_function(FuncFlag::Default);
    let mut e = Emitter::new(&mut f);
    e.emit_call(CallStyle::Async, false, None);
    assert_eq!(f.code()[0].t0(), Some(ValueType::FlagA));
    assert_eq!(f.code()[0].op(), Some(Opcode::CALL));
}

#[test]
fn test_defer() {
    let mut f = empty_function(FuncFlag::HasDefer);
    let mut e = Emitter::new(&mut f);
    e.emit_call(CallStyle::Defer, true, None);
    e.emit_return(None, None);
    assert_eq!(f.code()[0].t0(), Some(ValueType::FlagB));
    assert_eq!(f.code()[0].t1(), Some(ValueType::FlagA));
    assert_eq!(f.code()[1], Instruction::new(Opcode::RETURN, Some(ValueType::FlagB), None, None, None));
    assert!(!f.is_ctor());
}

#[test]
fn test_conversion() {
    let mut f = empty_function(FuncFlag::Default);
    let mut e = Emitter::new(&mut f);
    e.emit_cast(ValueType::Int64, ValueType::Int, Some(ValueType::Uint8), -1, 12, None);
    let inst = f.code()[0];
    assert_eq!(inst.op(), Some(Opcode::CAST));
    assert_eq!((inst.t0(), inst.t1(), inst.t2()), (
        Some(ValueType::Int64),
        Some(ValueType::Int),
        Some(ValueType::Uint8),
    ));
    assert_eq!(inst.imm824(), (-1, 12));
}

#[test]
fn test_goto() {
    // Jumps are emitted first and patched once the target is known.
    let mut f = empty_function(FuncFlag::Default);
    f.emit_code_with_imm(Opcode::JUMP, 0, None);
    let at = f.next_code_index() - 1;
    f.emit_code(Opcode::PUSH_NIL, None);
    f.emit_code_with_type(Opcode::NOT, ValueType::Bool, None);
    let distance = f.offset(at + 1);
    f.instruction_mut(at).set_imm(distance);
    assert_eq!(f.code()[0], Instruction::new(Opcode::JUMP, None, None, None, Some(2)));
    assert_eq!(f.code()[2], Instruction::new(Opcode::NOT, Some(ValueType::Bool), None, None, None));
}

#[test]
fn test_if() {
    let mut f = empty_function(FuncFlag::Default);
    f.emit_code_with_type2(Opcode::EQL, ValueType::Int, Some(ValueType::Int), None);
    f.emit_code_with_type_imm(Opcode::JUMP_IF_NOT, ValueType::Bool, 1, Some(9));
    f.emit_code_with_flag_imm(Opcode::LOAD_INDEX_IMM, true, 2, None);
    f.emit_raw_inst(77, None);
    assert_eq!(f.code()[0], Instruction::new(Opcode::EQL, Some(ValueType::Int), Some(ValueType::Int), None, None));
    assert_eq!(f.code()[1], Instruction::new(Opcode::JUMP_IF_NOT, Some(ValueType::Bool), None, None, Some(1)));
    assert_eq!(f.code()[2].t2_as_index(), 1);
    assert_eq!(f.code()[2].imm(), 2);
    assert_eq!(f.code()[3].to_u64(), 77);
    assert_eq!(f.pos()[1], Some(9));
}
