use goscript::arena::u64_to_key;
use goscript::emit::Emitter;
use goscript::gc::{GcObj, GcoVec, RCQueue};
use goscript::instruction::{Instruction, Opcode, ValueType};
use goscript::metadata::{GosMetadata, MetaCategory};
use goscript::objects::{
    ArrayObj, FuncFlag, FunctionVal, MapObj, PointerObj, SliceObj, StringObj, StructObj, UpValue,
};
use goscript::value::{GosValue, F32, F64};

fn ints(v: &[isize]) -> Vec<GosValue> {
    v.iter().map(|x| GosValue::Int(*x)).collect()
}

fn as_ints(v: &[GosValue]) -> Vec<isize> {
    v.iter()
        .map(|x| match x {
            GosValue::Int(i) => *i,
            other => panic!("not an int: {:?}", other),
        })
        .collect()
}

fn handle(v: &GosValue) -> usize {
    match v {
        GosValue::Array(k) | GosValue::Slice(k) | GosValue::GosMap(k) | GosValue::Struct(k) => *k,
        other => panic!("no composite: {:?}", other),
    }
}

#[test]
fn values_are_the_same_by_kind_and_content() {
    let a = GosValue::new_str("abc".to_string());
    let b = GosValue::Str(StringObj::with_str("xabcx".to_string()).slice(1, 4));
    assert!(a.identical(&b));
    assert!(b.identical(&a));
    assert!(a.identical(&a.clone()));
    assert!(!a.identical(&GosValue::new_str("abd".to_string())));
    assert!(!GosValue::Int(1).identical(&GosValue::Int64(1)));
    assert!(!GosValue::Int(1).identical(&GosValue::Uint(1)));
    assert!(GosValue::Float64(F64 { bits: 5 }).identical(&GosValue::Float64(F64 { bits: 5 })));
    assert!(!GosValue::Float32(F32 { bits: 0 }).identical(&GosValue::Float32(F32 { bits: 1 << 31 })));
    assert!(GosValue::Complex64(F32 { bits: 1 }, F32 { bits: 2 })
        .identical(&GosValue::Complex64(F32 { bits: 1 }, F32 { bits: 2 })));
    assert!(!GosValue::Complex128(F64 { bits: 1 }, F64 { bits: 2 })
        .identical(&GosValue::Complex128(F64 { bits: 2 }, F64 { bits: 1 })));
    assert!(GosValue::Slice(3).identical(&GosValue::Slice(3)));
    assert!(!GosValue::Slice(3).identical(&GosValue::Slice(4)));
    assert!(!GosValue::Slice(3).identical(&GosValue::Array(3)));
    let m = GosMetadata::NonPtr(u64_to_key(1), MetaCategory::Default);
    let n = GosMetadata::NonPtr(u64_to_key(2), MetaCategory::Default);
    assert!(GosValue::Named(Box::new(a.clone()), m).identical(&GosValue::Named(Box::new(b.clone()), m)));
    assert!(!GosValue::Named(Box::new(a.clone()), m).identical(&GosValue::Named(Box::new(b.clone()), n)));
    assert!(!GosValue::Named(Box::new(a.clone()), m).identical(&a));
    let p = GosValue::Pointer(Box::new(PointerObj::SliceMember(1, 2)));
    assert!(p.identical(&p.clone()));
    assert!(!p.identical(&GosValue::Pointer(Box::new(PointerObj::SliceMember(1, 3)))));
    assert!(GosValue::Function(u64_to_key(3)).identical(&GosValue::Function(u64_to_key(3))));
    assert!(GosValue::Metadata(m).identical(&GosValue::Metadata(m)));
    assert!(!GosValue::Package(u64_to_key(3)).identical(&GosValue::Package(u64_to_key(4))));
}

#[test]
fn deep_copy_of_a_plain_value_is_the_value() {
    let mut gcos = GcoVec::new();
    let before = gcos.len();
    for v in [
        GosValue::Int(7),
        GosValue::Bool(true),
        GosValue::new_str("s".to_string()),
        GosValue::Nil(GosMetadata::Untyped),
        GosValue::Pointer(Box::new(PointerObj::Released)),
        GosValue::Channel(3),
        GosValue::Closure(1),
        GosValue::Interface(2),
        GosValue::Array(55),
    ] {
        assert!(v.deep_clone(&mut gcos).identical(&v));
        assert!(v.copy_semantic(&mut gcos).identical(&v));
    }
    assert_eq!(gcos.len(), before);
}

#[test]
fn test_g2case3() {
    // Changing a deep copy leaves the copied value as it was, however deep.
    let mut gcos = GcoVec::new();
    let inner = ArrayObj::with_data(ints(&[1, 2]), GosMetadata::Untyped, &mut gcos);
    let inner_v = GosValue::new_array(inner, &mut gcos);
    let s = SliceObj::with_data(vec![inner_v.clone(), GosValue::Int(9)], GosMetadata::Untyped, &mut gcos);
    let s_v = GosValue::slice_with_obj(s, &mut gcos);
    let st = GosValue::new_struct(
        StructObj { meta: GosMetadata::Untyped, fields: vec![s_v.clone(), GosValue::new_str("x".to_string())] },
        &mut gcos,
    );
    let named = GosValue::Named(Box::new(st.clone()), GosMetadata::Untyped);
    let cells_before = gcos.len();

    let copy = named.deep_clone(&mut gcos);
    let copy_struct = match &copy {
        GosValue::Named(inner, _) => handle(inner),
        other => panic!("not named: {:?}", other),
    };
    assert!(copy_struct >= cells_before);
    let copy_slice = handle(&gcos.struct_obj(copy_struct).unwrap().fields[0]);
    assert!(copy_slice >= cells_before);
    let copy_slice_obj = *gcos.slice(copy_slice).unwrap();
    assert!(copy_slice_obj.vec().unwrap() >= cells_before);
    let copy_inner = handle(&copy_slice_obj.get(0, &gcos).unwrap());
    assert!(copy_inner >= cells_before);
    let copy_inner_obj = *gcos.array(copy_inner).unwrap();
    assert!(copy_inner_obj.vec >= cells_before);
    assert_eq!(as_ints(copy_inner_obj.borrow_data(&gcos)), vec![1, 2]);

    copy_inner_obj.set(0, GosValue::Int(100), &mut gcos);
    copy_slice_obj.set(1, GosValue::Int(200), &mut gcos);
    gcos_struct_set(&mut gcos, copy_struct);
    assert_eq!(as_ints(inner.borrow_data(&gcos)), vec![1, 2]);
    assert!(matches!(s.get(1, &gcos), Some(GosValue::Int(9))));
    assert_eq!(gcos.struct_obj(handle(&st)).unwrap().fields.len(), 2);
    assert_eq!(as_ints(copy_inner_obj.borrow_data(&gcos)), vec![100, 2]);

    // The other way round too.
    inner.set(1, GosValue::Int(-2), &mut gcos);
    assert_eq!(as_ints(copy_inner_obj.borrow_data(&gcos)), vec![100, 2]);
}

fn gcos_struct_set(gcos: &mut GcoVec, k: usize) {
    let p = PointerObj::Struct(k, GosMetadata::Untyped);
    let empty = GosValue::new_struct(StructObj { meta: GosMetadata::Untyped, fields: vec![] }, gcos);
    p.set_local_ref_type(empty, gcos);
    assert!(gcos.struct_obj(k).unwrap().fields.is_empty());
}

#[test]
fn a_name_around_a_value_costs_the_copy_no_depth() {
    // Two cells: a struct whose one field is a named struct.
    let mut gcos = GcoVec::new();
    let inner = GosValue::new_struct(
        StructObj { meta: GosMetadata::Untyped, fields: ints(&[1]) },
        &mut gcos,
    );
    let mut field = inner.clone();
    for _ in 0..5 {
        field = GosValue::Named(Box::new(field), GosMetadata::Untyped);
    }
    let outer = GosValue::new_struct(
        StructObj { meta: GosMetadata::Untyped, fields: vec![field] },
        &mut gcos,
    );
    assert_eq!(gcos.len(), 2);
    let copy = outer.deep_clone(&mut gcos);
    let mut at = gcos.struct_obj(handle(&copy)).unwrap().fields[0].clone();
    let mut names = 0;
    while let GosValue::Named(x, _) = at {
        at = *x;
        names += 1;
    }
    assert_eq!(names, 5);
    let copied_inner = handle(&at);
    assert_ne!(copied_inner, handle(&inner));
    gcos_struct_set(&mut gcos, copied_inner);
    assert_eq!(as_ints(&gcos.struct_obj(handle(&inner)).unwrap().fields), vec![1]);
    // The counts of the new cells start at zero.
    assert_eq!(gcos.rc(handle(&copy)), Some(0));
    assert_eq!(gcos.rc(copied_inner), Some(0));
}

#[test]
fn a_pointer_s_deep_copy_starts_with_no_references() {
    let mut gcos = GcoVec::new();
    let s = GosValue::new_struct(
        StructObj { meta: GosMetadata::Untyped, fields: ints(&[1, 2]) },
        &mut gcos,
    );
    let meta = GosMetadata::NonPtr(u64_to_key(2), MetaCategory::Default);
    let p = PointerObj::Struct(handle(&s), meta);
    p.ref_sub_one(&mut gcos);
    p.ref_sub_one(&mut gcos);
    assert_eq!(gcos.rc(handle(&s)), Some(-2));
    match p.deep_clone(&mut gcos) {
        PointerObj::Struct(k, m) => {
            assert_ne!(k, handle(&s));
            assert_eq!(m, meta);
            assert_eq!(gcos.rc(k), Some(0));
            assert_eq!(as_ints(&gcos.struct_obj(k).unwrap().fields), vec![1, 2]);
            gcos_struct_set(&mut gcos, k);
            assert_eq!(as_ints(&gcos.struct_obj(handle(&s)).unwrap().fields), vec![1, 2]);
        }
        other => panic!("not a struct pointer: {:?}", other),
    }
    let sl = GosValue::slice_with_obj(SliceObj::with_data(ints(&[3]), GosMetadata::Untyped, &mut gcos), &mut gcos);
    match PointerObj::Slice(handle(&sl), meta).deep_clone(&mut gcos) {
        PointerObj::Slice(k, m) => {
            assert_eq!((gcos.rc(k), m), (Some(0), meta));
            assert_ne!(gcos.slice(k).unwrap().vec(), gcos.slice(handle(&sl)).unwrap().vec());
        }
        other => panic!("not a slice pointer: {:?}", other),
    }
    let m = GosValue::new_map(GosMetadata::Untyped, GosValue::Int(0), &mut gcos);
    match PointerObj::GosMap(handle(&m), meta).deep_clone(&mut gcos) {
        PointerObj::GosMap(k, _) => assert_eq!(gcos.rc(k), Some(0)),
        other => panic!("not a map pointer: {:?}", other),
    }
}

#[test]
fn the_elements_of_a_sized_array_are_objects_of_their_own() {
    let mut gcos = GcoVec::new();
    let tmpl = GosValue::new_struct(
        StructObj { meta: GosMetadata::Untyped, fields: ints(&[7]) },
        &mut gcos,
    );
    let named = GosValue::Named(Box::new(tmpl.clone()), GosMetadata::Untyped);
    let arr = ArrayObj::with_size(4, &named, GosMetadata::Untyped, &mut gcos);
    let mut seen = vec![handle(&tmpl)];
    for i in 0..4 {
        let h = match arr.get(i, &gcos).unwrap() {
            GosValue::Named(x, _) => handle(&x),
            other => panic!("not named: {:?}", other),
        };
        assert!(!seen.contains(&h));
        seen.push(h);
    }
    // Writing into one element changes neither another one nor the value
    // that was copied.
    gcos_struct_set(&mut gcos, seen[1]);
    for k in [seen[0], seen[2], seen[3], seen[4]] {
        assert_eq!(as_ints(&gcos.struct_obj(k).unwrap().fields), vec![7]);
    }
    let plain = ArrayObj::with_size(3, &GosValue::Int(1), GosMetadata::Untyped, &mut gcos);
    assert_eq!(as_ints(plain.borrow_data(&gcos)), vec![1, 1, 1]);
    let none = ArrayObj::with_size(0, &named, GosMetadata::Untyped, &mut gcos);
    assert_eq!(none.len(&gcos), 0);
}

#[test]
fn counts_go_down_along_a_chain_of_closed_variables_over_named_values() {
    // Three cells: a slice, and two closed variables, each over a named
    // pointer to the next.
    let mut gcos = GcoVec::new();
    let s = GosValue::slice_with_obj(SliceObj::new_nil(GosMetadata::Untyped), &mut gcos);
    let names = |v: GosValue| {
        GosValue::Named(
            Box::new(GosValue::Named(Box::new(v), GosMetadata::Untyped)),
            GosMetadata::Untyped,
        )
    };
    let last = UpValue::new_closed(names(s.clone()), &mut gcos);
    let first = UpValue::new_closed(
        names(GosValue::Pointer(Box::new(PointerObj::UpVal(last)))),
        &mut gcos,
    );
    assert_eq!(gcos.len(), 3);
    let top = names(GosValue::Pointer(Box::new(PointerObj::UpVal(first))));
    top.ref_sub_one(&mut gcos);
    assert_eq!(gcos.rc(handle(&s)), Some(-1));
    let mut queue: RCQueue = Vec::new();
    top.mark_dirty(&mut queue, &mut gcos);
    assert_eq!((gcos.rc(handle(&s)), queue), (Some(1), vec![handle(&s)]));
}

#[test]
fn test_g1case1() {
    // An assignment copies arrays and structs and shares the elements of
    // slices and the entries of maps.
    let mut gcos = GcoVec::new();
    let arr = ArrayObj::with_data(ints(&[1, 2, 3]), GosMetadata::Untyped, &mut gcos);
    let arr_v = GosValue::new_array(arr, &mut gcos);
    let arr_copy = arr_v.copy_semantic(&mut gcos);
    let arr_copy_obj = *gcos.array(handle(&arr_copy)).unwrap();
    arr_copy_obj.set(0, GosValue::Int(10), &mut gcos);
    assert_eq!(as_ints(arr.borrow_data(&gcos)), vec![1, 2, 3]);

    let s = SliceObj::with_data(ints(&[1, 2, 3]), GosMetadata::Untyped, &mut gcos);
    let s_v = GosValue::slice_with_obj(s, &mut gcos);
    let s_copy = s_v.copy_semantic(&mut gcos);
    assert_ne!(handle(&s_copy), handle(&s_v));
    let mut s_copy_obj = *gcos.slice(handle(&s_copy)).unwrap();
    assert_eq!(s_copy_obj.vec(), s.vec());
    s_copy_obj.set(0, GosValue::Int(10), &mut gcos);
    assert!(matches!(s.get(0, &gcos), Some(GosValue::Int(10))));
    // The copy has a window of its own.
    s_copy_obj.push(GosValue::Int(4), &mut gcos);
    assert_eq!(s_copy_obj.len(), 4);
    assert_eq!(gcos.slice(handle(&s_v)).unwrap().len(), 3);

    let m = MapObj::new(GosMetadata::Untyped, GosValue::Int(0), &mut gcos);
    let m_v = GosValue::map_with_obj(m.clone(), &mut gcos);
    let m_copy = m_v.copy_semantic(&mut gcos);
    assert_ne!(handle(&m_copy), handle(&m_v));
    let m_copy_obj = gcos.map(handle(&m_copy)).unwrap().clone();
    m_copy_obj.insert(GosValue::Int(1), GosValue::Int(11), &mut gcos);
    assert!(matches!(m.get(&GosValue::Int(1), &gcos), GosValue::Int(11)));

    let named = GosValue::Named(Box::new(arr_v.clone()), GosMetadata::Untyped);
    match named.copy_semantic(&mut gcos) {
        GosValue::Named(inner, _) => assert_ne!(handle(&inner), handle(&arr_v)),
        other => panic!("not named: {:?}", other),
    }
    let sized = GosValue::array_with_size(2, &arr_v, GosMetadata::Untyped, &mut gcos);
    let outer = *gcos.array(handle(&sized)).unwrap();
    let first = handle(&outer.get(0, &gcos).unwrap());
    let second = handle(&outer.get(1, &gcos).unwrap());
    assert!(first != second && first != handle(&arr_v) && second != handle(&arr_v));
    assert_eq!(as_ints(gcos.array(second).unwrap().borrow_data(&gcos)), vec![1, 2, 3]);
}

#[test]
fn test_linked() {
    // A list of nodes linked by pointers, closed into a ring.
    let mut gcos = GcoVec::new();
    let mut nodes = vec![];
    for i in 0..4isize {
        let node = GosValue::new_struct(
            StructObj {
                meta: GosMetadata::Untyped,
                fields: vec![GosValue::Int(i), GosValue::Nil(GosMetadata::Untyped)],
            },
            &mut gcos,
        );
        nodes.push(handle(&node));
    }
    for i in 0..4 {
        let next = PointerObj::new_local(GosValue::Struct(nodes[(i + 1) % 4]));
        let mut fields = ints(&[i as isize]);
        fields.push(GosValue::Pointer(Box::new(next)));
        gcos_replace_fields(&mut gcos, nodes[i], fields);
    }
    // Walk the ring once.
    let mut at = nodes[0];
    let mut seen = vec![];
    for _ in 0..5 {
        let node = gcos.struct_obj(at).unwrap();
        seen.push(as_ints(&node.fields[..1])[0]);
        at = match &node.fields[1] {
            GosValue::Pointer(p) => match **p {
                PointerObj::Struct(k, _) => k,
                _ => panic!("not a struct pointer"),
            },
            other => panic!("not a pointer: {:?}", other),
        };
    }
    assert_eq!(seen, vec![0, 1, 2, 3, 0]);

    // A deep copy of a node copies the node and shares what it points to.
    let copy = GosValue::Struct(nodes[0]).deep_clone(&mut gcos);
    let kc = handle(&copy);
    assert!(!nodes.contains(&kc));
    match &gcos.struct_obj(kc).unwrap().fields[1] {
        GosValue::Pointer(p) => assert_eq!(**p, PointerObj::Struct(nodes[1], GosMetadata::Untyped)),
        other => panic!("not a pointer: {:?}", other),
    }

    // A mark pass queues each node that it reaches once.
    let mut queue: RCQueue = Vec::new();
    let mut i = 0;
    GosValue::Struct(nodes[0]).mark_dirty(&mut queue, &mut gcos);
    while i < queue.len() {
        let k = queue[i];
        let children: Vec<GosValue> = gcos.struct_obj(k).unwrap().fields.to_vec();
        for c in children.iter() {
            c.mark_dirty(&mut queue, &mut gcos);
        }
        i += 1;
    }
    assert_eq!(queue, vec![nodes[0], nodes[1], nodes[2], nodes[3]]);
    for k in nodes.iter() {
        assert_eq!(gcos.rc(*k), Some(1));
    }
    GosValue::Struct(nodes[2]).ref_sub_one(&mut gcos);
    assert_eq!(gcos.rc(nodes[2]), Some(0));
    GosValue::Named(Box::new(GosValue::Struct(nodes[2])), GosMetadata::Untyped).ref_sub_one(&mut gcos);
    assert_eq!(gcos.rc(nodes[2]), Some(-1));
    // A chain through captured variables is followed.
    let inner = UpValue::new_closed(GosValue::Struct(nodes[3]), &mut gcos);
    let outer = UpValue::new_closed(GosValue::Pointer(Box::new(PointerObj::UpVal(inner))), &mut gcos);
    outer.ref_sub_one(&mut gcos);
    assert_eq!(gcos.rc(nodes[3]), Some(0));
    assert_eq!(gcos.rc(outer.inner), Some(0));
    assert_eq!(gcos.rc(usize::MAX), None);
}

fn gcos_replace_fields(gcos: &mut GcoVec, k: usize, fields: Vec<GosValue>) {
    let fresh = GosValue::new_struct(StructObj { meta: GosMetadata::Untyped, fields }, gcos);
    PointerObj::Struct(k, GosMetadata::Untyped).set_local_ref_type(fresh, gcos);
}

#[test]
fn test_for() {
    // A loop jumps back over its body.
    let mut f = FunctionVal::with_signature(u64_to_key(1), GosMetadata::Untyped, vec![], 0, FuncFlag::Default);
    let top = f.next_code_index();
    let mut e = Emitter::new(&mut f);
    e.emit_load(goscript::objects::EntIndex::LocalVar(0), None, ValueType::Int, None);
    e.emit_push_imm(ValueType::Int, 10, None);
    f.emit_code_with_type(Opcode::LSS, ValueType::Int, None);
    f.emit_code_with_imm(Opcode::JUMP_IF_NOT, 0, None);
    let exit = f.next_code_index() - 1;
    f.emit_code(Opcode::PUSH_NIL, None);
    let back = -(f.offset(top) + 1);
    f.emit_code_with_imm(Opcode::JUMP, back, None);
    let forward = f.offset(exit + 1);
    f.instruction_mut(exit).set_imm(forward);
    assert_eq!(f.code()[5], Instruction::new(Opcode::JUMP, None, None, None, Some(-6)));
    assert_eq!(f.code()[3], Instruction::new(Opcode::JUMP_IF_NOT, None, None, None, Some(2)));
}

#[test]
fn test_switch() {
    // Each case compares and jumps; the cases share their constants.
    let mut f = FunctionVal::with_signature(u64_to_key(1), GosMetadata::Untyped, vec![], 0, FuncFlag::Default);
    let tags = ["a", "b", "a", "c", "b"];
    let mut slots = vec![];
    for t in tags.iter() {
        let slot = f.add_const(None, GosValue::new_str(t.to_string()));
        let mut e = Emitter::new(&mut f);
        e.emit_load(slot, None, ValueType::Str, None);
        f.emit_code_with_type(Opcode::EQL, ValueType::Str, None);
        slots.push(slot);
    }
    assert_eq!(f.consts().len(), 3);
    assert_eq!(slots[0], slots[2]);
    assert_eq!(slots[1], slots[4]);
    assert_eq!(f.code().len(), 10);
    assert_eq!(f.code()[8].imm(), 1);
    assert!(matches!(&f.consts()[2], GosValue::Str(s) if s.as_str() == "c"));
    assert!(matches!(gcos_dummy().get(0), Some(GcObj::Released)));
}

fn gcos_dummy() -> GcoVec {
    let mut g = GcoVec::new();
    g.add(GcObj::Released);
    g
}

#[test]
fn test_recover() {
    // A reference that is dropped more often than it was taken does not
    // break the count, and a mark starts from any count that is not
    // positive.
    let mut gcos = GcoVec::new();
    let s = GosValue::slice_with_obj(SliceObj::new_nil(GosMetadata::Untyped), &mut gcos);
    let k = handle(&s);
    for _ in 0..3 {
        s.ref_sub_one(&mut gcos);
    }
    assert_eq!(gcos.rc(k), Some(-3));
    let mut queue: RCQueue = Vec::new();
    gcos.rcount_mark_and_queue(k, &mut queue);
    gcos.rcount_mark_and_queue(k, &mut queue);
    gcos.rcount_mark_and_queue(k + 1, &mut queue);
    assert_eq!((gcos.rc(k), queue), (Some(1), vec![k]));
    gcos.ref_sub_one(k + 1);
    assert_eq!(gcos.len(), 1);
}
