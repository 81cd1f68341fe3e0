use goscript::arena::{u64_to_key, FunctionKey, FunctionObjs, PackageKey};
use goscript::gc::{GcObj, GcoVec, RCQueue};
use goscript::instruction::ValueType;
use goscript::metadata::{GosMetadata, MetaCategory};
use goscript::objects::{
    grown_cap, norm_bound, ArrayObj, ChanStep, ChannelObj, ClosureObj, EntIndex, FfiClosureObj, FfiKey, FuncFlag,
    FunctionVal, GosHashMap, IfaceUnderlying, InterfaceObj, MapObj, PackageVal, PointerObj,
    SliceObj, SliceRef, StackKey, StringObj, StructObj, UnderlyingFfi, UpValue, UpValueState,
    UserData, ValueDesc, VMObjects,
};
use goscript::text::{bracketed, entry_text};
use goscript::value::GosValue;

fn ints(v: &[isize]) -> Vec<GosValue> {
    v.iter().map(|x| GosValue::Int(*x)).collect()
}

fn as_ints(v: &[GosValue]) -> Vec<isize> {
    v.iter()
        .map(|x| match x {
            GosValue::Int(i) => *i,
            other => panic!("not an int: {:?}", other),
        })
        .collect()
}

fn window(s: &SliceObj, gcos: &GcoVec) -> Vec<isize> {
    as_ints(s.borrow(gcos).iter())
}

#[test]
fn bounds_are_normalised_over_length_plus_one() {
    assert_eq!(norm_bound(5, -1), 5);
    assert_eq!(norm_bound(5, 0), 0);
    assert_eq!(norm_bound(5, 3), 3);
    assert_eq!(norm_bound(5, 5), 5);
    assert_eq!(norm_bound(5, 6), 0);
    assert_eq!(norm_bound(5, -2), 4);
    assert_eq!(norm_bound(5, -6), 0);
    assert_eq!(norm_bound(5, -7), 5);
    assert_eq!(norm_bound(0, -1), 0);
    assert_eq!(norm_bound(0, 9), 0);
    assert_eq!(norm_bound(usize::MAX, -1), usize::MAX);
    assert_eq!(norm_bound(usize::MAX, 7), 7);
}

#[test]
fn test_slice1() {
    let mut gcos = GcoVec::new();
    let meta = GosMetadata::Untyped;
    let mut s = SliceObj::with_data(ints(&[1, 2, 3, 4, 5]), meta, &mut gcos);
    assert_eq!((s.len(), s.cap(), s.begin(), s.end(), s.soft_cap()), (5, 5, 0, 5, 5));
    assert!(!s.is_nil());

    // The full re-slice is the same window on the same elements.
    let full = s.slice(0, -1, -1);
    assert_eq!((full.len(), full.cap(), full.begin()), (5, 5, 0));
    assert_eq!(full.vec(), s.vec());
    assert_eq!(window(&full, &gcos), vec![1, 2, 3, 4, 5]);

    // A part shares the elements.
    let part = s.slice(1, 3, -1);
    assert_eq!((part.len(), part.cap()), (2, 4));
    assert_eq!(window(&part, &gcos), vec![2, 3]);
    part.set(0, GosValue::Int(20), &mut gcos);
    assert_eq!(window(&s, &gcos), vec![1, 20, 3, 4, 5]);
    assert!(matches!(part.get(1, &gcos), Some(GosValue::Int(3))));
    assert!(matches!(s.get(5, &gcos), None));

    // A part of a part counts from the part's begin.
    let inner = part.slice(1, 2, 3);
    assert_eq!((inner.begin(), inner.end(), inner.soft_cap()), (2, 3, 4));
    assert_eq!(window(&inner, &gcos), vec![3]);

    // Pushing past the capacity moves the window to a new buffer and keeps
    // the items in order.
    let old_vec = s.vec();
    s.push(GosValue::Int(6), &mut gcos);
    assert_ne!(s.vec(), old_vec);
    assert_eq!((s.len(), s.cap(), s.begin()), (6, 10, 0));
    assert_eq!(window(&s, &gcos), vec![1, 20, 3, 4, 5, 6]);
    assert_eq!(window(&full, &gcos), vec![1, 20, 3, 4, 5]);

    // There is room now: the push stays in the buffer.
    let grown = s.vec();
    s.push(GosValue::Int(7), &mut gcos);
    assert_eq!(s.vec(), grown);
    assert_eq!(s.cap(), 10);

    // Pushing into a part writes over what follows the part.
    let mut head = full.slice(0, 2, -1);
    head.push(GosValue::Int(30), &mut gcos);
    assert_eq!(window(&head, &gcos), vec![1, 20, 30]);
    assert_eq!(window(&full, &gcos), vec![1, 20, 30, 4, 5]);

    let mut more = ints(&[8, 9, 10, 11]);
    s.append(&mut more, &mut gcos);
    assert!(more.is_empty());
    assert_eq!(window(&s, &gcos), vec![1, 20, 3, 4, 5, 6, 7, 8, 9, 10, 11]);
    assert_eq!(s.cap(), 20);
    assert_eq!(as_ints(&s.get_vec(&gcos)), vec![1, 20, 3, 4, 5, 6, 7, 8, 9, 10, 11]);
}

#[test]
fn reads_stop_at_the_end_of_the_window() {
    let mut gcos = GcoVec::new();
    let whole = SliceObj::with_data(ints(&[1, 2, 3]), GosMetadata::Untyped, &mut gcos);
    assert!(whole.get(3, &gcos).is_none());
    assert_eq!(as_ints(whole.borrow_data(&gcos)), vec![1, 2, 3]);
    let s = whole.slice(0, 1, -1);
    assert_eq!((s.len(), s.cap()), (1, 3));
    assert!(matches!(s.get(0, &gcos), Some(GosValue::Int(1))));
    assert!(s.get(1, &gcos).is_none());
    assert!(s.get(2, &gcos).is_none());
    assert!(s.get(usize::MAX, &gcos).is_none());
    let v = s.borrow(&gcos);
    assert!(matches!(v.get(0), Some(GosValue::Int(1))));
    assert!(v.get(1).is_none());
    assert!(v.get(2).is_none());
    assert!(v.get(usize::MAX).is_none());
    let tail = whole.slice(2, -1, -1);
    assert!(matches!(tail.get(0, &gcos), Some(GosValue::Int(3))));
    assert!(tail.get(1, &gcos).is_none());
    assert!(tail.borrow(&gcos).get(1).is_none());
}

#[test]
fn slice_growth_doubles_then_adds_a_quarter() {
    assert_eq!(grown_cap(0, 1), 1);
    assert_eq!(grown_cap(1, 2), 2);
    assert_eq!(grown_cap(5, 6), 10);
    assert_eq!(grown_cap(5, 11), 20);
    assert_eq!(grown_cap(512, 513), 1024);
    assert_eq!(grown_cap(1024, 1025), 1280);
    assert_eq!(grown_cap(1025, 1026), 1282);
    assert_eq!(grown_cap(1000, 1300), 2000);
    assert_eq!(grown_cap(1024, 2000), 2000);
    assert_eq!(grown_cap(7, 3), 7);
    assert_eq!(grown_cap(usize::MAX - 1, usize::MAX), usize::MAX);
}

#[test]
fn test_fibonacci() {
    // A table that grows by pushing keeps every item.
    let mut gcos = GcoVec::new();
    let zero = GosValue::Int(0);
    let mut memo = SliceObj::new(0, 0, GosMetadata::Untyped, Some(&zero), &mut gcos);
    memo.push(GosValue::Int(0), &mut gcos);
    memo.push(GosValue::Int(1), &mut gcos);
    for i in 2..40usize {
        let a = memo.get(i - 1, &gcos).unwrap();
        let b = memo.get(i - 2, &gcos).unwrap();
        match (a, b) {
            (GosValue::Int(x), GosValue::Int(y)) => memo.push(GosValue::Int(x + y), &mut gcos),
            _ => unreachable!(),
        }
    }
    let all = window(&memo, &gcos);
    assert_eq!(all.len(), 40);
    assert_eq!(all[10], 55);
    assert_eq!(all[39], 63245986);
    assert_eq!(memo.cap(), 64);
}

#[test]
fn test_array() {
    let mut gcos = GcoVec::new();
    let meta = GosMetadata::Untyped;
    let a = ArrayObj::with_data(ints(&[1, 2, 3]), meta, &mut gcos);
    assert_eq!(a.len(&gcos), 3);
    assert!(matches!(a.get(1, &gcos), Some(GosValue::Int(2))));
    assert!(a.get(3, &gcos).is_none());
    let b = ArrayObj::with_size(3, &GosValue::Int(9), meta, &mut gcos);
    assert_eq!(as_ints(b.borrow_data(&gcos)), vec![9, 9, 9]);
    assert!(!a.eq(&b, &gcos));
    b.set_from(&a, &mut gcos);
    assert!(a.eq(&b, &gcos));
    b.set(0, GosValue::Int(7), &mut gcos);
    assert_eq!(as_ints(a.borrow_data(&gcos)), vec![1, 2, 3]);
    assert_eq!(as_ints(b.borrow_data(&gcos)), vec![7, 2, 3]);
    a.borrow_data_mut(&mut gcos).push(GosValue::Int(4));
    assert_eq!(a.len(&gcos), 4);

    // A slice over an array shares the array's elements.
    let named = ArrayObj::with_data(ints(&[5, 6, 7, 8]), GosMetadata::NonPtr(u64_to_key(3), MetaCategory::Array), &mut gcos);
    let s = SliceObj::with_array(&named, 1, -1, &gcos);
    assert_eq!((s.len(), s.cap()), (3, 3));
    assert_eq!(s.meta(), GosMetadata::NonPtr(u64_to_key(3), MetaCategory::Default));
    s.set(0, GosValue::Int(60), &mut gcos);
    assert_eq!(as_ints(named.borrow_data(&gcos)), vec![5, 60, 7, 8]);
}

#[test]
fn test_g2nil() {
    let mut gcos = GcoVec::new();
    let s = SliceObj::new_nil(GosMetadata::Untyped);
    assert!(s.is_nil());
    assert_eq!((s.len(), s.cap()), (0, 0));
    assert!(s.get(0, &gcos).is_none());
    assert!(s.get_vec(&gcos).is_empty());
    let m = MapObj::new_nil(GosMetadata::Untyped, GosValue::Int(0));
    assert!(m.is_nil());
    let copy = m.deep_clone(&mut gcos);
    assert!(copy.is_nil());
    let copy = s.deep_clone(&mut gcos);
    assert!(copy.is_nil());
    assert_eq!(gcos.len(), 0);
    let iface = InterfaceObj::new(GosMetadata::Untyped, IfaceUnderlying::Empty);
    assert!(iface.is_nil());
    assert!(iface.underlying_value().is_none());
    let nil = GosValue::Nil(GosMetadata::Untyped);
    assert!(nil.identical(&GosValue::Nil(GosMetadata::Untyped)));
    assert!(!nil.identical(&GosValue::Int(0)));
    assert!(matches!(PointerObj::Released.deep_clone(&mut gcos), PointerObj::Released));
    assert!(!PointerObj::Released.same_place(&PointerObj::Released));
}

#[test]
fn test_map1() {
    let mut gcos = GcoVec::new();
    let m = MapObj::new(GosMetadata::Untyped, GosValue::Int(-1), &mut gcos);
    assert!(!m.is_nil());
    assert_eq!(m.len(&gcos), 0);
    let a = GosValue::new_str("a".to_string());
    let b = GosValue::new_str("b".to_string());

    // Reading an absent key gives the default and puts nothing in.
    assert!(matches!(m.get(&a, &gcos), GosValue::Int(-1)));
    assert!(m.try_get(&a, &gcos).is_none());
    assert_eq!(m.len(&gcos), 0);

    // Touching the key puts the default in.
    m.touch_key(&a, &mut gcos);
    assert!(matches!(m.try_get(&a, &gcos), Some(GosValue::Int(-1))));
    assert_eq!(m.len(&gcos), 1);
    m.touch_key(&a, &mut gcos);
    assert_eq!(m.len(&gcos), 1);

    // What is put in comes out.
    assert!(m.insert(b.clone(), GosValue::Int(2), &mut gcos).is_none());
    assert!(matches!(m.insert(a.clone(), GosValue::Int(1), &mut gcos), Some(GosValue::Int(-1))));
    assert!(matches!(m.get(&a, &gcos), GosValue::Int(1)));
    assert!(matches!(m.get(&b, &gcos), GosValue::Int(2)));
    assert_eq!(m.len(&gcos), 2);

    // Keys are compared by what they hold.
    let long = StringObj::with_str("xxbxx".to_string());
    let key = GosValue::Str(long.slice(2, 3));
    assert!(matches!(m.get(&key, &gcos), GosValue::Int(2)));
    assert!(matches!(m.get(&GosValue::Int(2), &gcos), GosValue::Int(-1)));

    // A copy of the map shares the entries; a deep copy does not.
    let alias = m.clone();
    let deep = m.deep_clone(&mut gcos);
    alias.insert(GosValue::Int(3), GosValue::Int(33), &mut gcos);
    assert_eq!(m.len(&gcos), 3);
    assert_eq!(deep.len(&gcos), 2);
    deep.insert(a.clone(), GosValue::Int(100), &mut gcos);
    assert!(matches!(m.get(&a, &gcos), GosValue::Int(1)));
    assert!(matches!(deep.get(&a, &gcos), GosValue::Int(100)));
    assert_ne!(deep.clone_inner(), m.clone_inner());
    assert_eq!(m.borrow_data(&gcos).len(), 3);
    let mut table = GosHashMap::new();
    assert!(table.insert(GosValue::Bool(true), GosValue::Int(1)).is_none());
    assert!(table.get(&GosValue::Bool(false)).is_none());
    assert_eq!(table.position(&GosValue::Bool(true)), Some(0));
}

#[test]
fn test_unicode0() {
    let s = StringObj::with_str("héllo, 世界".to_string());
    assert_eq!(s.len(), 14);
    assert_eq!(s.as_str(), "héllo, 世界");
    assert_eq!(s.get_byte(0), Some(b'h'));
    assert_eq!(s.get_byte(1), Some(0xc3));
    assert_eq!(s.get_byte(14), None);
    let world = s.slice(8, -1);
    assert_eq!(world.len(), 6);
    assert_eq!(world.as_str(), "世界");
    assert_eq!(world.iter().collect::<Vec<char>>(), vec!['世', '界']);
    let first = world.slice(0, 3);
    assert_eq!(first.as_str(), "世");
    assert!(first.eq(&StringObj::with_str("世".to_string())));
    assert!(!first.eq(&world));
    // A window may end inside a character; its bytes are still there.
    let half = s.slice(0, 2);
    assert_eq!(half.len(), 2);
    assert_eq!(half.get_byte(1), Some(0xc3));
    assert_eq!(s.clone().into_string(), "héllo, 世界");
    assert_eq!(world.into_string(), "héllo, 世界");
}

#[test]
fn strings_are_ordered_by_their_bytes() {
    let s = |x: &str| StringObj::with_str(x.to_string());
    assert_eq!(s("abc").compare(&s("abd")), -1);
    assert_eq!(s("abd").compare(&s("abc")), 1);
    assert_eq!(s("abc").compare(&s("abc")), 0);
    assert_eq!(s("ab").compare(&s("abc")), -1);
    assert_eq!(s("abc").compare(&s("ab")), 1);
    assert_eq!(s("").compare(&s("")), 0);
    assert_eq!(s("").compare(&s("a")), -1);
    assert_eq!(s("Z").compare(&s("a")), -1);
    assert_eq!(s("é").compare(&s("z")), 1);
    assert_eq!(s("xxabc").slice(2, -1).compare(&s("abcd").slice(0, 3)), 0);
}

#[test]
fn test_leetcode5() {
    // The longest palindrome of a text, found by comparing windows.
    let text = StringObj::with_str("babad".to_string());
    let n = text.len();
    let mut best = text.slice(0, 0);
    for i in 0..n {
        for j in i..n {
            let mut ok = true;
            let (mut a, mut b) = (i, j);
            while a < b {
                if text.get_byte(a) != text.get_byte(b) {
                    ok = false;
                    break;
                }
                a += 1;
                b -= 1;
            }
            if ok && j + 1 - i > best.len() {
                best = text.slice(i as isize, (j + 1) as isize);
            }
        }
    }
    assert_eq!(best.as_str(), "bab");
    assert_eq!(text.slice(1, 4).as_str(), "aba");
    assert_eq!(text.slice(3, 1).len(), 0);
    assert_eq!(text.slice(-4, 2).as_str(), "ba");
    assert_eq!(text.slice(2, -1).as_str(), "bad");
    assert_eq!(text.slice(0, 6).len(), 0);
}

#[test]
fn test_closure1() {
    // A captured variable is open while its frame lives and closed for
    // good afterwards.
    let mut gcos = GcoVec::new();
    let func: FunctionKey = u64_to_key(5);
    let desc = ValueDesc::new(func, 3, ValueType::Int, true);
    assert!(desc.stack.is_none());
    let framed = desc.clone_with_stack(Some(StackKey { id: 7 }), 10);
    assert_eq!((framed.index, framed.stack_base, framed.stack), (3, 10, Some(StackKey { id: 7 })));
    assert!(desc.eq(&framed));
    let uv = UpValue::new(framed, &mut gcos);
    assert!(uv.is_open(&gcos));
    assert_eq!(uv.desc(&gcos).index, 3);
    let alias = uv;
    uv.close(GosValue::Int(42), &mut gcos);
    assert!(!uv.is_open(&gcos));
    assert!(!alias.is_open(&gcos));
    assert!(matches!(gcos.upvalue(uv.inner), Some(UpValueState::Closed(GosValue::Int(42)))));
    let closed = UpValue::new_closed(GosValue::Bool(true), &mut gcos);
    assert!(!closed.is_open(&gcos));
    assert_ne!(closed, uv);
}

#[test]
fn test_closure2() {
    let mut gcos = GcoVec::new();
    let uv = UpValue::new_closed(GosValue::Int(1), &mut gcos);
    let weak = uv.downgrade();
    assert_eq!(weak.upgrade(&gcos), Some(uv));
    gcos.release(uv.inner);
    assert_eq!(weak.upgrade(&gcos), None);
    assert!(matches!(gcos.get(uv.inner), Some(GcObj::Released)));
}

fn function_with_captures(fobjs: &mut FunctionObjs) -> FunctionKey {
    let pkg: PackageKey = u64_to_key(1);
    let mut f = FunctionVal::with_signature(pkg, GosMetadata::Untyped, Vec::new(), 0, FuncFlag::Default);
    let own: FunctionKey = u64_to_key(2);
    let a = u64_to_key(21);
    let b = u64_to_key(22);
    let c = u64_to_key(23);
    f.try_add_upvalue(&a, ValueDesc::new(own, 0, ValueType::Int, true));
    f.try_add_upvalue(&b, ValueDesc::new(own, 1, ValueType::Int, false));
    f.try_add_upvalue(&c, ValueDesc::new(own, 2, ValueType::Str, true));
    // Capturing the same entity again gives the same slot.
    assert_eq!(
        f.try_add_upvalue(&a, ValueDesc::new(own, 9, ValueType::Int, true)),
        EntIndex::UpValue(0)
    );
    assert_eq!(f.up_ptrs().len(), 3);
    fobjs.insert(f)
}

#[test]
fn test_closure3() {
    let mut gcos = GcoVec::new();
    let mut fobjs = FunctionObjs::with_capacity(4);
    let key = function_with_captures(&mut fobjs);
    assert!(fobjs.contains_key(key));
    assert_eq!(fobjs.len(), 1);
    let c = ClosureObj::new_gos(key, &fobjs, Some(GosValue::Int(1)), &mut gcos);
    assert_eq!(c.func, Some(key));
    assert!(c.ffi.is_none());
    let uvs = c.uvs.as_ref().unwrap();
    assert_eq!(uvs.iter().map(|x| x.0).collect::<Vec<usize>>(), vec![0, 2]);
    assert!(uvs[0].1.is_open(&gcos));
    assert_eq!(uvs[1].1.desc(&gcos).index, 2);
    assert_eq!(gcos.len(), 2);

    let plain = FunctionVal::with_signature(u64_to_key(1), GosMetadata::Untyped, Vec::new(), 0, FuncFlag::Default);
    let plain_key = fobjs.insert(plain);
    let c = ClosureObj::new_gos(plain_key, &fobjs, None, &mut gcos);
    assert!(c.uvs.is_none());
    assert_ne!(plain_key, key);

    let ffi = ClosureObj::new_ffi(FfiClosureObj {
        ffi: FfiKey { id: 1 },
        func_name: "println".to_string(),
        meta: GosMetadata::Untyped,
    });
    assert!(ffi.func.is_none() && ffi.uvs.is_none() && ffi.recv.is_none());
    assert_eq!(ffi.ffi.as_ref().unwrap().func_name, "println");
}

#[test]
fn test_closure4() {
    // Counts and marks go through a closure to what it captured.
    let mut gcos = GcoVec::new();
    let s = GosValue::new_struct(StructObj { meta: GosMetadata::Untyped, fields: vec![] }, &mut gcos);
    let ks = match s {
        GosValue::Struct(k) => k,
        _ => unreachable!(),
    };
    let uv = UpValue::new_closed(s.clone(), &mut gcos);
    let open = UpValue::new(ValueDesc::new(u64_to_key(1), 0, ValueType::Int, true), &mut gcos);
    let c = ClosureObj {
        func: Some(u64_to_key(1)),
        uvs: Some(vec![(0, uv), (1, open)]),
        recv: Some(s.clone()),
        ffi: None,
        meta: GosMetadata::Untyped,
    };
    let mut queue: RCQueue = Vec::new();
    c.mark_dirty(&mut queue, &mut gcos);
    assert_eq!(gcos.rc(ks), Some(1));
    assert_eq!(queue, vec![ks]);
    c.ref_sub_one(&mut gcos);
    assert_eq!(gcos.rc(ks), Some(-1));
    c.mark_dirty(&mut queue, &mut gcos);
    assert_eq!(gcos.rc(ks), Some(1));
    assert_eq!(queue, vec![ks, ks]);
    uv.ref_sub_one(&mut gcos);
    assert_eq!(gcos.rc(ks), Some(0));
    open.ref_sub_one(&mut gcos);
    assert_eq!(gcos.rc(ks), Some(0));
}

#[test]
fn test_pointer() {
    let mut gcos = GcoVec::new();
    let s = GosValue::new_struct(
        StructObj { meta: GosMetadata::Untyped, fields: ints(&[1, 2]) },
        &mut gcos,
    );
    let ks = match s {
        GosValue::Struct(k) => k,
        _ => unreachable!(),
    };
    let p = PointerObj::new_local(s.clone());
    assert_eq!(p, PointerObj::Struct(ks, GosMetadata::Untyped));
    let named_meta = GosMetadata::NonPtr(u64_to_key(8), MetaCategory::Default);
    let q = PointerObj::new_local(GosValue::Named(Box::new(s.clone()), named_meta));
    assert_eq!(q, PointerObj::Struct(ks, named_meta));
    // The same pointee, whatever the name.
    assert!(p.same_place(&q));
    assert_ne!(p, q);
    assert!(!PointerObj::StructField(ks, 0).same_place(&PointerObj::StructField(ks, 1)));
    assert!(PointerObj::SliceMember(3, 1).same_place(&PointerObj::SliceMember(3, 1)));
    assert!(!PointerObj::SliceMember(3, 1).same_place(&PointerObj::StructField(3, 1)));
    assert!(PointerObj::PkgMember(u64_to_key(1), 2).same_place(&PointerObj::PkgMember(u64_to_key(1), 2)));

    // Writing through the pointer changes the value that it points to.
    let other = GosValue::new_struct(
        StructObj { meta: named_meta, fields: ints(&[7, 8, 9]) },
        &mut gcos,
    );
    p.set_local_ref_type(other, &mut gcos);
    let now = gcos.struct_obj(ks).unwrap();
    assert_eq!(as_ints(&now.fields), vec![7, 8, 9]);
    assert_eq!(now.meta, named_meta);

    // A deep copy points to a new struct.
    let copy = p.deep_clone(&mut gcos);
    match copy {
        PointerObj::Struct(kc, m) => {
            assert_ne!(kc, ks);
            assert_eq!(m, GosMetadata::Untyped);
            assert_eq!(as_ints(&gcos.struct_obj(kc).unwrap().fields), vec![7, 8, 9]);
        }
        _ => panic!("not a struct pointer"),
    }
    p.ref_sub_one(&mut gcos);
    assert_eq!(gcos.rc(ks), Some(-1));
    let mut queue: RCQueue = Vec::new();
    q.mark_dirty(&mut queue, &mut gcos);
    assert_eq!((gcos.rc(ks), queue.len()), (Some(1), 1));
    q.mark_dirty(&mut queue, &mut gcos);
    assert_eq!((gcos.rc(ks), queue.len()), (Some(1), 1));
    assert_eq!(PointerObj::UserData(5).as_user_data(), 5);
}

struct Counter {
    hits: std::cell::Cell<usize>,
}

impl UserData for Counter {
    fn can_make_cycle(&self) -> bool {
        true
    }

    fn ref_sub_one(&self) {
        self.hits.set(self.hits.get() + 1);
    }

    fn mark_dirty(&self, queue: &mut RCQueue) {
        queue.push(99);
    }
}

struct Plain;

impl UserData for Plain {}

#[test]
fn user_data_gets_the_news() {
    let mut gcos = GcoVec::new();
    let k = gcos.add(GcObj::UserData(Box::new(Counter { hits: std::cell::Cell::new(0) })));
    let p = PointerObj::UserData(k);
    let mut queue: RCQueue = Vec::new();
    p.mark_dirty(&mut queue, &mut gcos);
    assert_eq!(queue, vec![99]);
    p.ref_sub_one(&mut gcos);
    assert!(gcos.user_data(k).unwrap().can_make_cycle());
    assert_eq!(gcos.rc(k), Some(0));
    let plain = gcos.add(GcObj::UserData(Box::new(Plain)));
    assert!(!gcos.user_data(plain).unwrap().can_make_cycle());
    gcos.user_data(plain).unwrap().break_cycle();
    PointerObj::UserData(plain).mark_dirty(&mut queue, &mut gcos);
    assert_eq!(queue, vec![99]);
    assert!(gcos.user_data(7).is_none());
}

#[test]
fn test_interface() {
    let mut gcos = GcoVec::new();
    let mut iface = InterfaceObj::new(GosMetadata::Untyped, IfaceUnderlying::Empty);
    assert!(iface.is_nil());
    iface.set_underlying(IfaceUnderlying::Gos(GosValue::Int(3), None));
    assert!(!iface.is_nil());
    assert!(matches!(iface.underlying_value(), Some(GosValue::Int(3))));
    let same = InterfaceObj::new(GosMetadata::Untyped, IfaceUnderlying::Gos(GosValue::Int(3), Some(vec![])));
    let other = InterfaceObj::new(GosMetadata::Untyped, IfaceUnderlying::Gos(GosValue::Int(4), None));
    assert!(iface.eq(&same));
    assert!(!iface.eq(&other));
    let ffi_a = IfaceUnderlying::Ffi(UnderlyingFfi::new(FfiKey { id: 1 }, vec![]));
    let ffi_same = IfaceUnderlying::Ffi(UnderlyingFfi::new(FfiKey { id: 1 }, vec![("m".to_string(), GosMetadata::Untyped)]));
    let ffi_b = IfaceUnderlying::Ffi(UnderlyingFfi::new(FfiKey { id: 2 }, vec![]));
    assert!(ffi_a.eq(&ffi_same));
    assert!(!ffi_a.eq(&ffi_b));
    assert!(!ffi_a.eq(&IfaceUnderlying::Empty));
    assert!(IfaceUnderlying::Empty.eq(&IfaceUnderlying::Empty));

    // Counts and marks go through the interface to the value that it holds.
    let s = GosValue::slice_with_obj(SliceObj::new_nil(GosMetadata::Untyped), &mut gcos);
    let ks = match s {
        GosValue::Slice(k) => k,
        _ => unreachable!(),
    };
    let boxed = InterfaceObj::new(GosMetadata::Untyped, IfaceUnderlying::Gos(s, None));
    boxed.ref_sub_one(&mut gcos);
    assert_eq!(gcos.rc(ks), Some(-1));
    let ki = gcos.add(GcObj::Interface(boxed));
    let v = GosValue::Interface(ki);
    let mut queue: RCQueue = Vec::new();
    v.mark_dirty(&mut queue, &mut gcos);
    assert_eq!(queue, vec![ks]);
    v.ref_sub_one(&mut gcos);
    assert_eq!(gcos.rc(ks), Some(0));
    assert_eq!(gcos.rc(ki), Some(0));
    iface.mark_dirty(&mut queue, &mut gcos);
    assert_eq!(queue, vec![ks]);
}

#[test]
fn test_channel() {
    let mut ch = ChannelObj::new(GosMetadata::Untyped, 2);
    assert_eq!((ch.len(), ch.cap()), (0, 2));
    assert!(matches!(ch.recv(), ChanStep::Suspend));
    assert!(matches!(ch.send(&GosValue::Int(1)), ChanStep::Done(None)));
    assert!(matches!(ch.send(&GosValue::Int(2)), ChanStep::Done(None)));
    assert!(matches!(ch.send(&GosValue::Int(3)), ChanStep::Suspend));
    assert_eq!(ch.len(), 2);
    assert!(matches!(ch.recv(), ChanStep::Done(Some(GosValue::Int(1)))));
    assert!(matches!(ch.send(&GosValue::Int(3)), ChanStep::Done(None)));
    ch.close();
    assert!(matches!(ch.send(&GosValue::Int(4)), ChanStep::Closed));
    assert!(matches!(ch.recv(), ChanStep::Done(Some(GosValue::Int(2)))));
    assert!(matches!(ch.recv(), ChanStep::Done(Some(GosValue::Int(3)))));
    assert!(matches!(ch.recv(), ChanStep::Closed));
    assert_eq!(ch.cap(), 2);
}

#[test]
fn pointers_to_one_place_hash_alike() {
    let m = GosMetadata::NonPtr(u64_to_key(4), MetaCategory::Default);
    let a = PointerObj::Slice(7, GosMetadata::Untyped);
    let b = PointerObj::Slice(7, m);
    assert!(a.same_place(&b));
    assert_eq!(a.hash_parts(), b.hash_parts());
    assert_eq!(a.hash_parts(), (4, 7, 0));
    assert_ne!(a.hash_parts(), PointerObj::GosMap(7, m).hash_parts());
    assert_eq!(PointerObj::StructField(2, 5).hash_parts(), (7, 2, 5));
    assert_eq!(PointerObj::SliceMember(2, -1).hash_parts(), (6, 2, -1));
    let pkg: PackageKey = u64_to_key(0x3_0000_0009);
    assert_eq!(PointerObj::PkgMember(pkg, 1).hash_parts(), (9, 0x3_0000_0009, 1));
    assert_eq!(PointerObj::UpVal(UpValue { inner: 3 }).hash_parts(), (1, 3, 0));
    assert_eq!(PointerObj::UserData(8).hash_parts().0, 8);
    assert_eq!(PointerObj::Struct(1, m).hash_parts().0, 2);
    assert_eq!(PointerObj::Array(1, m).hash_parts().0, 3);
}

#[test]
fn test_g2display() {
    // The text of a composite: the texts of its parts between brackets.
    let parts = vec!["1".to_string(), "two".to_string(), "3".to_string()];
    assert_eq!(bracketed("[", &parts, "]"), "[1 two 3]");
    assert_eq!(bracketed("{", &parts[..1].to_vec(), "}"), "{1}");
    assert_eq!(bracketed("[", &Vec::new(), "]"), "[]");
    assert_eq!(bracketed("", &vec!["".to_string(), "".to_string()], ""), " ");
    let entries = vec![entry_text("a", "1"), entry_text("b", "[2 3]")];
    assert_eq!(bracketed("map[", &entries, "]"), "map[a:1 b:[2 3]]");
    assert_eq!(entry_text("", ""), ":");
}

#[test]
fn objects_in_the_store_are_changed_in_place() {
    let mut gcos = GcoVec::new();
    let s = GosValue::new_slice(1, 1, GosMetadata::Untyped, Some(&GosValue::Int(5)), &mut gcos);
    let k = match s {
        GosValue::Slice(k) => k,
        _ => unreachable!(),
    };
    let mut header = *gcos.slice(k).unwrap();
    header.push(GosValue::Int(6), &mut gcos);
    *gcos.slice_mut(k) = header;
    assert_eq!(gcos.slice(k).unwrap().len(), 2);
    assert_eq!(window(gcos.slice(k).unwrap(), &gcos), vec![5, 6]);
    let ch = gcos.add(GcObj::Channel(ChannelObj::new(GosMetadata::Untyped, 1)));
    assert!(matches!(gcos.channel_mut(ch).send(&GosValue::Int(1)), ChanStep::Done(None)));
    assert_eq!(gcos.channel(ch).unwrap().len(), 1);
    let m = GosValue::new_map(GosMetadata::Untyped, GosValue::Int(0), &mut gcos);
    let km = match m {
        GosValue::GosMap(k) => k,
        _ => unreachable!(),
    };
    let table = gcos.map(km).unwrap().clone_inner();
    gcos.table_mut(table).insert(GosValue::Int(1), GosValue::Int(2));
    assert_eq!(gcos.map(km).unwrap().clone().len(&gcos), 1);
    let i = gcos.add(GcObj::Interface(InterfaceObj::new(GosMetadata::Untyped, IfaceUnderlying::Empty)));
    gcos.interface_mut(i).set_underlying(IfaceUnderlying::Gos(GosValue::Int(1), None));
    assert!(!gcos.interface(i).unwrap().is_nil());
    assert!(gcos.closure(i).is_none());
    assert!(gcos.array(k).is_none());
    assert!(gcos.buffer(k).is_none());
    assert!(gcos.table(k).is_none());
}

#[test]
fn test_select() {
    // Of several channels the one that is ready makes its step.
    let mut a = ChannelObj::new(GosMetadata::Untyped, 0);
    let mut b = ChannelObj::new(GosMetadata::Untyped, 1);
    assert!(matches!(a.send(&GosValue::Int(1)), ChanStep::Suspend));
    assert!(matches!(a.recv(), ChanStep::Suspend));
    assert!(matches!(b.recv(), ChanStep::Suspend));
    assert!(matches!(b.send(&GosValue::Int(1)), ChanStep::Done(None)));
    assert!(matches!(b.recv(), ChanStep::Done(Some(GosValue::Int(1)))));
    a.close();
    assert!(matches!(a.recv(), ChanStep::Closed));
}

#[test]
fn package_initialisation_is_one_way() {
    let mut p = PackageVal::new("main".to_string());
    assert!(!p.inited());
    assert_eq!(p.add_member("x".to_string(), GosValue::Int(0)), 0);
    assert_eq!(p.add_member("init$x".to_string(), GosValue::Function(u64_to_key(1))), 1);
    assert_eq!(p.add_member("y".to_string(), GosValue::Int(0)), 2);
    assert_eq!(p.get_member_index("y"), Some(2));
    assert_eq!(p.get_member_index("z"), None);
    assert_eq!(p.add_var_mapping("x".to_string(), 1), 0);
    assert_eq!(p.var_count(), 1);
    *p.var_mut(1) = GosValue::Int(5);
    assert!(matches!(p.member(0), GosValue::Int(5)));
    *p.member_mut(2) = GosValue::Int(6);
    assert!(matches!(p.member(2), GosValue::Int(6)));
    assert!(!p.inited());
    p.set_inited();
    assert!(p.inited());
    p.add_member("late".to_string(), GosValue::Int(1));
    *p.member_mut(0) = GosValue::Int(8);
    assert!(p.inited());
    p.set_inited();
    assert!(p.inited());
}

#[test]
fn test_g2case1() {
    // A function for a signature gets the zero values of its results.
    let mut objs = VMObjects::new();
    let mut gcos = GcoVec::new();
    let md = &objs.metadata;
    let (mint, mstr, mbool) = (md.mint, md.mstr, md.mbool);
    let slice = GosMetadata::new_slice(mint, &mut objs.metas);
    let sig = GosMetadata::new_sig(Some(mstr.ptr_to()), vec![mint, mbool], vec![mint, mstr, slice], None, &mut objs.metas);
    let f = FunctionVal::new(u64_to_key(1), sig, &objs, &mut gcos, FuncFlag::Default);
    assert_eq!(f.param_count(), 3);
    assert_eq!(f.ret_count(), 3);
    assert!(matches!(f.ret_zeros[0], GosValue::Int(0)));
    match &f.ret_zeros[1] {
        GosValue::Str(s) => assert_eq!(s.len(), 0),
        other => panic!("not a string: {:?}", other),
    }
    match &f.ret_zeros[2] {
        GosValue::Slice(k) => assert!(gcos.slice(*k).unwrap().is_nil()),
        other => panic!("not a slice: {:?}", other),
    }
    assert_eq!(f.meta(), sig);
    assert_eq!(f.flag(), FuncFlag::Default);
    let view = SliceRef::new(&SliceObj::with_data(ints(&[4, 5]), slice, &mut gcos), &gcos).get(1).cloned();
    assert!(matches!(view, Some(GosValue::Int(5))));
}
