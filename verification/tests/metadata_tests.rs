use goscript::arena::{
    key_to_u64, u64_to_key, FunctionKey, FunctionObjs, MetadataKey, MetadataObjs, PackageKey,
    PackageObjs,
};
use goscript::gc::{GcObj, GcoVec};
use goscript::instruction::ValueType;
use goscript::metadata::{
    ChannelType, Fields, GosMetadata, MetaCategory, Metadata, MetadataType, MethodDesc, Methods,
    SigMetadata,
};
use goscript::names::NameTable;
use goscript::objects::{FuncFlag, FunctionVal, PackageVal, VMObjects};
use goscript::value::GosValue;

fn named_fields(types: Vec<GosMetadata>, names: &[&str]) -> Fields {
    let mut table = NameTable::new();
    for (i, n) in names.iter().enumerate() {
        table.insert(n.to_string(), i as i32);
    }
    Fields::new(types, table)
}

#[test]
fn handles_survive_the_trip_through_64_bits() {
    let mut metas = MetadataObjs::with_capacity(4);
    assert_eq!(metas.len(), 0);
    let a = metas.insert(MetadataType::Bool);
    let b = metas.insert(MetadataType::Int);
    assert_ne!(a, b);
    assert_eq!(metas.len(), 2);
    let back: MetadataKey = u64_to_key(key_to_u64(a));
    assert_eq!(back, a);
    assert!(matches!(metas.get(back), Some(MetadataType::Bool)));
    assert!(matches!(metas.get(b), Some(MetadataType::Int)));
    assert!(metas.contains_key(a));
    // Any 64 bits give a handle; the version half is made odd.
    let odd: MetadataKey = u64_to_key(0x5_0000_0007);
    let even: MetadataKey = u64_to_key(0x4_0000_0007);
    assert_eq!(key_to_u64(odd), 0x5_0000_0007);
    assert_eq!(key_to_u64(even), 0x5_0000_0007);
    assert_eq!(odd, even);
    let zero: MetadataKey = u64_to_key(0);
    assert_eq!(key_to_u64(zero), 0x1_0000_0000);
    assert!(!metas.contains_key(odd));
    assert!(metas.get(zero).is_none());
    let top: MetadataKey = u64_to_key(u64::MAX);
    assert_eq!(key_to_u64(top), u64::MAX);
    // A handle of the arena read back from bits with the version's lowest
    // bit cleared is the same handle.
    let cleared: MetadataKey = u64_to_key(key_to_u64(a) & !0x1_0000_0000);
    assert_eq!(cleared, a);
    *metas.get_mut(a) = MetadataType::Uint8;
    assert!(matches!(metas.get(a), Some(MetadataType::Uint8)));
    assert!(matches!(metas.get(b), Some(MetadataType::Int)));
    assert_eq!(metas.len(), 2);
}

#[test]
fn arenas_of_functions_and_packages() {
    let mut fobjs = FunctionObjs::with_capacity(0);
    let mut pobjs = PackageObjs::with_capacity(0);
    let pk = pobjs.insert(PackageVal::new("a".to_string()));
    let pk2 = pobjs.insert(PackageVal::new("b".to_string()));
    assert_ne!(pk, pk2);
    pobjs.get_mut(pk).add_member("x".to_string(), GosValue::Int(1));
    assert_eq!(pobjs.get(pk).unwrap().get_member_index("x"), Some(0));
    assert_eq!(pobjs.get(pk2).unwrap().get_member_index("x"), None);
    assert_eq!(pobjs.len(), 2);
    assert!(pobjs.contains_key(pk2));
    let fk = fobjs.insert(FunctionVal::with_signature(pk, GosMetadata::Untyped, vec![], 2, FuncFlag::PkgCtor));
    fobjs.get_mut(fk).add_local(None);
    assert_eq!(fobjs.get(fk).unwrap().param_count(), 2);
    let missing: FunctionKey = u64_to_key(12345);
    assert!(fobjs.get(missing).is_none());
    assert!(!fobjs.contains_key(missing));
    let back: PackageKey = u64_to_key(key_to_u64(pk2));
    assert_eq!(back, pk2);
}

#[test]
fn indirection_goes_up_to_seven_and_back() {
    let k: MetadataKey = u64_to_key(1);
    let base = GosMetadata::NonPtr(k, MetaCategory::Array);
    let mut m = base;
    let mut seen = vec![m];
    for _ in 0..7 {
        let up = m.ptr_to();
        assert_eq!(up.unptr_to(), m);
        m = up;
        seen.push(m);
    }
    assert_eq!(m, GosMetadata::Ptr7(k, MetaCategory::Array));
    for i in (1..8).rev() {
        assert_eq!(seen[i].unptr_to(), seen[i - 1]);
        assert_eq!(seen[i].unptr_to().ptr_to(), seen[i]);
    }
    assert_eq!(GosMetadata::Ptr3(k, MetaCategory::Default).ptr_to(), GosMetadata::Ptr4(k, MetaCategory::Default));
    assert_eq!(base.as_non_ptr(), k);
    assert_eq!(base.unwrap_non_ptr(), (k, MetaCategory::Array));
    assert_eq!(base.ptr_to().unwrap_non_ptr_or_prt1(), (k, MetaCategory::Array));
    assert_eq!(base.ptr_to().recv_meta_key(), k);
    assert_eq!(base.into_type_category(), GosMetadata::NonPtr(k, MetaCategory::ArrayType));
    assert_eq!(
        GosMetadata::Ptr2(k, MetaCategory::Default).into_type_category(),
        GosMetadata::Ptr2(k, MetaCategory::Type)
    );
    assert_eq!(
        GosMetadata::Ptr2(k, MetaCategory::Type).into_type_category(),
        GosMetadata::Ptr2(k, MetaCategory::Type)
    );
    assert_eq!(GosMetadata::new_slice_from_array(base), GosMetadata::NonPtr(k, MetaCategory::Default));
}

#[test]
fn test_type() {
    let mut objs = VMObjects::new();
    let mut gcos = GcoVec::new();
    let md = Metadata { ..objs.metadata };
    let metas = &mut objs.metas;

    // Every descriptor equals itself; equality does not depend on the side.
    let int_slice = GosMetadata::new_slice(md.mint, metas);
    let int_slice2 = GosMetadata::new_slice(md.mint, metas);
    let str_slice = GosMetadata::new_slice(md.mstr, metas);
    assert_ne!(int_slice, int_slice2);
    assert!(int_slice.semantic_eq(&int_slice, metas));
    assert!(int_slice.semantic_eq(&int_slice2, metas));
    assert!(int_slice2.semantic_eq(&int_slice, metas));
    assert!(!int_slice.semantic_eq(&str_slice, metas));
    assert!(!str_slice.semantic_eq(&int_slice, metas));
    assert!(GosMetadata::Untyped.semantic_eq(&GosMetadata::Untyped, metas));
    assert!(!GosMetadata::Untyped.semantic_eq(&md.mint, metas));
    assert!(!md.mint.semantic_eq(&md.mint.ptr_to(), metas));
    assert!(int_slice.ptr_to().semantic_eq(&int_slice2.ptr_to(), metas));
    assert!(!md.mint.semantic_eq(&md.mint.into_type_category(), metas));

    // Predeclared types under two handles match.
    let uint_again = GosMetadata::new(MetadataType::Uint, metas);
    assert!(md.muint.semantic_eq(&uint_again, metas));
    assert!(!md.muint.semantic_eq(&md.mint, metas));
    assert!(!md.mint8.semantic_eq(&md.muint8, metas));

    // The size counts for arrays.
    let arr3 = GosMetadata::new_array(md.mint, 3, metas);
    let arr3b = GosMetadata::new_array(md.mint, 3, metas);
    let arr4 = GosMetadata::new_array(md.mint, 4, metas);
    assert!(arr3.semantic_eq(&arr3b, metas));
    assert!(!arr3.semantic_eq(&arr4, metas));
    assert!(!arr3.semantic_eq(&int_slice, metas));

    let map1 = GosMetadata::new_map(md.mstr, int_slice, metas);
    let map2 = GosMetadata::new_map(md.mstr, int_slice2, metas);
    let map3 = GosMetadata::new_map(md.mint, int_slice, metas);
    assert!(map1.semantic_eq(&map2, metas));
    assert!(!map1.semantic_eq(&map3, metas));

    let chan1 = GosMetadata::new_channel(ChannelType::Send, md.mint, metas);
    let chan2 = GosMetadata::new_channel(ChannelType::Send, md.mint, metas);
    let chan3 = GosMetadata::new_channel(ChannelType::Recv, md.mint, metas);
    assert!(chan1.semantic_eq(&chan2, metas));
    assert!(!chan1.semantic_eq(&chan3, metas));

    // Signatures compare receivers, parameters, results and the variadic
    // element type.
    let sig1 = GosMetadata::new_sig(None, vec![md.mint, md.mstr], vec![md.mbool], None, metas);
    let sig2 = GosMetadata::new_sig(None, vec![md.mint, md.mstr], vec![md.mbool], None, metas);
    let sig3 = GosMetadata::new_sig(None, vec![md.mint, md.mstr], vec![md.mbool, md.mbool], None, metas);
    let sig4 = GosMetadata::new_sig(Some(md.mint), vec![md.mint, md.mstr], vec![md.mbool], None, metas);
    let sig5 = GosMetadata::new_sig(None, vec![md.mint], vec![md.mint], Some((md.mint, int_slice)), metas);
    let sig6 = GosMetadata::new_sig(None, vec![md.mint], vec![md.mint], Some((md.mstr, str_slice)), metas);
    let sig7 = GosMetadata::new_sig(None, vec![md.mbool], vec![md.mint, md.mstr], None, metas);
    assert!(sig1.semantic_eq(&sig2, metas));
    assert!(!sig1.semantic_eq(&sig3, metas));
    assert!(!sig3.semantic_eq(&sig1, metas));
    assert!(!sig1.semantic_eq(&sig4, metas));
    assert!(!sig5.semantic_eq(&sig6, metas));
    assert!(!sig1.semantic_eq(&sig7, metas));
    assert!(!sig7.semantic_eq(&sig1, metas));
    assert!(md.default_sig.semantic_eq(&GosMetadata::new_sig(None, vec![], vec![], None, metas), metas));
    match metas.get(sig1.as_non_ptr()).unwrap() {
        MetadataType::Signature(sig) => {
            assert_eq!(sig.params_type, vec![ValueType::Int, ValueType::Str]);
            assert!(!sig.pointer_recv());
        }
        _ => panic!("not a signature"),
    }
    assert!(!metas.get(sig4.as_non_ptr()).unwrap().as_signature().pointer_recv());

    // Two struct types built apart from the same fields match.
    let point1 = GosMetadata::new_struct(named_fields(vec![md.mint, int_slice], &["x", "y"]), &mut objs, &mut gcos);
    let point2 = GosMetadata::new_struct(named_fields(vec![md.mint, int_slice2], &["a", "b"]), &mut objs, &mut gcos);
    let point3 = GosMetadata::new_struct(named_fields(vec![int_slice, md.mint], &["x", "y"]), &mut objs, &mut gcos);
    let point4 = GosMetadata::new_struct(named_fields(vec![md.mint], &["x"]), &mut objs, &mut gcos);
    let metas = &mut objs.metas;
    assert_ne!(point1, point2);
    assert!(point1.semantic_eq(&point2, metas));
    assert!(point2.semantic_eq(&point1, metas));
    assert!(!point1.semantic_eq(&point3, metas));
    assert!(!point1.semantic_eq(&point4, metas));

    // Named types match by handle, or by what they stand for.
    let named1 = GosMetadata::new_named(point1, metas);
    let named2 = GosMetadata::new_named(point2, metas);
    let named3 = GosMetadata::new_named(md.mint, metas);
    assert!(named1.semantic_eq(&named1, metas));
    assert!(named1.semantic_eq(&named2, metas));
    assert!(!named1.semantic_eq(&named3, metas));
    assert!(!named1.semantic_eq(&point1, metas));
    assert_eq!(named1.get_underlying(metas), point1);
    assert_eq!(point1.get_underlying(metas), point1);
    assert_eq!(named1.ptr_to().get_underlying(metas), named1.ptr_to());
    assert_eq!(named1.field_index("y", metas), 1);
    assert_eq!(named1.ptr_to().field_index("x", metas), 0);
    assert_eq!(point2.field_index("b", metas), 1);

    let iface1 = GosMetadata::new_interface(named_fields(vec![sig1], &["String"]), metas);
    let iface2 = GosMetadata::new_interface(named_fields(vec![sig2], &["Text"]), metas);
    assert!(iface1.semantic_eq(&iface2, metas));
    assert!(!iface1.semantic_eq(&md.empty_iface, metas));
    assert_eq!(metas.get(iface1.as_non_ptr()).unwrap().as_interface().fields.len(), 1);
    let (dir, elem) = metas.get(chan3.as_non_ptr()).unwrap().as_channel();
    assert_eq!((*dir, *elem), (ChannelType::Recv, md.mint));
    let (fields, zero) = metas.get(point4.as_non_ptr()).unwrap().as_struct();
    assert_eq!(fields.fields, vec![md.mint]);
    assert!(matches!(zero, GosValue::Struct(_)));

    // The comparison can follow no more handles than it is given.
    assert!(!int_slice.semantic_eq_bounded(&int_slice2, metas, 0));
    assert!(int_slice.semantic_eq_bounded(&int_slice2, metas, 1));
    assert!(!map1.semantic_eq_bounded(&map2, metas, 1));
    assert!(map1.semantic_eq_bounded(&map2, metas, 2));
    let sig = SigMetadata::default();
    assert!(sig.semantic_eq(&SigMetadata::default(), metas, 0));
    assert!(MetadataType::Str(GosValue::Int(0)).semantic_eq(&MetadataType::Str(GosValue::Int(1)), MetaCategory::Default, metas, 0));
    assert!(!MetadataType::Bool.semantic_eq(&MetadataType::Int, MetaCategory::Default, metas, 3));
    assert!(named_fields(vec![md.mint], &["a"]).semantic_eq(&named_fields(vec![md.mint], &["b"]), metas, 0));
}

#[test]
fn test_typeswitch() {
    let mut objs = VMObjects::new();
    let mut gcos = GcoVec::new();
    let md = Metadata { ..objs.metadata };
    let metas = &mut objs.metas;
    assert_eq!(metas.len(), 19);
    let kinds = [
        (md.mbool, ValueType::Bool),
        (md.mint, ValueType::Int),
        (md.mint8, ValueType::Int8),
        (md.mint16, ValueType::Int16),
        (md.mint32, ValueType::Int32),
        (md.mint64, ValueType::Int64),
        (md.muint, ValueType::Uint),
        (md.muint8, ValueType::Uint8),
        (md.muint16, ValueType::Uint16),
        (md.muint32, ValueType::Uint32),
        (md.muint64, ValueType::Uint64),
        (md.mfloat32, ValueType::Float32),
        (md.mfloat64, ValueType::Float64),
        (md.mcomplex64, ValueType::Complex64),
        (md.mcomplex128, ValueType::Complex128),
        (md.mstr, ValueType::Str),
        (md.unsafe_ptr, ValueType::Pointer),
        (md.default_sig, ValueType::Closure),
        (md.empty_iface, ValueType::Interface),
    ];
    for (m, t) in kinds.iter() {
        assert_eq!(m.get_value_type(metas), *t);
    }
    let slice = GosMetadata::new_slice(md.mint, metas);
    let array = GosMetadata::new_array(md.mint, 2, metas);
    let map = GosMetadata::new_map(md.mint, md.mint, metas);
    let chan = GosMetadata::new_channel(ChannelType::SendRecv, md.mint, metas);
    let named = GosMetadata::new_named(md.mint, metas);
    assert_eq!(slice.get_value_type(metas), ValueType::Slice);
    assert_eq!(array.get_value_type(metas), ValueType::Array);
    assert_eq!(map.get_value_type(metas), ValueType::GosMap);
    assert_eq!(chan.get_value_type(metas), ValueType::Channel);
    assert_eq!(named.get_value_type(metas), ValueType::Named);
    assert_eq!(named.ptr_to().get_value_type(metas), ValueType::Pointer);
    assert_eq!(md.mint.into_type_category().get_value_type(metas), ValueType::Metadata);
    assert_eq!(array.into_type_category().get_value_type(metas), ValueType::Metadata);
    let st = GosMetadata::new_struct(named_fields(vec![], &[]), &mut objs, &mut gcos);
    assert_eq!(st.get_value_type(&objs.metas), ValueType::Struct);
    assert_eq!(GosValue::Int(1).get_type(), ValueType::Int);
    assert_eq!(GosValue::Nil(md.mint).get_type(), ValueType::Zero);
    assert_eq!(GosValue::Named(Box::new(GosValue::Int(1)), named).get_type(), ValueType::Named);
    assert_eq!(GosValue::GosMap(0).get_type(), ValueType::GosMap);
}

#[test]
fn test_basictypes() {
    let objs = VMObjects::new();
    let mut gcos = GcoVec::new();
    let md = &objs.metadata;
    let metas = &objs.metas;
    assert!(matches!(md.mbool.zero_val(metas, &mut gcos), GosValue::Bool(false)));
    assert!(matches!(md.mint.zero_val(metas, &mut gcos), GosValue::Int(0)));
    assert!(matches!(md.mint8.zero_val(metas, &mut gcos), GosValue::Int8(0)));
    assert!(matches!(md.mint16.zero_val(metas, &mut gcos), GosValue::Int16(0)));
    assert!(matches!(md.mint32.zero_val(metas, &mut gcos), GosValue::Int32(0)));
    assert!(matches!(md.mint64.zero_val(metas, &mut gcos), GosValue::Int64(0)));
    assert!(matches!(md.muint.zero_val(metas, &mut gcos), GosValue::Uint(0)));
    assert!(matches!(md.muint8.zero_val(metas, &mut gcos), GosValue::Uint8(0)));
    assert!(matches!(md.muint16.zero_val(metas, &mut gcos), GosValue::Uint16(0)));
    assert!(matches!(md.muint32.zero_val(metas, &mut gcos), GosValue::Uint32(0)));
    assert!(matches!(md.muint64.default_val(metas, &mut gcos), GosValue::Uint64(0)));
    match md.mfloat32.zero_val(metas, &mut gcos) {
        GosValue::Float32(f) => assert_eq!(f32::from_bits(f.bits), 0.0),
        other => panic!("not a float: {:?}", other),
    }
    match md.mfloat64.default_val(metas, &mut gcos) {
        GosValue::Float64(f) => assert_eq!(f64::from_bits(f.bits), 0.0),
        other => panic!("not a float: {:?}", other),
    }
    match md.mcomplex64.zero_val(metas, &mut gcos) {
        GosValue::Complex64(re, im) => assert_eq!((re.bits, im.bits), (0, 0)),
        other => panic!("not a complex: {:?}", other),
    }
    match md.mcomplex128.zero_val(metas, &mut gcos) {
        GosValue::Complex128(re, im) => assert_eq!((re.bits, im.bits), (0, 0)),
        other => panic!("not a complex: {:?}", other),
    }
    match md.mstr.zero_val(metas, &mut gcos) {
        GosValue::Str(s) => assert_eq!(s.as_str(), ""),
        other => panic!("not a string: {:?}", other),
    }
    // Pointers, functions and interfaces start as nil.
    for m in [md.unsafe_ptr, md.default_sig, md.empty_iface, md.mint.ptr_to(), GosMetadata::Untyped] {
        match m.zero_val(metas, &mut gcos) {
            GosValue::Nil(of) => assert_eq!(of, m),
            other => panic!("not nil: {:?}", other),
        }
        assert!(matches!(m.default_val(metas, &mut gcos), GosValue::Nil(_)));
    }
    // A descriptor without a definition has nil too.
    let stray = GosMetadata::NonPtr(u64_to_key(777), MetaCategory::Default);
    assert!(matches!(stray.zero_val(metas, &mut gcos), GosValue::Nil(_)));
    assert_eq!(gcos.len(), 0);
}

#[test]
fn test_g2case2() {
    // Zero values of composite types.
    let mut objs = VMObjects::new();
    let mut gcos = GcoVec::new();
    let md = Metadata { ..objs.metadata };
    let slice = GosMetadata::new_slice(md.mint, &mut objs.metas);
    let map = GosMetadata::new_map(md.mstr, slice, &mut objs.metas);
    let array = GosMetadata::new_array(slice, 3, &mut objs.metas);
    let grid = GosMetadata::new_array(array, 2, &mut objs.metas);
    let chan = GosMetadata::new_channel(ChannelType::Send, md.mint, &mut objs.metas);
    let point = GosMetadata::new_struct(named_fields(vec![md.mint, slice, array], &["x", "s", "a"]), &mut objs, &mut gcos);
    let named = GosMetadata::new_named(point, &mut objs.metas);
    let metas = &objs.metas;

    // The zero slice is nil, the default slice is empty.
    match slice.zero_val(metas, &mut gcos) {
        GosValue::Slice(k) => {
            let s = gcos.slice(k).unwrap();
            assert!(s.is_nil());
            assert_eq!((s.len(), s.cap(), s.meta()), (0, 0, slice));
        }
        other => panic!("not a slice: {:?}", other),
    }
    match slice.default_val(metas, &mut gcos) {
        GosValue::Slice(k) => {
            let s = *gcos.slice(k).unwrap();
            assert!(!s.is_nil());
            assert_eq!((s.len(), s.cap()), (0, 0));
            assert!(s.get_vec(&gcos).is_empty());
        }
        other => panic!("not a slice: {:?}", other),
    }
    // So with maps; the value for absent keys is a default of the value
    // type.
    match map.zero_val(metas, &mut gcos) {
        GosValue::GosMap(k) => {
            let m = gcos.map(k).unwrap();
            assert!(m.is_nil());
            assert_eq!(m.meta(), map);
            match m.default_val() {
                GosValue::Slice(d) => assert!(!gcos.slice(*d).unwrap().is_nil()),
                other => panic!("not a slice: {:?}", other),
            }
        }
        other => panic!("not a map: {:?}", other),
    }
    match map.default_val(metas, &mut gcos) {
        GosValue::GosMap(k) => {
            let m = gcos.map(k).unwrap().clone();
            assert!(!m.is_nil());
            assert_eq!(m.len(&gcos), 0);
        }
        other => panic!("not a map: {:?}", other),
    }
    assert!(matches!(chan.zero_val(metas, &mut gcos), GosValue::Nil(_)));

    // An array of arrays of slices: each element has its own objects.
    let g = grid.zero_val(metas, &mut gcos);
    let rows = match g {
        GosValue::Array(k) => *gcos.array(k).unwrap(),
        other => panic!("not an array: {:?}", other),
    };
    assert_eq!(rows.meta, grid);
    assert_eq!(rows.len(&gcos), 2);
    let mut buffers = vec![];
    for r in 0..2 {
        let row = match rows.get(r, &gcos).unwrap() {
            GosValue::Array(k) => *gcos.array(k).unwrap(),
            other => panic!("not an array: {:?}", other),
        };
        assert_eq!(row.meta, array);
        assert_eq!(row.len(&gcos), 3);
        buffers.push(row.vec);
        for c in 0..3 {
            match row.get(c, &gcos).unwrap() {
                GosValue::Slice(k) => assert!(!gcos.slice(k).unwrap().is_nil()),
                other => panic!("not a slice: {:?}", other),
            }
        }
    }
    assert_ne!(buffers[0], buffers[1]);

    // The zero value of a struct type is a copy of the type's template.
    let tmpl = match metas.get(point.as_non_ptr()).unwrap() {
        MetadataType::Struct(_, GosValue::Struct(k)) => *k,
        _ => panic!("no template"),
    };
    {
        let t = gcos.struct_obj(tmpl).unwrap();
        assert_eq!(t.meta, point);
        assert_eq!(t.fields.len(), 3);
        assert!(matches!(t.fields[0], GosValue::Int(0)));
    }
    let z = named.zero_val(metas, &mut gcos);
    let ks = match z {
        GosValue::Named(inner, m) => {
            assert_eq!(m, point);
            match *inner {
                GosValue::Struct(k) => k,
                other => panic!("not a struct: {:?}", other),
            }
        }
        other => panic!("not named: {:?}", other),
    };
    assert_ne!(ks, tmpl);
    assert!(matches!(gcos.struct_obj(ks).unwrap().fields[0], GosValue::Int(0)));
    assert_eq!(gcos.struct_obj(ks).unwrap().meta, point);
}

#[test]
fn test_interface2() {
    // A named type's methods, and their places in an interface.
    let mut objs = VMObjects::new();
    let md = Metadata { ..objs.metadata };
    let metas = &mut objs.metas;
    let named = GosMetadata::new_named(md.mint, metas);
    named.add_method("String".to_string(), false, metas);
    named.ptr_to().add_method("Set".to_string(), true, metas);
    named.add_method("Len".to_string(), false, metas);
    let func_a: FunctionKey = u64_to_key(101);
    let func_b: FunctionKey = u64_to_key(102);
    named.set_method_code(&"Set".to_string(), func_b, metas);
    named.set_method_code(&"String".to_string(), func_a, metas);
    assert_eq!(named.get_method(0, metas), MethodDesc { pointer_recv: false, func: Some(func_a) });
    assert_eq!(named.get_method(1, metas), MethodDesc { pointer_recv: true, func: Some(func_b) });
    assert_eq!(named.ptr_to().get_method(2, metas), MethodDesc { pointer_recv: false, func: None });

    let sig = md.default_sig;
    let iface = named_fields(vec![sig, sig], &["Set", "String"]);
    let table: Methods = match metas.get(named.as_non_ptr()).unwrap() {
        MetadataType::Named(m, u) => {
            assert_eq!(*u, md.mint);
            Methods { members: m.members.clone(), mapping: m.mapping.duplicate() }
        }
        _ => panic!("not named"),
    };
    assert_eq!(table.mapping.get("Len"), Some(2));
    let mapping = iface.iface_named_mapping(&table);
    assert_eq!(mapping, vec![Some(1), Some(0)]);
    assert_eq!(named.get_method(mapping[0].unwrap(), metas), MethodDesc { pointer_recv: true, func: Some(func_b) });
    assert_eq!(named.get_method(mapping[1].unwrap(), metas), MethodDesc { pointer_recv: false, func: Some(func_a) });
    // Code that a method gets after the mapping was made is seen through
    // the mapping.
    let mut with_len = named_fields(vec![sig], &["Len"]);
    let late = with_len.iface_named_mapping(&table);
    assert_eq!(late, vec![Some(2)]);
    assert_eq!(named.get_method(late[0].unwrap(), metas).func, None);
    let func_c: FunctionKey = u64_to_key(103);
    named.set_method_code(&"Len".to_string(), func_c, metas);
    assert_eq!(named.get_method(late[0].unwrap(), metas).func, Some(func_c));
    with_len.fields.push(sig);
    assert_eq!(with_len.iface_named_mapping(&table), vec![Some(2), None]);
    let info = iface.iface_methods_info();
    assert_eq!(info, vec![("Set".to_string(), sig), ("String".to_string(), sig)]);
    let empty = Methods::new();
    assert!(empty.members.is_empty());
    assert_eq!(empty.mapping.len(), 0);
    assert!(Fields::new(vec![], NameTable::new()).iface_named_mapping(&empty).is_empty());
    // Slots without a name stay without a method and a name.
    let partial = named_fields(vec![sig, sig, sig], &["Len"]);
    let info = partial.iface_methods_info();
    assert_eq!(info[0].0, "Len");
    assert_eq!(info[1].0, "");
    assert_eq!(partial.iface_named_mapping(&table), vec![Some(2), None, None]);
}

#[test]
fn name_table_keeps_first_places() {
    let mut t = NameTable::new();
    assert_eq!(t.insert("a".to_string(), 1), None);
    assert_eq!(t.insert("b".to_string(), 2), None);
    assert_eq!(t.insert("a".to_string(), 3), Some(1));
    assert_eq!(t.len(), 2);
    assert_eq!(t.get("a"), Some(3));
    assert_eq!(t.get("b"), Some(2));
    assert_eq!(t.get("c"), None);
    assert_eq!(t.get(""), None);
    assert_eq!((t.name_at(0).as_str(), t.index_at(0)), ("a", 3));
    assert_eq!((t.name_at(1).as_str(), t.index_at(1)), ("b", 2));
    let d = t.duplicate();
    assert_eq!(d.get("a"), Some(3));
    assert_eq!(d.len(), 2);
}

#[test]
fn predeclared_types_have_their_definitions() {
    let objs = VMObjects::new();
    let md = &objs.metadata;
    assert!(matches!(objs.metas.get(md.mbool.as_non_ptr()), Some(MetadataType::Bool)));
    assert!(matches!(objs.metas.get(md.mcomplex128.as_non_ptr()), Some(MetadataType::Complex128)));
    assert!(matches!(objs.metas.get(md.unsafe_ptr.recv_meta_key()), Some(MetadataType::Uint)));
    assert!(matches!(md.unsafe_ptr, GosMetadata::Ptr1(_, MetaCategory::Default)));
    assert_ne!(md.unsafe_ptr.recv_meta_key(), md.muint.as_non_ptr());
    assert_eq!(objs.functions.len(), 0);
    assert_eq!(objs.packages.len(), 0);
    let mut gcos = GcoVec::new();
    let k = gcos.add(GcObj::Released);
    assert_eq!(k, 0);
}
