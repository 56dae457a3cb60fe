use com::{
    iid_iunknown, Binding, CoClass, ComError, ComPtr, IUnknown, Iid, Runtime, Slot,
};

fn iid_ianimal() -> Iid {
    Iid::new(0xeff8970e, 0xc50f, 0x45e0, 0x9284_2919_34d2_ea34)
}

fn iid_idomestic_animal() -> Iid {
    Iid::new(0xc22425df, 0xefb2, 0x4b85, 0x933e_9cf7_b234_58e8)
}

fn iid_icat() -> Iid {
    Iid::new(0xf5353c58, 0xcfd9, 0x4204, 0x8d92_d274_c49c_e9b7)
}

fn iid_iexample() -> Iid {
    Iid::new(0xc5f45cbc, 0x4439, 0x418c, 0xa9f9_05ac_6705_25e0)
}

fn clsid_cat() -> Iid {
    Iid::new(0xc5f45cbc, 0x4439, 0x418c, 0xa9f9_05ac_6705_25e1)
}

fn names(ns: &[&str]) -> Vec<String> {
    ns.iter().map(|n| n.to_string()).collect()
}

fn cat_class() -> CoClass {
    CoClass::new(
        clsid_cat(),
        "BritishShortHairCat".to_string(),
        vec![vec![iid_idomestic_animal(), iid_ianimal()], vec![iid_icat()]],
        vec![
            Binding { iid: iid_ianimal(), methods: names(&["Eat", "Happiness"]) },
            Binding { iid: iid_idomestic_animal(), methods: names(&["Train"]) },
            Binding { iid: iid_icat(), methods: names(&["IgnoreHumans"]) },
        ],
        names(&["happiness"]),
    )
    .unwrap()
}

fn cat_runtime() -> Runtime {
    Runtime::new(vec![cat_class()]).unwrap()
}

/// Runs the method body that a slot of `p` forwards to.
fn invoke(rt: &mut Runtime, p: ComPtr, slot: usize, arg: i64) -> Option<i64> {
    match rt.dispatch(p, slot)? {
        Slot::Method { iface, index: 0 } if iface == iid_ianimal() => {
            assert!(rt.set_field(p, 0, arg));
            None
        }
        Slot::Method { iface, index: 1 } if iface == iid_ianimal() => rt.field(p, 0),
        _ => None,
    }
}

#[test]
fn cat_scenario() {
    let mut rt = cat_runtime();
    let factory = rt.get_class_object(clsid_cat()).unwrap();
    let unknown = rt.create_instance(factory, iid_iunknown()).unwrap();
    assert_eq!(rt.instances[unknown.instance].refs, 1);

    let animal = rt.query_interface(unknown, iid_ianimal()).expect("IAnimal");
    assert_eq!(rt.interface_id(animal), iid_ianimal());
    assert_eq!(invoke(&mut rt, animal, 3, 10), None);
    assert_eq!(invoke(&mut rt, animal, 4, 0), Some(10));

    let domestic = rt.query_interface(animal, iid_idomestic_animal()).expect("IDomesticAnimal");
    assert_ne!(domestic, animal);
    assert_eq!(domestic.instance, animal.instance);
    assert_eq!(rt.instances[domestic.instance].refs, 3);

    let cat = rt.query_interface(domestic, iid_icat()).expect("ICat");
    assert_ne!(cat.block, domestic.block);
    assert_eq!(rt.interface_id(cat), iid_icat());
    assert_eq!(rt.instances[cat.instance].refs, 4);

    assert_eq!(rt.query_interface(animal, iid_iexample()), None);
    assert_eq!(rt.instances[animal.instance].refs, 4);

    // Releasing the four pointers destroys the instance at the last release only.
    assert_eq!(rt.release(animal), 3);
    assert_eq!(rt.release(domestic), 2);
    assert_eq!(rt.release(cat), 1);
    assert_eq!(rt.field(unknown, 0), Some(10));
    assert_eq!(rt.release(unknown), 0);
    assert_eq!(rt.field(unknown, 0), None);
}

#[test]
fn cat_vtable_layout_puts_parent_first() {
    let rt = cat_runtime();
    let cls = &rt.classes[0];
    let domestic = cls.vtable_layout(0, 0);
    let animal = cls.vtable_layout(0, 1);
    let base = cls.vtable_layout(0, 2);
    assert_eq!(base, vec![Slot::QueryInterface, Slot::AddRef, Slot::Release]);
    assert_eq!(animal.len(), 5);
    assert_eq!(domestic.len(), 6);
    assert_eq!(&domestic[..5], &animal[..]);
    assert_eq!(&animal[..3], &base[..]);
    assert_eq!(animal[3], Slot::Method { iface: iid_ianimal(), index: 0 });
    assert_eq!(domestic[5], Slot::Method { iface: iid_idomestic_animal(), index: 0 });
    let blocks = cls.vtable_blocks();
    assert_eq!(blocks.len(), 2);
    assert_eq!(blocks[0], domestic);
    assert_eq!(
        blocks[1],
        vec![
            Slot::QueryInterface,
            Slot::AddRef,
            Slot::Release,
            Slot::Method { iface: iid_icat(), index: 0 }
        ]
    );
}

#[test]
fn cross_hierarchy_queries_in_both_orders() {
    let mut rt = cat_runtime();
    let a = rt.create_instance_of(clsid_cat(), iid_iunknown()).unwrap();
    let d = rt.query_interface(a, iid_idomestic_animal()).unwrap();
    assert!(rt.query_interface(d, iid_icat()).is_some());
    let b = rt.create_instance_of(clsid_cat(), iid_iunknown()).unwrap();
    let c = rt.query_interface(b, iid_icat()).unwrap();
    assert!(rt.query_interface(c, iid_idomestic_animal()).is_some());
    assert_ne!(a.instance, b.instance);
}

#[test]
fn unimplemented_identity_is_absent() {
    let mut rt = cat_runtime();
    let p = rt.create_instance_of(clsid_cat(), iid_icat()).unwrap();
    assert_eq!(rt.query_interface(p, iid_iexample()), None);
    assert_eq!(rt.query_interface(p, clsid_cat()), None);
    assert_eq!(rt.instances[p.instance].refs, 1);
}

#[test]
fn upcast_then_query_back_round_trips() {
    let mut rt = cat_runtime();
    let p = rt.create_instance_of(clsid_cat(), iid_idomestic_animal()).unwrap();
    let up = rt.upcast(p).unwrap();
    assert_eq!(rt.interface_id(up), iid_ianimal());
    assert_eq!(rt.instances[p.instance].refs, 1);
    let back = rt.query_interface(up, iid_idomestic_animal()).unwrap();
    assert_eq!(back, p);
    assert_eq!(rt.vtable(back), rt.vtable(p));
    let top = rt.upcast(up).unwrap();
    assert_eq!(rt.interface_id(top), iid_iunknown());
    assert_eq!(rt.upcast(top), None);
}

#[test]
fn releasing_a_strict_subset_keeps_the_instance() {
    let mut rt = cat_runtime();
    let first = rt.create_instance_of(clsid_cat(), iid_ianimal()).unwrap();
    let mut ptrs = vec![first];
    for _ in 0..4 {
        ptrs.push(rt.query_interface(first, iid_icat()).unwrap());
    }
    assert_eq!(rt.instances[first.instance].refs, 5);
    for (i, p) in ptrs.iter().enumerate() {
        let left = rt.release(*p);
        assert_eq!(left as usize, 4 - i);
        if i < 4 {
            assert_eq!(rt.field(first, 0), Some(0));
        }
    }
    assert_eq!(rt.field(first, 0), None);
}

#[test]
fn add_ref_counts_a_duplicate() {
    let mut rt = cat_runtime();
    let p = rt.create_instance_of(clsid_cat(), iid_icat()).unwrap();
    assert_eq!(rt.add_ref(p), 2);
    assert_eq!(rt.release(p), 1);
    assert_eq!(rt.release(p), 0);
}

#[test]
fn typed_query_for_the_base_interface() {
    let mut rt = cat_runtime();
    let p = rt.create_instance_of(clsid_cat(), iid_icat()).unwrap();
    let u = rt.query::<IUnknown>(p).unwrap();
    assert_eq!(u, ComPtr { instance: p.instance, block: 0, level: 2 });
    assert_eq!(rt.interface_id(u), iid_iunknown());
}

#[test]
fn unregistered_class_is_reported() {
    let mut rt = cat_runtime();
    assert_eq!(rt.get_class_object(iid_iexample()), Err(ComError::ClassNotRegistered));
    assert_eq!(rt.create_instance_of(iid_iexample(), iid_iunknown()), Err(ComError::ClassNotRegistered));
    assert!(rt.instances.is_empty());
}

#[test]
fn unsupported_target_constructs_nothing() {
    let mut rt = cat_runtime();
    assert_eq!(rt.create_instance_of(clsid_cat(), iid_iexample()), Err(ComError::InterfaceNotSupported));
    assert!(rt.instances.is_empty());
}

#[test]
fn dispatch_past_the_block_is_none() {
    let mut rt = cat_runtime();
    let p = rt.create_instance_of(clsid_cat(), iid_icat()).unwrap();
    assert_eq!(rt.dispatch(p, 3), Some(Slot::Method { iface: iid_icat(), index: 0 }));
    assert_eq!(rt.dispatch(p, 4), None);
}
