use com::{failed, iid_iclassfactory, iid_iunknown, Binding, CoClass, ComError, GenError, Iid, Runtime};

fn iid(n: u32) -> Iid {
    Iid::new(n, 0x1111, 0x2222, 0x3333_4444_5555_6666)
}

fn bind(n: u32, methods: usize) -> Binding {
    Binding { iid: iid(n), methods: (0..methods).map(|i| format!("m{}", i)).collect() }
}

fn class(hs: Vec<Vec<Iid>>, bs: Vec<Binding>) -> Result<CoClass, GenError> {
    CoClass::new(iid(100), "C".to_string(), hs, bs, vec![])
}

#[test]
fn failed_is_negative_status() {
    assert!(failed(-1));
    assert!(failed(i32::MIN));
    assert!(!failed(0));
    assert!(!failed(1));
}

#[test]
fn error_status_codes() {
    assert_eq!(ComError::ClassNotRegistered.hresult(), 0x80040111u32 as i32);
    assert_eq!(ComError::InterfaceNotSupported.hresult(), 0x80004002u32 as i32);
    assert!(failed(ComError::InterfaceNotSupported.hresult()));
}

#[test]
fn base_identities() {
    assert_eq!(iid_iunknown(), Iid::new(0, 0, 0, 0xC000_0000_0000_0046));
    assert_eq!(iid_iclassfactory(), Iid::new(1, 0, 0, 0xC000_0000_0000_0046));
    assert!(!iid_iunknown().same(&iid_iclassfactory()));
    assert!(iid(5).same(&iid(5)));
}

#[test]
fn empty_declaration_is_rejected() {
    assert_eq!(class(vec![], vec![]).err(), Some(GenError::EmptyDeclaration));
    assert_eq!(class(vec![vec![iid(1)], vec![]], vec![bind(1, 0)]).err(), Some(GenError::EmptyDeclaration));
}

#[test]
fn cyclic_chain_is_rejected() {
    let r = class(vec![vec![iid(1), iid(2), iid(1)]], vec![bind(1, 1), bind(2, 1)]);
    assert_eq!(r.err(), Some(GenError::CyclicHierarchy));
}

#[test]
fn cyclic_beats_missing_binding() {
    let r = class(vec![vec![iid(3)], vec![iid(1), iid(1)]], vec![]);
    assert_eq!(r.err(), Some(GenError::CyclicHierarchy));
}

#[test]
fn missing_binding_is_rejected() {
    let r = class(vec![vec![iid(1), iid(2)]], vec![bind(1, 1)]);
    assert_eq!(r.err(), Some(GenError::MissingImplementation));
}

#[test]
fn runtime_rechecks_classes() {
    let mut bad = class(vec![vec![iid(1)]], vec![bind(1, 1)]).unwrap();
    bad.hierarchies.push(vec![iid(2), iid(2)]);
    assert_eq!(Runtime::new(vec![bad]).err(), Some(GenError::CyclicHierarchy));
}

#[test]
fn identity_declared_twice_resolves_to_first() {
    let c = class(vec![vec![iid(1), iid(2)], vec![iid(3), iid(2)]], vec![bind(1, 1), bind(2, 2), bind(3, 0)]).unwrap();
    assert_eq!(c.resolve(iid(2)), Some((0, 1)));
    assert_eq!(c.resolve(iid(3)), Some((1, 0)));
    assert_eq!(c.resolve(iid_iunknown()), Some((0, 2)));
    assert_eq!(c.resolve(iid(9)), None);
}

#[test]
fn first_binding_gives_the_method_count() {
    let c = class(vec![vec![iid(1)]], vec![bind(1, 2), bind(1, 5)]).unwrap();
    assert_eq!(c.method_count(iid(1)), 2);
    assert_eq!(c.method_count(iid(7)), 0);
    assert_eq!(c.vtable_layout(0, 0).len(), 5);
}

#[test]
fn fields_start_at_zero() {
    let c = CoClass::new(iid(100), "C".to_string(), vec![vec![iid(1)]], vec![bind(1, 0)], vec!["a".to_string(), "b".to_string()]).unwrap();
    let mut rt = Runtime::new(vec![c]).unwrap();
    let p = rt.create_instance_of(iid(100), iid(1)).unwrap();
    assert_eq!(rt.field(p, 0), Some(0));
    assert_eq!(rt.field(p, 1), Some(0));
    assert_eq!(rt.field(p, 2), None);
    assert!(rt.set_field(p, 1, -7));
    assert!(!rt.set_field(p, 2, 1));
    assert_eq!(rt.field(p, 1), Some(-7));
}
