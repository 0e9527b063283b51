use cryptoki_core::cryptoki::bindings::CK_ATTRIBUTE;
use cryptoki_core::state::object::cryptoki_object::{CryptokiObject, ObjectClass};
use cryptoki_core::state::object::template::Template;
use cryptoki_core::error::CryptokiError;

fn attribute(kind: u64, value: &[u8]) -> CK_ATTRIBUTE {
    CK_ATTRIBUTE { kind, value: value.to_vec() }
}

#[test]
fn empty_template_has_no_attributes() {
    let t = Template::new();
    assert_eq!(t.len(), 0);
    assert_eq!(t.get(0), None);
    let built = Template::build(Vec::new());
    assert_eq!(built.len(), 0);
    assert_eq!(built.get(3), None);
}

#[test]
fn build_keeps_every_kind() {
    let t = Template::build(vec![
        attribute(0, &[4, 0, 0, 0]),
        attribute(0x100, &[0x1f]),
        attribute(0xdead_beef_0000_0001, &[]),
    ]);
    assert_eq!(t.len(), 3);
    assert_eq!(t.get(0), Some(&vec![4u8, 0, 0, 0]));
    assert_eq!(t.get(0x100), Some(&vec![0x1fu8]));
    assert_eq!(t.get(0xdead_beef_0000_0001), Some(&Vec::<u8>::new()));
    assert_eq!(t.get(1), None);
}

#[test]
fn build_lets_the_last_write_win() {
    let t = Template::build(vec![
        attribute(3, b"first"),
        attribute(7, b"other"),
        attribute(3, b"second"),
        attribute(3, b"third"),
    ]);
    assert_eq!(t.len(), 2);
    assert_eq!(t.get(3), Some(&b"third".to_vec()));
    assert_eq!(t.get(7), Some(&b"other".to_vec()));
}

#[test]
fn build_keeps_the_order_of_first_occurrence() {
    let t = Template::build(vec![
        attribute(9, &[1]),
        attribute(2, &[2]),
        attribute(9, &[3]),
        attribute(5, &[4]),
        attribute(2, &[5]),
    ]);
    assert_eq!(t.kinds(), vec![9u64, 2, 5]);
    assert_eq!(t.get(9), Some(&vec![3u8]));
    assert_eq!(t.get(2), Some(&vec![5u8]));
    assert_eq!(t.get(5), Some(&vec![4u8]));
    assert_eq!(Template::new().kinds(), Vec::<u64>::new());
}

#[test]
fn set_replaces_in_place_and_appends_new_kinds() {
    let mut t = Template::new();
    t.set(attribute(1, &[1]));
    t.set(attribute(2, &[2]));
    assert_eq!(t.len(), 2);
    t.set(attribute(1, &[9, 9]));
    assert_eq!(t.len(), 2);
    assert_eq!(t.get(1), Some(&vec![9u8, 9]));
    assert_eq!(t.get(2), Some(&vec![2u8]));
    t.set(attribute(3, &[3]));
    assert_eq!(t.len(), 3);
    assert_eq!(t.get(3), Some(&vec![3u8]));
}

#[test]
fn new_object_has_no_value() {
    let object = CryptokiObject::new(ObjectClass::PrivateKey);
    assert_eq!(object.class(), ObjectClass::PrivateKey);
    assert_eq!(object.get_value(), Err(CryptokiError::ValueNotPresent));
    assert_eq!(object.get_attribute(0), None);
}

#[test]
fn object_from_template_has_attributes_and_no_value() {
    let t = Template::build(vec![attribute(0x103, &[1]), attribute(0x162, &[1])]);
    let object = CryptokiObject::from_template(ObjectClass::SecretKey, t);
    assert_eq!(object.class(), ObjectClass::SecretKey);
    assert_eq!(object.get_value(), Err(CryptokiError::ValueNotPresent));
    assert_eq!(object.get_attribute(0x103), Some(&vec![1u8]));
    assert_eq!(object.get_attribute(0x162), Some(&vec![1u8]));
    assert_eq!(object.get_attribute(0x104), None);
}

#[test]
fn store_value_sets_and_overwrites() {
    let mut object = CryptokiObject::new(ObjectClass::PublicKey);
    object.store_value(vec![1, 2, 3]);
    assert_eq!(object.get_value(), Ok(&vec![1u8, 2, 3]));
    object.store_value(vec![]);
    assert_eq!(object.get_value(), Ok(&Vec::<u8>::new()));
    object.store_value(vec![5; 40]);
    assert_eq!(object.get_value(), Ok(&vec![5u8; 40]));
    assert_eq!(object.class(), ObjectClass::PublicKey);
}
