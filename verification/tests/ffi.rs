use bitvec::ffi::{
    any_null, bitvec_set_ffi_cursor, null_checked, FfiCursor, Registry, Tristate,
};

fn reverse_byte_order(idx: u8) -> u8 {
    7 - idx
}

fn rotate(idx: u8) -> u8 {
    (idx + 3) % 8
}

#[test]
fn tristate_from_bool() {
    assert_eq!(Tristate::from(true), Tristate::True);
    assert_eq!(Tristate::from(false), Tristate::False);
}

#[test]
fn tristate_from_option() {
    assert_eq!(Tristate::from(Some(true)), Tristate::True);
    assert_eq!(Tristate::from(Some(false)), Tristate::False);
    assert_eq!(Tristate::from(None), Tristate::Error);
}

#[test]
fn tristate_codes() {
    assert_eq!(Tristate::Error.code(), -1);
    assert_eq!(Tristate::False.code(), 0);
    assert_eq!(Tristate::True.code(), 1);
    assert!(Tristate::Error < Tristate::False);
    assert!(Tristate::False < Tristate::True);
}

#[test]
fn null_among_pointers() {
    assert!(!any_null(&[]));
    assert!(!any_null(&[8, 16, 24]));
    assert!(any_null(&[0]));
    assert!(any_null(&[8, 16, 0]));
    assert!(any_null(&[0, 16, 24]));
}

#[test]
fn foreign_cursor_applies_the_mapping() {
    let cursor = FfiCursor::new(rotate as fn(u8) -> u8);
    assert_eq!(cursor.at::<u8>(0), 3);
    assert_eq!(cursor.at::<u8>(6), 1);
}

#[test]
fn registry_reverse_then_clear() {
    let mut registry: Registry<fn(u8) -> u8> = Registry::new();
    bitvec_set_ffi_cursor(&mut registry, Some(reverse_byte_order as fn(u8) -> u8));
    assert_eq!(registry.resolve::<u8>(2), 5);
    bitvec_set_ffi_cursor(&mut registry, None);
    assert_eq!(registry.resolve::<u8>(2), 2);
}

#[test]
fn registry_falls_back_to_identity() {
    let registry: Registry<fn(u8) -> u8> = Registry::new();
    for idx in 0..64u8 {
        assert_eq!(registry.resolve::<u64>(idx), idx);
    }
}

#[test]
fn registry_install_replaces() {
    let mut registry: Registry<fn(u8) -> u8> = Registry::new();
    registry.install(Some(reverse_byte_order as fn(u8) -> u8));
    registry.install(Some(rotate as fn(u8) -> u8));
    assert_eq!(registry.resolve::<u8>(2), 5);
    assert_eq!(registry.resolve::<u8>(0), 3);
    assert_eq!(registry.resolve::<u8>(7), 2);
    let seen: Vec<u8> = (0..8u8).map(|i| registry.resolve::<u8>(i)).collect();
    let mut sorted = seen.clone();
    sorted.sort();
    assert_eq!(sorted, vec![0, 1, 2, 3, 4, 5, 6, 7]);
}

#[test]
fn null_pointer_gives_the_failure_value() {
    let mut touched = false;
    let out = null_checked(&[8, 0], Tristate::Error, || {
        touched = true;
        Tristate::True
    });
    assert_eq!(out, Tristate::Error);
    assert!(!touched);
}

#[test]
fn present_pointers_let_the_work_run() {
    let mut touched = false;
    let out = null_checked(&[8, 16], Tristate::Error, || {
        touched = true;
        Tristate::from(Some(false))
    });
    assert_eq!(out, Tristate::False);
    assert!(touched);
    assert_eq!(null_checked(&[], 0usize, || 7usize), 7);
}
