use cumulus_host::arena::{Arena, ArenaError};

#[test]
fn int_slot_scenario() {
    let mut a = Arena::new();
    let h = a.allocate_int();
    a.write_int(h, 42).unwrap();
    assert_eq!(a.read_int(h), Ok(42));
    a.free(h).unwrap();
    assert_eq!(a.read_int(h), Err(ArenaError::HandleNotFound));
}

#[test]
fn bytes_write_then_read() {
    let mut a = Arena::new();
    let h = a.allocate_bytes();
    assert_eq!(a.read_bytes(h), Ok([0u8; 8]));
    let block = [1u8, 2, 3, 4, 5, 6, 7, 8];
    a.write_bytes(h, block).unwrap();
    assert_eq!(a.read_bytes(h), Ok(block));
}

#[test]
fn int_write_then_read() {
    let mut a = Arena::new();
    let h = a.allocate_int();
    assert_eq!(a.read_int(h), Ok(0));
    a.write_int(h, -7).unwrap();
    assert_eq!(a.read_int(h), Ok(-7));
}

#[test]
fn float_write_then_read() {
    let mut a = Arena::new();
    let h = a.allocate_float();
    assert_eq!(a.read_float_bits(h), Ok(0u64));
    let bits = (2.5f64).to_bits();
    a.write_float_bits(h, bits).unwrap();
    assert_eq!(a.read_float_bits(h), Ok(bits));
    assert_eq!(f64::from_bits(a.read_float_bits(h).unwrap()), 2.5f64);
}

#[test]
fn string_write_then_read() {
    let mut a = Arena::new();
    let h = a.allocate_string();
    assert_eq!(a.read_string(h), Ok(String::new()));
    a.write_string(h, "hello".to_string()).unwrap();
    assert_eq!(a.read_string(h), Ok("hello".to_string()));
}

#[test]
fn freed_handle_is_dead_for_every_operation() {
    let mut a = Arena::new();
    let h = a.allocate_string();
    a.free(h).unwrap();
    assert_eq!(a.read_bytes(h), Err(ArenaError::HandleNotFound));
    assert_eq!(a.read_int(h), Err(ArenaError::HandleNotFound));
    assert_eq!(a.read_float_bits(h), Err(ArenaError::HandleNotFound));
    assert_eq!(a.read_string(h), Err(ArenaError::HandleNotFound));
    assert_eq!(a.write_bytes(h, [0u8; 8]), Err(ArenaError::HandleNotFound));
    assert_eq!(a.write_int(h, 1), Err(ArenaError::HandleNotFound));
    assert_eq!(a.write_float_bits(h, 1), Err(ArenaError::HandleNotFound));
    assert_eq!(
        a.write_string(h, "x".to_string()),
        Err(ArenaError::HandleNotFound)
    );
}

#[test]
fn free_never_succeeds_twice() {
    let mut a = Arena::new();
    let h = a.allocate_bytes();
    assert_eq!(a.free(h), Ok(()));
    assert_eq!(a.free(h), Err(ArenaError::HandleNotFound));
}

#[test]
fn unknown_handle_not_found() {
    let mut a = Arena::new();
    assert_eq!(a.read_int(12345), Err(ArenaError::HandleNotFound));
    assert_eq!(a.free(12345), Err(ArenaError::HandleNotFound));
}

#[test]
fn wrong_family_is_a_type_mismatch() {
    let mut a = Arena::new();
    let h = a.allocate_int();
    assert_eq!(a.read_bytes(h), Err(ArenaError::TypeMismatch));
    assert_eq!(a.read_float_bits(h), Err(ArenaError::TypeMismatch));
    assert_eq!(a.read_string(h), Err(ArenaError::TypeMismatch));
    assert_eq!(a.write_bytes(h, [0u8; 8]), Err(ArenaError::TypeMismatch));
    assert_eq!(a.write_float_bits(h, 0), Err(ArenaError::TypeMismatch));
    assert_eq!(
        a.write_string(h, "x".to_string()),
        Err(ArenaError::TypeMismatch)
    );
    let hs = a.allocate_string();
    assert_eq!(a.read_int(hs), Err(ArenaError::TypeMismatch));
    assert_eq!(a.write_int(hs, 3), Err(ArenaError::TypeMismatch));
}

#[test]
fn freed_handle_is_never_reissued() {
    let mut a = Arena::new();
    let h1 = a.allocate_int();
    a.free(h1).unwrap();
    let h2 = a.allocate_int();
    assert_ne!(h1, h2);
    assert_eq!(a.read_int(h1), Err(ArenaError::HandleNotFound));
    assert_eq!(a.read_int(h2), Ok(0));
}

#[test]
fn independent_slots_do_not_alias() {
    let mut a = Arena::new();
    let h1 = a.allocate_int();
    let h2 = a.allocate_int();
    a.write_int(h1, 1).unwrap();
    a.write_int(h2, 2).unwrap();
    assert_eq!(a.read_int(h1), Ok(1));
    assert_eq!(a.read_int(h2), Ok(2));
    a.free(h1).unwrap();
    assert_eq!(a.read_int(h2), Ok(2));
}
