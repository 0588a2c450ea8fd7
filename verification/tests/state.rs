use memorypack::{MemoryPackError, MemoryPackReaderOptionalState, MemoryPackWriterOptionalState};

#[test]
fn reference_ids_are_given_in_order_and_kept() {
    let mut s = MemoryPackWriterOptionalState::new();
    assert_eq!(s.get_or_add_reference(0x1000), (false, 0));
    assert_eq!(s.get_or_add_reference(0x2000), (false, 1));
    assert_eq!(s.get_or_add_reference(0x1000), (true, 0));
    assert_eq!(s.get_or_add_reference(0x3000), (false, 2));
    s.reset();
    assert_eq!(s.get_or_add_reference(0x3000), (false, 0));
    let mut d = MemoryPackWriterOptionalState::default();
    assert_eq!(d.get_or_add_reference(7), (false, 0));
}

#[test]
fn objects_are_found_by_id() {
    let mut s = MemoryPackReaderOptionalState::new();
    s.add_object_reference(3, String::from("three")).unwrap();
    let found: String = s.get_object_reference(3).unwrap();
    assert_eq!(found, "three");
    let missing: Result<String, _> = s.get_object_reference(4);
    assert!(matches!(missing, Err(MemoryPackError::DeserializationError(_))));
}

#[test]
fn adding_an_id_twice_is_refused() {
    let mut s = MemoryPackReaderOptionalState::default();
    s.add_object_reference(1, 10u32).unwrap();
    assert!(matches!(s.add_object_reference(1, 11u32), Err(MemoryPackError::DeserializationError(_))));
    let kept: u32 = s.get_object_reference(1).unwrap();
    assert_eq!(kept, 10);
}

#[test]
fn update_replaces_a_known_object_only() {
    let mut s = MemoryPackReaderOptionalState::new();
    assert!(matches!(s.update_object_reference(5, 1u8), Err(MemoryPackError::DeserializationError(_))));
    s.add_object_reference(5, 1u8).unwrap();
    s.update_object_reference(5, 2u8).unwrap();
    let v: u8 = s.get_object_reference(5).unwrap();
    assert_eq!(v, 2);
    s.reset();
    let gone: Result<u8, _> = s.get_object_reference(5);
    assert!(gone.is_err());
}

#[test]
fn a_stored_object_of_another_type_is_not_found() {
    let mut s = MemoryPackReaderOptionalState::new();
    s.add_object_reference(9, 1u16).unwrap();
    let wrong: Result<u32, _> = s.get_object_reference(9);
    assert!(wrong.is_err());
}

#[test]
fn reference_refusals_name_the_id() {
    let mut s = MemoryPackReaderOptionalState::new();
    let missing: Result<u8, _> = s.get_object_reference(42);
    assert!(matches!(missing,
        Err(MemoryPackError::DeserializationError(m)) if m == "Object is not found in this reference id: 42"));
    s.add_object_reference(0, 1u8).unwrap();
    assert!(matches!(s.add_object_reference(0, 2u8),
        Err(MemoryPackError::DeserializationError(m)) if m == "Object is already added, id: 0"));
    assert!(matches!(s.update_object_reference(4294967295, 2u8),
        Err(MemoryPackError::DeserializationError(m)) if m == "Object not found for update, id: 4294967295"));
}

#[test]
fn writer_state_says_when_a_key_can_be_taken() {
    let mut s = MemoryPackWriterOptionalState::new();
    assert!(s.can_get_or_add(7));
    assert_eq!(s.get_or_add_reference(7), (false, 0));
    assert!(s.can_get_or_add(7));
    assert_eq!(s.get_or_add_reference(7), (true, 0));
}

#[test]
fn reader_lends_its_reference_state() {
    let data = [1u8];
    let plain = memorypack::MemoryPackReader::new(&data);
    assert!(plain.reference_state().is_none());
    let with_state = memorypack::MemoryPackReader::new_with_state(&data);
    assert!(with_state.reference_state().is_some());
}
