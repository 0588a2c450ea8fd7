use memorypack::members::{
    read_boxed_member, read_circular_head, read_member, read_tolerant_head, skip_members,
    write_circular_frame, write_reference_frame, write_tolerant_frame, CircularHead,
};
use memorypack::{MemoryPackReader, MemoryPackWriter};

#[test]
fn tolerant_frame_layout() {
    let members = vec![vec![1u8, 2], vec![], vec![3u8]];
    let mut w = MemoryPackWriter::new();
    write_tolerant_frame(&mut w, &members).unwrap();
    let b = w.into_bytes();
    assert_eq!(b, vec![3, 2, 0, 1, 1, 2, 3]);
    let mut r = MemoryPackReader::new(&b);
    assert_eq!(read_tolerant_head(&mut r).unwrap(), vec![2, 0, 1]);
    assert_eq!(r.position(), 4);
}

#[test]
fn circular_frame_layout() {
    let members = vec![vec![9u8; 300]];
    let mut w = MemoryPackWriter::new();
    write_circular_frame(&mut w, 2, &members, 5).unwrap();
    let b = w.into_bytes();
    assert_eq!(&b[0..6], &[2, 0x85, 0x2C, 0x01, 0, 5][..]);
    assert_eq!(b.len(), 6 + 300);
    let mut r = MemoryPackReader::new(&b);
    match read_circular_head(&mut r).unwrap() {
        CircularHead::Members { lengths, ref_id } => {
            assert_eq!(lengths, vec![300, 0]);
            assert_eq!(ref_id, 5);
        },
        CircularHead::Reference(_) => panic!("expected members"),
    }
}

#[test]
fn reference_frame_layout() {
    let mut w = MemoryPackWriter::new();
    write_reference_frame(&mut w, 7).unwrap();
    let b = w.into_bytes();
    assert_eq!(b, vec![250, 7]);
    let mut r = MemoryPackReader::new(&b);
    assert!(matches!(read_circular_head(&mut r).unwrap(), CircularHead::Reference(7)));
}

#[test]
fn truncated_head_fails() {
    let b = vec![2u8, 1];
    let mut r = MemoryPackReader::new(&b);
    assert!(read_tolerant_head(&mut r).is_err());
    let mut c = MemoryPackReader::new(&b);
    assert!(read_circular_head(&mut c).is_err());
}

#[test]
fn members_are_read_skipped_or_defaulted() {
    let data = [7u8, 0, 9, 1, 2, 3];
    let lengths = vec![2usize, 0, 1];
    let mut r = MemoryPackReader::new(&data);
    let a: Option<u16> = read_member(&mut r, &lengths, 0).unwrap();
    assert_eq!(a, Some(7));
    let b: Option<u8> = read_member(&mut r, &lengths, 1).unwrap();
    assert_eq!(b, None);
    let c: Option<u8> = read_member(&mut r, &lengths, 5).unwrap();
    assert_eq!(c, None);
    assert_eq!(r.position(), 2);
    skip_members(&mut r, &[1, 2, 1], 1).unwrap();
    assert_eq!(r.position(), 5);
    assert!(skip_members(&mut r, &[1, 5], 1).is_err());
    skip_members(&mut r, &[4], 3).unwrap();
    assert_eq!(r.position(), 5);
}

#[test]
fn boxed_members_use_the_absent_marker() {
    let lengths = vec![1usize];
    let none = [255u8];
    let mut r = MemoryPackReader::new(&none);
    let n: Option<Box<u8>> = read_boxed_member(&mut r, &lengths, 0).unwrap();
    assert!(n.is_none());
    assert_eq!(r.position(), 1);
    let some = [4u8];
    let mut s = MemoryPackReader::new(&some);
    let v: Option<Box<u8>> = read_boxed_member(&mut s, &lengths, 0).unwrap();
    assert_eq!(v, Some(Box::new(4)));
}

#[test]
fn union_tags_below_the_variant_count_are_read() {
    let data = [1u8, 3u8];
    let mut r = memorypack::MemoryPackReader::new(&data);
    assert_eq!(memorypack::tags::read_union_tag(&mut r, 2, "Shape").unwrap(), 1);
    let e = memorypack::tags::read_union_tag(&mut r, 2, "Shape");
    assert!(matches!(e,
        Err(memorypack::MemoryPackError::DeserializationError(m)) if m == "Unknown union tag 3 for Shape"));
    let mut empty = memorypack::MemoryPackReader::new(&[]);
    assert!(matches!(memorypack::tags::read_union_tag(&mut empty, 2, "Shape"),
        Err(memorypack::MemoryPackError::UnexpectedEndOfBuffer)));
}

#[test]
fn enum_discriminants_must_be_known() {
    let mut data = 5i32.to_le_bytes().to_vec();
    data.extend_from_slice(&(-7i32).to_le_bytes());
    data.extend_from_slice(&i32::MIN.to_le_bytes());
    let mut r = memorypack::MemoryPackReader::new(&data);
    assert_eq!(memorypack::tags::read_discriminant(&mut r, &[1, 5], "Self").unwrap(), 5);
    assert!(matches!(memorypack::tags::read_discriminant(&mut r, &[1, 5], "Self"),
        Err(memorypack::MemoryPackError::DeserializationError(m)) if m == "Invalid discriminant -7 for enum Self"));
    assert!(matches!(memorypack::tags::read_discriminant(&mut r, &[], "Self"),
        Err(memorypack::MemoryPackError::DeserializationError(m)) if m == "Invalid discriminant -2147483648 for enum Self"));
}
