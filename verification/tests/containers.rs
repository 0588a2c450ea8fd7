use memorypack::{
    MemoryPackDeserialize, MemoryPackError, MemoryPackReader, MemoryPackSerialize,
    MemoryPackSerializer, MemoryPackWriter, MultiDimArray, NullableString, NullableVec,
};
use memorypack::traits::hashbrown_maps::{HashbrownMap, HashbrownSet};
use memorypack::traits::maps::{write_entries, write_members};
use std::collections::{BTreeMap, BTreeSet, HashMap, HashSet, VecDeque};
use std::rc::Rc;
use std::sync::Arc;

fn bytes_of<T: MemoryPackSerialize>(v: &T) -> Vec<u8> {
    MemoryPackSerializer::serialize(v).unwrap()
}

fn read_back<T: MemoryPackDeserialize>(b: &[u8]) -> Result<T, MemoryPackError> {
    MemoryPackSerializer::deserialize(b)
}

#[test]
fn vec_is_count_then_items() {
    let v: Vec<i16> = vec![1, -1, 256];
    let b = bytes_of(&v);
    assert_eq!(b, vec![3, 0, 0, 0, 1, 0, 0xFF, 0xFF, 0, 1]);
    assert_eq!(read_back::<Vec<i16>>(&b).unwrap(), v);
}

#[test]
fn empty_and_null_vectors_read_as_empty() {
    assert_eq!(bytes_of(&Vec::<u8>::new()), vec![0, 0, 0, 0]);
    let null = (-1i32).to_le_bytes();
    assert!(read_back::<Vec<u8>>(&null).unwrap().is_empty());
    let zero = 0i32.to_le_bytes();
    assert!(read_back::<VecDeque<u8>>(&zero).unwrap().is_empty());
}

#[test]
fn negative_count_is_invalid_length() {
    let b = (-5i32).to_le_bytes();
    assert!(matches!(read_back::<Vec<u8>>(&b), Err(MemoryPackError::InvalidLength(-5))));
    assert!(matches!(read_back::<VecDeque<u8>>(&b), Err(MemoryPackError::InvalidLength(-5))));
}

#[test]
fn truncated_vector_fails() {
    let b = vec![2u8, 0, 0, 0, 7];
    assert!(matches!(read_back::<Vec<u8>>(&b), Err(MemoryPackError::UnexpectedEndOfBuffer)));
}

#[test]
fn vecdeque_round_trips() {
    let mut d = VecDeque::new();
    d.push_back(String::from("a"));
    d.push_front(String::from("bc"));
    let b = bytes_of(&d);
    assert_eq!(read_back::<VecDeque<String>>(&b).unwrap(), d);
}

#[test]
fn nested_vectors_round_trip() {
    let v: Vec<Vec<u32>> = vec![vec![1, 2], vec![], vec![3]];
    let b = bytes_of(&v);
    assert_eq!(read_back::<Vec<Vec<u32>>>(&b).unwrap(), v);
}

#[test]
fn option_writes_a_flag_and_a_value() {
    let some = bytes_of(&Some(7u8));
    assert_eq!(some, vec![1, 0, 0, 0, 7]);
    let none = bytes_of(&None::<u8>);
    assert_eq!(none, vec![0, 0, 0, 0, 0]);
    assert_eq!(read_back::<Option<u8>>(&some).unwrap(), Some(7));
    assert_eq!(read_back::<Option<u8>>(&none).unwrap(), None);
    let other_flag = vec![9u8, 0, 0, 0, 4];
    assert_eq!(read_back::<Option<u8>>(&other_flag).unwrap(), Some(4));
}

#[test]
fn nullable_string_uses_minus_one() {
    let none = bytes_of(&NullableString(None));
    assert_eq!(none, vec![0xFF, 0xFF, 0xFF, 0xFF]);
    let some = bytes_of(&NullableString(Some(String::from("hi"))));
    assert_eq!(read_back::<NullableString>(&none).unwrap().0, None);
    assert_eq!(read_back::<NullableString>(&some).unwrap().0, Some(String::from("hi")));
    let empty = bytes_of(&NullableString(Some(String::new())));
    assert_eq!(read_back::<NullableString>(&empty).unwrap().0, Some(String::new()));
}

#[test]
fn nullable_vec_uses_minus_one() {
    let none = bytes_of(&NullableVec::<u8>(None));
    assert_eq!(none, vec![0xFF, 0xFF, 0xFF, 0xFF]);
    let some = bytes_of(&NullableVec(Some(vec![5u8, 6])));
    assert_eq!(some, vec![2, 0, 0, 0, 5, 6]);
    assert_eq!(read_back::<NullableVec<u8>>(&none).unwrap().0, None);
    assert_eq!(read_back::<NullableVec<u8>>(&some).unwrap().0, Some(vec![5, 6]));
    let bad = (-3i32).to_le_bytes();
    assert!(matches!(read_back::<NullableVec<u8>>(&bad), Err(MemoryPackError::InvalidLength(-3))));
}

#[test]
fn tuples_are_their_elements() {
    let t = (1u8, String::from("x"), -2i64);
    let b = bytes_of(&t);
    assert_eq!(b.len(), 1 + 9 + 8);
    assert_eq!(read_back::<(u8, String, i64)>(&b).unwrap(), t);
    let single = bytes_of(&(9u16,));
    assert_eq!(single, vec![9, 0]);
}

#[test]
fn smart_pointers_are_their_values() {
    let b = bytes_of(&Box::new(3u32));
    assert_eq!(b, bytes_of(&3u32));
    assert_eq!(*read_back::<Box<u32>>(&b).unwrap(), 3);
    assert_eq!(*read_back::<Rc<u32>>(&bytes_of(&Rc::new(4u32))).unwrap(), 4);
    assert_eq!(*read_back::<Arc<u32>>(&bytes_of(&Arc::new(5u32))).unwrap(), 5);
}

#[test]
fn multidim_array_header() {
    let a = MultiDimArray::new(vec![2, 3], vec![1u8, 2, 3, 4, 5, 6]);
    assert_eq!(a.rank(), 2);
    let b = bytes_of(&a);
    let mut expected = vec![3u8];
    expected.extend_from_slice(&2i32.to_le_bytes());
    expected.extend_from_slice(&3i32.to_le_bytes());
    expected.extend_from_slice(&6i32.to_le_bytes());
    expected.extend_from_slice(&[1, 2, 3, 4, 5, 6]);
    assert_eq!(b, expected);
    let back = read_back::<MultiDimArray<u8>>(&b).unwrap();
    assert_eq!(back.dimensions, vec![2, 3]);
    assert_eq!(back.data, vec![1, 2, 3, 4, 5, 6]);
}

#[test]
fn multidim_array_rank_zero_is_refused() {
    let b = vec![1u8, 0, 0, 0, 0];
    assert!(matches!(
        read_back::<MultiDimArray<u8>>(&b),
        Err(MemoryPackError::DeserializationError(_))
    ));
}

#[test]
fn hash_map_round_trips() {
    let mut m = HashMap::new();
    m.insert(String::from("one"), 1i32);
    m.insert(String::from("two"), 2i32);
    let b = bytes_of(&m);
    assert_eq!(&b[0..4], &2i32.to_le_bytes()[..]);
    assert_eq!(read_back::<HashMap<String, i32>>(&b).unwrap(), m);
}

#[test]
fn later_entries_replace_earlier_ones() {
    let mut data = 2i32.to_le_bytes().to_vec();
    data.extend_from_slice(&[7, 10, 7, 20]);
    let m = read_back::<BTreeMap<u8, u8>>(&data).unwrap();
    assert_eq!(m.len(), 1);
    assert_eq!(m[&7], 20);
    let h = read_back::<HashMap<u8, u8>>(&data).unwrap();
    assert_eq!(h[&7], 20);
}

#[test]
fn btree_map_is_written_in_key_order() {
    let mut m = BTreeMap::new();
    m.insert(2u8, 20u8);
    m.insert(1u8, 10u8);
    assert_eq!(bytes_of(&m), vec![2, 0, 0, 0, 1, 10, 2, 20]);
}

#[test]
fn sets_round_trip() {
    let s: HashSet<u32> = [5, 9, 11].into_iter().collect();
    assert_eq!(read_back::<HashSet<u32>>(&bytes_of(&s)).unwrap(), s);
    let t: BTreeSet<i8> = [-1, 3].into_iter().collect();
    let b = bytes_of(&t);
    assert_eq!(b, vec![2, 0, 0, 0, 0xFF, 3]);
    assert_eq!(read_back::<BTreeSet<i8>>(&b).unwrap(), t);
    let dup = vec![2u8, 0, 0, 0, 4, 4];
    assert_eq!(read_back::<BTreeSet<u8>>(&dup).unwrap().len(), 1);
}

#[test]
fn map_with_negative_count_is_refused() {
    let b = (-2i32).to_le_bytes();
    assert!(matches!(read_back::<HashMap<u8, u8>>(&b), Err(MemoryPackError::InvalidLength(-2))));
    let null = (-1i32).to_le_bytes();
    assert!(read_back::<HashSet<u8>>(&null).unwrap().is_empty());
}

#[test]
fn deserialize_from_continues_a_reader() {
    let mut w = MemoryPackWriter::new();
    MemoryPackSerializer::serialize_to(&5u8, &mut w).unwrap();
    MemoryPackSerializer::serialize_to(&String::from("q"), &mut w).unwrap();
    let b = w.into_bytes();
    let mut r = MemoryPackReader::new(&b);
    let a: u8 = MemoryPackSerializer::deserialize_from(&mut r).unwrap();
    let s: String = MemoryPackSerializer::deserialize_from(&mut r).unwrap();
    assert_eq!((a, s.as_str()), (5, "q"));
}

#[test]
fn entries_and_members_are_written_as_sequences() {
    let (k1, v1, k2, v2) = (1u8, 10u8, 2u8, 20u8);
    let mut w = MemoryPackWriter::new();
    write_entries(&mut w, &vec![(&k1, &v1), (&k2, &v2)]).unwrap();
    assert_eq!(w.into_bytes(), vec![2, 0, 0, 0, 1, 10, 2, 20]);
    let mut m = MemoryPackWriter::new();
    write_members(&mut m, &vec![&k2, &k1]).unwrap();
    assert_eq!(m.into_bytes(), vec![2, 0, 0, 0, 2, 1]);
}

#[test]
fn hashbrown_map_round_trips() {
    let mut m: HashbrownMap<u8, i32> = HashbrownMap::new();
    m.insert(3, -1);
    m.insert(4, 70000);
    m.insert(3, 5);
    assert_eq!(m.len(), 2);
    let b = bytes_of(&m);
    assert_eq!(b.len(), 4 + 2 * 5);
    assert_eq!(&b[..4], &[2, 0, 0, 0]);
    let back = read_back::<HashbrownMap<u8, i32>>(&b).unwrap();
    let mut entries: Vec<(u8, i32)> = back.entries().into_iter().map(|(k, v)| (*k, *v)).collect();
    entries.sort();
    assert_eq!(entries, vec![(3, 5), (4, 70000)]);
}

#[test]
fn hashbrown_map_keeps_the_last_value_of_a_key() {
    let mut data = 2i32.to_le_bytes().to_vec();
    data.extend_from_slice(&[7, 10, 7, 20]);
    let m = read_back::<HashbrownMap<u8, u8>>(&data).unwrap();
    assert_eq!(m.len(), 1);
    assert_eq!(m.entries(), vec![(&7u8, &20u8)]);
    let b = (-2i32).to_le_bytes();
    assert!(matches!(read_back::<HashbrownMap<u8, u8>>(&b), Err(MemoryPackError::InvalidLength(-2))));
}

#[test]
fn hashbrown_set_round_trips() {
    let mut s: HashbrownSet<u16> = HashbrownSet::new();
    s.insert(9);
    s.insert(9);
    s.insert(300);
    assert_eq!(s.len(), 2);
    let b = bytes_of(&s);
    assert_eq!(b.len(), 4 + 2 * 2);
    let back = read_back::<HashbrownSet<u16>>(&b).unwrap();
    let mut members: Vec<u16> = back.members().into_iter().copied().collect();
    members.sort();
    assert_eq!(members, vec![9, 300]);
    let null = (-1i32).to_le_bytes();
    assert_eq!(read_back::<HashbrownSet<u16>>(&null).unwrap().len(), 0);
}

#[test]
fn multidim_rank_refusal_carries_its_message() {
    for first in [0u8, 1u8] {
        let b = vec![first, 0, 0, 0, 0];
        assert!(matches!(
            read_back::<MultiDimArray<u8>>(&b),
            Err(MemoryPackError::DeserializationError(m)) if m == "Invalid array rank"
        ));
    }
}
