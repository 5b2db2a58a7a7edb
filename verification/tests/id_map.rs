//! Maps from identifiers.
use timeline_state::id_map::IdMap;

#[test]
fn values_are_taken_out_under_their_id() {
    let mut map: IdMap<u8> = IdMap::new();
    map.insert("a".to_owned(), 1);
    map.insert("b".to_owned(), 2);
    map.insert("a".to_owned(), 3);
    let mut copy = map.clone();
    assert_eq!(map.remove(&"c".to_owned()), None);
    assert_eq!(map.remove(&"a".to_owned()), Some(3));
    assert_eq!(map.remove(&"a".to_owned()), None);
    assert_eq!(map.remove(&"b".to_owned()), Some(2));
    assert_eq!(copy.remove(&"a".to_owned()), Some(3));
    copy.clear();
    assert_eq!(copy.remove(&"b".to_owned()), None);
}
