use cloudstream_win::table::KeyedTable;

#[test]
fn keyed_table_reads_what_was_written() {
    let mut t: KeyedTable<i32> = KeyedTable::new();
    assert_eq!(t.insert("b".to_string(), 1), None);
    assert_eq!(t.insert("a".to_string(), 2), None);
    assert_eq!(t.insert("b".to_string(), 3), Some(1));
    assert_eq!(t.len(), 2);
    assert_eq!(t.get("b"), Some(&3));
    assert_eq!(t.get("zz"), None);
    let (k, v) = t.entry_at(0);
    assert_eq!((k.as_str(), *v), ("b", 3));
    assert_eq!(t.remove("b"), Some(3));
    assert_eq!(t.remove("b"), None);
    assert_eq!(t.len(), 1);
    assert_eq!(t.drain(), vec![("a".to_string(), 2)]);
    assert_eq!(t.len(), 0);
}
