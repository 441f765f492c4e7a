use cw_tierlist::table::Table;

fn filled(keys: &[u64]) -> Table<String> {
    let mut table: Table<String> = Table::new();
    for k in keys {
        table.put(*k, format!("v{}", k));
    }
    table
}

#[test]
fn empty_table_holds_nothing() {
    let table: Table<u8> = Table::new();
    assert_eq!(table.get(0), None);
    assert_eq!(table.keys_after(None, 10), Vec::<u64>::new());
}

#[test]
fn put_then_get() {
    let table = filled(&[5, 1, 9, 3]);
    assert_eq!(table.get(1), Some(&"v1".to_string()));
    assert_eq!(table.get(3), Some(&"v3".to_string()));
    assert_eq!(table.get(5), Some(&"v5".to_string()));
    assert_eq!(table.get(9), Some(&"v9".to_string()));
    assert_eq!(table.get(0), None);
    assert_eq!(table.get(4), None);
    assert_eq!(table.get(u64::MAX), None);
}

#[test]
fn put_overwrites() {
    let mut table = filled(&[2, 4]);
    table.put(2, "new".to_string());
    assert_eq!(table.get(2), Some(&"new".to_string()));
    assert_eq!(table.get(4), Some(&"v4".to_string()));
    assert_eq!(table.keys_after(None, 10), vec![2, 4]);
}

#[test]
fn remove_takes_one_key_out() {
    let mut table = filled(&[2, 4, 6]);
    table.remove(4);
    assert_eq!(table.get(4), None);
    assert_eq!(table.keys_after(None, 10), vec![2, 6]);
    table.remove(5);
    assert_eq!(table.keys_after(None, 10), vec![2, 6]);
    table.remove(2);
    table.remove(6);
    assert_eq!(table.keys_after(None, 10), Vec::<u64>::new());
}

#[test]
fn keys_come_in_ascending_order_behind_the_cursor() {
    let table = filled(&[8, 0, u64::MAX, 3, 5]);
    assert_eq!(table.keys_after(None, 10), vec![0, 3, 5, 8, u64::MAX]);
    assert_eq!(table.keys_after(None, 2), vec![0, 3]);
    assert_eq!(table.keys_after(Some(0), 2), vec![3, 5]);
    assert_eq!(table.keys_after(Some(4), 2), vec![5, 8]);
    assert_eq!(table.keys_after(Some(8), 2), vec![u64::MAX]);
    assert_eq!(table.keys_after(Some(u64::MAX), 2), Vec::<u64>::new());
    assert_eq!(table.keys_after(Some(3), 0), Vec::<u64>::new());
    assert_eq!(table.keys_after(Some(3), usize::MAX), vec![5, 8, u64::MAX]);
}
