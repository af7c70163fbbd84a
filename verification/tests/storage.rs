use busd::{Storage, StoragePointer};

#[test]
fn unset_path_reads_as_empty() {
    let storage = Storage::new();
    assert_eq!(storage.get(&StoragePointer::from_keyword("/nothing")), Vec::<u8>::new());
    assert_eq!(storage.pointers().len(), 0);
    assert_eq!(Storage::default().pointers().len(), 0);
}

#[test]
fn last_write_is_read() {
    let mut storage = Storage::new();
    let a = StoragePointer::from_keyword("/a");
    let b = StoragePointer::from_keyword("/b");
    storage.set(&a, vec![1, 2, 3]);
    storage.set(&b, vec![4]);
    assert_eq!(storage.get(&a), vec![1, 2, 3]);
    assert_eq!(storage.get(&b), vec![4]);
    storage.set(&a, vec![9]);
    assert_eq!(storage.get(&a), vec![9]);
    assert_eq!(storage.get(&b), vec![4]);
    storage.set(&b, vec![]);
    assert_eq!(storage.get(&b), Vec::<u8>::new());
    let paths: Vec<Vec<u8>> = storage.pointers().iter().map(|p| p.unwrap()).collect();
    assert_eq!(paths, vec![b"/a".to_vec(), b"/b".to_vec()]);
}

#[test]
fn pointers_are_built_segment_by_segment() {
    let table = StoragePointer::from_keyword("/redeem/");
    assert_eq!(table.unwrap(), b"/redeem/".to_vec());
    let entry = table.select_value(0x0102);
    let mut expected = b"/redeem/".to_vec();
    expected.extend_from_slice(&[2, 1, 0, 0, 0, 0, 0, 0, 0, 0, 0, 0, 0, 0, 0, 0]);
    assert_eq!(entry.unwrap(), expected);
    assert_eq!(table.keyword("x/y").unwrap(), b"/redeem/x/y".to_vec());
    assert_eq!(table.select(&vec![0, 255]).unwrap(), b"/redeem/\x00\xff".to_vec());
    assert_eq!(StoragePointer::wrap(&vec![1, 2]).unwrap(), vec![1, 2]);
    assert_eq!(entry.clone(), entry);
    assert_ne!(table.select_value(1), table.select_value(2));
}

#[test]
fn entries_of_a_table_do_not_collide() {
    let mut storage = Storage::new();
    let table = StoragePointer::from_keyword("/t/");
    for i in 0..20u128 {
        storage.set(&table.select_value(i), vec![i as u8]);
    }
    storage.set(&table.select_value(u128::MAX), vec![0xff]);
    storage.set(&table.select_value(1 << 64), vec![0x40]);
    for i in 0..20u128 {
        assert_eq!(storage.get(&table.select_value(i)), vec![i as u8]);
    }
    assert_eq!(storage.get(&table.select_value(u128::MAX)), vec![0xff]);
    assert_eq!(storage.get(&table.select_value(1 << 64)), vec![0x40]);
    assert_eq!(storage.get(&table.select_value(20)), Vec::<u8>::new());
    assert_eq!(storage.pointers().len(), 22);
}

#[test]
fn changes_are_the_paths_that_read_otherwise() {
    let a = StoragePointer::from_keyword("/a");
    let b = StoragePointer::from_keyword("/b");
    let c = StoragePointer::from_keyword("/c");
    let d = StoragePointer::from_keyword("/d");
    let mut earlier = Storage::new();
    earlier.set(&a, vec![1]);
    earlier.set(&b, vec![2]);
    earlier.set(&c, vec![]);
    let mut later = Storage::new();
    later.set(&a, vec![1]);
    later.set(&b, vec![2]);
    later.set(&c, vec![]);
    assert_eq!(later.changes_since(&earlier).len(), 0);

    later.set(&b, vec![2, 2]);
    later.set(&a, vec![1]);
    later.set(&d, vec![4]);
    let changed: Vec<Vec<u8>> = later.changes_since(&earlier).iter().map(|p| p.unwrap()).collect();
    assert_eq!(changed, vec![b"/b".to_vec(), b"/d".to_vec()]);

    later.set(&c, vec![3]);
    later.set(&b, vec![2]);
    let changed: Vec<Vec<u8>> = later.changes_since(&earlier).iter().map(|p| p.unwrap()).collect();
    assert_eq!(changed, vec![b"/c".to_vec(), b"/d".to_vec()]);

    let all: Vec<Vec<u8>> =
        later.changes_since(&Storage::new()).iter().map(|p| p.unwrap()).collect();
    assert_eq!(all, vec![b"/a".to_vec(), b"/b".to_vec(), b"/c".to_vec(), b"/d".to_vec()]);
    let mut unset = Storage::new();
    unset.set(&a, vec![]);
    assert_eq!(unset.changes_since(&Storage::new()).len(), 0);
}
