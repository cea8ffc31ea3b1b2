use assets_manager::lock::{AssetRef, CacheEntry, RwLock};

fn read_value<T: Clone>(handle: &AssetRef<'_, T>) -> T {
    let guard = handle.read();
    guard.get().clone()
}

#[test]
fn stored_value_is_read_back() {
    let entry = CacheEntry::new(42u32);
    assert_eq!(read_value(&entry.get_ref()), 42);

    let entry = CacheEntry::new(String::from("hello"));
    assert_eq!(read_value(&entry.get_ref()), "hello");

    let entry = CacheEntry::new(vec![1u8, 2, 3]);
    assert_eq!(read_value(&entry.get_ref()), vec![1, 2, 3]);
}

#[test]
fn write_is_seen_by_handles_taken_before_and_after() {
    let entry = CacheEntry::new(String::from("v1"));
    let before = entry.get_ref();
    assert_eq!(read_value(&before), "v1");

    let returned = entry.write(String::from("v2"));
    let after = entry.get_ref();
    assert_eq!(read_value(&before), "v2");
    assert_eq!(read_value(&returned), "v2");
    assert_eq!(read_value(&after), "v2");
}

#[test]
fn several_read_guards_coexist() {
    let entry = CacheEntry::new(7i64);
    let handle = entry.get_ref();
    let first = handle.read();
    let second = handle.read();
    assert_eq!(*first.get(), 7);
    assert_eq!(*second.get(), 7);
    drop(first);
    drop(second);
    entry.write(8);
    assert_eq!(read_value(&handle), 8);
}

#[test]
fn handles_of_one_slot_are_the_same_asset() {
    let entry = CacheEntry::new(1u32);
    let a = entry.get_ref();
    let b = entry.get_ref();
    let c = a;
    assert!(a.ptr_eq(&b));
    assert!(a.ptr_eq(&c));
    let d = entry.write(2);
    assert!(d.ptr_eq(&a));
}

#[test]
fn handles_of_distinct_slots_differ_even_with_equal_values() {
    let first = CacheEntry::new(String::from("same"));
    let second = CacheEntry::new(String::from("same"));
    assert!(!first.get_ref().ptr_eq(&second.get_ref()));
    assert!(!second.get_ref().ptr_eq(&first.get_ref()));
}

#[test]
fn cloned_copies_the_current_value() {
    let entry = CacheEntry::new(vec![String::from("a"), String::from("b")]);
    let handle = entry.get_ref();
    assert_eq!(handle.cloned(), vec![String::from("a"), String::from("b")]);
    entry.write(vec![]);
    assert_eq!(handle.cloned(), Vec::<String>::new());
}

#[test]
fn into_inner_returns_the_last_written_value() {
    let entry = CacheEntry::new(3u16);
    assert_eq!(entry.into_inner(), 3);

    let entry = CacheEntry::new(3u16);
    entry.write(4);
    entry.write(5);
    assert_eq!(entry.into_inner(), 5);
}

#[test]
fn lock_write_guard_replaces_value() {
    let lock = RwLock::new(String::from("old"));
    let mut writer = lock.write();
    assert_eq!(writer.get(), "old");
    writer.set(String::from("new"));
    assert_eq!(writer.get(), "new");
    drop(writer);
    let guard = lock.read();
    assert_eq!(guard.get(), "new");
    drop(guard);
    assert_eq!(lock.into_inner(), "new");
}

#[test]
fn a_dropped_guard_lets_writers_in() {
    let entry = CacheEntry::new(1u32);
    let handle = entry.get_ref();
    {
        let guard = handle.read();
        assert_eq!(*guard.get(), 1);
    }
    entry.write(2);
    assert_eq!(read_value(&handle), 2);
}
