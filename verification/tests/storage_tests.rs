use kv::{Kvpair, MemTable, SledDb, Storage, Value};

fn test_basi_interface(mut store: impl Storage) {
    let v = store.set("t1", "hello", "world".into());
    assert!(v.unwrap().is_none());

    let v1 = store.set("t1", "hello", "world1".into());
    assert_eq!(v1, Ok(Some("world".into())));

    let v = store.get("t1", "hello");
    assert_eq!(v, Ok(Some("world1".into())));

    assert!(store.get("t1", "hello1").unwrap().is_none());

    assert_eq!(store.contains("t1", "hello"), Ok(true));
    assert_eq!(store.contains("t1", "hello1"), Ok(false));
    assert_eq!(store.contains("t2", "hello"), Ok(false));

    let v = store.del("t1", "hello");
    assert_eq!(v, Ok(Some("world1".into())));

    let v = store.get("t1", "hello");
    assert!(v.unwrap().is_none());

    assert_eq!(store.del("t1", "hello1"), Ok(None));
    assert_eq!(store.del("t2", "hello"), Ok(None));
}

fn test_get_all(mut store: impl Storage) {
    store.set("t2", "k1", "v1".into()).unwrap();
    store.set("t2", "k2", "v2".into()).unwrap();

    let mut data = store.get_all("t2").unwrap();
    data.sort_by(|a, b| a.partial_cmp(b).unwrap());
    assert_eq!(
        data,
        vec![
            Kvpair::new("k1", "v1".into()),
            Kvpair::new("k2", "v2".into())
        ]
    )
}

#[test]
fn memtable_basic_interface_should_work() {
    let store = MemTable::new();
    test_basi_interface(store);
}

#[test]
fn memtable_get_all() {
    let store = MemTable::new();
    test_get_all(store)
}

#[test]
fn sled_basic_interface_should_work() {
    let dir = tempfile::tempdir().unwrap();
    let store = SledDb::new(dir.path().to_str().unwrap()).unwrap();
    test_basi_interface(store)
}

#[test]
fn sleddb_get_all_should_work() {
    let dir = tempfile::tempdir().unwrap();
    let store = SledDb::new(dir.path().to_str().unwrap()).unwrap();
    test_get_all(store);
}

#[test]
fn sleddb_open_on_bad_path_reports_fault() {
    let r = SledDb::new("/proc/self/cmdline/not-a-dir");
    assert!(r.is_err());
}

#[test]
fn sleddb_persists_across_reopen() {
    let dir = tempfile::tempdir().unwrap();
    let path = dir.path().to_str().unwrap().to_string();
    {
        let mut store = SledDb::new(&path).unwrap();
        store.set("t1", "k1", "v1".into()).unwrap();
    }
    let store = SledDb::new(&path).unwrap();
    assert_eq!(store.get("t1", "k1"), Ok(Some("v1".into())));
}

#[test]
fn sleddb_separates_tables_with_common_prefix() {
    let dir = tempfile::tempdir().unwrap();
    let mut store = SledDb::new(dir.path().to_str().unwrap()).unwrap();
    store.set("t1", "k1", "v1".into()).unwrap();
    store.set("t10", "k2", "v2".into()).unwrap();

    let data = store.get_all("t1").unwrap();
    assert_eq!(data, vec![Kvpair::new("k1", "v1".into())]);
}

#[test]
fn sleddb_key_may_contain_separator() {
    let dir = tempfile::tempdir().unwrap();
    let mut store = SledDb::new(dir.path().to_str().unwrap()).unwrap();
    store.set("t1", "a:b", "v".into()).unwrap();

    assert_eq!(store.get("t1", "a:b"), Ok(Some("v".into())));
    let data = store.get_all("t1").unwrap();
    assert_eq!(data, vec![Kvpair::new("a:b", "v".into())]);
}

#[test]
fn sleddb_get_all_is_sorted_by_key() {
    let dir = tempfile::tempdir().unwrap();
    let mut store = SledDb::new(dir.path().to_str().unwrap()).unwrap();
    store.set("t1", "b", "2".into()).unwrap();
    store.set("t1", "a", "1".into()).unwrap();
    store.set("t1", "c", "3".into()).unwrap();

    let data = store.get_all("t1").unwrap();
    assert_eq!(
        data,
        vec![
            Kvpair::new("a", "1".into()),
            Kvpair::new("b", "2".into()),
            Kvpair::new("c", "3".into()),
        ]
    );
}

#[test]
fn name_checkers_decide_the_preconditions() {
    assert!(kv::is_valid_table_name("t1"));
    assert!(!kv::is_valid_table_name(""));
    assert!(!kv::is_valid_table_name("a:b"));
    assert!(kv::is_valid_key_name("k"));
    assert!(kv::is_valid_key_name("a:b"));
    assert!(!kv::is_valid_key_name(""));
}

#[test]
fn request_checker_decides_dispatchability() {
    assert!(kv::is_request_wf(&kv::CommandRequest::new_hget("t1", "k1")));
    assert!(!kv::is_request_wf(&kv::CommandRequest::new_hget("", "k1")));
    assert!(!kv::is_request_wf(&kv::CommandRequest::new_hget("a:b", "k1")));
    assert!(!kv::is_request_wf(&kv::CommandRequest::new_hmget(
        "t1",
        vec!["k1".to_string(), String::new()]
    )));
    assert!(kv::is_request_wf(&kv::CommandRequest { request_data: None }));
}

#[test]
fn memtable_fresh_key_reads_empty() {
    let mut store = MemTable::new();
    assert_eq!(store.get("t1", "never"), Ok(None));
    assert_eq!(store.contains("t1", "never"), Ok(false));
    assert_eq!(store.del("t1", "never"), Ok(None));
}
