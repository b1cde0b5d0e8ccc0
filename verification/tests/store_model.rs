use pastebin::store::TtlStore;

fn key() -> Vec<u8> {
    b"file_abcd1234".to_vec()
}

#[test]
fn insert_then_lookup_returns_the_write() {
    let mut st = TtlStore::new();
    st.insert(key(), b"payload".to_vec(), b"meta".to_vec(), Some(100), 0);
    let e = st.lookup(&key(), 0).expect("just-written entry must be readable");
    assert_eq!(e.content, b"payload".to_vec());
    assert_eq!(e.metadata, b"meta".to_vec());
}

#[test]
fn entry_expires_exactly_at_its_deadline() {
    let mut st = TtlStore::new();
    st.insert(key(), b"payload".to_vec(), b"meta".to_vec(), Some(100), 10);
    assert!(st.lookup(&key(), 109).is_some());
    assert!(st.lookup(&key(), 110).is_none());
}

#[test]
fn entry_without_ttl_never_expires() {
    let mut st = TtlStore::new();
    st.insert(key(), b"payload".to_vec(), b"meta".to_vec(), None, 0);
    assert!(st.lookup(&key(), u64::MAX).is_some());
}

#[test]
fn touch_extends_expiry_without_rewriting_content() {
    let mut st = TtlStore::new();
    st.insert(key(), b"payload".to_vec(), b"meta".to_vec(), Some(100), 0);
    st.touch(&key(), 100, 50);
    let e = st.lookup(&key(), 149).expect("touched entry must live longer");
    assert_eq!(e.content, b"payload".to_vec());
    assert_eq!(e.metadata, b"meta".to_vec());
    assert!(st.lookup(&key(), 150).is_none());
}

#[test]
fn touch_of_absent_key_changes_nothing() {
    let mut st = TtlStore::new();
    st.touch(&key(), 100, 0);
    assert!(st.lookup(&key(), 0).is_none());
}

#[test]
fn append_creates_and_extends_the_log() {
    let mut st = TtlStore::new();
    let log = b"_upload_metrics".to_vec();
    st.append(&log, &b"one\n".to_vec(), b"1".to_vec(), 0);
    st.append(&log, &b"two\n".to_vec(), b"2".to_vec(), 0);
    let e = st.lookup(&log, 0).expect("log entry exists");
    assert_eq!(e.content, b"one\ntwo\n".to_vec());
    assert_eq!(e.metadata, b"2".to_vec());
}

#[test]
fn lookup_misses_other_keys() {
    let mut st = TtlStore::new();
    st.insert(key(), b"payload".to_vec(), b"meta".to_vec(), Some(100), 0);
    assert!(st.lookup(&b"file_other000".to_vec(), 0).is_none());
}
