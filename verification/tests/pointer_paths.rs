use data_access::DataStore;
use data_access::Ffi__DataType;
use data_access::Payload;

#[test]
fn empty_pointer_is_root() {
    let mut store = DataStore::new();
    let h = store.data_open("{\"a\": 1}").unwrap();
    assert_eq!(store.get_value_type(h, None), Some(Ffi__DataType::Object));
    // The empty pointer addresses the root as well.
    assert_eq!(store.get_value_type(h, Some("")), Some(Ffi__DataType::Object));
}

#[test]
fn nested_object_path() {
    let mut store = DataStore::new();
    let h = store.data_open("{\"a\": {\"b\": {\"c\": 7}}}").unwrap();
    assert_eq!(store.get_value_type(h, Some("/a/b/c")), Some(Ffi__DataType::Uint64));
    match store.get_value(h, Ffi__DataType::Uint64, Some("/a/b/c")) {
        Some(Payload::UintVal(u)) => assert_eq!(u, 7),
        _ => panic!("expected an unsigned payload"),
    }
}

#[test]
fn array_index_path() {
    let mut store = DataStore::new();
    let h = store.data_open("{\"a\": [10, 20, [30]]}").unwrap();
    match store.get_value(h, Ffi__DataType::Uint64, Some("/a/1")) {
        Some(Payload::UintVal(u)) => assert_eq!(u, 20),
        _ => panic!("expected an unsigned payload"),
    }
    match store.get_value(h, Ffi__DataType::Uint64, Some("/a/2/0")) {
        Some(Payload::UintVal(u)) => assert_eq!(u, 30),
        _ => panic!("expected an unsigned payload"),
    }
}

#[test]
fn array_index_must_be_plain_digits() {
    let mut store = DataStore::new();
    let h = store.data_open("[10, 20, 30]").unwrap();
    // In range.
    assert_eq!(store.get_value_type(h, Some("/0")), Some(Ffi__DataType::Uint64));
    assert_eq!(store.get_value_type(h, Some("/2")), Some(Ffi__DataType::Uint64));
    // Out of range.
    assert_eq!(store.get_value_type(h, Some("/3")), None);
    // A leading zero is not an index.
    assert_eq!(store.get_value_type(h, Some("/01")), None);
    // Signs are not digits.
    assert_eq!(store.get_value_type(h, Some("/+1")), None);
    assert_eq!(store.get_value_type(h, Some("/-1")), None);
    // Not numeric at all.
    assert_eq!(store.get_value_type(h, Some("/x")), None);
    // Far past any possible length.
    assert_eq!(store.get_value_type(h, Some("/99999999999999999999999999")), None);
}

#[test]
fn key_against_array_is_not_found() {
    let mut store = DataStore::new();
    let h = store.data_open("{\"a\": [1], \"b\": 2}").unwrap();
    // A key segment against an array fails.
    assert_eq!(store.get_value_type(h, Some("/a/first")), None);
    // Any segment against a scalar fails.
    assert_eq!(store.get_value_type(h, Some("/b/c")), None);
    // A missing key fails.
    assert_eq!(store.get_value_type(h, Some("/missing")), None);
    // A pointer that does not start with a slash fails.
    assert_eq!(store.get_value_type(h, Some("a")), None);
}

#[test]
fn escaped_segments_resolve() {
    let mut store = DataStore::new();
    let h = store
        .data_open("{\"a/b\": 1, \"m~n\": 2, \"~1\": 3}")
        .unwrap();
    // "~1" escapes "/" inside a segment.
    assert_eq!(store.get_value_type(h, Some("/a~1b")), Some(Ffi__DataType::Uint64));
    // "~0" escapes "~".
    assert_eq!(store.get_value_type(h, Some("/m~0n")), Some(Ffi__DataType::Uint64));
    // "~01" unescapes to the literal text "~1".
    assert_eq!(store.get_value_type(h, Some("/~01")), Some(Ffi__DataType::Uint64));
    // Unescaped "/a/b" reads as two segments and fails.
    assert_eq!(store.get_value_type(h, Some("/a/b")), None);
}

#[test]
fn empty_key_segment() {
    let mut store = DataStore::new();
    let h = store.data_open("{\"\": 5}").unwrap();
    // "/" addresses the entry whose key is the empty string.
    match store.get_value(h, Ffi__DataType::Uint64, Some("/")) {
        Some(Payload::UintVal(u)) => assert_eq!(u, 5),
        _ => panic!("expected an unsigned payload"),
    }
}

#[test]
fn non_ascii_keys_resolve() {
    let mut store = DataStore::new();
    let h = store.data_open("{\"caf\u{e9}\": 1, \"na\u{ef}ve\": 2}").unwrap();
    assert_eq!(
        store.get_value_type(h, Some("/caf\u{e9}")),
        Some(Ffi__DataType::Uint64)
    );
    match store.get_value(h, Ffi__DataType::Uint64, Some("/na\u{ef}ve")) {
        Some(Payload::UintVal(u)) => assert_eq!(u, 2),
        _ => panic!("expected an unsigned payload"),
    }
}

#[test]
fn array_of_objects_through_sub_handles() {
    let mut store = DataStore::new();
    let h = store
        .data_open("[{\"name\": \"x\"}, {\"name\": \"y\"}]")
        .unwrap();
    let items = match store.get_value(h, Ffi__DataType::Array, None) {
        Some(Payload::Items(items)) => items,
        _ => panic!("expected an array payload"),
    };
    assert_eq!(items.len(), 2);
    match store.get_value(items[1], Ffi__DataType::String, Some("/name")) {
        Some(Payload::Text(s)) => assert_eq!(s, "y"),
        _ => panic!("expected a string payload"),
    }
    let keys = store.get_value_keys(items[0], None).unwrap();
    assert_eq!(keys, vec!["name".to_string()]);
}
