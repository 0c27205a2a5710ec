use data_access::DataStore;
use data_access::Ffi__DataType;
use data_access::Payload;

#[test]
fn repeated_calls_yield_identical_results() {
    let mut store = DataStore::new();
    let h = store.data_open("{\"a\": [1, \"x\"], \"b\": true}").unwrap();
    // The same call, several times over: identical results, handle stays
    // usable throughout.
    for _ in 0..3 {
        assert_eq!(store.get_value_type(h, Some("/a")), Some(Ffi__DataType::Array));
        assert_eq!(store.get_value_type(h, Some("/b")), Some(Ffi__DataType::Bool));
        assert_eq!(store.get_value_type(h, Some("/missing")), None);
        match store.get_value(h, Ffi__DataType::Bool, Some("/b")) {
            Some(Payload::Flag(b)) => assert!(b),
            _ => panic!("expected a bool payload"),
        }
        let keys = store.get_value_keys(h, None).unwrap();
        assert_eq!(keys, vec!["a".to_string(), "b".to_string()]);
    }
}

#[test]
fn extracted_elements_outlive_their_parent() {
    let mut store = DataStore::new();
    let h = store.data_open("[123, \"def\"]").unwrap();
    let items = match store.get_value(h, Ffi__DataType::Array, None) {
        Some(Payload::Items(items)) => items,
        _ => panic!("expected an array payload"),
    };
    assert_eq!(items.len(), 2);

    // Each element is its own root, addressed with an absent pointer.
    match store.get_value(items[0], Ffi__DataType::Uint64, None) {
        Some(Payload::UintVal(u)) => assert_eq!(u, 123),
        _ => panic!("expected an unsigned payload"),
    }
    match store.get_value(items[1], Ffi__DataType::String, None) {
        Some(Payload::Text(s)) => assert_eq!(s, "def"),
        _ => panic!("expected a string payload"),
    }

    // Freeing the parent leaves both sub-handles untouched.
    assert_eq!(store.free_value(h), 0);
    match store.get_value(items[0], Ffi__DataType::Uint64, None) {
        Some(Payload::UintVal(u)) => assert_eq!(u, 123),
        _ => panic!("expected an unsigned payload"),
    }
    match store.get_value(items[1], Ffi__DataType::String, None) {
        Some(Payload::Text(s)) => assert_eq!(s, "def"),
        _ => panic!("expected a string payload"),
    }
}

#[test]
fn extracted_object_outlives_its_parent() {
    let mut store = DataStore::new();
    let h = store.data_open("{\"obj\": {\"a\": \"b\"}}").unwrap();
    let o = match store.get_value(h, Ffi__DataType::Object, Some("/obj")) {
        Some(Payload::Doc(o)) => o,
        _ => panic!("expected a document payload"),
    };
    assert_eq!(store.free_value(h), 0);
    match store.get_value(o, Ffi__DataType::String, Some("/a")) {
        Some(Payload::Text(s)) => assert_eq!(s, "b"),
        _ => panic!("expected a string payload"),
    }
    assert_eq!(store.free_value(o), 0);
}

#[test]
fn object_without_pointer_returns_same_handle() {
    let mut store = DataStore::new();
    let h = store.data_open("{\"a\": 1}").unwrap();
    match store.get_value(h, Ffi__DataType::Object, None) {
        Some(Payload::Doc(g)) => assert_eq!(g, h),
        _ => panic!("expected the original handle back"),
    }
    // The handle is restored and usable after the corner case too.
    assert_eq!(store.get_value_type(h, None), Some(Ffi__DataType::Object));
}

#[test]
fn object_without_pointer_on_non_object_fails() {
    let mut store = DataStore::new();
    let h = store.data_open("[1, 2]").unwrap();
    assert!(store.get_value(h, Ffi__DataType::Object, None).is_none());
    assert_eq!(
        store.last_error().as_ref().unwrap().message(),
        "Expected Object, found Array"
    );
    // The handle survives the failure, like every other failure branch.
    assert_eq!(store.get_value_type(h, None), Some(Ffi__DataType::Array));
}

#[test]
fn object_with_pointer_copies_any_shape() {
    let mut store = DataStore::new();
    let h = store.data_open("{\"s\": \"abc\"}").unwrap();
    // With a pointer the resolved node is re-exposed whatever its shape.
    let g = match store.get_value(h, Ffi__DataType::Object, Some("/s")) {
        Some(Payload::Doc(g)) => g,
        _ => panic!("expected a document payload"),
    };
    assert_eq!(store.get_value_type(g, None), Some(Ffi__DataType::String));
}

#[test]
fn keys_come_back_sorted_not_in_insertion_order() {
    let mut store = DataStore::new();
    // Keys written as b, then a.
    let h = store.data_open("{\"b\": 1, \"a\": 2}").unwrap();
    let keys = store.get_value_keys(h, None).unwrap();
    assert_eq!(keys, vec!["a".to_string(), "b".to_string()]);
}

#[test]
fn several_documents_are_independent() {
    let mut store = DataStore::new();
    let h1 = store.data_open("{\"a\": 1}").unwrap();
    let h2 = store.data_open("{\"a\": 2}").unwrap();
    match store.get_value(h1, Ffi__DataType::Uint64, Some("/a")) {
        Some(Payload::UintVal(u)) => assert_eq!(u, 1),
        _ => panic!("expected an unsigned payload"),
    }
    assert_eq!(store.free_value(h1), 0);
    match store.get_value(h2, Ffi__DataType::Uint64, Some("/a")) {
        Some(Payload::UintVal(u)) => assert_eq!(u, 2),
        _ => panic!("expected an unsigned payload"),
    }
}

#[test]
fn object_with_unresolved_pointer_records_lookup() {
    let mut store = DataStore::new();
    let h = store.data_open("{\"a\": 1}").unwrap();
    assert!(store.get_value(h, Ffi__DataType::Object, Some("/missing")).is_none());
    assert_eq!(
        store.last_error().as_ref().unwrap().message(),
        "Could not find /missing in data"
    );
}

#[test]
fn array_request_on_scalar_names_both_shapes() {
    let mut store = DataStore::new();
    let h = store.data_open("{\"s\": \"abc\"}").unwrap();
    assert!(store.get_value(h, Ffi__DataType::Array, Some("/s")).is_none());
    assert_eq!(
        store.last_error().as_ref().unwrap().message(),
        "Expected Array, found String"
    );
}
