use data_access::DataError;
use data_access::DataStore;
use data_access::Ffi__DataType;
use data_access::Payload;

#[test]
fn lookup_failure_names_the_pointer() {
    let mut store = DataStore::new();
    let h = store.data_open("{\"a\": 1}").unwrap();
    assert_eq!(store.get_value_type(h, Some("/missing")), None);
    match store.last_error() {
        Some(DataError::Lookup(p)) => {
            assert_eq!(p.as_str(), "/missing");
        },
        _ => panic!("expected a lookup error"),
    }
    match store.last_error().as_ref().unwrap().message().as_str() {
        "Could not find /missing in data" => (),
        other => panic!("unexpected message: {}", other),
    }
}

#[test]
fn get_value_lookup_failure_names_the_pointer() {
    let mut store = DataStore::new();
    let h = store.data_open("{\"a\": 1}").unwrap();
    assert!(store.get_value(h, Ffi__DataType::Uint64, Some("/nowhere")).is_none());
    match store.last_error() {
        Some(DataError::Lookup(p)) => assert_eq!(p.as_str(), "/nowhere"),
        _ => panic!("expected a lookup error"),
    }
}

#[test]
fn unsigned_request_on_negative_fails() {
    let mut store = DataStore::new();
    let h = store.data_open("{\"n\": -5}").unwrap();
    // The node is numeric, but its stored shape is signed: no coercion.
    assert!(store.get_value(h, Ffi__DataType::Uint64, Some("/n")).is_none());
    match store.last_error() {
        Some(DataError::Mismatch(expected, found)) => {
            assert_eq!(*expected, Ffi__DataType::Uint64);
            assert_eq!(*found, Ffi__DataType::Int64);
        },
        _ => panic!("expected a mismatch error"),
    }
    assert_eq!(
        store.last_error().as_ref().unwrap().message(),
        "Expected Uint64, found Int64"
    );
    // A non-negative integer is stored unsigned, and the dispatch is just
    // as strict in the other directions.
    let h2 = store.data_open("{\"n\": 5}").unwrap();
    assert!(store.get_value(h2, Ffi__DataType::Uint64, Some("/n")).is_some());
    assert!(store.get_value(h2, Ffi__DataType::Int64, Some("/n")).is_none());
    assert!(store.get_value(h2, Ffi__DataType::Float, Some("/n")).is_none());
}

#[test]
fn success_never_clears_the_error() {
    let mut store = DataStore::new();
    let h = store.data_open("{\"a\": 1}").unwrap();
    assert_eq!(store.get_value_type(h, Some("/missing")), None);
    assert!(store.last_error().is_some());
    // A later success leaves the recorded error in place.
    assert_eq!(store.get_value_type(h, Some("/a")), Some(Ffi__DataType::Uint64));
    match store.last_error() {
        Some(DataError::Lookup(p)) => assert_eq!(p.as_str(), "/missing"),
        _ => panic!("expected the earlier lookup error to survive"),
    }
}

#[test]
fn keys_outcomes_differ_only_in_the_error_slot() {
    let mut store = DataStore::new();
    let h = store.data_open("{\"s\": \"abc\"}").unwrap();

    // Resolved but not an object: empty sentinel, no error recorded.
    assert!(store.get_value_keys(h, Some("/s")).is_none());
    assert!(store.last_error().is_none());

    // Unresolved pointer: empty sentinel, and a lookup error.
    assert!(store.get_value_keys(h, Some("/t")).is_none());
    match store.last_error() {
        Some(DataError::Lookup(p)) => assert_eq!(p.as_str(), "/t"),
        _ => panic!("expected a lookup error"),
    }
}

#[test]
fn malformed_text_fails_at_open() {
    let mut store = DataStore::new();
    assert!(store.data_open("{\"a\": ").is_none());
    match store.last_error() {
        Some(DataError::Load(_)) => (),
        _ => panic!("expected a load error"),
    }
    assert!(store.data_open("").is_none());
    match store.last_error() {
        Some(DataError::Load(_)) => (),
        _ => panic!("expected a load error"),
    }
}

#[test]
fn null_request_distinguishes_null() {
    let mut store = DataStore::new();
    let h = store.data_open("{\"n\": null, \"b\": false}").unwrap();
    match store.get_value(h, Ffi__DataType::Null, Some("/n")) {
        Some(Payload::Nothing) => (),
        _ => panic!("expected the empty payload"),
    }
    assert!(store.get_value(h, Ffi__DataType::Null, Some("/b")).is_none());
    assert_eq!(
        store.last_error().as_ref().unwrap().message(),
        "Expected Null, found Bool"
    );
}

#[test]
fn boundary_errors_share_the_slot() {
    let mut store = DataStore::new();
    store.record_load_error("could not read the path".to_string());
    match store.last_error() {
        Some(DataError::Load(m)) => assert_eq!(m.as_str(), "could not read the path"),
        _ => panic!("expected a load error"),
    }
    store.record_encoding_error("text holds an interior NUL".to_string());
    match store.last_error() {
        Some(DataError::Encoding(m)) => assert_eq!(m.as_str(), "text holds an interior NUL"),
        _ => panic!("expected an encoding error"),
    }
    assert_eq!(
        store.last_error().as_ref().unwrap().message(),
        "text holds an interior NUL"
    );
}
