use parallel_pandas::gil::GilToken;
use parallel_pandas::registry::Registry;

#[test]
fn registry_holds_every_entry_point_in_order() {
    let reg = Registry::new();
    assert_eq!(reg.len(), 8);
    let expected = [
        "sum_as_string",
        "returns_text",
        "sum_numbers",
        "unsafe_with_nested_gil",
        "type_me",
        "any_function",
        "iterable",
        "from_generator",
    ];
    for (i, name) in expected.iter().enumerate() {
        assert_eq!(reg.name_at(i).as_str(), *name);
    }
}

#[test]
fn registry_lookup_finds_registered_names() {
    let reg = Registry::new();
    assert_eq!(reg.lookup(&String::from("sum_as_string")), Some(0));
    assert_eq!(reg.lookup(&String::from("from_generator")), Some(7));
    assert_eq!(reg.lookup(&String::from("iterable")), Some(6));
}

#[test]
fn registry_lookup_misses_unregistered_names() {
    let reg = Registry::new();
    assert_eq!(reg.lookup(&String::from("par_apply")), None);
    assert_eq!(reg.lookup(&String::from("")), None);
}

#[test]
fn gil_token_scoped_use_restores_depth() {
    let mut gil = GilToken::new();
    assert!(!gil.held());
    gil.acquire();
    assert!(gil.held());
    gil.release();
    assert!(!gil.held());
}

#[test]
fn gil_token_is_reentrant() {
    let mut gil = GilToken::new();
    gil.acquire();
    gil.acquire();
    assert!(gil.held());
    gil.release();
    assert!(gil.held());
    gil.release();
    assert!(!gil.held());
}
