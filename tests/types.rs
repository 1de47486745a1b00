use runar_macros::types::{extract_types_from_method, registered_types, str_lt};

fn params(list: &[(&str, &str)]) -> Vec<(String, String)> {
    list.iter().map(|(n, t)| (n.to_string(), t.to_string())).collect()
}

#[test]
fn method_types_skip_context_and_generic_errors() {
    let p = params(&[
        ("a", "i32"),
        ("ctx", "& RequestContext"),
        ("context", "Ctx"),
        ("my_ctx", "X"),
        ("p", "Point"),
    ]);
    assert_eq!(
        extract_types_from_method(&p, Some("Result < Point , anyhow :: Error >")),
        vec!["i32", "Point", "Point"]
    );
}

#[test]
fn result_return_types() {
    let none = params(&[]);
    assert_eq!(extract_types_from_method(&none, Some("Result<Vec<u8>, MyError>")), vec!["Vec<u8>", "MyError"]);
    assert_eq!(extract_types_from_method(&none, Some("Result<()>")), Vec::<String>::new());
    assert_eq!(extract_types_from_method(&none, Some("Result<Point>")), vec!["Point"]);
    assert_eq!(extract_types_from_method(&none, Some("Result<(), E>")), Vec::<String>::new());
    assert_eq!(extract_types_from_method(&none, Some("Result<>")), Vec::<String>::new());
    assert_eq!(extract_types_from_method(&none, Some("Result<A, anyhow::Error>")), vec!["A"]);
    assert_eq!(extract_types_from_method(&none, Some("Point < T >")), vec!["Point <T>"]);
    assert_eq!(extract_types_from_method(&none, None), Vec::<String>::new());
}

#[test]
fn registered_types_sorted_unique_without_service() {
    let types = vec!["i32", "Point", "& Point", "Calc", "Vec<Point>", "HashMap<String, u64>", "Alpha"];
    assert_eq!(registered_types("Calc", &types), vec!["Alpha", "Point", "Vec<Point>"]);
    assert_eq!(registered_types("Calc", &vec![]), Vec::<String>::new());
}

#[test]
fn string_order() {
    assert!(str_lt("a", "b"));
    assert!(!str_lt("ab", "a"));
    assert!(str_lt("a", "ab"));
    assert!(str_lt("B", "a"));
    assert!(!str_lt("é", "z"));
    assert!(!str_lt("same", "same"));
}
