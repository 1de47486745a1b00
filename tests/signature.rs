use runar_macros::convert::TypeTag;
use runar_macros::extract::{extract_parameter, ExtractionError, ParameterSpec};
use runar_macros::signature::{
    generate_unique_id, is_context_parameter, method_kind, path_matches, registration_method_name,
    tag_for_type, ActionSettings, MethodKind,
};
use runar_macros::text::{find_sub, replace_all, split_on, trim};
use runar_macros::value::Value;
use runar_macros::convert::{Arg, Number};

fn settings(name: &str, path: &str) -> ActionSettings {
    ActionSettings { name: name.to_string(), path: path.to_string() }
}

#[test]
fn action_defaults_to_method_name() {
    assert_eq!(ActionSettings::parse("add", ""), settings("add", "add"));
}

#[test]
fn action_path_setting() {
    assert_eq!(ActionSettings::parse("add", "path = \"math/add\""), settings("add", "math/add"));
    assert_eq!(ActionSettings::parse("add", "path=\"p\", other"), settings("add", "p"));
    assert_eq!(ActionSettings::parse("add", "path"), settings("add", "add"));
}

#[test]
fn action_name_literal() {
    assert_eq!(ActionSettings::parse("add", "\"sum\""), settings("sum", "sum"));
    assert_eq!(ActionSettings::parse("add", "\"a\\\"b\", \"c\""), settings("a\"b", "a\"b"));
    assert_eq!(ActionSettings::parse("add", "42"), settings("add", "add"));
    assert_eq!(ActionSettings::parse("add", "name = \"x\""), settings("add", "add"));
}

#[test]
fn unique_ids_are_ten_alphanumerics() {
    let id = generate_unique_id();
    assert_eq!(id.chars().count(), 10);
    assert!(id.chars().all(|c| c.is_ascii_alphanumeric()));
}

#[test]
fn context_parameters() {
    assert!(is_context_parameter("self"));
    assert!(is_context_parameter("ctx"));
    assert!(is_context_parameter("request_ctx"));
    assert!(!is_context_parameter("context"));
    assert!(!is_context_parameter("a"));
    assert!(!is_context_parameter("ctxs"));
}

#[test]
fn type_tags_from_declared_types() {
    assert_eq!(tag_for_type("f64", 0), TypeTag::Float64);
    assert_eq!(tag_for_type("f32", 0), TypeTag::Float64);
    assert_eq!(tag_for_type("i32", 0), TypeTag::Int32);
    assert_eq!(tag_for_type("i64", 0), TypeTag::Int64);
    assert_eq!(tag_for_type("& str", 0), TypeTag::Str);
    assert_eq!(tag_for_type("String", 0), TypeTag::Str);
    assert_eq!(tag_for_type("bool", 0), TypeTag::Bool);
    assert_eq!(tag_for_type("u8", 7), TypeTag::Struct(7));
    assert_eq!(tag_for_type("MyData", 7), TypeTag::Struct(7));
}

#[test]
fn path_segments_match() {
    let p = vec!["runar".to_string(), "action".to_string()];
    assert!(path_matches(&p, &vec!["runar", "action"]));
    assert!(!path_matches(&p, &vec!["runar"]));
    assert!(!path_matches(&p, &vec!["runar", "subscribe"]));
}

#[test]
fn extract_parameter_single() {
    let p = ParameterSpec { name: "x".to_string(), tag: TypeTag::Float64 };
    let bits = 3.5f64.to_bits();
    assert_eq!(extract_parameter(&Value::Float(bits), &p), Ok(Arg::Float64(Number::Float(bits))));
    let map = Value::Dict(vec![("x".to_string(), Value::Float(bits))]);
    assert_eq!(extract_parameter(&map, &p), Ok(Arg::Float64(Number::Float(bits))));
    assert_eq!(
        extract_parameter(&Value::Dict(vec![]), &p),
        Err(ExtractionError::MissingParameter("x".to_string()))
    );
}

#[test]
fn text_helpers() {
    assert_eq!(trim(" \t a b \n"), "a b");
    assert_eq!(trim("\u{3000}x\u{2003}"), "x");
    assert_eq!(replace_all("aaa", "aa", "b"), "ba");
    assert_eq!(replace_all("a b c", " ", "_"), "a_b_c");
    assert_eq!(split_on("a,,b", ','), vec!["a", "", "b"]);
    assert_eq!(split_on("", ','), vec![""]);
    assert_eq!(find_sub("xpathpath", "path"), Some(1));
    assert_eq!(find_sub("pat", "path"), None);
    assert_eq!(find_sub("é path", "path"), Some(2));
}

#[test]
fn methods_are_classified_by_attributes() {
    let attrs = |v: &[&str]| v.iter().map(|s| s.to_string()).collect::<Vec<String>>();
    assert_eq!(method_kind(&attrs(&["doc", "action"])), Some(MethodKind::Action));
    assert_eq!(method_kind(&attrs(&["subscribe", "action"])), Some(MethodKind::Action));
    assert_eq!(method_kind(&attrs(&["subscribe"])), Some(MethodKind::Subscription));
    assert_eq!(method_kind(&attrs(&["publish"])), None);
    assert_eq!(method_kind(&attrs(&[])), None);
    assert_eq!(registration_method_name(MethodKind::Action, "add"), "register_action_add");
    assert_eq!(registration_method_name(MethodKind::Subscription, "on_event"), "register_subscription_on_event");
}
