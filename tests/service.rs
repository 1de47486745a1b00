use runar_macros::registry::{generate_handler_name, OperationRegistry, SubscriptionRegistry};
use runar_macros::service::{extract_service_attributes, format_type_string, is_primitive_type, ServiceDescriptor, ServiceInfo};

#[test]
fn test_multiple_services() {
    let service1 = ServiceDescriptor::from_attributes("Service1", "name = \"service1\"");
    let service2 = ServiceDescriptor::from_attributes("Service2", "name = \"service2\"");

    assert_eq!(service1.name(), "service1");
    assert_eq!(service2.name(), "service2");

    assert_ne!(service1.name(), service2.name());
    assert_ne!(service1.path(), service2.path());
}

#[test]
fn defaults_come_from_the_type_name() {
    let s = ServiceDescriptor::from_attributes("MathService", "");
    assert_eq!(s.name(), "MathService");
    assert_eq!(s.path(), "mathservice");
    assert_eq!(s.description(), "Service generated by service macro: MathService");
    assert_eq!(s.version(), "1.0.0");
}

#[test]
fn path_follows_name_in_lower_case() {
    let s = ServiceDescriptor::from_attributes("X", "name = \"My Math Service\"");
    assert_eq!(s.path(), "my_math_service");
    assert_eq!(s.service_name(), "My Math Service");
}

#[test]
fn all_settings_given() {
    let s = ServiceDescriptor::from_attributes(
        "CustomParamService",
        "name = \"custom_service\", path = \"/api/v1/custom\", description = \"A custom service\", version = \"2.1.0\"",
    );
    assert_eq!(s.service_name(), "custom_service");
    assert_eq!(s.service_path(), "/api/v1/custom");
    assert_eq!(s.service_description(), "A custom service");
    assert_eq!(s.service_version(), "2.1.0");
}

#[test]
fn attribute_parsing_skips_malformed_pieces_and_keeps_last() {
    let a = extract_service_attributes("  name =  \"a\" , bogus, version = 2, name = \"b\", x = \"\"\" = \"");
    assert_eq!(a.get("name"), Some("b".to_string()));
    assert_eq!(a.get("version"), None);
    assert_eq!(a.get("bogus"), None);
    let b = extract_service_attributes("path = \"\"");
    assert_eq!(b.get("path"), Some(String::new()));
    let c = extract_service_attributes("path = \"");
    assert_eq!(c.get("path"), None);
}

#[test]
fn primitive_types() {
    for t in ["i8", "u128", "usize", "f64", "bool", "char", "()", "String"] {
        assert!(is_primitive_type(t));
    }
    assert!(!is_primitive_type("str"));
    assert!(!is_primitive_type("i32 "));
    assert!(!is_primitive_type("MyType"));
}

#[test]
fn format_type_filters_standard_types() {
    assert_eq!(format_type_string("i32"), None);
    assert_eq!(format_type_string("& String"), None);
    assert_eq!(format_type_string("Vec<u8>"), None);
    assert_eq!(format_type_string("Vec< u8 >"), None);
    assert_eq!(format_type_string("Option<bool>"), None);
    assert_eq!(format_type_string("HashMap<String , u64>"), None);
    assert_eq!(format_type_string("HashMap<String, u64>"), None);
}

#[test]
fn format_type_keeps_other_types_tidied() {
    assert_eq!(format_type_string("& MyType"), Some("MyType".to_string()));
    assert_eq!(format_type_string("Vec < MyType >"), Some("Vec <MyType>".to_string()));
    assert_eq!(format_type_string("Option< Point >"), Some("Option<Point>".to_string()));
    assert_eq!(format_type_string("HashMap<String , Point>"), Some("HashMap<String, Point>".to_string()));
    assert_eq!(format_type_string("HashMap<String>"), Some("HashMap<String>".to_string()));
    assert_eq!(format_type_string("Vec<"), Some("Vec<".to_string()));
}

#[test]
fn handler_names_and_records() {
    assert_eq!(generate_handler_name("add"), "handle_add");
    let op = OperationRegistry::new(5, "add");
    assert_eq!(op.handler_name, "handle_add");
    assert_eq!(op.type_id, 5);
    assert!(SubscriptionRegistry::new(5, "math/added", "register_added").is_full_path);
    let local = SubscriptionRegistry::new(5, "added", "register_added");
    assert!(!local.is_full_path);
    assert_eq!(local.registration_method, "register_added");
}

#[test]
fn lower_case_uses_unicode_mapping() {
    let s = ServiceDescriptor::from_attributes("ÉtatService", "");
    assert_eq!(s.path(), "étatservice");
}

#[test]
fn test_service_info() {
    let service = ServiceDescriptor::from_attributes(
        "TestService",
        "name = \"test_service\" , path = \"test/service\" , description = \"A comprehensive test service\" , version = \"1.0.0\"",
    );

    assert_eq!(service.service_name(), "test_service");
    assert_eq!(service.service_path(), "test/service");
    assert_eq!(service.service_description(), "A comprehensive test service");
    assert_eq!(service.service_version(), "1.0.0");
}
