use runar_macros::convert::{Arg, Number, TypeTag};
use runar_macros::debug::DebugService;
use runar_macros::dispatch::{dispatch_request, normalize, prepare_request, ActionHandlerFn, ResponseEnvelope, Status};
use runar_macros::extract::ParameterSpec;
use runar_macros::registry::{ActionItem, ActionRegistry, RegistryError};
use runar_macros::value::Value;

const CALC: u64 = 1;
const OTHER: u64 = 2;

struct Calc;

fn float_of(a: &Arg) -> f64 {
    match a {
        Arg::Float64(Number::Float(bits)) => f64::from_bits(*bits),
        Arg::Float64(Number::Int(n)) => *n as f64,
        _ => panic!("not a float argument"),
    }
}

impl ActionHandlerFn for Calc {
    fn call(&self, operation: &String, args: Vec<Arg>) -> Result<Value, String> {
        match operation.as_str() {
            "add" => Ok(Value::Float((float_of(&args[0]) + float_of(&args[1])).to_bits())),
            "divide" => {
                let b = float_of(&args[1]);
                if b == 0.0 {
                    Err("Division by zero".to_string())
                } else {
                    Ok(Value::Float((float_of(&args[0]) / b).to_bits()))
                }
            }
            "ping" => Ok(Value::Str("pong".to_string())),
            "half" => Ok(Value::Float((float_of(&args[0]) / 2.0).to_bits())),
            _ => Err(format!("no such operation {}", operation)),
        }
    }
}

fn param(name: &str, tag: TypeTag) -> ParameterSpec {
    ParameterSpec { name: name.to_string(), tag }
}

fn item(name: &str, id: u64, parameters: Vec<ParameterSpec>) -> ActionItem {
    ActionItem { name: name.to_string(), service_type_id: id, parameters }
}

fn dict(entries: Vec<(&str, Value)>) -> Value {
    Value::Dict(entries.into_iter().map(|(k, v)| (k.to_string(), v)).collect())
}

fn float(x: f64) -> Value {
    Value::Float(x.to_bits())
}

fn calc_registry() -> ActionRegistry {
    let mut registry = ActionRegistry::new();
    registry
        .register(item("add", CALC, vec![param("a", TypeTag::Float64), param("b", TypeTag::Float64)]))
        .unwrap();
    registry
        .register(item("divide", CALC, vec![param("a", TypeTag::Float64), param("b", TypeTag::Float64)]))
        .unwrap();
    registry.register(item("ping", CALC, vec![])).unwrap();
    registry.register(item("half", CALC, vec![param("x", TypeTag::Float64)])).unwrap();
    registry.seal();
    registry
}

fn dispatch(registry: &ActionRegistry, op: &str, payload: Value) -> ResponseEnvelope {
    assert!(registry.sealed());
    dispatch_request(registry, &Calc, CALC, &op.to_string(), &payload)
}

#[test]
fn add_two_floats_succeeds() {
    let registry = calc_registry();
    let r = dispatch(&registry, "add", dict(vec![("a", float(2.0)), ("b", float(3.0))]));
    assert_eq!(r.status, Status::Success);
    assert_eq!(r.data, Some(float(5.0)));
    assert_eq!(r.message, None);
}

#[test]
fn add_with_missing_parameter_names_it() {
    let registry = calc_registry();
    let r = dispatch(&registry, "add", dict(vec![("a", float(2.0))]));
    assert_eq!(r.status, Status::Error);
    assert_eq!(r.data, None);
    let message = r.message.unwrap();
    assert!(message.contains("b"));
    assert_eq!(message, "missing parameter: b");
}

#[test]
fn unknown_operation_is_an_error_response() {
    let registry = calc_registry();
    let r = dispatch(&registry, "subtract", dict(vec![("a", float(2.0)), ("b", float(3.0))]));
    assert_eq!(r.status, Status::Error);
    let message = r.message.unwrap();
    assert!(message.contains("subtract"));
    assert_eq!(message, "unknown operation: subtract");
}

#[test]
fn operation_of_another_service_type_is_unknown() {
    let registry = calc_registry();
    let r = dispatch_request(&registry, &Calc, OTHER, &"add".to_string(), &Value::Null);
    assert_eq!(r.message, Some("unknown operation: add".to_string()));
}

#[test]
fn parameterless_handler_accepts_null_and_empty_map() {
    let registry = calc_registry();
    for payload in vec![Value::Null, Value::Dict(vec![])] {
        let r = dispatch(&registry, "ping", payload);
        assert_eq!(r.status, Status::Success);
        assert_eq!(r.data, Some(Value::Str("pong".to_string())));
    }
}

#[test]
fn single_parameter_accepts_bare_value_and_map() {
    let registry = calc_registry();
    let bare = prepare_request(&registry, CALC, &"half".to_string(), &float(3.5)).unwrap();
    let named = prepare_request(&registry, CALC, &"half".to_string(), &dict(vec![("x", float(3.5))])).unwrap();
    assert_eq!(bare, vec![Arg::Float64(Number::Float(3.5f64.to_bits()))]);
    assert_eq!(bare, named);
    let r1 = dispatch(&registry, "half", float(3.5));
    let r2 = dispatch(&registry, "half", dict(vec![("x", float(3.5))]));
    assert_eq!(r1, r2);
    assert_eq!(r1.data, Some(float(1.75)));
}

#[test]
fn several_parameters_reject_a_bare_value() {
    let registry = calc_registry();
    let r = dispatch(&registry, "add", float(2.0));
    assert_eq!(r.status, Status::Error);
    assert_eq!(r.message, Some("expected a map of named parameters, found float".to_string()));
}

#[test]
fn wrong_parameter_type_is_reported() {
    let registry = calc_registry();
    let r = dispatch(&registry, "add", dict(vec![("a", float(2.0)), ("b", Value::Str("3".to_string()))]));
    assert_eq!(r.message, Some("parameter b: expected Float64, found string".to_string()));
}

#[test]
fn business_error_becomes_error_response() {
    let registry = calc_registry();
    let r = dispatch(&registry, "divide", dict(vec![("a", float(1.0)), ("b", float(0.0))]));
    assert_eq!(r.status, Status::Error);
    assert_eq!(r.data, None);
    assert_eq!(r.message, Some("Division by zero".to_string()));
}

#[test]
fn integers_widen_for_float_parameters() {
    let registry = calc_registry();
    let r = dispatch(&registry, "add", dict(vec![("a", Value::Int(2)), ("b", float(0.5))]));
    assert_eq!(r.data, Some(float(2.5)));
}

#[test]
fn duplicate_registration_fails_and_keeps_first() {
    let mut registry = ActionRegistry::new();
    assert!(registry.register(item("add", CALC, vec![param("a", TypeTag::Int32)])).is_ok());
    let second = registry.register(item("add", CALC, vec![]));
    assert_eq!(
        second,
        Err(RegistryError::DuplicateKey { service_type_id: CALC, operation_name: "add".to_string() })
    );
    assert_eq!(registry.len(), 1);
    let found = registry.find_action_handler(CALC, &"add".to_string()).unwrap();
    assert_eq!(found.parameters.len(), 1);
}

#[test]
fn same_name_on_other_service_type_registers() {
    let mut registry = ActionRegistry::new();
    assert!(registry.register(item("add", CALC, vec![])).is_ok());
    assert!(registry.register(item("add", OTHER, vec![])).is_ok());
    assert_eq!(registry.len(), 2);
}

#[test]
fn registration_after_seal_fails() {
    let mut registry = ActionRegistry::new();
    registry.seal();
    let r = registry.register(item("add", CALC, vec![]));
    assert_eq!(r, Err(RegistryError::Sealed { operation_name: "add".to_string() }));
    assert_eq!(registry.len(), 0);
}

#[test]
fn lookup_misses_return_none() {
    let registry = calc_registry();
    assert!(registry.find_action_handler(CALC, &"subtract".to_string()).is_none());
    assert!(registry.find_action_handler(OTHER, &"add".to_string()).is_none());
    assert_eq!(registry.find_action_handler(CALC, &"divide".to_string()).unwrap().name, "divide");
}

#[test]
fn operations_are_listed_per_service_type_in_order() {
    let mut registry = calc_registry();
    registry.seal();
    assert_eq!(registry.get_action_handlers(CALC), vec!["add", "divide", "ping", "half"]);
    assert!(registry.get_action_handlers(OTHER).is_empty());
}

#[test]
fn int32_result_round_trips() {
    let r = normalize(Ok(Arg::Int32(7).into_value()));
    assert_eq!(r, ResponseEnvelope { status: Status::Success, data: Some(Value::Int(7)), message: None });
    let back = runar_macros::convert::convert(r.data.as_ref().unwrap(), TypeTag::Int32);
    assert_eq!(back, Ok(Arg::Int32(7)));
}

#[test]
fn normalize_error() {
    let r = normalize(Err("boom".to_string()));
    assert_eq!(r, ResponseEnvelope { status: Status::Error, data: None, message: Some("boom".to_string()) });
}

#[test]
fn debug_service_actions() {
    let mut registry = ActionRegistry::new();
    registry.register(item("test_action", 9, vec![param("data", TypeTag::Str)])).unwrap();
    registry.seal();
    let service = DebugService::new();
    assert_eq!(service.name(), "debug_service");
    let r = dispatch_request(&registry, &service, 9, &"test_action".to_string(), &Value::Str("hi".to_string()));
    assert_eq!(r.data, Some(Value::Str("Action executed successfully".to_string())));
    let miss = dispatch_request(&registry, &service, 9, &"test_action".to_string(), &Value::Int(1));
    assert_eq!(miss.message, Some("parameter data: expected String, found int".to_string()));
}
