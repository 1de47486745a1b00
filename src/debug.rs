//! A small service for trying out dispatch.

use vstd::prelude::*;
use vstd::string::StringExecFns;
use crate::value::Value;
use crate::convert::Arg;
use crate::dispatch::ActionHandlerFn;
use crate::service::ServiceInfo;
use crate::text::str_eq;

verus! {

/// A small service for trying the dispatcher: three actions that report success.
#[derive(Debug)]
pub struct DebugService {
    name: String,
}

impl View for DebugService {
    /// The service's name.
    type V = Seq<char>;

    closed spec fn view(&self) -> Seq<char> {
        self.name@
    }
}

impl DebugService {
    pub fn new() -> (r: Self)
        ensures
            r@ == "debug_service"@,
    {
        DebugService { name: String::from_str("debug_service") }
    }

    pub fn name(&self) -> (r: &str)
        ensures
            r@ == self@,
    {
        self.name.as_str()
    }
}

impl ServiceInfo for DebugService {
    fn service_name(&self) -> &str {
        self.name.as_str()
    }

    fn service_path(&self) -> &str {
        "/debug_service"
    }

    fn service_description(&self) -> &str {
        "Service DebugService"
    }

    fn service_version(&self) -> &str {
        "1.0.0"
    }
}

impl ActionHandlerFn for DebugService {
    fn call(&self, operation: &String, args: Vec<Arg>) -> Result<Value, String> {
        let op = operation.as_str();
        if str_eq(op, "test_action") {
            Ok(Value::Str(String::from_str("Action executed successfully")))
        } else if str_eq(op, "test_action_with_context") {
            Ok(Value::Str(String::from_str("Action with context executed successfully")))
        } else if str_eq(op, "process_request") {
            Ok(Value::Str(String::from_str("Process executed successfully")))
        } else {
            let mut m = String::from_str("no such action: ");
            m.append(op);
            Err(m)
        }
    }
}

} // verus!
