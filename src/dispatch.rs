//! Dispatch of a request to its handler, and the response envelope.

use vstd::prelude::*;
use crate::value::{Value, ValueModel};
use crate::convert::{Arg, ArgModel, ConversionError, TypeTag, convert_model, encode_model};
use crate::extract::{args_model, extract, extract_model, extraction_message};
use crate::registry::{ActionRegistry, ActionItem, find_model, has_key, lemma_find_model_none};
use vstd::string::StringExecFns;

verus! {

/// Outcome of a dispatched request.
#[derive(Clone, Copy, Debug, PartialEq, Eq, Structural)]
pub enum Status {
    Success,
    Error,
}

/// The uniform response to a dispatched request.
#[derive(Debug, PartialEq)]
pub struct ResponseEnvelope {
    pub status: Status,
    pub data: Option<Value>,
    pub message: Option<String>,
}

pub ghost struct ResponseModel {
    pub status: Status,
    pub data: Option<ValueModel>,
    pub message: Option<Seq<char>>,
}

impl View for ResponseEnvelope {
    type V = ResponseModel;

    open spec fn view(&self) -> ResponseModel {
        ResponseModel {
            status: self.status,
            data: match self.data {
                Some(v) => Some(v@),
                None => None,
            },
            message: match self.message {
                Some(m) => Some(m@),
                None => None,
            },
        }
    }
}

pub open spec fn success_model(v: ValueModel) -> ResponseModel {
    ResponseModel { status: Status::Success, data: Some(v), message: None }
}

pub open spec fn error_model(message: Seq<char>) -> ResponseModel {
    ResponseModel { status: Status::Error, data: None, message: Some(message) }
}

/// A success carries data and no message; an error carries a message and no data.
pub open spec fn well_shaped(r: ResponseModel) -> bool {
    ||| r.status == Status::Success && r.data is Some && r.message is None
    ||| r.status == Status::Error && r.data is None && r.message is Some
}

/// The envelope for a handler's outcome.
pub open spec fn normalize_model(result: Result<ValueModel, Seq<char>>) -> ResponseModel {
    match result {
        Ok(v) => success_model(v),
        Err(e) => error_model(e),
    }
}

pub open spec fn outcome_model(result: Result<Value, String>) -> Result<ValueModel, Seq<char>> {
    match result {
        Ok(v) => Ok(v@),
        Err(e) => Err(e@),
    }
}

pub open spec fn unknown_operation_message(operation: Seq<char>) -> Seq<char> {
    "unknown operation: "@ + operation
}

/// What the dispatcher decides before any handler runs: the arguments for the handler, or
/// the error envelope for an unknown operation or a payload that does not fit.
pub open spec fn resolve_model(
    handlers: Seq<ActionItem>,
    service_type_id: u64,
    operation: Seq<char>,
    payload: ValueModel,
) -> Result<Seq<ArgModel>, ResponseModel> {
    match find_model(handlers, service_type_id, operation) {
        None => Err(error_model(unknown_operation_message(operation))),
        Some(item) => match extract_model(item.parameters@, payload) {
            Ok(args) => Ok(args),
            Err(e) => Err(error_model(extraction_message(e))),
        },
    }
}

/// Wraps a handler's outcome into a response: its value on success, its rendered error
/// otherwise.
pub fn normalize(result: Result<Value, String>) -> (r: ResponseEnvelope)
    ensures
        r@ == normalize_model(outcome_model(result)),
{
    match result {
        Ok(v) => ResponseEnvelope { status: Status::Success, data: Some(v), message: None },
        Err(e) => ResponseEnvelope { status: Status::Error, data: None, message: Some(e) },
    }
}

/// The error envelope for an operation that no handler serves.
pub fn unknown_operation(operation: &String) -> (r: ResponseEnvelope)
    ensures
        r@ == error_model(unknown_operation_message(operation@)),
{
    let mut m = String::from_str("unknown operation: ");
    m.append(operation.as_str());
    ResponseEnvelope { status: Status::Error, data: None, message: Some(m) }
}

/// Finds the handler for `operation` of the service type and assembles its arguments from
/// `payload`; on a miss or a payload that does not fit, the error envelope instead.
pub fn prepare_request(
    registry: &ActionRegistry,
    service_type_id: u64,
    operation: &String,
    payload: &Value,
) -> (r: Result<Vec<Arg>, ResponseEnvelope>)
    ensures
        match r {
            Ok(args) => resolve_model(registry.handlers(), service_type_id, operation@, payload@)
                == Ok::<Seq<ArgModel>, ResponseModel>(args_model(args@)),
            Err(resp) => resolve_model(registry.handlers(), service_type_id, operation@, payload@)
                == Err::<Seq<ArgModel>, ResponseModel>(resp@),
        },
{
    match registry.find_action_handler(service_type_id, operation) {
        None => Err(unknown_operation(operation)),
        Some(item) => match extract(&item.parameters, payload) {
            Ok(args) => Ok(args),
            Err(e) => Err(
                ResponseEnvelope { status: Status::Error, data: None, message: Some(e.message()) },
            ),
        },
    }
}

/// The handlers of a service, which the dispatcher invokes with extracted arguments.
pub trait ActionHandlerFn {
    /// Runs the method that serves `operation` on `args`; an error is rendered as a string.
    fn call(&self, operation: &String, args: Vec<Arg>) -> Result<Value, String>;
}

/// Dispatches a request to the handler registered for `operation` of the service type.
///
/// An unknown operation and a payload that does not fit the handler's parameters give an
/// error envelope without invoking the service; otherwise the service's outcome is
/// normalized into the envelope.
pub fn dispatch_request<S: ActionHandlerFn>(
    registry: &ActionRegistry,
    service: &S,
    service_type_id: u64,
    operation: &String,
    payload: &Value,
) -> (r: ResponseEnvelope)
    requires
        registry.is_sealed(),
    ensures
        well_shaped(r@),
        resolve_model(registry.handlers(), service_type_id, operation@, payload@) is Err ==> r@
            == resolve_model(registry.handlers(), service_type_id, operation@, payload@)->Err_0,
{
    match prepare_request(registry, service_type_id, operation, payload) {
        Err(resp) => resp,
        Ok(args) => normalize(service.call(operation, args)),
    }
}

/// An operation that was never registered for a service type gives an error envelope whose
/// message ends with the operation's name.
pub proof fn lemma_unknown_operation(
    handlers: Seq<ActionItem>,
    service_type_id: u64,
    operation: Seq<char>,
    payload: ValueModel,
)
    requires
        !has_key(handlers, service_type_id, operation),
    ensures
        resolve_model(handlers, service_type_id, operation, payload) == Err::<Seq<ArgModel>, ResponseModel>(
            error_model(unknown_operation_message(operation)),
        ),
        ({
            let m = unknown_operation_message(operation);
            m.subrange(m.len() - operation.len(), m.len() as int) == operation
        }),
{
    lemma_find_model_none(handlers, service_type_id, operation);
    let m = unknown_operation_message(operation);
    assert(m.subrange(m.len() - operation.len(), m.len() as int) =~= operation);
}

/// A handler that declares no parameters is invoked with no arguments, whatever the payload.
pub proof fn lemma_parameterless_handler(
    handlers: Seq<ActionItem>,
    service_type_id: u64,
    operation: Seq<char>,
    payload: ValueModel,
)
    requires
        find_model(handlers, service_type_id, operation) is Some,
        find_model(handlers, service_type_id, operation)->Some_0.parameters@.len() == 0,
    ensures
        resolve_model(handlers, service_type_id, operation, payload) == Ok::<Seq<ArgModel>, ResponseModel>(
            Seq::empty(),
        ),
{
}

/// An `Int32` result `n` becomes a success envelope holding `Int(n)`, and that data converts
/// back to `n` as an `Int32`.
pub proof fn lemma_int32_result_round_trip(n: i32)
    ensures
        normalize_model(Ok(encode_model(ArgModel::Int32(n)))) == success_model(ValueModel::Int(n as i64)),
        convert_model(ValueModel::Int(n as i64), TypeTag::Int32) == Ok::<ArgModel, ConversionError>(
            ArgModel::Int32(n),
        ),
{
}

} // verus!
