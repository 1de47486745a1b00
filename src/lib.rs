//! Marshalling and dispatch for service handlers: a payload value model, type-directed
//! parameter extraction, a registry of handlers keyed by service type and operation name,
//! and a dispatcher that normalizes every outcome into a response envelope. Beside them,
//! what the annotations of a service declare: its metadata, its actions and subscriptions,
//! and the types it registers with its serializer.

pub mod value;
pub mod convert;
pub mod extract;
pub mod registry;
pub mod dispatch;
pub mod text;
pub mod service;
pub mod debug;
pub mod signature;
pub mod types;
pub mod subscription;
