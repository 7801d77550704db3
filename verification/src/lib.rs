//! The core of the workflow orchestrator, verified with Verus.

pub mod activity;
pub mod agent_log;
pub mod bytes;
pub mod calendar;
pub mod client;
pub mod definition;
pub mod dispatch;
pub mod error;
pub mod handlers;
pub mod json;
pub mod paths;
pub mod registry;
pub mod rotation;
pub mod router;
pub mod runtime;
pub mod server;
pub mod service;
pub mod startup;
pub mod table;
pub mod text;
pub mod wire;

pub use client::InProcessOrchestrator;
pub use definition::{ParameterSpec, ParameterType, ServiceMode, ServiceSpec, WorkflowDefinition, WorkflowSummary};
pub use dispatch::{
    dispatch, validate_payload, InvokeOutcome, ENVELOPE_AGENT_KEY, ENVELOPE_ARGS_KEY, ENVELOPE_COMMAND_KEY,
};
pub use error::{
    CreateError, DeleteError, DispatchError, LoadError, RouterError, RuntimeError, ServerError, ValidationError,
};
pub use registry::Registry;
pub use router::Router;
pub use service::{RunHandle, RunStatus, ServiceError};
pub use wire::{
    DescribeWorkflowRequest, DescribeWorkflowResponse, Envelope, InvokeStatus, InvokeWorkflowRequest,
    InvokeWorkflowResponse, ListWorkflowsRequest, ListWorkflowsResponse, ParameterDescriptor, RequestPayload,
    ResponsePayload,
};
