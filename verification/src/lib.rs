//! Request interception for RPC services: routing identity, trace
//! correlation and an ordered chain of request mutators around an inner
//! service.

pub mod event;
pub mod info;
pub mod options;
pub mod path;
pub mod request;
pub mod service;
pub mod trace;

pub use event::{completion_event, CallContext, Completion, CompletionEvent, Elapsed};
pub use info::Info;
pub use options::{Header, Options};
pub use path::{parse_path, parse_path_checked, to_simple_service_name, PathError};
pub use service::{intercept, InterceptedService};
pub use trace::{extract, trace_id_or_fresh};
