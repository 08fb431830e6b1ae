//! The certificate waiter of a DAG-based consensus primary, as a set of verified
//! state machines: the target tracker, the event handlers, the fetch-task
//! launcher and the fetch task itself. The caller owns the channels, the stores
//! and the network; this crate owns every decision.

pub mod fetch;
pub mod laws;
pub mod loopback;
pub mod ordered_map;
pub mod probe;
pub mod request;
pub mod rules;
pub mod types;
pub mod waiter;

pub use fetch::FetchRun;
pub use loopback::CertificateLoopbackMessage;
pub use waiter::{CertificateWaiter, FetchTask};
