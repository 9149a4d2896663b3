//! Building blocks for supervision trees in the style of Erlang/OTP.
//!
//! The library holds the decisions of a supervisor: which children start
//! and in what order, which siblings restart when one of them fails, and
//! when repeated failure exhausts the restart budget. The work a child does,
//! and the clock, belong to the caller, who reports what happened and
//! performs the actions handed back.
pub mod config;
pub mod limiter;
pub mod registry;
pub mod strategy;
pub mod supervisor;

pub use config::{SupervisorConfig, SupervisorError};
pub use limiter::RestartLimiter;
pub use registry::{ChildRegistry, ChildSpec, RestartType, Shutdown};
pub use strategy::{affected_children, RestartStrategy};
pub use supervisor::{
    ChildStatus, ExitAction, ExitResponse, FailureEvent, StartStep, Supervisor, SupervisorStatus,
    Termination,
};
