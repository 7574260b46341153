//! Verified core of a distributed HTTP load-generation engine.
//!
//! The library models the attack engine: the lifecycle state machine, the
//! deterministic scheduler that allocates task sets and tasks to simulated
//! users, the user execution loop, the metrics aggregation pipeline, the
//! request throttle, and the controller command protocol. All decisions are
//! functions from plain values to plain values, verified against their
//! contracts; the surrounding process (sockets, timers, the HTTP client)
//! drives them from outside.

pub mod attack;
pub mod codec;
pub mod config;
pub mod controller;
pub mod lifecycle;
pub mod logger;
pub mod metrics;
pub mod scheduler;
pub mod swanling;
pub mod throttle;
pub mod user;
pub mod util;

pub use attack::SwanlingAttack;
pub use config::SwanlingConfiguration;
pub use config::SwanlingDefault;
pub use config::SwanlingDefaults;

use vstd::prelude::*;

verus! {

/// An enumeration of all errors a load test can return during setup and
/// validation.
#[derive(Debug, PartialEq, Eq)]
pub enum SwanlingError {
    /// Failed attempt to use code that requires a compile-time feature be
    /// enabled.
    FeatureNotEnabled {
        /// The missing compile-time feature.
        feature: String,
        /// An optional explanation of the error.
        detail: String,
    },
    /// Failed to parse a hostname.
    InvalidHost {
        /// The invalid hostname that caused this error.
        host: String,
        /// An optional explanation of the error.
        detail: String,
    },
    /// Invalid option or value specified, may only be invalid in context.
    InvalidOption {
        /// The invalid option that caused this error.
        option: String,
        /// The invalid value that caused this error.
        value: String,
        /// An optional explanation of the error.
        detail: String,
    },
    /// Invalid wait time specified.
    InvalidWaitTime {
        /// The specified minimum wait time.
        min_wait: usize,
        /// The specified maximum wait time.
        max_wait: usize,
        /// An optional explanation of the error.
        detail: String,
    },
    /// Invalid weight specified.
    InvalidWeight {
        /// The specified weight.
        weight: usize,
        /// An optional explanation of the error.
        detail: String,
    },
    /// The attack has no task set defined.
    NoTaskSets {
        /// An optional explanation of the error.
        detail: String,
    },
}

impl SwanlingError {
    /// A short text description of each kind of error.
    pub fn describe(&self) -> (r: &'static str)
        ensures
            r@ == match self {
                SwanlingError::FeatureNotEnabled { .. } => "required compile-time feature not enabled"@,
                SwanlingError::InvalidHost { .. } => "failed to parse hostname"@,
                SwanlingError::InvalidOption { .. } => "invalid option or value specified"@,
                SwanlingError::InvalidWaitTime { .. } => "invalid wait_time specified"@,
                SwanlingError::InvalidWeight { .. } => "invalid weight specified"@,
                SwanlingError::NoTaskSets { .. } => "no task sets defined"@,
            },
    {
        match self {
            SwanlingError::FeatureNotEnabled { .. } => "required compile-time feature not enabled",
            SwanlingError::InvalidHost { .. } => "failed to parse hostname",
            SwanlingError::InvalidOption { .. } => "invalid option or value specified",
            SwanlingError::InvalidWaitTime { .. } => "invalid wait_time specified",
            SwanlingError::InvalidWeight { .. } => "invalid weight specified",
            SwanlingError::NoTaskSets { .. } => "no task sets defined",
        }
    }
}

/// A load test operates in one (and only one) of the following modes.
#[derive(Clone, Copy, Debug, PartialEq, Eq, Structural)]
pub enum AttackMode {
    /// During early startup before one of the following modes gets assigned.
    Undefined,
    /// A single standalone process performing a load test.
    StandAlone,
    /// The controlling process in a distributed load test.
    Manager,
    /// One of one or more working processes in a distributed load test.
    Worker,
}

/// A load test moves through each of the following phases during a complete
/// run; `Idle` is reachable again after `Stopping`.
#[derive(Clone, Copy, Debug, PartialEq, Eq, Structural)]
pub enum AttackPhase {
    /// No load test is running, configuration can be changed by a controller.
    Idle,
    /// Users are launching and beginning to generate load.
    Starting,
    /// All users have launched and are generating load.
    Running,
    /// Users are stopping.
    Stopping,
    /// Exiting the load test.
    Shutdown,
}

/// Defines the order task sets and tasks are allocated.
#[derive(Clone, Copy, Debug, PartialEq, Eq, Structural)]
pub enum SwanlingScheduler {
    /// Allocate one of each available type at a time (default).
    RoundRobin,
    /// Allocate in the order and weighting defined.
    Serial,
    /// Allocate in a random order.
    Random,
}

impl Clone for SwanlingError {
    /// A clone equals the original.
    fn clone(&self) -> (r: Self)
        ensures
            r == *self,
    {
        match self {
            SwanlingError::FeatureNotEnabled { feature, detail } => SwanlingError::FeatureNotEnabled {
                feature: feature.clone(),
                detail: detail.clone(),
            },
            SwanlingError::InvalidHost { host, detail } => SwanlingError::InvalidHost {
                host: host.clone(),
                detail: detail.clone(),
            },
            SwanlingError::InvalidOption { option, value, detail } => SwanlingError::InvalidOption {
                option: option.clone(),
                value: value.clone(),
                detail: detail.clone(),
            },
            SwanlingError::InvalidWaitTime { min_wait, max_wait, detail } => SwanlingError::InvalidWaitTime {
                min_wait: *min_wait,
                max_wait: *max_wait,
                detail: detail.clone(),
            },
            SwanlingError::InvalidWeight { weight, detail } => SwanlingError::InvalidWeight {
                weight: *weight,
                detail: detail.clone(),
            },
            SwanlingError::NoTaskSets { detail } => SwanlingError::NoTaskSets {
                detail: detail.clone(),
            },
        }
    }
}

} // verus!
