//! The attack itself: the global state a load test is built up in, and the
//! setup validation that either prepares the weighted users and task
//! schedules or rejects the configuration with a typed error before the
//! state machine starts.

use vstd::prelude::*;

use crate::config::SwanlingConfiguration;
use crate::config::SwanlingDefault;
use crate::config::SwanlingDefaults;
use crate::metrics::SwanlingMetrics;
use crate::scheduler;
use crate::swanling::SwanlingTask;
use crate::swanling::SwanlingTaskSet;
use crate::swanling::SwanlingUser;
use crate::util;
use crate::AttackMode;
use crate::AttackPhase;
use crate::SwanlingError;
use crate::SwanlingScheduler;

verus! {

/// Global internal state for the load test.
#[derive(Debug)]
pub struct SwanlingAttack {
    /// An optional task run one time before any user starts.
    pub test_start_task: Option<SwanlingTask>,
    /// An optional task run one time after all users have finished.
    pub test_stop_task: Option<SwanlingTask>,
    /// One copy of each task set defined by this load test.
    pub task_sets: Vec<SwanlingTaskSet>,
    /// One user state for each user that will run, in launch order.
    pub weighted_users: Vec<SwanlingUser>,
    /// Optional programmatic defaults for the run-time options.
    pub defaults: SwanlingDefaults,
    /// The options set when launching the load test.
    pub configuration: SwanlingConfiguration,
    /// How long, in seconds, the load test should run; zero runs until
    /// canceled.
    pub run_time: usize,
    /// Which mode the load test operates in.
    pub attack_mode: AttackMode,
    /// Which phase the load test is currently in.
    pub attack_phase: AttackPhase,
    /// The order task sets and tasks are allocated in.
    pub scheduler: SwanlingScheduler,
    /// All metrics merged together.
    pub metrics: SwanlingMetrics,
}

/// Every task set is indexed by its position, and every task by its position
/// within its set, with positive weights throughout, as registration builds
/// them.
pub open spec fn attack_wf(a: SwanlingAttack) -> bool {
    &&& forall|i: int|
        0 <= i < a.task_sets@.len() ==> (#[trigger] a.task_sets@[i]).task_sets_index == i
    &&& forall|i: int|
        0 <= i < a.task_sets@.len() ==> scheduler::tasks_well_indexed(
            (#[trigger] a.task_sets@[i]).tasks@,
        )
    &&& forall|i: int|
        0 <= i < a.task_sets@.len() ==> scheduler::tasks_weights_positive(
            (#[trigger] a.task_sets@[i]).tasks@,
        )
    &&& forall|i: int| 0 <= i < a.task_sets@.len() ==> (#[trigger] a.task_sets@[i]).weight >= 1
}

impl SwanlingAttack {
    /// Initializes a load test with an already loaded configuration, as the
    /// surrounding process hands it over after parsing the command line.
    pub fn initialize_with_config(configuration: SwanlingConfiguration) -> (r: Result<
        SwanlingAttack,
        SwanlingError,
    >)
        ensures
            r matches Ok(a) && a.configuration == configuration && a.task_sets@.len() == 0
                && a.weighted_users@.len() == 0 && a.run_time == 0 && a.attack_mode
                == AttackMode::Undefined && a.attack_phase == AttackPhase::Idle && a.scheduler
                == SwanlingScheduler::RoundRobin && a.defaults == SwanlingDefaults::spec_none()
                && a.test_start_task is None && a.test_stop_task is None && attack_wf(a),
    {
        Ok(
            SwanlingAttack {
                test_start_task: None,
                test_stop_task: None,
                task_sets: Vec::new(),
                weighted_users: Vec::new(),
                defaults: SwanlingDefaults::none(),
                configuration,
                run_time: 0,
                attack_mode: AttackMode::Undefined,
                attack_phase: AttackPhase::Idle,
                scheduler: SwanlingScheduler::RoundRobin,
                metrics: SwanlingMetrics::new(),
            },
        )
    }

    /// Defines the order task sets and tasks are allocated.
    pub fn set_scheduler(self, scheduler: SwanlingScheduler) -> (r: SwanlingAttack)
        ensures
            r == (SwanlingAttack { scheduler, ..self }),
    {
        SwanlingAttack { scheduler, ..self }
    }

    /// Registers one task set; its index is its registration position.
    pub fn register_taskset(self, taskset: SwanlingTaskSet) -> (r: SwanlingAttack)
        requires
            attack_wf(self),
            scheduler::tasks_well_indexed(taskset.tasks@),
            scheduler::tasks_weights_positive(taskset.tasks@),
            taskset.weight >= 1,
        ensures
            attack_wf(r),
            r.task_sets@.len() == self.task_sets@.len() + 1,
            r.task_sets@.last() == (SwanlingTaskSet {
                task_sets_index: self.task_sets@.len() as usize,
                ..taskset
            }),
            r.task_sets@.subrange(0, self.task_sets@.len() as int) == self.task_sets@,
            r.configuration == self.configuration,
            r.scheduler == self.scheduler,
            r.defaults == self.defaults,
    {
        let mut s = self;
        let index = s.task_sets.len();
        s.task_sets.push(SwanlingTaskSet { task_sets_index: index, ..taskset });
        proof {
            assert(s.task_sets@.subrange(0, s.task_sets@.len() - 1) =~= self.task_sets@);
        }
        s
    }

    /// Defines a task run one time before any user starts.
    pub fn test_start(self, task: SwanlingTask) -> (r: SwanlingAttack)
        ensures
            r == (SwanlingAttack { test_start_task: Some(task), ..self }),
    {
        SwanlingAttack { test_start_task: Some(task), ..self }
    }

    /// Defines a task run one time after all users have finished.
    pub fn test_stop(self, task: SwanlingTask) -> (r: SwanlingAttack)
        ensures
            r == (SwanlingAttack { test_stop_task: Some(task), ..self }),
    {
        SwanlingAttack { test_stop_task: Some(task), ..self }
    }

    /// Registers a string-valued programmatic default; a key of another value type is rejected.
    #[verifier::rlimit(100)]
    #[verifier::spinoff_prover]
    pub fn set_default_str(self, key: SwanlingDefault, value: &str) -> (r: Result<
        SwanlingAttack,
        SwanlingError,
    >)
        ensures
            match key {
            SwanlingDefault::Host => r matches Ok(a) && a == (SwanlingAttack {
                defaults: a.defaults,
                ..self
            }) && a.defaults == (SwanlingDefaults { host: a.defaults.host, ..self.defaults })
                && (a.defaults.host matches Some(h) && h@ == value@),
            SwanlingDefault::HatchRate => r matches Ok(a) && a == (SwanlingAttack {
                defaults: a.defaults,
                ..self
            }) && a.defaults == (SwanlingDefaults { hatch_rate: a.defaults.hatch_rate, ..self.defaults })
                && (a.defaults.hatch_rate matches Some(h) && h@ == value@),
            SwanlingDefault::SwanlingLog => r matches Ok(a) && a == (SwanlingAttack {
                defaults: a.defaults,
                ..self
            }) && a.defaults == (SwanlingDefaults { swanling_log: a.defaults.swanling_log, ..self.defaults })
                && (a.defaults.swanling_log matches Some(h) && h@ == value@),
            SwanlingDefault::ReportFile => r matches Ok(a) && a == (SwanlingAttack {
                defaults: a.defaults,
                ..self
            }) && a.defaults == (SwanlingDefaults { report_file: a.defaults.report_file, ..self.defaults })
                && (a.defaults.report_file matches Some(h) && h@ == value@),
            SwanlingDefault::RequestLog => r matches Ok(a) && a == (SwanlingAttack {
                defaults: a.defaults,
                ..self
            }) && a.defaults == (SwanlingDefaults { request_log: a.defaults.request_log, ..self.defaults })
                && (a.defaults.request_log matches Some(h) && h@ == value@),
            SwanlingDefault::TaskLog => r matches Ok(a) && a == (SwanlingAttack {
                defaults: a.defaults,
                ..self
            }) && a.defaults == (SwanlingDefaults { task_log: a.defaults.task_log, ..self.defaults })
                && (a.defaults.task_log matches Some(h) && h@ == value@),
            SwanlingDefault::ErrorLog => r matches Ok(a) && a == (SwanlingAttack {
                defaults: a.defaults,
                ..self
            }) && a.defaults == (SwanlingDefaults { error_log: a.defaults.error_log, ..self.defaults })
                && (a.defaults.error_log matches Some(h) && h@ == value@),
            SwanlingDefault::DebugLog => r matches Ok(a) && a == (SwanlingAttack {
                defaults: a.defaults,
                ..self
            }) && a.defaults == (SwanlingDefaults { debug_log: a.defaults.debug_log, ..self.defaults })
                && (a.defaults.debug_log matches Some(h) && h@ == value@),
            SwanlingDefault::TelnetHost => r matches Ok(a) && a == (SwanlingAttack {
                defaults: a.defaults,
                ..self
            }) && a.defaults == (SwanlingDefaults { telnet_host: a.defaults.telnet_host, ..self.defaults })
                && (a.defaults.telnet_host matches Some(h) && h@ == value@),
            SwanlingDefault::WebSocketHost => r matches Ok(a) && a == (SwanlingAttack {
                defaults: a.defaults,
                ..self
            }) && a.defaults == (SwanlingDefaults { websocket_host: a.defaults.websocket_host, ..self.defaults })
                && (a.defaults.websocket_host matches Some(h) && h@ == value@),
            SwanlingDefault::ManagerBindHost => r matches Ok(a) && a == (SwanlingAttack {
                defaults: a.defaults,
                ..self
            }) && a.defaults == (SwanlingDefaults { manager_bind_host: a.defaults.manager_bind_host, ..self.defaults })
                && (a.defaults.manager_bind_host matches Some(h) && h@ == value@),
            SwanlingDefault::ManagerHost => r matches Ok(a) && a == (SwanlingAttack {
                defaults: a.defaults,
                ..self
            }) && a.defaults == (SwanlingDefaults { manager_host: a.defaults.manager_host, ..self.defaults })
                && (a.defaults.manager_host matches Some(h) && h@ == value@),
                _ => r matches Err(SwanlingError::InvalidOption { .. }),
            },
    {
        let mut s = self;
        match key {
            SwanlingDefault::Host => {
                s.defaults.host = Some(value.to_owned());
                Ok(s)
            },
            SwanlingDefault::HatchRate => {
                s.defaults.hatch_rate = Some(value.to_owned());
                Ok(s)
            },
            SwanlingDefault::SwanlingLog => {
                s.defaults.swanling_log = Some(value.to_owned());
                Ok(s)
            },
            SwanlingDefault::ReportFile => {
                s.defaults.report_file = Some(value.to_owned());
                Ok(s)
            },
            SwanlingDefault::RequestLog => {
                s.defaults.request_log = Some(value.to_owned());
                Ok(s)
            },
            SwanlingDefault::TaskLog => {
                s.defaults.task_log = Some(value.to_owned());
                Ok(s)
            },
            SwanlingDefault::ErrorLog => {
                s.defaults.error_log = Some(value.to_owned());
                Ok(s)
            },
            SwanlingDefault::DebugLog => {
                s.defaults.debug_log = Some(value.to_owned());
                Ok(s)
            },
            SwanlingDefault::TelnetHost => {
                s.defaults.telnet_host = Some(value.to_owned());
                Ok(s)
            },
            SwanlingDefault::WebSocketHost => {
                s.defaults.websocket_host = Some(value.to_owned());
                Ok(s)
            },
            SwanlingDefault::ManagerBindHost => {
                s.defaults.manager_bind_host = Some(value.to_owned());
                Ok(s)
            },
            SwanlingDefault::ManagerHost => {
                s.defaults.manager_host = Some(value.to_owned());
                Ok(s)
            },
            _ => Err(
                SwanlingError::InvalidOption {
                    option: "SwanlingDefault".to_owned(),
                    value: "".to_owned(),
                    detail: "This default key expects a value of another type.".to_owned(),
                },
            ),
        }
    }

    /// Registers a numeric programmatic default; a key of another value type is rejected.
    #[verifier::rlimit(100)]
    #[verifier::spinoff_prover]
    pub fn set_default_usize(self, key: SwanlingDefault, value: usize) -> (r: Result<
        SwanlingAttack,
        SwanlingError,
    >)
        ensures
            match key {
            SwanlingDefault::Users => r matches Ok(a) && a == (SwanlingAttack {
                defaults: a.defaults,
                ..self
            }) && a.defaults == (SwanlingDefaults { users: a.defaults.users, ..self.defaults })
                && (a.defaults.users == Some(value)),
            SwanlingDefault::RunTime => r matches Ok(a) && a == (SwanlingAttack {
                defaults: a.defaults,
                ..self
            }) && a.defaults == (SwanlingDefaults { run_time: a.defaults.run_time, ..self.defaults })
                && (a.defaults.run_time == Some(value)),
            SwanlingDefault::RunningMetrics => r matches Ok(a) && a == (SwanlingAttack {
                defaults: a.defaults,
                ..self
            }) && a.defaults == (SwanlingDefaults { running_metrics: a.defaults.running_metrics, ..self.defaults })
                && (a.defaults.running_metrics == Some(value)),
            SwanlingDefault::LogLevel => r matches Ok(a) && a == (SwanlingAttack {
                defaults: a.defaults,
                ..self
            }) && a.defaults == (SwanlingDefaults { log_level: a.defaults.log_level, ..self.defaults })
                && (a.defaults.log_level == Some(value as u8)),
            SwanlingDefault::Verbose => r matches Ok(a) && a == (SwanlingAttack {
                defaults: a.defaults,
                ..self
            }) && a.defaults == (SwanlingDefaults { verbose: a.defaults.verbose, ..self.defaults })
                && (a.defaults.verbose == Some(value as u8)),
            SwanlingDefault::ThrottleRequests => r matches Ok(a) && a == (SwanlingAttack {
                defaults: a.defaults,
                ..self
            }) && a.defaults == (SwanlingDefaults { throttle_requests: a.defaults.throttle_requests, ..self.defaults })
                && (a.defaults.throttle_requests == Some(value)),
            SwanlingDefault::ExpectWorkers => r matches Ok(a) && a == (SwanlingAttack {
                defaults: a.defaults,
                ..self
            }) && a.defaults == (SwanlingDefaults { expect_workers: a.defaults.expect_workers, ..self.defaults })
                && (a.defaults.expect_workers == Some(value as u16)),
            SwanlingDefault::TelnetPort => r matches Ok(a) && a == (SwanlingAttack {
                defaults: a.defaults,
                ..self
            }) && a.defaults == (SwanlingDefaults { telnet_port: a.defaults.telnet_port, ..self.defaults })
                && (a.defaults.telnet_port == Some(value as u16)),
            SwanlingDefault::WebSocketPort => r matches Ok(a) && a == (SwanlingAttack {
                defaults: a.defaults,
                ..self
            }) && a.defaults == (SwanlingDefaults { websocket_port: a.defaults.websocket_port, ..self.defaults })
                && (a.defaults.websocket_port == Some(value as u16)),
            SwanlingDefault::ManagerBindPort => r matches Ok(a) && a == (SwanlingAttack {
                defaults: a.defaults,
                ..self
            }) && a.defaults == (SwanlingDefaults { manager_bind_port: a.defaults.manager_bind_port, ..self.defaults })
                && (a.defaults.manager_bind_port == Some(value as u16)),
            SwanlingDefault::ManagerPort => r matches Ok(a) && a == (SwanlingAttack {
                defaults: a.defaults,
                ..self
            }) && a.defaults == (SwanlingDefaults { manager_port: a.defaults.manager_port, ..self.defaults })
                && (a.defaults.manager_port == Some(value as u16)),
                _ => r matches Err(SwanlingError::InvalidOption { .. }),
            },
    {
        let mut s = self;
        match key {
            SwanlingDefault::Users => {
                s.defaults.users = Some(value);
                Ok(s)
            },
            SwanlingDefault::RunTime => {
                s.defaults.run_time = Some(value);
                Ok(s)
            },
            SwanlingDefault::RunningMetrics => {
                s.defaults.running_metrics = Some(value);
                Ok(s)
            },
            SwanlingDefault::LogLevel => {
                s.defaults.log_level = Some(#[verifier::truncate] (value as u8));
                Ok(s)
            },
            SwanlingDefault::Verbose => {
                s.defaults.verbose = Some(#[verifier::truncate] (value as u8));
                Ok(s)
            },
            SwanlingDefault::ThrottleRequests => {
                s.defaults.throttle_requests = Some(value);
                Ok(s)
            },
            SwanlingDefault::ExpectWorkers => {
                s.defaults.expect_workers = Some(#[verifier::truncate] (value as u16));
                Ok(s)
            },
            SwanlingDefault::TelnetPort => {
                s.defaults.telnet_port = Some(#[verifier::truncate] (value as u16));
                Ok(s)
            },
            SwanlingDefault::WebSocketPort => {
                s.defaults.websocket_port = Some(#[verifier::truncate] (value as u16));
                Ok(s)
            },
            SwanlingDefault::ManagerBindPort => {
                s.defaults.manager_bind_port = Some(#[verifier::truncate] (value as u16));
                Ok(s)
            },
            SwanlingDefault::ManagerPort => {
                s.defaults.manager_port = Some(#[verifier::truncate] (value as u16));
                Ok(s)
            },
            _ => Err(
                SwanlingError::InvalidOption {
                    option: "SwanlingDefault".to_owned(),
                    value: "".to_owned(),
                    detail: "This default key expects a value of another type.".to_owned(),
                },
            ),
        }
    }

    /// Registers a flag's programmatic default; a key of another value type is rejected.
    #[verifier::rlimit(100)]
    #[verifier::spinoff_prover]
    pub fn set_default_bool(self, key: SwanlingDefault, value: bool) -> (r: Result<
        SwanlingAttack,
        SwanlingError,
    >)
        ensures
            match key {
            SwanlingDefault::NoResetMetrics => r matches Ok(a) && a == (SwanlingAttack {
                defaults: a.defaults,
                ..self
            }) && a.defaults == (SwanlingDefaults { no_reset_metrics: a.defaults.no_reset_metrics, ..self.defaults })
                && (a.defaults.no_reset_metrics == Some(value)),
            SwanlingDefault::NoMetrics => r matches Ok(a) && a == (SwanlingAttack {
                defaults: a.defaults,
                ..self
            }) && a.defaults == (SwanlingDefaults { no_metrics: a.defaults.no_metrics, ..self.defaults })
                && (a.defaults.no_metrics == Some(value)),
            SwanlingDefault::NoTaskMetrics => r matches Ok(a) && a == (SwanlingAttack {
                defaults: a.defaults,
                ..self
            }) && a.defaults == (SwanlingDefaults { no_task_metrics: a.defaults.no_task_metrics, ..self.defaults })
                && (a.defaults.no_task_metrics == Some(value)),
            SwanlingDefault::NoErrorSummary => r matches Ok(a) && a == (SwanlingAttack {
                defaults: a.defaults,
                ..self
            }) && a.defaults == (SwanlingDefaults { no_error_summary: a.defaults.no_error_summary, ..self.defaults })
                && (a.defaults.no_error_summary == Some(value)),
            SwanlingDefault::NoDebugBody => r matches Ok(a) && a == (SwanlingAttack {
                defaults: a.defaults,
                ..self
            }) && a.defaults == (SwanlingDefaults { no_debug_body: a.defaults.no_debug_body, ..self.defaults })
                && (a.defaults.no_debug_body == Some(value)),
            SwanlingDefault::NoTelnet => r matches Ok(a) && a == (SwanlingAttack {
                defaults: a.defaults,
                ..self
            }) && a.defaults == (SwanlingDefaults { no_telnet: a.defaults.no_telnet, ..self.defaults })
                && (a.defaults.no_telnet == Some(value)),
            SwanlingDefault::NoWebSocket => r matches Ok(a) && a == (SwanlingAttack {
                defaults: a.defaults,
                ..self
            }) && a.defaults == (SwanlingDefaults { no_websocket: a.defaults.no_websocket, ..self.defaults })
                && (a.defaults.no_websocket == Some(value)),
            SwanlingDefault::NoAutoStart => r matches Ok(a) && a == (SwanlingAttack {
                defaults: a.defaults,
                ..self
            }) && a.defaults == (SwanlingDefaults { no_autostart: a.defaults.no_autostart, ..self.defaults })
                && (a.defaults.no_autostart == Some(value)),
            SwanlingDefault::StatusCodes => r matches Ok(a) && a == (SwanlingAttack {
                defaults: a.defaults,
                ..self
            }) && a.defaults == (SwanlingDefaults { status_codes: a.defaults.status_codes, ..self.defaults })
                && (a.defaults.status_codes == Some(value)),
            SwanlingDefault::StickyFollow => r matches Ok(a) && a == (SwanlingAttack {
                defaults: a.defaults,
                ..self
            }) && a.defaults == (SwanlingDefaults { sticky_follow: a.defaults.sticky_follow, ..self.defaults })
                && (a.defaults.sticky_follow == Some(value)),
            SwanlingDefault::Manager => r matches Ok(a) && a == (SwanlingAttack {
                defaults: a.defaults,
                ..self
            }) && a.defaults == (SwanlingDefaults { manager: a.defaults.manager, ..self.defaults })
                && (a.defaults.manager == Some(value)),
            SwanlingDefault::NoHashCheck => r matches Ok(a) && a == (SwanlingAttack {
                defaults: a.defaults,
                ..self
            }) && a.defaults == (SwanlingDefaults { no_hash_check: a.defaults.no_hash_check, ..self.defaults })
                && (a.defaults.no_hash_check == Some(value)),
            SwanlingDefault::Worker => r matches Ok(a) && a == (SwanlingAttack {
                defaults: a.defaults,
                ..self
            }) && a.defaults == (SwanlingDefaults { worker: a.defaults.worker, ..self.defaults })
                && (a.defaults.worker == Some(value)),
                _ => r matches Err(SwanlingError::InvalidOption { .. }),
            },
    {
        let mut s = self;
        match key {
            SwanlingDefault::NoResetMetrics => {
                s.defaults.no_reset_metrics = Some(value);
                Ok(s)
            },
            SwanlingDefault::NoMetrics => {
                s.defaults.no_metrics = Some(value);
                Ok(s)
            },
            SwanlingDefault::NoTaskMetrics => {
                s.defaults.no_task_metrics = Some(value);
                Ok(s)
            },
            SwanlingDefault::NoErrorSummary => {
                s.defaults.no_error_summary = Some(value);
                Ok(s)
            },
            SwanlingDefault::NoDebugBody => {
                s.defaults.no_debug_body = Some(value);
                Ok(s)
            },
            SwanlingDefault::NoTelnet => {
                s.defaults.no_telnet = Some(value);
                Ok(s)
            },
            SwanlingDefault::NoWebSocket => {
                s.defaults.no_websocket = Some(value);
                Ok(s)
            },
            SwanlingDefault::NoAutoStart => {
                s.defaults.no_autostart = Some(value);
                Ok(s)
            },
            SwanlingDefault::StatusCodes => {
                s.defaults.status_codes = Some(value);
                Ok(s)
            },
            SwanlingDefault::StickyFollow => {
                s.defaults.sticky_follow = Some(value);
                Ok(s)
            },
            SwanlingDefault::Manager => {
                s.defaults.manager = Some(value);
                Ok(s)
            },
            SwanlingDefault::NoHashCheck => {
                s.defaults.no_hash_check = Some(value);
                Ok(s)
            },
            SwanlingDefault::Worker => {
                s.defaults.worker = Some(value);
                Ok(s)
            },
            _ => Err(
                SwanlingError::InvalidOption {
                    option: "SwanlingDefault".to_owned(),
                    value: "".to_owned(),
                    detail: "This default key expects a value of another type.".to_owned(),
                },
            ),
        }
    }

    /// Registers the mitigation strategy's programmatic default; a key of another value type is rejected.
    #[verifier::rlimit(100)]
    #[verifier::spinoff_prover]
    pub fn set_default_co_mitigation(self, key: SwanlingDefault, value: crate::metrics::SwanlingCoordinatedOmissionMitigation) -> (r: Result<
        SwanlingAttack,
        SwanlingError,
    >)
        ensures
            match key {
            SwanlingDefault::CoordinatedOmissionMitigation => r matches Ok(a) && a == (SwanlingAttack {
                defaults: a.defaults,
                ..self
            }) && a.defaults == (SwanlingDefaults { co_mitigation: a.defaults.co_mitigation, ..self.defaults })
                && (a.defaults.co_mitigation == Some(value)),
                _ => r matches Err(SwanlingError::InvalidOption { .. }),
            },
    {
        let mut s = self;
        match key {
            SwanlingDefault::CoordinatedOmissionMitigation => {
                s.defaults.co_mitigation = Some(value);
                Ok(s)
            },
            _ => Err(
                SwanlingError::InvalidOption {
                    option: "SwanlingDefault".to_owned(),
                    value: "".to_owned(),
                    detail: "This default key expects a value of another type.".to_owned(),
                },
            ),
        }
    }

    /// Registers a log format's programmatic default; a key of another value type is rejected.
    #[verifier::rlimit(100)]
    #[verifier::spinoff_prover]
    pub fn set_default_log_format(self, key: SwanlingDefault, value: crate::logger::SwanlingLogFormat) -> (r: Result<
        SwanlingAttack,
        SwanlingError,
    >)
        ensures
            match key {
            SwanlingDefault::RequestFormat => r matches Ok(a) && a == (SwanlingAttack {
                defaults: a.defaults,
                ..self
            }) && a.defaults == (SwanlingDefaults { request_format: a.defaults.request_format, ..self.defaults })
                && (a.defaults.request_format == Some(value)),
            SwanlingDefault::TaskFormat => r matches Ok(a) && a == (SwanlingAttack {
                defaults: a.defaults,
                ..self
            }) && a.defaults == (SwanlingDefaults { task_format: a.defaults.task_format, ..self.defaults })
                && (a.defaults.task_format == Some(value)),
            SwanlingDefault::ErrorFormat => r matches Ok(a) && a == (SwanlingAttack {
                defaults: a.defaults,
                ..self
            }) && a.defaults == (SwanlingDefaults { error_format: a.defaults.error_format, ..self.defaults })
                && (a.defaults.error_format == Some(value)),
            SwanlingDefault::DebugFormat => r matches Ok(a) && a == (SwanlingAttack {
                defaults: a.defaults,
                ..self
            }) && a.defaults == (SwanlingDefaults { debug_format: a.defaults.debug_format, ..self.defaults })
                && (a.defaults.debug_format == Some(value)),
                _ => r matches Err(SwanlingError::InvalidOption { .. }),
            },
    {
        let mut s = self;
        match key {
            SwanlingDefault::RequestFormat => {
                s.defaults.request_format = Some(value);
                Ok(s)
            },
            SwanlingDefault::TaskFormat => {
                s.defaults.task_format = Some(value);
                Ok(s)
            },
            SwanlingDefault::ErrorFormat => {
                s.defaults.error_format = Some(value);
                Ok(s)
            },
            SwanlingDefault::DebugFormat => {
                s.defaults.debug_format = Some(value);
                Ok(s)
            },
            _ => Err(
                SwanlingError::InvalidOption {
                    option: "SwanlingDefault".to_owned(),
                    value: "".to_owned(),
                    detail: "This default key expects a value of another type.".to_owned(),
                },
            ),
        }
    }

}



/// Whether the engine runs standalone: neither distributed flag is set.
pub open spec fn standalone(c: SwanlingConfiguration) -> bool {
    !c.manager && !c.worker
}

/// Whether a coordinated-omission mitigation strategy is in effect.
pub open spec fn co_enabled(c: SwanlingConfiguration) -> bool {
    c.co_mitigation matches Some(m)
        && !(m matches crate::metrics::SwanlingCoordinatedOmissionMitigation::Disabled)
}

/// The log-format constraints: a format option requires the matching log
/// file option, and the metric logs require metrics at all.
pub open spec fn formats_consistent(c: SwanlingConfiguration) -> bool {
    &&& c.request_format is Some ==> (!c.no_metrics && c.request_log@.len() > 0)
    &&& c.task_format is Some ==> (!c.no_metrics && c.task_log@.len() > 0)
    &&& c.error_format is Some ==> (!c.no_metrics && c.error_log@.len() > 0)
    &&& c.debug_format is Some ==> c.debug_log@.len() > 0
}

/// The cross-field constraints a standalone setup must meet: a reachable
/// controller when autostart is off, at least one user, a bounded throttle,
/// mitigation only with metrics and a deterministic scheduler, and log
/// formats only with their log files.
pub open spec fn flags_acceptable(a: SwanlingAttack) -> bool {
    &&& !(a.configuration.no_autostart && a.configuration.no_telnet
        && a.configuration.no_websocket)
    &&& !(a.configuration.users matches Some(u) && u == 0)
    &&& a.configuration.throttle_requests <= 1_000_000
    &&& !(co_enabled(a.configuration) && a.configuration.no_metrics)
    &&& !(co_enabled(a.configuration) && a.scheduler == SwanlingScheduler::Random)
    &&& formats_consistent(a.configuration)
}

/// The host one task set's users run against: the `--host` option wins over
/// the set's own host, which wins over the programmatic default.
pub open spec fn spec_chosen_host(
    c: SwanlingConfiguration,
    set: SwanlingTaskSet,
    d: SwanlingDefaults,
) -> Option<Seq<char>> {
    if c.host@.len() > 0 {
        Some(c.host@)
    } else {
        match set.host {
            Some(h) => Some(h@),
            None => match d.host {
                Some(h2) => Some(h2@),
                None => None,
            },
        }
    }
}

/// Whether some task set resolves no host at all.
pub open spec fn some_host_missing(a: SwanlingAttack) -> bool {
    exists|i: int|
        0 <= i < a.task_sets@.len() && spec_chosen_host(
            a.configuration,
            #[trigger] a.task_sets@[i],
            a.defaults,
        ) is None
}

/// Whether every task set resolves a host that parses as a URL.
pub open spec fn hosts_resolvable(a: SwanlingAttack) -> bool {
    forall|i: int|
        0 <= i < a.task_sets@.len() ==> (match spec_chosen_host(
            a.configuration,
            #[trigger] a.task_sets@[i],
            a.defaults,
        ) {
            Some(h) => util::url_accepts(h),
            None => false,
        })
}

/// Whether every host that is resolved at all parses as a URL.
pub open spec fn present_hosts_valid(a: SwanlingAttack) -> bool {
    forall|i: int|
        0 <= i < a.task_sets@.len() ==> (match spec_chosen_host(
            a.configuration,
            #[trigger] a.task_sets@[i],
            a.defaults,
        ) {
            Some(h) => util::url_accepts(h),
            None => true,
        })
}

/// The deterministic order task sets are assigned to users in.
pub open spec fn set_allocation(sets: Seq<SwanlingTaskSet>, sch: SwanlingScheduler) -> Seq<usize> {
    scheduler::layout_of(
        scheduler::index_buckets(
            set_weights(sets),
            scheduler::weights_gcd(set_weights(sets)) as usize,
        ),
        sch,
    )
}

/// What one prepared user carries: its launch slot, its task set's waits and
/// schedules, and that set's resolved base URL.
pub open spec fn user_carried(a: SwanlingAttack, c0: SwanlingConfiguration, k: int) -> bool {
    let wu = a.weighted_users@[k];
    let set = a.task_sets@[wu.task_sets_index as int];
    &&& wu.weighted_users_index == k
    &&& wu.task_sets_index < a.task_sets@.len()
    &&& wu.min_wait == set.min_wait
    &&& wu.max_wait == set.max_wait
    &&& wu.weighted_on_start_tasks@ == set.weighted_on_start_tasks@
    &&& wu.weighted_tasks@ == set.weighted_tasks@
    &&& wu.weighted_on_stop_tasks@ == set.weighted_on_stop_tasks@
    &&& wu.config == a.configuration
    &&& (match spec_chosen_host(c0, set, a.defaults) {
        Some(h) => wu.base_url@ == h,
        None => false,
    })
}

/// What a successfully prepared attack holds: the standalone mode, at least
/// one user, per-set schedules correct under the scheduler's contract with
/// the deterministic layouts pinned, and every user carrying its set's data,
/// sets assigned cyclically through the weighted allocation.
pub open spec fn prepared_ok(a: SwanlingAttack, before: SwanlingAttack) -> bool {
    &&& attack_wf(a)
    &&& a.attack_mode == AttackMode::StandAlone
    &&& a.scheduler == before.scheduler
    &&& a.defaults == before.defaults
    &&& a.configuration.users matches Some(u) && u >= 1 && a.weighted_users@.len() == u
    &&& a.task_sets@.len() == before.task_sets@.len()
    &&& set_weights(a.task_sets@) == set_weights(before.task_sets@)
    &&& forall|i: int|
        0 <= i < a.task_sets@.len() ==> scheduler::allocated_list_correct(
            (#[trigger] a.task_sets@[i]).tasks@,
            a.task_sets@[i].weighted_tasks@,
            scheduler::TaskCategory::Main,
            scheduler::tasks_gcd(a.task_sets@[i].tasks@),
        ) && scheduler::allocated_list_correct(
            a.task_sets@[i].tasks@,
            a.task_sets@[i].weighted_on_start_tasks@,
            scheduler::TaskCategory::Start,
            scheduler::tasks_gcd(a.task_sets@[i].tasks@),
        ) && scheduler::allocated_list_correct(
            a.task_sets@[i].tasks@,
            a.task_sets@[i].weighted_on_stop_tasks@,
            scheduler::TaskCategory::Stop,
            scheduler::tasks_gcd(a.task_sets@[i].tasks@),
        )
    &&& !(a.scheduler is Random) ==> forall|i: int|
        0 <= i < a.task_sets@.len() ==> scheduler::firsts(
            (#[trigger] a.task_sets@[i]).weighted_tasks@,
        ) == scheduler::category_layout(
            a.task_sets@[i].tasks@,
            scheduler::TaskCategory::Main,
            scheduler::tasks_gcd(a.task_sets@[i].tasks@) as usize,
            a.scheduler,
        )
    &&& forall|k: int| 0 <= k < a.weighted_users@.len() ==> user_carried(a, before.configuration, k)
    &&& !(a.scheduler is Random) ==> {
        let plan = set_allocation(a.task_sets@, a.scheduler);
        plan.len() >= 1 && forall|k: int|
            0 <= k < a.weighted_users@.len() ==> (#[trigger] a.weighted_users@[k]).task_sets_index
                == plan[k % plan.len() as int]
    }
}

impl SwanlingAttack {
    /// Validates the setup and prepares the load test, or rejects it with a
    /// typed error before the state machine starts. The rejections, in
    /// order: no task set registered; manager and worker both set; either
    /// distributed mode, which this build does not run; a cross-field flag
    /// violation (unreachable controllers under `no_autostart`, zero users,
    /// an over-limit throttle, mitigation without metrics or with the random
    /// scheduler, a log format without its log file); a task set with no
    /// host anywhere, unless `no_autostart` defers the start to a
    /// controller; and a resolved host that does not parse as a URL. On
    /// every acceptable standalone setup with resolvable hosts the load test
    /// is owed: the weighted users and per-set schedules stand ready.
    pub fn execute(self) -> (r: Result<SwanlingAttack, SwanlingError>)
        requires
            attack_wf(self),
            forall|i: int|
                0 <= i < self.task_sets@.len() ==> scheduler::sum_weights(
                    (#[trigger] self.task_sets@[i]).tasks@,
                ) <= usize::MAX,
            scheduler::sum_usizes(set_weights(self.task_sets@)) <= usize::MAX,
        ensures
            r matches Err(SwanlingError::NoTaskSets { .. }) <==> self.task_sets@.len() == 0,
            self.task_sets@.len() > 0 && self.configuration.manager && self.configuration.worker
                ==> r matches Err(SwanlingError::InvalidOption { .. }),
            self.task_sets@.len() > 0 && !(self.configuration.manager
                && self.configuration.worker) && (self.configuration.manager
                || self.configuration.worker) ==> r matches Err(
                SwanlingError::FeatureNotEnabled { .. },
            ),
            self.task_sets@.len() > 0 && standalone(self.configuration) && !flags_acceptable(self)
                ==> r matches Err(SwanlingError::InvalidOption { .. }),
            self.task_sets@.len() > 0 && standalone(self.configuration) && flags_acceptable(self)
                && !hosts_resolvable(self) && !self.configuration.no_autostart ==> (r matches Err(
                e,
            ) && (e is InvalidOption || e is InvalidHost)),
            self.task_sets@.len() > 0 && standalone(self.configuration) && flags_acceptable(self)
                && some_host_missing(self) && present_hosts_valid(self)
                && self.configuration.no_autostart ==> (r matches Ok(a) && a.weighted_users@.len()
                == 0 && a.attack_mode == AttackMode::StandAlone),
            self.task_sets@.len() > 0 && standalone(self.configuration) && flags_acceptable(self)
                && !present_hosts_valid(self) && self.configuration.no_autostart ==> (r matches Err(
                SwanlingError::InvalidHost { .. },
            ) || (r matches Ok(a) && a.weighted_users@.len() == 0)),
            self.task_sets@.len() > 0 && standalone(self.configuration) && flags_acceptable(self)
                && hosts_resolvable(self) ==> (r matches Ok(a) && prepared_ok(a, self)),
    {
        let mut s = self;
        // At least one task set is required.
        if s.task_sets.len() == 0 {
            return Err(
                SwanlingError::NoTaskSets { detail: "No task sets are defined.".to_owned() },
            );
        }
        // Manager and worker mode exclude each other; this build runs the
        // standalone engine.
        if s.configuration.manager && s.configuration.worker {
            return Err(
                SwanlingError::InvalidOption {
                    option: "--worker".to_owned(),
                    value: "true".to_owned(),
                    detail: "The --worker flag can not be set together with the --manager flag.".to_owned(),
                },
            );
        }
        if s.configuration.manager || s.configuration.worker {
            return Err(
                SwanlingError::FeatureNotEnabled {
                    feature: "distributed".to_owned(),
                    detail: "This build runs the standalone engine only.".to_owned(),
                },
            );
        }
        s.attack_mode = AttackMode::StandAlone;
        // With autostart disabled, a controller must remain reachable.
        if s.configuration.no_autostart && s.configuration.no_telnet
            && s.configuration.no_websocket {
            return Err(
                SwanlingError::InvalidOption {
                    option: "--no-autostart".to_owned(),
                    value: "true".to_owned(),
                    detail: "The --no-autostart option can not be set together with both the --no-telnet and --no-websocket flags.".to_owned(),
                },
            );
        }
        // The user count defaults to the number of CPUs and must be at least
        // one.
        match s.configuration.users {
            Some(u) => {
                if u == 0 {
                    return Err(
                        SwanlingError::InvalidOption {
                            option: "--users".to_owned(),
                            value: "0".to_owned(),
                            detail: "The --users option must be set to at least 1.".to_owned(),
                        },
                    );
                }
            },
            None => {
                s.configuration.users = Some(util::cpu_count());
            },
        }
        // A nonzero throttle stays within one million requests per second.
        if s.configuration.throttle_requests > 1_000_000 {
            return Err(
                SwanlingError::InvalidOption {
                    option: "--throttle-requests".to_owned(),
                    value: "".to_owned(),
                    detail: "The --throttle-requests option can not be set to more than 1,000,000 requests per second.".to_owned(),
                },
            );
        }
        // Coordinated-omission mitigation needs metrics and a deterministic
        // cadence.
        if s.configuration.co_mitigation.is_some() {
            let enabled = match s.configuration.co_mitigation {
                Some(m) => !(m
                    matches crate::metrics::SwanlingCoordinatedOmissionMitigation::Disabled),
                None => false,
            };
            if enabled && s.configuration.no_metrics {
                return Err(
                    SwanlingError::InvalidOption {
                        option: "--co-mitigation".to_owned(),
                        value: "".to_owned(),
                        detail: "The --co-mitigation option can not be set together with the --no-metrics flag.".to_owned(),
                    },
                );
            }
            if enabled && s.scheduler == SwanlingScheduler::Random {
                return Err(
                    SwanlingError::InvalidOption {
                        option: "--co-mitigation".to_owned(),
                        value: "".to_owned(),
                        detail: "The --co-mitigation option can not be set together with SwanlingScheduler::Random.".to_owned(),
                    },
                );
            }
        }
        // A log format option requires the matching log file, and the metric
        // logs require metrics.
        if s.configuration.request_format.is_some() && (s.configuration.no_metrics
            || s.configuration.request_log.as_str().unicode_len() == 0) {
            return Err(
                SwanlingError::InvalidOption {
                    option: "--request-format".to_owned(),
                    value: "".to_owned(),
                    detail: "The --request-format option must be set together with the --request-log option and with metrics enabled.".to_owned(),
                },
            );
        }
        if s.configuration.task_format.is_some() && (s.configuration.no_metrics
            || s.configuration.task_log.as_str().unicode_len() == 0) {
            return Err(
                SwanlingError::InvalidOption {
                    option: "--task-format".to_owned(),
                    value: "".to_owned(),
                    detail: "The --task-format option must be set together with the --task-log option and with metrics enabled.".to_owned(),
                },
            );
        }
        if s.configuration.error_format.is_some() && (s.configuration.no_metrics
            || s.configuration.error_log.as_str().unicode_len() == 0) {
            return Err(
                SwanlingError::InvalidOption {
                    option: "--error-format".to_owned(),
                    value: "".to_owned(),
                    detail: "The --error-format option must be set together with the --error-log option and with metrics enabled.".to_owned(),
                },
            );
        }
        if s.configuration.debug_format.is_some() && s.configuration.debug_log.as_str().unicode_len()
            == 0 {
            return Err(
                SwanlingError::InvalidOption {
                    option: "--debug-format".to_owned(),
                    value: "".to_owned(),
                    detail: "The --debug-format option must be set together with the --debug-log option.".to_owned(),
                },
            );
        }
        // Every task set needs a host from somewhere, and every resolved
        // host must parse; with autostart off a missing host is deferred to
        // the controller instead.
        let ghost before_validate = s;
        match s.validate_host() {
            Ok(()) => {},
            Err(e) => {
                let deferrable = match &e {
                    SwanlingError::InvalidOption { .. } => true,
                    _ => false,
                };
                if deferrable && s.configuration.no_autostart {
                    s.weighted_users = Vec::new();
                    proof {
                        lemma_host_specs_agree(self, before_validate);
                    }
                    return Ok(s);
                }
                proof {
                    lemma_host_specs_agree(self, before_validate);
                }
                return Err(e);
            },
        }
        proof {
            lemma_host_specs_agree(self, s);
        }
        let ghost ssnap = s;
        let result = s.prepare_load_test();
        proof {
            lemma_host_specs_agree(self, ssnap);
            match &result {
                Ok(a) => {
                    lemma_prepared_carries(*a, ssnap, self);
                },
                Err(_) => {},
            }
        }
        result
    }

    /// Confirms that every task set resolves a host — the `--host` option,
    /// the set's own host, or the programmatic default — and that every
    /// resolved host parses as a URL.
    fn validate_host(&self) -> (r: Result<(), SwanlingError>)
        ensures
            r is Ok <==> hosts_resolvable(*self),
            r matches Err(e) ==> (e is InvalidOption || e is InvalidHost),
            (r matches Err(e) && e is InvalidOption) ==> some_host_missing(*self),
            (r matches Err(e) && e is InvalidHost) ==> !present_hosts_valid(*self),
            (some_host_missing(*self) && present_hosts_valid(*self)) ==> r matches Err(
                SwanlingError::InvalidOption { .. },
            ),
    {
        let host_is_set = self_host_set(&self.configuration);
        let mut i: usize = 0;
        while i < self.task_sets.len()
            invariant
                i <= self.task_sets@.len(),
                host_is_set == (self.configuration.host@.len() > 0),
                forall|j: int|
                    0 <= j < i ==> (match spec_chosen_host(
                        self.configuration,
                        #[trigger] self.task_sets@[j],
                        self.defaults,
                    ) {
                        Some(h) => util::url_accepts(h),
                        None => false,
                    }),
            decreases self.task_sets@.len() - i,
        {
            let chosen: Option<&String> = if host_is_set {
                Some(&self.configuration.host)
            } else {
                match &self.task_sets[i].host {
                    Some(h) => Some(h),
                    None => match &self.defaults.host {
                        Some(h) => Some(h),
                        None => None,
                    },
                }
            };
            match chosen {
                None => {
                    return Err(
                        SwanlingError::InvalidOption {
                            option: "--host".to_owned(),
                            value: "".to_owned(),
                            detail: "A host must be defined via the --host option, the SwanlingAttack.set_default() function, or the SwanlingTaskSet.set_host() function.".to_owned(),
                        },
                    );
                },
                Some(h) => {
                    if !util::url_parses(h.as_str()) {
                        return Err(
                            SwanlingError::InvalidHost {
                                host: h.clone(),
                                detail: "host must be a valid URL".to_owned(),
                            },
                        );
                    }
                },
            }
            i = i + 1;
        }
        Ok(())
    }

    /// Applies the scheduler to every task set and allocates one user state
    /// per configured user, cycling through the weighted task sets; every
    /// user carries its set's waits, schedules and resolved base URL.
    fn prepare_load_test(self) -> (r: Result<SwanlingAttack, SwanlingError>)
        requires
            attack_wf(self),
            self.attack_mode == AttackMode::StandAlone,
            self.task_sets@.len() >= 1,
            self.configuration.users matches Some(u) && u >= 1,
            hosts_resolvable(self),
            forall|i: int|
                0 <= i < self.task_sets@.len() ==> scheduler::sum_weights(
                    (#[trigger] self.task_sets@[i]).tasks@,
                ) <= usize::MAX,
            scheduler::sum_usizes(set_weights(self.task_sets@)) <= usize::MAX,
        ensures
            r is Ok,
            r matches Ok(a) ==> prepared_ok(a, self) && a.configuration == self.configuration,
    {
        let ghost self0 = self;
        let mut s = self;
        let sched = s.scheduler;
        let ghost ts0 = s.task_sets@;
        // Apply the scheduler to each task set's tasks.
        let mut i: usize = 0;
        while i < s.task_sets.len()
            invariant
                s.attack_mode == self0.attack_mode,
                s.configuration == self0.configuration,
                s.defaults == self0.defaults,
                s.scheduler == self0.scheduler,
                s.metrics == self0.metrics,
                sched == self0.scheduler,
                s.task_sets@.len() == ts0.len(),
                i <= ts0.len(),
                forall|j: int|
                    0 <= j < ts0.len() ==> (#[trigger] s.task_sets@[j]).tasks@ == ts0[j].tasks@
                        && s.task_sets@[j].task_sets_index == ts0[j].task_sets_index
                        && s.task_sets@[j].weight == ts0[j].weight && s.task_sets@[j].min_wait
                        == ts0[j].min_wait && s.task_sets@[j].max_wait == ts0[j].max_wait
                        && s.task_sets@[j].host == ts0[j].host,
                forall|j: int| 0 <= j < ts0.len() ==> (#[trigger] ts0[j]).task_sets_index == j,
                forall|j: int|
                    0 <= j < ts0.len() ==> scheduler::tasks_well_indexed((#[trigger] ts0[j]).tasks@)
                        && scheduler::tasks_weights_positive(ts0[j].tasks@)
                        && scheduler::sum_weights(ts0[j].tasks@) <= usize::MAX && ts0[j].weight
                        >= 1,
                forall|j: int|
                    0 <= j < i ==> scheduler::allocated_list_correct(
                        (#[trigger] s.task_sets@[j]).tasks@,
                        s.task_sets@[j].weighted_tasks@,
                        scheduler::TaskCategory::Main,
                        scheduler::tasks_gcd(s.task_sets@[j].tasks@),
                    ) && scheduler::allocated_list_correct(
                        s.task_sets@[j].tasks@,
                        s.task_sets@[j].weighted_on_start_tasks@,
                        scheduler::TaskCategory::Start,
                        scheduler::tasks_gcd(s.task_sets@[j].tasks@),
                    ) && scheduler::allocated_list_correct(
                        s.task_sets@[j].tasks@,
                        s.task_sets@[j].weighted_on_stop_tasks@,
                        scheduler::TaskCategory::Stop,
                        scheduler::tasks_gcd(s.task_sets@[j].tasks@),
                    ),
                !(sched is Random) ==> forall|j: int|
                    0 <= j < i ==> scheduler::firsts((#[trigger] s.task_sets@[j]).weighted_tasks@)
                        == scheduler::category_layout(
                        s.task_sets@[j].tasks@,
                        scheduler::TaskCategory::Main,
                        scheduler::tasks_gcd(s.task_sets@[j].tasks@) as usize,
                        sched,
                    ),
            decreases ts0.len() - i,
        {
            let ghost before = s.task_sets@;
            let mut one_set = s.task_sets.remove(i);
            let (on_start, main, on_stop) = scheduler::allocate_tasks(&one_set, &sched);
            one_set.weighted_on_start_tasks = on_start;
            one_set.weighted_tasks = main;
            one_set.weighted_on_stop_tasks = on_stop;
            s.task_sets.insert(i, one_set);
            proof {
                assert(s.task_sets@ =~= before.update(i as int, s.task_sets@[i as int]));
            }
            i = i + 1;
        }
        // Allocate the weighted order task sets are assigned to users in.
        let mut weights: Vec<usize> = Vec::new();
        let mut i: usize = 0;
        while i < s.task_sets.len()
            invariant
                i <= s.task_sets@.len(),
                weights@.len() == i,
                forall|j: int| 0 <= j < i ==> #[trigger] weights@[j] == s.task_sets@[j].weight,
                forall|j: int|
                    0 <= j < s.task_sets@.len() ==> (#[trigger] s.task_sets@[j]).weight
                        == ts0[j].weight,
                s.task_sets@.len() == ts0.len(),
            decreases s.task_sets@.len() - i,
        {
            weights.push(s.task_sets[i].weight);
            i = i + 1;
        }
        proof {
            assert(weights@ =~= set_weights(ts0));
            assert(weights@ =~= set_weights(s.task_sets@));
            assert(forall|j: int| 0 <= j < weights@.len() ==> #[trigger] weights@[j] >= 1);
        }
        let weighted_task_sets = scheduler::allocate_set_indexes(&weights, &sched);
        let users = match s.configuration.users {
            Some(u) => u,
            None => {
                proof {
                    assert(false);
                }
                return Err(
                    SwanlingError::InvalidHost {
                        host: "".to_owned(),
                        detail: "".to_owned(),
                    },
                );
            },
        };
        let plan = crate::lifecycle::build_user_plan(&weighted_task_sets, users);
        let ghost wts = weighted_task_sets@;
        // Build one user state per planned launch.
        let mut weighted_users: Vec<SwanlingUser> = Vec::new();
        let mut k: usize = 0;
        while k < plan.len()
            invariant
                k <= plan@.len(),
                weighted_users@.len() == k,
                s.attack_mode == self0.attack_mode,
                s.configuration == self0.configuration,
                s.defaults == self0.defaults,
                s.task_sets@.len() == ts0.len(),
                ts0.len() >= 1,
                self0.configuration.users matches Some(u) && u >= 1 && plan@.len() == u,
                hosts_resolvable(self0),
                self0.task_sets@ == ts0,
                wts == weighted_task_sets@,
                wts.len() >= 1,
                forall|j: int| 0 <= j < plan@.len() ==> #[trigger] plan@[j] == wts[j % (
                wts.len() as int)],
                forall|j: int| 0 <= j < wts.len() ==> #[trigger] wts[j] < s.task_sets@.len(),
                !(sched is Random) ==> wts == set_allocation(s.task_sets@, sched),
                sched == self0.scheduler,
                forall|j: int|
                    0 <= j < ts0.len() ==> (#[trigger] s.task_sets@[j]).min_wait == ts0[j].min_wait
                        && s.task_sets@[j].max_wait == ts0[j].max_wait && s.task_sets@[j].host
                        == ts0[j].host,
                forall|j: int|
                    0 <= j < k ==> {
                        let wu = #[trigger] weighted_users@[j];
                        let set = s.task_sets@[wu.task_sets_index as int];
                        &&& wu.weighted_users_index == j
                        &&& wu.task_sets_index == plan@[j]
                        &&& wu.task_sets_index < s.task_sets@.len()
                        &&& wu.min_wait == set.min_wait
                        &&& wu.max_wait == set.max_wait
                        &&& wu.weighted_on_start_tasks@ == set.weighted_on_start_tasks@
                        &&& wu.weighted_tasks@ == set.weighted_tasks@
                        &&& wu.weighted_on_stop_tasks@ == set.weighted_on_stop_tasks@
                        &&& wu.config == self0.configuration
                        &&& (match spec_chosen_host(self0.configuration, set, self0.defaults) {
                            Some(h) => wu.base_url@ == h,
                            None => false,
                        })
                    },
            decreases plan@.len() - k,
        {
            let tsi = plan[k];
            let config_host: Option<String> = if self_host_set(&s.configuration) {
                Some(s.configuration.host.clone())
            } else {
                None
            };
            let base_url = match crate::swanling::get_base_url(
                config_host,
                crate::config::clone_opt_string(&s.task_sets[tsi].host),
                crate::config::clone_opt_string(&s.defaults.host),
            ) {
                Ok(h) => h,
                Err(e) => {
                    proof {
                        assert(s.task_sets@[tsi as int].host == ts0[tsi as int].host);
                        assert(match spec_chosen_host(
                            self0.configuration,
                            self0.task_sets@[tsi as int],
                            self0.defaults,
                        ) {
                            Some(h) => util::url_accepts(h),
                            None => false,
                        });
                        assert(false);
                    }
                    return Err(e);
                },
            };
            let mut user = match SwanlingUser::new(
                tsi,
                base_url,
                s.task_sets[tsi].min_wait,
                s.task_sets[tsi].max_wait,
                &s.configuration,
                s.metrics.hash,
            ) {
                Ok(u) => u,
                Err(e) => {
                    proof {
                        assert(false);
                    }
                    return Err(
                        SwanlingError::InvalidHost {
                            host: "".to_owned(),
                            detail: "".to_owned(),
                        },
                    );
                },
            };
            user.weighted_users_index = k;
            user.weighted_on_start_tasks = crate::swanling::clone_weighted(
                &s.task_sets[tsi].weighted_on_start_tasks,
            );
            user.weighted_tasks = crate::swanling::clone_weighted(&s.task_sets[tsi].weighted_tasks);
            user.weighted_on_stop_tasks = crate::swanling::clone_weighted(
                &s.task_sets[tsi].weighted_on_stop_tasks,
            );
            weighted_users.push(user);
            k = k + 1;
        }
        s.weighted_users = weighted_users;
        Ok(s)
    }
}

/// Two attacks whose hosts, defaults and task sets agree resolve the same
/// hosts, whatever their other fields.
proof fn lemma_host_specs_agree(a: SwanlingAttack, b: SwanlingAttack)
    requires
        a.configuration.host@ == b.configuration.host@,
        a.defaults.host == b.defaults.host,
        a.task_sets@.len() == b.task_sets@.len(),
        forall|i: int|
            0 <= i < a.task_sets@.len() ==> (#[trigger] a.task_sets@[i]).host
                == b.task_sets@[i].host,
    ensures
        some_host_missing(a) <==> some_host_missing(b),
        present_hosts_valid(a) <==> present_hosts_valid(b),
        hosts_resolvable(a) <==> hosts_resolvable(b),
{
    assert forall|i: int| 0 <= i < a.task_sets@.len() implies spec_chosen_host(
        a.configuration,
        #[trigger] a.task_sets@[i],
        a.defaults,
    ) == spec_chosen_host(b.configuration, b.task_sets@[i], b.defaults) by {
        assert(a.task_sets@[i].host == b.task_sets@[i].host);
    }
    assert(some_host_missing(a) <==> some_host_missing(b)) by {
        if some_host_missing(a) {
            let i = choose|i: int|
                0 <= i < a.task_sets@.len() && spec_chosen_host(
                    a.configuration,
                    #[trigger] a.task_sets@[i],
                    a.defaults,
                ) is None;
            assert(spec_chosen_host(b.configuration, b.task_sets@[i], b.defaults) is None);
        }
        if some_host_missing(b) {
            let i = choose|i: int|
                0 <= i < b.task_sets@.len() && spec_chosen_host(
                    b.configuration,
                    #[trigger] b.task_sets@[i],
                    b.defaults,
                ) is None;
            assert(spec_chosen_host(a.configuration, a.task_sets@[i], a.defaults) is None);
        }
    }
    assert(present_hosts_valid(a) <==> present_hosts_valid(b)) by {
        if present_hosts_valid(a) {
            assert forall|i: int| 0 <= i < b.task_sets@.len() implies (match spec_chosen_host(
                b.configuration,
                #[trigger] b.task_sets@[i],
                b.defaults,
            ) {
                Some(h) => util::url_accepts(h),
                None => true,
            }) by {
                assert(spec_chosen_host(a.configuration, a.task_sets@[i], a.defaults)
                    == spec_chosen_host(b.configuration, b.task_sets@[i], b.defaults));
            }
        }
        if present_hosts_valid(b) {
            assert forall|i: int| 0 <= i < a.task_sets@.len() implies (match spec_chosen_host(
                a.configuration,
                #[trigger] a.task_sets@[i],
                a.defaults,
            ) {
                Some(h) => util::url_accepts(h),
                None => true,
            }) by {
                assert(spec_chosen_host(a.configuration, a.task_sets@[i], a.defaults)
                    == spec_chosen_host(b.configuration, b.task_sets@[i], b.defaults));
            }
        }
    }
    assert(hosts_resolvable(a) <==> hosts_resolvable(b)) by {
        if hosts_resolvable(a) {
            assert forall|i: int| 0 <= i < b.task_sets@.len() implies (match spec_chosen_host(
                b.configuration,
                #[trigger] b.task_sets@[i],
                b.defaults,
            ) {
                Some(h) => util::url_accepts(h),
                None => false,
            }) by {
                assert(spec_chosen_host(a.configuration, a.task_sets@[i], a.defaults)
                    == spec_chosen_host(b.configuration, b.task_sets@[i], b.defaults));
            }
        }
        if hosts_resolvable(b) {
            assert forall|i: int| 0 <= i < a.task_sets@.len() implies (match spec_chosen_host(
                a.configuration,
                #[trigger] a.task_sets@[i],
                a.defaults,
            ) {
                Some(h) => util::url_accepts(h),
                None => false,
            }) by {
                assert(spec_chosen_host(a.configuration, a.task_sets@[i], a.defaults)
                    == spec_chosen_host(b.configuration, b.task_sets@[i], b.defaults));
            }
        }
    }
}

/// A prepared attack carries its users' data for the pre-validation
/// configuration as well: only the user count may have been filled in, and
/// the hosts agree.
proof fn lemma_prepared_carries(a: SwanlingAttack, mid: SwanlingAttack, orig: SwanlingAttack)
    requires
        prepared_ok(a, mid),
        mid.scheduler == orig.scheduler,
        mid.defaults == orig.defaults,
        mid.task_sets@ == orig.task_sets@,
        mid.configuration.host@ == orig.configuration.host@,
    ensures
        prepared_ok(a, orig),
{
    assert forall|k: int| 0 <= k < a.weighted_users@.len() implies user_carried(
        a,
        orig.configuration,
        k,
    ) by {
        assert(user_carried(a, mid.configuration, k));
        let wu = a.weighted_users@[k];
        let set = a.task_sets@[wu.task_sets_index as int];
        assert(spec_chosen_host(orig.configuration, set, a.defaults) == spec_chosen_host(
            mid.configuration,
            set,
            a.defaults,
        ));
    }
}

/// Whether the `--host` option is set.
fn self_host_set(c: &SwanlingConfiguration) -> (r: bool)
    ensures
        r == (c.host@.len() > 0),
{
    c.host.as_str().unicode_len() > 0
}

/// The weights of the task sets, in order.
pub open spec fn set_weights(sets: Seq<SwanlingTaskSet>) -> Seq<usize> {
    sets.map_values(|s: SwanlingTaskSet| s.weight)
}

/// An empty string takes its default.
fn merge_string(cur: String, d: &Option<String>) -> (r: String)
    ensures
        r@ == (if cur@.len() > 0 {
            cur@
        } else {
            match d {
                Some(v) => v@,
                None => cur@,
            }
        }),
{
    if cur.as_str().unicode_len() > 0 {
        cur
    } else {
        match d {
            Some(v) => v.clone(),
            None => cur,
        }
    }
}

/// An unset option takes its default.
fn merge_opt_string(cur: Option<String>, d: &Option<String>) -> (r: Option<String>)
    ensures
        (match (cur, d, r) {
            (Some(v), _, Some(rv)) => rv@ == v@,
            (None, Some(dv), Some(rv)) => rv@ == dv@,
            (None, None, None) => true,
            _ => false,
        }),
{
    match cur {
        Some(v) => Some(v),
        None => match d {
            Some(dv) => Some(dv.clone()),
            None => None,
        },
    }
}

impl SwanlingConfiguration {
    /// Merges the programmatic defaults into the effective configuration: an
    /// option keeps its explicitly set value, an unset option (empty string,
    /// `None`, `false`, or zero) takes its registered default, and an option
    /// with neither stays at the engine default. The duration and rate
    /// strings are evaluated separately.
    #[verifier::rlimit(100)]
    #[verifier::spinoff_prover]
    pub fn apply_defaults(self, defaults: &SwanlingDefaults) -> (r: SwanlingConfiguration)
        ensures
            r.host@ == (if self.host@.len() > 0 {
                self.host@
            } else {
                match defaults.host {
                    Some(v) => v@,
                    None => self.host@,
                }
            }),
            r.users == (if self.users is Some {
                self.users
            } else if defaults.users is Some {
                defaults.users
            } else {
                self.users
            }),
            (match (self.hatch_rate, defaults.hatch_rate, r.hatch_rate) {
                (Some(v), _, Some(rv)) => rv@ == v@,
                (None, Some(dv), Some(rv)) => rv@ == dv@,
                (None, None, None) => true,
                _ => false,
            }),
            r.running_metrics == (if self.running_metrics is Some {
                self.running_metrics
            } else if defaults.running_metrics is Some {
                defaults.running_metrics
            } else {
                self.running_metrics
            }),
            r.co_mitigation == (if self.co_mitigation is Some {
                self.co_mitigation
            } else if defaults.co_mitigation is Some {
                defaults.co_mitigation
            } else {
                self.co_mitigation
            }),
            r.request_format == (if self.request_format is Some {
                self.request_format
            } else {
                defaults.request_format
            }),
            r.task_format == (if self.task_format is Some {
                self.task_format
            } else {
                defaults.task_format
            }),
            r.error_format == (if self.error_format is Some {
                self.error_format
            } else {
                defaults.error_format
            }),
            r.debug_format == (if self.debug_format is Some {
                self.debug_format
            } else {
                defaults.debug_format
            }),
            r.no_autostart == (self.no_autostart || defaults.no_autostart == Some(true)),
            r.no_metrics == (self.no_metrics || defaults.no_metrics == Some(true)),
            r.no_reset_metrics == (self.no_reset_metrics || defaults.no_reset_metrics == Some(
                true,
            )),
            r.no_task_metrics == (self.no_task_metrics || defaults.no_task_metrics == Some(true)),
            r.no_error_summary == (self.no_error_summary || defaults.no_error_summary == Some(
                true,
            )),
            r.no_debug_body == (self.no_debug_body || defaults.no_debug_body == Some(true)),
            r.no_telnet == (self.no_telnet || defaults.no_telnet == Some(true)),
            r.no_websocket == (self.no_websocket || defaults.no_websocket == Some(true)),
            r.status_codes == (self.status_codes || defaults.status_codes == Some(true)),
            r.sticky_follow == (self.sticky_follow || defaults.sticky_follow == Some(true)),
            r.manager == (self.manager || defaults.manager == Some(true)),
            r.no_hash_check == (self.no_hash_check || defaults.no_hash_check == Some(true)),
            r.worker == (self.worker || defaults.worker == Some(true)),
            r.throttle_requests == (if self.throttle_requests > 0 {
                self.throttle_requests as int
            } else {
                match defaults.throttle_requests {
                    Some(v) => v as int,
                    None => 0,
                }
            }),
            r.log_level == (if self.log_level > 0 {
                self.log_level as int
            } else {
                match defaults.log_level {
                    Some(v) => v as int,
                    None => 0,
                }
            }),
            r.verbose == (if self.verbose > 0 {
                self.verbose as int
            } else {
                match defaults.verbose {
                    Some(v) => v as int,
                    None => 0,
                }
            }),
            r.telnet_port == (if self.telnet_port > 0 {
                self.telnet_port as int
            } else {
                match defaults.telnet_port {
                    Some(v) => v as int,
                    None => 0,
                }
            }),
            r.websocket_port == (if self.websocket_port > 0 {
                self.websocket_port as int
            } else {
                match defaults.websocket_port {
                    Some(v) => v as int,
                    None => 0,
                }
            }),
            r.expect_workers == (if self.expect_workers is Some {
                self.expect_workers
            } else {
                defaults.expect_workers
            }),
            r.run_time@ == self.run_time@,
            r.help == self.help,
            r.version == self.version,
            r.list == self.list,
            r.swanling_log@ == (if self.swanling_log@.len() > 0 {
                self.swanling_log@
            } else {
                match defaults.swanling_log {
                    Some(v) => v@,
                    None => self.swanling_log@,
                }
            }),
    {
        SwanlingConfiguration {
            help: self.help,
            version: self.version,
            list: self.list,
            host: merge_string(self.host, &defaults.host),
            users: if self.users.is_some() {
                self.users
            } else {
                defaults.users
            },
            hatch_rate: merge_opt_string(self.hatch_rate, &defaults.hatch_rate),
            run_time: self.run_time,
            swanling_log: merge_string(self.swanling_log, &defaults.swanling_log),
            log_level: if self.log_level > 0 {
                self.log_level
            } else {
                match defaults.log_level {
                    Some(v) => v,
                    None => 0,
                }
            },
            verbose: if self.verbose > 0 {
                self.verbose
            } else {
                match defaults.verbose {
                    Some(v) => v,
                    None => 0,
                }
            },
            running_metrics: if self.running_metrics.is_some() {
                self.running_metrics
            } else {
                defaults.running_metrics
            },
            no_reset_metrics: self.no_reset_metrics || defaults.no_reset_metrics == Some(true),
            no_metrics: self.no_metrics || defaults.no_metrics == Some(true),
            no_task_metrics: self.no_task_metrics || defaults.no_task_metrics == Some(true),
            no_error_summary: self.no_error_summary || defaults.no_error_summary == Some(true),
            report_file: merge_string(self.report_file, &defaults.report_file),
            request_log: merge_string(self.request_log, &defaults.request_log),
            request_format: if self.request_format.is_some() {
                self.request_format
            } else {
                defaults.request_format
            },
            task_log: merge_string(self.task_log, &defaults.task_log),
            task_format: if self.task_format.is_some() {
                self.task_format
            } else {
                defaults.task_format
            },
            error_log: merge_string(self.error_log, &defaults.error_log),
            error_format: if self.error_format.is_some() {
                self.error_format
            } else {
                defaults.error_format
            },
            debug_log: merge_string(self.debug_log, &defaults.debug_log),
            debug_format: if self.debug_format.is_some() {
                self.debug_format
            } else {
                defaults.debug_format
            },
            no_debug_body: self.no_debug_body || defaults.no_debug_body == Some(true),
            status_codes: self.status_codes || defaults.status_codes == Some(true),
            no_telnet: self.no_telnet || defaults.no_telnet == Some(true),
            telnet_host: merge_string(self.telnet_host, &defaults.telnet_host),
            telnet_port: if self.telnet_port > 0 {
                self.telnet_port
            } else {
                match defaults.telnet_port {
                    Some(v) => v,
                    None => 0,
                }
            },
            no_websocket: self.no_websocket || defaults.no_websocket == Some(true),
            websocket_host: merge_string(self.websocket_host, &defaults.websocket_host),
            websocket_port: if self.websocket_port > 0 {
                self.websocket_port
            } else {
                match defaults.websocket_port {
                    Some(v) => v,
                    None => 0,
                }
            },
            no_autostart: self.no_autostart || defaults.no_autostart == Some(true),
            co_mitigation: if self.co_mitigation.is_some() {
                self.co_mitigation
            } else {
                defaults.co_mitigation
            },
            throttle_requests: if self.throttle_requests > 0 {
                self.throttle_requests
            } else {
                match defaults.throttle_requests {
                    Some(v) => v,
                    None => 0,
                }
            },
            sticky_follow: self.sticky_follow || defaults.sticky_follow == Some(true),
            manager: self.manager || defaults.manager == Some(true),
            expect_workers: if self.expect_workers.is_some() {
                self.expect_workers
            } else {
                defaults.expect_workers
            },
            no_hash_check: self.no_hash_check || defaults.no_hash_check == Some(true),
            manager_bind_host: merge_string(self.manager_bind_host, &defaults.manager_bind_host),
            manager_bind_port: if self.manager_bind_port > 0 {
                self.manager_bind_port
            } else {
                match defaults.manager_bind_port {
                    Some(v) => v,
                    None => 0,
                }
            },
            worker: self.worker || defaults.worker == Some(true),
            manager_host: merge_string(self.manager_host, &defaults.manager_host),
            manager_port: if self.manager_port > 0 {
                self.manager_port
            } else {
                match defaults.manager_port {
                    Some(v) => v,
                    None => 0,
                }
            },
        }
    }
}

} // verus!
