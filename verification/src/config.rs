//! The effective configuration of a load test: the run-time options, the
//! programmatic defaults that may stand in for unset options, and the keys
//! under which a default can be registered.

use vstd::prelude::*;

use crate::logger::SwanlingLogFormat;
use crate::metrics::SwanlingCoordinatedOmissionMitigation;

verus! {

/// Options available when launching a load test. The surrounding process
/// fills this from the command line; the library validates it and fills in
/// defaults.
#[derive(Debug, PartialEq, Eq)]
pub struct SwanlingConfiguration {
    /// Displays help and exits.
    pub help: bool,
    /// Prints version information and exits.
    pub version: bool,
    /// Lists all tasks and exits.
    pub list: bool,
    /// Defines the host to load test.
    pub host: String,
    /// Sets the number of concurrent users (default: number of CPUs).
    pub users: Option<usize>,
    /// Sets the per-second user hatch rate as a decimal string (default: 1).
    pub hatch_rate: Option<String>,
    /// Stops after the given duration string (for example `30s` or `1h30m`).
    pub run_time: String,
    /// Enables the engine log file and sets its name.
    pub swanling_log: String,
    /// Sets the engine log level.
    pub log_level: u8,
    /// Sets the verbosity of standard output.
    pub verbose: u8,
    /// How often, in seconds, to optionally print running metrics.
    pub running_metrics: Option<usize>,
    /// Doesn't reset metrics after all users have started.
    pub no_reset_metrics: bool,
    /// Doesn't track metrics.
    pub no_metrics: bool,
    /// Doesn't track task metrics.
    pub no_task_metrics: bool,
    /// Doesn't display an error summary.
    pub no_error_summary: bool,
    /// Creates an html-formatted report file with the given name.
    pub report_file: String,
    /// Sets the request log file name.
    pub request_log: String,
    /// Sets the request log format.
    pub request_format: Option<SwanlingLogFormat>,
    /// Sets the task log file name.
    pub task_log: String,
    /// Sets the task log format.
    pub task_format: Option<SwanlingLogFormat>,
    /// Sets the error log file name.
    pub error_log: String,
    /// Sets the error log format.
    pub error_format: Option<SwanlingLogFormat>,
    /// Sets the debug log file name.
    pub debug_log: String,
    /// Sets the debug log format.
    pub debug_format: Option<SwanlingLogFormat>,
    /// Does not include the response body in the debug log.
    pub no_debug_body: bool,
    /// Tracks additional status code metrics.
    pub status_codes: bool,
    /// Doesn't enable the line-oriented controller.
    pub no_telnet: bool,
    /// Sets the host the line-oriented controller listens on.
    pub telnet_host: String,
    /// Sets the TCP port the line-oriented controller listens on.
    pub telnet_port: u16,
    /// Doesn't enable the framed WebSocket controller.
    pub no_websocket: bool,
    /// Sets the host the WebSocket controller listens on.
    pub websocket_host: String,
    /// Sets the TCP port the WebSocket controller listens on.
    pub websocket_port: u16,
    /// Doesn't automatically start the load test.
    pub no_autostart: bool,
    /// Sets the coordinated omission mitigation strategy.
    pub co_mitigation: Option<SwanlingCoordinatedOmissionMitigation>,
    /// Sets the maximum requests per second.
    pub throttle_requests: usize,
    /// Follows a base_url redirect with subsequent requests.
    pub sticky_follow: bool,
    /// Enables distributed load test manager mode.
    pub manager: bool,
    /// Sets the number of workers to expect.
    pub expect_workers: Option<u16>,
    /// Tells the manager to ignore the load test checksum.
    pub no_hash_check: bool,
    /// Sets the host the manager listens on.
    pub manager_bind_host: String,
    /// Sets the port the manager listens on.
    pub manager_bind_port: u16,
    /// Enables distributed load test worker mode.
    pub worker: bool,
    /// Sets the host a worker connects to.
    pub manager_host: String,
    /// Sets the port a worker connects to.
    pub manager_port: u16,
}

impl SwanlingConfiguration {
    /// An empty configuration: every flag off, every value unset.
    pub fn empty() -> (r: SwanlingConfiguration)
        ensures
            r.view_eq_default(),
    {
        SwanlingConfiguration {
            help: false,
            version: false,
            list: false,
            host: String::new(),
            users: None,
            hatch_rate: None,
            run_time: String::new(),
            swanling_log: String::new(),
            log_level: 0,
            verbose: 0,
            running_metrics: None,
            no_reset_metrics: false,
            no_metrics: false,
            no_task_metrics: false,
            no_error_summary: false,
            report_file: String::new(),
            request_log: String::new(),
            request_format: None,
            task_log: String::new(),
            task_format: None,
            error_log: String::new(),
            error_format: None,
            debug_log: String::new(),
            debug_format: None,
            no_debug_body: false,
            status_codes: false,
            no_telnet: false,
            telnet_host: String::new(),
            telnet_port: 0,
            no_websocket: false,
            websocket_host: String::new(),
            websocket_port: 0,
            no_autostart: false,
            co_mitigation: None,
            throttle_requests: 0,
            sticky_follow: false,
            manager: false,
            expect_workers: None,
            no_hash_check: false,
            manager_bind_host: String::new(),
            manager_bind_port: 0,
            worker: false,
            manager_host: String::new(),
            manager_port: 0,
        }
    }

    /// Whether every flag is off, every string empty and every option unset.
    pub open spec fn view_eq_default(self) -> bool {
        &&& self.help == false
        &&& self.version == false
        &&& self.list == false
        &&& self.host@ == Seq::<char>::empty()
        &&& self.users is None
        &&& self.hatch_rate is None
        &&& self.run_time@ == Seq::<char>::empty()
        &&& self.swanling_log@ == Seq::<char>::empty()
        &&& self.log_level == 0
        &&& self.verbose == 0
        &&& self.running_metrics is None
        &&& self.no_reset_metrics == false
        &&& self.no_metrics == false
        &&& self.no_task_metrics == false
        &&& self.no_error_summary == false
        &&& self.report_file@ == Seq::<char>::empty()
        &&& self.request_log@ == Seq::<char>::empty()
        &&& self.request_format is None
        &&& self.task_log@ == Seq::<char>::empty()
        &&& self.task_format is None
        &&& self.error_log@ == Seq::<char>::empty()
        &&& self.error_format is None
        &&& self.debug_log@ == Seq::<char>::empty()
        &&& self.debug_format is None
        &&& self.no_debug_body == false
        &&& self.status_codes == false
        &&& self.no_telnet == false
        &&& self.telnet_host@ == Seq::<char>::empty()
        &&& self.telnet_port == 0
        &&& self.no_websocket == false
        &&& self.websocket_host@ == Seq::<char>::empty()
        &&& self.websocket_port == 0
        &&& self.no_autostart == false
        &&& self.co_mitigation is None
        &&& self.throttle_requests == 0
        &&& self.sticky_follow == false
        &&& self.manager == false
        &&& self.expect_workers is None
        &&& self.no_hash_check == false
        &&& self.manager_bind_host@ == Seq::<char>::empty()
        &&& self.manager_bind_port == 0
        &&& self.worker == false
        &&& self.manager_host@ == Seq::<char>::empty()
        &&& self.manager_port == 0
    }
}

/// Optional programmatic default values for the run-time options. A default
/// stands in only where the matching option was not set.
#[derive(Debug, PartialEq, Eq)]
pub struct SwanlingDefaults {
    /// An optional default host to run this load test against.
    pub host: Option<String>,
    /// An optional default number of users to simulate.
    pub users: Option<usize>,
    /// An optional default number of users to start per second.
    pub hatch_rate: Option<String>,
    /// An optional default number of seconds for the test to run.
    pub run_time: Option<usize>,
    /// An optional default log level.
    pub log_level: Option<u8>,
    /// An optional default for the engine log file name.
    pub swanling_log: Option<String>,
    /// An optional default value for the verbosity level.
    pub verbose: Option<u8>,
    /// An optional default for printing running metrics.
    pub running_metrics: Option<usize>,
    /// An optional default for not resetting metrics after all users started.
    pub no_reset_metrics: Option<bool>,
    /// An optional default for not tracking metrics.
    pub no_metrics: Option<bool>,
    /// An optional default for not tracking task metrics.
    pub no_task_metrics: Option<bool>,
    /// An optional default for not displaying an error summary.
    pub no_error_summary: Option<bool>,
    /// An optional default for the html-formatted report file name.
    pub report_file: Option<String>,
    /// An optional default for the requests log file name.
    pub request_log: Option<String>,
    /// An optional default for the requests log file format.
    pub request_format: Option<SwanlingLogFormat>,
    /// An optional default for the tasks log file name.
    pub task_log: Option<String>,
    /// An optional default for the tasks log file format.
    pub task_format: Option<SwanlingLogFormat>,
    /// An optional default for the error log file name.
    pub error_log: Option<String>,
    /// An optional default for the error log format.
    pub error_format: Option<SwanlingLogFormat>,
    /// An optional default for the debug log file name.
    pub debug_log: Option<String>,
    /// An optional default for the debug log format.
    pub debug_format: Option<SwanlingLogFormat>,
    /// An optional default for not logging the response body in the debug log.
    pub no_debug_body: Option<bool>,
    /// An optional default for not enabling the line-oriented controller.
    pub no_telnet: Option<bool>,
    /// An optional default for not enabling the WebSocket controller.
    pub no_websocket: Option<bool>,
    /// An optional default for not auto-starting the load test.
    pub no_autostart: Option<bool>,
    /// An optional default for the coordinated omission mitigation strategy.
    pub co_mitigation: Option<SwanlingCoordinatedOmissionMitigation>,
    /// An optional default to track additional status code metrics.
    pub status_codes: Option<bool>,
    /// An optional default maximum number of requests per second.
    pub throttle_requests: Option<usize>,
    /// An optional default to follow a base_url redirect with later requests.
    pub sticky_follow: Option<bool>,
    /// An optional default to enable manager mode.
    pub manager: Option<bool>,
    /// An optional default for the number of workers to expect.
    pub expect_workers: Option<u16>,
    /// An optional default for the manager to ignore the load test checksum.
    pub no_hash_check: Option<bool>,
    /// An optional default for the host the line controller listens on.
    pub telnet_host: Option<String>,
    /// An optional default for the port the line controller listens on.
    pub telnet_port: Option<u16>,
    /// An optional default for the host the WebSocket controller listens on.
    pub websocket_host: Option<String>,
    /// An optional default for the port the WebSocket controller listens on.
    pub websocket_port: Option<u16>,
    /// An optional default for the host the manager listens on.
    pub manager_bind_host: Option<String>,
    /// An optional default for the port the manager listens on.
    pub manager_bind_port: Option<u16>,
    /// An optional default to enable worker mode.
    pub worker: Option<bool>,
    /// An optional default for the host a worker connects to.
    pub manager_host: Option<String>,
    /// An optional default for the port a worker connects to.
    pub manager_port: Option<u16>,
}

impl SwanlingDefaults {
    /// No defaults registered.
    pub fn none() -> (r: SwanlingDefaults)
        ensures
            r == SwanlingDefaults::spec_none(),
    {
        SwanlingDefaults {
            host: None,
            users: None,
            hatch_rate: None,
            run_time: None,
            log_level: None,
            swanling_log: None,
            verbose: None,
            running_metrics: None,
            no_reset_metrics: None,
            no_metrics: None,
            no_task_metrics: None,
            no_error_summary: None,
            report_file: None,
            request_log: None,
            request_format: None,
            task_log: None,
            task_format: None,
            error_log: None,
            error_format: None,
            debug_log: None,
            debug_format: None,
            no_debug_body: None,
            no_telnet: None,
            no_websocket: None,
            no_autostart: None,
            co_mitigation: None,
            status_codes: None,
            throttle_requests: None,
            sticky_follow: None,
            manager: None,
            expect_workers: None,
            no_hash_check: None,
            telnet_host: None,
            telnet_port: None,
            websocket_host: None,
            websocket_port: None,
            manager_bind_host: None,
            manager_bind_port: None,
            worker: None,
            manager_host: None,
            manager_port: None,
        }
    }

    /// The record with no default registered.
    pub open spec fn spec_none() -> SwanlingDefaults {
        SwanlingDefaults {
            host: None,
            users: None,
            hatch_rate: None,
            run_time: None,
            log_level: None,
            swanling_log: None,
            verbose: None,
            running_metrics: None,
            no_reset_metrics: None,
            no_metrics: None,
            no_task_metrics: None,
            no_error_summary: None,
            report_file: None,
            request_log: None,
            request_format: None,
            task_log: None,
            task_format: None,
            error_log: None,
            error_format: None,
            debug_log: None,
            debug_format: None,
            no_debug_body: None,
            no_telnet: None,
            no_websocket: None,
            no_autostart: None,
            co_mitigation: None,
            status_codes: None,
            throttle_requests: None,
            sticky_follow: None,
            manager: None,
            expect_workers: None,
            no_hash_check: None,
            telnet_host: None,
            telnet_port: None,
            websocket_host: None,
            websocket_port: None,
            manager_bind_host: None,
            manager_bind_port: None,
            worker: None,
            manager_host: None,
            manager_port: None,
        }
    }
}

/// The keys under which a run-time option can be given a programmatic
/// default.
#[derive(Clone, Copy, Debug, PartialEq, Eq, Structural)]
pub enum SwanlingDefault {
    /// An optional default host to run this load test against.
    Host,
    /// An optional default number of users to simulate.
    Users,
    /// An optional default number of users to start per second.
    HatchRate,
    /// An optional default number of seconds for the test to run.
    RunTime,
    /// An optional default log level.
    LogLevel,
    /// An optional default for the log file name.
    SwanlingLog,
    /// An optional default value for the verbosity level.
    Verbose,
    /// An optional default for printing running metrics.
    RunningMetrics,
    /// An optional default for not resetting metrics after all users started.
    NoResetMetrics,
    /// An optional default for not tracking metrics.
    NoMetrics,
    /// An optional default for not tracking task metrics.
    NoTaskMetrics,
    /// An optional default for not displaying an error summary.
    NoErrorSummary,
    /// An optional default for the report file name.
    ReportFile,
    /// An optional default for the request log file name.
    RequestLog,
    /// An optional default for the request log file format.
    RequestFormat,
    /// An optional default for the task log file name.
    TaskLog,
    /// An optional default for the task log file format.
    TaskFormat,
    /// An optional default for the error log file name.
    ErrorLog,
    /// An optional default for the error log format.
    ErrorFormat,
    /// An optional default for the debug log file name.
    DebugLog,
    /// An optional default for the debug log format.
    DebugFormat,
    /// An optional default for not logging the response body in the debug log.
    NoDebugBody,
    /// An optional default for not enabling the line-oriented controller.
    NoTelnet,
    /// An optional default for not enabling the WebSocket controller.
    NoWebSocket,
    /// An optional default for the coordinated omission mitigation strategy.
    CoordinatedOmissionMitigation,
    /// An optional default for not automatically starting the load test.
    NoAutoStart,
    /// An optional default to track additional status code metrics.
    StatusCodes,
    /// An optional default maximum number of requests per second.
    ThrottleRequests,
    /// An optional default to follow a base_url redirect with later requests.
    StickyFollow,
    /// An optional default to enable manager mode.
    Manager,
    /// An optional default for the number of workers to expect.
    ExpectWorkers,
    /// An optional default for the manager to ignore the load test checksum.
    NoHashCheck,
    /// An optional default for the host the line controller listens on.
    TelnetHost,
    /// An optional default for the port the line controller listens on.
    TelnetPort,
    /// An optional default for the host the WebSocket controller listens on.
    WebSocketHost,
    /// An optional default for the port the WebSocket controller listens on.
    WebSocketPort,
    /// An optional default for the host the manager listens on.
    ManagerBindHost,
    /// An optional default for the port the manager listens on.
    ManagerBindPort,
    /// An optional default to enable worker mode.
    Worker,
    /// An optional default for the host a worker connects to.
    ManagerHost,
    /// An optional default for the port a worker connects to.
    ManagerPort,
}

/// Copies an optional string.
pub fn clone_opt_string(o: &Option<String>) -> (r: Option<String>)
    ensures
        r == o,
{
    match o {
        Some(s) => Some(s.clone()),
        None => None,
    }
}

impl Clone for SwanlingConfiguration {
    /// A clone equals the original in every field.
    fn clone(&self) -> (r: Self)
        ensures
            r == *self,
    {
        SwanlingConfiguration {
            help: self.help,
            version: self.version,
            list: self.list,
            host: self.host.clone(),
            users: self.users,
            hatch_rate: clone_opt_string(&self.hatch_rate),
            run_time: self.run_time.clone(),
            swanling_log: self.swanling_log.clone(),
            log_level: self.log_level,
            verbose: self.verbose,
            running_metrics: self.running_metrics,
            no_reset_metrics: self.no_reset_metrics,
            no_metrics: self.no_metrics,
            no_task_metrics: self.no_task_metrics,
            no_error_summary: self.no_error_summary,
            report_file: self.report_file.clone(),
            request_log: self.request_log.clone(),
            request_format: self.request_format,
            task_log: self.task_log.clone(),
            task_format: self.task_format,
            error_log: self.error_log.clone(),
            error_format: self.error_format,
            debug_log: self.debug_log.clone(),
            debug_format: self.debug_format,
            no_debug_body: self.no_debug_body,
            status_codes: self.status_codes,
            no_telnet: self.no_telnet,
            telnet_host: self.telnet_host.clone(),
            telnet_port: self.telnet_port,
            no_websocket: self.no_websocket,
            websocket_host: self.websocket_host.clone(),
            websocket_port: self.websocket_port,
            no_autostart: self.no_autostart,
            co_mitigation: self.co_mitigation,
            throttle_requests: self.throttle_requests,
            sticky_follow: self.sticky_follow,
            manager: self.manager,
            expect_workers: self.expect_workers,
            no_hash_check: self.no_hash_check,
            manager_bind_host: self.manager_bind_host.clone(),
            manager_bind_port: self.manager_bind_port,
            worker: self.worker,
            manager_host: self.manager_host.clone(),
            manager_port: self.manager_port,
        }
    }
}

impl Clone for SwanlingDefaults {
    /// A clone equals the original in every field.
    fn clone(&self) -> (r: Self)
        ensures
            r == *self,
    {
        SwanlingDefaults {
            host: clone_opt_string(&self.host),
            users: self.users,
            hatch_rate: clone_opt_string(&self.hatch_rate),
            run_time: self.run_time,
            log_level: self.log_level,
            swanling_log: clone_opt_string(&self.swanling_log),
            verbose: self.verbose,
            running_metrics: self.running_metrics,
            no_reset_metrics: self.no_reset_metrics,
            no_metrics: self.no_metrics,
            no_task_metrics: self.no_task_metrics,
            no_error_summary: self.no_error_summary,
            report_file: clone_opt_string(&self.report_file),
            request_log: clone_opt_string(&self.request_log),
            request_format: self.request_format,
            task_log: clone_opt_string(&self.task_log),
            task_format: self.task_format,
            error_log: clone_opt_string(&self.error_log),
            error_format: self.error_format,
            debug_log: clone_opt_string(&self.debug_log),
            debug_format: self.debug_format,
            no_debug_body: self.no_debug_body,
            no_telnet: self.no_telnet,
            no_websocket: self.no_websocket,
            no_autostart: self.no_autostart,
            co_mitigation: self.co_mitigation,
            status_codes: self.status_codes,
            throttle_requests: self.throttle_requests,
            sticky_follow: self.sticky_follow,
            manager: self.manager,
            expect_workers: self.expect_workers,
            no_hash_check: self.no_hash_check,
            telnet_host: clone_opt_string(&self.telnet_host),
            telnet_port: self.telnet_port,
            websocket_host: clone_opt_string(&self.websocket_host),
            websocket_port: self.websocket_port,
            manager_bind_host: clone_opt_string(&self.manager_bind_host),
            manager_bind_port: self.manager_bind_port,
            worker: self.worker,
            manager_host: clone_opt_string(&self.manager_host),
            manager_port: self.manager_port,
        }
    }
}

} // verus!
